use vstd::prelude::*;
use crate::text::is_digit;

verus! {

/// The canonical decimal representation of `n`: most significant digit first,
/// no leading zero.
pub open spec fn dec_rep(n: nat) -> Seq<u8>
    decreases n,
{
    if n < 10 {
        seq![(0x30 + n) as u8]
    } else {
        dec_rep(n / 10) + seq![(0x30 + n % 10) as u8]
    }
}

/// The value of a digit region read left to right on top of an accumulator.
pub open spec fn digits_val(d: Seq<u8>, acc: int) -> int
    decreases d.len(),
{
    if d.len() == 0 {
        acc
    } else {
        digits_val(d.skip(1), acc * 10 + (d[0] - 0x30))
    }
}

/// Greedy decimal parse at position `i` of `s`: consumes the longest run of
/// digits, rejects a leading zero before further digits, rejects values that
/// do not fit in a `u64`. Returns the value and the position after it.
pub open spec fn spec_parse_u64(s: Seq<u8>, i: int) -> Option<(u64, int)> {
    if 0 <= i < s.len() && is_digit(s[i]) {
        if s[i] == 0x30 {
            if i + 1 < s.len() && is_digit(s[i + 1]) {
                None
            } else {
                Some((0u64, i + 1))
            }
        } else {
            spec_parse_u64_loop(s, i, 0u64)
        }
    } else {
        None
    }
}

pub open spec fn spec_parse_u64_loop(s: Seq<u8>, i: int, acc: u64) -> Option<(u64, int)>
    decreases s.len() - i,
{
    if 0 <= i < s.len() && is_digit(s[i]) {
        let v = acc * 10 + (s[i] - 0x30);
        if v > u64::MAX {
            None
        } else {
            spec_parse_u64_loop(s, i + 1, v as u64)
        }
    } else {
        Some((acc, i))
    }
}

/// Every byte of `dec_rep(n)` is a digit; the first is `0` only for zero.
pub proof fn lemma_dec_rep_shape(n: nat)
    ensures
        dec_rep(n).len() >= 1,
        forall|i: int| 0 <= i < dec_rep(n).len() ==> is_digit(#[trigger] dec_rep(n)[i]),
        dec_rep(n)[0] == 0x30 <==> n == 0,
    decreases n,
{
    if n >= 10 {
        lemma_dec_rep_shape(n / 10);
        assert forall|i: int| 0 <= i < dec_rep(n).len() implies is_digit(#[trigger] dec_rep(n)[i]) by {
            if i < dec_rep(n / 10).len() {
                assert(dec_rep(n)[i] == dec_rep(n / 10)[i]);
            }
        }
        assert(dec_rep(n)[0] == dec_rep(n / 10)[0]);
    }
}

proof fn lemma_digits_val_snoc(d: Seq<u8>, last: u8, acc: int)
    ensures
        digits_val(d + seq![last], acc) == digits_val(d, acc) * 10 + (last - 0x30),
    decreases d.len(),
{
    if d.len() == 0 {
        assert((d + seq![last])[0] == last);
        assert((d + seq![last]).skip(1) =~= Seq::<u8>::empty());
        assert(digits_val(Seq::<u8>::empty(), acc * 10 + (last - 0x30)) == acc * 10 + (last
            - 0x30));
    } else {
        assert((d + seq![last])[0] == d[0]);
        assert((d + seq![last]).skip(1) =~= d.skip(1) + seq![last]);
        lemma_digits_val_snoc(d.skip(1), last, acc * 10 + (d[0] - 0x30));
    }
}

/// Reading the canonical representation of `n` on top of `acc` gives
/// `acc * 10^len + n`; with `acc == 0`, just `n`.
pub proof fn lemma_digits_val_dec_rep(n: nat)
    ensures
        digits_val(dec_rep(n), 0) == n,
{
    lemma_digits_val_dec_rep_acc(n, 0);
}

proof fn lemma_digits_val_dec_rep_acc(n: nat, acc: int)
    ensures
        digits_val(dec_rep(n), acc) == acc * pow10(dec_rep(n).len() as nat) + n,
    decreases n,
{
    if n < 10 {
        assert(dec_rep(n) =~= seq![(0x30 + n) as u8]);
        assert(dec_rep(n).skip(1) =~= Seq::<u8>::empty());
        assert(digits_val(Seq::<u8>::empty(), acc * 10 + n) == acc * 10 + n);
        assert(dec_rep(n)[0] == 0x30 + n);
        assert(digits_val(dec_rep(n), acc) == acc * 10 + n);
        assert(pow10(0) == 1);
        assert(pow10(1) == 10);
        assert(acc * pow10(1) == acc * 10) by (nonlinear_arith)
            requires pow10(1) == 10;
    } else {
        lemma_digits_val_dec_rep_acc(n / 10, acc);
        lemma_digits_val_snoc(dec_rep(n / 10), (0x30 + n % 10) as u8, acc);
        let l = dec_rep(n / 10).len() as nat;
        assert(digits_val(dec_rep(n), acc) == (acc * pow10(l) + n / 10) * 10 + n % 10);
        assert((acc * pow10(l) + n / 10) * 10 + n % 10 == acc * (pow10(l) * 10) + ((n / 10) * 10 + n
            % 10)) by (nonlinear_arith);
        assert(pow10(l + 1) == pow10(l) * 10);
        assert((n / 10) * 10 + n % 10 == n) by (nonlinear_arith);
    }
}

pub open spec fn pow10(k: nat) -> int
    decreases k,
{
    if k == 0 {
        1
    } else {
        pow10((k - 1) as nat) * 10
    }
}

proof fn lemma_digits_val_grows(d: Seq<u8>, acc: int)
    requires
        acc >= 0,
        forall|i: int| 0 <= i < d.len() ==> is_digit(#[trigger] d[i]),
    ensures
        digits_val(d, acc) >= acc,
    decreases d.len(),
{
    if d.len() > 0 {
        assert(acc * 10 + (d[0] - 0x30) >= acc) by (nonlinear_arith)
            requires acc >= 0 && d[0] >= 0x30;
        lemma_digits_val_grows(d.skip(1), acc * 10 + (d[0] - 0x30));
    }
}

/// The parsing loop, run over a digit region whose value fits in a `u64` and
/// that is followed by a non-digit (or the end), returns that value.
proof fn lemma_parse_loop_digits(s: Seq<u8>, i: int, j: int, acc: u64)
    requires
        0 <= i <= j <= s.len(),
        forall|k: int| i <= k < j ==> is_digit(#[trigger] s[k]),
        j == s.len() || !is_digit(s[j]),
        digits_val(s.subrange(i, j), acc as int) <= u64::MAX,
    ensures
        spec_parse_u64_loop(s, i, acc) == Some(
            (digits_val(s.subrange(i, j), acc as int) as u64, j),
        ),
    decreases j - i,
{
    let region = s.subrange(i, j);
    if i == j {
        assert(region =~= Seq::<u8>::empty());
    } else {
        let v = acc * 10 + (s[i] - 0x30);
        assert(region.skip(1) =~= s.subrange(i + 1, j));
        assert(digits_val(region, acc as int) == digits_val(s.subrange(i + 1, j), v));
        lemma_digits_val_grows(s.subrange(i + 1, j), v);
        lemma_parse_loop_digits(s, i + 1, j, v as u64);
    }
}

/// Parsing at a position holding `dec_rep(n)` followed by a non-digit yields
/// exactly `n`.
pub proof fn lemma_parse_dec_rep(s: Seq<u8>, i: int, n: u64)
    requires
        0 <= i,
        i + dec_rep(n as nat).len() <= s.len(),
        s.subrange(i, i + dec_rep(n as nat).len()) == dec_rep(n as nat),
        i + dec_rep(n as nat).len() == s.len() || !is_digit(s[i + dec_rep(n as nat).len()]),
    ensures
        spec_parse_u64(s, i) == Some((n, i + dec_rep(n as nat).len())),
{
    let rep = dec_rep(n as nat);
    let j = i + rep.len();
    lemma_dec_rep_shape(n as nat);
    assert(forall|k: int| i <= k < j ==> s[k] == rep[k - i]);
    assert(is_digit(s[i]));
    if n == 0 {
        assert(rep =~= seq![0x30u8]);
        assert(s[i] == 0x30);
    } else {
        assert(s[i] == rep[0] && rep[0] != 0x30);
        lemma_digits_val_dec_rep(n as nat);
        assert(s.subrange(i, j) =~= rep);
        lemma_parse_loop_digits(s, i, j, 0u64);
    }
}

/// Append the canonical decimal representation of `n` to `out`.
pub fn push_decimal(out: &mut Vec<u8>, n: u64)
    ensures
        final(out)@ == old(out)@ + dec_rep(n as nat),
    decreases n,
{
    if n < 10 {
        out.push(0x30 + (n as u8));
    } else {
        push_decimal(out, n / 10);
        out.push(0x30 + ((n % 10) as u8));
    }
}

/// Parse a decimal `u64` at position `i`; exactly `spec_parse_u64`.
pub fn parse_u64(s: &[u8], i: usize) -> (r: Option<(u64, usize)>)
    requires
        i <= s@.len(),
    ensures
        match r {
            Some((v, j)) => spec_parse_u64(s@, i as int) == Some((v, j as int)) && i < j <= s@.len(),
            None => spec_parse_u64(s@, i as int) is None,
        },
{
    let n = s.len();
    if i >= n || !(0x30 <= s[i] && s[i] <= 0x39) {
        return None;
    }
    if s[i] == 0x30 {
        if i + 1 < n && 0x30 <= s[i + 1] && s[i + 1] <= 0x39 {
            return None;
        }
        return Some((0, i + 1));
    }
    let mut acc: u64 = (s[i] - 0x30) as u64;
    let mut j: usize = i + 1;
    loop
        invariant
            i < j <= n,
            n == s@.len(),
            spec_parse_u64(s@, i as int) == spec_parse_u64_loop(s@, i as int, 0u64),
            spec_parse_u64_loop(s@, i as int, 0u64) == spec_parse_u64_loop(s@, j as int, acc),
        ensures
            spec_parse_u64_loop(s@, i as int, 0u64) == Some((acc, j as int)),
            i < j <= n,
        decreases n - j,
    {
        if j >= n || !(0x30 <= s[j] && s[j] <= 0x39) {
            break;
        }
        let d = (s[j] - 0x30) as u64;
        if acc > (u64::MAX - d) / 10 {
            proof {
                assert(acc * 10 + d > u64::MAX) by (nonlinear_arith)
                    requires acc > (u64::MAX - d) / 10 && d <= 9;
            }
            return None;
        }
        proof {
            assert(acc * 10 + d <= u64::MAX) by (nonlinear_arith)
                requires acc <= (u64::MAX - d) / 10 && d <= 9;
        }
        acc = acc * 10 + d;
        j += 1;
    }
    Some((acc, j))
}

} // verus!
