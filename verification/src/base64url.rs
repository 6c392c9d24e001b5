use vstd::prelude::*;

verus! {

// The unpadded URL-safe base64 alphabet used by bearer-token segments:
// `A`-`Z`, `a`-`z`, `0`-`9`, `-`, `_`, and no `=` padding.

/// The alphabet byte standing for the six-bit value `v`.
pub open spec fn b64_char(v: u8) -> u8 {
    if v < 26 {
        (0x41 + v) as u8
    } else if v < 52 {
        (0x61 + (v - 26)) as u8
    } else if v < 62 {
        (0x30 + (v - 52)) as u8
    } else if v == 62 {
        0x2d
    } else {
        0x5f
    }
}

/// The six-bit value of an alphabet byte, or 255 for a byte outside the
/// alphabet.
pub open spec fn b64_val(b: u8) -> u8 {
    if 0x41 <= b <= 0x5a {
        (b - 0x41) as u8
    } else if 0x61 <= b <= 0x7a {
        ((b - 0x61) + 26) as u8
    } else if 0x30 <= b <= 0x39 {
        ((b - 0x30) + 52) as u8
    } else if b == 0x2d {
        62
    } else if b == 0x5f {
        63
    } else {
        255
    }
}

pub open spec fn is_b64_byte(b: u8) -> bool {
    b64_val(b) != 255
}

/// The canonical unpadded base64url encoding of a byte string: full groups of
/// three bytes become four alphabet bytes; a final group of one or two bytes
/// becomes two or three alphabet bytes with the unused low bits zero.
pub open spec fn b64_encode_seq(b: Seq<u8>) -> Seq<u8>
    decreases b.len(),
{
    if b.len() == 0 {
        Seq::empty()
    } else if b.len() == 1 {
        seq![b64_char(b[0] / 4), b64_char(((b[0] % 4) * 16) as u8)]
    } else if b.len() == 2 {
        seq![
            b64_char(b[0] / 4),
            b64_char(((b[0] % 4) * 16 + b[1] / 16) as u8),
            b64_char(((b[1] % 16) * 4) as u8),
        ]
    } else {
        seq![
            b64_char(b[0] / 4),
            b64_char(((b[0] % 4) * 16 + b[1] / 16) as u8),
            b64_char(((b[1] % 16) * 4 + b[2] / 64) as u8),
            b64_char((b[2] % 64) as u8),
        ] + b64_encode_seq(b.skip(3))
    }
}

/// Strict decoding: succeeds exactly on canonical encodings (alphabet bytes
/// only, no padding, a final short group's unused low bits zero).
pub open spec fn b64_decode_seq(s: Seq<u8>) -> Option<Seq<u8>>
    decreases s.len(),
{
    if s.len() == 0 {
        Some(Seq::empty())
    } else if s.len() == 1 {
        None
    } else if s.len() == 2 {
        if is_b64_byte(s[0]) && is_b64_byte(s[1]) && b64_val(s[1]) % 16 == 0 {
            Some(seq![(b64_val(s[0]) * 4 + b64_val(s[1]) / 16) as u8])
        } else {
            None
        }
    } else if s.len() == 3 {
        if is_b64_byte(s[0]) && is_b64_byte(s[1]) && is_b64_byte(s[2]) && b64_val(s[2]) % 4 == 0 {
            Some(
                seq![
                    (b64_val(s[0]) * 4 + b64_val(s[1]) / 16) as u8,
                    ((b64_val(s[1]) % 16) * 16 + b64_val(s[2]) / 4) as u8,
                ],
            )
        } else {
            None
        }
    } else {
        if is_b64_byte(s[0]) && is_b64_byte(s[1]) && is_b64_byte(s[2]) && is_b64_byte(s[3]) {
            match b64_decode_seq(s.skip(4)) {
                Some(rest) => Some(
                    seq![
                        (b64_val(s[0]) * 4 + b64_val(s[1]) / 16) as u8,
                        ((b64_val(s[1]) % 16) * 16 + b64_val(s[2]) / 4) as u8,
                        ((b64_val(s[2]) % 4) * 64 + b64_val(s[3])) as u8,
                    ] + rest,
                ),
                None => None,
            }
        } else {
            None
        }
    }
}

/// An alphabet byte is recognised as such, and carries its six-bit value.
pub broadcast proof fn lemma_b64_char_val(v: u8)
    requires
        v < 64,
    ensures
        is_b64_byte(#[trigger] b64_char(v)),
        b64_val(b64_char(v)) == v,
{
}

/// Every byte of a canonical encoding lies in the alphabet.
pub proof fn lemma_b64_encode_alphabet(b: Seq<u8>)
    ensures
        forall|i: int|
            0 <= i < b64_encode_seq(b).len() ==> is_b64_byte(#[trigger] b64_encode_seq(b)[i]),
    decreases b.len(),
{
    broadcast use lemma_b64_char_val;

    if b.len() > 2 {
        lemma_b64_encode_alphabet(b.skip(3));
        assert forall|i: int| 0 <= i < b64_encode_seq(b).len() implies is_b64_byte(
            #[trigger] b64_encode_seq(b)[i],
        ) by {
            if i >= 4 {
                assert(b64_encode_seq(b)[i] == b64_encode_seq(b.skip(3))[i - 4]);
            }
        }
    }
}

/// Decoding a canonical encoding gives back the original bytes.
pub proof fn lemma_b64_decode_encode(b: Seq<u8>)
    ensures
        b64_decode_seq(b64_encode_seq(b)) == Some(b),
    decreases b.len(),
{
    let e = b64_encode_seq(b);
    if b.len() == 0 {
        assert(b =~= Seq::<u8>::empty());
    } else if b.len() == 1 {
        assert(b64_decode_seq(e) == Some(b)) by {
            assert(b64_val(e[0]) == b[0] / 4 && b64_val(e[1]) == (b[0] % 4) * 16);
            assert(b64_decode_seq(e) matches Some(d) && d =~= b);
        }
    } else if b.len() == 2 {
        assert(b64_decode_seq(e) == Some(b)) by {
            assert(b64_val(e[0]) == b[0] / 4 && b64_val(e[1]) == (b[0] % 4) * 16 + b[1] / 16
                && b64_val(e[2]) == (b[1] % 16) * 4);
            assert(b64_decode_seq(e) matches Some(d) && d =~= b);
        }
    } else {
        lemma_b64_decode_encode(b.skip(3));
        assert(e.skip(4) =~= b64_encode_seq(b.skip(3)));
        assert(b64_val(e[0]) == b[0] / 4 && b64_val(e[1]) == (b[0] % 4) * 16 + b[1] / 16
            && b64_val(e[2]) == (b[1] % 16) * 4 + b[2] / 64 && b64_val(e[3]) == b[2] % 64);
        assert(b64_decode_seq(e) matches Some(d) && d =~= b);
    }
}

/// The six-bit value of a byte, 255 outside the alphabet.
fn b64_val_of(b: u8) -> (v: u8)
    ensures
        v == b64_val(b),
{
    if 0x41 <= b && b <= 0x5a {
        b - 0x41
    } else if 0x61 <= b && b <= 0x7a {
        (b - 0x61) + 26
    } else if 0x30 <= b && b <= 0x39 {
        (b - 0x30) + 52
    } else if b == 0x2d {
        62
    } else if b == 0x5f {
        63
    } else {
        255
    }
}

/// The alphabet byte of a six-bit value.
fn b64_char_of(v: u8) -> (b: u8)
    requires
        v < 64,
    ensures
        b == b64_char(v),
{
    if v < 26 {
        0x41 + v
    } else if v < 52 {
        0x61 + (v - 26)
    } else if v < 62 {
        0x30 + (v - 52)
    } else if v == 62 {
        0x2d
    } else {
        0x5f
    }
}

/// Append the canonical unpadded base64url encoding of `b` to `out`.
pub fn b64_encode_into(out: &mut Vec<u8>, b: &[u8])
    ensures
        final(out)@ == old(out)@ + b64_encode_seq(b@),
{
    let n = b.len();
    let mut i: usize = 0;
    proof {
        assert(b@.skip(0) =~= b@);
    }
    while n - i >= 3
        invariant
            i <= n,
            n == b@.len(),
            i % 3 == 0,
            out@ + b64_encode_seq(b@.skip(i as int)) == old(out)@ + b64_encode_seq(b@),
        decreases n - i,
    {
        let b0 = b[i];
        let b1 = b[i + 1];
        let b2 = b[i + 2];
        proof {
            assert(b@.skip(i as int)[0] == b0 && b@.skip(i as int)[1] == b1 && b@.skip(i as int)[2]
                == b2);
            assert(b@.skip(i as int).skip(3) =~= b@.skip(i + 3));
        }
        out.push(b64_char_of(b0 / 4));
        out.push(b64_char_of((b0 % 4) * 16 + b1 / 16));
        out.push(b64_char_of((b1 % 16) * 4 + b2 / 64));
        out.push(b64_char_of(b2 % 64));
        i += 3;
    }
    if n - i == 1 {
        let b0 = b[i];
        proof {
            assert(b@.skip(i as int)[0] == b0);
        }
        out.push(b64_char_of(b0 / 4));
        out.push(b64_char_of((b0 % 4) * 16));
    } else if n - i == 2 {
        let b0 = b[i];
        let b1 = b[i + 1];
        proof {
            assert(b@.skip(i as int)[0] == b0 && b@.skip(i as int)[1] == b1);
        }
        out.push(b64_char_of(b0 / 4));
        out.push(b64_char_of((b0 % 4) * 16 + b1 / 16));
        out.push(b64_char_of((b1 % 16) * 4));
    } else {
        proof {
            assert(b@.skip(i as int) =~= Seq::<u8>::empty());
        }
    }
}

/// Decode an unpadded base64url byte string strictly; `None` when `s` is not
/// a canonical encoding.
pub fn b64_decode(s: &[u8]) -> (r: Option<Vec<u8>>)
    ensures
        match r {
            Some(v) => b64_decode_seq(s@) == Some(v@),
            None => b64_decode_seq(s@) is None,
        },
{
    let n = s.len();
    let mut out: Vec<u8> = Vec::new();
    let mut i: usize = 0;
    proof {
        broadcast use Seq::add_empty_left;

        assert(s@.skip(0) =~= s@);
    }
    while n - i >= 4
        invariant
            i <= n,
            n == s@.len(),
            i % 4 == 0,
            b64_decode_seq(s@) == (match b64_decode_seq(s@.skip(i as int)) {
                Some(t) => Some(out@ + t),
                None => None::<Seq<u8>>,
            }),
        decreases n - i,
    {
        let v0 = b64_val_of(s[i]);
        let v1 = b64_val_of(s[i + 1]);
        let v2 = b64_val_of(s[i + 2]);
        let v3 = b64_val_of(s[i + 3]);
        proof {
            let rem = s@.skip(i as int);
            assert(rem[0] == s@[i as int] && rem[1] == s@[i + 1] && rem[2] == s@[i + 2] && rem[3]
                == s@[i + 3]);
            assert(rem.skip(4) =~= s@.skip(i + 4));
        }
        if v0 == 255 || v1 == 255 || v2 == 255 || v3 == 255 {
            return None;
        }
        out.push(v0 * 4 + v1 / 16);
        out.push((v1 % 16) * 16 + v2 / 4);
        out.push((v2 % 4) * 64 + v3);
        i += 4;
    }
    if n - i == 0 {
        proof {
            assert(s@.skip(i as int) =~= Seq::<u8>::empty());
            assert(b64_decode_seq(s@) == Some(out@ + Seq::<u8>::empty()));
            assert(out@ + Seq::<u8>::empty() =~= out@);
        }
        Some(out)
    } else if n - i == 1 {
        None
    } else if n - i == 2 {
        let v0 = b64_val_of(s[i]);
        let v1 = b64_val_of(s[i + 1]);
        proof {
            let rem = s@.skip(i as int);
            assert(rem[0] == s@[i as int] && rem[1] == s@[i + 1]);
        }
        if v0 == 255 || v1 == 255 || v1 % 16 != 0 {
            return None;
        }
        out.push(v0 * 4 + v1 / 16);
        proof {
            assert(b64_decode_seq(s@) matches Some(t) && t =~= out@);
        }
        Some(out)
    } else {
        let v0 = b64_val_of(s[i]);
        let v1 = b64_val_of(s[i + 1]);
        let v2 = b64_val_of(s[i + 2]);
        proof {
            let rem = s@.skip(i as int);
            assert(rem[0] == s@[i as int] && rem[1] == s@[i + 1] && rem[2] == s@[i + 2]);
        }
        if v0 == 255 || v1 == 255 || v2 == 255 || v2 % 4 != 0 {
            return None;
        }
        out.push(v0 * 4 + v1 / 16);
        out.push((v1 % 16) * 16 + v2 / 4);
        proof {
            assert(b64_decode_seq(s@) matches Some(t) && t =~= out@);
        }
        Some(out)
    }
}

} // verus!
