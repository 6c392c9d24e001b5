use vstd::prelude::*;
use vstd::string::StringExecFns;
use crate::handlers::responses::MessageResponse;

verus! {

// The wallet-provisioning call: the process wiring posts to the currency
// service with the freshly minted token as a bearer credential; what goes
// into the request and how the answer is judged is decided here.

/// The `Authorization` value the provisioning request carries.
pub fn bearer_header_value(token: &str) -> (r: String)
    ensures
        r@ == "Bearer "@ + token@,
{
    let mut s: String = "Bearer ".to_owned();
    s.append(token);
    s
}

/// Judge the provisioning service's answer: only a created status counts.
pub fn classify_wallet_status(status: u16) -> (r: Result<(), MessageResponse>)
    ensures
        status == 201 ==> r is Ok,
        status != 201 ==> (r matches Err(m) && m.message@
            == "The request to create a new wallet failed."@),
{
    if status == 201 {
        Ok(())
    } else {
        Err(MessageResponse::new("The request to create a new wallet failed."))
    }
}

/// The response when the provisioning service cannot be reached at all.
pub fn wallet_call_failed_response() -> (r: MessageResponse)
    ensures
        r.message@ == "Failed to call the currency api."@,
{
    MessageResponse::new("Failed to call the currency api.")
}

} // verus!
