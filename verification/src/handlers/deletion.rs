use vstd::prelude::*;
use crate::handlers::responses::MessageResponse;

verus! {

/// Decide the deletion response: the process wiring deletes by the decoded
/// claims' full identity (subject, username and email together) and reports
/// whether a record was removed. Authentication itself happens beforehand,
/// through `authenticate_request`.
pub fn handle_player_deletion(deleted: bool) -> (r: (u16, Option<MessageResponse>))
    ensures
        deleted ==> r.0 == 204 && r.1 is None,
        !deleted ==> r.0 == 404 && (r.1 matches Some(m) && m.message@
            == "Player could not be found."@),
{
    if deleted {
        (204, None)
    } else {
        (404, Some(MessageResponse::new("Player could not be found.")))
    }
}

} // verus!
