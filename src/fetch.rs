//! The decision inside the feed readers' request loop: read a successful response, else
//! wait and ask again.
use vstd::prelude::*;

verus! {

/// Seconds to wait before asking again after an unsuccessful response.
pub const RETRY_DELAY_SECS: u64 = 1;

/// What to do with a response to a feed request.
#[derive(Clone, Copy, Debug, PartialEq, Eq, Structural)]
pub enum FetchAction {
    ReadBody,
    Retry { delay_secs: u64 },
}

/// Reads the body of a response with a success status; otherwise waits and asks again.
pub fn next_fetch_action(success: bool) -> (r: FetchAction)
    ensures
        success ==> r == FetchAction::ReadBody,
        !success ==> r == (FetchAction::Retry { delay_secs: RETRY_DELAY_SECS }),
{
    if success {
        FetchAction::ReadBody
    } else {
        FetchAction::Retry { delay_secs: RETRY_DELAY_SECS }
    }
}

} // verus!
