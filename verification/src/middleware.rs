//! Decision rules of the challenge-bypass stage of the outbound request
//! chain: a forbidden status is read as an anti-bot challenge, and the
//! interactive solve step retries a bounded number of times before the
//! dedicated "challenge not bypassed" failure surfaces.

use vstd::prelude::*;

verus! {

/// The challenge-bypass stage. The driver clones the outbound request,
/// sends the original, and consults these rules on the response.
pub struct CloudflareBypassMiddleware;

impl CloudflareBypassMiddleware {
    /// Whether a response status signals the anti-bot challenge.
    pub fn is_challenge_status(status: u16) -> (r: bool)
        ensures
            r == (status == 403),
    {
        status == 403
    }

    /// How many solve attempts run before the failure surfaces.
    pub fn max_bypass_attempts() -> (r: u32)
        ensures
            r == 10,
    {
        10
    }

    /// Whether one more solve attempt may run.
    pub fn should_retry(attempts_done: u32) -> (r: bool)
        ensures
            r == (attempts_done < 10),
    {
        attempts_done < 10
    }
}

} // verus!
