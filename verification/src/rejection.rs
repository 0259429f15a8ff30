use vstd::prelude::*;

verus! {

/// Why a request is refused.
#[derive(Debug, Clone, Copy, PartialEq, Eq, Structural)]
pub enum Rejection {
    /// The session is not an administrator's.
    NotAdmin,
    /// The store holds no client for the session's MAC address.
    UnknownClient,
    /// The client has no second left.
    NoRemainingSeconds,
    /// The client's connection is already open.
    AlreadyActive,
    /// The client's connection is not open.
    NotActive,
    /// The client cannot pay for the plan.
    NotEnoughCredits,
    /// What was asked for does not exist.
    NotFound,
    /// The operating system gave no randomness to draw a code from.
    NoRandomness,
}

impl Rejection {
    /// The HTTP status of the refusal.
    pub open spec fn spec_status(self) -> u16 {
        match self {
            Rejection::NotFound => 404,
            Rejection::NoRandomness => 500,
            _ => 403,
        }
    }

    /// The text that goes with the refusal.
    pub open spec fn spec_message(self) -> Seq<char> {
        match self {
            Rejection::NotAdmin => "You are not an admin, this incident will be reported"@,
            Rejection::UnknownClient => "Forbidden: Report sent to admin"@,
            Rejection::NoRemainingSeconds => "No Remaining Seconds: Purchase a plan"@,
            Rejection::AlreadyActive => "Already Active"@,
            Rejection::NotActive => "Connection Not Active"@,
            Rejection::NotEnoughCredits => "Not enough credits"@,
            Rejection::NotFound => ""@,
            Rejection::NoRandomness => "Server Error"@,
        }
    }

    /// The HTTP status of the refusal: 404 when nothing was found, 500 when
    /// no randomness was to be had, else 403.
    pub fn status(&self) -> (r: u16)
        ensures
            r == self.spec_status(),
    {
        match self {
            Rejection::NotFound => 404,
            Rejection::NoRandomness => 500,
            _ => 403,
        }
    }

    /// The text that goes with the refusal.
    pub fn message(&self) -> (r: String)
        ensures
            r@ == self.spec_message(),
    {
        match self {
            Rejection::NotAdmin => "You are not an admin, this incident will be reported".to_string(),
            Rejection::UnknownClient => "Forbidden: Report sent to admin".to_string(),
            Rejection::NoRemainingSeconds => "No Remaining Seconds: Purchase a plan".to_string(),
            Rejection::AlreadyActive => "Already Active".to_string(),
            Rejection::NotActive => "Connection Not Active".to_string(),
            Rejection::NotEnoughCredits => "Not enough credits".to_string(),
            Rejection::NotFound => "".to_string(),
            Rejection::NoRandomness => "Server Error".to_string(),
        }
    }
}

} // verus!
