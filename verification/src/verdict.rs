//! The binary verdict of one liveness probe, and its classification rule.

use vstd::prelude::*;

verus! {

/// The last-observed reachability of an endpoint: UP or DOWN, nothing in
/// between.
#[derive(Clone, Copy, PartialEq, Eq, Structural, Debug)]
pub enum Verdict {
    Up,
    Down,
}

/// What one probe outcome means. A probe either produced an HTTP status
/// code, or failed in transport (timeout, connection refused, DNS, TLS);
/// the latter is `None`. Only a status code in the success class counts
/// as UP; every failure, of whatever cause, is DOWN.
pub open spec fn spec_classify(status: Option<u16>) -> Verdict {
    match status {
        Some(code) => if is_success_code(code) {
            Verdict::Up
        } else {
            Verdict::Down
        },
        None => Verdict::Down,
    }
}

/// The HTTP success class: the 2xx status codes.
pub open spec fn is_success_code(code: u16) -> bool {
    200 <= code < 300
}

impl Verdict {
    /// The human-readable form of a verdict.
    pub open spec fn spec_label(self) -> Seq<char> {
        match self {
            Verdict::Up => "UP"@,
            Verdict::Down => "DOWN"@,
        }
    }

    pub fn label(self) -> (r: &'static str)
        ensures
            r@ == self.spec_label(),
    {
        match self {
            Verdict::Up => "UP",
            Verdict::Down => "DOWN",
        }
    }
}

/// Classify one probe outcome. `status` is `Some(code)` when a response
/// arrived with that HTTP status code, `None` when the request failed in
/// transport.
pub fn classify_response(status: Option<u16>) -> (v: Verdict)
    ensures
        v == spec_classify(status),
{
    match status {
        Some(code) => if 200 <= code && code < 300 {
            Verdict::Up
        } else {
            Verdict::Down
        },
        None => Verdict::Down,
    }
}

/// A probe that times out or errors in transport is classified DOWN,
/// identically to a probe that returned any non-success status code.
pub proof fn lemma_transport_failure_like_non_success(code: u16)
    requires
        !is_success_code(code),
    ensures
        spec_classify(None) == Verdict::Down,
        spec_classify(Some(code)) == spec_classify(None),
{
}

} // verus!
