use vstd::prelude::*;

use crate::keys::flat_keys;
use crate::plan::assemble;
use crate::plan::planned;
use crate::request::estimate_request_for;
use crate::request::request_body_spec;
use crate::response::parse_estimate_response;
use crate::response::parse_response_spec;
use crate::types::Begun;
use crate::types::EstimateOutcome;
use crate::types::FailureKind;
use crate::types::Ix;
use crate::types::Operation;
use crate::types::ParsedEstimate;
use crate::types::PendingEstimate;

verus! {

/// Does `r` hold the given operations pending estimation, together with the
/// estimation request body for exactly their account keys.
pub open spec fn begun_needs(r: Begun, ops: Seq<Operation>, cu_limit: u32) -> bool {
    match r {
        Begun::NeedEstimate(p, body) => p.ops@ == ops && p.cu_limit == cu_limit && body@
            == request_body_spec(flat_keys(ops)),
        Begun::Ready(_) => false,
    }
}

/// Does `r` hold a final instruction sequence equal to `plan`.
pub open spec fn begun_ready(r: Begun, plan: Seq<Ix>) -> bool {
    match r {
        Begun::Ready(v) => v@ == plan,
        Begun::NeedEstimate(_, _) => false,
    }
}

/// Begins one submission. When a priority fee is requested, the estimation
/// request is framed from the untouched operations and they are held until
/// the fee is known; otherwise the instruction sequence is already final:
/// the limit directive, then the operations in order.
pub fn begin(ops: Vec<Operation>, cu_limit: u32, use_priority_fee: bool) -> (r: Begun)
    ensures
        use_priority_fee ==> begun_needs(r, ops@, cu_limit),
        !use_priority_fee ==> begun_ready(r, planned(ops@, cu_limit, None::<u64>)),
{
    if use_priority_fee {
        let body = estimate_request_for(&ops);
        Begun::NeedEstimate(PendingEstimate { ops, cu_limit }, body)
    } else {
        Begun::Ready(assemble(ops, cu_limit, None))
    }
}

/// What `fee_from_outcome` must return for each exchange outcome: transport
/// failures and each parse of the body map to their own classification, and
/// a numeric estimate — and nothing else — yields a fee.
pub open spec fn fee_outcome_ok(outcome: EstimateOutcome, r: Result<u64, FailureKind>) -> bool {
    match outcome {
        EstimateOutcome::TransportFailed => r == Err::<u64, FailureKind>(FailureKind::Transport),
        EstimateOutcome::Body(b) => match parse_response_spec(b@) {
            ParsedEstimate::Fee(v) => r == Ok::<u64, FailureKind>(v),
            ParsedEstimate::Empty => r == Err::<u64, FailureKind>(FailureKind::EmptyEstimate),
            ParsedEstimate::Malformed => r == Err::<u64, FailureKind>(
                FailureKind::Deserialization,
            ),
        },
    }
}

/// Classifies one estimation exchange: a transport failure stays a transport
/// failure, a malformed body is a deserialization failure, a null or absent
/// estimate is an empty estimate — never a default fee — and a numeric
/// estimate comes back truncated toward zero.
pub fn fee_from_outcome(outcome: &EstimateOutcome) -> (r: Result<u64, FailureKind>)
    ensures
        fee_outcome_ok(*outcome, r),
{
    match outcome {
        EstimateOutcome::TransportFailed => Err(FailureKind::Transport),
        EstimateOutcome::Body(b) => match parse_estimate_response(b.as_str()) {
            ParsedEstimate::Fee(v) => Ok(v),
            ParsedEstimate::Empty => Err(FailureKind::EmptyEstimate),
            ParsedEstimate::Malformed => Err(FailureKind::Deserialization),
        },
    }
}

/// What `estimate_received` must return: on any failed exchange the very
/// failure, with no instruction sequence and so no later step; on a numeric
/// estimate the final sequence — limit directive, price directive carrying
/// that estimate, then the held operations in order.
pub open spec fn estimate_step_ok(
    p: PendingEstimate,
    outcome: EstimateOutcome,
    r: Result<Vec<Ix>, FailureKind>,
) -> bool {
    match outcome {
        EstimateOutcome::TransportFailed => r == Err::<Vec<Ix>, FailureKind>(
            FailureKind::Transport,
        ),
        EstimateOutcome::Body(b) => match parse_response_spec(b@) {
            ParsedEstimate::Fee(v) => match r {
                Ok(plan) => plan@ == planned(p.ops@, p.cu_limit, Some(v)),
                Err(_) => false,
            },
            ParsedEstimate::Empty => r == Err::<Vec<Ix>, FailureKind>(FailureKind::EmptyEstimate),
            ParsedEstimate::Malformed => r == Err::<Vec<Ix>, FailureKind>(
                FailureKind::Deserialization,
            ),
        },
    }
}

/// Folds the estimation outcome into the pending submission. Any failure —
/// transport, malformed body, empty estimate — fails the whole submission
/// at once: no instruction sequence exists then, so no hash is fetched and
/// nothing is broadcast. Success appends the price directive after the
/// limit directive and restores the caller's operations unchanged.
pub fn estimate_received(p: PendingEstimate, outcome: &EstimateOutcome) -> (r: Result<
    Vec<Ix>,
    FailureKind,
>)
    ensures
        estimate_step_ok(p, *outcome, r),
{
    match fee_from_outcome(outcome) {
        Ok(v) => Ok(assemble(p.ops, p.cu_limit, Some(v))),
        Err(e) => Err(e),
    }
}

} // verus!
