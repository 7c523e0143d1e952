use vstd::prelude::*;

verus! {

/// One account reference inside an operation: the account's printable key and
/// the two access flags the chain distinguishes.
#[derive(Debug, Clone, PartialEq, Eq)]
pub struct AccountMeta {
    pub pubkey: String,
    pub is_signer: bool,
    pub is_writable: bool,
}

/// A caller-supplied unit of on-chain work, held as plain values: the owning
/// program's printable key, the accounts it touches in order, and its payload
/// bytes. Opaque to this crate except for the account keys.
#[derive(Debug, Clone, PartialEq, Eq)]
pub struct Operation {
    pub program_id: String,
    pub accounts: Vec<AccountMeta>,
    pub data: Vec<u8>,
}

/// One entry of the final instruction sequence: a synthetic compute-budget
/// directive, or a caller operation carried unchanged.
#[derive(Debug, Clone, PartialEq, Eq)]
pub enum Ix {
    /// Compute-unit limit directive, always placed first.
    CuLimit(u32),
    /// Compute-unit price directive, present only when a fee was estimated.
    CuPrice(u64),
    /// A caller operation, in its original relative position.
    Op(Operation),
}

/// How a submission failed, as the caller distinguishes failures.
#[derive(Clone, Copy, PartialEq, Eq, Structural, Debug)]
pub enum FailureKind {
    /// Connection or timeout at the estimation or broadcast call.
    Transport,
    /// Malformed estimation response body.
    Deserialization,
    /// The service answered but supplied no usable number.
    EmptyEstimate,
    /// The broadcast layer rejected the transaction.
    SubmissionRejected,
}

/// What the estimation response body said, once parsed.
#[derive(Clone, Copy, PartialEq, Eq, Structural, Debug)]
pub enum ParsedEstimate {
    /// A numeric estimate was present; the value is truncated toward zero.
    Fee(u64),
    /// The body was well formed but the estimate was null or absent.
    Empty,
    /// The body was not a well-formed response object.
    Malformed,
}

/// Commitment level named in the fixed send policy.
#[derive(Clone, Copy, PartialEq, Eq, Structural, Debug)]
pub enum Commitment {
    Processed,
    Confirmed,
    Finalized,
}

/// Wire encoding named in the fixed send policy.
#[derive(Clone, Copy, PartialEq, Eq, Structural, Debug)]
pub enum TxEncoding {
    Base58,
    Base64,
}

/// The fixed configuration every broadcast uses.
#[derive(Clone, Copy, PartialEq, Eq, Structural, Debug)]
pub struct SendPolicy {
    pub skip_preflight: bool,
    pub preflight_commitment: Option<Commitment>,
    pub encoding: Option<TxEncoding>,
    pub max_retries: Option<usize>,
    pub min_context_slot: Option<u64>,
}

/// What came back from the estimation exchange: the response body, or a
/// transport-level failure before any body was read.
#[derive(Debug, Clone)]
pub enum EstimateOutcome {
    Body(String),
    TransportFailed,
}

/// A submission that is waiting for the estimation response: the caller's
/// operations and the chosen compute-unit ceiling, kept until the fee is known.
#[derive(Debug)]
pub struct PendingEstimate {
    pub ops: Vec<Operation>,
    pub cu_limit: u32,
}

/// The first step of a submission: either the estimation request to send,
/// or the final instruction sequence when no fee was asked for.
#[derive(Debug)]
pub enum Begun {
    /// Send the carried request body to the estimation service, then hand the
    /// outcome back together with the pending state.
    NeedEstimate(PendingEstimate, String),
    /// No estimation was requested: the instruction sequence is final.
    Ready(Vec<Ix>),
}

/// The fixed broadcast configuration: preflight on, preflight commitment
/// Confirmed, Base64 encoding, no automatic resubmission, no minimum slot.
pub fn send_policy() -> (p: SendPolicy)
    ensures
        p == (SendPolicy {
            skip_preflight: false,
            preflight_commitment: Some(Commitment::Confirmed),
            encoding: Some(TxEncoding::Base64),
            max_retries: Some(0usize),
            min_context_slot: None::<u64>,
        }),
{
    SendPolicy {
        skip_preflight: false,
        preflight_commitment: Some(Commitment::Confirmed),
        encoding: Some(TxEncoding::Base64),
        max_retries: Some(0),
        min_context_slot: None,
    }
}

} // verus!
