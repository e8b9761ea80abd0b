//! The ways in which a caller can misuse the protocol.
use vstd::prelude::*;

verus! {

/// A misuse of the protocol. None of these is recovered from: a fixed-round
/// protocol has nothing to retry.
#[derive(Clone, Copy, Debug, PartialEq, Eq, Structural)]
pub enum ProtocolError {
    /// A step was asked for out of its turn: a message outside the rounds of
    /// the circuit, a second message in one round, or a result that is not
    /// there yet.
    ProtocolSequenceViolation,
    /// More triples were asked for than the dealer made.
    DealerExhaustion,
}

} // verus!
