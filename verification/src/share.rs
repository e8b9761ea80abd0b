//! Two-out-of-two secret sharing of one bit by exclusive or.
use crate::random::random_bit;
use vstd::prelude::*;

verus! {

/// The two halves of a shared bit. The secret is their exclusive or; one half
/// alone says nothing about it. A pair always holds both halves: a half whose
/// counterpart has not arrived yet is a plain `bool`, so a secret cannot be
/// read before it is whole.
#[derive(Clone, Copy, Debug, PartialEq, Eq, Structural)]
pub struct SecretSharingPair {
    /// The half that the holder keeps.
    pub own: bool,
    /// The half that belongs to the other party.
    pub peer: bool,
}

impl SecretSharingPair {
    /// The shared secret.
    pub open spec fn secret(self) -> bool {
        self.own ^ self.peer
    }

    /// Shares `value` with the given half as the holder's own. This is the
    /// whole of `split` but the draw.
    pub fn split_with(value: bool, own: bool) -> (pair: SecretSharingPair)
        ensures
            pair.own == own,
            pair.peer == (value ^ own),
            pair.secret() == value,
    {
        SecretSharingPair { own, peer: value ^ own }
    }

    /// Shares `value`: draws the holder's half at random and sets the other
    /// half so that both reconstruct `value`.
    pub fn split(value: bool) -> (pair: SecretSharingPair)
        ensures
            pair.secret() == value,
            pair.peer == (value ^ pair.own),
    {
        let own = random_bit();
        SecretSharingPair::split_with(value, own)
    }

    /// Puts together a half that was kept and the half that arrived.
    pub fn join(own: bool, peer: bool) -> (pair: SecretSharingPair)
        ensures
            pair == (SecretSharingPair { own, peer }),
    {
        SecretSharingPair { own, peer }
    }

    /// Reconstructs the secret from the two halves.
    pub fn value(&self) -> (out: bool)
        ensures
            out == self.secret(),
    {
        self.own ^ self.peer
    }
}

/// Whatever half is kept, the other half can be chosen so that the pair
/// shares a given secret, and in one way only: the kept half alone is
/// consistent with either secret.
pub proof fn lemma_own_half_hides_secret(own: bool, value: bool)
    ensures
        (SecretSharingPair { own, peer: value ^ own }).secret() == value,
        forall|peer: bool| (SecretSharingPair { own, peer }).secret() == value ==> peer == (value ^ own),
{
}

} // verus!
