//! Groups for ElGamal: the subgroup of prime order `q` of the residues modulo
//! a safe prime `p = 2q + 1`, and the random draws that make one.
use crate::natural::{
    bit_length, less_than, probably_prime, product, random_bits, remainder, sqrt, sum, Natural,
};
use vstd::arithmetic::power2::pow2;
use vstd::prelude::*;

verus! {

/// How many draws a search for a random number with some property makes
/// before it gives up.
pub const MAX_ATTEMPTS: u32 = 10000;

/// How many rounds a primality test takes.
pub const PRIMALITY_ROUNDS: usize = 10;

/// A group: a generator `g`, the order `q` of the group, and the prime `p`
/// whose residues the group lies in.
#[derive(Clone, Debug, PartialEq, Eq)]
pub struct Group {
    /// The generator.
    pub g: Natural,
    /// The order of the group.
    pub q: Natural,
    /// The prime.
    pub p: Natural,
}

/// Keeps a drawn number as an exponent for a group of order `q`: the number
/// itself when it is below `q`, nothing when it is not.
pub fn accept_exponent(drawn: Natural, q: &Natural) -> (out: Option<Natural>)
    ensures
        drawn@ < q@ <==> out.is_some(),
        out matches Some(r) ==> r == drawn,
{
    if less_than(&drawn, q) {
        Some(drawn)
    } else {
        None
    }
}

/// Makes a group element from a drawn number `s`: the square root of `s`,
/// rounded down and reduced modulo `p`, when `s` is below `p`; nothing when
/// it is not. The root of a number below `p` is below `p` itself, so the
/// element is the root.
pub fn element_from_sample(s: &Natural, p: &Natural) -> (out: Option<Natural>)
    ensures
        s@ < p@ <==> out.is_some(),
        out matches Some(h) ==> h.wf() && h@ < p@ && h@ * h@ <= s@ < (h@ + 1) * (h@ + 1),
{
    if less_than(s, p) {
        let root = sqrt(s);
        proof {
            let r = root@;
            let bound = p@;
            assert(r < bound) by (nonlinear_arith)
                requires
                    r * r < bound,
            ;
            vstd::arithmetic::div_mod::lemma_small_mod(r, bound);
        }
        Some(remainder(&root, p))
    } else {
        None
    }
}

impl Group {
    /// The invariant of the type: the three numbers are well formed and the
    /// prime is not zero.
    pub open spec fn wf(&self) -> bool {
        self.g.wf() && self.q.wf() && self.p.wf() && self.p@ != 0
    }

    /// A fresh group whose order has at most `group_size` bits; nothing when
    /// the search gives up.
    pub fn new(group_size: u64) -> (out: Option<Group>)
        requires
            group_size / 32 < usize::MAX,
        ensures
            out matches Some(group) ==> group.wf() && safe_prime_shaped(group, group_size),
    {
        generate_safe_prime_group(group_size)
    }

    /// A copy of the group.
    pub fn duplicate(&self) -> (out: Group)
        ensures
            out.g@ == self.g@,
            out.q@ == self.q@,
            out.p@ == self.p@,
            out.wf() == self.wf(),
    {
        Group { g: self.g.duplicate(), q: self.q.duplicate(), p: self.p.duplicate() }
    }

    /// Draws an exponent: a number below the order of the group. Each draw
    /// has as many bits as the order and is thrown away when it is not below
    /// the order; after `MAX_ATTEMPTS` draws the search gives up. For the
    /// order zero there is no exponent.
    pub fn gen_random_exponent(&self) -> (out: Option<Natural>)
        requires
            self.wf(),
        ensures
            out matches Some(r) ==> r.wf() && r@ < self.q@,
            self.q@ == 0 ==> out.is_none(),
    {
        let bits = bit_length(&self.q);
        let mut attempt: u32 = 0;
        while attempt < MAX_ATTEMPTS
            invariant
                bits / 32 < usize::MAX,
            decreases MAX_ATTEMPTS - attempt,
        {
            let drawn = random_bits(bits);
            match accept_exponent(drawn, &self.q) {
                Some(r) => {
                    return Some(r);
                },
                None => {},
            }
            attempt += 1;
        }
        None
    }
}

/// What holds of a group made by `generate_safe_prime_group`: the order is
/// positive and has at most `size` bits, the prime is twice the order plus
/// one, and the generator is below the prime.
pub open spec fn safe_prime_shaped(group: Group, size: u64) -> bool {
    &&& 0 < group.q@ < pow2(size as nat)
    &&& group.p@ == 2 * group.q@ + 1
    &&& group.g@ < group.p@
}

/// Searches for a prime of at most `size` bits: draws numbers of `size` bits
/// until one passes the primality test, and gives up after `MAX_ATTEMPTS`
/// draws.
pub fn generate_prime(size: u64) -> (out: Option<Natural>)
    requires
        size / 32 < usize::MAX,
    ensures
        out matches Some(prime) ==> prime.wf() && 0 < prime@ < pow2(size as nat),
{
    let mut attempt: u32 = 0;
    while attempt < MAX_ATTEMPTS
        invariant
            size / 32 < usize::MAX,
        decreases MAX_ATTEMPTS - attempt,
    {
        let maybe_prime = random_bits(size);
        if !maybe_prime.is_zero() && probably_prime(&maybe_prime, PRIMALITY_ROUNDS) {
            return Some(maybe_prime);
        }
        attempt += 1;
    }
    None
}

/// Searches for a safe-prime group: draws a prime `q` until `2q + 1` passes
/// the primality test too, and then draws a generator. Gives up after
/// `MAX_ATTEMPTS` primes, or as soon as one of the inner searches gives up.
pub fn generate_safe_prime_group(size: u64) -> (out: Option<Group>)
    requires
        size / 32 < usize::MAX,
    ensures
        out matches Some(group) ==> group.wf() && safe_prime_shaped(group, size),
{
    let two = Natural::from_u8(2);
    let one = Natural::from_u8(1);
    let mut attempt: u32 = 0;
    while attempt < MAX_ATTEMPTS
        invariant
            size / 32 < usize::MAX,
            two@ == 2,
            one@ == 1,
        decreases MAX_ATTEMPTS - attempt,
    {
        let q = match generate_prime(size) {
            Some(q) => q,
            None => {
                return None;
            },
        };
        let p = sum(&product(&two, &q), &one);
        if probably_prime(&p, PRIMALITY_ROUNDS) {
            return match generate_random_safe_prime_group_element(p.duplicate()) {
                Some(g) => Some(Group { g, q, p }),
                None => None,
            };
        }
        attempt += 1;
    }
    None
}

/// Draws an element for the group modulo `p`: the rounded-down square root
/// of a random number below `p`. Each draw has as many bits as `p` and is
/// thrown away when it is not below `p`; after `MAX_ATTEMPTS` draws the
/// search gives up. Modulo zero there is no element.
pub fn generate_random_safe_prime_group_element(p: Natural) -> (out: Option<Natural>)
    requires
        p.wf(),
    ensures
        out matches Some(h) ==> h.wf() && h@ < p@ && h@ * h@ < p@,
        p@ == 0 ==> out.is_none(),
{
    let bits = bit_length(&p);
    let mut attempt: u32 = 0;
    while attempt < MAX_ATTEMPTS
        invariant
            bits / 32 < usize::MAX,
        decreases MAX_ATTEMPTS - attempt,
    {
        let s = random_bits(bits);
        match element_from_sample(&s, &p) {
            Some(h) => {
                return Some(h);
            },
            None => {},
        }
        attempt += 1;
    }
    None
}

} // verus!
