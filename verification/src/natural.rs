//! Natural numbers of any size, held as big-endian bytes, with the arithmetic
//! of the `num_bigint` crate.
//!
//! Every function of this file that computes with numbers hands its
//! arguments to `BigUint::from_bytes_be`, which reads bytes as a big-endian
//! number, and takes the result from `BigUint::to_bytes_be`, which writes a
//! number in the shortest big-endian bytes, zero as one zero byte. Its
//! contract is trusted as a statement about both and about the operation in
//! between.
use miller_rabin::is_prime;
use num_bigint::{BigUint, RandomBits};
use rand::distributions::Distribution;
use vstd::arithmetic::power::pow;
use vstd::arithmetic::power2::pow2;
use vstd::prelude::*;

verus! {

/// The number that big-endian bytes stand for.
pub open spec fn be_value(bytes: Seq<u8>) -> nat
    decreases bytes.len(),
{
    if bytes.len() == 0 {
        0
    } else {
        be_value(bytes.drop_last()) * 256 + bytes.last() as nat
    }
}

/// Whether big-endian bytes are the shortest for their number: at least one
/// byte, and no leading zero but for the number zero itself.
pub open spec fn shortest(bytes: Seq<u8>) -> bool {
    bytes.len() >= 1 && (bytes.len() == 1 || bytes[0] != 0)
}

/// The leading byte of the shortest big-endian bytes of a number.
pub open spec fn leading_byte(value: nat) -> nat
    decreases value,
{
    if value < 256 {
        value
    } else {
        leading_byte(value / 256)
    }
}

/// A natural number.
#[derive(Clone, Debug, PartialEq, Eq)]
pub struct Natural {
    bytes: Vec<u8>,
}

impl Natural {
    /// The number.
    pub closed spec fn view(&self) -> nat {
        be_value(self.bytes@)
    }

    /// The bytes that hold the number.
    pub closed spec fn bytes(&self) -> Seq<u8> {
        self.bytes@
    }

    /// The invariant of the type: the bytes are the shortest for the number.
    pub open spec fn wf(&self) -> bool {
        shortest(self.bytes()) && self@ == be_value(self.bytes())
    }

    /// The number below 256 that one byte stands for.
    pub fn from_u8(value: u8) -> (out: Natural)
        ensures
            out.wf(),
            out@ == value,
            out.bytes() == seq![value],
    {
        let mut bytes: Vec<u8> = Vec::new();
        bytes.push(value);
        proof {
            assert(bytes@.drop_last() =~= Seq::<u8>::empty());
            reveal_with_fuel(be_value, 2);
        }
        Natural { bytes }
    }

    /// The number that big-endian bytes stand for. Leading zero bytes are
    /// dropped; no bytes stand for zero.
    pub fn from_bytes_be(bytes: &Vec<u8>) -> (out: Natural)
        ensures
            out.wf(),
            out@ == be_value(bytes@),
    {
        let mut start: usize = 0;
        while start < bytes.len() && bytes[start] == 0
            invariant
                start <= bytes@.len(),
                forall|k: int| 0 <= k < start ==> bytes@[k] == 0,
            decreases bytes@.len() - start,
        {
            start += 1;
        }
        proof {
            lemma_leading_zeros(bytes@, start as int);
        }
        if start == bytes.len() {
            return Natural::from_u8(0);
        }
        let mut kept: Vec<u8> = Vec::new();
        let mut at: usize = start;
        while at < bytes.len()
            invariant
                start <= at <= bytes@.len(),
                kept@ == bytes@.subrange(start as int, at as int),
            decreases bytes@.len() - at,
        {
            kept.push(bytes[at]);
            assert(kept@ =~= bytes@.subrange(start as int, at + 1));
            at += 1;
        }
        Natural { bytes: kept }
    }

    /// A copy of the number.
    pub fn duplicate(&self) -> (out: Natural)
        ensures
            out@ == self@,
            out.bytes() == self.bytes(),
            out.wf() == self.wf(),
    {
        Natural { bytes: self.bytes.clone() }
    }

    /// Whether the number is zero.
    pub fn is_zero(&self) -> (out: bool)
        requires
            self.wf(),
        ensures
            out == (self@ == 0),
    {
        proof {
            if self.bytes@[0] != 0 {
                lemma_positive(self.bytes@);
            } else {
                assert(self.bytes@.drop_last() =~= Seq::<u8>::empty());
                reveal_with_fuel(be_value, 2);
            }
        }
        self.bytes[0] == 0
    }

    /// The shortest big-endian bytes of the number.
    pub fn to_bytes_be(&self) -> (out: Vec<u8>)
        ensures
            out@ == self.bytes(),
            be_value(out@) == self@,
    {
        self.bytes.clone()
    }

    /// The leading byte of the number's shortest big-endian bytes; the number
    /// itself when it is below 256.
    pub fn first_byte(&self) -> (out: u8)
        requires
            self.wf(),
        ensures
            out == leading_byte(self@),
            out == self.bytes()[0],
    {
        proof {
            lemma_leading_byte(self.bytes@);
        }
        self.bytes[0]
    }
}

/// Shortest bytes that do not begin with zero stand for a positive number.
pub proof fn lemma_positive(bytes: Seq<u8>)
    requires
        bytes.len() >= 1,
        bytes[0] != 0,
    ensures
        be_value(bytes) >= 1,
    decreases bytes.len(),
{
    if bytes.len() == 1 {
        assert(bytes.drop_last() =~= Seq::<u8>::empty());
        reveal_with_fuel(be_value, 2);
    } else {
        lemma_positive(bytes.drop_last());
    }
}

/// The first of the shortest bytes of a number is its leading byte.
pub proof fn lemma_leading_byte(bytes: Seq<u8>)
    requires
        shortest(bytes),
    ensures
        bytes[0] == leading_byte(be_value(bytes)),
    decreases bytes.len(),
{
    if bytes.len() == 1 {
        assert(bytes.drop_last() =~= Seq::<u8>::empty());
        reveal_with_fuel(be_value, 2);
    } else {
        let init = bytes.drop_last();
        lemma_positive(init);
        lemma_leading_byte(init);
        let high = be_value(init);
        let low = bytes.last() as nat;
        assert((high * 256 + low) / 256 == high) by (nonlinear_arith)
            requires
                low < 256,
        ;
    }
}

/// Leading zero bytes do not change the number.
pub proof fn lemma_leading_zeros(bytes: Seq<u8>, zeros: int)
    requires
        0 <= zeros <= bytes.len(),
        forall|k: int| 0 <= k < zeros ==> bytes[k] == 0,
    ensures
        be_value(bytes) == be_value(bytes.subrange(zeros, bytes.len() as int)),
    decreases bytes.len(),
{
    let rest = bytes.subrange(zeros, bytes.len() as int);
    if zeros == bytes.len() {
        if bytes.len() > 0 {
            lemma_leading_zeros(bytes.drop_last(), zeros - 1);
            assert(bytes.drop_last().subrange(zeros - 1, bytes.len() - 1) =~= Seq::<u8>::empty());
        }
        assert(rest =~= Seq::<u8>::empty());
    } else {
        lemma_leading_zeros(bytes.drop_last(), zeros);
        assert(rest.drop_last() =~= bytes.drop_last().subrange(zeros, bytes.len() - 1));
    }
}

/// Draws a number of at most `bits` bits with
/// `RandomBits::new(bits).sample(..)` on the thread-local generator.
///
/// Trusted: the number drawn is below two to the power of `bits`. The
/// precondition keeps the number of digits within what the machine can
/// address, beyond which the draw panics.
#[verifier::external_body]
pub(crate) fn random_bits(bits: u64) -> (out: Natural)
    requires
        bits / 32 < usize::MAX,
    ensures
        out.wf(),
        out@ < pow2(bits as nat),
{
    let drawn: BigUint = RandomBits::new(bits).sample(&mut rand::thread_rng());
    Natural { bytes: drawn.to_bytes_be() }
}

/// The number of bits of a number, by `BigUint::bits`.
///
/// Trusted: zero has no bits; a positive number of `n` bits is at least two
/// to the power of `n - 1` and below two to the power of `n`; and a number
/// that is held in memory has fewer bits than the machine can address digits.
#[verifier::external_body]
pub(crate) fn bit_length(n: &Natural) -> (out: u64)
    ensures
        n@ == 0 ==> out == 0,
        n@ > 0 ==> out >= 1 && pow2((out - 1) as nat) <= n@ < pow2(out as nat),
        out / 32 < usize::MAX,
{
    BigUint::from_bytes_be(&n.bytes).bits()
}

/// Whether `a` is below `b`, by the order of `BigUint`.
///
/// Trusted: `BigUint` is ordered as the numbers are.
#[verifier::external_body]
pub(crate) fn less_than(a: &Natural, b: &Natural) -> (out: bool)
    ensures
        out == (a@ < b@),
{
    BigUint::from_bytes_be(&a.bytes) < BigUint::from_bytes_be(&b.bytes)
}

/// The sum of two numbers, by `+` on `BigUint`.
///
/// Trusted: the sum is exact.
#[verifier::external_body]
pub(crate) fn sum(a: &Natural, b: &Natural) -> (out: Natural)
    ensures
        out.wf(),
        out@ == a@ + b@,
{
    Natural { bytes: (BigUint::from_bytes_be(&a.bytes) + BigUint::from_bytes_be(&b.bytes)).to_bytes_be() }
}

/// The product of two numbers, by `*` on `BigUint`.
///
/// Trusted: the product is exact.
#[verifier::external_body]
pub(crate) fn product(a: &Natural, b: &Natural) -> (out: Natural)
    ensures
        out.wf(),
        out@ == a@ * b@,
{
    Natural { bytes: (BigUint::from_bytes_be(&a.bytes) * BigUint::from_bytes_be(&b.bytes)).to_bytes_be() }
}

/// The remainder of `a` modulo `m`, by `%` on `BigUint`.
///
/// Trusted: the remainder is that of the division of natural numbers. The
/// precondition excludes the zero modulus, on which `%` panics.
#[verifier::external_body]
pub(crate) fn remainder(a: &Natural, m: &Natural) -> (out: Natural)
    requires
        m@ != 0,
    ensures
        out.wf(),
        out@ == a@ % m@,
{
    Natural { bytes: (BigUint::from_bytes_be(&a.bytes) % BigUint::from_bytes_be(&m.bytes)).to_bytes_be() }
}

/// The power `base` to `exponent` modulo `modulus`, by `BigUint::modpow`.
///
/// Trusted: the result is the remainder of the power. The precondition
/// excludes the zero modulus, on which `modpow` panics.
#[verifier::external_body]
pub(crate) fn modpow(base: &Natural, exponent: &Natural, modulus: &Natural) -> (out: Natural)
    requires
        modulus@ != 0,
    ensures
        out.wf(),
        out@ == pow(base@ as int, exponent@) % (modulus@ as int),
{
    let power = BigUint::from_bytes_be(&base.bytes).modpow(
        &BigUint::from_bytes_be(&exponent.bytes),
        &BigUint::from_bytes_be(&modulus.bytes),
    );
    Natural { bytes: power.to_bytes_be() }
}

/// Whether `x` is an inverse of `a` modulo `m`.
pub open spec fn inverts(x: nat, a: nat, m: nat) -> bool {
    x < m && (a * x) % m == 1nat % m
}

/// The inverse of `a` modulo `modulus`, by `BigUint::modinv`.
///
/// Trusted: the result is an inverse below the modulus where there is one,
/// and `None` where there is none. The precondition excludes the zero modulus,
/// on which `modinv` panics.
#[verifier::external_body]
pub(crate) fn modinv(a: &Natural, modulus: &Natural) -> (out: Option<Natural>)
    requires
        modulus@ != 0,
    ensures
        out matches Some(x) ==> x.wf() && inverts(x@, a@, modulus@),
        out.is_none() ==> forall|x: nat| !inverts(x, a@, modulus@),
{
    match BigUint::from_bytes_be(&a.bytes).modinv(&BigUint::from_bytes_be(&modulus.bytes)) {
        Some(x) => Some(Natural { bytes: x.to_bytes_be() }),
        None => None,
    }
}

/// The square root of a number, rounded down, by `BigUint::sqrt`.
///
/// Trusted: the result is the greatest number whose square is not above the
/// argument.
#[verifier::external_body]
pub(crate) fn sqrt(a: &Natural) -> (out: Natural)
    ensures
        out.wf(),
        out@ * out@ <= a@ < (out@ + 1) * (out@ + 1),
{
    Natural { bytes: BigUint::from_bytes_be(&a.bytes).sqrt().to_bytes_be() }
}

/// Tests a number for primality with `miller_rabin::is_prime`, in `rounds`
/// rounds on random bases.
///
/// Trusted: nothing about the answer, which is a matter of chance for large
/// numbers. The precondition excludes zero, on which the test panics.
#[verifier::external_body]
pub(crate) fn probably_prime(n: &Natural, rounds: usize) -> (out: bool)
    requires
        n@ != 0,
{
    is_prime(&BigUint::from_bytes_be(&n.bytes), rounds)
}

} // verus!
