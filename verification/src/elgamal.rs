//! ElGamal encryption over a group.
use crate::group::{generate_random_safe_prime_group_element, Group};
use crate::natural::{inverts, modinv, modpow, product, remainder, Natural};
use vstd::arithmetic::div_mod::lemma_mul_mod_noop_general;
use vstd::arithmetic::mul::{lemma_mul_is_associative, lemma_mul_is_commutative};
use vstd::arithmetic::power::{lemma_pow_mod_noop, lemma_pow_multiplies, pow};
use vstd::prelude::*;

verus! {

/// A ciphertext: the pair `(g^r, m * h^r)` modulo the prime.
pub type Ciphertext = (Natural, Natural);

/// A plaintext.
pub type Plaintext = Natural;

/// A secret key: an exponent.
pub type SecretKey = Natural;

/// A public key: a group element. The group is not sent along; the parties
/// agree on it beforehand.
pub type PublicKey = Natural;

/// The power `base` to `exponent` modulo `p`.
pub open spec fn power_mod(base: nat, exponent: nat, p: nat) -> nat {
    (pow(base as int, exponent) % (p as int)) as nat
}

/// The ciphertext of `m` under the public key `pk` with the exponent `r`, in
/// the group with the generator `g` modulo `p`.
pub open spec fn encryption(g: nat, p: nat, pk: nat, m: nat, r: nat) -> (nat, nat) {
    (power_mod(g, r, p), ((m % p) * (power_mod(pk, r, p) % p)) % p)
}

/// Whether `c` is a ciphertext of `m` under the public key `pk`, with some
/// exponent of the group of order `q`.
pub open spec fn encrypts(c: (nat, nat), g: nat, p: nat, q: nat, pk: nat, m: nat) -> bool {
    exists|r: nat| r < q && c == #[trigger] encryption(g, p, pk, m, r)
}

/// The mask that the secret key `sk` takes off a ciphertext with the first
/// part `c1`.
pub open spec fn mask(p: nat, sk: nat, c1: nat) -> nat {
    power_mod(c1, sk, p)
}

/// The plaintext of a ciphertext with the second part `c2`, given an inverse
/// of its mask.
pub open spec fn decryption(p: nat, c2: nat, inverse: nat) -> nat {
    ((c2 % p) * (inverse % p)) % p
}

/// ElGamal over a group.
pub struct ElGamal {
    group: Group,
}

impl ElGamal {
    /// The group.
    pub closed spec fn group(&self) -> Group {
        self.group
    }

    /// The invariant of the type: that of the group.
    pub open spec fn wf(&self) -> bool {
        self.group().wf()
    }

    /// ElGamal over `group`.
    pub fn new(group: Group) -> (out: ElGamal)
        ensures
            out.group() == group,
    {
        Self { group }
    }

    /// Draws a secret key: an exponent of the group; nothing when the draw
    /// gives up.
    pub fn gen_sk(&self) -> (out: Option<SecretKey>)
        requires
            self.wf(),
        ensures
            out matches Some(sk) ==> sk.wf() && sk@ < self.group().q@,
            self.group().q@ == 0 ==> out.is_none(),
    {
        self.group.gen_random_exponent()
    }

    /// The public key of the secret key `sk`: the generator to the power of
    /// `sk`.
    pub fn gen_pk(&self, sk: SecretKey) -> (pk: PublicKey)
        requires
            self.wf(),
        ensures
            pk.wf(),
            pk@ == power_mod(self.group().g@, sk@, self.group().p@),
    {
        let h = modpow(&self.group.g, &sk, &self.group.p);
        h
    }

    /// Draws a public key that looks like any other and has no known secret
    /// key: a random element of the group; nothing when the draw gives up.
    pub fn o_gen_pk(&self) -> (out: Option<PublicKey>)
        requires
            self.wf(),
        ensures
            out matches Some(pk) ==> pk.wf() && pk@ < self.group().p@ && pk@ * pk@ < self.group().p@,
    {
        generate_random_safe_prime_group_element(self.group.p.duplicate())
    }

    /// Encrypts `m` under the public key `pk` with the exponent `r`. This is
    /// the whole of `enc` but the draw.
    pub fn enc_with(&self, pk: &PublicKey, m: &Plaintext, r: &Natural) -> (c: Ciphertext)
        requires
            self.wf(),
        ensures
            c.0.wf() && c.1.wf(),
            (c.0@, c.1@) == encryption(self.group().g@, self.group().p@, pk@, m@, r@),
    {
        let p = &self.group.p;
        let c1 = modpow(&self.group.g, r, p);
        let hr = modpow(pk, r, p);
        let c2 = remainder(&product(&remainder(m, p), &remainder(&hr, p)), p);
        (c1, c2)
    }

    /// Encrypts `m` under the public key `pk` with a fresh random exponent;
    /// nothing when the draw of the exponent gives up.
    pub fn enc(&self, pk: PublicKey, m: Plaintext) -> (out: Option<Ciphertext>)
        requires
            self.wf(),
        ensures
            out matches Some(c) ==> c.0.wf() && c.1.wf() && encrypts(
                (c.0@, c.1@),
                self.group().g@,
                self.group().p@,
                self.group().q@,
                pk@,
                m@,
            ),
            self.group().q@ == 0 ==> out.is_none(),
    {
        match self.group.gen_random_exponent() {
            Some(r) => Some(self.enc_with(&pk, &m, &r)),
            None => None,
        }
    }

    /// Decrypts `c` with the secret key `sk`: takes the mask off the second
    /// part by multiplying with the inverse of the mask. Nothing when the mask
    /// has no inverse modulo the prime.
    pub fn dec(&self, sk: SecretKey, c: Ciphertext) -> (out: Option<Plaintext>)
        requires
            self.wf(),
        ensures
            out matches Some(m) ==> m.wf() && exists|inverse: nat|
                inverts(inverse, mask(self.group().p@, sk@, c.0@), self.group().p@) && m@
                    == decryption(self.group().p@, c.1@, inverse),
            out.is_none() <==> forall|x: nat|
                !inverts(x, mask(self.group().p@, sk@, c.0@), self.group().p@),
    {
        let p = &self.group.p;
        let c1 = c.0;
        let c2 = c.1;
        let hr = modpow(&c1, &sk, p);
        assert(hr@ == mask(self.group().p@, sk@, c.0@));
        match modinv(&hr, p) {
            Some(hr_inv) => {
                let m = remainder(&product(&remainder(&c2, p), &remainder(&hr_inv, p)), p);
                assert(inverts(hr_inv@, mask(self.group().p@, sk@, c.0@), self.group().p@));
                assert(m@ == decryption(self.group().p@, c.1@, hr_inv@));
                Some(m)
            },
            None => None,
        }
    }
}

/// Decryption undoes encryption. In a group modulo `p`, with the public key
/// of the secret key `sk`, the ciphertext of `m` under any exponent `r`
/// decrypts to `m` modulo `p`, whichever inverse of the mask is taken.
pub proof fn lemma_decryption_undoes_encryption(
    g: nat,
    p: nat,
    sk: nat,
    m: nat,
    r: nat,
    inverse: nat,
)
    requires
        p > 0,
        inverts(
            inverse,
            mask(p, sk, encryption(g, p, power_mod(g, sk, p), m, r).0),
            p,
        ),
    ensures
        decryption(p, encryption(g, p, power_mod(g, sk, p), m, r).1, inverse) == m % p,
{
    let pi = p as int;
    let gi = g as int;
    let pk = power_mod(g, sk, p);
    let c = encryption(g, p, pk, m, r);
    // The mask put on and the mask taken off are the same power of `g`.
    let on = power_mod(pk, r, p);
    let off = mask(p, sk, c.0);
    lemma_pow_mod_noop(pow(gi, sk), r, pi);
    lemma_pow_multiplies(gi, sk, r);
    lemma_pow_mod_noop(pow(gi, r), sk, pi);
    lemma_pow_multiplies(gi, r, sk);
    lemma_mul_is_commutative(sk as int, r as int);
    assert(on == off);
    let h = on as int;
    let mi = m as int;
    let inv = inverse as int;
    // c2 = m * h, and decryption = c2 * inverse = m * (h * inverse) = m.
    lemma_mul_mod_noop_general(mi, h, pi);
    lemma_mul_mod_noop_general(c.1 as int, inv, pi);
    lemma_mul_mod_noop_general(mi * h, inv, pi);
    lemma_mul_is_associative(mi, h, inv);
    lemma_mul_mod_noop_general(mi, h * inv, pi);
    lemma_mul_mod_noop_general(mi, 1, pi);
}

} // verus!
