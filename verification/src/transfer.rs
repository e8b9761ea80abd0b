//! One-out-of-eight oblivious transfer over ElGamal.
//!
//! Alice sends eight public keys and knows the secret key of one only, the
//! one at the place of her blood type. Bob encrypts under each key the entry
//! of the truth table for that place and his own blood type. Alice can decrypt
//! the entry at her place and no other.
use crate::elgamal::{
    decryption, encryption, encrypts, lemma_decryption_undoes_encryption, mask, power_mod,
    Ciphertext, ElGamal,
    PublicKey, SecretKey,
};
use crate::group::Group;
use crate::natural::{inverts, leading_byte, less_than, Natural};
use crate::predicate::{
    attributes, blood_function, code, compatible, lemma_code_of_attributes, translate_input,
    translate_input_back,
};
use vstd::prelude::*;

verus! {

/// The plaintext that Bob encrypts at place `i` when his blood type is
/// `bob`: 1 when the donor `i` suits him, else 0.
pub open spec fn answer(i: u8, bob: (bool, bool, bool)) -> nat {
    if compatible(attributes(i), bob) {
        1
    } else {
        0
    }
}

/// Whether `z` is the leading byte of what the second part `c2` of a
/// ciphertext decrypts to, with some inverse of the mask `off` modulo `p`.
pub open spec fn opens_to(z: u8, p: nat, off: nat, c2: nat) -> bool {
    exists|inverse: nat| #[trigger]
        inverts(inverse, off, p) && z == leading_byte(decryption(p, c2, inverse))
}

/// Alice of the oblivious transfer: the receiver.
pub struct Alice {
    el_gamal: ElGamal,
    input_a: bool,
    input_b: bool,
    input_r: bool,
    sk: SecretKey,
}

impl Alice {
    /// The group that Alice works in.
    pub closed spec fn group(&self) -> Group {
        self.el_gamal.group()
    }

    /// The attributes of Alice's blood type.
    pub closed spec fn input(&self) -> (bool, bool, bool) {
        (self.input_a, self.input_b, self.input_r)
    }

    /// Alice's secret key.
    pub closed spec fn secret_key(&self) -> nat {
        self.sk@
    }

    /// The invariant of the type.
    pub closed spec fn wf(&self) -> bool {
        self.el_gamal.wf() && self.sk.wf()
    }

    /// Alice in the group `common_group`, with no input and the secret key
    /// zero.
    pub fn new(common_group: Group) -> (alice: Alice)
        requires
            common_group.wf(),
        ensures
            alice.wf(),
            alice.group() == common_group,
            alice.input() == (false, false, false),
            alice.secret_key() == 0,
    {
        Self {
            el_gamal: ElGamal::new(common_group),
            input_a: false,
            input_b: false,
            input_r: false,
            sk: Natural::from_u8(0),
        }
    }

    /// Chooses the place `input`: draws a secret key and makes eight public
    /// keys, the one at place `input` from the secret key, the others at
    /// random. Nothing when one of the draws gives up.
    pub fn choose_keys(&mut self, input: u8) -> (out: Option<[PublicKey; 8]>)
        requires
            old(self).wf(),
            input < 8,
        ensures
            final(self).wf(),
            final(self).group() == old(self).group(),
            final(self).input() == attributes(input),
            out matches Some(keys) ==> {
                &&& final(self).secret_key() < final(self).group().q@
                &&& keys@[input as int]@ == power_mod(
                    final(self).group().g@,
                    final(self).secret_key(),
                    final(self).group().p@,
                )
                &&& forall|i: int|
                    0 <= i < 8 ==> (#[trigger] keys@[i]).wf() && (i != input ==> keys@[i]@
                        < final(self).group().p@)
            },
    {
        let (a, b, r) = translate_input(input);
        self.input_a = a;
        self.input_b = b;
        self.input_r = r;
        self.sk = match self.el_gamal.gen_sk() {
            Some(sk) => sk,
            None => {
                return None;
            },
        };
        let mut res: [PublicKey; 8] = [
            Natural::from_u8(0),
            Natural::from_u8(0),
            Natural::from_u8(0),
            Natural::from_u8(0),
            Natural::from_u8(0),
            Natural::from_u8(0),
            Natural::from_u8(0),
            Natural::from_u8(0),
        ];
        let mut i: u8 = 0;
        while i < 8
            invariant
                i <= 8,
                input < 8,
                self.wf(),
                self.group() == old(self).group(),
                self.input() == attributes(input),
                self.secret_key() < self.group().q@,
                i > input ==> res@[input as int]@ == power_mod(
                    self.group().g@,
                    self.secret_key(),
                    self.group().p@,
                ),
                forall|k: int|
                    0 <= k < i ==> (#[trigger] res@[k]).wf() && (k != input ==> res@[k]@
                        < self.group().p@),
            decreases 8 - i,
        {
            if i != input {
                match self.el_gamal.o_gen_pk() {
                    Some(pk) => {
                        res[i as usize] = pk;
                    },
                    None => {
                        return None;
                    },
                }
            } else {
                res[i as usize] = self.el_gamal.gen_pk(self.sk.duplicate());
            }
            i += 1;
        }
        Some(res)
    }

    /// Decrypts the ciphertext at Alice's place and gives the leading byte of
    /// the plaintext, which is the plaintext itself when that is below 256.
    /// Nothing when the mask of the ciphertext has no inverse.
    pub fn retrieve(&mut self, m2: [Ciphertext; 8]) -> (out: Option<u8>)
        requires
            old(self).wf(),
        ensures
            *final(self) == *old(self),
            ({
                let place = code(old(self).input().0, old(self).input().1, old(self).input().2);
                let c = m2@[place as int];
                let p = old(self).group().p@;
                let off = mask(p, old(self).secret_key(), c.0@);
                &&& out matches Some(z) ==> opens_to(z, p, off, c.1@)
                &&& out.is_none() <==> forall|x: nat| !inverts(x, off, p)
            }),
    {
        let input_index = translate_input_back(self.input_a, self.input_b, self.input_r);
        let ciphertext = (
            m2[input_index as usize].0.duplicate(),
            m2[input_index as usize].1.duplicate(),
        );
        let ghost p = self.group().p@;
        let ghost c = m2@[input_index as int];
        let ghost off = mask(p, self.secret_key(), c.0@);
        match self.el_gamal.dec(self.sk.duplicate(), ciphertext) {
            Some(plaintext) => {
                let z = plaintext.first_byte();
                proof {
                    let inverse = choose|inverse: nat|
                        inverts(inverse, off, p) && plaintext@ == decryption(p, c.1@, inverse);
                    assert(inverts(inverse, off, p) && z == leading_byte(
                        decryption(p, c.1@, inverse),
                    ));
                    assert(opens_to(z, p, off, c.1@));
                }
                Some(z)
            },
            None => {
                assert(forall|x: nat| !inverts(x, off, p));
                None
            },
        }
    }
}

/// Bob of the oblivious transfer: the sender.
pub struct Bob {
    el_gamal: ElGamal,
    input_a: bool,
    input_b: bool,
    input_r: bool,
}

impl Bob {
    /// The group that Bob works in.
    pub closed spec fn group(&self) -> Group {
        self.el_gamal.group()
    }

    /// The attributes of Bob's blood type.
    pub closed spec fn input(&self) -> (bool, bool, bool) {
        (self.input_a, self.input_b, self.input_r)
    }

    /// The invariant of the type.
    pub closed spec fn wf(&self) -> bool {
        self.el_gamal.wf()
    }

    /// Bob in the group `common_group`, with no input.
    pub fn new(common_group: Group) -> (bob: Bob)
        requires
            common_group.wf(),
        ensures
            bob.wf(),
            bob.group() == common_group,
            bob.input() == (false, false, false),
    {
        Self { el_gamal: ElGamal::new(common_group), input_a: false, input_b: false, input_r: false }
    }

    /// Answers Alice's eight public keys for the blood type `input`: under
    /// the key at each place, the entry of the truth table for that place and
    /// `input`, each with a fresh exponent. Nothing when a draw gives up.
    pub fn transfer(&mut self, input: u8, m1_from_alice: [PublicKey; 8]) -> (out: Option<
        [Ciphertext; 8],
    >)
        requires
            old(self).wf(),
        ensures
            final(self).wf(),
            final(self).group() == old(self).group(),
            final(self).input() == attributes(input),
            out matches Some(answers) ==> {
                forall|i: int|
                    0 <= i < 8 ==> {
                        let c = #[trigger] answers@[i];
                        &&& c.0.wf() && c.1.wf()
                        &&& encrypts(
                            (c.0@, c.1@),
                            final(self).group().g@,
                            final(self).group().p@,
                            final(self).group().q@,
                            m1_from_alice@[i]@,
                            answer(i as u8, attributes(input)),
                        )
                    }
            },
    {
        let (a, b, r) = translate_input(input);
        self.input_a = a;
        self.input_b = b;
        self.input_r = r;
        let mut res: [Ciphertext; 8] = [
            (Natural::from_u8(0), Natural::from_u8(0)),
            (Natural::from_u8(0), Natural::from_u8(0)),
            (Natural::from_u8(0), Natural::from_u8(0)),
            (Natural::from_u8(0), Natural::from_u8(0)),
            (Natural::from_u8(0), Natural::from_u8(0)),
            (Natural::from_u8(0), Natural::from_u8(0)),
            (Natural::from_u8(0), Natural::from_u8(0)),
            (Natural::from_u8(0), Natural::from_u8(0)),
        ];
        let mut i: u8 = 0;
        while i < 8
            invariant
                i <= 8,
                self.wf(),
                self.group() == old(self).group(),
                self.input() == attributes(input),
                (a, b, r) == attributes(input),
                forall|k: int|
                    0 <= k < i ==> {
                        let c = #[trigger] res@[k];
                        &&& c.0.wf() && c.1.wf()
                        &&& encrypts(
                            (c.0@, c.1@),
                            self.group().g@,
                            self.group().p@,
                            self.group().q@,
                            m1_from_alice@[k]@,
                            answer(k as u8, attributes(input)),
                        )
                    },
            decreases 8 - i,
        {
            let suits = blood_function(translate_input(i), (a, b, r));
            let message = Natural::from_u8(if suits { 1 } else { 0 });
            match self.el_gamal.enc(m1_from_alice[i as usize].duplicate(), message) {
                Some(c) => {
                    res[i as usize] = c;
                },
                None => {
                    return None;
                },
            }
            i += 1;
        }
        Some(res)
    }
}

/// The transfer gives Alice the entry of the truth table. Modulo a `p` above
/// one, when Bob encrypts a bit under the public key of Alice's secret key,
/// the leading byte of what Alice decrypts is that bit, whichever inverse of
/// the mask is taken.
pub proof fn lemma_transfer_gives_answer(
    g: nat,
    p: nat,
    sk: nat,
    bit: nat,
    r: nat,
    inverse: nat,
)
    requires
        p > 1,
        bit <= 1,
        inverts(inverse, mask(p, sk, encryption(g, p, power_mod(g, sk, p), bit, r).0), p),
    ensures
        leading_byte(decryption(p, encryption(g, p, power_mod(g, sk, p), bit, r).1, inverse))
            == bit,
{
    lemma_decryption_undoes_encryption(g, p, sk, bit, r, inverse);
    vstd::arithmetic::div_mod::lemma_small_mod(bit, p);
}

/// Runs the oblivious transfer in memory in the group `common_group`, with
/// Alice at place `donor` and Bob with the blood type `recipient`: what Alice
/// retrieves. Nothing modulo one, where every plaintext is zero, and nothing
/// when a draw gives up or a mask has no inverse. Whatever is drawn, what
/// Alice retrieves is the entry of the truth table.
pub fn transfer_entry(common_group: &Group, donor: u8, recipient: u8) -> (out: Option<u8>)
    requires
        common_group.wf(),
        donor < 8,
    ensures
        out matches Some(z) ==> z == answer(donor, attributes(recipient)),
        common_group.p@ <= 1 ==> out.is_none(),
{
    if !less_than(&Natural::from_u8(1), &common_group.p) {
        return None;
    }
    let mut alice = Alice::new(common_group.duplicate());
    let mut bob = Bob::new(common_group.duplicate());
    let m1 = match alice.choose_keys(donor) {
        Some(keys) => keys,
        None => {
            return None;
        },
    };
    let ghost pk = m1@[donor as int]@;
    let m2 = match bob.transfer(recipient, m1) {
        Some(answers) => answers,
        None => {
            return None;
        },
    };
    let ghost c = m2@[donor as int];
    let ghost g = common_group.g@;
    let ghost p = common_group.p@;
    let ghost sk = alice.secret_key();
    let ghost bit = answer(donor, attributes(recipient));
    proof {
        lemma_code_of_attributes(donor);
        assert(encrypts((c.0@, c.1@), g, p, common_group.q@, pk, bit));
    }
    match alice.retrieve(m2) {
        Some(z) => {
            proof {
                let r = choose|r: nat|
                    r < common_group.q@ && (c.0@, c.1@) == #[trigger] encryption(g, p, pk, bit, r);
                let off = mask(p, sk, c.0@);
                let inverse = choose|inverse: nat| #[trigger]
                    inverts(inverse, off, p) && z == leading_byte(decryption(p, c.1@, inverse));
                lemma_transfer_gives_answer(g, p, sk, bit, r, inverse);
            }
            Some(z)
        },
        None => None,
    }
}

} // verus!
