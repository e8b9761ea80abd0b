//! Two-party secure evaluation of the blood-type compatibility predicate.
//!
//! A donor and a recipient each hold a three-bit blood type. Three protocols
//! let them learn whether the donor's blood suits the recipient without
//! showing each other their inputs:
//!
//! - the evaluation of a circuit on secret-shared wires, with Beaver triples
//!   from a trusted dealer for the AND gates (`share`, `dealer`, `circuit`,
//!   `party`, `protocol`, `privacy`);
//! - a one-time truth table, shifted and masked by a trusted dealer
//!   (`table`);
//! - a one-out-of-eight oblivious transfer over ElGamal (`natural`, `group`,
//!   `elgamal`, `transfer`).
//!
//! The predicate itself and its truth table are in `predicate`; `random`
//! holds the one source of random bits.
pub mod circuit;
pub mod dealer;
pub mod elgamal;
pub mod error;
pub mod group;
pub mod natural;
pub mod party;
pub mod predicate;
pub mod privacy;
pub mod protocol;
pub mod random;
pub mod share;
pub mod table;
pub mod transfer;

pub use circuit::{Circuit, Gate};
pub use dealer::{BeaverTriple, Role, TripleShare};
pub use elgamal::{Ciphertext, ElGamal, Plaintext, PublicKey, SecretKey};
pub use error::ProtocolError;
pub use group::{
    generate_prime, generate_random_safe_prime_group_element, generate_safe_prime_group, Group,
};
pub use natural::Natural;
pub use party::Party;
pub use predicate::{blood_function, translate_input, translate_input_back};
pub use share::SecretSharingPair;
pub use table::modulo;
