use vstd::prelude::*;
use rand::rngs::SmallRng;
use crate::crypto::{hex_of, to_hex};

verus! {

#[verifier::external_type_specification]
#[verifier::external_body]
pub struct ExSmallRng(SmallRng);

/// Relies on `rand::SeedableRng::seed_from_u64` for `SmallRng`: a
/// generator whose output is fixed by the seed.
#[verifier::external_body]
fn seeded_rng(seed: u64) -> (r: SmallRng) {
    <SmallRng as rand::SeedableRng>::seed_from_u64(seed)
}

/// Relies on `rand::Rng::fill` on a 16-byte array: every byte is
/// overwritten with generated data.
#[verifier::external_body]
fn random_bytes16(rng: &mut SmallRng) -> (r: Vec<u8>)
    ensures
        r@.len() == 16,
{
    let mut bytes = [0u8; 16];
    rand::Rng::fill(rng, &mut bytes);
    bytes.to_vec()
}

/// A source of salts for password hashing.
pub trait RandomGenerator {
    fn get_salt(&mut self) -> String;
}

/// Salts drawn from a small, seeded pseudorandom generator.
pub struct SmallRandom(SmallRng);

impl SmallRandom {
    pub fn new(seed: u64) -> (r: Self) {
        SmallRandom(seeded_rng(seed))
    }

    /// A fresh salt: 16 generated bytes in lower-case hexadecimal.
    pub fn next_salt(&mut self) -> (r: String)
        ensures
            exists|b: Seq<u8>| b.len() == 16 && r@ == hex_of(b),
            r@.len() == 32,
    {
        let bytes = random_bytes16(&mut self.0);
        to_hex(bytes.as_slice())
    }
}

impl RandomGenerator for SmallRandom {
    fn get_salt(&mut self) -> String {
        self.next_salt()
    }
}

} // verus!
