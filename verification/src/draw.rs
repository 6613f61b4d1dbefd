//! From the host's random bytes to the number of the winning ticket.

use vstd::prelude::*;

verus! {

/// The number of seed bytes that the draw reads.
pub const SEED_BYTES: usize = 8;

/// The number that the first eight bytes of a seed spell, the least
/// significant byte first.
pub open spec fn seed_value(seed: Seq<u8>) -> nat {
    (seed[0] as nat) + (seed[1] as nat) * 0x100 + (seed[2] as nat) * 0x1_0000 + (seed[3] as nat)
        * 0x100_0000 + (seed[4] as nat) * 0x1_0000_0000 + (seed[5] as nat) * 0x100_0000_0000 + (
    seed[6] as nat) * 0x1_0000_0000_0000 + (seed[7] as nat) * 0x100_0000_0000_0000
}

/// The ticket that a seed draws among `total` tickets, numbered from zero.
pub open spec fn drawn_ticket(seed: Seq<u8>, total: nat) -> nat {
    seed_value(seed) % total
}

/// The number that the first eight bytes of a seed spell.
pub fn seed_number(seed: &Vec<u8>) -> (x: u64)
    requires
        seed@.len() >= SEED_BYTES,
    ensures
        x == seed_value(seed@),
{
    let b0: u64 = seed[0] as u64;
    let b1: u64 = seed[1] as u64;
    let b2: u64 = seed[2] as u64;
    let b3: u64 = seed[3] as u64;
    let b4: u64 = seed[4] as u64;
    let b5: u64 = seed[5] as u64;
    let b6: u64 = seed[6] as u64;
    let b7: u64 = seed[7] as u64;
    b0 + b1 * 0x100 + b2 * 0x1_0000 + b3 * 0x100_0000 + b4 * 0x1_0000_0000 + b5
        * 0x100_0000_0000 + b6 * 0x1_0000_0000_0000 + b7 * 0x100_0000_0000_0000
}

/// The ticket that a seed draws among `total` tickets: the seed's number
/// modulo `total`. Small numbers are drawn slightly more often where `total`
/// does not divide the range of the seed's number.
pub fn draw_ticket(seed: &Vec<u8>, total: u64) -> (ticket: u64)
    requires
        seed@.len() >= SEED_BYTES,
        total > 0,
    ensures
        ticket == drawn_ticket(seed@, total as nat),
        ticket < total,
{
    seed_number(seed) % total
}

} // verus!
