//! The source of chance: where ships land, how they are turned, what they
//! are called and where the computer aims.
//!
//! A [`RandomSource`] is handed to whatever needs a draw, so a game built
//! from a fixed seed replays the same placement and the same targets.

use crate::grid::{Coordinate, COLUMNS, ROWS};
use rand::rngs::OsRng;
use rand::rngs::StdRng;
use rand::seq::SliceRandom;
use rand::Rng;
use rand::RngCore;
use rand::SeedableRng;
use uuid::Builder;
use vstd::prelude::*;

verus! {

/// The generator of the `rand` crate that backs a [`RandomSource`].
#[verifier::external_type_specification]
#[verifier::external_body]
pub struct ExStdRng(rand::rngs::StdRng);

/// The text of the version 4 UUID that is made of sixteen given bytes: the
/// lower-case hyphenated form that `uuid` prints.
pub uninterp spec fn hyphenated_uuid(bytes: Seq<u8>) -> Seq<char>;

/// `SeedableRng::seed_from_u64` for `StdRng`: a generator whose draws are
/// fixed by `seed`. Nothing is claimed of the generator's state.
#[verifier::external_body]
fn seeded_generator(seed: u64) -> StdRng {
    StdRng::seed_from_u64(seed)
}

/// `RngCore::try_fill_bytes` of `OsRng`: eight bytes from the operating
/// system, or `None` where it has none to give. Nothing is claimed of the
/// bytes.
#[verifier::external_body]
fn system_seed() -> Option<u64> {
    let mut bytes = [0u8; 8];
    match OsRng.try_fill_bytes(&mut bytes) {
        Ok(()) => Some(u64::from_le_bytes(bytes)),
        Err(_) => None,
    }
}

/// `Rng::gen_range` on the half-open range from zero to `bound`: some index
/// below `bound`. The range must not be empty.
#[verifier::external_body]
fn draw_below(rng: &mut StdRng, bound: usize) -> (r: usize)
    requires
        bound > 0,
    ensures
        r < bound,
{
    rng.gen_range(0..bound)
}

/// `SliceRandom::choose` on a slice: one of its items, or `None` if it has
/// none.
#[verifier::external_body]
fn draw_item(rng: &mut StdRng, items: &[u16]) -> (r: Option<u16>)
    ensures
        items@.len() == 0 ==> r is None,
        items@.len() > 0 ==> r is Some && items@.contains(r->0),
{
    items.choose(rng).copied()
}

/// `RngCore::fill_bytes` for `StdRng`: sixteen bytes. Nothing is claimed of
/// them.
#[verifier::external_body]
fn draw_bytes(rng: &mut StdRng) -> [u8; 16] {
    let mut bytes = [0u8; 16];
    rng.fill_bytes(&mut bytes);
    bytes
}

/// `Builder::from_random_bytes`, `Builder::into_uuid` and the UUID's
/// `Display`: the text of the version 4 UUID made of `bytes`.
#[verifier::external_body]
fn uuid_text(bytes: [u8; 16]) -> (id: String)
    ensures
        id@ == hyphenated_uuid(bytes@),
{
    Builder::from_random_bytes(bytes).into_uuid().to_string()
}

/// The orientations a ship can take.
pub open spec fn is_rotation(r: u16) -> bool {
    r == 90 || r == 180 || r == 270 || r == 360
}

/// A seed from the operating system, or `None` where the system offers no
/// randomness.
pub fn entropy_seed() -> Option<u64> {
    system_seed()
}

/// A stream of random draws.
pub struct RandomSource {
    rng: StdRng,
}

impl RandomSource {
    /// A source whose draws are fixed by `seed`.
    pub fn from_seed(seed: u64) -> Self {
        RandomSource { rng: seeded_generator(seed) }
    }

    /// A source seeded by the operating system, or `None` where the system
    /// offers no randomness: [`RandomSource::seeded_by`] what
    /// [`entropy_seed`] gives.
    pub fn from_entropy() -> Option<Self> {
        let seed = entropy_seed();
        RandomSource::seeded_by(seed)
    }

    /// An index below `bound`.
    pub fn below(&mut self, bound: usize) -> (r: usize)
        requires
            bound > 0,
        ensures
            r < bound,
    {
        draw_below(&mut self.rng, bound)
    }

    /// One of the four orientations.
    pub fn rotation(&mut self) -> (r: u16)
        ensures
            is_rotation(r),
    {
        let rotations: [u16; 4] = [90, 180, 270, 360];
        match draw_item(&mut self.rng, rotations.as_slice()) {
            Some(r) => r,
            None => 0,
        }
    }

    /// A source whose draws are fixed by `seed`, where there is a seed;
    /// without one there is no source.
    pub fn seeded_by(seed: Option<u64>) -> (source: Option<Self>)
        ensures
            source is Some <==> seed is Some,
    {
        match seed {
            Some(seed) => Some(RandomSource::from_seed(seed)),
            None => None,
        }
    }

    /// A fresh name for a ship: the text of a random version 4 UUID.
    pub fn ship_id(&mut self) -> (id: String)
        ensures
            exists|bytes: Seq<u8>| bytes.len() == 16 && id@ == hyphenated_uuid(bytes),
    {
        let bytes = draw_bytes(&mut self.rng);
        uuid_text(bytes)
    }
}

/// A random coordinate that leaves `threshold` rows below it and
/// `threshold` columns to its right inside the board.
pub fn get_random_coordinate(rng: &mut RandomSource, threshold: usize) -> (c: Coordinate)
    requires
        threshold < ROWS,
        threshold < COLUMNS,
    ensures
        c.0 < ROWS - threshold,
        c.1 < COLUMNS - threshold,
{
    let row = rng.below(ROWS - threshold);
    let col = rng.below(COLUMNS - threshold);
    (row, col)
}

} // verus!
