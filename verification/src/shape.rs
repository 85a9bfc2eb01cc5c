//! The four ship archetypes as three-by-three masks, and their rotations.

use crate::status::Status;
use vstd::prelude::*;

verus! {

/// Side of the square box that holds a ship.
pub const SHIP_SIZE: usize = 3;

/// A ship's mask: `'*'` where the ship has a cell, `'.'` where it has none.
pub type ShipShape = [[char; SHIP_SIZE]; SHIP_SIZE];

/// A mask as a sequence of three rows of three characters.
pub type Mask = Seq<Seq<char>>;

/// The rows of `s`, the model that the contracts of this module speak of.
pub open spec fn rows(s: ShipShape) -> Mask {
    Seq::new(3, |i: int| Seq::new(3, |j: int| s[i][j]))
}

/// Whether `m` has three rows of three cells.
pub open spec fn is_square(m: Mask) -> bool {
    m.len() == 3 && forall|i: int| 0 <= i < 3 ==> (#[trigger] m[i]).len() == 3
}

/// `m` mirrored along its main diagonal.
pub open spec fn transposed(m: Mask) -> Mask {
    Seq::new(3, |i: int| Seq::new(3, |j: int| m[j][i]))
}

/// `m` with every row read right to left.
pub open spec fn cols_reversed(m: Mask) -> Mask {
    Seq::new(3, |i: int| Seq::new(3, |j: int| m[i][2 - j]))
}

/// `m` with its rows in the opposite order.
pub open spec fn rows_reversed(m: Mask) -> Mask {
    Seq::new(3, |i: int| Seq::new(3, |j: int| m[2 - i][j]))
}

/// 1 where the mask has a ship cell, 0 elsewhere.
pub open spec fn live_at(m: Mask, i: int, j: int) -> nat {
    if m[i][j] == '*' {
        1
    } else {
        0
    }
}

/// The number of ship cells in `m`.
pub open spec fn live_count(m: Mask) -> nat {
    live_at(m, 0, 0) + live_at(m, 0, 1) + live_at(m, 0, 2) + live_at(m, 1, 0) + live_at(m, 1, 1)
        + live_at(m, 1, 2) + live_at(m, 2, 0) + live_at(m, 2, 1) + live_at(m, 2, 2)
}

/// Whether every cell of `m` is a ship cell or an empty one.
pub open spec fn is_mask(m: Mask) -> bool {
    is_square(m) && forall|i: int, j: int|
        0 <= i < 3 && 0 <= j < 3 ==> #[trigger] m[i][j] == '*' || m[i][j] == '.'
}

/// Mirrors a shape along its main diagonal.
pub fn transpose(inp: ShipShape) -> (out: ShipShape)
    ensures
        rows(out) == transposed(rows(inp)),
{
    let out = [
        [inp[0][0], inp[1][0], inp[2][0]],
        [inp[0][1], inp[1][1], inp[2][1]],
        [inp[0][2], inp[1][2], inp[2][2]],
    ];
    assert(rows(out) =~~= transposed(rows(inp)));
    out
}

/// Reverses the columns of each row of a shape.
pub fn reverse_cols_of_rows(inp: ShipShape) -> (out: ShipShape)
    ensures
        rows(out) == cols_reversed(rows(inp)),
{
    let out = [
        [inp[0][2], inp[0][1], inp[0][0]],
        [inp[1][2], inp[1][1], inp[1][0]],
        [inp[2][2], inp[2][1], inp[2][0]],
    ];
    assert(rows(out) =~~= cols_reversed(rows(inp)));
    out
}

/// Reverses the rows of each column of a shape.
pub fn reverse_rows_of_cols(inp: ShipShape) -> (out: ShipShape)
    ensures
        rows(out) == rows_reversed(rows(inp)),
{
    let out = [
        [inp[2][0], inp[2][1], inp[2][2]],
        [inp[1][0], inp[1][1], inp[1][2]],
        [inp[0][0], inp[0][1], inp[0][2]],
    ];
    assert(rows(out) =~~= rows_reversed(rows(inp)));
    out
}

/// The archetypes of the fleet.
#[allow(missing_docs)]
#[derive(Clone, Copy, PartialEq, Eq, Structural, Debug, PartialOrd, Ord)]
pub enum ShipType {
    X,
    V,
    H,
    I,
}

/// The mask of an archetype before any rotation.
pub open spec fn canonical(t: ShipType) -> Mask {
    match t {
        ShipType::X => seq![seq!['*', '.', '*'], seq!['.', '*', '.'], seq!['*', '.', '*']],
        ShipType::V => seq![seq!['*', '.', '*'], seq!['*', '.', '*'], seq!['.', '*', '.']],
        ShipType::H => seq![seq!['*', '.', '*'], seq!['*', '*', '*'], seq!['*', '.', '*']],
        ShipType::I => seq![seq!['.', '*', '.'], seq!['.', '*', '.'], seq!['.', '*', '.']],
    }
}

/// The mask of an archetype in a given orientation.
///
/// The orientations are named 90, 180, 270 and 360. The first, and any
/// other number, leaves the canonical mask as it is; each of the other three
/// turns it by a further quarter.
pub open spec fn shape_of(t: ShipType, rotation: u16) -> Mask {
    if rotation == 180 {
        cols_reversed(transposed(canonical(t)))
    } else if rotation == 270 {
        rows_reversed(cols_reversed(canonical(t)))
    } else if rotation == 360 {
        rows_reversed(transposed(canonical(t)))
    } else {
        canonical(t)
    }
}

/// The number of cells that a ship of archetype `t` occupies.
pub open spec fn footprint_size(t: ShipType) -> nat {
    match t {
        ShipType::X => 5,
        ShipType::V => 5,
        ShipType::H => 7,
        ShipType::I => 3,
    }
}

/// The archetypes of a fleet, in the order in which they are placed.
pub open spec fn initial_ships() -> Seq<ShipType> {
    seq![ShipType::X, ShipType::V, ShipType::H, ShipType::I]
}

impl ShipType {
    /// The unrotated mask of this archetype.
    fn base_shape(&self) -> (shape: ShipShape)
        ensures
            rows(shape) == canonical(*self),
    {
        let l = Status::Live.as_char();
        let s = Status::Space.as_char();
        let shape = match *self {
            ShipType::X => [[l, s, l], [s, l, s], [l, s, l]],
            ShipType::V => [[l, s, l], [l, s, l], [s, l, s]],
            ShipType::H => [[l, s, l], [l, l, l], [l, s, l]],
            ShipType::I => [[s, l, s], [s, l, s], [s, l, s]],
        };
        assert(rows(shape) =~~= canonical(*self));
        shape
    }

    /// The mask of this archetype in the orientation `rotation`.
    pub fn get_shape(&self, rotation: u16) -> (shape: ShipShape)
        ensures
            rows(shape) == shape_of(*self, rotation),
    {
        let shape = self.base_shape();
        match rotation {
            180 => reverse_cols_of_rows(transpose(shape)),
            270 => reverse_rows_of_cols(reverse_cols_of_rows(shape)),
            360 => reverse_rows_of_cols(transpose(shape)),
            _ => shape,
        }
    }

    /// The archetypes of a fleet, in placement order.
    pub fn get_initial_ships() -> (fleet: [ShipType; 4])
        ensures
            fleet@ == initial_ships(),
    {
        let fleet = [ShipType::X, ShipType::V, ShipType::H, ShipType::I];
        assert(fleet@ =~= initial_ships());
        fleet
    }

    /// The number of cells that a ship of this archetype occupies.
    pub fn size(&self) -> (n: usize)
        ensures
            n == footprint_size(*self),
    {
        match *self {
            ShipType::X => 5,
            ShipType::V => 5,
            ShipType::H => 7,
            ShipType::I => 3,
        }
    }
}

/// Every orientation of every archetype is a well-formed mask.
pub proof fn lemma_shape_is_mask(t: ShipType, rotation: u16)
    ensures
        is_mask(shape_of(t, rotation)),
{
    let c = canonical(t);
    assert(is_mask(c));
    assert(is_mask(transposed(c)));
    assert(is_mask(cols_reversed(c)));
    assert(is_mask(cols_reversed(transposed(c))));
    assert(is_mask(rows_reversed(cols_reversed(c))));
    assert(is_mask(rows_reversed(transposed(c))));
}

/// Turning a mask moves its cells and neither adds nor removes one.
pub proof fn lemma_turns_keep_live_count(m: Mask)
    requires
        is_square(m),
    ensures
        live_count(transposed(m)) == live_count(m),
        live_count(cols_reversed(m)) == live_count(m),
        live_count(rows_reversed(m)) == live_count(m),
        is_square(transposed(m)),
        is_square(cols_reversed(m)),
        is_square(rows_reversed(m)),
{
}

/// Each orientation of an archetype has as many ship cells as the archetype
/// itself: five for X and V, seven for H, three for I.
pub proof fn lemma_rotation_preserves_size(t: ShipType, rotation: u16)
    ensures
        live_count(shape_of(t, rotation)) == footprint_size(t),
{
    let c = canonical(t);
    assert(is_square(c));
    assert(live_count(c) == footprint_size(t));
    lemma_turns_keep_live_count(c);
    lemma_turns_keep_live_count(transposed(c));
    lemma_turns_keep_live_count(cols_reversed(c));
}

} // verus!
