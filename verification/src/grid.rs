//! The grid's dimensions and the coordinates of its cells.

use std::collections::BTreeSet;
use vstd::prelude::*;
use vstd::std_specs::cmp::OrdSpec;
use vstd::std_specs::iter::IteratorSpec;

verus! {

/// Number of rows of a board.
pub const ROWS: usize = 10;

/// Number of columns of a board.
pub const COLUMNS: usize = 10;

/// A cell's place on a board: row, then column.
pub type Coordinate = (usize, usize);

/// Whether `c` names a cell of the board.
pub open spec fn in_grid(c: Coordinate) -> bool {
    c.0 < ROWS && c.1 < COLUMNS
}

/// Whether every coordinate of `s` names a cell of the board.
pub open spec fn all_in_grid(s: Set<Coordinate>) -> bool {
    forall|c: Coordinate| s.contains(c) ==> in_grid(c)
}

/// Row-major order: `d` comes before `c` when reading the board row by row.
/// A volley is resolved in this order.
pub open spec fn coord_before(d: Coordinate, c: Coordinate) -> bool {
    d.0 < c.0 || (d.0 == c.0 && d.1 < c.1)
}

/// Whether `s` lists coordinates in strictly ascending row-major order.
pub open spec fn ascending(s: Seq<Coordinate>) -> bool {
    forall|i: int, j: int| 0 <= i < j < s.len() ==> coord_before(s[i], s[j])
}

/// Whether coordinates are ordered as the ordered collections of the
/// standard library expect of their keys.
pub open spec fn coordinates_are_ordered() -> bool {
    vstd::laws_cmp::obeys_cmp::<Coordinate>()
}

/// Coordinates are ordered: first by row, then by column.
pub proof fn lemma_coordinates_are_ordered()
    ensures
        coordinates_are_ordered(),
{
    assert(vstd::laws_cmp::obeys_cmp::<usize>());
}

/// Exec form of [`in_grid`].
pub fn is_in_grid(c: Coordinate) -> (b: bool)
    ensures
        b == in_grid(c),
{
    c.0 < ROWS && c.1 < COLUMNS
}

/// A set of coordinates is walked in ascending row-major order.
proof fn lemma_iteration_order(s: &BTreeSet<Coordinate>)
    ensures
        ascending(s.iter().remaining().unref()),
{
    let all = s.iter().remaining();
    lemma_coordinates_are_ordered();
    assert(vstd::laws_cmp::obeys_cmp::<&Coordinate>());
    vstd::std_specs::btree::axiom_increasing_seq_meaning::<&Coordinate>(all);
    assert forall|i: int, j: int| 0 <= i < j < all.len() implies coord_before(
        *all[i],
        *all[j],
    ) by {
        assert((&all[i]).cmp_spec(&all[j]) is Less);
    }
}

/// The coordinates of a volley in the order in which they are resolved:
/// each one once, in ascending row-major order.
pub fn in_order(shots: &BTreeSet<Coordinate>) -> (v: Vec<Coordinate>)
    ensures
        v@.to_set() == shots@,
        v@.no_duplicates(),
        v@.len() == shots@.len(),
        ascending(v@),
{
    let mut v: Vec<Coordinate> = Vec::new();
    let ghost all = shots.iter().remaining();
    for c in it: shots.iter()
        invariant
            it.seq() == all,
            v@.len() == it.index(),
            forall|k: int| 0 <= k < v@.len() ==> v@[k] == *all[k],
    {
        v.push(*c);
    }
    proof {
        assert(v@ =~= all.unref());
        lemma_iteration_order(shots);
    }
    v
}

} // verus!
