//! Resolving a volley against a board, and recording its outcome on the
//! firer's tracking board.
//!
//! A volley is a set of coordinates. Its shots are resolved one after the
//! other in ascending row-major order, so the outcome is a function of the
//! board and the set alone. The spec functions of this module state that
//! outcome cell by cell and ship by ship, without reference to the order of
//! the steps: [`Board::outcome`] is what the firer is told of a shot,
//! [`Board::status_after`] is what a cell holds afterwards, and
//! [`Board::alive_after`] is which ships are still afloat.

use crate::board::{Board, Position, Ship};
use crate::grid::{all_in_grid, ascending, coord_before, in_grid, in_order, Coordinate, COLUMNS, ROWS};
use crate::status::Status;
use crate::text::{compose_message, volley_message};
use std::collections::BTreeMap;
use std::collections::BTreeSet;
use vstd::prelude::*;
use vstd::std_specs::iter::IteratorSpec;

verus! {

/// The coordinates of a list of cells.
pub open spec fn coordinates_of(cells: Seq<&Position>) -> Seq<Coordinate> {
    cells.map_values(|p: &Position| p.coordinate)
}

/// The ships behind a list of references.
pub open spec fn ships_of(refs: Seq<&Ship>) -> Seq<Ship> {
    refs.map_values(|s: &Ship| *s)
}

/// The shots among `among` for which `response` reports the outcome `s`.
pub open spec fn shots_with(
    response: Map<Coordinate, Status>,
    among: Set<Coordinate>,
    s: Status,
) -> Set<Coordinate> {
    Set::new(|c: Coordinate| among.contains(c) && response[c] == s)
}

/// The number of shots for which `response` reports the outcome `s`.
pub open spec fn tally(response: Map<Coordinate, Status>, s: Status) -> nat {
    shots_with(response, response.dom(), s).len()
}

/// The coordinates of a list of outcomes.
pub open spec fn keys_of(entries: Seq<(Coordinate, Status)>) -> Seq<Coordinate> {
    entries.map_values(|e: (Coordinate, Status)| e.0)
}

/// Whether `entries` lists what `response` holds: each shot once, with its
/// outcome.
pub open spec fn lists(entries: Seq<(Coordinate, Status)>, response: Map<Coordinate, Status>) -> bool {
    &&& keys_of(entries).no_duplicates()
    &&& forall|k: int|
        0 <= k < entries.len() ==> response.contains_key((#[trigger] entries[k]).0)
            && response[entries[k].0] == entries[k].1
    &&& forall|c: Coordinate| #[trigger]
        response.contains_key(c) ==> exists|k: int|
            0 <= k < entries.len() && (#[trigger] entries[k]).0 == c
}

/// The outcomes of a volley as a list: each shot once, with its outcome.
pub fn in_key_order(response: &BTreeMap<Coordinate, Status>) -> (entries: Vec<(Coordinate, Status)>)
    ensures
        lists(entries@, response@),
{
    let mut entries: Vec<(Coordinate, Status)> = Vec::new();
    let ghost all = response.iter().remaining();
    for entry in it: response.iter()
        invariant
            it.seq() == all,
            entries@.len() == it.index(),
            forall|k: int|
                0 <= k < entries@.len() ==> (#[trigger] entries@[k]) == (*all[k].0, *all[k].1),
    {
        entries.push((*entry.0, *entry.1));
    }
    proof {
        crate::grid::lemma_coordinates_are_ordered();
        assert(all.no_duplicates());
        assert forall|i: int, j: int| 0 <= i < j < entries@.len() implies keys_of(entries@)[i]
            != keys_of(entries@)[j] by {
            assert(response@.contains_key(*all[i].0) && response@[*all[i].0] == *all[i].1);
            assert(response@.contains_key(*all[j].0) && response@[*all[j].0] == *all[j].1);
            assert(all[i] != all[j]);
        }
        assert forall|k: int| 0 <= k < entries@.len() implies response@.contains_key(
            (#[trigger] entries@[k]).0,
        ) && response@[entries@[k].0] == entries@[k].1 by {
            assert(response@.contains_key(*all[k].0) && response@[*all[k].0] == *all[k].1);
        }
        assert forall|c: Coordinate| #[trigger] response@.contains_key(c) implies exists|k: int|
            0 <= k < entries@.len() && (#[trigger] entries@[k]).0 == c by {
            assert(all.contains((&c, &response@[c])));
            let k = choose|k: int| 0 <= k < all.len() && all[k] == (&c, &response@[c]);
            assert(entries@[k].0 == c);
        }
    }
    entries
}

impl Board {
    /// The cells of the ship `id` that have not been hit.
    pub open spec fn live_cells(&self, id: Seq<char>) -> Set<Coordinate> {
        Set::new(
            |c: Coordinate|
                in_grid(c) && self.status_at(c) == Status::Live && self.owner_at(c) == Some(id),
        )
    }

    /// Whether ship `i` is the first of its name on the roster. A look-up by
    /// name finds this ship and no later one.
    pub open spec fn first_named(&self, i: int) -> bool {
        &&& 0 <= i < self.ships@.len()
        &&& forall|j: int| 0 <= j < i ==> (#[trigger] self.ships@[j]).id@ != self.ships@[i].id@
    }

    /// The ships that are afloat, in roster order.
    pub open spec fn afloat(&self) -> Seq<Ship> {
        self.ships@.filter(|s: Ship| s.alive)
    }

    /// Whether no ship of this board is afloat.
    pub open spec fn is_cleared(&self) -> bool {
        forall|i: int| 0 <= i < self.ships@.len() ==> !(#[trigger] self.ships@[i]).alive
    }

    /// Whether the shot at `c`, as part of the volley `shots`, sinks a ship:
    /// the cell is `Live`, its ship is on the roster, and every other cell of
    /// that ship that is still `Live` is hit earlier in the same volley.
    pub open spec fn sinks(&self, shots: Set<Coordinate>, c: Coordinate) -> bool {
        &&& self.status_at(c) == Status::Live
        &&& self.owner_at(c) matches Some(id)
        &&& self.on_roster(id)
        &&& forall|d: Coordinate| #[trigger]
            self.live_cells(id).contains(d) && d != c ==> shots.contains(d) && coord_before(d, c)
    }

    /// What the firer is told of the shot at `c`, one of the volley `shots`:
    /// `Miss` unless the cell is `Live`, `Kill` if the shot sinks a ship,
    /// `Hit` otherwise.
    pub open spec fn outcome(&self, shots: Set<Coordinate>, c: Coordinate) -> Status {
        if self.status_at(c) != Status::Live {
            Status::Miss
        } else if self.sinks(shots, c) {
            Status::Kill
        } else {
            Status::Hit
        }
    }

    /// What the cell at `c` holds once the volley `shots` is resolved: the
    /// outcome of the shot if the cell was shot at and was not `Hit` or
    /// `Kill` before, else what it held.
    pub open spec fn status_after(&self, shots: Set<Coordinate>, c: Coordinate) -> Status {
        if shots.contains(c) && !self.status_at(c).is_struck() {
            self.outcome(shots, c)
        } else {
            self.status_at(c)
        }
    }

    /// Whether the volley `shots` sinks the ship called `id`.
    pub open spec fn sunk_by(&self, shots: Set<Coordinate>, id: Seq<char>) -> bool {
        exists|c: Coordinate|
            shots.contains(c) && in_grid(c) && self.owner_at(c) == Some(id) && #[trigger] self.sinks(
                shots,
                c,
            )
    }

    /// Whether ship `i` is afloat once the volley `shots` is resolved.
    pub open spec fn alive_after(&self, shots: Set<Coordinate>, i: int) -> bool {
        self.ships@[i].alive && !(self.first_named(i) && self.sunk_by(shots, self.ships@[i].id@))
    }

    /// What the firer is told of the volley `shots`: the outcome of each of
    /// its shots.
    pub open spec fn response_to(&self, shots: Set<Coordinate>) -> Map<Coordinate, Status> {
        Map::new(|c: Coordinate| shots.contains(c), |c: Coordinate| self.outcome(shots, c))
    }

    /// Whether this board is `pre` after the volley `shots`: the same grid
    /// and the same ships, each cell holding what [`Board::status_after`]
    /// says and each ship afloat as [`Board::alive_after`] says.
    pub open spec fn resolved_from(&self, pre: Board, shots: Set<Coordinate>) -> bool {
        &&& self.wf()
        &&& forall|c: Coordinate| #[trigger]
            in_grid(c) ==> {
                &&& self.status_at(c) == pre.status_after(shots, c)
                &&& self.positions@[c.0 as int][c.1 as int].ship_id
                    == pre.positions@[c.0 as int][c.1 as int].ship_id
            }
        &&& self.ships@.len() == pre.ships@.len()
        &&& forall|i: int|
            0 <= i < pre.ships@.len() ==> (#[trigger] self.ships@[i]) == (Ship {
                alive: pre.alive_after(shots, i),
                ..pre.ships@[i]
            })
    }

    /// The ships that are afloat, in roster order.
    pub fn ships_alive(&self) -> (alive: Vec<&Ship>)
        ensures
            ships_of(alive@) == self.afloat(),
    {
        let mut alive: Vec<&Ship> = Vec::new();
        let mut i: usize = 0;
        while i < self.ships.len()
            invariant
                i <= self.ships@.len(),
                ships_of(alive@) == self.ships@.take(i as int).filter(|s: Ship| s.alive),
            decreases self.ships@.len() - i,
        {
            proof {
                let pred = |s: Ship| s.alive;
                let before = self.ships@.take(i as int);
                let after = self.ships@.take(i + 1);
                assert(after.drop_last() =~= before);
                assert(after.last() == self.ships@[i as int]);
                reveal(Seq::filter);
                assert(after.filter(pred) == if pred(after.last()) {
                    before.filter(pred).push(after.last())
                } else {
                    before.filter(pred)
                });
            }
            if self.ships[i].alive {
                alive.push(&self.ships[i]);
                assert(ships_of(alive@) =~= self.ships@.take(i as int).filter(|s: Ship| s.alive).push(
                    self.ships@[i as int],
                ));
            }
            i += 1;
        }
        proof {
            assert(self.ships@.take(self.ships@.len() as int) =~= self.ships@);
        }
        alive
    }

    /// The position on the roster of the first ship called `id`, if there
    /// is one.
    pub fn find_ship_index(&self, id: &String) -> (found: Option<usize>)
        ensures
            found matches Some(i) ==> self.first_named(i as int) && self.ships@[i as int].id@ == id@,
            found is None ==> !self.on_roster(id@),
    {
        let mut i: usize = 0;
        while i < self.ships.len()
            invariant
                i <= self.ships@.len(),
                forall|k: int| 0 <= k < i ==> (#[trigger] self.ships@[k]).id@ != id@,
            decreases self.ships@.len() - i,
        {
            if self.ships[i].id == *id {
                return Some(i);
            }
            i += 1;
        }
        None
    }

    /// The first ship called `id`, to be changed in place.
    pub fn find_ship_mut(&mut self, id: String) -> (found: Option<&mut Ship>)
        ensures
            found matches Some(ship) ==> exists|i: int|
                {
                    &&& #[trigger] old(self).first_named(i)
                    &&& old(self).ships@[i].id@ == id@
                    &&& *ship == old(self).ships@[i]
                    &&& final(self).ships@ == old(self).ships@.update(i, *final(ship))
                    &&& final(self).positions == old(self).positions
                },
            found is None ==> !old(self).on_roster(id@) && *final(self) == *old(self),
    {
        match self.find_ship_index(&id) {
            Some(i) => Some(&mut self.ships[i]),
            None => None,
        }
    }

    /// The cells of the ship `id` that have not been hit, in row-major
    /// order.
    pub fn alive_pos_by_ship(&self, id: String) -> (cells: Vec<&Position>)
        requires
            self.wf(),
        ensures
            ascending(coordinates_of(cells@)),
            forall|k: int|
                0 <= k < cells@.len() ==> {
                    let c = (#[trigger] cells@[k]).coordinate;
                    self.live_cells(id@).contains(c) && *cells@[k]
                        == self.positions@[c.0 as int][c.1 as int]
                },
            forall|c: Coordinate| #[trigger]
                self.live_cells(id@).contains(c) ==> coordinates_of(cells@).contains(c),
    {
        let mut cells: Vec<&Position> = Vec::new();
        let mut r: usize = 0;
        while r < ROWS
            invariant
                r <= ROWS,
                self.wf(),
                ascending(coordinates_of(cells@)),
                forall|k: int|
                    0 <= k < cells@.len() ==> {
                        let c = (#[trigger] cells@[k]).coordinate;
                        self.live_cells(id@).contains(c) && c.0 < r && *cells@[k]
                            == self.positions@[c.0 as int][c.1 as int]
                    },
                forall|c: Coordinate| #[trigger]
                    self.live_cells(id@).contains(c) && c.0 < r ==> coordinates_of(
                        cells@,
                    ).contains(c),
            decreases ROWS - r,
        {
            let mut c: usize = 0;
            while c < COLUMNS
                invariant
                    r < ROWS,
                    c <= COLUMNS,
                    self.wf(),
                    ascending(coordinates_of(cells@)),
                    forall|k: int|
                        0 <= k < cells@.len() ==> {
                            let d = (#[trigger] cells@[k]).coordinate;
                            self.live_cells(id@).contains(d) && coord_before(d, (r, c))
                                && *cells@[k] == self.positions@[d.0 as int][d.1 as int]
                        },
                    forall|d: Coordinate| #[trigger]
                        self.live_cells(id@).contains(d) && coord_before(d, (r, c))
                            ==> coordinates_of(cells@).contains(d),
                decreases COLUMNS - c,
            {
                let pos = &self.positions[r][c];
                let named = match &pos.ship_id {
                    Some(owner) => *owner == id,
                    None => false,
                };
                let ghost before = cells@;
                if named && pos.status == Status::Live {
                    cells.push(pos);
                    proof {
                        assert(pos.coordinate == (r, c));
                        assert(coordinates_of(cells@) =~= coordinates_of(before).push((r, c)));
                        assert(coordinates_of(cells@)[before.len() as int] == (r, c));
                    }
                }
                proof {
                    assert forall|d: Coordinate| #[trigger]
                        self.live_cells(id@).contains(d) && coord_before(
                            d,
                            (r, (c + 1) as usize),
                        ) implies coordinates_of(cells@).contains(d) by {
                        if d == (r, c) {
                        } else {
                            assert(coord_before(d, (r, c)));
                            let k = choose|k: int|
                                0 <= k < before.len() && coordinates_of(before)[k] == d;
                            assert(coordinates_of(cells@)[k] == d);
                        }
                    }
                }
                c += 1;
            }
            r += 1;
        }
        cells
    }

    /// Whether one of the shots in `done`, a part of the volley `shots`,
    /// sinks the ship called `id`.
    spec fn sunk_among(&self, shots: Set<Coordinate>, done: Set<Coordinate>, id: Seq<char>) -> bool {
        exists|c: Coordinate|
            done.contains(c) && in_grid(c) && self.owner_at(c) == Some(id) && #[trigger] self.sinks(
                shots,
                c,
            )
    }

    /// Whether this board is `pre` with the shots in `done`, a part of the
    /// volley `shots`, resolved and the others still to come.
    spec fn midway(&self, pre: Board, shots: Set<Coordinate>, done: Set<Coordinate>) -> bool {
        &&& self.wf()
        &&& forall|c: Coordinate| #[trigger]
            in_grid(c) ==> {
                &&& self.status_at(c) == (if done.contains(c) {
                    pre.status_after(shots, c)
                } else {
                    pre.status_at(c)
                })
                &&& self.positions@[c.0 as int][c.1 as int].ship_id
                    == pre.positions@[c.0 as int][c.1 as int].ship_id
            }
        &&& self.ships@.len() == pre.ships@.len()
        &&& forall|i: int|
            0 <= i < pre.ships@.len() ==> (#[trigger] self.ships@[i]) == (Ship {
                alive: pre.ships@[i].alive && !(pre.first_named(i) && pre.sunk_among(
                    shots,
                    done,
                    pre.ships@[i].id@,
                )),
                ..pre.ships@[i]
            })
    }

    /// Resolves the volley `shots` against this board.
    ///
    /// A shot at a `Live` cell is a `Hit`, or a `Kill` if it leaves the
    /// cell's ship without a `Live` cell, in which case the ship is no
    /// longer afloat. Any other shot is a `Miss`. The outcome is written to
    /// the cell unless the cell was `Hit` or `Kill` before. Returns the
    /// outcome of every shot, and whether no ship is left afloat.
    pub fn take_fire(&mut self, shots: &BTreeSet<Coordinate>) -> (res: (
        BTreeMap<Coordinate, Status>,
        bool,
    ))
        requires
            old(self).wf(),
            all_in_grid(shots@),
        ensures
            final(self).resolved_from(*old(self), shots@),
            res.0@ == old(self).response_to(shots@),
            res.1 == final(self).is_cleared(),
    {
        let order = in_order(shots);
        let ghost pre = *self;
        let ghost volley = shots@;
        let ghost mut done: Set<Coordinate> = Set::empty();
        let mut response: BTreeMap<Coordinate, Status> = BTreeMap::new();
        let mut k: usize = 0;
        while k < order.len()
            invariant
                k <= order@.len(),
                pre.wf(),
                volley == shots@,
                all_in_grid(volley),
                order@.to_set() == volley,
                order@.no_duplicates(),
                ascending(order@),
                done == order@.take(k as int).to_set(),
                self.midway(pre, volley, done),
                response@ == Map::new(
                    |c: Coordinate| done.contains(c),
                    |c: Coordinate| pre.outcome(volley, c),
                ),
            decreases order@.len() - k,
        {
            let shot = order[k];
            let ghost cur = *self;
            proof {
                assert(order@.contains(shot));
                assert(volley.contains(shot));
                assert(in_grid(shot));
                lemma_next_shot(order@, k as int);
            }
            let status_here = self.positions[shot.0][shot.1].status;
            let mut status = Status::Miss;
            proof {
                lemma_midway_roster(pre, cur, volley, done);
                assert(pre.status_at(shot) == cur.status_at(shot));
                assert(pre.owner_at(shot) == cur.owner_at(shot));
            }
            if status_here == Status::Live {
                status = Status::Hit;
                let owner = match &self.positions[shot.0][shot.1].ship_id {
                    Some(id) => Some(id.clone()),
                    None => None,
                };
                match owner {
                    Some(id) => {
                        assert(cur.owner_at(shot) == Some(id@));
                        let live = self.alive_pos_by_ship(id.clone());
                        proof {
                            lemma_last_live_cell(pre, cur, volley, order@, k as int, id@, live@);
                        }
                        if live.len() <= 1 {
                            match self.find_ship_mut(id) {
                                Some(ship) => {
                                    status = Status::Kill;
                                    ship.alive = false;
                                },
                                None => {},
                            }
                        }
                    },
                    None => {},
                }
            }
            assert(status == pre.outcome(volley, shot));
            let ghost sailing = *self;
            if !status_here.struck() {
                self.positions[shot.0][shot.1].status = status;
            }
            response.insert(shot, status);
            proof {
                let next = done.insert(shot);
                order@.take(k as int).lemma_push_to_set_commute(shot);
                assert(order@.take(k + 1) =~= order@.take(k as int).push(shot));
                assert(response@ =~= Map::new(
                    |c: Coordinate| next.contains(c),
                    |c: Coordinate| pre.outcome(volley, c),
                ));
                assert(self.ships@ == sailing.ships@);
                assert(sailing.positions == cur.positions);
                lemma_step_keeps_midway(pre, cur, *self, volley, done, shot);
                done = next;
            }
            k += 1;
        }
        proof {
            assert(order@.take(order@.len() as int) =~= order@);
            assert(response@ =~= pre.response_to(volley));
            assert(self.resolved_from(pre, volley));
        }
        let afloat = self.ships_alive();
        let cleared = afloat.len() == 0;
        proof {
            lemma_cleared_means_none_afloat(*self);
            assert(ships_of(afloat@).len() == afloat@.len());
        }
        (response, cleared)
    }

    /// Whether this board is `pre` with the outcomes in `response` written
    /// on it: a cell that `response` speaks of and that was not `Hit` or
    /// `Kill` holds the outcome reported for it, and nothing else has
    /// changed.
    pub open spec fn records(&self, pre: Board, response: Map<Coordinate, Status>) -> bool {
        &&& self.wf()
        &&& self.ships@ == pre.ships@
        &&& forall|c: Coordinate| #[trigger]
            in_grid(c) ==> {
                &&& self.status_at(c) == (if response.contains_key(c) && !pre.status_at(
                    c,
                ).is_struck() {
                    response[c]
                } else {
                    pre.status_at(c)
                })
                &&& self.positions@[c.0 as int][c.1 as int].ship_id
                    == pre.positions@[c.0 as int][c.1 as int].ship_id
            }
    }

    /// Writes the outcomes of a volley on this board, the firer's tracking
    /// board, and words the report of the volley.
    ///
    /// Each outcome is written to its cell unless that cell was `Hit` or
    /// `Kill` before. The report names the ships sunk if there are any,
    /// else the hits, and then the misses if there are any.
    pub fn update_status(&mut self, response: BTreeMap<Coordinate, Status>, bot: bool) -> (msg:
        String)
        requires
            old(self).wf(),
            all_in_grid(response@.dom()),
        ensures
            final(self).records(*old(self), response@),
            msg@ == volley_message(
                tally(response@, Status::Kill),
                tally(response@, Status::Hit),
                tally(response@, Status::Miss),
                bot,
            ),
    {
        let entries = in_key_order(&response);
        let ghost pre = *self;
        let ghost outcomes = response@;
        let ghost mut seen: Set<Coordinate> = Set::empty();
        let mut kill_count: usize = 0;
        let mut hit_count: usize = 0;
        let mut miss_count: usize = 0;
        proof {
            assert(shots_with(outcomes, seen, Status::Kill) =~= Set::empty());
            assert(shots_with(outcomes, seen, Status::Hit) =~= Set::empty());
            assert(shots_with(outcomes, seen, Status::Miss) =~= Set::empty());
        }
        let mut k: usize = 0;
        while k < entries.len()
            invariant
                k <= entries@.len(),
                pre.wf(),
                all_in_grid(outcomes.dom()),
                lists(entries@, outcomes),
                seen == keys_of(entries@.take(k as int)).to_set(),
                seen.finite(),
                self.records(pre, outcomes.restrict(seen)),
                kill_count == shots_with(outcomes, seen, Status::Kill).len(),
                hit_count == shots_with(outcomes, seen, Status::Hit).len(),
                miss_count == shots_with(outcomes, seen, Status::Miss).len(),
                kill_count + hit_count + miss_count <= k,
            decreases entries@.len() - k,
        {
            let (shot, status) = entries[k];
            let ghost next = seen.insert(shot);
            proof {
                assert(outcomes.contains_key(shot) && outcomes[shot] == status);
                assert(in_grid(shot));
                lemma_next_key(entries@, k as int);
                assert(!seen.contains(shot));
                lemma_tally_step(outcomes, seen, shot, Status::Kill);
                lemma_tally_step(outcomes, seen, shot, Status::Hit);
                lemma_tally_step(outcomes, seen, shot, Status::Miss);
            }
            if !self.positions[shot.0][shot.1].status.struck() {
                self.positions[shot.0][shot.1].status = status;
            }
            match status {
                Status::Miss => {
                    miss_count += 1;
                },
                Status::Hit => {
                    hit_count += 1;
                },
                Status::Kill => {
                    kill_count += 1;
                },
                _ => {},
            }
            proof {
                assert(self.records(pre, outcomes.restrict(next)));
                seen = next;
            }
            k += 1;
        }
        proof {
            assert(entries@.take(entries@.len() as int) =~= entries@);
            assert(seen =~= outcomes.dom()) by {
                assert forall|c: Coordinate| outcomes.dom().contains(c) implies seen.contains(
                    c,
                ) by {
                    let j = choose|j: int| 0 <= j < entries@.len() && (#[trigger] entries@[j]).0 == c;
                    assert(keys_of(entries@)[j] == c);
                }
            }
            assert(outcomes.restrict(seen) =~= outcomes);
        }
        compose_message(kill_count, hit_count, miss_count, bot)
    }
}

/// The shots resolved before shot `k` are those that come before it in
/// row-major order.
proof fn lemma_next_shot(order: Seq<Coordinate>, k: int)
    requires
        order.no_duplicates(),
        ascending(order),
        0 <= k < order.len(),
    ensures
        !order.take(k).to_set().contains(order[k]),
        forall|d: Coordinate| #[trigger]
            order.contains(d) ==> (order.take(k).to_set().contains(d) <==> coord_before(
                d,
                order[k],
            )),
{
    let done = order.take(k);
    if done.to_set().contains(order[k]) {
        let j = choose|j: int| 0 <= j < done.len() && done[j] == order[k];
        assert(order[j] == order[k]);
    }
    assert forall|d: Coordinate| #[trigger] order.contains(d) implies (done.to_set().contains(d)
        <==> coord_before(d, order[k])) by {
        let j = choose|j: int| 0 <= j < order.len() && order[j] == d;
        if j < k {
            assert(done[j] == d);
            assert(done.contains(d));
        } else {
            if done.to_set().contains(d) {
                let i = choose|i: int| 0 <= i < done.len() && done[i] == d;
                assert(order[i] == order[j]);
            }
            if j > k {
                assert(coord_before(order[k], order[j]));
            }
        }
    }
}

/// Entry `k` of a list of outcomes speaks of a shot that no earlier entry
/// speaks of.
proof fn lemma_next_key(entries: Seq<(Coordinate, Status)>, k: int)
    requires
        keys_of(entries).no_duplicates(),
        0 <= k < entries.len(),
    ensures
        !keys_of(entries.take(k)).to_set().contains(entries[k].0),
        keys_of(entries.take(k + 1)).to_set() == keys_of(entries.take(k)).to_set().insert(
            entries[k].0,
        ),
{
    let before = keys_of(entries.take(k));
    if before.to_set().contains(entries[k].0) {
        let j = choose|j: int| 0 <= j < before.len() && before[j] == entries[k].0;
        assert(keys_of(entries)[j] == keys_of(entries)[k]);
    }
    assert(keys_of(entries.take(k + 1)) =~= before.push(entries[k].0));
    before.lemma_push_to_set_commute(entries[k].0);
}

/// Counting one more shot raises the count of its outcome by one and leaves
/// the counts of the other outcomes as they are.
proof fn lemma_tally_step(
    response: Map<Coordinate, Status>,
    seen: Set<Coordinate>,
    shot: Coordinate,
    s: Status,
)
    requires
        seen.finite(),
        !seen.contains(shot),
    ensures
        shots_with(response, seen, s).finite(),
        shots_with(response, seen, s).len() <= seen.len(),
        shots_with(response, seen.insert(shot), s).len() == shots_with(response, seen, s).len() + (
        if response[shot] == s {
            1nat
        } else {
            0nat
        }),
{
    let before = shots_with(response, seen, s);
    let after = shots_with(response, seen.insert(shot), s);
    vstd::set_lib::lemma_len_subset(before, seen);
    if response[shot] == s {
        assert(after =~= before.insert(shot));
    } else {
        assert(after =~= before);
    }
}

/// Resolving shots changes no ship's name.
proof fn lemma_midway_roster(pre: Board, cur: Board, volley: Set<Coordinate>, done: Set<Coordinate>)
    requires
        cur.midway(pre, volley, done),
    ensures
        forall|id: Seq<char>| pre.on_roster(id) == cur.on_roster(id),
        forall|i: int| pre.first_named(i) == cur.first_named(i),
{
    assert forall|id: Seq<char>| pre.on_roster(id) == cur.on_roster(id) by {
        if pre.on_roster(id) {
            let i = choose|i: int| 0 <= i < pre.ships@.len() && (#[trigger] pre.ships@[i]).id@ == id;
            assert(cur.ships@[i].id@ == id);
        }
        if cur.on_roster(id) {
            let i = choose|i: int| 0 <= i < cur.ships@.len() && (#[trigger] cur.ships@[i]).id@ == id;
            assert(pre.ships@[i].id@ == id);
        }
    }
    assert forall|i: int| pre.first_named(i) == cur.first_named(i) by {
        if pre.first_named(i) {
            assert forall|j: int| 0 <= j < i implies (#[trigger] cur.ships@[j]).id@
                != cur.ships@[i].id@ by {
                assert(pre.ships@[j].id@ != pre.ships@[i].id@);
            }
        }
        if cur.first_named(i) {
            assert forall|j: int| 0 <= j < i implies (#[trigger] pre.ships@[j]).id@
                != pre.ships@[i].id@ by {
                assert(cur.ships@[j].id@ != cur.ships@[i].id@);
            }
        }
    }
}

/// With the shots before shot `k` resolved, the ship under shot `k` has one
/// `Live` cell left exactly when shot `k` sinks it.
proof fn lemma_last_live_cell(
    pre: Board,
    cur: Board,
    volley: Set<Coordinate>,
    order: Seq<Coordinate>,
    k: int,
    id: Seq<char>,
    live: Seq<&Position>,
)
    requires
        pre.wf(),
        all_in_grid(volley),
        order.to_set() == volley,
        order.no_duplicates(),
        ascending(order),
        0 <= k < order.len(),
        cur.midway(pre, volley, order.take(k).to_set()),
        cur.status_at(order[k]) == Status::Live,
        cur.owner_at(order[k]) == Some(id),
        ascending(coordinates_of(live)),
        forall|j: int|
            0 <= j < live.len() ==> cur.live_cells(id).contains((#[trigger] live[j]).coordinate),
        forall|c: Coordinate| #[trigger]
            cur.live_cells(id).contains(c) ==> coordinates_of(live).contains(c),
    ensures
        pre.status_at(order[k]) == Status::Live,
        pre.owner_at(order[k]) == Some(id),
        live.len() <= 1 <==> (forall|d: Coordinate| #[trigger]
            pre.live_cells(id).contains(d) && d != order[k] ==> volley.contains(d) && coord_before(
                d,
                order[k],
            )),
{
    let shot = order[k];
    let done = order.take(k).to_set();
    let coords = coordinates_of(live);
    lemma_next_shot(order, k);
    assert(order.contains(shot));
    assert(in_grid(shot));
    assert(cur.live_cells(id).contains(shot));
    // a cell of the ship is Live now exactly if it was Live and its shot is still to come
    assert forall|d: Coordinate| cur.live_cells(id).contains(d) <==> pre.live_cells(id).contains(d)
        && !done.contains(d) by {
        if in_grid(d) {
            if done.contains(d) {
                assert(order.take(k).contains(d));
                assert(order.contains(d));
                assert(volley.contains(d));
            }
        }
    }
    if live.len() <= 1 {
        assert forall|d: Coordinate| #[trigger]
            pre.live_cells(id).contains(d) && d != shot implies volley.contains(d) && coord_before(
            d,
            shot,
        ) by {
            if !done.contains(d) {
                assert(cur.live_cells(id).contains(d));
                let a = choose|a: int| 0 <= a < coords.len() && coords[a] == d;
                let b = choose|b: int| 0 <= b < coords.len() && coords[b] == shot;
                assert(a == b);
            }
            assert(order.take(k).contains(d));
            assert(order.contains(d));
        }
    } else {
        let first = coords[0];
        let second = coords[1];
        assert(first == live[0].coordinate && second == live[1].coordinate);
        assert(coord_before(first, second));
        assert(cur.live_cells(id).contains(first));
        assert(cur.live_cells(id).contains(second));
        let other = if first == shot {
            second
        } else {
            first
        };
        assert(pre.live_cells(id).contains(other) && other != shot && !done.contains(other));
        if volley.contains(other) && coord_before(other, shot) {
            assert(order.contains(other));
        }
    }
}

/// Resolving one more shot of a volley keeps the board midway through it.
proof fn lemma_step_keeps_midway(
    pre: Board,
    cur: Board,
    post: Board,
    volley: Set<Coordinate>,
    done: Set<Coordinate>,
    shot: Coordinate,
)
    requires
        pre.wf(),
        cur.midway(pre, volley, done),
        in_grid(shot),
        volley.contains(shot),
        !done.contains(shot),
        post.wf(),
        forall|c: Coordinate| #[trigger]
            in_grid(c) ==> {
                &&& post.positions@[c.0 as int][c.1 as int].ship_id
                    == cur.positions@[c.0 as int][c.1 as int].ship_id
                &&& c != shot ==> post.status_at(c) == cur.status_at(c)
            },
        post.status_at(shot) == (if cur.status_at(shot).is_struck() {
            cur.status_at(shot)
        } else {
            pre.outcome(volley, shot)
        }),
        if pre.sinks(volley, shot) {
            exists|i: int|
                {
                    &&& #[trigger] cur.first_named(i)
                    &&& Some(cur.ships@[i].id@) == pre.owner_at(shot)
                    &&& post.ships@ == cur.ships@.update(
                        i,
                        Ship { alive: false, ..cur.ships@[i] },
                    )
                }
        } else {
            post.ships@ == cur.ships@
        },
    ensures
        post.midway(pre, volley, done.insert(shot)),
{
    let next = done.insert(shot);
    lemma_midway_roster(pre, cur, volley, done);
    assert forall|i: int| 0 <= i < pre.ships@.len() implies (#[trigger] post.ships@[i]) == (Ship {
        alive: pre.ships@[i].alive && !(pre.first_named(i) && pre.sunk_among(
            volley,
            next,
            pre.ships@[i].id@,
        )),
        ..pre.ships@[i]
    }) by {
        let id = pre.ships@[i].id@;
        let was = pre.sunk_among(volley, done, id);
        let is = pre.sunk_among(volley, next, id);
        if was {
            let c = choose|c: Coordinate|
                done.contains(c) && in_grid(c) && pre.owner_at(c) == Some(id) && #[trigger] pre.sinks(
                    volley,
                    c,
                );
            assert(next.contains(c));
            assert(is);
        }
        if pre.sinks(volley, shot) && pre.owner_at(shot) == Some(id) {
            assert(is);
        }
        if is && !was {
            let c = choose|c: Coordinate|
                next.contains(c) && in_grid(c) && pre.owner_at(c) == Some(id) && #[trigger] pre.sinks(
                    volley,
                    c,
                );
            assert(c == shot);
        }
        if pre.sinks(volley, shot) {
            let hit = choose|h: int|
                {
                    &&& #[trigger] cur.first_named(h)
                    &&& Some(cur.ships@[h].id@) == pre.owner_at(shot)
                    &&& post.ships@ == cur.ships@.update(
                        h,
                        Ship { alive: false, ..cur.ships@[h] },
                    )
                };
            if i != hit && pre.first_named(i) && pre.owner_at(shot) == Some(id) {
                if i < hit {
                    assert(cur.ships@[i].id@ != cur.ships@[hit].id@);
                } else {
                    assert(cur.ships@[hit].id@ != cur.ships@[i].id@);
                }
            }
        }
    }
}

/// No ship is afloat exactly when the list of ships afloat is empty.
pub proof fn lemma_cleared_means_none_afloat(board: Board)
    ensures
        board.is_cleared() <==> board.afloat().len() == 0,
{
    let pred = |s: Ship| s.alive;
    broadcast use vstd::seq_lib::group_filter_ensures;

    if board.afloat().len() == 0 {
        assert forall|i: int| 0 <= i < board.ships@.len() implies !(
        #[trigger] board.ships@[i]).alive by {
            if board.ships@[i].alive {
                assert(pred(board.ships@[i]));
                assert(board.ships@.filter(pred).contains(board.ships@[i]));
            }
        }
    } else {
        let s = board.afloat()[0];
        assert(pred(s));
        assert(board.afloat().contains(s));
        board.ships@.lemma_filter_contains_rev(pred, s);
        let i = choose|i: int| 0 <= i < board.ships@.len() && board.ships@[i] == s;
        assert(board.ships@[i].alive);
    }
}

} // verus!
