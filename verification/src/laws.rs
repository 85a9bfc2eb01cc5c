//! What holds of every board and every game: the laws that the rest of the
//! library's contracts imply, stated and proved.

use crate::board::{covers, footprint, Board, Ship};
use crate::game::{volley_resolved, GameState};
use crate::grid::{all_in_grid, in_grid, Coordinate, COLUMNS, ROWS};
use crate::shape::{
    footprint_size, lemma_rotation_preserves_size, live_at, live_count, Mask, ShipType,
};
use crate::status::{Rule, Status};
use vstd::prelude::*;

verus! {

/// The `k`-th cell of the box anchored at `a`, counting row by row.
spec fn nth_cell(a: Coordinate, k: int) -> Coordinate {
    ((a.0 + k / 3) as usize, (a.1 + k % 3) as usize)
}

/// The cells that the first `k` cells of the mask `m` occupy on the board.
spec fn footprint_upto(m: Mask, a: Coordinate, k: nat) -> Set<Coordinate>
    decreases k,
{
    if k == 0 {
        Set::empty()
    } else {
        let rest = footprint_upto(m, a, (k - 1) as nat);
        if m[(k - 1) / 3][(k - 1) % 3] == '*' {
            rest.insert(nth_cell(a, k - 1))
        } else {
            rest
        }
    }
}

/// The number of ship cells among the first `k` cells of the mask `m`.
spec fn live_upto(m: Mask, k: nat) -> nat
    decreases k,
{
    if k == 0 {
        0
    } else {
        live_upto(m, (k - 1) as nat) + live_at(m, (k - 1) / 3, (k - 1) % 3)
    }
}

proof fn lemma_footprint_upto(m: Mask, a: Coordinate, k: nat)
    requires
        k <= 9,
        a.0 + 3 <= ROWS,
        a.1 + 3 <= COLUMNS,
    ensures
        footprint_upto(m, a, k).finite(),
        footprint_upto(m, a, k).len() == live_upto(m, k),
        forall|c: Coordinate|
            footprint_upto(m, a, k).contains(c) <==> covers(m, a, c.0 as int, c.1 as int) && 3 * (
            c.0 - a.0) + (c.1 - a.1) < k,
    decreases k,
{
    if k > 0 {
        lemma_footprint_upto(m, a, (k - 1) as nat);
        let rest = footprint_upto(m, a, (k - 1) as nat);
        let cell = nth_cell(a, k - 1);
        assert(3 * (cell.0 - a.0) + (cell.1 - a.1) == k - 1);
        assert(!rest.contains(cell));
        assert forall|c: Coordinate|
            footprint_upto(m, a, k).contains(c) <==> covers(m, a, c.0 as int, c.1 as int) && 3 * (
            c.0 - a.0) + (c.1 - a.1) < k by {
            if covers(m, a, c.0 as int, c.1 as int) && 3 * (c.0 - a.0) + (c.1 - a.1) == k - 1 {
                assert(c == cell);
            }
        }
    }
}

/// A ship occupies as many cells of the board as its mask has ship cells.
pub proof fn lemma_footprint_len(m: Mask, a: Coordinate)
    requires
        a.0 + 3 <= ROWS,
        a.1 + 3 <= COLUMNS,
    ensures
        footprint(m, a).finite(),
        footprint(m, a).len() == live_count(m),
        all_in_grid(footprint(m, a)),
{
    lemma_footprint_upto(m, a, 9);
    assert(footprint(m, a) =~= footprint_upto(m, a, 9));
    reveal_with_fuel(live_upto, 10);
    assert(live_upto(m, 9) == live_count(m));
}

/// On a board that holds a freshly placed fleet, the cells that carry the
/// name of a ship are as many as the ship's archetype has cells: five for
/// X and V, seven for H, three for I. All of them are `Live`.
pub proof fn lemma_fleet_cell_counts(board: Board, types: Seq<ShipType>, i: int)
    requires
        board.holds_fleet(types),
        0 <= i < types.len(),
    ensures
        board.cells_of(board.ships@[i].id@).finite(),
        board.cells_of(board.ships@[i].id@).len() == footprint_size(types[i]),
        board.live_cells(board.ships@[i].id@) == board.cells_of(board.ships@[i].id@),
{
    let ship = board.ships@[i];
    assert(board.is_placed(i));
    let a = choose|a: Coordinate| board.placed_at(i, a);
    lemma_footprint_len(ship.mask(), a);
    lemma_rotation_preserves_size(ship.ship_type, ship.rotation);
    assert(board.live_cells(ship.id@) =~= board.cells_of(ship.id@));
}

/// No cell carries the names of two ships: the cells of ships with
/// different names have nothing in common.
pub proof fn lemma_ships_share_no_cell(board: Board, first: Seq<char>, second: Seq<char>)
    requires
        first != second,
    ensures
        board.cells_of(first).disjoint(board.cells_of(second)),
{
}

/// The ships of a freshly placed fleet do not overlap: wherever two of them
/// lie, no cell of the board is under both.
pub proof fn lemma_fleet_footprints_are_disjoint(
    board: Board,
    types: Seq<ShipType>,
    i: int,
    j: int,
    a: Coordinate,
    b: Coordinate,
)
    requires
        board.holds_fleet(types),
        0 <= i < types.len(),
        0 <= j < types.len(),
        i != j,
        board.placed_at(i, a),
        board.placed_at(j, b),
    ensures
        footprint(board.ships@[i].mask(), a).disjoint(footprint(board.ships@[j].mask(), b)),
{
    if i < j {
        assert(board.ships@[i].id@ != board.ships@[j].id@);
    } else {
        assert(board.ships@[j].id@ != board.ships@[i].id@);
    }
    lemma_ships_share_no_cell(board, board.ships@[i].id@, board.ships@[j].id@);
}

/// On a board that holds a freshly placed fleet every cell is `Live` or
/// `Space`, and with no fleet every cell is `Space`.
pub proof fn lemma_fresh_board_statuses(board: Board, types: Seq<ShipType>, c: Coordinate)
    requires
        board.holds_fleet(types),
        in_grid(c),
    ensures
        board.status_at(c) == Status::Live || board.status_at(c) == Status::Space,
        types.len() == 0 ==> board.status_at(c) == Status::Space,
{
}

/// A cell that is `Hit` or `Kill` holds that status whatever is fired at
/// the board afterwards.
pub proof fn lemma_struck_cells_stay(pre: Board, post: Board, shots: Set<Coordinate>, c: Coordinate)
    requires
        post.resolved_from(pre, shots),
        in_grid(c),
        pre.status_at(c).is_struck(),
    ensures
        post.status_at(c) == pre.status_at(c),
{
}

/// A cell of a tracking board that is `Hit` or `Kill` holds that status
/// whatever is recorded on the board afterwards.
pub proof fn lemma_recorded_hits_stay(
    pre: Board,
    post: Board,
    response: Map<Coordinate, Status>,
    c: Coordinate,
)
    requires
        post.records(pre, response),
        in_grid(c),
        pre.status_at(c).is_struck(),
    ensures
        post.status_at(c) == pre.status_at(c),
{
}

/// A volley makes no cell `Live` and raises no ship: a cell is `Live`
/// afterwards only if it was `Live` and was not shot at, and a ship is
/// afloat afterwards only if it was afloat.
pub proof fn lemma_volleys_only_destroy(
    pre: Board,
    post: Board,
    shots: Set<Coordinate>,
    c: Coordinate,
    i: int,
)
    requires
        post.resolved_from(pre, shots),
        in_grid(c),
        0 <= i < pre.ships@.len(),
    ensures
        post.status_at(c) == Status::Live <==> pre.status_at(c) == Status::Live && !shots.contains(
            c,
        ),
        post.ships@[i].alive ==> pre.ships@[i].alive,
{
}

/// A volley that is aimed at no `Live` cell sinks nothing: every shot is a
/// `Miss` and every ship stays as it was.
pub proof fn lemma_no_live_target_no_loss(pre: Board, post: Board, shots: Set<Coordinate>)
    requires
        all_in_grid(shots),
        post.resolved_from(pre, shots),
        forall|c: Coordinate| shots.contains(c) ==> pre.status_at(c) != Status::Live,
    ensures
        post.ships@ == pre.ships@,
        forall|c: Coordinate| shots.contains(c) ==> pre.outcome(shots, c) == Status::Miss,
{
    assert forall|i: int| 0 <= i < pre.ships@.len() implies post.ships@[i] == pre.ships@[i] by {
        let id = pre.ships@[i].id@;
        if pre.sunk_by(shots, id) {
            let c = choose|c: Coordinate|
                shots.contains(c) && in_grid(c) && pre.owner_at(c) == Some(id) && #[trigger] pre.sinks(
                    shots,
                    c,
                );
            assert(false);
        }
    }
    assert(post.ships@ =~= pre.ships@);
}

/// Firing again at a cell that an earlier volley left `Hit` or `Kill`
/// changes neither the cell nor, if nothing else is fired at, any ship: the
/// second shot is a `Miss` that is not written down.
pub proof fn lemma_refiring_changes_nothing(
    first: Board,
    second: Board,
    third: Board,
    volley: Set<Coordinate>,
    again: Set<Coordinate>,
    c: Coordinate,
)
    requires
        second.resolved_from(first, volley),
        third.resolved_from(second, again),
        in_grid(c),
        volley.contains(c),
        again.contains(c),
        second.status_at(c).is_struck(),
    ensures
        third.status_at(c) == second.status_at(c),
        second.outcome(again, c) == Status::Miss,
        again == set![c] ==> third.ships@ == second.ships@,
        again == set![c] ==> forall|d: Coordinate| #[trigger]
            in_grid(d) ==> third.status_at(d) == second.status_at(d),
{
    if again == set![c] {
        lemma_no_live_target_no_loss(second, third, again);
    }
}

/// The shot at a ship's last `Live` cell is a `Kill`, marks the cell so and
/// sinks the ship.
pub proof fn lemma_last_cell_sinks(
    pre: Board,
    post: Board,
    shots: Set<Coordinate>,
    i: int,
    c: Coordinate,
)
    requires
        pre.distinct_ids(),
        0 <= i < pre.ships@.len(),
        in_grid(c),
        pre.live_cells(pre.ships@[i].id@) == set![c],
        shots.contains(c),
        post.resolved_from(pre, shots),
    ensures
        pre.outcome(shots, c) == Status::Kill,
        post.status_at(c) == Status::Kill,
        !post.ships@[i].alive,
{
    let id = pre.ships@[i].id@;
    assert(pre.live_cells(id).contains(c));
    assert(pre.sinks(shots, c));
    assert(pre.sunk_by(shots, id));
    assert(pre.first_named(i)) by {
        assert forall|j: int| 0 <= j < i implies (#[trigger] pre.ships@[j]).id@ != pre.ships@[i].id@ by {
            assert(pre.ships@[j].id@ != pre.ships@[i].id@);
        }
    }
}

/// When the only shot of a volley is aimed at a ship's last `Live` cell, no
/// ship is left afloat exactly if that ship was the last one afloat.
pub proof fn lemma_last_ship_clears_board(pre: Board, post: Board, i: int, c: Coordinate)
    requires
        pre.distinct_ids(),
        0 <= i < pre.ships@.len(),
        in_grid(c),
        pre.live_cells(pre.ships@[i].id@) == set![c],
        post.resolved_from(pre, set![c]),
    ensures
        post.is_cleared() <==> forall|j: int|
            0 <= j < pre.ships@.len() && j != i ==> !(#[trigger] pre.ships@[j]).alive,
{
    let shots = set![c];
    let id = pre.ships@[i].id@;
    lemma_last_cell_sinks(pre, post, shots, i, c);
    assert forall|j: int| 0 <= j < pre.ships@.len() && j != i implies post.ships@[j].alive
        == pre.ships@[j].alive by {
        let other = pre.ships@[j].id@;
        if pre.sunk_by(shots, other) {
            let d = choose|d: Coordinate|
                shots.contains(d) && in_grid(d) && pre.owner_at(d) == Some(other)
                    && #[trigger] pre.sinks(shots, d);
            assert(d == c);
            assert(pre.live_cells(id).contains(c));
            if i < j {
                assert(pre.ships@[i].id@ != pre.ships@[j].id@);
            } else {
                assert(pre.ships@[j].id@ != pre.ships@[i].id@);
            }
        }
    }
    if post.is_cleared() {
        assert forall|j: int| 0 <= j < pre.ships@.len() && j != i implies !(
        #[trigger] pre.ships@[j]).alive by {
            assert(!post.ships@[j].alive);
        }
    }
}

/// Where `c` stands when the cells of the board are counted row by row.
spec fn rank(c: Coordinate) -> int {
    c.0 * 10 + c.1
}

/// A set of cells that is not empty has a cell that comes last in row-major
/// order.
proof fn lemma_last_in_order(s: Set<Coordinate>, n: nat)
    requires
        all_in_grid(s),
        exists|c: Coordinate| s.contains(c),
        forall|c: Coordinate| s.contains(c) ==> rank(c) < n,
    ensures
        exists|g: Coordinate|
            s.contains(g) && forall|d: Coordinate|
                s.contains(d) && d != g ==> crate::grid::coord_before(d, g),
    decreases n,
{
    let some = choose|c: Coordinate| s.contains(c);
    assert(in_grid(some));
    if n > 0 {
        if exists|t: Coordinate| s.contains(t) && rank(t) == n - 1 {
            let top = choose|t: Coordinate| s.contains(t) && rank(t) == n - 1;
            assert(in_grid(top));
            assert forall|d: Coordinate| s.contains(d) && d != top implies crate::grid::coord_before(
                d,
                top,
            ) by {
                assert(in_grid(d));
                assert(rank(d) < n);
            }
        } else {
            lemma_last_in_order(s, (n - 1) as nat);
        }
    }
}

/// A volley sinks a ship exactly if the ship has a `Live` cell and the
/// volley is aimed at every `Live` cell it has. Which of the shots is then
/// reported as the `Kill` depends on the order of the cells; that the ship
/// sinks does not.
pub proof fn lemma_sunk_iff_every_live_cell_is_hit(
    board: Board,
    shots: Set<Coordinate>,
    id: Seq<char>,
)
    requires
        board.on_roster(id),
    ensures
        board.sunk_by(shots, id) <==> (exists|c: Coordinate| board.live_cells(id).contains(c))
            && board.live_cells(id).subset_of(shots),
{
    let live = board.live_cells(id);
    if board.sunk_by(shots, id) {
        let c = choose|c: Coordinate|
            shots.contains(c) && in_grid(c) && board.owner_at(c) == Some(id) && #[trigger] board.sinks(
                shots,
                c,
            );
        assert(live.contains(c));
        assert forall|d: Coordinate| live.contains(d) implies shots.contains(d) by {
            if d != c {
                assert(board.live_cells(id).contains(d) && d != c);
            }
        }
    }
    if (exists|c: Coordinate| live.contains(c)) && live.subset_of(shots) {
        lemma_last_in_order(live, 100);
        let g = choose|g: Coordinate|
            live.contains(g) && forall|d: Coordinate|
                live.contains(d) && d != g ==> crate::grid::coord_before(d, g);
        assert(board.sinks(shots, g));
    }
}

/// A single shot at a board that holds a freshly placed fleet sinks
/// nothing: every ship has more than one cell.
pub proof fn lemma_one_shot_sinks_no_fresh_ship(
    board: Board,
    post: Board,
    types: Seq<ShipType>,
    c: Coordinate,
)
    requires
        board.holds_fleet(types),
        in_grid(c),
        post.resolved_from(board, set![c]),
    ensures
        board.outcome(set![c], c) != Status::Kill,
        forall|i: int| 0 <= i < types.len() ==> (#[trigger] post.ships@[i]).alive,
{
    let shots = set![c];
    assert forall|id: Seq<char>| !board.sunk_by(shots, id) by {
        if board.sunk_by(shots, id) {
            let d = choose|d: Coordinate|
                shots.contains(d) && in_grid(d) && board.owner_at(d) == Some(id)
                    && #[trigger] board.sinks(shots, d);
            assert(d == c);
            assert(board.on_roster(id));
            let i = choose|i: int| 0 <= i < board.ships@.len() && (#[trigger] board.ships@[i]).id@ == id;
            lemma_fleet_cell_counts(board, types, i);
            let live = board.live_cells(id);
            assert(live.len() >= 3);
            assert(live =~= set![c]) by {
                assert forall|e: Coordinate| live.contains(e) implies e == c by {
                    if e != c {
                        assert(board.live_cells(id).contains(e) && e != c);
                        assert(shots.contains(e));
                    }
                }
            }
            assert(set![c].len() == 1);
        }
    }
    if board.sinks(shots, c) {
        let id = board.owner_at(c)->0;
        assert(board.sunk_by(shots, id));
    }
}

/// A game is over exactly when one of the two fleets has no ship afloat.
pub proof fn lemma_game_over_iff_fleet_gone(state: GameState)
    requires
        state.wf(),
    ensures
        state.is_won() <==> state.human.home().is_cleared() || state.computer.home().is_cleared(),
{
}

/// Every volley that is resolved passes the turn to the other side, and
/// two such volleys bring it back.
pub proof fn lemma_turns_alternate(
    first: GameState,
    second: GameState,
    third: GameState,
    volley: Set<Coordinate>,
    reply: Set<Coordinate>,
    msg: Seq<char>,
    answer: Seq<char>,
)
    requires
        first.wf(),
        volley_resolved(first, second, volley, first.turn == 1, msg),
        volley_resolved(second, third, reply, second.turn == 1, answer),
    ensures
        second.turn != first.turn,
        third.turn == first.turn,
{
}

/// The first shot of a game passes the turn to the computer and does not
/// end the game: one shot sinks no ship of a fleet that has just been
/// placed.
pub proof fn lemma_opening_shot(pre: GameState, post: GameState, c: Coordinate, msg: Seq<char>)
    requires
        pre.wf(),
        pre.turn == 0,
        pre.computer.is_fresh(),
        in_grid(c),
        volley_resolved(pre, post, set![c], false, msg),
    ensures
        post.turn == 1,
        !post.is_won(),
{
    let home = pre.computer.home();
    let after = post.computer.home();
    lemma_one_shot_sinks_no_fresh_ship(home, after, crate::shape::initial_ships(), c);
    assert(after.ships@[0].alive);
}

/// While the tracking boards hold no ships, which they never do in a game,
/// the rule `Desperation` allows one shot, as `Default` does, and the rule
/// `SuperCharge` never allows more shots than the firer has ships.
pub proof fn lemma_quotas_in_play(state: GameState, i: usize)
    requires
        state.wf(),
    ensures
        state.rule == Rule::Default ==> state.quota_of(i) == 1,
        state.rule == Rule::Desperation ==> state.quota_of(i) == 1,
        state.rule == Rule::SuperCharge ==> state.quota_of(i) <= state.player(i).home().ships@.len(),
{
    let tracking = state.player(i).tracking();
    let home = state.player(i).home();
    tracking.ships@.lemma_filter_len(|s: Ship| s.alive);
    home.ships@.lemma_filter_len(|s: Ship| s.alive);
}

} // verus!
