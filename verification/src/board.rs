//! Boards, the ships on them, and the placing of a fleet.

use crate::grid::{in_grid, Coordinate, COLUMNS, ROWS};
use crate::random::{get_random_coordinate, is_rotation, RandomSource};
use crate::shape::{initial_ships, rows, shape_of, Mask, ShipShape, ShipType, SHIP_SIZE};
use crate::status::{status_char, Status};
use vstd::prelude::*;
use vstd::string::StringExecFns;

verus! {

/// One cell of a board.
#[derive(Debug, PartialEq, Eq)]
pub struct Position {
    /// What the cell holds.
    pub status: Status,
    /// Where the cell lies.
    pub coordinate: Coordinate,
    /// The ship that occupies the cell, if one does.
    pub ship_id: Option<String>,
}

impl Clone for Position {
    fn clone(&self) -> (p: Position)
        ensures
            p == *self,
    {
        let ship_id = match &self.ship_id {
            Some(id) => Some(id.clone()),
            None => None,
        };
        Position { status: self.status, coordinate: self.coordinate, ship_id }
    }
}

impl Position {
    /// The name of the ship that occupies this cell, as text.
    pub open spec fn owner(&self) -> Option<Seq<char>> {
        match self.ship_id {
            Some(id) => Some(id@),
            None => None,
        }
    }

    /// An empty cell at `coordinate`.
    pub fn new(coordinate: Coordinate) -> (p: Position)
        ensures
            p.status == Status::Space,
            p.coordinate == coordinate,
            p.ship_id is None,
    {
        Position { coordinate, status: Status::Space, ship_id: None }
    }

    /// The character that shows this cell in a textual grid.
    pub fn symbol(&self) -> (c: char)
        ensures
            c == status_char(self.status),
    {
        self.status.as_char()
    }
}

/// A grid of cells, row by row.
pub type Cells = Seq<Vec<Position>>;

/// Whether the three-by-three box anchored at `a` lies inside `g`.
pub open spec fn box_fits(g: Cells, a: Coordinate) -> bool {
    &&& a.0 + 3 <= g.len()
    &&& forall|i: int| a.0 <= i < a.0 + 3 ==> a.1 + 3 <= (#[trigger] g[i]).len()
}

/// Whether `g` has a first row and that row has a cell.
pub open spec fn has_cells(g: Cells) -> bool {
    g.len() > 0 && g[0].len() > 0
}

/// Whether the cell `(i, j)` of the mask `m`, laid with its top-left corner
/// on `a`, is a ship cell that lands on a cell of `g` which is already
/// `Live`.
pub open spec fn collides_at(g: Cells, m: Mask, a: Coordinate, i: int, j: int) -> bool {
    m[i][j] == '*' && g[a.0 + i][a.1 + j].status == Status::Live
}

/// Whether the mask `m`, laid with its top-left corner on `a`, has a ship
/// cell on a cell of `g` that is already `Live`.
pub open spec fn overlaps(g: Cells, m: Mask, a: Coordinate) -> bool {
    exists|i: int, j: int| 0 <= i < 3 && 0 <= j < 3 && collides_at(g, m, a, i, j)
}

/// Whether the cell in row `r` and column `c` is a ship cell of the mask `m`
/// laid with its top-left corner on `a`.
pub open spec fn covers(m: Mask, a: Coordinate, r: int, c: int) -> bool {
    &&& a.0 <= r < a.0 + 3
    &&& a.1 <= c < a.1 + 3
    &&& m[r - a.0][c - a.1] == '*'
}

/// The cells that the mask `m` occupies when its top-left corner lies on
/// `a`.
pub open spec fn footprint(m: Mask, a: Coordinate) -> Set<Coordinate> {
    Set::new(|c: Coordinate| covers(m, a, c.0 as int, c.1 as int))
}

/// Whether the cell in row `r` and column `c` is a ship cell of the mask `m`
/// laid on `a` that lies in one of the mask's first `i` rows, or in row `i`
/// and one of its first `j` columns.
pub open spec fn covers_upto(m: Mask, a: Coordinate, r: int, c: int, i: int, j: int) -> bool {
    covers(m, a, r, c) && (r - a.0 < i || (r - a.0 == i && c - a.1 < j))
}

/// Whether `post` is `pre` with the ship `ship` drawn with the top-left
/// corner of its box on `a`: the cells it covers are `Live` and carry its
/// name, every other cell is as it was.
pub open spec fn drawn_onto(pre: Cells, post: Cells, ship: Ship, a: Coordinate) -> bool {
    &&& post.len() == pre.len()
    &&& forall|r: int| 0 <= r < pre.len() ==> (#[trigger] post[r]).len() == pre[r].len()
    &&& forall|r: int, c: int|
        0 <= r < pre.len() && 0 <= c < pre[r].len() ==> #[trigger] post[r][c] == (if covers(
            ship.mask(),
            a,
            r,
            c,
        ) {
            Position {
                status: Status::Live,
                coordinate: pre[r][c].coordinate,
                ship_id: Some(ship.id),
            }
        } else {
            pre[r][c]
        })
}

/// A ship of the fleet.
#[derive(Debug, PartialEq, Eq)]
pub struct Ship {
    /// The ship's name, by which cells refer to it.
    pub id: String,
    /// The ship's orientation: 90, 180, 270 or 360.
    pub rotation: u16,
    /// Whether the ship is still afloat.
    pub alive: bool,
    /// The ship's archetype.
    pub ship_type: ShipType,
}

impl Clone for Ship {
    fn clone(&self) -> (ship: Ship)
        ensures
            ship == *self,
    {
        Ship {
            id: self.id.clone(),
            rotation: self.rotation,
            alive: self.alive,
            ship_type: self.ship_type,
        }
    }
}

impl Ship {
    /// The ship's mask in its orientation.
    pub open spec fn mask(&self) -> Mask {
        shape_of(self.ship_type, self.rotation)
    }

    /// A ship of the given archetype, afloat, with a fresh name and a random
    /// orientation.
    pub fn new(ship_type: ShipType, rng: &mut RandomSource) -> (ship: Ship)
        ensures
            ship.ship_type == ship_type,
            ship.alive,
            is_rotation(ship.rotation),
    {
        let id = rng.ship_id();
        let rotation = rng.rotation();
        Ship { id, rotation, alive: true, ship_type }
    }

    /// The ship's mask in its orientation.
    pub fn shape(&self) -> (shape: ShipShape)
        ensures
            rows(shape) == self.mask(),
    {
        self.ship_type.get_shape(self.rotation)
    }

    /// Whether the ship, laid with the top-left corner of its box on
    /// `start_cord`, would cover a cell that is already `Live`. A grid
    /// without cells overlaps nothing.
    pub fn is_overlapping(&self, positions: &[Vec<Position>], start_cord: Coordinate) -> (b: bool)
        requires
            has_cells(positions@) ==> box_fits(positions@, start_cord),
        ensures
            b == (has_cells(positions@) && overlaps(positions@, self.mask(), start_cord)),
    {
        let mut ship_found = false;
        if positions.len() > 0 && positions[0].len() > 0 {
            let shape = self.shape();
            let ghost m = self.mask();
            let ghost g = positions@;
            assert(g[start_cord.0 as int].len() >= start_cord.1 + 3);
            let mut i: usize = 0;
            while i < SHIP_SIZE
                invariant
                    i <= 3,
                    start_cord.0 + 3 <= usize::MAX,
                    start_cord.1 + 3 <= usize::MAX,
                    g == positions@,
                    m == self.mask(),
                    rows(shape) == m,
                    box_fits(g, start_cord),
                    ship_found == exists|p: int, q: int|
                        0 <= p < i && 0 <= q < 3 && collides_at(g, m, start_cord, p, q),
                decreases 3 - i,
            {
                let mut j: usize = 0;
                while j < SHIP_SIZE
                    invariant
                        i < 3,
                        j <= 3,
                        start_cord.0 + 3 <= usize::MAX,
                        start_cord.1 + 3 <= usize::MAX,
                        g == positions@,
                        rows(shape) == m,
                        box_fits(g, start_cord),
                        ship_found == exists|p: int, q: int|
                            (0 <= p < i && 0 <= q < 3 || p == i && 0 <= q < j) && collides_at(
                                g,
                                m,
                                start_cord,
                                p,
                                q,
                            ),
                    decreases 3 - j,
                {
                    assert(rows(shape)[i as int][j as int] == shape[i as int][j as int]);
                    let x = start_cord.0 + i;
                    let y = start_cord.1 + j;
                    assert(g[x as int].len() >= start_cord.1 + 3);
                    if shape[i][j] == '*' && positions[x][y].status == Status::Live {
                        assert(collides_at(g, m, start_cord, i as int, j as int));
                        ship_found = true;
                    }
                    j += 1;
                }
                i += 1;
            }
        }
        ship_found
    }

    /// Draws the ship with the top-left corner of its box on `start_cord`:
    /// every cell under a ship cell of its mask becomes `Live` and carries
    /// the ship's name. Returns whether anything was drawn, which is the
    /// case unless the grid has no cells.
    pub fn draw(&self, positions: &mut Vec<Vec<Position>>, start_cord: Coordinate) -> (drawn: bool)
        requires
            has_cells(old(positions)@) ==> box_fits(old(positions)@, start_cord),
        ensures
            drawn == has_cells(old(positions)@),
            drawn ==> drawn_onto(old(positions)@, final(positions)@, *self, start_cord),
            !drawn ==> final(positions)@ == old(positions)@,
    {
        let mut ship_drawn = false;
        if positions.len() > 0 && positions[0].len() > 0 {
            let shape = self.shape();
            let ghost m = self.mask();
            let ghost pre = positions@;
            assert(pre[start_cord.0 as int].len() >= start_cord.1 + 3);
            let mut i: usize = 0;
            while i < SHIP_SIZE
                invariant
                    i <= 3,
                    start_cord.0 + 3 <= usize::MAX,
                    start_cord.1 + 3 <= usize::MAX,
                    m == self.mask(),
                    rows(shape) == m,
                    box_fits(pre, start_cord),
                    positions@.len() == pre.len(),
                    forall|r: int| 0 <= r < pre.len() ==> (#[trigger] positions@[r]).len() == pre[r].len(),
                    forall|r: int, c: int|
                        0 <= r < pre.len() && 0 <= c < pre[r].len() ==> #[trigger] positions@[r][c]
                            == (if covers_upto(m, start_cord, r, c, i as int, 0) {
                            Position {
                                status: Status::Live,
                                coordinate: pre[r][c].coordinate,
                                ship_id: Some(self.id),
                            }
                        } else {
                            pre[r][c]
                        }),
                    ship_drawn == exists|p: int, q: int|
                        0 <= p < i && 0 <= q < 3 && m[p][q] == '*',
                decreases 3 - i,
            {
                let mut j: usize = 0;
                while j < SHIP_SIZE
                    invariant
                        i < 3,
                        j <= 3,
                        start_cord.0 + 3 <= usize::MAX,
                        start_cord.1 + 3 <= usize::MAX,
                        m == self.mask(),
                        rows(shape) == m,
                        box_fits(pre, start_cord),
                        positions@.len() == pre.len(),
                        forall|r: int|
                            0 <= r < pre.len() ==> (#[trigger] positions@[r]).len() == pre[r].len(),
                        forall|r: int, c: int|
                            0 <= r < pre.len() && 0 <= c < pre[r].len()
                                ==> #[trigger] positions@[r][c] == (if covers_upto(
                                m,
                                start_cord,
                                r,
                                c,
                                i as int,
                                j as int,
                            ) {
                                Position {
                                    status: Status::Live,
                                    coordinate: pre[r][c].coordinate,
                                    ship_id: Some(self.id),
                                }
                            } else {
                                pre[r][c]
                            }),
                        ship_drawn == exists|p: int, q: int|
                            (0 <= p < i && 0 <= q < 3 || p == i && 0 <= q < j) && m[p][q] == '*',
                    decreases 3 - j,
                {
                    assert(rows(shape)[i as int][j as int] == shape[i as int][j as int]);
                    let x = start_cord.0 + i;
                    let y = start_cord.1 + j;
                    assert(pre[x as int].len() >= start_cord.1 + 3);
                    if shape[i][j] == '*' {
                        positions[x][y].status = Status::Live;
                        positions[x][y].ship_id = Some(self.id.clone());
                        ship_drawn = true;
                    }
                    j += 1;
                }
                i += 1;
            }
            proof {
                crate::shape::lemma_rotation_preserves_size(self.ship_type, self.rotation);
                assert(drawn_onto(pre, positions@, *self, start_cord));
            }
        }
        ship_drawn
    }
}

/// A row of cells as text: one character for each cell's status.
pub open spec fn row_text(row: Seq<Position>) -> Seq<char> {
    row.map_values(|p: Position| status_char(p.status))
}

/// A grid of cells as lines of text.
pub open spec fn grid_text(cells: Cells) -> Seq<Seq<char>> {
    Seq::new(cells.len(), |r: int| row_text(cells[r]@))
}

/// Lines of text as one text, with a line feed between each two.
pub open spec fn joined(lines: Seq<Seq<char>>) -> Seq<char>
    decreases lines.len(),
{
    if lines.len() == 0 {
        Seq::empty()
    } else if lines.len() == 1 {
        lines[0]
    } else {
        joined(lines.drop_last()) + seq!['\n'] + lines.last()
    }
}

/// Why a game could not be set up.
#[derive(Clone, Copy, Debug, PartialEq, Eq, Structural)]
pub enum SetupError {
    /// No free place was found for a ship within the allowed number of
    /// attempts.
    PlacementExhausted,
    /// The operating system offered no randomness to seed the game with.
    NoEntropy,
}

/// How often a place is drawn for one ship before the set-up gives up.
pub const MAX_PLACEMENT_ATTEMPTS: usize = 1000;

/// A player's grid and the ships on it.
///
/// A home board carries the player's own fleet. A tracking board has the
/// same grid and no ships: it records what its owner has learned of the
/// opponent's waters.
#[derive(Debug, PartialEq, Eq)]
pub struct Board {
    /// The cells, row by row.
    pub positions: Vec<Vec<Position>>,
    /// The ships on this board, in the order in which they were placed.
    pub ships: Vec<Ship>,
}

impl Board {
    /// The grid has `ROWS` rows of `COLUMNS` cells, and every cell knows
    /// where it lies.
    pub open spec fn wf(&self) -> bool {
        &&& self.positions@.len() == ROWS
        &&& forall|r: int| 0 <= r < ROWS ==> (#[trigger] self.positions@[r]).len() == COLUMNS
        &&& forall|r: int, c: int|
            0 <= r < ROWS && 0 <= c < COLUMNS ==> (#[trigger] self.positions@[r][c]).coordinate == (
                r as usize,
                c as usize,
            )
    }

    /// The status of the cell at `c`.
    pub open spec fn status_at(&self, c: Coordinate) -> Status {
        self.positions@[c.0 as int][c.1 as int].status
    }

    /// The name of the ship on the cell at `c`, if there is one.
    pub open spec fn owner_at(&self, c: Coordinate) -> Option<Seq<char>> {
        self.positions@[c.0 as int][c.1 as int].owner()
    }

    /// The cells that carry the name `id`.
    pub open spec fn cells_of(&self, id: Seq<char>) -> Set<Coordinate> {
        Set::new(|c: Coordinate| in_grid(c) && self.owner_at(c) == Some(id))
    }

    /// Whether a ship of this board is called `id`.
    pub open spec fn on_roster(&self, id: Seq<char>) -> bool {
        exists|i: int| 0 <= i < self.ships@.len() && (#[trigger] self.ships@[i]).id@ == id
    }

    /// Whether no two ships of this board have the same name.
    pub open spec fn distinct_ids(&self) -> bool {
        forall|i: int, j: int|
            0 <= i < j < self.ships@.len() ==> (#[trigger] self.ships@[i]).id@ != (
            #[trigger] self.ships@[j]).id@
    }

    /// Whether the board takes `ship` with the top-left corner of its box
    /// on `anchor`: no ship of that name is on the board, and the ship
    /// would cover no cell that is `Live`.
    pub open spec fn accepts(&self, ship: Ship, anchor: Coordinate) -> bool {
        !self.on_roster(ship.id@) && !overlaps(self.positions@, ship.mask(), anchor)
    }

    /// Whether a ship of the archetype `t`, turned by `rotation`, can lie
    /// with the top-left corner of its box on `anchor`, a place that a
    /// draw can give, without covering a `Live` cell.
    pub open spec fn fits_somewhere(&self, t: ShipType, rotation: u16, anchor: Coordinate) -> bool {
        &&& is_rotation(rotation)
        &&& anchor.0 + 3 < ROWS
        &&& anchor.1 + 3 < COLUMNS
        &&& !overlaps(self.positions@, shape_of(t, rotation), anchor)
    }

    /// Whether no draw can find a place for a ship of the archetype `t`:
    /// wherever it is laid and however it is turned, it covers a `Live`
    /// cell.
    pub open spec fn has_no_room_for(&self, t: ShipType) -> bool {
        forall|rotation: u16, anchor: Coordinate| !#[trigger] self.fits_somewhere(t, rotation, anchor)
    }

    /// Whether ship `i` lies with the top-left corner of its box on `a`:
    /// the box is inside the grid and the cells that carry the ship's name
    /// are exactly those under the ship cells of its mask.
    pub open spec fn placed_at(&self, i: int, a: Coordinate) -> bool {
        &&& a.0 + 3 <= ROWS
        &&& a.1 + 3 <= COLUMNS
        &&& self.cells_of(self.ships@[i].id@) == footprint(self.ships@[i].mask(), a)
    }

    /// Whether ship `i` lies whole somewhere on the grid.
    pub open spec fn is_placed(&self, i: int) -> bool {
        exists|a: Coordinate| #[trigger] self.placed_at(i, a)
    }

    /// Whether this board holds a freshly placed fleet of the archetypes
    /// `types`, in that order: every ship afloat, under a name of its own,
    /// lying whole on the grid; every cell either `Live` under a ship of
    /// the fleet or `Space`.
    pub open spec fn holds_fleet(&self, types: Seq<ShipType>) -> bool {
        &&& self.wf()
        &&& self.ships@.len() == types.len()
        &&& forall|i: int|
            0 <= i < types.len() ==> {
                &&& (#[trigger] self.ships@[i]).ship_type == types[i]
                &&& self.ships@[i].alive
                &&& is_rotation(self.ships@[i].rotation)
            }
        &&& self.distinct_ids()
        &&& forall|i: int| 0 <= i < types.len() ==> #[trigger] self.is_placed(i)
        &&& forall|c: Coordinate| #[trigger]
            in_grid(c) ==> match self.owner_at(c) {
                Some(id) => self.status_at(c) == Status::Live && self.on_roster(id),
                None => self.status_at(c) == Status::Space,
            }
    }

    /// A board of open water without ships.
    pub fn empty() -> (board: Board)
        ensures
            board.holds_fleet(Seq::empty()),
    {
        let mut positions: Vec<Vec<Position>> = Vec::new();
        let mut r: usize = 0;
        while r < ROWS
            invariant
                r <= ROWS,
                positions@.len() == r,
                forall|x: int| 0 <= x < r ==> (#[trigger] positions@[x]).len() == COLUMNS,
                forall|x: int, y: int|
                    0 <= x < r && 0 <= y < COLUMNS ==> {
                        &&& (#[trigger] positions@[x][y]).coordinate == (x as usize, y as usize)
                        &&& positions@[x][y].status == Status::Space
                        &&& positions@[x][y].ship_id is None
                    },
            decreases ROWS - r,
        {
            let mut row: Vec<Position> = Vec::new();
            let mut c: usize = 0;
            while c < COLUMNS
                invariant
                    c <= COLUMNS,
                    row@.len() == c,
                    forall|y: int|
                        0 <= y < c ==> {
                            &&& (#[trigger] row@[y]).coordinate == (r, y as usize)
                            &&& row@[y].status == Status::Space
                            &&& row@[y].ship_id is None
                        },
                decreases COLUMNS - c,
            {
                row.push(Position::new((r, c)));
                c += 1;
            }
            positions.push(row);
            r += 1;
        }
        let board = Board { positions, ships: Vec::new() };
        assert(board.holds_fleet(Seq::empty()));
        board
    }

    /// The board as lines of text, one character for each cell.
    pub fn as_grid(&self) -> (lines: Vec<String>)
        ensures
            lines@.len() == self.positions@.len(),
            forall|r: int|
                0 <= r < lines@.len() ==> (#[trigger] lines@[r])@ == row_text(self.positions@[r]@),
    {
        let mut lines: Vec<String> = Vec::new();
        let mut r: usize = 0;
        while r < self.positions.len()
            invariant
                r <= self.positions@.len(),
                lines@.len() == r,
                forall|x: int|
                    0 <= x < r ==> (#[trigger] lines@[x])@ == row_text(self.positions@[x]@),
            decreases self.positions@.len() - r,
        {
            let row = &self.positions[r];
            let mut line = String::new();
            let mut c: usize = 0;
            while c < row.len()
                invariant
                    c <= row@.len(),
                    line@ == row_text(row@.take(c as int)),
                decreases row@.len() - c,
            {
                line.append(row[c].status.as_text());
                assert(line@ =~= row_text(row@.take(c + 1)));
                c += 1;
            }
            assert(row@.take(row@.len() as int) =~= row@);
            lines.push(line);
            r += 1;
        }
        lines
    }

    /// The board as text: its lines, a line feed between each two.
    pub fn to_string(&self) -> (text: String)
        ensures
            text@ == joined(grid_text(self.positions@)),
    {
        let lines = self.as_grid();
        let ghost all = grid_text(self.positions@);
        let mut text = String::new();
        let mut r: usize = 0;
        while r < lines.len()
            invariant
                r <= lines@.len(),
                all.len() == lines@.len(),
                forall|x: int| 0 <= x < lines@.len() ==> (#[trigger] lines@[x])@ == all[x],
                text@ == joined(all.take(r as int)),
            decreases lines@.len() - r,
        {
            proof {
                assert(all.take(r + 1).drop_last() =~= all.take(r as int));
                assert(all.take(r + 1).last() == all[r as int]);
            }
            if r > 0 {
                proof {
                    reveal_strlit("\n");
                }
                text.append("\n");
                text.append(lines[r].as_str());
                assert(text@ =~= joined(all.take(r as int)) + seq!['\n'] + all[r as int]);
            } else {
                text.append(lines[r].as_str());
                assert(text@ =~= all[0]);
            }
            r += 1;
        }
        assert(all.take(lines@.len() as int) =~= all);
        text
    }

    /// Whether a ship of this board is called `id`.
    pub fn has_ship(&self, id: &String) -> (b: bool)
        ensures
            b == self.on_roster(id@),
    {
        let mut i: usize = 0;
        while i < self.ships.len()
            invariant
                i <= self.ships@.len(),
                forall|k: int| 0 <= k < i ==> (#[trigger] self.ships@[k]).id@ != id@,
            decreases self.ships@.len() - i,
        {
            if self.ships[i].id == *id {
                return true;
            }
            i += 1;
        }
        false
    }

    /// Puts `ship` on the board with the top-left corner of its box on
    /// `anchor`, unless a ship of that name is there already or the ship
    /// would cover a `Live` cell. Returns whether the ship was placed; a
    /// board that refuses the ship is left as it was.
    pub fn place(&mut self, ship: Ship, anchor: Coordinate) -> (placed: bool)
        requires
            old(self).wf(),
            anchor.0 + 3 <= ROWS,
            anchor.1 + 3 <= COLUMNS,
        ensures
            placed == old(self).accepts(ship, anchor),
            placed ==> drawn_onto(old(self).positions@, final(self).positions@, ship, anchor),
            placed ==> final(self).ships@ == old(self).ships@.push(ship),
            !placed ==> *final(self) == *old(self),
    {
        if self.has_ship(&ship.id) {
            return false;
        }
        if ship.is_overlapping(self.positions.as_slice(), anchor) {
            return false;
        }
        let drawn = ship.draw(&mut self.positions, anchor);
        assert(drawn);
        self.ships.push(ship);
        true
    }

    /// Draws up to `attempts` times a fresh ship of the archetype
    /// `ship_type`, in a random orientation, and a place for it, until the
    /// board takes the ship. Returns whether a ship was placed; if none
    /// was, the board is as before.
    ///
    /// A place is the top-left corner of the ship's box, drawn among the
    /// rows and columns that leave room for the box and a margin of one
    /// cell below it and to its right.
    pub fn place_at_random(
        &mut self,
        ship_type: ShipType,
        rng: &mut RandomSource,
        attempts: usize,
    ) -> (placed: bool)
        requires
            old(self).wf(),
        ensures
            final(self).wf(),
            !placed ==> *final(self) == *old(self),
            placed ==> exists|ship: Ship, anchor: Coordinate|
                {
                    &&& #[trigger] old(self).accepts(ship, anchor)
                    &&& ship.ship_type == ship_type
                    &&& ship.alive
                    &&& is_rotation(ship.rotation)
                    &&& anchor.0 + 3 < ROWS
                    &&& anchor.1 + 3 < COLUMNS
                    &&& drawn_onto(old(self).positions@, final(self).positions@, ship, anchor)
                    &&& final(self).ships@ == old(self).ships@.push(ship)
                },
            attempts == 0 ==> !placed,
            old(self).has_no_room_for(ship_type) ==> !placed,
            attempts > 0 && old(self).takes_any(ship_type) ==> placed,
    {
        let mut ship_placed = false;
        let mut tried: usize = 0;
        while !ship_placed && tried < attempts
            invariant
                tried <= attempts,
                old(self).wf(),
                self.wf(),
                !ship_placed ==> *self == *old(self),
                !ship_placed && tried > 0 ==> !old(self).takes_any(ship_type),
                ship_placed ==> tried > 0 && !old(self).has_no_room_for(ship_type),
                ship_placed ==> exists|ship: Ship, anchor: Coordinate|
                    {
                        &&& #[trigger] old(self).accepts(ship, anchor)
                        &&& ship.ship_type == ship_type
                        &&& ship.alive
                        &&& is_rotation(ship.rotation)
                        &&& anchor.0 + 3 < ROWS
                        &&& anchor.1 + 3 < COLUMNS
                        &&& drawn_onto(old(self).positions@, self.positions@, ship, anchor)
                        &&& self.ships@ == old(self).ships@.push(ship)
                    },
            decreases attempts - tried,
        {
            let ship = Ship::new(ship_type, rng);
            let start_cords = get_random_coordinate(rng, SHIP_SIZE);
            let ghost candidate = ship;
            ship_placed = self.place(ship, start_cords);
            proof {
                if ship_placed {
                    assert(old(self).accepts(candidate, start_cords));
                    assert(old(self).fits_somewhere(ship_type, candidate.rotation, start_cords));
                } else if old(self).ships@.len() == 0 {
                    assert(!old(self).fits_somewhere(
                        ship_type,
                        candidate.rotation,
                        start_cords,
                    ));
                }
            }
            tried += 1;
        }
        ship_placed
    }

    /// Whether the board takes a ship of the archetype `t` whatever is
    /// drawn for it: no ship is on the board yet, so that no name is taken,
    /// and wherever a draw lays the ship and however it turns it, the ship
    /// covers no `Live` cell. A board of open water is such a board.
    pub open spec fn takes_any(&self, t: ShipType) -> bool {
        &&& self.ships@.len() == 0
        &&& forall|rotation: u16, anchor: Coordinate|
            is_rotation(rotation) && anchor.0 + 3 < ROWS && anchor.1 + 3 < COLUMNS
                ==> #[trigger] self.fits_somewhere(t, rotation, anchor)
    }

    /// A board with a fleet: one ship of each archetype, in the order X, V,
    /// H, I, each at a random free place in a random orientation.
    ///
    /// For each ship a place is drawn up to `attempts` times. Should every
    /// draw for a ship land on ships placed before, the set-up fails with
    /// [`SetupError::PlacementExhausted`]; with no attempt allowed it
    /// always does.
    pub fn with_fleet(rng: &mut RandomSource, attempts: usize) -> (res: Result<Board, SetupError>)
        ensures
            res matches Ok(board) ==> board.holds_fleet(initial_ships()),
            res matches Err(e) ==> e == SetupError::PlacementExhausted,
            attempts == 0 ==> res is Err,
    {
        let mut board = Board::empty();
        let ship_types = ShipType::get_initial_ships();
        let mut t: usize = 0;
        while t < 4
            invariant
                t <= 4,
                ship_types@ == initial_ships(),
                board.holds_fleet(initial_ships().take(t as int)),
                attempts == 0 ==> t == 0,
            decreases 4 - t,
        {
            let ghost types = initial_ships().take(t as int);
            let ghost pre = board;
            if !board.place_at_random(ship_types[t], rng, attempts) {
                return Err(SetupError::PlacementExhausted);
            }
            proof {
                let (ship, anchor) = choose|ship: Ship, anchor: Coordinate|
                    {
                        &&& #[trigger] pre.accepts(ship, anchor)
                        &&& ship.ship_type == ship_types@[t as int]
                        &&& ship.alive
                        &&& is_rotation(ship.rotation)
                        &&& anchor.0 + 3 < ROWS
                        &&& anchor.1 + 3 < COLUMNS
                        &&& drawn_onto(pre.positions@, board.positions@, ship, anchor)
                        &&& board.ships@ == pre.ships@.push(ship)
                    };
                lemma_place_extends_fleet(pre, board, ship, anchor, types);
                assert(types.push(ship_types@[t as int]) =~= initial_ships().take(t + 1));
            }
            t += 1;
        }
        proof {
            assert(initial_ships().take(4) =~= initial_ships());
        }
        Ok(board)
    }

    /// A fresh board. A home board (`is_self`) gets a fleet as
    /// [`Board::with_fleet`] places it, with [`MAX_PLACEMENT_ATTEMPTS`] draws
    /// for each ship; a tracking board stays empty.
    pub fn new(is_self: bool, rng: &mut RandomSource) -> (res: Result<Board, SetupError>)
        ensures
            !is_self ==> res is Ok,
            res matches Ok(board) ==> board.holds_fleet(
                if is_self {
                    initial_ships()
                } else {
                    Seq::empty()
                },
            ),
            res matches Err(e) ==> e == SetupError::PlacementExhausted,
    {
        if is_self {
            Board::with_fleet(rng, MAX_PLACEMENT_ATTEMPTS)
        } else {
            Ok(Board::empty())
        }
    }
}

/// A board of open water without ships takes a ship of any archetype,
/// whatever is drawn for it.
pub proof fn lemma_open_water_takes_any(board: Board, t: ShipType)
    requires
        board.holds_fleet(Seq::empty()),
    ensures
        board.takes_any(t),
{
    assert forall|rotation: u16, anchor: Coordinate|
        is_rotation(rotation) && anchor.0 + 3 < ROWS && anchor.1 + 3 < COLUMNS
            implies #[trigger] board.fits_somewhere(t, rotation, anchor) by {
        let m = shape_of(t, rotation);
        assert forall|i: int, j: int| 0 <= i < 3 && 0 <= j < 3 implies !collides_at(
            board.positions@,
            m,
            anchor,
            i,
            j,
        ) by {
            let c = ((anchor.0 + i) as usize, (anchor.1 + j) as usize);
            assert(in_grid(c));
            assert(board.status_at(c) == Status::Space);
        }
    }
}

/// Placing one more ship on a board that holds a fleet gives a board that
/// holds the longer fleet.
pub proof fn lemma_place_extends_fleet(
    pre: Board,
    post: Board,
    ship: Ship,
    a: Coordinate,
    types: Seq<ShipType>,
)
    requires
        pre.holds_fleet(types),
        ship.alive,
        is_rotation(ship.rotation),
        a.0 + 3 <= ROWS,
        a.1 + 3 <= COLUMNS,
        !pre.on_roster(ship.id@),
        !overlaps(pre.positions@, ship.mask(), a),
        drawn_onto(pre.positions@, post.positions@, ship, a),
        post.ships@ == pre.ships@.push(ship),
    ensures
        post.holds_fleet(types.push(ship.ship_type)),
{
    let n = types.len() as int;
    let m = ship.mask();
    let longer = types.push(ship.ship_type);
    assert(post.wf());
    // what each cell holds afterwards
    assert forall|c: Coordinate| in_grid(c) implies (if covers(m, a, c.0 as int, c.1 as int) {
        post.status_at(c) == Status::Live && post.owner_at(c) == Some(ship.id@)
            && pre.owner_at(c) is None
    } else {
        post.status_at(c) == pre.status_at(c) && post.owner_at(c) == pre.owner_at(c)
    }) by {
        let cell = post.positions@[c.0 as int][c.1 as int];
        if covers(m, a, c.0 as int, c.1 as int) {
            assert(!collides_at(pre.positions@, m, a, c.0 - a.0, c.1 - a.1));
        }
    }
    assert(post.distinct_ids()) by {
        assert forall|i: int, j: int| 0 <= i < j < post.ships@.len() implies post.ships@[i].id@
            != post.ships@[j].id@ by {
            if j < n {
                assert(pre.ships@[i].id@ != pre.ships@[j].id@);
            } else {
                assert(pre.ships@[i].id@ != ship.id@);
            }
        }
    }
    assert forall|i: int| 0 <= i < longer.len() implies #[trigger] post.is_placed(i) by {
        if i < n {
            assert(pre.is_placed(i));
            let b = choose|b: Coordinate| pre.placed_at(i, b);
            assert(pre.ships@[i].id@ != ship.id@);
            assert(post.cells_of(post.ships@[i].id@) =~= pre.cells_of(pre.ships@[i].id@));
            assert(post.placed_at(i, b));
        } else {
            assert(post.cells_of(ship.id@) =~= footprint(m, a)) by {
                assert forall|c: Coordinate| in_grid(c) && pre.owner_at(c) == Some(
                    ship.id@,
                ) implies false by {
                    assert(pre.on_roster(ship.id@));
                }
            }
            assert(post.placed_at(i, a));
        }
    }
    assert forall|c: Coordinate| #[trigger] in_grid(c) implies match post.owner_at(c) {
        Some(id) => post.status_at(c) == Status::Live && post.on_roster(id),
        None => post.status_at(c) == Status::Space,
    } by {
        if covers(m, a, c.0 as int, c.1 as int) {
            assert(post.ships@[n].id@ == ship.id@);
        } else {
            match pre.owner_at(c) {
                Some(id) => {
                    let k = choose|k: int| 0 <= k < pre.ships@.len() && pre.ships@[k].id@ == id;
                    assert(post.ships@[k].id@ == id);
                },
                None => {},
            }
        }
    }
}

} // verus!
