//! The controller between the player's keys and the game: a cursor on the
//! opponent's grid, the coordinates chosen for the next volley, and the
//! message that the screen shows.
//!
//! The controller neither reads keys nor looks at the clock. Whoever drives
//! it hands it each key as a [`KeyPress`] and, with each tick, the seconds
//! that have passed since the game began.

use crate::board::SetupError;
use crate::game::{volley_resolved, Game, GameState};
use crate::grid::{all_in_grid, in_grid, lemma_coordinates_are_ordered, Coordinate, COLUMNS, ROWS};
use crate::status::{Difficulty, Rule, Status};
use crate::text::{decimal, decimal_digits};
use std::collections::BTreeSet;
use vstd::prelude::*;
use vstd::string::StringExecFns;

verus! {

/// A key of the keyboard, as far as the game tells keys apart.
#[derive(Clone, Copy, Debug, PartialEq, Eq, Structural)]
pub enum KeyPress {
    /// The arrow that points up.
    Up,
    /// The arrow that points down.
    Down,
    /// The arrow that points left.
    Left,
    /// The arrow that points right.
    Right,
    /// A character key.
    Char(char),
    /// A character key pressed together with the control key.
    Ctrl(char),
    /// Any other key.
    Other,
}

/// What the game's loop waits for: a key, or the passing of a tick.
#[derive(Debug, PartialEq, Eq)]
pub enum Event<I> {
    /// A key was pressed.
    Input(I),
    /// A tick of the clock has passed.
    Tick,
}

/// What a key asks the controller to do.
#[derive(Clone, Copy, Debug, PartialEq, Eq, Structural)]
pub enum Command {
    /// Move the cursor one row up.
    Up,
    /// Move the cursor one row down.
    Down,
    /// Move the cursor one column to the left.
    Left,
    /// Move the cursor one column to the right.
    Right,
    /// Choose the cell under the cursor, or let it go.
    Select,
    /// Fire at the chosen cells.
    Fire,
    /// Leave the game.
    Quit,
    /// Nothing.
    Ignore,
}

/// The command that a key stands for: the arrows or `k`, `j`, `h`, `l` move
/// the cursor, the space bar selects, the return key fires, `q` and
/// control-c quit.
pub open spec fn command_of(key: KeyPress) -> Command {
    match key {
        KeyPress::Up => Command::Up,
        KeyPress::Down => Command::Down,
        KeyPress::Left => Command::Left,
        KeyPress::Right => Command::Right,
        KeyPress::Char(c) => if c == 'k' {
            Command::Up
        } else if c == 'j' {
            Command::Down
        } else if c == 'h' {
            Command::Left
        } else if c == 'l' {
            Command::Right
        } else if c == ' ' {
            Command::Select
        } else if c == '\n' {
            Command::Fire
        } else if c == 'q' {
            Command::Quit
        } else {
            Command::Ignore
        },
        KeyPress::Ctrl(c) => if c == 'c' {
            Command::Quit
        } else {
            Command::Ignore
        },
        KeyPress::Other => Command::Ignore,
    }
}

/// Computes [`command_of`].
pub fn command_for(key: KeyPress) -> (command: Command)
    ensures
        command == command_of(key),
{
    match key {
        KeyPress::Up => Command::Up,
        KeyPress::Down => Command::Down,
        KeyPress::Left => Command::Left,
        KeyPress::Right => Command::Right,
        KeyPress::Char(c) => {
            if c == 'k' {
                Command::Up
            } else if c == 'j' {
                Command::Down
            } else if c == 'h' {
                Command::Left
            } else if c == 'l' {
                Command::Right
            } else if c == ' ' {
                Command::Select
            } else if c == '\n' {
                Command::Fire
            } else if c == 'q' {
                Command::Quit
            } else {
                Command::Ignore
            }
        },
        KeyPress::Ctrl(c) => {
            if c == 'c' {
                Command::Quit
            } else {
                Command::Ignore
            }
        },
        KeyPress::Other => Command::Ignore,
    }
}

/// The controller of one game.
pub struct App {
    /// The title shown above the boards.
    pub title: String,
    /// Whether the player has asked to leave.
    pub should_quit: bool,
    /// Whether the screen may use more than plain characters.
    pub enhanced_graphics: bool,
    /// What the screen tells the player.
    pub message: String,
    /// The ticks counted so far, modulo 65536.
    pub frame_count: u16,
    game: Game,
    active_column: usize,
    active_row: usize,
    selected_coordinates: BTreeSet<Coordinate>,
    duration: Option<u64>,
}

/// What a controller is at one moment.
pub struct AppState {
    /// The title shown above the boards.
    pub title: Seq<char>,
    /// Whether the player has asked to leave.
    pub should_quit: bool,
    /// Whether the screen may use more than plain characters.
    pub enhanced_graphics: bool,
    /// What the screen tells the player.
    pub message: Seq<char>,
    /// The ticks counted so far, modulo 65536.
    pub frame_count: u16,
    /// The game.
    pub game: GameState,
    /// The cell under the cursor.
    pub active: Coordinate,
    /// The cells chosen for the next volley.
    pub selected: Set<Coordinate>,
    /// The seconds that the game took, once it is over and a tick has
    /// passed.
    pub duration: Option<u64>,
}

impl View for App {
    type V = AppState;

    closed spec fn view(&self) -> AppState {
        AppState {
            title: self.title@,
            should_quit: self.should_quit,
            enhanced_graphics: self.enhanced_graphics,
            message: self.message@,
            frame_count: self.frame_count,
            game: self.game@,
            active: (self.active_row, self.active_column),
            selected: self.selected_coordinates@,
            duration: self.duration,
        }
    }
}

/// `message` with `report` added on a line of its own.
pub open spec fn with_line(message: Seq<char>, report: Seq<char>) -> Seq<char> {
    if message.len() == 0 {
        report
    } else {
        message + seq!['\n'] + report
    }
}

/// `message` with the time that the game took.
pub open spec fn with_time(message: Seq<char>, seconds: u64) -> Seq<char> {
    message + " (In "@ + decimal_digits(seconds as nat) + " seconds)"@
}

/// The tick count after one more tick.
pub open spec fn next_frame(frame_count: u16) -> u16 {
    if frame_count == u16::MAX {
        0
    } else {
        (frame_count + 1) as u16
    }
}

impl AppState {
    /// The game is well formed, the cursor is on the grid and so is every
    /// chosen cell.
    pub open spec fn wf(self) -> bool {
        &&& self.game.wf()
        &&& in_grid(self.active)
        &&& all_in_grid(self.selected)
        &&& self.selected.finite()
    }

    /// This state with the cursor on `active`.
    pub open spec fn with_cursor(self, active: Coordinate) -> AppState {
        AppState { active, ..self }
    }

    /// What choosing the cell under the cursor, or letting it go, makes of
    /// this state.
    pub open spec fn after_select(self) -> AppState {
        if self.game.is_won() {
            self
        } else if self.selected.contains(self.active) {
            AppState { selected: self.selected.remove(self.active), ..self }
        } else if self.selected.len() < self.game.quota_of(0) {
            AppState { selected: self.selected.insert(self.active), ..self }
        } else {
            AppState { message: "Maximum shots for rule selected"@, ..self }
        }
    }

    /// Whether `post` is what an order to fire makes of this state, with
    /// `report` what the player is told of it.
    pub open spec fn fired(self, post: AppState, report: Seq<char>) -> bool {
        &&& post.message == with_line(self.message, report)
        &&& if self.selected.len() == 0 {
            &&& report == "Select opponent coordinates to hit"@
            &&& post == (AppState { message: post.message, ..self })
        } else if self.game.awaits(false) {
            &&& volley_resolved(self.game, post.game, self.selected, false, report)
            &&& post == (AppState {
                message: post.message,
                game: post.game,
                selected: Set::empty(),
                ..self
            })
        } else {
            &&& report == "Not your turn"@
            &&& post == (AppState { message: post.message, ..self })
        }
    }

    /// The cell above `c`, or `c` itself on the first row.
    pub open spec fn above(c: Coordinate) -> Coordinate {
        (
            if c.0 > 0 {
                (c.0 - 1) as usize
            } else {
                0
            },
            c.1,
        )
    }

    /// The cell below `c`, or `c` itself on the last row.
    pub open spec fn below(c: Coordinate) -> Coordinate {
        (
            if c.0 < ROWS - 1 {
                (c.0 + 1) as usize
            } else {
                c.0
            },
            c.1,
        )
    }

    /// The cell to the left of `c`, or `c` itself on the first column.
    pub open spec fn left_of(c: Coordinate) -> Coordinate {
        (
            c.0,
            if c.1 > 0 {
                (c.1 - 1) as usize
            } else {
                0
            },
        )
    }

    /// The cell to the right of `c`, or `c` itself on the last column.
    pub open spec fn right_of(c: Coordinate) -> Coordinate {
        (
            c.0,
            if c.1 < COLUMNS - 1 {
                (c.1 + 1) as usize
            } else {
                c.1
            },
        )
    }

    /// Whether `post` is what the command `command` makes of this state.
    /// The command to quit is not for the controller to carry out: it
    /// changes nothing here.
    pub open spec fn commanded(self, post: AppState, command: Command) -> bool {
        match command {
            Command::Up => post == self.with_cursor(Self::above(self.active)),
            Command::Down => post == self.with_cursor(Self::below(self.active)),
            Command::Left => post == self.with_cursor(Self::left_of(self.active)),
            Command::Right => post == self.with_cursor(Self::right_of(self.active)),
            Command::Select => post == self.after_select(),
            Command::Fire => exists|report: Seq<char>| #[trigger] self.fired(post, report),
            Command::Quit => post == self,
            Command::Ignore => post == self,
        }
    }

    /// Whether `post` is what a tick of the clock, `elapsed_secs` seconds
    /// into the game, makes of this state.
    pub open spec fn ticked(self, post: AppState, elapsed_secs: u64) -> bool {
        if self.game.is_won() && self.duration is None {
            post == (AppState {
                duration: Some(elapsed_secs),
                message: with_time(self.message, elapsed_secs),
                frame_count: next_frame(self.frame_count),
                ..self
            })
        } else if !self.game.is_won() && self.game.turn != 0 && self.frame_count % 8 == 0 {
            exists|shots: Set<Coordinate>| #[trigger] self.answered(post, shots)
        } else {
            post == (AppState { frame_count: next_frame(self.frame_count), ..self })
        }
    }

    /// Whether `post` is what the computer's volley `shots` makes of this
    /// state.
    pub open spec fn answered(self, post: AppState, shots: Set<Coordinate>) -> bool {
        &&& all_in_grid(shots)
        &&& 0 < shots.len() <= self.game.quota_of(1)
        &&& self.game.difficulty == Difficulty::Hard ==> shots == set![(0usize, 0usize)]
        &&& volley_resolved(self.game, post.game, shots, true, post.message)
        &&& post == (AppState {
            message: post.message,
            game: post.game,
            frame_count: next_frame(self.frame_count),
            ..self
        })
    }
}

impl App {
    /// Whether the controller's state is well formed. See
    /// [`AppState::wf`].
    pub open spec fn wf(&self) -> bool {
        self@.wf()
    }

    /// Whether this is the controller of a game that has just been set up
    /// under `rule`: the cursor on the top-left cell, nothing chosen,
    /// nothing to tell.
    pub open spec fn is_opening(&self, title: Seq<char>, rule: Rule, difficulty: Difficulty) -> bool {
        &&& self.wf()
        &&& self@.title == title
        &&& !self@.should_quit
        &&& self@.enhanced_graphics
        &&& self@.message.len() == 0
        &&& self@.frame_count == 0
        &&& self@.active == (0usize, 0usize)
        &&& self@.selected == Set::<Coordinate>::empty()
        &&& self@.duration is None
        &&& self@.game.is_opening(rule, difficulty)
    }

    /// A controller for a new game, the cursor on the top-left cell and
    /// nothing chosen. Fails where the game cannot be set up.
    pub fn new(title: String, rule: Rule, difficulty: Difficulty) -> (res: Result<App, SetupError>)
        ensures
            res matches Ok(app) ==> app.is_opening(title@, rule, difficulty),
    {
        match Game::new(rule, difficulty) {
            Ok(game) => Ok(App::with_game(title, game)),
            Err(e) => Err(e),
        }
    }

    /// A controller for `game`, the cursor on the top-left cell and nothing
    /// chosen.
    pub fn with_game(title: String, game: Game) -> (app: App)
        ensures
            app@ == (AppState {
                title: title@,
                should_quit: false,
                enhanced_graphics: true,
                message: Seq::empty(),
                frame_count: 0,
                game: game@,
                active: (0usize, 0usize),
                selected: Set::empty(),
                duration: None,
            }),
    {
        (
            App {
                title,
                should_quit: false,
                enhanced_graphics: true,
                active_column: 0,
                active_row: 0,
                selected_coordinates: BTreeSet::new(),
                game,
                message: String::new(),
                frame_count: 0,
                duration: None,
            }
        )
    }

    /// Moves the cursor one row up, unless it is on the first row.
    pub fn on_up(&mut self)
        ensures
            final(self)@ == old(self)@.with_cursor(AppState::above(old(self)@.active)),
    {
        if let Some(active_row) = self.active_row.checked_sub(1) {
            self.active_row = active_row;
        }
    }

    /// Moves the cursor one row down, unless it is on the last row.
    pub fn on_down(&mut self)
        ensures
            final(self)@ == old(self)@.with_cursor(AppState::below(old(self)@.active)),
    {
        if self.active_row < ROWS - 1 {
            self.active_row += 1;
        }
    }

    /// Moves the cursor one column to the right, unless it is on the last
    /// column.
    pub fn on_right(&mut self)
        ensures
            final(self)@ == old(self)@.with_cursor(AppState::right_of(old(self)@.active)),
    {
        if self.active_column < COLUMNS - 1 {
            self.active_column += 1;
        }
    }

    /// Moves the cursor one column to the left, unless it is on the first
    /// column.
    pub fn on_left(&mut self)
        ensures
            final(self)@ == old(self)@.with_cursor(AppState::left_of(old(self)@.active)),
    {
        if let Some(active_column) = self.active_column.checked_sub(1) {
            self.active_column = active_column;
        }
    }

    /// Whether one more cell may be chosen for the next volley.
    pub fn is_valid_rule(&self) -> (b: bool)
        ensures
            b == (self@.selected.len() < self@.game.quota_of(0)),
    {
        proof {
            lemma_coordinates_are_ordered();
        }
        self.game.is_valid_rule(self.selected_coordinates.len())
    }

    /// Whether the cell at `coordinate` is chosen for the next volley.
    pub fn is_selected(&self, coordinate: Coordinate) -> (b: bool)
        ensures
            b == self@.selected.contains(coordinate),
    {
        proof {
            lemma_coordinates_are_ordered();
        }
        self.selected_coordinates.contains(&coordinate)
    }

    /// The cell under the cursor.
    pub fn active(&self) -> (c: Coordinate)
        ensures
            c == self@.active,
    {
        (self.active_row, self.active_column)
    }

    /// The rule of the game.
    pub fn rule(&self) -> (rule: Rule)
        ensures
            rule == self@.game.rule,
    {
        self.game.rule()
    }

    /// Whether the game is over.
    pub fn is_won(&self) -> (b: bool)
        ensures
            b == self@.game.is_won(),
    {
        self.game.is_won()
    }

    /// The game that this controller drives.
    pub fn game(&self) -> (game: &Game)
        ensures
            game@ == self@.game,
    {
        &self.game
    }

    /// The cell at `c` of the player's own board (`read_only`) or of the
    /// board on which the player aims.
    pub fn cell(&self, c: Coordinate, read_only: bool) -> (cell: Cell<'_>)
        ensures
            cell@ == (CellView { app: self@, coordinate: c, read_only }),
    {
        Cell::new(self, c, read_only)
    }

    /// The seconds to show on the clock: those that the game took if it is
    /// over and its time has been taken, else `elapsed_secs`, the seconds
    /// that have passed since it began.
    pub fn elapsed_duration(&self, elapsed_secs: u64) -> (secs: u64)
        ensures
            secs == match self@.duration {
                Some(duration) => duration,
                None => elapsed_secs,
            },
    {
        if let Some(duration) = self.duration {
            duration
        } else {
            elapsed_secs
        }
    }

    /// Chooses the cell under the cursor for the next volley, or lets it go
    /// if it is chosen already. A cell beyond the rule's quota is not
    /// chosen; the message says so. Once the game is over nothing happens.
    pub fn on_select(&mut self)
        requires
            old(self).wf(),
        ensures
            final(self).wf(),
            final(self)@ == old(self)@.after_select(),
    {
        proof {
            lemma_coordinates_are_ordered();
        }
        if !self.game.is_won() {
            let here = (self.active_row, self.active_column);
            if self.is_selected(here) {
                self.selected_coordinates.remove(&here);
            } else if self.is_valid_rule() {
                self.selected_coordinates.insert(here);
            } else {
                self.message = String::from_str("Maximum shots for rule selected");
            }
        }
    }

    /// Fires the chosen cells for the human and adds what came of it to the
    /// message, on a line of its own.
    ///
    /// With nothing chosen, out of turn or after the game has ended nothing
    /// is fired and the message says why. Else the volley is resolved as
    /// [`volley_resolved`] says and the choice is cleared.
    pub fn on_fire(&mut self)
        requires
            old(self).wf(),
        ensures
            final(self).wf(),
            exists|report: Seq<char>| #[trigger] old(self)@.fired(final(self)@, report),
    {
        proof {
            lemma_coordinates_are_ordered();
        }
        let ghost pre = self@;
        let msg = if self.selected_coordinates.is_empty() {
            assert(pre.selected.len() == 0);
            String::from_str("Select opponent coordinates to hit")
        } else if !self.game.is_won() && self.game.is_user_turn() {
            assert(pre.selected.len() != 0) by {
                if pre.selected.len() == 0 {
                    pre.selected.lemma_len0_is_empty();
                }
            }
            let msg = self.game.fire(&self.selected_coordinates, false);
            self.selected_coordinates = BTreeSet::new();
            msg
        } else {
            assert(pre.selected.len() != 0) by {
                if pre.selected.len() == 0 {
                    pre.selected.lemma_len0_is_empty();
                }
            }
            String::from_str("Not your turn")
        };
        let ghost report = msg@;
        // add to the previous message
        if self.message.as_str().unicode_len() > 0 {
            proof {
                reveal_strlit("\n");
            }
            self.message.append("\n");
            self.message.append(msg.as_str());
            assert(self.message@ =~= with_line(pre.message, report));
        } else {
            self.message = msg;
        }
        assert(pre.fired(self@, report));
    }

    /// Whether the message is to be shown when the screen is drawn, which
    /// it is between the computer's ticks and once the game is over. When
    /// it is not shown it is cleared.
    pub fn on_draw(&mut self) -> (shown: bool)
        ensures
            shown == (old(self)@.frame_count % 8 != 0 || old(self)@.game.is_won()),
            shown ==> final(self)@ == old(self)@,
            !shown ==> final(self)@ == (AppState { message: Seq::empty(), ..old(self)@ }),
    {
        if self.frame_count % 8 != 0 || self.is_won() {
            true
        } else {
            self.message = String::new();
            false
        }
    }

    /// Acts on a key: see [`command_of`]. Keys that ask to leave the game
    /// are not acted on here.
    pub fn on_key(&mut self, key: KeyPress)
        requires
            old(self).wf(),
        ensures
            final(self).wf(),
            old(self)@.commanded(final(self)@, command_of(key)),
    {
        match command_for(key) {
            Command::Up => {
                self.on_up();
            },
            Command::Down => {
                self.on_down();
            },
            Command::Left => {
                self.on_left();
            },
            Command::Right => {
                self.on_right();
            },
            Command::Select => {
                self.on_select();
            },
            Command::Fire => {
                self.on_fire();
            },
            _ => {},
        }
    }

    /// Acts on a tick of the clock, `elapsed_secs` seconds into the game.
    ///
    /// The first tick after the game has ended takes the game's time and
    /// adds it to the message. While the game goes on and it is the
    /// computer's turn, every eighth tick lets the computer fire, and the
    /// message becomes what came of it. Every tick is counted.
    pub fn on_tick(&mut self, elapsed_secs: u64)
        requires
            old(self).wf(),
        ensures
            final(self).wf(),
            old(self)@.ticked(final(self)@, elapsed_secs),
    {
        let ghost pre = self@;
        if self.is_won() && self.duration.is_none() {
            self.duration = Some(elapsed_secs);
            self.message.append(" (In ");
            self.message.append(decimal(elapsed_secs).as_str());
            self.message.append(" seconds)");
            assert(self.message@ =~= with_time(pre.message, elapsed_secs));
        }
        // the computer waits for every eighth tick, so that its move is seen
        if !self.game.is_user_turn() && !self.is_won() && self.frame_count % 8 == 0 {
            self.message = self.game.bot_fire();
        }
        self.frame_count = self.frame_count.wrapping_add(1);
        proof {
            if !pre.game.is_won() && pre.game.turn != 0 && pre.frame_count % 8 == 0 {
                let shots = choose|shots: Set<Coordinate>|
                    {
                        &&& all_in_grid(shots)
                        &&& 0 < shots.len() <= pre.game.quota_of(1)
                        &&& pre.game.difficulty == Difficulty::Hard ==> shots == set![
                            (0usize, 0usize),
                        ]
                        &&& #[trigger] volley_resolved(pre.game, self@.game, shots, true, self@.message)
                    };
                assert(pre.answered(self@, shots));
            }
        }
    }

    /// Acts on what the game's loop has waited for: a key that asks to
    /// leave sets `should_quit`, any other key is acted on as
    /// [`App::on_key`] says, a tick as [`App::on_tick`] says.
    pub fn on_event(&mut self, event: Event<KeyPress>, elapsed_secs: u64)
        requires
            old(self).wf(),
        ensures
            final(self).wf(),
            match event {
                Event::Input(key) => if command_of(key) == Command::Quit {
                    final(self)@ == (AppState { should_quit: true, ..old(self)@ })
                } else {
                    old(self)@.commanded(final(self)@, command_of(key))
                },
                Event::Tick => old(self)@.ticked(final(self)@, elapsed_secs),
            },
    {
        match event {
            Event::Input(key) => {
                match command_for(key) {
                    Command::Quit => {
                        self.should_quit = true;
                    },
                    _ => {
                        self.on_key(key);
                    },
                }
            },
            Event::Tick => {
                self.on_tick(elapsed_secs);
            },
        }
    }
}

/// The colour in which a cell is framed.
#[derive(Clone, Copy, Debug, PartialEq, Eq, Structural)]
pub enum CellColor {
    /// A chosen cell, or a ship of one's own.
    Yellow,
    /// The cell under the cursor.
    Cyan,
    /// A cell that was hit.
    Red,
    /// Open water, shot at or not.
    White,
}

/// The colour that stands for a status.
pub open spec fn status_color(status: Status) -> CellColor {
    match status {
        Status::Live => CellColor::Yellow,
        Status::Hit => CellColor::Red,
        Status::Kill => CellColor::Red,
        Status::Miss => CellColor::White,
        Status::Space => CellColor::White,
    }
}

/// One cell of one of the two boards on the screen.
///
/// A read-only cell belongs to the player's own board, which only shows.
/// The other cells belong to the board on which the player aims: they can
/// be under the cursor and can be chosen.
pub struct Cell<'app> {
    app: &'app App,
    coordinate: Coordinate,
    read_only: bool,
}

/// What a cell on the screen is, as its contracts see it.
pub struct CellView {
    /// The controller that the cell belongs to.
    pub app: AppState,
    /// Where the cell lies.
    pub coordinate: Coordinate,
    /// Whether the cell belongs to the player's own board.
    pub read_only: bool,
}

impl CellView {
    /// The status that the cell shows: that of the player's own board for a
    /// read-only cell, else what the player has learned of the opponent's.
    pub open spec fn status(self) -> Status {
        if self.read_only {
            self.app.game.human.home().status_at(self.coordinate)
        } else {
            self.app.game.human.tracking().status_at(self.coordinate)
        }
    }

    /// Whether the cell is under the cursor.
    pub open spec fn is_active(self) -> bool {
        !self.read_only && self.app.active == self.coordinate
    }

    /// Whether the cell is chosen for the next volley.
    pub open spec fn is_selected(self) -> bool {
        !self.read_only && self.app.selected.contains(self.coordinate)
    }

    /// The colour of the cell's frame: yellow if chosen, else cyan under
    /// the cursor, else the colour of its status.
    pub open spec fn color(self) -> CellColor {
        if self.is_selected() {
            CellColor::Yellow
        } else if self.is_active() {
            CellColor::Cyan
        } else {
            status_color(self.status())
        }
    }
}

impl<'app> View for Cell<'app> {
    type V = CellView;

    closed spec fn view(&self) -> CellView {
        CellView { app: self.app@, coordinate: self.coordinate, read_only: self.read_only }
    }
}

impl<'app> Cell<'app> {
    fn new(app: &'app App, coordinate: Coordinate, read_only: bool) -> (cell: Self)
        ensures
            cell@ == (CellView { app: app@, coordinate, read_only }),
    {
        Cell { app, coordinate, read_only }
    }

    /// The status that the cell shows.
    pub fn get_position_status(&self) -> (status: Status)
        requires
            self@.app.wf(),
            in_grid(self@.coordinate),
        ensures
            status == self@.status(),
    {
        let player = self.app.game.player();
        let board = if self.read_only {
            player.player_board()
        } else {
            player.opponent_board()
        };
        board.positions[self.coordinate.0][self.coordinate.1].status
    }

    /// Whether the cell is under the cursor.
    pub fn is_active(&self) -> (b: bool)
        ensures
            b == self@.is_active(),
    {
        if self.read_only {
            false
        } else {
            let active = self.app.active();
            active.0 == self.coordinate.0 && active.1 == self.coordinate.1
        }
    }

    /// Whether the cell is chosen for the next volley.
    pub fn is_selected(&self) -> (b: bool)
        ensures
            b == self@.is_selected(),
    {
        if self.read_only {
            false
        } else {
            self.app.is_selected(self.coordinate)
        }
    }

    /// The colour of the cell's frame.
    pub fn color(&self) -> (color: CellColor)
        requires
            self@.app.wf(),
            in_grid(self@.coordinate),
        ensures
            color == self@.color(),
    {
        if self.is_selected() {
            CellColor::Yellow
        } else if self.is_active() {
            CellColor::Cyan
        } else {
            match self.get_position_status() {
                Status::Live => CellColor::Yellow,
                Status::Hit => CellColor::Red,
                Status::Kill => CellColor::Red,
                Status::Miss => CellColor::White,
                Status::Space => CellColor::White,
            }
        }
    }

    /// The pictogram in the cell: that of its status.
    pub fn text(&self) -> (s: &'static str)
        requires
            self@.app.wf(),
            in_grid(self@.coordinate),
        ensures
            s@ == crate::status::emoji_of(self@.status()),
    {
        self.get_position_status().as_emoji()
    }
}

} // verus!
