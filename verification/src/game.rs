//! The players, and the game as a state machine of turns.
//!
//! A game waits for the human's volley, then for the computer's, and so on
//! until one side has no ship afloat. From then on it has a winner and
//! takes no further volley.

use crate::board::{Board, SetupError};
use crate::firing::tally;
use crate::grid::{all_in_grid, lemma_coordinates_are_ordered, Coordinate};
use crate::random::{entropy_seed, get_random_coordinate, RandomSource};
use crate::rules::{allows_shot, quota, shot_quota};
use crate::shape::initial_ships;
use crate::status::{Difficulty, Rule, Status};
use crate::text::volley_message;
use std::collections::BTreeSet;
use vstd::prelude::*;
use vstd::string::StringExecFns;

verus! {

/// One side of the game: its own waters and what it knows of the other's.
pub struct Player {
    is_bot: bool,
    home: Board,
    tracking: Board,
}

impl Player {
    /// The board that holds this player's fleet.
    pub closed spec fn home(&self) -> Board {
        self.home
    }

    /// The board on which this player records the outcomes of its volleys.
    pub closed spec fn tracking(&self) -> Board {
        self.tracking
    }

    /// Whether this player is the computer.
    pub closed spec fn bot(&self) -> bool {
        self.is_bot
    }

    /// Both boards are well formed and the tracking board has no ships.
    pub open spec fn wf(&self) -> bool {
        &&& self.home().wf()
        &&& self.tracking().wf()
        &&& self.tracking().ships@.len() == 0
    }

    /// Whether this player has just been set up: a fleet freshly placed at
    /// home, open water on the tracking board.
    pub open spec fn is_fresh(&self) -> bool {
        &&& self.home().holds_fleet(initial_ships())
        &&& self.tracking().holds_fleet(Seq::empty())
    }

    /// A player with a freshly placed fleet and an empty tracking board.
    fn set_up(is_bot: bool, rng: &mut RandomSource) -> (res: Result<Player, SetupError>)
        ensures
            res matches Ok(p) ==> p.is_fresh() && p.bot() == is_bot,
            res matches Err(e) ==> e == SetupError::PlacementExhausted,
    {
        let home = match Board::new(true, rng) {
            Ok(board) => board,
            Err(e) => {
                return Err(e);
            },
        };
        let tracking = match Board::new(false, rng) {
            Ok(board) => board,
            Err(e) => {
                return Err(e);
            },
        };
        Ok(Player { is_bot, home, tracking })
    }

    /// The human player, set up for a new game. Fails if no place is found
    /// for a ship.
    pub fn new(rng: &mut RandomSource) -> (res: Result<Player, SetupError>)
        ensures
            res matches Ok(p) ==> p.is_fresh() && !p.bot(),
            res matches Err(e) ==> e == SetupError::PlacementExhausted,
    {
        Player::set_up(false, rng)
    }

    /// The computer's player, set up for a new game. Fails if no place is
    /// found for a ship.
    pub fn computer(rng: &mut RandomSource) -> (res: Result<Player, SetupError>)
        ensures
            res matches Ok(p) ==> p.is_fresh() && p.bot(),
            res matches Err(e) ==> e == SetupError::PlacementExhausted,
    {
        Player::set_up(true, rng)
    }

    /// Whether this player is the computer.
    pub fn is_bot(&self) -> (b: bool)
        ensures
            b == self.bot(),
    {
        self.is_bot
    }

    /// The board that holds this player's fleet, to be changed in place.
    pub fn player_board_mut(&mut self) -> (board: &mut Board)
        ensures
            *board == old(self).home(),
            final(self).home() == *final(board),
            final(self).tracking() == old(self).tracking(),
            final(self).bot() == old(self).bot(),
    {
        &mut self.home
    }

    /// The board on which this player records its volleys, to be changed in
    /// place.
    pub fn opponent_board_mut(&mut self) -> (board: &mut Board)
        ensures
            *board == old(self).tracking(),
            final(self).tracking() == *final(board),
            final(self).home() == old(self).home(),
            final(self).bot() == old(self).bot(),
    {
        &mut self.tracking
    }

    /// The board that holds this player's fleet.
    pub fn player_board(&self) -> (board: &Board)
        ensures
            *board == self.home(),
    {
        &self.home
    }

    /// The board on which this player records the outcomes of its volleys.
    pub fn opponent_board(&self) -> (board: &Board)
        ensures
            *board == self.tracking(),
    {
        &self.tracking
    }
}

/// The other side: 1 for 0, and 0 for anything else.
pub open spec fn opponent_of(turn: usize) -> usize {
    if turn == 0 {
        1
    } else {
        0
    }
}

/// What a game is at one moment, as its contracts see it.
pub struct GameState {
    /// The human player.
    pub human: Player,
    /// The computer's player.
    pub computer: Player,
    /// Whose volley is awaited: 0 for the human, 1 for the computer.
    pub turn: usize,
    /// The side that has won, once one has.
    pub winner: Option<usize>,
    /// The rule that limits a volley.
    pub rule: Rule,
    /// How the computer aims.
    pub difficulty: Difficulty,
}

impl GameState {
    /// The player on side `i`.
    pub open spec fn player(self, i: usize) -> Player {
        if i == 0 {
            self.human
        } else {
            self.computer
        }
    }

    /// The player whose volley is awaited.
    pub open spec fn active(self) -> Player {
        self.player(self.turn)
    }

    /// Whether the game is over.
    pub open spec fn is_won(self) -> bool {
        self.winner is Some
    }

    /// The turn is 0 or 1, both players are well formed, and the game has a
    /// winner exactly when a fleet is gone: the fleet of the other side.
    pub open spec fn wf(self) -> bool {
        &&& self.turn < 2
        &&& self.human.wf()
        &&& self.computer.wf()
        &&& match self.winner {
            Some(w) => w < 2 && self.player(opponent_of(w)).home().is_cleared(),
            None => !self.human.home().is_cleared() && !self.computer.home().is_cleared(),
        }
    }

    /// Whether this is a game that has just been set up under `rule`: both
    /// sides with a fresh fleet, the human to move, nobody the winner.
    pub open spec fn is_opening(self, rule: Rule, difficulty: Difficulty) -> bool {
        &&& self.wf()
        &&& self.turn == 0
        &&& self.winner is None
        &&& self.rule == rule
        &&& self.difficulty == difficulty
        &&& self.human.is_fresh()
        &&& !self.human.bot()
        &&& self.computer.is_fresh()
        &&& self.computer.bot()
    }

    /// The most shots that the player on side `i` may fire in one volley.
    pub open spec fn quota_of(self, i: usize) -> nat {
        quota(self.rule, self.player(i).home(), self.player(i).tracking())
    }

    /// Whether a volley of `bot`'s is due: nobody has won and it is that
    /// side's turn.
    pub open spec fn awaits(self, bot: bool) -> bool {
        !self.is_won() && bot == (self.turn == 1)
    }
}

/// What the side that fired is told when the volley has ended the game.
pub open spec fn final_message(bot: bool) -> Seq<char> {
    if bot {
        "You lost 🙁"@
    } else {
        "You won 🙌"@
    }
}

/// Whether `post` is `pre` after the side to move has fired the volley
/// `shots`, and `msg` is what that side is told.
///
/// The volley is resolved against the home board of the other side and its
/// outcomes are recorded on the firer's tracking board. The turn passes to
/// the other side. If the volley leaves the other side without a ship
/// afloat, the firer has won and is told so; else the firer is told the
/// ships sunk, the hits and the misses.
pub open spec fn volley_resolved(
    pre: GameState,
    post: GameState,
    shots: Set<Coordinate>,
    bot: bool,
    msg: Seq<char>,
) -> bool {
    let attacker = pre.turn;
    let defender = opponent_of(pre.turn);
    let response = pre.player(defender).home().response_to(shots);
    &&& post.rule == pre.rule
    &&& post.difficulty == pre.difficulty
    &&& post.turn == defender
    &&& post.player(defender).home().resolved_from(pre.player(defender).home(), shots)
    &&& post.player(defender).tracking() == pre.player(defender).tracking()
    &&& post.player(defender).bot() == pre.player(defender).bot()
    &&& post.player(attacker).home() == pre.player(attacker).home()
    &&& post.player(attacker).tracking().records(pre.player(attacker).tracking(), response)
    &&& post.player(attacker).bot() == pre.player(attacker).bot()
    &&& if post.player(defender).home().is_cleared() {
        post.winner == Some(attacker) && msg == final_message(bot)
    } else {
        post.winner is None && msg == volley_message(
            tally(response, Status::Kill),
            tally(response, Status::Hit),
            tally(response, Status::Miss),
            bot,
        )
    }
}

/// A game between the human and the computer.
pub struct Game {
    players: [Player; 2],
    winner: Option<usize>,
    turn: usize,
    rule: Rule,
    difficulty: Difficulty,
    rng: RandomSource,
}

impl View for Game {
    type V = GameState;

    closed spec fn view(&self) -> GameState {
        GameState {
            human: self.players[0],
            computer: self.players[1],
            turn: self.turn,
            winner: self.winner,
            rule: self.rule,
            difficulty: self.difficulty,
        }
    }
}

impl Game {
    /// Whether the game's state is well formed. See [`GameState::wf`].
    pub open spec fn wf(&self) -> bool {
        self@.wf()
    }

    /// Whether this is a game that has just been set up under `rule`. See
    /// [`GameState::is_opening`].
    pub open spec fn is_opening(&self, rule: Rule, difficulty: Difficulty) -> bool {
        self@.is_opening(rule, difficulty)
    }

    /// A new game under `rule`, the human to move first, with chance drawn
    /// from `rng`. Fails if no place is found for a ship.
    pub fn with_rng(rule: Rule, difficulty: Difficulty, rng: RandomSource) -> (res: Result<
        Game,
        SetupError,
    >)
        ensures
            res matches Ok(game) ==> game.is_opening(rule, difficulty),
            res matches Err(e) ==> e == SetupError::PlacementExhausted,
    {
        let mut rng = rng;
        let human = match Player::new(&mut rng) {
            Ok(player) => player,
            Err(e) => {
                return Err(e);
            },
        };
        let computer = match Player::computer(&mut rng) {
            Ok(player) => player,
            Err(e) => {
                return Err(e);
            },
        };
        proof {
            lemma_fresh_fleet_is_afloat(human.home());
            lemma_fresh_fleet_is_afloat(computer.home());
        }
        Ok(Game { turn: 0, winner: None, players: [human, computer], rule, difficulty, rng })
    }

    /// A new game under `rule`, the human to move first, with chance fixed
    /// by `seed`. Without a seed there is no game: the set-up fails with
    /// [`SetupError::NoEntropy`]. It also fails if no place is found for a
    /// ship.
    pub fn seeded(rule: Rule, difficulty: Difficulty, seed: Option<u64>) -> (res: Result<
        Game,
        SetupError,
    >)
        ensures
            res matches Ok(game) ==> game.is_opening(rule, difficulty),
            res matches Err(e) ==> (e == SetupError::NoEntropy <==> seed is None),
            seed is None ==> res is Err,
    {
        match seed {
            Some(seed) => Game::with_rng(rule, difficulty, RandomSource::from_seed(seed)),
            None => Err(SetupError::NoEntropy),
        }
    }

    /// A new game under `rule`, the human to move first, with chance seeded
    /// by the operating system. Fails if the system has no randomness to
    /// give, or if no place is found for a ship.
    pub fn new(rule: Rule, difficulty: Difficulty) -> (res: Result<Game, SetupError>)
        ensures
            res matches Ok(game) ==> game.is_opening(rule, difficulty),
    {
        Game::seeded(rule, difficulty, entropy_seed())
    }

    /// Whether the human's volley is awaited.
    pub fn is_user_turn(&self) -> (b: bool)
        ensures
            b == (self@.turn == 0),
    {
        self.turn == 0
    }

    /// Whether the game is over.
    pub fn is_won(&self) -> (b: bool)
        ensures
            b == self@.is_won(),
    {
        self.winner.is_some()
    }

    /// The rule of this game.
    pub fn rule(&self) -> (rule: Rule)
        ensures
            rule == self@.rule,
    {
        self.rule
    }

    /// Puts the game under another rule.
    pub fn set_rule(&mut self, rule: Rule)
        ensures
            final(self)@ == (GameState { rule, ..old(self)@ }),
    {
        self.rule = rule;
    }

    /// The human player.
    pub fn player(&self) -> (p: &Player)
        ensures
            *p == self@.human,
    {
        &self.players[0]
    }

    /// Whether the human, with `existing_shots` coordinates chosen, may
    /// choose one more.
    pub fn is_valid_rule(&self, existing_shots: usize) -> (b: bool)
        ensures
            b == (existing_shots < self@.quota_of(0)),
    {
        let human = self.player();
        allows_shot(self.rule, human.player_board(), human.opponent_board(), existing_shots)
    }

    /// The player on side `turn`, to be changed in place.
    fn player_by_turn(&mut self, turn: usize) -> (p: &mut Player)
        requires
            turn < 2,
        ensures
            *p == old(self)@.player(turn),
            final(self)@.player(turn) == *final(p),
            final(self)@.player(opponent_of(turn)) == old(self)@.player(opponent_of(turn)),
            final(self)@.turn == old(self)@.turn,
            final(self)@.winner == old(self)@.winner,
            final(self)@.rule == old(self)@.rule,
            final(self)@.difficulty == old(self)@.difficulty,
    {
        &mut self.players[turn]
    }

    /// The computer's volley: as many draws as the side to move may fire
    /// shots, each a coordinate drawn over the whole grid under `Easy` and
    /// the top-left cell under `Hard`. Draws that fall together make one
    /// shot, so the volley may be smaller than the quota.
    pub fn generate_firing_coordinates(&mut self) -> (shots: BTreeSet<Coordinate>)
        requires
            old(self).wf(),
        ensures
            final(self)@ == old(self)@,
            all_in_grid(shots@),
            shots@.finite(),
            shots@.len() <= old(self)@.quota_of(old(self)@.turn),
            old(self)@.quota_of(old(self)@.turn) > 0 ==> shots@.len() > 0,
            old(self)@.difficulty == Difficulty::Hard ==> shots@.subset_of(set![(0usize, 0usize)]),
    {
        let number_of_shots = {
            let active = &self.players[self.turn];
            proof {
                active.tracking().ships@.lemma_filter_len(|s: crate::board::Ship| s.alive);
            }
            shot_quota(self.rule, active.player_board(), active.opponent_board())
        };
        let mut draws: Vec<Coordinate> = Vec::new();
        let mut i: usize = 0;
        while i < number_of_shots
            invariant
                i <= number_of_shots,
                draws@.len() == i,
                self@ == old(self)@,
                forall|k: int| 0 <= k < draws@.len() ==> crate::grid::in_grid(#[trigger] draws@[k]),
                self@.difficulty == Difficulty::Hard ==> forall|k: int|
                    0 <= k < draws@.len() ==> #[trigger] draws@[k] == (0usize, 0usize),
            decreases number_of_shots - i,
        {
            let random_coords = match self.difficulty {
                Difficulty::Easy => get_random_coordinate(&mut self.rng, 0),
                Difficulty::Hard => (0, 0),
            };
            draws.push(random_coords);
            i += 1;
        }
        let shots = volley_of(&draws);
        proof {
            draws@.lemma_cardinality_of_set();
            if number_of_shots > 0 {
                assert(draws@.to_set().contains(draws@[0]));
                if shots@.len() == 0 {
                    shots@.lemma_len0_is_empty();
                }
            }
        }
        shots
    }

    /// Fires the volley `shots` for the human (`bot` false) or the computer
    /// (`bot` true).
    ///
    /// An empty volley, a volley out of turn and a volley after the game
    /// has ended change nothing: the caller is told to choose targets, or
    /// that it is not their turn. Any other volley is resolved as
    /// [`volley_resolved`] says.
    pub fn fire(&mut self, shots: &BTreeSet<Coordinate>, bot: bool) -> (msg: String)
        requires
            old(self).wf(),
            all_in_grid(shots@),
        ensures
            final(self).wf(),
            shots@.len() == 0 ==> final(self)@ == old(self)@ && msg@
                == "Select opponent coordinates to hit"@,
            shots@.len() != 0 && !old(self)@.awaits(bot) ==> final(self)@ == old(self)@ && msg@
                == "Not your turn"@,
            shots@.len() != 0 && old(self)@.awaits(bot) ==> volley_resolved(
                old(self)@,
                final(self)@,
                shots@,
                bot,
                msg@,
            ),
    {
        proof {
            lemma_coordinates_are_ordered();
        }
        if shots.len() == 0 {
            return String::from_str("Select opponent coordinates to hit");
        }
        if self.winner.is_some() || bot != (self.turn == 1) {
            return String::from_str("Not your turn");
        }
        let player_index = self.turn;
        let opponent_index = 1 - player_index;
        let opponent = self.player_by_turn(opponent_index);
        let opponent_board = opponent.player_board_mut();
        let (response, lost) = opponent_board.take_fire(shots);

        let player = self.player_by_turn(player_index);
        let message = player.opponent_board_mut().update_status(response, bot);
        self.turn = opponent_index;
        if lost {
            self.winner = Some(player_index);
            if bot {
                String::from_str("You lost 🙁")
            } else {
                String::from_str("You won 🙌")
            }
        } else {
            message
        }
    }

    /// The computer's move: a volley from [`Game::generate_firing_coordinates`],
    /// fired for the computer. Out of turn, or after the game has ended,
    /// nothing changes.
    pub fn bot_fire(&mut self) -> (msg: String)
        requires
            old(self).wf(),
        ensures
            final(self).wf(),
            !old(self)@.awaits(true) ==> final(self)@ == old(self)@ && msg@ == "Not your turn"@,
            old(self)@.awaits(true) ==> exists|shots: Set<Coordinate>|
                {
                    &&& all_in_grid(shots)
                    &&& 0 < shots.len() <= old(self)@.quota_of(1)
                    &&& old(self)@.difficulty == Difficulty::Hard ==> shots == set![(0usize, 0usize)]
                    &&& #[trigger] volley_resolved(old(self)@, final(self)@, shots, true, msg@)
                },
    {
        if self.winner.is_some() || self.turn != 1 {
            return String::from_str("Not your turn");
        }
        proof {
            lemma_side_to_move_can_fire(self@);
        }
        let shots = self.generate_firing_coordinates();
        proof {
            if self@.difficulty == Difficulty::Hard {
                assert(shots@.contains(shots@.choose()));
                assert(shots@ =~= set![(0usize, 0usize)]);
            }
        }
        self.fire(&shots, true)
    }
}

/// The set of the coordinates in `draws`.
pub fn volley_of(draws: &Vec<Coordinate>) -> (shots: BTreeSet<Coordinate>)
    ensures
        shots@ == draws@.to_set(),
{
    let mut shots: BTreeSet<Coordinate> = BTreeSet::new();
    let mut i: usize = 0;
    assert(draws@.take(0).to_set() =~= Set::empty());
    while i < draws.len()
        invariant
            i <= draws@.len(),
            shots@ == draws@.take(i as int).to_set(),
        decreases draws@.len() - i,
    {
        shots.insert(draws[i]);
        proof {
            lemma_coordinates_are_ordered();
            draws@.take(i as int).lemma_push_to_set_commute(draws@[i as int]);
            assert(draws@.take(i + 1) =~= draws@.take(i as int).push(draws@[i as int]));
        }
        i += 1;
    }
    assert(draws@.take(draws@.len() as int) =~= draws@);
    shots
}

/// While nobody has won, the side to move may fire at least one shot.
pub proof fn lemma_side_to_move_can_fire(state: GameState)
    requires
        state.wf(),
        !state.is_won(),
    ensures
        state.quota_of(state.turn) > 0,
{
    crate::firing::lemma_cleared_means_none_afloat(state.active().home());
}

/// A fleet that has just been placed has a ship afloat.
pub proof fn lemma_fresh_fleet_is_afloat(board: Board)
    requires
        board.holds_fleet(initial_ships()),
    ensures
        !board.is_cleared(),
{
    assert(board.ships@[0].alive);
}

} // verus!
