//! A two-player battleship engine: a human against the computer on a pair of
//! ten-by-ten grids, with randomized ship placement, volley firing, hit and
//! kill resolution, shot quotas per rule and a simple targeting strategy.
//!
//! Every function here is verified against the contract it carries. The
//! mathematical vocabulary of those contracts lives beside the code it
//! describes:
//!
//! * [`status`]: what a cell can hold, and the rules and difficulties to
//!   choose from;
//! * [`shape`]: the four ship archetypes and their rotations;
//! * [`grid`]: coordinates and their order;
//! * [`random`]: the source of chance, drawn from the `rand` and `uuid`
//!   crates;
//! * [`board`]: boards, ships and the placing of a fleet;
//! * [`firing`]: resolving a volley and recording its outcome;
//! * [`text`]: the wording of reports;
//! * [`rules`]: the shots that a rule allows;
//! * [`game`]: the players and the turn state machine;
//! * [`control`]: the controller between the keyboard and the game;
//! * [`laws`]: what follows from all of this for every board and game.

pub mod board;
pub mod control;
pub mod firing;
pub mod game;
pub mod grid;
pub mod laws;
pub mod random;
pub mod rules;
pub mod shape;
pub mod status;
pub mod text;
