//! A terminal number-guessing game, verified.
//!
//! The system picks a secret integer within a bounded range; the player
//! repeatedly guesses and is told whether each guess is too high, too low
//! or correct, until the guess is right or the player types `quit`.
//! A menu lets the player start a round or exit.
//!
//! All game logic — evaluating guesses, parsing input lines, the game-round
//! state machine, and menu choice validation — lives here with contracts.
//! Reading and writing the real terminal is left to the surrounding program;
//! the library works over [`io::Reader`] and [`io::Writer`], which replay
//! scripted input lines and record written output.

pub mod game;
pub mod io;
pub mod menu;
pub mod random;
pub mod text;
