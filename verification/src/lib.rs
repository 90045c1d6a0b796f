//! Core of a number-guessing game: the program draws a secret integer in a
//! configurable range, the player submits guesses as raw text, and each guess
//! is answered with higher/lower/correct feedback until the game is won.
//!
//! All game rules live here, behind contracts; a UI shell only renders the
//! fields of [`game::GuessApp`] and forwards user actions to it.

pub mod decimal;
pub mod game;
pub mod parse;
