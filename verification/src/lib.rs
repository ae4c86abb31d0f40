//! Rules engine for a multiplayer shedding card game.
//!
//! A game is played with one deck of 108 cards. The engine keeps the draw
//! pile, the discard pile, the players with their hands, the direction of
//! play and the turn counter, and lets the current player play a card or
//! draw one.
//!
//! - [`card`]: colors, faces, cards, and the rule that says which card may
//!   follow which.
//! - [`deck`]: piles of cards and what they hold.
//! - [`full_deck`]: the composition of the deck.
//! - [`shuffle`]: the pseudo-random reordering of a pile.
//! - [`direction`]: the direction of play.
//! - [`player`]: players.
//! - [`rules`]: the game as a mathematical value, and what each move makes
//!   of it.
//! - [`laws`]: what holds of the rules.
//! - [`uno`]: the engine, whose every move is one step of the rules.
//!
//! Shuffling takes its seed from the system clock. Wherever a result depends
//! on a shuffle, the contract says that it is the result for some seed, and
//! the rules say which result that is for each seed.

pub mod card;
pub mod deck;
pub mod direction;
pub mod full_deck;
pub mod laws;
pub mod player;
pub mod rules;
pub mod shuffle;
pub mod uno;

pub use crate::card::color::Color;
pub use crate::card::face::Face;
pub use crate::card::Card;
pub use crate::deck::Deck;
pub use crate::direction::GameDirection;
pub use crate::player::Player;
pub use crate::uno::{TurnResult, Uno};
