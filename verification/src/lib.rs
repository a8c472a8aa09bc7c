//! Core engine of a multiplayer turn-based grid battle game.
//!
//! The library models the game sessions themselves: boards, ships and shot
//! state, the join state machine, the per-round challenge/proof fire
//! protocol, identity key material, and the directory of open games.  The
//! HTTP layer and the document store that persist this state are external
//! collaborators: they hand plain values in and take plain values back.

pub mod animation_level;
pub mod board;
pub mod database;
pub mod codec;
pub mod crypto;
pub mod engine;
pub mod game;
pub mod keys;
pub mod link;
pub mod position;
pub mod ship;
pub mod web_error;
