//! A small chess engine: static evaluation, a transposition table, an
//! alpha-beta search with the usual selectivity tricks, and the decision logic
//! of its two front ends (a terminal game loop and the UCI protocol).
//!
//! Chess rules (move generation, making moves, hashing, notation) come from
//! the `shakmaty` crate, reached only through the trusted items of [`rules`].

pub mod chess;
pub mod rules;
pub mod text;
pub mod eval;
pub mod tt;
pub mod interface;
pub mod lmr;
pub mod search;
pub mod play;
pub mod uci;
pub mod tui;
pub mod render;
