//! A small engine for turn-based, cell-grid terminal games, and a
//! tic-tac-toe built on it.
//!
//! The engine paces frames, delivers input events to a game in arrival
//! order and picks box-drawing glyphs for grid lines. Everything here works
//! on plain values; reading the terminal, writing to it and sleeping are left
//! to the program that links the library.
pub mod compositor;
pub mod text;
pub mod escape;
pub mod event;
pub mod board;
pub mod draw;
pub mod syncer;
pub mod terminalgame;
pub mod tictactoe;
pub mod game;
