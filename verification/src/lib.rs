//! Keeps the piece sprites of a scene in step with a board game.
//!
//! A redraw removes every entity that is tagged as a piece and creates one entity for each piece
//! of the game. [`draw::draw_pieces`] asks for these changes in a queue of [`commands`], which a
//! [`scene::Scene`] makes later, all at once. [`sheet`] maps a piece to its cell of the sprite
//! sheet, [`layout`] maps its board cell to a place on screen, and [`laws`] states what holds of
//! a scene after it has been cleared or redrawn.

pub mod commands;
pub mod components;
pub mod draw;
pub mod game;
pub mod laws;
pub mod layout;
pub mod scene;
pub mod sheet;
