//! A stack of game states and the per-frame protocol that drives the top one.

pub mod vector;
pub mod event;
pub mod draw;
pub mod state;
pub mod stack;
pub mod playing;
pub mod frame;
pub mod main_loop;
