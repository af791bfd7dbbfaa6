//! An interactive terminal kanban board: a fixed 80 x 24 character grid,
//! box and partition drawing primitives, a character-wrapping text layout,
//! the three-lane board rendered from those pieces, and the Normal/Add
//! interaction state machine that applies keystrokes to the selection and
//! the task lists.
//!
//! Every drawing function states the exact grid it produces; the state
//! machine states the exact state and board after each keystroke. Reading
//! keys, persisting the board and talking to the terminal are left to the
//! surrounding program.

pub mod controller;
pub mod db;
pub mod grid;
pub mod render;
pub mod ui;
