//! Keeps a kanban board's cards in step with a course's assignments.
//!
//! The board is read once as a snapshot, each assignment is normalised into the
//! values a card should carry, the cards that track it are found, and a plan of
//! card mutations is decided. Carrying the plan out over the network is left to
//! the caller.
pub mod canvas;
pub mod config;
pub mod laws;
pub mod markup;
pub mod sync;
pub mod timestamp;
pub mod trello;
