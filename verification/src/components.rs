//! The state of the interactive front: which tab is active, which database
//! is selected, and what a key does to either. Drawing is left to the
//! program that shows them.

pub mod database_selection;
pub mod events;
pub mod menu;
