//! What the page templates are given: the per-page context and the menu.

pub mod context;
pub mod menu;


pub use menu::{EntryFn, MenuEntry, MenuFn};
