//! Application state that outlives a request: restart requests, cached
//! state, free disk space.

pub mod cache;
pub mod free_space;
pub mod restart;
