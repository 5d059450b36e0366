//! Verified core of TorrentManager: the rules that decide how uploads,
//! collections, redirects and series names are interpreted.

pub mod text;
pub mod order;
pub mod series;
pub mod guards;
pub mod paths;
pub mod writable_dir;
pub mod read_dir;
pub mod database;
pub mod state;
pub mod utils;
pub mod templating;
pub mod upload;
pub mod config;
pub mod timing;
pub mod progress;
