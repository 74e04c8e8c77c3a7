//! Icon lookup over freedesktop icon themes.
//!
//! Themes are indexed once, from directory listings handed in by the caller;
//! every later lookup walks the in-memory index only.

pub mod directory;
pub mod err;
pub mod ini;
pub mod table;
pub mod paths;
pub mod listing;
pub mod theme;
pub mod rank;
pub mod lookup;
pub mod loader;
pub mod roots;
