//! Modules: the parts of which a bar is made.
pub mod fixed;
pub mod hypr;
pub mod prelude;
pub mod pulse;
pub mod tray;
