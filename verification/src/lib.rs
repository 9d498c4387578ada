//! Desktop regions: screen area that the host reserves for one hosted terminal
//! program, outside any tab's pane tree.

pub mod api;
pub mod app;
pub mod fields;
pub mod geometry;
pub mod ids;
pub mod laws;
pub mod open;
pub mod opening;
pub mod plugin;
pub mod promises;
pub mod region;
pub mod restore;
pub mod state;
pub mod text;
