//! The window around the sessions: what it shows and what its controls ask for.
pub mod app;
pub mod app_laws;
pub mod capture;
pub mod doubles;
pub mod friends;
pub mod hosting;
pub mod labels;
pub mod moments;
pub mod palette;
pub mod panel_laws;
pub mod report;
pub mod room_laws;
pub mod settings;
pub mod watching;
