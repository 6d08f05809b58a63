//! The rules behind a terminal dashboard for development projects: its configuration file, the
//! life cycle of the processes it starts, and what it shows.

pub mod clock;
pub mod config;
pub mod config_laws;
pub mod dashboard;
pub mod laws;
pub mod layout;
pub mod output;
pub mod output_laws;
pub mod paths;
pub mod process_laws;
pub mod processes;
pub mod project;
pub mod screen;
pub mod screen_laws;
pub mod session;
pub mod state_laws;
pub mod termination;
pub mod text;
pub mod text_laws;
pub mod view_laws;
