//! Logic of a terminal resource monitor: the process table with its
//! filter, ordering and selection, the key-driven interface state, the
//! command line, and the text the screens show.

pub mod app;
pub mod cli;
pub mod history;
pub mod laws;
pub mod process;
pub mod system;
pub mod text;
pub mod view;
