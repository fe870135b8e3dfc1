//! Duration totals, billing text and screenshot layout for a desktop tool that
//! sums the running time of audio files.

pub mod duration;
pub mod text;
pub mod casefold;
pub mod formats;
pub mod audio;
pub mod order;
pub mod listing;
pub mod app;
pub mod screenshot;
pub mod settings;
pub mod shell;
pub mod scan;
pub mod laws;
