//! The rules behind a live terminal view of `ccache -s`: how its output is read, how the rolling
//! window of samples is kept, what the panels show and where they stand, and how the event loop and
//! the background poller go on. Drawing and running commands are left to the program around it.

pub mod ccache;
pub mod decimal;
pub mod digits;
pub mod format;
pub mod history;
pub mod history_laws;
pub mod layout;
pub mod monitor;
pub mod number_laws;
pub mod poller;
pub mod rate;
pub mod reading_laws;
pub mod report_laws;
pub mod screen;
pub mod screen_laws;
pub mod settings;
pub mod stats;
pub mod stats_laws;
pub mod text;
pub mod text_laws;
pub mod theme;
pub mod window_laws;
