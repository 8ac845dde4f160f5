//! vitals: an Apple Silicon system monitor's decisions, verified.
//!
//! The sampling of the machine, the files, the network and the windowing
//! system are the program's; this library is what they feed: the pressure
//! verdict and its rules, the process rankings, the sampling cadence, the
//! trend baseline, the dashboard server's routing and `Host` check, the
//! updater's release parsing, checks and install order, and what the menu
//! bar item shows.
pub mod cadence;
pub mod cli;
pub mod history;
pub mod json;
pub mod pressure;
pub mod procs;
pub mod ring;
pub mod schema;
pub mod serve;
pub mod sysctl;
pub mod text;
pub mod thermal;
pub mod tray;
pub mod update;
pub mod window;
