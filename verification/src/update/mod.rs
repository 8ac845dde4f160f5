//! Updating: what a release is, how a check decides, the order an install
//! runs its checks in, and what the requests and the relaunch helper carry.
pub mod archive;
pub mod checker;
pub mod codesign;
pub mod http;
pub mod install;
pub mod release;
pub mod relaunch;
