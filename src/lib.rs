//! Control and acquisition core of an X-ray flat-panel detector viewer: frames and their
//! corrections, signal-to-noise statistics, the capture-run and protocol state machines, and
//! the capture manager that runs one capture at a time.

use vstd::prelude::*;

pub mod appdata;
pub mod capture;
pub mod correction;
pub mod display;
pub mod files;
pub mod filters;
pub mod image;
pub mod manager;
pub mod protocols;
pub mod session;
pub mod stats;
pub mod types;
pub mod utils;

verus! {

} // verus!
