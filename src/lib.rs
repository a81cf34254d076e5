//! A bouncing-logo screen saver's logic: choosing the run mode from the command
//! line, the bounce physics, the recolouring policy, the input watch that ends the
//! interactive session, the preview's single-instance and embedding decisions, and
//! the settings file format.
use vstd::prelude::*;

pub mod bounce;
pub mod config;
pub mod digits;
pub mod hue;
pub mod icon;
pub mod idle;
pub mod launch;
pub mod picker;
pub mod preview;
pub mod session;
pub mod text;

verus! {

} // verus!
