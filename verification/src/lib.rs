//! Verified decision logic of a suite of X-Plane plugins: the Position
//! Aircraft window (PAD files, panel layout, PAD picker, pattern tab), the
//! Shuttle HUD display sequencing and controls, the power-off 180 test
//! plugins' lifecycle, and the landing-speed overlay settings.
use vstd::prelude::*;

pub mod arith;
pub mod commands;
pub mod layout;
pub mod lines;
pub mod numbers;
pub mod pad;
pub mod pad_file;
pub mod pad_list;
pub mod pattern;
pub mod position;
pub mod poweroff180_attitude;
pub mod poweroff180_controller;
pub mod poweroff180_hud;
pub mod shuttle;
pub mod shuttle_files;
pub mod text;
pub mod view;
pub mod xgs;
pub mod xgs_files;

verus! {

} // verus!
