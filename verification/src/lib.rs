//! Showing phones on a computer and controlling them from there.
//!
//! An iPhone sends its picture over AirPlay and takes input over Bluetooth or, through a test
//! runner on the phone, over USB. An Android phone does both over its debug bridge. This crate
//! decides: it reads what tools and phones say, keeps the state of every session, and says what
//! is to be run, sent or shown next. The program around it does what it is told and hands back
//! what came of it.
//!
//! - [`integrations`]: the ways to phones, one module for each, and the reports about them;
//! - [`session`]: the session of one phone, and all of them together;
//! - [`commands`]: what the window of the program can ask for;
//! - [`json`], [`text`] and [`seqs`]: what the others are written with.
use vstd::prelude::*;

pub mod commands;
pub mod integrations;
pub mod json;
pub mod seqs;
pub mod session;
pub mod text;

verus! {

/// The name of the program, as it is shown.
pub const APP_NAME: &'static str = "快投屏";

} // verus!
