//! A virtual file system: a layer of pending additions and subtractions kept
//! over a real file system, the events that produce them, and the atomic
//! operations through which they are applied.

pub mod atomic;
pub mod capability;
pub mod command;
pub mod container;
pub mod errors;
pub mod event;
pub mod kind;
pub mod laws;
pub mod message;
pub mod operation;
pub mod path;
pub mod port;
pub mod disk;
pub mod representation;
pub mod shell;
pub mod tui;
pub mod virt;
pub mod walks;

use vstd::prelude::*;

verus! {

} // verus!
