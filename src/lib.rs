//! A synchronisation engine for a live view of a host's audio output devices.
//!
//! The engine keeps a dictionary of the active output devices, ordered by
//! identifier, and serializes every change to it: UI commands and rebuilds
//! after OS notifications. The native audio subsystem is reached by the
//! caller; the engine decides what to ask of it and records the answer.
//!
//! - [`coordinator`]: the command state machine, rebuilds and snapshots;
//! - [`dictionary`]: the ordered device dictionary;
//! - [`debounce`]: coalescing of notification bursts;
//! - [`teardown`]: the order in which native resources are released;
//! - [`bridge`]: registration tokens;
//! - [`ordering`], [`level`], [`notification`], [`error`]: the vocabulary.
use vstd::prelude::*;

pub mod bridge;
pub mod coordinator;
pub mod debounce;
pub mod dictionary;
pub mod error;
pub mod level;
pub mod notification;
pub mod ordering;
pub mod teardown;

verus! {

} // verus!
