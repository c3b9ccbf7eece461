//! Core engine of a tiling window manager.
//!
//! The library tracks managed windows (clients), arranges them into named
//! workspaces shown on physical screens, computes on-screen geometry through
//! a small set of layout algorithms, and turns input chords and display-server
//! notifications into state changes plus a list of display commands. All
//! actual I/O (the display-server connection, process spawning, logging) lives
//! outside the library; the engine is a pure state machine over plain values.

use vstd::prelude::*;

pub mod actions;
pub mod clients;
pub mod config;
pub mod events;
pub mod geometry;
pub mod layout;
pub mod manager;
pub mod workspace;

verus! {

/// A hook payload naming a shell script to run when the manager starts.
/// The engine only carries the path; running the script is the caller's job.
pub struct StartupScript {
    path: String,
}

impl StartupScript {
    pub closed spec fn view(&self) -> Seq<char> {
        self.path@
    }

    pub fn new(s: String) -> (r: Self)
        ensures
            r@ == s@,
    {
        Self { path: s }
    }

    /// The script path this hook will run.
    pub fn path(&self) -> (r: &String)
        ensures
            r@ == self@,
    {
        &self.path
    }
}

} // verus!
