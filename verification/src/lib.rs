//! A client-side implementation of the Wayland wire protocol: binary message
//! framing, object identifier management, an interface registry, per-interface
//! protocol state machines, a shared-memory pool model and a single-threaded
//! event loop that drains events, dispatches them to object handlers and
//! applies the resulting actions.
//!
//! The crate holds the protocol logic only; the process edges (the Unix
//! socket, memory mapping, ioctls) live with the embedding application, which
//! hands this library plain bytes and file-descriptor numbers.

use vstd::prelude::*;

pub mod bytes;
pub mod errors;
pub mod kind;
pub mod wire;
pub mod drm;
pub mod objects;
pub mod callback;
pub mod registry;
pub mod shm;
pub mod surface;
pub mod buffer;
pub mod display;
pub mod compositor;
pub mod xdgshell;
pub mod dmabuf;
pub mod ids;
pub mod god;
pub mod facade;

verus! {

/// Verbosity classes for the debug messages that handlers emit.
#[derive(Clone, Copy, Debug, PartialEq, Eq, Structural)]
pub enum DebugLevel {
    Off,
    Error,
    Important,
    Trivial,
    Verbose,
    SuperVerbose,
}

impl DebugLevel {
    /// Numeric rank of the level; messages print when the configured rank is
    /// at least the message's rank.
    pub fn as_level(&self) -> (r: isize)
        ensures
            r == self.spec_level(),
    {
        match self {
            DebugLevel::Off => 0,
            DebugLevel::Error => 1,
            DebugLevel::Important => 2,
            DebugLevel::Trivial => 3,
            DebugLevel::Verbose => 4,
            DebugLevel::SuperVerbose => 5,
        }
    }

    pub open spec fn spec_level(&self) -> isize {
        match self {
            DebugLevel::Off => 0,
            DebugLevel::Error => 1,
            DebugLevel::Important => 2,
            DebugLevel::Trivial => 3,
            DebugLevel::Verbose => 4,
            DebugLevel::SuperVerbose => 5,
        }
    }
}

/// Initialize-once logging configuration; `level` is `None` when the
/// embedding application never set a verbosity.
pub struct LogConfig {
    pub level: Option<isize>,
}

/// The effective debug verbosity: the configured level, or 0 when none was
/// ever set.
pub fn get_dbug(cfg: &LogConfig) -> (r: isize)
    ensures
        r == match cfg.level {
            Option::Some(l) => l,
            Option::None => 0,
        },
{
    match cfg.level {
        Option::Some(l) => l,
        Option::None => 0,
    }
}

} // verus!
