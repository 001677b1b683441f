//! The command-line surface: which mode the broker runs in and the two
//! optional arguments.

use vstd::prelude::*;

verus! {

/// The two ways the broker can run: a single interactive session on the
/// terminal, or a long-lived server behind the frontend socket.
#[derive(Debug, Clone, Copy, PartialEq, Eq, Structural)]
pub enum Mode {
    Cli,
    Server,
}

/// The parsed command line.
pub struct Cli {
    pub mode: Mode,
    pub socket_path: Option<String>,
    pub prompt: Option<String>,
}

impl Default for Mode {
    /// The broker runs interactively unless told otherwise.
    fn default() -> (r: Self)
        ensures
            r == Mode::Cli,
    {
        Mode::Cli
    }
}

} // verus!
