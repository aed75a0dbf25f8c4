//! The command line of the terminal as plain data: global options and the
//! subcommands. Parsing the arguments belongs to the program around the
//! library.

use vstd::prelude::*;

verus! {

/// The renderer a window uses.
#[derive(Debug, Clone, Copy, PartialEq, Eq, Structural)]
pub enum Backend {
    Cpu,
    Gpu,
}

/// The global options and the subcommand, if any.
#[derive(Debug, Clone)]
pub struct Cli {
    /// The configuration file to read instead of the default one.
    pub config: Option<String>,
    /// The renderer to use.
    pub backend: Option<Backend>,
    /// Run a window host of its own instead of reusing a running one.
    pub standalone: bool,
    /// A shell command to run in the initial window instead of an
    /// interactive login shell.
    pub startup_command: Option<String>,
    pub command: Option<Command>,
}

/// The subcommands.
#[derive(Debug, Clone)]
pub enum Command {
    /// Print the active style and runtime defaults.
    PrintConfig,
    /// Generate the default config file if missing.
    InitConfig,
    /// Run quick local performance benchmarks.
    Bench,
    /// Render a LaTeX math expression.
    Latex { expression: String },
    /// Ask a running host to open another window.
    OpenWindow { to: Option<String>, cols: Option<u16>, rows: Option<u16> },
    /// Send a command with JSON arguments to a running instance.
    Remote { to: Option<String>, cmd: String, args: String },
}

} // verus!
