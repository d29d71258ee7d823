//! The command-line surface as plain data: the three subcommands and their
//! options. Argument parsing itself lives outside the library.

use vstd::prelude::*;

verus! {

/// Options of `init`: scaffold a new project directory.
pub struct InitOpts {}

/// Options of `build`: bundle the project in the current directory.
pub struct BuildOpts {}

/// Options of `run`: build, serve and watch; `port` is where to listen.
pub struct RunOpts {
    pub port: u16,
}

impl Default for RunOpts {
    /// The default port to listen on is 3000.
    fn default() -> (r: RunOpts)
        ensures
            r.port == 3000,
    {
        RunOpts { port: 3000 }
    }
}

/// The chosen subcommand.
pub enum SubCommand {
    Init(InitOpts),
    Build(BuildOpts),
    Run(RunOpts),
}

/// The whole parsed command line.
pub struct Opts {
    pub cmd: SubCommand,
}

} // verus!
