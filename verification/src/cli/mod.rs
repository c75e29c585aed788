//! The command line: what each command of the tool does with the vault.
//! Reading the arguments, touching files and printing is left to the caller.
pub mod config_cmd;
pub mod note;
pub mod search;
pub mod task;
pub mod version;

use vstd::prelude::*;

verus! {

/// The commands of the tool.
pub enum Commands {
    Note(note::NoteCommand),
    Task(task::TaskCommand),
    Search(search::SearchCommand),
    Config(config_cmd::ConfigCommand),
    /// Display version information.
    Version(version::VersionCommand),
}

/// One call of the tool.
pub struct Cli {
    pub command: Commands,
}

/// A command together with what it needs before it can run.
pub enum Invocation {
    /// The command runs as it is.
    Plain(version::VersionCommand),
    /// The command runs on the vault: the configuration is loaded first.
    OnVault(Commands),
}

/// Decides how a call runs: the version is shown without the vault, every
/// other command loads the configuration first.
pub fn run(cli: Cli) -> (r: Invocation)
    ensures
        match cli.command {
            Commands::Version(v) => r == Invocation::Plain(v),
            other => r == Invocation::OnVault(other),
        },
{
    match cli.command {
        Commands::Version(v) => Invocation::Plain(v),
        other => Invocation::OnVault(other),
    }
}

} // verus!
