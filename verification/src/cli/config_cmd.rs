//! The configuration commands: set the vault up, show or move it.
use vstd::prelude::*;
use crate::codec::text_view;
use crate::config::AppContext;

verus! {

/// The configuration commands.
pub enum ConfigCommand {
    /// Initialize the vault layout and default config.
    Init(ConfigInitArgs),
    /// Show or update the configured vault path.
    Path(ConfigPathArgs),
}

/// The arguments of `config init`.
pub struct ConfigInitArgs {
    /// Optional explicit vault directory path.
    pub vault: Option<String>,
}

/// The arguments of `config path`.
pub struct ConfigPathArgs {
    /// Update the vault path to the provided location.
    pub set: Option<String>,
}

/// What a configuration command asks for.
pub enum ConfigPlan {
    /// Set the configuration up, with the vault at the given place where one
    /// is given, and report where the vault lies.
    Initialize { vault: Option<String> },
    /// Move the vault to the given place and print the line.
    MoveVault { path: String, line: String },
    /// Print the line: the place of the vault.
    Show { line: String },
}

/// Decides what a configuration command asks for.
pub fn handle(cmd: ConfigCommand, ctx: &AppContext) -> (plan: ConfigPlan)
    ensures
        match cmd {
            ConfigCommand::Init(args) => plan matches ConfigPlan::Initialize { vault }
                && text_view(vault) == text_view(args.vault),
            ConfigCommand::Path(args) => match args.set {
                Some(target) => plan matches ConfigPlan::MoveVault { path, line } && path@
                    == target@ && line@ == "Updated vault path to "@ + target@,
                None => plan matches ConfigPlan::Show { line } && line@
                    == ctx.spec_vault_root(),
            },
        },
{
    match cmd {
        ConfigCommand::Init(args) => ConfigPlan::Initialize { vault: args.vault },
        ConfigCommand::Path(args) => match args.set {
            Some(target) => {
                let mut line = "Updated vault path to ".to_owned();
                line.append(target.as_str());
                ConfigPlan::MoveVault { path: target, line }
            },
            None => ConfigPlan::Show { line: ctx.vault_root().to_owned() },
        },
    }
}

/// What `init` reports: where the vault lies.
pub fn initialized_line(vault: &str) -> (line: String)
    ensures
        line@ == "Vault initialized at "@ + vault@,
{
    let mut line = "Vault initialized at ".to_owned();
    line.append(vault);
    line
}

} // verus!
