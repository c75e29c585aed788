//! The configuration of the tool: where the vault lies, where its templates
//! are kept and how searching is done. Paths are texts; finding, reading and
//! writing the configuration file is left to the caller.
use vstd::prelude::*;

verus! {

/// The name of the directory, under the home directory, that holds the
/// configuration file and the default vault.
pub const ROOT_DIR_NAME: &'static str = ".obsctl";

/// The name of the configuration file.
pub const CONFIG_FILE_NAME: &'static str = "config.toml";

/// The name of the default vault directory.
pub const VAULT_DIR_NAME: &'static str = "vault";

/// What a fresh task ledger holds where no template is used.
pub const EMPTY_LEDGER: &'static str = "# Tasks\n\n";

/// Where the vault lies.
pub struct VaultConfig {
    pub path: String,
}

/// Where the templates are kept.
pub struct TemplateConfig {
    pub daily: String,
    pub task: String,
}

/// How searching is done.
pub struct SearchConfig {
    pub tool: String,
    pub fzf_preview: bool,
}

/// What the configuration file holds.
pub struct AppConfig {
    pub vault: VaultConfig,
    pub templates: TemplateConfig,
    pub search: SearchConfig,
}

/// What a configuration holds, as plain text.
pub struct ConfigView {
    pub vault_path: Seq<char>,
    pub daily: Seq<char>,
    pub task: Seq<char>,
    pub tool: Seq<char>,
    pub fzf_preview: bool,
}

impl View for AppConfig {
    type V = ConfigView;

    open spec fn view(&self) -> ConfigView {
        ConfigView {
            vault_path: self.vault.path@,
            daily: self.templates.daily@,
            task: self.templates.task@,
            tool: self.search.tool@,
            fzf_preview: self.search.fzf_preview,
        }
    }
}

/// Why the configuration could not be found.
#[derive(Clone, Copy, PartialEq, Eq, Structural, Debug)]
pub enum ConfigError {
    /// Neither `HOME` nor `USERPROFILE` names a home directory.
    NoHomeDirectory,
}

impl ConfigError {
    /// What the error says, for the user.
    pub fn message(&self) -> (m: String)
        ensures
            m@ == "unable to locate home directory for obsctl config"@,
    {
        "unable to locate home directory for obsctl config".to_owned()
    }
}

impl AppConfig {
    /// The configuration of a new vault at `vault_root`, whose templates are
    /// kept in the given files: searching is done with ripgrep, with a preview.
    pub fn new(vault_root: &str, daily_template: &str, task_template: &str) -> (c: AppConfig)
        ensures
            c@ == (ConfigView {
                vault_path: vault_root@,
                daily: daily_template@,
                task: task_template@,
                tool: "ripgrep"@,
                fzf_preview: true,
            }),
    {
        AppConfig {
            vault: VaultConfig { path: vault_root.to_owned() },
            templates: TemplateConfig {
                daily: daily_template.to_owned(),
                task: task_template.to_owned(),
            },
            search: SearchConfig { tool: "ripgrep".to_owned(), fzf_preview: true },
        }
    }

    /// This configuration with the vault at another place.
    pub fn with_vault_path(self, path: &str) -> (c: AppConfig)
        ensures
            c@ == (ConfigView { vault_path: path@, ..self@ }),
    {
        AppConfig {
            vault: VaultConfig { path: path.to_owned() },
            templates: self.templates,
            search: self.search,
        }
    }
}

/// The loaded configuration together with the places it came from.
pub struct AppContext {
    config_path: String,
    config: AppConfig,
    vault_root: String,
}

impl AppContext {
    /// The path of the configuration file.
    pub closed spec fn spec_config_file(&self) -> Seq<char> {
        self.config_path@
    }

    /// The configuration.
    pub closed spec fn spec_config(&self) -> ConfigView {
        self.config@
    }

    /// The root directory of the vault.
    pub closed spec fn spec_vault_root(&self) -> Seq<char> {
        self.vault_root@
    }

    /// The context of a configuration that was loaded from `config_path`: the
    /// vault root is the vault path of the configuration.
    pub fn load(config_path: String, config: AppConfig) -> (ctx: AppContext)
        ensures
            ctx.spec_config_file() == config_path@,
            ctx.spec_config() == config@,
            ctx.spec_vault_root() == config@.vault_path,
    {
        let vault_root = config.vault.path.clone();
        AppContext { config_path, config, vault_root }
    }

    /// The configuration.
    pub fn config(&self) -> (c: &AppConfig)
        ensures
            c@ == self.spec_config(),
    {
        &self.config
    }

    /// The path of the configuration file.
    pub fn config_file(&self) -> (p: &str)
        ensures
            p@ == self.spec_config_file(),
    {
        self.config_path.as_str()
    }

    /// The root directory of the vault.
    pub fn vault_root(&self) -> (p: &str)
        ensures
            p@ == self.spec_vault_root(),
    {
        self.vault_root.as_str()
    }
}

/// What the set-up of the configuration comes to.
pub struct Initialized {
    /// The configuration that holds afterwards.
    pub config: AppConfig,
    /// Whether the configuration file has to be written.
    pub save: bool,
}

/// The configuration after the set-up: an existing one stays, with the vault
/// path replaced where one is given; without an existing one the fresh one
/// is taken, with the given vault path where one is given.
pub open spec fn initialized_view(
    existing: Option<AppConfig>,
    explicit_vault: Option<Seq<char>>,
    fresh: AppConfig,
) -> ConfigView {
    let base = match existing {
        Some(c) => c@,
        None => fresh@,
    };
    match explicit_vault {
        Some(path) => ConfigView { vault_path: path, ..base },
        None => base,
    }
}

/// The text of an optional string slice.
pub open spec fn opt_text(s: Option<&str>) -> Option<Seq<char>> {
    match s {
        Some(t) => Some(t@),
        None => None,
    }
}

/// The keeper of the configuration file.
pub struct ConfigManager {
    path: String,
}

impl ConfigManager {
    /// The path of the configuration file.
    pub closed spec fn spec_path(&self) -> Seq<char> {
        self.path@
    }

    /// The keeper of the configuration file at `path`.
    pub fn new(path: String) -> (m: ConfigManager)
        ensures
            m.spec_path() == path@,
    {
        ConfigManager { path }
    }

    /// The path of the configuration file.
    pub fn path(&self) -> (p: &str)
        ensures
            p@ == self.spec_path(),
    {
        self.path.as_str()
    }

    /// Sets the configuration up: decides which configuration holds
    /// afterwards and whether it has to be written. `existing` is what the
    /// configuration file holds, `fresh` the configuration of a new vault.
    /// The file is written unless it exists and no vault path is given.
    pub fn ensure_initialized(
        &self,
        existing: Option<AppConfig>,
        explicit_vault: Option<&str>,
        fresh: AppConfig,
    ) -> (r: Initialized)
        ensures
            r.config@ == initialized_view(existing, opt_text(explicit_vault), fresh),
            r.save == (existing is None || explicit_vault is Some),
    {
        let save = existing.is_none() || explicit_vault.is_some();
        let base = match existing {
            Some(c) => c,
            None => fresh,
        };
        let config = match explicit_vault {
            Some(path) => base.with_vault_path(path),
            None => base,
        };
        Initialized { config, save }
    }

    /// The configuration with the vault moved to `new_path`.
    pub fn update_vault_path(&self, config: AppConfig, new_path: &str) -> (c: AppConfig)
        ensures
            c@ == (ConfigView { vault_path: new_path@, ..config@ }),
    {
        config.with_vault_path(new_path)
    }

    /// The directories that a vault holds, by name.
    pub fn ensure_directories() -> (dirs: Vec<&'static str>)
        ensures
            dirs@.len() == 4,
            dirs@[0]@ == "Journal"@,
            dirs@[1]@ == "Tasks"@,
            dirs@[2]@ == "Projects"@,
            dirs@[3]@ == "templates"@,
    {
        let mut dirs: Vec<&'static str> = Vec::new();
        dirs.push("Journal");
        dirs.push("Tasks");
        dirs.push("Projects");
        dirs.push("templates");
        dirs
    }
}

/// The home directory under which the configuration lies: what `HOME` names,
/// else what `USERPROFILE` names.
pub fn default_root_dir(home: Option<String>, profile: Option<String>) -> (r: Result<
    String,
    ConfigError,
>)
    ensures
        match (home, profile) {
            (Some(h), _) => r matches Ok(d) && d@ == h@,
            (None, Some(p)) => r matches Ok(d) && d@ == p@,
            (None, None) => r == Err::<String, ConfigError>(ConfigError::NoHomeDirectory),
        },
{
    match home {
        Some(h) => Ok(h),
        None => match profile {
            Some(p) => Ok(p),
            None => Err(ConfigError::NoHomeDirectory),
        },
    }
}

/// The steps from the home directory to the configuration file.
pub fn default_config_path() -> (steps: Vec<&'static str>)
    ensures
        steps@.len() == 2,
        steps@[0]@ == ROOT_DIR_NAME@,
        steps@[1]@ == CONFIG_FILE_NAME@,
{
    let mut steps: Vec<&'static str> = Vec::new();
    steps.push(ROOT_DIR_NAME);
    steps.push(CONFIG_FILE_NAME);
    steps
}

/// The steps from the home directory to the default vault.
pub fn default_vault_path() -> (steps: Vec<&'static str>)
    ensures
        steps@.len() == 2,
        steps@[0]@ == ROOT_DIR_NAME@,
        steps@[1]@ == VAULT_DIR_NAME@,
{
    let mut steps: Vec<&'static str> = Vec::new();
    steps.push(ROOT_DIR_NAME);
    steps.push(VAULT_DIR_NAME);
    steps
}

} // verus!
