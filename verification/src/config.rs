//! What the user may set.

use vstd::prelude::*;
use vstd::string::StringExecFns;

use crate::paths::PathStyle;

verus! {

#[derive(Debug, Clone, PartialEq, Eq)]
pub struct Config {
    /// Joins the title fields. tmux used `" | "`.
    pub separator: String,
    pub path_style: PathStyle,
    /// Rename tabs after their active pane's directory.
    pub rename_tabs: bool,
    /// Rename workspaces after their active pane's repo (and branch).
    pub rename_workspaces: bool,
}

/// A configuration in mathematical terms.
pub struct ConfigView {
    pub separator: Seq<char>,
    pub path_style: PathStyle,
    pub rename_tabs: bool,
    pub rename_workspaces: bool,
}

impl View for Config {
    type V = ConfigView;

    open spec fn view(&self) -> ConfigView {
        ConfigView {
            separator: self.separator@,
            path_style: self.path_style,
            rename_tabs: self.rename_tabs,
            rename_workspaces: self.rename_workspaces,
        }
    }
}

/// The keys of a `config.toml`, each absent where the file does not set it.
#[derive(Debug, Clone)]
pub struct ConfigFile {
    pub separator: Option<String>,
    pub path_style: Option<PathStyle>,
    pub rename_tabs: Option<bool>,
    pub rename_workspaces: Option<bool>,
}

/// The configuration of a user who set nothing: the tmux format, with both
/// kinds of renaming on.
pub open spec fn default_config() -> ConfigView {
    ConfigView {
        separator: seq![' ', '|', ' '],
        path_style: PathStyle::Tilde,
        rename_tabs: true,
        rename_workspaces: true,
    }
}

/// What a file sets, and the defaults for the rest.
pub open spec fn configured(file: ConfigFile) -> ConfigView {
    ConfigView {
        separator: match file.separator {
            Some(separator) => separator@,
            None => default_config().separator,
        },
        path_style: match file.path_style {
            Some(style) => style,
            None => default_config().path_style,
        },
        rename_tabs: match file.rename_tabs {
            Some(on) => on,
            None => default_config().rename_tabs,
        },
        rename_workspaces: match file.rename_workspaces {
            Some(on) => on,
            None => default_config().rename_workspaces,
        },
    }
}

impl Default for Config {
    fn default() -> (config: Config)
        ensures
            config@ == default_config(),
    {
        proof {
            reveal_strlit(" | ");
            assert(" | "@ =~= seq![' ', '|', ' ']);
        }
        Config {
            separator: " | ".to_string(),
            path_style: PathStyle::Tilde,
            rename_tabs: true,
            rename_workspaces: true,
        }
    }
}

impl Config {
    /// The configuration that a `config.toml` asks for. `file` is what the TOML
    /// reader made of the text: the keys it found, or its complaint.
    pub fn parse(file: Result<ConfigFile, String>) -> (r: Result<Config, String>)
        ensures
            match file {
                Ok(file) => r matches Ok(config) && config@ == configured(file),
                Err(complaint) => r matches Err(message) && message@ == "invalid config.toml: "@
                    + complaint@,
            },
    {
        match file {
            Ok(file) => {
                let plain: Config = Config::default();
                Ok(
                    Config {
                        separator: match file.separator {
                            Some(separator) => separator,
                            None => plain.separator,
                        },
                        path_style: match file.path_style {
                            Some(style) => style,
                            None => plain.path_style,
                        },
                        rename_tabs: match file.rename_tabs {
                            Some(on) => on,
                            None => plain.rename_tabs,
                        },
                        rename_workspaces: match file.rename_workspaces {
                            Some(on) => on,
                            None => plain.rename_workspaces,
                        },
                    },
                )
            },
            Err(complaint) => {
                let mut message: String = "invalid config.toml: ".to_string();
                message.append(complaint.as_str());
                Err(message)
            },
        }
    }

    /// The configuration of a run: the defaults where there is no file that
    /// could be read, and what the file asks for otherwise.
    pub fn load(file: Option<Result<ConfigFile, String>>) -> (r: Result<Config, String>)
        ensures
            match file {
                None => r matches Ok(config) && config@ == default_config(),
                Some(Ok(file)) => r matches Ok(config) && config@ == configured(file),
                Some(Err(complaint)) => r matches Err(message) && message@
                    == "invalid config.toml: "@ + complaint@,
            },
    {
        match file {
            None => Ok(Config::default()),
            Some(file) => Config::parse(file),
        }
    }
}

/// Every key is optional: a file that sets none asks for the defaults.
pub proof fn an_empty_file_asks_for_the_defaults(file: ConfigFile)
    requires
        file.separator is None,
        file.path_style is None,
        file.rename_tabs is None,
        file.rename_workspaces is None,
    ensures
        configured(file) == default_config(),
{
}

/// What a file sets holds as it stands; for what it does not set, the title
/// fields are joined by ` | `, the path shows with a tilde, and both kinds of
/// renaming are on.
pub proof fn what_a_file_sets_holds(file: ConfigFile)
    ensures
        ({
            let config = configured(file);
            &&& config.separator == match file.separator {
                Some(separator) => separator@,
                None => seq![' ', '|', ' '],
            }
            &&& config.path_style == match file.path_style {
                Some(style) => style,
                None => PathStyle::Tilde,
            }
            &&& config.rename_tabs == (file.rename_tabs != Some(false))
            &&& config.rename_workspaces == (file.rename_workspaces != Some(false))
        }),
{
}

/// Without a file the title fields are joined by ` | `, the path shows with a
/// tilde, and both kinds of renaming are on.
pub proof fn the_defaults_in_words()
    ensures
        default_config().separator == seq![' ', '|', ' '],
        default_config().path_style == PathStyle::Tilde,
        default_config().rename_tabs,
        default_config().rename_workspaces,
{
}

} // verus!
