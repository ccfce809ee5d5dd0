//! Command-line arguments, as plain values. Paths are carried as strings.
use vstd::prelude::*;

use crate::paths::{paths_equal, same_path};

verus! {

/// The parsed command line.
pub struct Cli {
    /// Subcommand, if any; without one the project is unified.
    pub command: Option<Commands>,
    /// Output file path (overrides config).
    pub output: Option<String>,
    /// Path to the config file (`.unify.toml` unless given).
    pub config: String,
    /// Working directory.
    pub dir: Option<String>,
    /// Languages to apply presets for.
    pub language: Option<Vec<String>>,
    /// Maximum file size to include (e.g. "512KB", "2MB").
    pub max_size: Option<String>,
    /// Follow symbolic links.
    pub follow_symlinks: bool,
    /// Output format: plain, markdown, xml, json.
    pub format: Option<String>,
    /// Preview what would be unified without producing output.
    pub dry_run: bool,
    /// Specific directories/files to process.
    pub paths: Vec<String>,
}

/// Subcommands.
pub enum Commands {
    /// Initialize a new `.unify.toml` config file.
    Init {
        /// Programming languages.
        language: Option<Vec<String>>,
        /// Force overwrite of an existing config.
        force: bool,
        /// Initialize the global config instead of the project config.
        global: bool,
    },
    /// Manage language presets.
    Preset {
        action: PresetAction,
    },
    /// Show pattern syntax help.
    Help,
}

/// Preset subcommands.
pub enum PresetAction {
    /// List all available presets (built-in + custom).
    List,
    /// Show the contents of a preset.
    Show {
        name: String,
    },
    /// Export a built-in preset for customization.
    Export {
        name: String,
        force: bool,
    },
    /// Delete a custom preset, reverting to the built-in one.
    Reset {
        name: String,
    },
}

/// The config file name used when none is given.
pub open spec fn default_config_name() -> Seq<char> {
    ".unify.toml"@
}

/// Whether the command line names a config file other than the default one; such a file is
/// used as given instead of being searched for upward.
pub fn is_explicit_config(cli: &Cli) -> (r: bool)
    ensures
        r == !same_path(cli.config@, default_config_name()),
{
    !paths_equal(cli.config.as_str(), ".unify.toml")
}

} // verus!
