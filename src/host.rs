//! Choices that depend on the user's settings: shell, editor, and where the tool keeps its
//! configuration, log and repository.
use vstd::prelude::*;

use crate::paths::{joined, path_join};

verus! {

/// The shell used when the user has not set one.
pub const DEFAULT_SHELL: &'static str = "bash";

/// The editor used when the user has set none.
pub const DEFAULT_EDITOR: &'static str = "vi";

/// The shell to run commands with: the user's `SHELL` setting, else `bash`.
pub fn user_shell(shell_setting: Option<String>) -> (r: String)
    ensures
        match shell_setting {
            Some(s) => r@ == s@,
            None => r@ == "bash"@,
        },
{
    match shell_setting {
        Some(s) => s,
        None => String::from_str(DEFAULT_SHELL),
    }
}

/// The editor chosen from the `VISUAL` and `EDITOR` settings.
pub open spec fn editor_choice(visual: Option<String>, editor: Option<String>) -> Seq<char> {
    match (visual, editor) {
        (Some(v), _) => v@,
        (None, Some(e)) => e@,
        (None, None) => "vi"@,
    }
}

/// The editor to use: `VISUAL` if set, else `EDITOR` if set, else `vi`.
pub fn user_editor(visual: Option<String>, editor: Option<String>) -> (r: String)
    ensures
        r@ == editor_choice(visual, editor),
{
    match (visual, editor) {
        (Some(v), _) => v,
        (None, Some(e)) => e,
        (None, None) => String::from_str(DEFAULT_EDITOR),
    }
}

/// A command-line editor.
#[derive(Debug)]
pub struct SystemEditor {
    command: String,
}

impl SystemEditor {
    /// The editor chosen as `user_editor` chooses it.
    pub fn from_settings(visual: Option<String>, editor: Option<String>) -> (r: SystemEditor)
        ensures
            r.command_text() == editor_choice(visual, editor),
    {
        SystemEditor { command: user_editor(visual, editor) }
    }

    pub closed spec fn command_text(&self) -> Seq<char> {
        self.command@
    }

    /// The editor command.
    pub fn command(&self) -> (r: &String)
        ensures
            r@ == self.command_text(),
    {
        &self.command
    }
}

/// The file that holds the installer registry, in the configuration directory.
pub const INSTALLER_CONFIG_FILE: &'static str = "installers.yml";

/// The install history log, in the log directory.
pub const USER_LOG_FILE: &'static str = "install-log.sql";

/// The repository directory, in the data directory.
pub const USER_REPOSITORY_DIR: &'static str = "repository";

/// The file that makes a subdirectory of a group a package set.
pub const PACKAGE_SET_FILE: &'static str = "package-set.yml";

/// Where the tool keeps its configuration, its log and its repository.
#[derive(Debug)]
pub struct Environment {
    config: String,
    log: String,
    repository: String,
}

impl Environment {
    pub closed spec fn config_text(&self) -> Seq<char> {
        self.config@
    }

    pub closed spec fn log_text(&self) -> Seq<char> {
        self.log@
    }

    pub closed spec fn repository_text(&self) -> Seq<char> {
        self.repository@
    }

    /// The locations under `base` (the working directory, against which relative roots are
    /// taken): configuration in `config_root`, log in `log_root`, and the repository in
    /// `data_root`'s `repository` directory.
    pub fn with_roots(base: &str, config_root: &str, log_root: &str, data_root: &str) -> (r: Self)
        ensures
            r.config_text() == joined(base@, config_root@),
            r.log_text() == joined(base@, log_root@),
            r.repository_text() == joined(joined(base@, data_root@), "repository"@),
    {
        let data = path_join(base, data_root);
        Environment {
            config: path_join(base, config_root),
            log: path_join(base, log_root),
            repository: path_join(data.as_str(), USER_REPOSITORY_DIR),
        }
    }

    /// The configuration directory.
    pub fn config_path(&self) -> (r: &String)
        ensures
            r@ == self.config_text(),
    {
        &self.config
    }

    /// The repository directory.
    pub fn repository_path(&self) -> (r: &String)
        ensures
            r@ == self.repository_text(),
    {
        &self.repository
    }

    /// The installer registry file.
    pub fn installer_file_path(&self) -> (r: String)
        ensures
            r@ == joined(self.config_text(), "installers.yml"@),
    {
        path_join(self.config.as_str(), INSTALLER_CONFIG_FILE)
    }

    /// The install history log file.
    pub fn log_file_path(&self) -> (r: String)
        ensures
            r@ == joined(self.log_text(), "install-log.sql"@),
    {
        path_join(self.log.as_str(), USER_LOG_FILE)
    }

    /// The tool is initialized when both its configuration and repository directories exist.
    pub fn is_initialized(config_is_dir: bool, repository_is_dir: bool) -> (r: bool)
        ensures
            r == (config_is_dir && repository_is_dir),
    {
        config_is_dir && repository_is_dir
    }
}

/// Whether a file name has the extension `yml`: it ends in `.yml` after a non-empty stem.
pub open spec fn is_yaml_name(s: Seq<char>) -> bool {
    s.len() > 4 && s.subrange(s.len() - 4, s.len() as int) == ".yml"@
}

/// How a group directory entry holds a package set, if it does.
#[derive(Debug, PartialEq, Eq, Structural, Clone, Copy)]
pub enum SetEntry {
    /// The entry is itself a package-set file.
    File,
    /// The entry is a directory whose `package-set.yml` is the package-set file.
    Directory,
    /// The entry holds no package set.
    Ignored,
}

/// Classifies an entry of a group directory: a `.yml` file is a package set; a directory
/// is one when it holds a `package-set.yml` file; anything else is ignored.
pub fn classify_group_entry(
    file_name: &str,
    is_file: bool,
    is_dir: bool,
    has_set_file: bool,
) -> (r: SetEntry)
    ensures
        r == (if is_file && is_yaml_name(file_name@) {
            SetEntry::File
        } else if !is_file && is_dir && has_set_file {
            SetEntry::Directory
        } else {
            SetEntry::Ignored
        }),
{
    let n = file_name.unicode_len();
    let yaml = n > 4 && crate::strmap::text_eq(file_name.substring_char(n - 4, n), ".yml");
    proof {
        reveal_strlit(".yml");
    }
    if is_file && yaml {
        SetEntry::File
    } else if !is_file && is_dir && has_set_file {
        SetEntry::Directory
    } else {
        SetEntry::Ignored
    }
}

} // verus!
