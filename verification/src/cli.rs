//! The command surface: which subcommands exist and what they carry.
//! Argument parsing itself happens outside the library; these types
//! describe the parsed result it hands over.

use vstd::prelude::*;

verus! {

/// A parsed invocation: the subcommand plus the global switches.
pub struct Cli {
    pub command: Commands,
    pub verbose: bool,
    pub no_ignore: bool,
}

/// The subcommands and their arguments.
pub enum Commands {
    Apply { project_path: String, environment: String, options: Vec<String> },
    Check { project_path: String, environment: String, options: Vec<String> },
    Diff { project_path: String, environment: String, options: Vec<String> },
    Plan { project_path: String, environment: String, options: Vec<String> },
    Delete { project_path: String, environment: String, options: Vec<String> },
    Destroy { project_path: String, environment: String, options: Vec<String> },
    Uninstall { project_path: String, environment: String, options: Vec<String> },
    Deps { project_path: String, environment: String, options: Vec<String> },
    Template { project_path: String, environment: String, options: Vec<String> },
    Output { project_path: String, environment: String, key: Option<String>, all: bool },
    List { project_path: String, environment: String, options: Vec<String> },
    Duplicate { project_path: String, source_env: String, target_env: String },
    Unlock { project_path: String, environment: String, lock_id: String },
    Show { project_path: String, environment: String },
    Completions { shell: Shell },
    Init { path: Option<String>, force: bool },
    CompleteEnv { project_path: String },
    CompleteOutputKey { project_path: String },
    Bump { project_path: String, include_prereleases: bool, recursive: bool },
    Drift {
        base_path: String,
        verbose: bool,
        tech: Option<String>,
        environments: Vec<String>,
        capture: bool,
        max_depth: usize,
    },
}

/// The shells completions can be generated for.
#[derive(Debug, Clone, Copy, PartialEq, Eq, Structural)]
pub enum Shell {
    Bash,
    Zsh,
}

impl Shell {
    /// The shell's lower-case name.
    pub fn as_str(&self) -> (r: &'static str)
        ensures
            self is Bash ==> r@ == "bash"@,
            self is Zsh ==> r@ == "zsh"@,
    {
        match self {
            Shell::Bash => "bash",
            Shell::Zsh => "zsh",
        }
    }
}

} // verus!
