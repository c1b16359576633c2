//! Command-line arguments.

use vstd::prelude::*;

verus! {

/// The repository path of a run that is given none.
pub const DEFAULT_REPO_PATH: &'static str = "./";

/// The copyright template of a run that is given none.
pub const DEFAULT_COPYRIGHT_TEMPLATE: &'static str =
    "Copyright {years} DummyCorp. All rights reserved.";

/// Check and update copyright of git repository.
#[derive(Debug)]
pub struct Args {
    /// Path to repository.
    pub repo_path: String,
    /// Template for the copyright, with `{years}` as placeholder.
    pub copyright_template: String,
    /// Path to the configuration file.
    pub config_path: Option<String>,
    /// Fail on changes.
    pub fail_on_changes: bool,
}

impl Default for Args {
    /// The arguments of a run that is given none: the current directory, the
    /// default template, the baseline configuration, and changes are no
    /// failure.
    fn default() -> (args: Args)
        ensures
            args.repo_path@ == DEFAULT_REPO_PATH@,
            args.copyright_template@ == DEFAULT_COPYRIGHT_TEMPLATE@,
            args.config_path is None,
            !args.fail_on_changes,
    {
        Args {
            repo_path: DEFAULT_REPO_PATH.to_owned(),
            copyright_template: DEFAULT_COPYRIGHT_TEMPLATE.to_owned(),
            config_path: None,
            fail_on_changes: false,
        }
    }
}

} // verus!
