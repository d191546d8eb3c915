//! Command-line support: the paired skip/no-skip flag groups and their
//! resolution, the subcommands, the logging help texts, and configuration
//! file discovery.

use vstd::prelude::*;
use vstd::string::*;
use crate::text::opt_str_view;

verus! {

/// The paired flags controlling whether rendered output is written.
#[derive(Debug, PartialEq, Eq, Structural)]
pub struct SkipWrite {
    pub skip_write: bool,
    pub no_skip_write: bool,
}

impl SkipWrite {
    /// The value the pair resolves to; the parser guarantees exactly one
    /// flag of the pair is given.
    pub fn resolve(&self) -> (r: bool)
        requires
            self.skip_write || self.no_skip_write,
        ensures
            r == self.skip_write,
    {
        self.skip_write
    }
}

/// The paired flags controlling whether private objects are skipped.
#[derive(Debug, PartialEq, Eq, Structural)]
pub struct SkipPrivate {
    pub skip_private: bool,
    pub no_skip_private: bool,
}

impl SkipPrivate {
    /// The value the pair resolves to.
    pub fn resolve(&self) -> (r: bool)
        requires
            self.skip_private || self.no_skip_private,
        ensures
            r == self.skip_private,
    {
        self.skip_private
    }
}

/// The paired flags controlling whether undocumented objects are skipped.
#[derive(Debug, PartialEq, Eq, Structural)]
pub struct SkipUndoc {
    pub skip_undoc: bool,
    pub no_skip_undoc: bool,
}

impl SkipUndoc {
    /// The value the pair resolves to.
    pub fn resolve(&self) -> (r: bool)
        requires
            self.skip_undoc || self.no_skip_undoc,
        ensures
            r == self.skip_undoc,
    {
        self.skip_undoc
    }
}

/// The subcommands of the command line.
#[derive(Debug)]
pub enum SubCommand {
    /// Interactively generate a new configuration.
    Init,
}

/// The logging verbosity interface: the help texts and the default level
/// the command line advertises.
pub struct CustomLogLevel {}

impl CustomLogLevel {
    pub fn quiet_help() -> (r: Option<&'static str>)
        ensures
            r matches Some(s) && s@ == "suppress all logging output"@,
    {
        Some("suppress all logging output")
    }

    pub fn quiet_long_help() -> (r: Option<&'static str>)
        ensures
            r matches Some(s) && s@
                == "Suppress the logging output of the application, including errors."@,
    {
        Some("Suppress the logging output of the application, including errors.")
    }

    pub fn verbose_help() -> (r: Option<&'static str>)
        ensures
            r matches Some(s) && s@
                == "Increase verbosity of the logging (can be specified multiple times)."@,
    {
        Some("Increase verbosity of the logging (can be specified multiple times).")
    }

    pub fn verbose_long_help() -> (r: Option<&'static str>)
        ensures
            r matches Some(s) && s@
                == "Increase the logging verbosity of the application by one level (ERROR, WARN, INFO, DEBUG, TRACE)"@,
    {
        Some(
            "Increase the logging verbosity of the application by one level (ERROR, WARN, INFO, DEBUG, TRACE)",
        )
    }
}

/// The configuration files considered, in order: the path given on the
/// command line, if any, then the project file, then the user's file.
pub open spec fn spec_config_candidates(arg: Option<Seq<char>>) -> Seq<Seq<char>> {
    let fixed = seq!["snakedown.toml"@, "$HOME/.config/snakedown/snakedown.toml"@];
    match arg {
        Some(p) => seq![p] + fixed,
        None => fixed,
    }
}

/// The configuration files considered, in order.
pub fn config_file_candidates(arg_config_path: Option<String>) -> (r: Vec<String>)
    ensures
        r.deep_view() == spec_config_candidates(opt_str_view(arg_config_path)),
{
    let mut candidates: Vec<String> = Vec::new();
    match arg_config_path {
        Some(p) => candidates.push(p),
        None => (),
    }
    candidates.push(String::from_str("snakedown.toml"));
    candidates.push(String::from_str("$HOME/.config/snakedown/snakedown.toml"));
    proof {
        assert forall|k: int|
            0 <= k < candidates@.len() implies #[trigger] candidates.deep_view()[k]
            == candidates@[k]@ by {}
        assert(candidates.deep_view() =~= spec_config_candidates(opt_str_view(arg_config_path)));
    }
    candidates
}

/// The configuration file discovered: the first candidate that the caller
/// reports as an existing file, where `is_file` answers for each candidate
/// in order.
pub fn discover_config_file(arg_config_path: Option<String>, is_file: &Vec<bool>) -> (r: Option<
    String,
>)
    requires
        is_file@.len() == spec_config_candidates(opt_str_view(arg_config_path)).len(),
    ensures
        match r {
            Some(p) => exists|i: int|
                {
                    &&& 0 <= i < is_file@.len()
                    &&& #[trigger] is_file@[i]
                    &&& p@ == spec_config_candidates(opt_str_view(arg_config_path))[i]
                    &&& forall|k: int| 0 <= k < i ==> !(#[trigger] is_file@[k])
                },
            None => forall|k: int| 0 <= k < is_file@.len() ==> !(#[trigger] is_file@[k]),
        },
{
    let candidates = config_file_candidates(crate::text::clone_opt_string(&arg_config_path));
    let mut i: usize = 0;
    while i < candidates.len()
        invariant
            i <= candidates@.len(),
            is_file@.len() == candidates@.len(),
            candidates.deep_view() == spec_config_candidates(opt_str_view(arg_config_path)),
            forall|k: int| 0 <= k < i ==> !(#[trigger] is_file@[k]),
        decreases candidates@.len() - i,
    {
        if is_file[i] {
            proof {
                assert(candidates.deep_view()[i as int] == candidates@[i as int]@);
            }
            let mut candidates = candidates;
            let p = candidates.remove(i);
            return Some(p);
        }
        i = i + 1;
    }
    None
}

} // verus!
