//! Command-line arguments of the engine.

use crate::text::{joined, same_text};
use vstd::prelude::*;

verus! {

/// Why command-line arguments are refused.
#[derive(Debug)]
pub enum CliError {
    MissingConfigValue,
    UnknownArgument(String),
}

/// The content of a [`CliError`].
pub enum CliFault {
    MissingConfigValue,
    UnknownArgument(Seq<char>),
}

impl View for CliError {
    type V = CliFault;

    open spec fn view(&self) -> CliFault {
        match *self {
            CliError::MissingConfigValue => CliFault::MissingConfigValue,
            CliError::UnknownArgument(arg) => CliFault::UnknownArgument(arg@),
        }
    }
}

/// The text of a refusal.
pub open spec fn cli_fault_text(f: CliFault) -> Seq<char> {
    match f {
        CliFault::MissingConfigValue => "missing value for --config"@,
        CliFault::UnknownArgument(arg) => "unknown argument: "@ + arg,
    }
}

impl CliError {
    /// The error as text.
    pub fn text(&self) -> (r: String)
        ensures
            r@ == cli_fault_text(self@),
    {
        match self {
            CliError::MissingConfigValue => "missing value for --config".to_owned(),
            CliError::UnknownArgument(arg) => joined("unknown argument: ", arg.as_str()),
        }
    }
}

/// The command-line arguments of the engine.
#[derive(Debug)]
pub struct CliArgs {
    /// Where the configuration file is.
    pub config_path: String,
}

/// What arguments from a position on ask for: `--config` is followed by the path, the last
/// one counts, and nothing else is known. `found` is the path so far.
pub open spec fn asked_from(args: Seq<String>, at: int, found: Seq<char>) -> Result<
    Seq<char>,
    CliFault,
>
    decreases args.len() - at,
{
    if at >= args.len() {
        Ok(found)
    } else if args[at]@ != "--config"@ {
        Err(CliFault::UnknownArgument(args[at]@))
    } else if at + 1 >= args.len() {
        Err(CliFault::MissingConfigValue)
    } else {
        asked_from(args, at + 2, args[at + 1]@)
    }
}

impl CliArgs {
    /// The arguments after the program's name.
    pub fn parse(args: Vec<String>) -> (r: Result<CliArgs, CliError>)
        ensures
            match (r, asked_from(args@, 0, "config/default.toml"@)) {
                (Ok(a), Ok(path)) => a.config_path@ == path,
                (Err(e), Err(f)) => e@ == f,
                _ => false,
            },
    {
        let mut config_path = "config/default.toml".to_owned();
        let mut i: usize = 0;
        while i < args.len()
            invariant
                i <= args@.len(),
                asked_from(args@, i as int, config_path@) == asked_from(
                    args@,
                    0,
                    "config/default.toml"@,
                ),
            decreases args@.len() - i,
        {
            if !same_text(args[i].as_str(), "--config") {
                return Err(CliError::UnknownArgument(args[i].clone()));
            }
            if args.len() - i == 1 {
                return Err(CliError::MissingConfigValue);
            }
            config_path = args[i + 1].clone();
            i = i + 2;
        }
        Ok(CliArgs { config_path })
    }
}

/// The path given last is the one that counts.
pub proof fn law_last_config_counts(args: Seq<String>, flag: String, path: String)
    requires
        asked_from(args, 0, "config/default.toml"@) is Ok,
        flag@ == "--config"@,
    ensures
        asked_from(args.push(flag).push(path), 0, "config/default.toml"@) == Ok::<
            Seq<char>,
            CliFault,
        >(path@),
{
    lemma_appended_config(args, 0, "config/default.toml"@, flag, path);
}

/// Arguments that are accepted stay accepted with one more path, which then counts.
proof fn lemma_appended_config(
    args: Seq<String>,
    at: int,
    found: Seq<char>,
    flag: String,
    path: String,
)
    requires
        0 <= at <= args.len(),
        asked_from(args, at, found) is Ok,
        flag@ == "--config"@,
    ensures
        asked_from(args.push(flag).push(path), at, found) == Ok::<Seq<char>, CliFault>(path@),
    decreases args.len() - at,
{
    let longer = args.push(flag).push(path);
    if at < args.len() {
        assert(longer[at] == args[at]);
        assert(longer[at + 1] == args[at + 1]);
        lemma_appended_config(args, at + 2, args[at + 1]@, flag, path);
    } else {
        assert(asked_from(longer, at + 2, path@) == Ok::<Seq<char>, CliFault>(path@));
    }
}

} // verus!
