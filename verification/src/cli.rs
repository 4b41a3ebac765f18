//! The command line: a required process name, an optional directory
//! filter and an optional key sequence.
//!
//! The scan walks the arguments after the program name. `-k`/`--keys`
//! and `-d`/`--directory` each consume the following argument (a later
//! occurrence overrides an earlier one); any other argument starting
//! with `-` is an unknown option; the first remaining argument is the
//! process name and later ones are ignored. Errors carry no side
//! effects: the caller reports them and exits.

use vstd::prelude::*;

use crate::text::{opt_str_view, str_eq};

verus! {

/// The parsed command line. The directory is as given, not yet
/// canonicalized: only the caller can touch the filesystem.
#[derive(Debug)]
pub struct CliArgs {
    pub process_name: String,
    pub directory: Option<String>,
    pub keys: Option<String>,
}

/// The mathematical content of a parsed command line.
pub ghost struct CliArgsFields {
    pub process_name: Seq<char>,
    pub directory: Option<Seq<char>>,
    pub keys: Option<Seq<char>>,
}

impl View for CliArgs {
    type V = CliArgsFields;

    open spec fn view(&self) -> CliArgsFields {
        CliArgsFields {
            process_name: self.process_name@,
            directory: opt_str_view(self.directory),
            keys: opt_str_view(self.keys),
        }
    }
}

/// A usage error: the run must end with a diagnostic and no actions.
#[derive(Debug)]
pub enum CliError {
    /// No process name among the arguments.
    MissingProcessName,
    /// `-k`/`--keys` stood last, with no value after it.
    MissingKeysValue,
    /// `-d`/`--directory` stood last, with no value after it.
    MissingDirectoryValue,
    /// An argument starting with `-` that is no known option.
    UnknownOption(String),
}

/// The mathematical content of a usage error.
pub ghost enum CliErrorFields {
    MissingProcessName,
    MissingKeysValue,
    MissingDirectoryValue,
    UnknownOption(Seq<char>),
}

impl View for CliError {
    type V = CliErrorFields;

    open spec fn view(&self) -> CliErrorFields {
        match self {
            CliError::MissingProcessName => CliErrorFields::MissingProcessName,
            CliError::MissingKeysValue => CliErrorFields::MissingKeysValue,
            CliError::MissingDirectoryValue => CliErrorFields::MissingDirectoryValue,
            CliError::UnknownOption(s) => CliErrorFields::UnknownOption(s@),
        }
    }
}

/// One deterministic left-to-right scan of the arguments from index
/// `i`, with what has been gathered so far.
pub open spec fn scan_args(
    args: Seq<Seq<char>>,
    i: int,
    name: Option<Seq<char>>,
    dir: Option<Seq<char>>,
    keys: Option<Seq<char>>,
) -> Result<CliArgsFields, CliErrorFields>
    decreases args.len() - i when 0 <= i
{
    if i >= args.len() {
        match name {
            Some(n) => Ok(CliArgsFields { process_name: n, directory: dir, keys }),
            None => Err(CliErrorFields::MissingProcessName),
        }
    } else {
        let a = args[i];
        if a == "-k"@ || a == "--keys"@ {
            if i + 1 < args.len() {
                scan_args(args, i + 2, name, dir, Some(args[i + 1]))
            } else {
                Err(CliErrorFields::MissingKeysValue)
            }
        } else if a == "-d"@ || a == "--directory"@ {
            if i + 1 < args.len() {
                scan_args(args, i + 2, name, Some(args[i + 1]), keys)
            } else {
                Err(CliErrorFields::MissingDirectoryValue)
            }
        } else if a.len() > 0 && a[0] == '-' {
            Err(CliErrorFields::UnknownOption(a))
        } else if name is None {
            scan_args(args, i + 1, Some(a), dir, keys)
        } else {
            scan_args(args, i + 1, name, dir, keys)
        }
    }
}

/// Parses the whole argument vector (index 0 is the program's own
/// name and is skipped), exactly as `scan_args` says.
pub fn parse_args(args: &Vec<String>) -> (r: Result<CliArgs, CliError>)
    ensures
        match r {
            Ok(a) => scan_args(args.deep_view(), 1, None, None, None) == Ok::<
                CliArgsFields,
                CliErrorFields,
            >(a@),
            Err(e) => scan_args(args.deep_view(), 1, None, None, None) == Err::<
                CliArgsFields,
                CliErrorFields,
            >(e@),
        },
{
    let ghost dv = args.deep_view();
    let mut name: Option<String> = None;
    let mut dir: Option<String> = None;
    let mut keys: Option<String> = None;
    let mut i: usize = 1;
    while i < args.len()
        invariant
            1 <= i,
            i <= args.len() || i == 1,
            dv == args.deep_view(),
            dv.len() == args@.len(),
            scan_args(dv, 1, None, None, None) == scan_args(
                dv,
                i as int,
                opt_str_view(name),
                opt_str_view(dir),
                opt_str_view(keys),
            ),
        decreases args.len() - i,
    {
        proof {
            assert(dv[i as int] == args@[i as int]@);
            assert(i + 1 < dv.len() ==> dv[i + 1] == args@[i + 1]@);
        }
        let arg = &args[i];
        if str_eq(arg.as_str(), "-k") || str_eq(arg.as_str(), "--keys") {
            if i + 1 < args.len() {
                keys = Some(args[i + 1].clone());
                i = i + 2;
            } else {
                return Err(CliError::MissingKeysValue);
            }
        } else if str_eq(arg.as_str(), "-d") || str_eq(arg.as_str(), "--directory") {
            if i + 1 < args.len() {
                dir = Some(args[i + 1].clone());
                i = i + 2;
            } else {
                return Err(CliError::MissingDirectoryValue);
            }
        } else if arg.as_str().unicode_len() > 0 && arg.as_str().get_char(0) == '-' {
            return Err(CliError::UnknownOption(arg.clone()));
        } else if name.is_none() {
            name = Some(arg.clone());
            i = i + 1;
        } else {
            i = i + 1;
        }
    }
    match name {
        Some(n) => Ok(CliArgs { process_name: n, directory: dir, keys }),
        None => Err(CliError::MissingProcessName),
    }
}

} // verus!
