//! The options of a build, once the command line has been taken apart.

use vstd::prelude::*;
use crate::text::same_str;
use crate::ipl3::IPL3;

verus! {

/// What is wrong with the command line.
#[derive(Debug, Clone, Copy, PartialEq, Eq, Structural)]
pub enum ArgParseError {
    /// The tool was not called as `cargo n64`.
    CargoSubcommand,
    /// Neither `--ipl3` nor `--ipl3-from-rom` was given.
    MissingIPL3Value,
    /// Both `--ipl3` and `--ipl3-from-rom` were given.
    AmbiguousIPL3Value,
}

impl ArgParseError {
    /// What the error says of itself.
    pub open spec fn message(&self) -> Seq<char> {
        match self {
            ArgParseError::CargoSubcommand => "Must be invoked as cargo subcommand: `cargo n64`"@,
            ArgParseError::MissingIPL3Value => "One of `--ipl3` or `--ipl3-from-rom` are required"@,
            ArgParseError::AmbiguousIPL3Value =>
                "`--ipl3` and `--ipl3-from-rom` are mutually exclusive"@,
        }
    }

    /// What the error says of itself.
    pub fn to_string(&self) -> (text: String)
        ensures
            text@ == self.message(),
    {
        match self {
            ArgParseError::CargoSubcommand =>
                "Must be invoked as cargo subcommand: `cargo n64`".to_owned(),
            ArgParseError::MissingIPL3Value =>
                "One of `--ipl3` or `--ipl3-from-rom` are required".to_owned(),
            ArgParseError::AmbiguousIPL3Value =>
                "`--ipl3` and `--ipl3-from-rom` are mutually exclusive".to_owned(),
        }
    }
}

/// The options of the build subcommand.
pub struct BuildArgs {
    /// Build target triple
    pub target: Option<String>,
    /// Program name (Default: Crate name)
    pub name: Option<String>,
    /// Path to a directory for creating the embedded file system
    pub fs: Option<String>,
    /// The boot code that `--ipl3` named
    pub ipl3: Option<IPL3>,
    /// The boot code of the cartridge image that `--ipl3-from-rom` named
    pub ipl3_from_rom: Option<IPL3>,
    /// All remaining arguments
    pub rest: Vec<String>,
}

impl BuildArgs {
    /// The boot code of the build, or what is wrong with the two options
    /// that name it: exactly one of them must be given.
    pub open spec fn chosen_ipl3(&self) -> Result<IPL3, ArgParseError> {
        match (self.ipl3, self.ipl3_from_rom) {
            (None, None) => Err(ArgParseError::MissingIPL3Value),
            (Some(_), Some(_)) => Err(ArgParseError::AmbiguousIPL3Value),
            (Some(ipl3), None) => Ok(ipl3),
            (None, Some(ipl3)) => Ok(ipl3),
        }
    }

    /// The name of the program: the one that was given, or else the name of
    /// the artifact.
    pub open spec fn program_name(&self, artifact: &str) -> Seq<char> {
        match self.name {
            Some(name) => name@,
            None => artifact@,
        }
    }

    /// Set default program name
    pub fn name_or<'a>(&'a self, artifact: &'a str) -> (name: &'a str)
        ensures
            name@ == self.program_name(artifact),
    {
        match &self.name {
            Some(name) => name.as_str(),
            None => artifact,
        }
    }

    /// IPL3 args are required and mutually exclusive
    pub fn boot_code(&self) -> (chosen: Result<&IPL3, ArgParseError>)
        ensures
            match self.chosen_ipl3() {
                Ok(ipl3) => chosen matches Ok(own) && *own == ipl3,
                Err(fault) => chosen matches Err(e) && e == fault,
            },
    {
        match (&self.ipl3, &self.ipl3_from_rom) {
            (None, None) => Err(ArgParseError::MissingIPL3Value),
            (Some(_), Some(_)) => Err(ArgParseError::AmbiguousIPL3Value),
            (Some(ipl3), None) => Ok(ipl3),
            (None, Some(ipl3)) => Ok(ipl3),
        }
    }
}

/// Takes the name of the subcommand off the arguments that cargo hands over:
/// the first must be `n64`, and the options follow it.
pub fn parse_args(args: &[String]) -> (options: Result<&[String], ArgParseError>)
    ensures
        options is Ok <==> args@.len() > 0 && args@[0]@ == "n64"@,
        options matches Ok(rest) ==> rest@ == args@.subrange(1, args@.len() as int),
        options matches Err(e) ==> e == ArgParseError::CargoSubcommand,
{
    if args.len() == 0 || !same_str(args[0].as_str(), "n64") {
        return Err(ArgParseError::CargoSubcommand);
    }
    Ok(vstd::slice::slice_subrange(args, 1, args.len()))
}

} // verus!
