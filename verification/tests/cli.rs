use cargo_n64::cli::{parse_args, ArgParseError, BuildArgs};
use cargo_n64::ipl3::{IPL3, IPL_SIZE};

fn args(ipl3: Option<IPL3>, ipl3_from_rom: Option<IPL3>) -> BuildArgs {
    BuildArgs { target: None, name: None, fs: None, ipl3, ipl3_from_rom, rest: Vec::new() }
}

fn strings(words: &[&str]) -> Vec<String> {
    words.iter().map(|w| w.to_string()).collect()
}

#[test]
fn parse_args_takes_the_subcommand_off() {
    let words = strings(&["n64", "build", "--ipl3", "ipl3.bin"]);

    assert_eq!(parse_args(&words), Ok(&words[1..]));
}

#[test]
fn parse_args_takes_the_subcommand_alone() {
    let words = strings(&["n64"]);

    assert_eq!(parse_args(&words), Ok(&words[1..]));
}

#[test]
fn parse_args_wants_the_subcommand_first() {
    assert_eq!(parse_args(&strings(&["build", "n64"])), Err(ArgParseError::CargoSubcommand));
    assert_eq!(parse_args(&strings(&["n64 "])), Err(ArgParseError::CargoSubcommand));
    assert_eq!(parse_args(&strings(&["N64"])), Err(ArgParseError::CargoSubcommand));
    assert_eq!(parse_args(&strings(&["n6"])), Err(ArgParseError::CargoSubcommand));
}

#[test]
fn parse_args_wants_an_argument() {
    assert_eq!(parse_args(&[]), Err(ArgParseError::CargoSubcommand));
}

#[test]
fn boot_code_wants_one_of_the_two_options() {
    assert!(matches!(args(None, None).boot_code(), Err(ArgParseError::MissingIPL3Value)));
}

#[test]
fn boot_code_refuses_both_options() {
    let both = args(Some(IPL3::Cic6102([0; IPL_SIZE])), Some(IPL3::Cic6103([0; IPL_SIZE])));

    assert!(matches!(both.boot_code(), Err(ArgParseError::AmbiguousIPL3Value)));
}

#[test]
fn boot_code_takes_the_file() {
    let one = args(Some(IPL3::Cic6102([1; IPL_SIZE])), None);

    assert!(matches!(one.boot_code(), Ok(IPL3::Cic6102(bin)) if *bin == [1; IPL_SIZE]));
}

#[test]
fn boot_code_takes_the_rom() {
    let one = args(None, Some(IPL3::Cic6105([2; IPL_SIZE])));

    assert!(matches!(one.boot_code(), Ok(IPL3::Cic6105(bin)) if *bin == [2; IPL_SIZE]));
}

#[test]
fn arg_parse_error_says_what_failed() {
    assert_eq!(
        ArgParseError::CargoSubcommand.to_string(),
        "Must be invoked as cargo subcommand: `cargo n64`"
    );
    assert_eq!(
        ArgParseError::MissingIPL3Value.to_string(),
        "One of `--ipl3` or `--ipl3-from-rom` are required"
    );
    assert_eq!(
        ArgParseError::AmbiguousIPL3Value.to_string(),
        "`--ipl3` and `--ipl3-from-rom` are mutually exclusive"
    );
}
