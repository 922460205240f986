use soundboard::cli::{help_text, parse_cli_args, version_text, CliEnd, CliNote};
use soundboard::devices::UserInput;

fn args(list: &[&str]) -> Vec<String> {
    list.iter().map(|s| s.to_string()).collect()
}

#[test]
fn no_arguments_run_with_defaults() {
    let out = parse_cli_args(&args(&[]));
    assert!(matches!(out.end, CliEnd::Run));
    assert!(matches!(out.config.play, UserInput::NoUserInput));
    assert!(matches!(out.config.cap, UserInput::NoUserInput));
    assert!(out.notes.is_empty());
}

#[test]
fn help_and_version_stop_reading() {
    assert!(matches!(parse_cli_args(&args(&["-h", "--bogus"])).end, CliEnd::Help));
    assert!(matches!(parse_cli_args(&args(&["--help"])).end, CliEnd::Help));
    let out = parse_cli_args(&args(&["--playid", "2", "--version", "--playid"]));
    assert!(matches!(out.end, CliEnd::Version));
    assert_eq!(out.config.dev_index_output, 2);
}

#[test]
fn names_and_ids_are_recorded() {
    let out = parse_cli_args(&args(&["--playname", "Speakers", "--capid", "3"]));
    assert!(matches!(out.end, CliEnd::Run));
    assert!(matches!(out.config.play, UserInput::UserInputName));
    assert_eq!(out.config.play_name, "Speakers");
    assert!(matches!(out.config.cap, UserInput::UserInputId));
    assert_eq!(out.config.dev_index_input, 3);
    assert!(matches!(out.notes[0], CliNote::PlayName(1)));
    assert!(matches!(out.notes[1], CliNote::CapId(3)));
}

#[test]
fn later_choice_wins() {
    let out = parse_cli_args(&args(&["--capname", "Mic", "--capid", "1"]));
    assert!(matches!(out.config.cap, UserInput::UserInputId));
    assert_eq!(out.config.cap_name, "Mic");
}

#[test]
fn missing_value_and_bad_id() {
    assert!(matches!(parse_cli_args(&args(&["--playname"])).end, CliEnd::MissingValue(0)));
    assert!(matches!(parse_cli_args(&args(&["x", "--capid"])).end, CliEnd::MissingValue(1)));
    assert!(matches!(parse_cli_args(&args(&["--playid", "two"])).end, CliEnd::BadId(1)));
}

#[test]
fn unknown_arguments_are_reported() {
    let out = parse_cli_args(&args(&["-x", "file", "--playname", "A"]));
    assert!(matches!(out.end, CliEnd::Run));
    assert!(matches!(out.notes[0], CliNote::UnknownArgument(0)));
    assert!(matches!(out.notes[1], CliNote::UnknownPositional(1)));
    assert!(matches!(out.notes[2], CliNote::PlayName(3)));
}

#[test]
fn version_and_help_texts() {
    assert_eq!(version_text("mp"), "mp Version 0.1");
    let help = help_text("mp");
    assert!(help.starts_with("mp Version 0.1\n  Usage:\n  \tmp\n"));
    assert!(help.ends_with("\t\t- preferred playback device ID\n"));
    assert!(help.contains("\tmp --capid <playback device ID>\n"));
}
