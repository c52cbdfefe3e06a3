use nixpkgs_pr_build_bot::command::{message_lines_of, parse_command, Command};

fn strings(v: &[&str]) -> Vec<String> {
    v.iter().map(|s| s.to_string()).collect()
}

#[test]
fn start_command() {
    assert_eq!(parse_command("/start"), Command::Start);
    assert_eq!(parse_command("/start with words"), Command::Start);
}

#[test]
fn command_word_ignores_ascii_case() {
    assert_eq!(parse_command("/START"), Command::Start);
    assert_eq!(parse_command("/Status"), Command::Status);
    assert_eq!(
        parse_command("/PR 42 hello"),
        Command::Pr { num: 42, pkgs: strings(&["hello"]) }
    );
}

#[test]
fn status_command() {
    assert_eq!(parse_command("/status"), Command::Status);
}

#[test]
fn unknown_commands() {
    assert_eq!(parse_command("hello"), Command::Unknown);
    assert_eq!(parse_command(""), Command::Unknown);
    assert_eq!(parse_command("/prr 5"), Command::Unknown);
}

#[test]
fn pr_with_number_only() {
    assert_eq!(parse_command("/pr 123456"), Command::Pr { num: 123456, pkgs: vec![] });
}

#[test]
fn pr_with_packages_and_exclusions() {
    assert_eq!(
        parse_command("/pr 123456 hello  -world\tfoo{1,2}"),
        Command::Pr { num: 123456, pkgs: strings(&["hello", "-world", "foo{1,2}"]) }
    );
}

#[test]
fn pr_without_valid_number_is_ignored() {
    assert_eq!(parse_command("/pr"), Command::Ignored);
    assert_eq!(parse_command("/pr abc"), Command::Ignored);
    assert_eq!(parse_command("/pr 0"), Command::Ignored);
    assert_eq!(parse_command("/pr 99999999999"), Command::Ignored);
    // Two spaces: the number before the second space is empty.
    assert_eq!(parse_command("/pr  5"), Command::Ignored);
}

#[test]
fn pr_number_accepts_plus_sign() {
    assert_eq!(parse_command("/pr +7"), Command::Pr { num: 7, pkgs: vec![] });
}

#[test]
fn pull_request_link_means_pr() {
    assert_eq!(
        parse_command("https://github.com/NixOS/nixpkgs/pull/345678"),
        Command::Pr { num: 345678, pkgs: vec![] }
    );
    assert_eq!(
        parse_command("https://github.com/NixOS/nixpkgs/pull/345678/files hello"),
        Command::Pr { num: 345678, pkgs: strings(&["hello"]) }
    );
}

#[test]
fn link_law_on_concrete_values() {
    let r = "345678#issuecomment-1";
    let rest = "hello -world";
    let by_link = parse_command(&format!("https://github.com/NixOS/nixpkgs/pull/{r} {rest}"));
    let by_command = parse_command(&format!("/pr 345678 {rest}"));
    assert_eq!(by_link, by_command);
    assert_eq!(by_link, Command::Pr { num: 345678, pkgs: strings(&["hello", "-world"]) });
}

#[test]
fn link_to_another_repository_is_unknown() {
    assert_eq!(parse_command("https://github.com/NixOS/nix/pull/5"), Command::Unknown);
}

#[test]
fn message_is_split_into_lines() {
    assert_eq!(message_lines_of("/pr 1\n/status\n"), strings(&["/pr 1", "/status", ""]));
    assert_eq!(message_lines_of(""), strings(&[""]));
}
