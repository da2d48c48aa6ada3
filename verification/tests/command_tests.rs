use mls_engine::command::{parse_command, Command};
use mls_engine::screen::wrap_selection;

fn parse(s: &str) -> Command {
    let chars: Vec<char> = s.chars().collect();
    parse_command(&chars)
}

fn word(v: Vec<char>) -> String {
    v.into_iter().collect()
}

#[test]
fn create_and_join_take_an_identifier() {
    match parse("create team") {
        Command::Create(id) => assert_eq!(word(id), "team"),
        _ => panic!("expected create"),
    }
    match parse("join ghost-id") {
        Command::Join(id) => assert_eq!(word(id), "ghost-id"),
        _ => panic!("expected join"),
    }
    assert!(matches!(parse("create"), Command::CreateUsage));
    assert!(matches!(parse("join"), Command::JoinUsage));
}

#[test]
fn send_joins_the_remaining_words() {
    match parse("send hello   there  world") {
        Command::Send(text) => assert_eq!(word(text), "hello there world"),
        _ => panic!("expected send"),
    }
    match parse("send") {
        Command::Send(text) => assert_eq!(word(text), ""),
        _ => panic!("expected send"),
    }
}

#[test]
fn extra_spaces_do_not_matter() {
    match parse("   create    team   ") {
        Command::Create(id) => assert_eq!(word(id), "team"),
        _ => panic!("expected create"),
    }
}

#[test]
fn bare_commands_parse() {
    assert!(matches!(parse("quit"), Command::Quit));
    assert!(matches!(parse("help"), Command::Help));
    assert!(matches!(parse("settings"), Command::Settings));
    assert!(matches!(parse("groups"), Command::Groups));
    assert!(matches!(parse("status"), Command::Status));
}

#[test]
fn anything_else_is_unknown() {
    assert!(matches!(parse(""), Command::Unknown));
    assert!(matches!(parse("   "), Command::Unknown));
    assert!(matches!(parse("createx team"), Command::Unknown));
    assert!(matches!(parse("list"), Command::Unknown));
}

#[test]
fn selection_wraps_both_ways() {
    assert_eq!(wrap_selection(0, 3, true), 2);
    assert_eq!(wrap_selection(2, 3, true), 1);
    assert_eq!(wrap_selection(2, 3, false), 0);
    assert_eq!(wrap_selection(0, 3, false), 1);
    assert_eq!(wrap_selection(0, 1, true), 0);
    assert_eq!(wrap_selection(0, 1, false), 0);
    // A stale index beyond the list is clamped to the front first.
    assert_eq!(wrap_selection(7, 3, false), 1);
}
