//! Deck building from the raw history listing, and current-position lookup.

use git_slides::cmd::Cmd;
use git_slides::deck::parse_history;
use git_slides::session::format_record;

fn hash(i: usize) -> String {
    format!("{:040}", i)
}

fn listing(n: usize) -> String {
    let mut s = String::new();
    for i in 1..=n {
        s.push_str(&format!("{} Slide {}\n", hash(i), i));
    }
    s
}

fn loaded_cmd(n: usize) -> Cmd {
    let mut cmd = Cmd::new(Some(format_record("main", &hash(n))));
    cmd.get_history(&listing(n));
    cmd
}

#[test]
fn parse_history_regular() {
    let deck = parse_history(&listing(3));
    assert_eq!(deck.len(), 3);
    assert_eq!(deck[0].hash, hash(1));
    assert_eq!(deck[0].title, "Slide 1".to_string());
    assert_eq!(deck[2].hash, hash(3));
    assert_eq!(deck[2].title, "Slide 3".to_string());
}

#[test]
fn parse_history_splits_on_first_space_only() {
    let deck = parse_history("abc one two three\n");
    assert_eq!(deck.len(), 1);
    assert_eq!(deck[0].hash, "abc".to_string());
    assert_eq!(deck[0].title, "one two three".to_string());
}

#[test]
fn parse_history_skips_lines_without_space() {
    let deck = parse_history("justonehash\nabc Title\n\n");
    assert_eq!(deck.len(), 1);
    assert_eq!(deck[0].hash, "abc".to_string());
    assert_eq!(deck[0].title, "Title".to_string());
}

#[test]
fn parse_history_empty_is_empty() {
    assert_eq!(parse_history("").len(), 0);
}

#[test]
fn parse_history_handles_carriage_returns() {
    let deck = parse_history("abc Title one\r\ndef Title two\r\n");
    assert_eq!(deck.len(), 2);
    assert_eq!(deck[0].title, "Title one".to_string());
    assert_eq!(deck[1].hash, "def".to_string());
}

#[test]
fn parse_history_without_trailing_newline() {
    let deck = parse_history("abc Title one\ndef Title two");
    assert_eq!(deck.len(), 2);
    assert_eq!(deck[1].title, "Title two".to_string());
}

#[test]
fn get_history_is_memoized() {
    let mut cmd = loaded_cmd(3);
    // A second listing arriving later must not replace the deck.
    cmd.get_history(&listing(5));
    let hashes = cmd.get_commits_hashes();
    assert_eq!(hashes.len(), 3);
}

#[test]
fn get_commits_hashes_in_deck_order() {
    let cmd = loaded_cmd(3);
    let hashes = cmd.get_commits_hashes();
    assert_eq!(hashes, vec![hash(1), hash(2), hash(3)]);
}

#[test]
fn current_commit_index_found() {
    let cmd = loaded_cmd(3);
    let current = hash(2);
    assert_eq!(
        cmd.get_index_of_current_commit_checked(Some(&current)),
        Some(1)
    );
}

#[test]
fn current_commit_index_absent() {
    let cmd = loaded_cmd(3);
    let outside = hash(9);
    assert_eq!(cmd.get_index_of_current_commit_checked(Some(&outside)), None);
    assert_eq!(cmd.get_index_of_current_commit_checked(None), None);
}
