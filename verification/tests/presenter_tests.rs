//! The status window and the full listing, with their exact line format.

use git_slides::cmd::Cmd;
use git_slides::session::format_record;
use git_slides::text::pad_left;
use git_slides::text::to_dec;

fn hash(i: usize) -> String {
    format!("{:040}", i)
}

fn listing(n: usize) -> String {
    let mut s = String::new();
    for i in 1..=n {
        s.push_str(&format!("{} Slide {}\n", hash(i), i));
    }
    s
}

fn loaded_cmd(n: usize) -> Cmd {
    let mut cmd = Cmd::new(Some(format_record("main", &hash(n))));
    cmd.get_history(&listing(n));
    cmd
}

fn line(marked: bool, i: usize, len: usize, width: usize) -> String {
    format!(
        "{}{:>width$}/{} {} Slide {}",
        if marked { "* " } else { "  " },
        i,
        len,
        &hash(i)[..7],
        i,
    )
}

#[test]
fn status_full() {
    let cmd = loaded_cmd(3);
    let current = hash(1);
    let lines = cmd.status(Some(&current)).unwrap();
    assert_eq!(
        lines,
        vec![
            "  (Start)".to_string(),
            line(true, 1, 3, 1),
            line(false, 2, 3, 1),
            line(false, 3, 3, 1),
            "  (End)".to_string(),
        ]
    );
}

#[test]
fn status_cut() {
    // Seven slides, current slide 4: the window is slides 2 through 7;
    // slide 1 is hidden, so no start line, and the window reaches the last
    // slide, so the end line shows.
    let cmd = loaded_cmd(7);
    let current = hash(4);
    let lines = cmd.status(Some(&current)).unwrap();
    assert_eq!(
        lines,
        vec![
            line(false, 2, 7, 1),
            line(false, 3, 7, 1),
            line(true, 4, 7, 1),
            line(false, 5, 7, 1),
            line(false, 6, 7, 1),
            line(false, 7, 7, 1),
            "  (End)".to_string(),
        ]
    );
}

#[test]
fn status_window_touches_start() {
    let cmd = loaded_cmd(7);
    let current = hash(3);
    let lines = cmd.status(Some(&current)).unwrap();
    assert_eq!(
        lines,
        vec![
            "  (Start)".to_string(),
            line(false, 1, 7, 1),
            line(false, 2, 7, 1),
            line(true, 3, 7, 1),
            line(false, 4, 7, 1),
            line(false, 5, 7, 1),
            line(false, 6, 7, 1),
        ]
    );
}

#[test]
fn status_number_padding() {
    let cmd = loaded_cmd(10);
    let current = hash(1);
    let lines = cmd.status(Some(&current)).unwrap();
    assert_eq!(lines[1], line(true, 1, 10, 2));
    assert_eq!(lines[1], format!("*  1/10 {} Slide 1", &hash(1)[..7]));
    assert_eq!(lines[2], format!("   2/10 {} Slide 2", &hash(2)[..7]));

    let current = hash(9);
    let lines = cmd.status(Some(&current)).unwrap();
    assert_eq!(
        lines,
        vec![
            line(false, 7, 10, 2),
            line(false, 8, 10, 2),
            line(true, 9, 10, 2),
            line(false, 10, 10, 2),
            "  (End)".to_string(),
        ]
    );
    assert_eq!(lines[3], format!("  10/10 {} Slide 10", &hash(10)[..7]));
}

#[test]
fn status_single_slide() {
    let cmd = loaded_cmd(1);
    let current = hash(1);
    let lines = cmd.status(Some(&current)).unwrap();
    assert_eq!(
        lines,
        vec![
            "  (Start)".to_string(),
            line(true, 1, 1, 1),
            "  (End)".to_string(),
        ]
    );
}

#[test]
fn status_error_getting_current_commit() {
    let cmd = loaded_cmd(1);
    let outside = hash(9);
    let err = cmd.status(Some(&outside)).unwrap_err();
    assert_eq!(err.message(), "error: Current HEAD not part of presentation.");
}

#[test]
fn list_shows_whole_deck() {
    let cmd = loaded_cmd(3);
    let current = hash(1);
    let lines = cmd.list(Some(&current)).unwrap();
    assert_eq!(
        lines,
        vec![line(true, 1, 3, 1), line(false, 2, 3, 1), line(false, 3, 3, 1)]
    );
}

#[test]
fn list_number_padding() {
    let cmd = loaded_cmd(10);
    let current = hash(1);
    let lines = cmd.list(Some(&current)).unwrap();
    assert_eq!(lines.len(), 10);
    assert_eq!(lines[0], format!("*  1/10 {} Slide 1", &hash(1)[..7]));
    assert_eq!(lines[9], format!("  10/10 {} Slide 10", &hash(10)[..7]));
}

#[test]
fn list_error_getting_current_commit() {
    let cmd = loaded_cmd(1);
    let outside = hash(9);
    let err = cmd.list(Some(&outside)).unwrap_err();
    assert_eq!(err.message(), "error: Current HEAD not part of presentation.");
}

#[test]
fn decimal_rendering() {
    assert_eq!(to_dec(0), "0".to_string());
    assert_eq!(to_dec(7), "7".to_string());
    assert_eq!(to_dec(10), "10".to_string());
    assert_eq!(to_dec(90210), "90210".to_string());
}

#[test]
fn padding_widens_short_numbers_only() {
    assert_eq!(pad_left("7", 3), "  7".to_string());
    assert_eq!(pad_left("1234", 3), "1234".to_string());
}
