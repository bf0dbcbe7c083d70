//! Session record encoding, decoding, and the start/stop decisions.

use git_slides::cmd::Cmd;
use git_slides::messages::CmdError;
use git_slides::messages::going_back_to_branch_message;
use git_slides::messages::going_back_to_commit_message;
use git_slides::messages::presentation_started_message;
use git_slides::messages::presentation_stopped_message;
use git_slides::session::format_record;
use git_slides::session::parse_record;

fn hash(i: usize) -> String {
    format!("{:040}", i)
}

#[test]
fn record_round_trip_with_branch() {
    let line = format_record("main", &hash(7));
    assert_eq!(line, format!("main:{}\n", hash(7)));
    let cmd = Cmd::new(Some(line));
    assert!(cmd.is_presentation_started());
    assert_eq!(cmd.get_initial_branch().unwrap(), Some("main".to_string()));
    assert_eq!(cmd.get_presentation_head_commit_hash().unwrap(), hash(7));
}

#[test]
fn record_round_trip_detached() {
    let line = format_record("", &hash(7));
    assert_eq!(line, format!(":{}\n", hash(7)));
    let cmd = Cmd::new(Some(line));
    assert_eq!(cmd.get_initial_branch().unwrap(), None);
    assert_eq!(cmd.get_presentation_head_commit_hash().unwrap(), hash(7));
}

#[test]
fn record_trims_surrounding_whitespace() {
    let rec = parse_record(" main:abc \n").unwrap();
    assert_eq!(rec.origin_branch, Some("main".to_string()));
    assert_eq!(rec.target_commit, "abc".to_string());
}

#[test]
fn record_malformed_reports_read_failure() {
    let cmd = Cmd::new(Some("no separator here\n".to_string()));
    let err = cmd.get_presentation_head_commit_hash().unwrap_err();
    assert_eq!(
        err.message(),
        "error: Cannot read '.git/git-slides'. Aborting."
    );
    let err = cmd.get_initial_branch().unwrap_err();
    assert_eq!(
        err.message(),
        "error: Cannot read '.git/git-slides'. Aborting."
    );
}

#[test]
fn start_writes_branch_and_target() {
    let plan = Cmd::start(true, None, Some(hash(3)), Some("main".to_string())).unwrap();
    assert_eq!(plan.record_line, format!("main:{}\n", hash(3)));
    assert_eq!(plan.target_commit, hash(3));
    assert_eq!(
        presentation_started_message(&plan.target_commit),
        format!("Presentation started at {}.", hash(3))
    );
}

#[test]
fn start_detached_writes_empty_branch() {
    let plan = Cmd::start(true, None, Some(hash(3)), None).unwrap();
    assert_eq!(plan.record_line, format!(":{}\n", hash(3)));
}

#[test]
fn start_bad_ref() {
    let err = Cmd::start(
        true,
        Some("abcdefg".to_string()),
        None,
        Some("main".to_string()),
    )
    .unwrap_err();
    assert_eq!(err.message(), "error: Bad ref input: 'abcdefg'.");
}

#[test]
fn start_without_head_commit() {
    let err = Cmd::start(true, None, None, None).unwrap_err();
    assert_eq!(
        err.message(),
        "error: No HEAD commit. Please provide a valid ref."
    );
}

#[test]
fn start_in_dirty_working_directory() {
    let err = Cmd::start(false, None, Some(hash(3)), Some("main".to_string())).unwrap_err();
    assert_eq!(
        err.message(),
        "error: Working directory contains uncommitted changes."
    );
}

#[test]
fn start_rejects_dirty_tree_before_resolving() {
    let err = Cmd::start(false, Some("bad".to_string()), None, None).unwrap_err();
    assert_eq!(
        err.message(),
        "error: Working directory contains uncommitted changes."
    );
}

#[test]
fn stop_restores_recorded_branch() {
    let cmd = Cmd::new(Some(format_record("main", &hash(7))));
    let plan = cmd.stop().unwrap();
    assert!(plan.back_to_branch);
    assert_eq!(plan.checkout_target, "main".to_string());
    assert_eq!(
        going_back_to_branch_message(&plan.checkout_target),
        "Going back to branch 'main'."
    );
    assert_eq!(presentation_stopped_message(), "Presentation stopped.");
}

#[test]
fn stop_started_from_detached() {
    let cmd = Cmd::new(Some(format_record("", &hash(7))));
    let plan = cmd.stop().unwrap();
    assert!(!plan.back_to_branch);
    assert_eq!(plan.checkout_target, hash(7));
    assert_eq!(
        going_back_to_commit_message(&plan.checkout_target),
        format!("Going back to commit {}.", hash(7))
    );
}

#[test]
fn all_methods_requiring_presentation_to_be_started() {
    let cmd = Cmd::new(None);
    assert!(!cmd.is_presentation_started());
    let err = cmd.ensure_presentation_is_started().unwrap_err();
    assert_eq!(err.message(), "You need to start by 'git slides start'.");
    let err = cmd.stop().unwrap_err();
    assert_eq!(err.message(), "You need to start by 'git slides start'.");
    let err = cmd.get_presentation_head_commit_hash().unwrap_err();
    assert_eq!(err.message(), "You need to start by 'git slides start'.");
}

#[test]
fn checkout_failure_message() {
    let err = CmdError::CheckoutFailed(hash(5));
    assert_eq!(
        err.message(),
        format!("error: Could not checkout {}.", hash(5))
    );
}

#[test]
fn stash_messages() {
    assert_eq!(
        git_slides::messages::stashed_changes_message(),
        "Stashed uncommitted changes."
    );
    assert_eq!(
        git_slides::messages::stash_failed_message(),
        "error: Could not stash uncommitted changes."
    );
}

#[test]
fn store_failure_messages() {
    assert_eq!(
        CmdError::StoreWriteFailed.message(),
        "error: Cannot write '.git/git-slides'. Aborting."
    );
    assert_eq!(
        CmdError::StoreRemoveFailed.message(),
        "error: Cannot remove '.git/git-slides'. Aborting."
    );
    assert_eq!(
        CmdError::StoreReadFailed.message(),
        "error: Cannot read '.git/git-slides'. Aborting."
    );
}
