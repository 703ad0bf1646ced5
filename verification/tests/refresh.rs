use usagi::refresh::{
    check_refresh, classify, outcome_message, parse_decision, prompt, summary, Action, Decision,
    Outcome, Refresh, Tally,
};

#[test]
fn classifies_missing_file() {
    assert_eq!(classify(None, "anything"), Action::Missing);
}

#[test]
fn classifies_identical_file() {
    assert_eq!(classify(Some("hello\n"), "hello\n"), Action::Identical);
}

#[test]
fn classifies_differing_file() {
    match classify(Some("old\n"), "new\n") {
        Action::Differs(prev) => assert_eq!(prev, "old\n"),
        other => panic!("unexpected: {other:?}"),
    }
}

#[test]
fn parse_decision_accepts_common_inputs() {
    assert_eq!(parse_decision("y\n"), Some(Decision::Yes));
    assert_eq!(parse_decision("Y"), Some(Decision::Yes));
    assert_eq!(parse_decision("yes"), Some(Decision::Yes));
    assert_eq!(parse_decision("\n"), Some(Decision::No));
    assert_eq!(parse_decision("n"), Some(Decision::No));
    assert_eq!(parse_decision("a"), Some(Decision::All));
    assert_eq!(parse_decision("q"), Some(Decision::Quit));
}

#[test]
fn parse_decision_rejects_garbage() {
    assert_eq!(parse_decision("maybe"), None);
    assert_eq!(parse_decision("yy"), None);
}

#[test]
fn dry_run_counts_pending_and_never_asks() {
    let mut r = Refresh::new(false, true);
    let differs = Action::Differs("old".to_string());
    assert!(!r.needs_prompt(&differs));
    assert_eq!(r.step(&differs, None), Outcome::WouldChange);
    assert_eq!(r.step(&Action::Missing, None), Outcome::WouldChange);
    assert_eq!(r.step(&Action::Identical, None), Outcome::Unchanged);
    assert_eq!(r.tally.pending, 2);
    assert_eq!(r.tally.unchanged, 1);
    assert_eq!(r.tally.written + r.tally.created, 0);
}

#[test]
fn yes_creates_missing_and_overwrites_differing() {
    let mut r = Refresh::new(true, false);
    assert!(!r.needs_prompt(&Action::Missing));
    assert_eq!(r.step(&Action::Missing, None), Outcome::Create);
    assert_eq!(r.step(&Action::Differs("x".to_string()), None), Outcome::Overwrite);
    assert_eq!(r.tally.created, 1);
    assert_eq!(r.tally.written, 1);
}

#[test]
fn answering_all_turns_on_yes_for_the_rest() {
    let mut r = Refresh::new(false, false);
    assert!(r.needs_prompt(&Action::Missing));
    assert_eq!(r.step(&Action::Missing, Some(Decision::All)), Outcome::Create);
    assert!(r.yes_to_all);
    assert!(!r.needs_prompt(&Action::Differs("y".to_string())));
    assert_eq!(r.step(&Action::Differs("y".to_string()), None), Outcome::Overwrite);
}

#[test]
fn no_skips_and_quit_stops_without_counting() {
    let mut r = Refresh::new(false, false);
    assert_eq!(r.step(&Action::Missing, Some(Decision::No)), Outcome::Skip);
    assert_eq!(r.tally.skipped, 1);
    assert_eq!(r.step(&Action::Missing, Some(Decision::Quit)), Outcome::Quit);
    assert!(r.quit);
    assert_eq!(r.tally.skipped, 1);
    assert_eq!(r.tally.created, 0);
}

#[test]
fn errors_when_target_is_not_a_directory() {
    let err = check_refresh("/tmp/not-a-dir", false, true, false, true).unwrap_err();
    assert!(err.contains("not a directory"), "got: {err}");
}

#[test]
fn interactive_refresh_needs_a_terminal() {
    let err = check_refresh("proj", true, false, false, false).unwrap_err();
    assert_eq!(err, "stdin is not a terminal; pass --yes to overwrite or --dry-run to preview.");
    assert!(check_refresh("proj", true, true, false, false).is_ok());
    assert!(check_refresh("proj", true, false, true, false).is_ok());
}

#[test]
fn prompts_and_outcome_lines_name_the_file() {
    assert_eq!(prompt("USAGI.md", &Action::Missing), "create USAGI.md? [y/N/a/q]: ");
    assert_eq!(
        prompt("USAGI.md", &Action::Differs("x".to_string())),
        "overwrite USAGI.md? [y/N/a/q]: "
    );
    assert_eq!(outcome_message("a", &Action::Identical, Outcome::Unchanged).as_deref(), Some("a: identical"));
    assert_eq!(outcome_message("a", &Action::Missing, Outcome::WouldChange).as_deref(), Some("a: would create"));
    assert_eq!(outcome_message("a", &Action::Missing, Outcome::Create).as_deref(), Some("created a"));
    assert_eq!(outcome_message("a", &Action::Missing, Outcome::Skip), None);
}

#[test]
fn summary_lines_report_the_tally() {
    let t = Tally { written: 1, created: 2, unchanged: 3, skipped: 4, pending: 5 };
    assert_eq!(summary(&t, false), "1 updated, 2 created, 3 unchanged, 4 skipped");
    assert_eq!(summary(&t, true), "dry-run: 5 would change, 3 unchanged");
}
