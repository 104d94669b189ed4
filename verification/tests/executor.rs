use renamer::args::Increment;
use renamer::batch::commit_rename;
use renamer::batch::compute_rename;
use renamer::batch::is_affirmative;
use renamer::batch::plan_rename;
use renamer::batch::BatchState;
use renamer::batch::RenameDecision;
use renamer::rules::RewriteRule;

fn empty_state() -> BatchState {
    BatchState {
        count: 0,
        pending: vec![],
    }
}

#[test]
fn plan_skips_or_fails_invalid_files() {
    let state = empty_state();
    let path = String::from("gone");
    let renamed = String::from("gone");

    let d = plan_rename(true, false, false, &state, &path, &renamed, false, false, false);
    assert_eq!(d, RenameDecision::SkipIgnored);

    let d = plan_rename(false, false, false, &state, &path, &renamed, false, false, false);
    assert_eq!(d, RenameDecision::FailInvalidFile);
}

#[test]
fn plan_skips_unchanged_names() {
    let state = empty_state();
    let path = String::from("same.txt");
    let renamed = String::from("same.txt");

    let d = plan_rename(false, false, false, &state, &path, &renamed, true, false, true);
    assert_eq!(d, RenameDecision::SkipNoChange);
}

#[test]
fn plan_fails_on_directory_destination() {
    let state = empty_state();
    let path = String::from("a.txt");
    let renamed = String::from("b");

    let d = plan_rename(false, true, false, &state, &path, &renamed, true, true, false);
    assert_eq!(d, RenameDecision::FailDirectory);
}

#[test]
fn plan_applies_overwrite_policy() {
    let state = empty_state();
    let path = String::from("a.txt");
    let renamed = String::from("b.txt");

    let d = plan_rename(false, false, true, &state, &path, &renamed, true, false, true);
    assert_eq!(d, RenameDecision::AskOverwrite);

    let d = plan_rename(false, true, false, &state, &path, &renamed, true, false, true);
    assert_eq!(d, RenameDecision::Proceed);

    let d = plan_rename(false, false, false, &state, &path, &renamed, true, false, true);
    assert_eq!(d, RenameDecision::FailOverwrite);
}

#[test]
fn plan_proceeds_to_free_destination() {
    let state = empty_state();
    let path = String::from("a.txt");
    let renamed = String::from("b.txt");

    let d = plan_rename(false, false, false, &state, &path, &renamed, true, false, false);
    assert_eq!(d, RenameDecision::Proceed);
}

#[test]
fn dry_run_detects_in_batch_collision() {
    // Two files both map to `out.txt`; nothing called `out.txt` exists
    // on disk. The first proceeds and is recorded, the second must be
    // flagged against the pending set.
    let mut state = empty_state();
    let first = String::from("one.txt");
    let second = String::from("two.txt");
    let target = String::from("out.txt");

    let d = plan_rename(false, false, false, &state, &first, &target, true, false, false);
    assert_eq!(d, RenameDecision::Proceed);

    let performed = commit_rename(&mut state, &target, true);
    assert!(!performed);
    assert_eq!(state.count, 1);

    let d = plan_rename(false, false, false, &state, &second, &target, true, false, false);
    assert_eq!(d, RenameDecision::FailOverwrite);
}

#[test]
fn live_commit_asks_for_a_real_rename() {
    let mut state = empty_state();
    let target = String::from("new.txt");

    let performed = commit_rename(&mut state, &target, false);
    assert!(performed);
    assert_eq!(state.count, 1);
    assert!(state.pending.is_empty());
}

#[test]
fn counter_advances_once_per_commit() {
    let mut state = empty_state();
    let a = String::from("a");
    let b = String::from("b");

    commit_rename(&mut state, &a, true);
    commit_rename(&mut state, &b, true);
    assert_eq!(state.count, 2);
    assert_eq!(state.pending, vec![String::from("a"), String::from("b")]);
}

#[test]
fn compute_rename_runs_the_whole_pipeline() {
    // Rules first, then the prefix counter, then the suffix counter,
    // both reading the same count.
    let rules = vec![RewriteRule::new("x", "y").unwrap()];
    let renamed = compute_rename(
        &String::from("/tmp/x_file"),
        &rules,
        false,
        Some(Increment { width: 3, start: 122 }),
        Some(Increment { width: 4, start: 455 }),
        0,
    )
    .unwrap();
    assert_eq!("/tmp/122y_file0455", renamed);
}

#[test]
fn compute_rename_handles_hidden_files() {
    let renamed = compute_rename(
        &String::from(".xinitrc"),
        &[],
        false,
        Some(Increment { width: 3, start: 122 }),
        Some(Increment { width: 4, start: 455 }),
        0,
    )
    .unwrap();
    assert_eq!(".122xinitrc0455", renamed);
}

#[test]
fn compute_rename_shares_the_counter() {
    let prefix = Some(Increment { width: 2, start: 10 });
    let suffix = Some(Increment { width: 2, start: 30 });

    let first = compute_rename(&String::from("a.txt"), &[], false, prefix, suffix, 0).unwrap();
    let second = compute_rename(&String::from("a.txt"), &[], false, prefix, suffix, 1).unwrap();

    assert_eq!("10a30.txt", first);
    assert_eq!("11a31.txt", second);
}

#[test]
fn affirmative_replies() {
    assert!(is_affirmative("y"));
    assert!(is_affirmative("Y"));
    assert!(is_affirmative(" y\n"));
    assert!(is_affirmative("\ty \r\n"));

    assert!(!is_affirmative(""));
    assert!(!is_affirmative("  \n"));
    assert!(!is_affirmative("n"));
    assert!(!is_affirmative("yes"));
    assert!(!is_affirmative("y y"));
}
