use renamer::args::Options;
use renamer::batch::begin_batch;
use renamer::errors::InputError;
use renamer::errors::RenameError;
use renamer::rules::RewriteRule;

#[test]
fn no_force_and_interactive() {
    let result = begin_batch(&Options {
        global: true,
        dry_run: true,
        verbose: true,
        force: true,
        interactive: true,
        ignore_invalid_files: true,
        prefix_increment: None,
        suffix_increment: None,
        pattern: RewriteRule::new("", "").unwrap(),
        patterns: vec![],
        files: vec![],
    });

    assert!(matches!(
        result,
        Err(RenameError::InputError(InputError::ForceAndInteractive))
    ));
}

#[test]
fn begin_batch_starts_clean() {
    let opts = Options {
        global: false,
        dry_run: false,
        verbose: false,
        force: false,
        interactive: false,
        ignore_invalid_files: false,
        prefix_increment: None,
        suffix_increment: None,
        pattern: RewriteRule::new("a", "b").unwrap(),
        patterns: vec![],
        files: vec![String::from("a.txt")],
    };

    let state = begin_batch(&opts).unwrap();
    assert_eq!(state.count, 0);
    assert!(state.pending.is_empty());
}

#[test]
fn force_alone_is_accepted() {
    let opts = Options {
        global: false,
        dry_run: false,
        verbose: false,
        force: true,
        interactive: false,
        ignore_invalid_files: false,
        prefix_increment: None,
        suffix_increment: None,
        pattern: RewriteRule::new("a", "b").unwrap(),
        patterns: vec![],
        files: vec![],
    };

    assert!(begin_batch(&opts).is_ok());
}
