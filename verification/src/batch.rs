//! The batch executor's decision logic: one verified step per input
//! file, with the shared counter and the pending-name set threaded
//! through explicitly. The caller performs the filesystem probes and
//! renames and feeds their outcomes in; everything decided here is
//! proved against `plan_spec` and the contracts below.

use vstd::prelude::*;

use crate::args::Increment;
use crate::args::Options;
use crate::digits::padded_dec_rep;
use crate::errors::InputError;
use crate::errors::RenameError;
use crate::file_renamer::FileRenamer;
use crate::file_renamer::IncrementPosition;
use crate::file_renamer::interpolate_spec;
use crate::file_renamer::name_part;
use crate::file_renamer::with_name_part;
use crate::rules::RewriteRule;
use crate::rules::apply_rules_spec;

verus! {

/// The mutable state of one run: the counter shared by every
/// decorated file, and the destinations already claimed by earlier
/// files of the batch. The pending set is filled only in dry-run mode
/// (see `commit_rename`), so in live mode the collision check against
/// it is vacuous; this mirrors the policy the options describe.
pub struct BatchState {
    pub count: usize,
    pub pending: Vec<String>,
}

/// Whether `name` is among the destinations already claimed within
/// this batch.
pub open spec fn pending_contains_spec(state: BatchState, name: Seq<char>) -> bool {
    exists|i: int| 0 <= i < state.pending@.len() && state.pending@[i]@ == name
}

/// What the executor does with one file, decided before anything is
/// touched.
#[derive(Debug, PartialEq, Eq, Structural)]
pub enum RenameDecision {
    /// Not a regular file; the ignore flag says to pass it over.
    SkipIgnored,
    /// Not a regular file and no ignore flag: fatal.
    FailInvalidFile,
    /// The rules and decorations left the name unchanged; nothing to do.
    SkipNoChange,
    /// The destination is an existing directory: fatal.
    FailDirectory,
    /// The destination is occupied; ask before overwriting.
    AskOverwrite,
    /// The destination is occupied and neither flag permits it: fatal.
    FailOverwrite,
    /// Perform (or, in a dry run, record) the rename.
    Proceed,
}

/// The decision table for one file, exactly as the executor applies
/// it: invalid files first, then the no-op check, the directory check,
/// and the overwrite policy for an occupied destination.
pub open spec fn plan_spec(
    ignore_invalid_files: bool,
    force: bool,
    interactive: bool,
    state: BatchState,
    path: Seq<char>,
    renamed: Seq<char>,
    path_is_file: bool,
    renamed_is_dir: bool,
    renamed_is_file: bool,
) -> RenameDecision {
    if !path_is_file {
        if ignore_invalid_files {
            RenameDecision::SkipIgnored
        } else {
            RenameDecision::FailInvalidFile
        }
    } else if renamed == path {
        RenameDecision::SkipNoChange
    } else if renamed_is_dir {
        RenameDecision::FailDirectory
    } else if renamed_is_file || pending_contains_spec(state, renamed) {
        if interactive {
            RenameDecision::AskOverwrite
        } else if force {
            RenameDecision::Proceed
        } else {
            RenameDecision::FailOverwrite
        }
    } else {
        RenameDecision::Proceed
    }
}

/// The name a file will get: the rewrite rules in order, then the
/// prefix counter, then the suffix counter, both reading the same
/// shared `count`.
pub open spec fn rename_target_spec(
    path: Seq<char>,
    rules: Seq<RewriteRule>,
    global: bool,
    prefix_increment: Option<Increment>,
    suffix_increment: Option<Increment>,
    count: nat,
) -> Seq<char> {
    let applied = with_name_part(path, apply_rules_spec(name_part(path), rules, global));
    let with_prefix = match prefix_increment {
        Some(inc) => with_name_part(
            applied,
            interpolate_spec(
                name_part(applied),
                padded_dec_rep((inc.start + count) as nat, inc.width as nat),
                IncrementPosition::Prefix,
            ),
        ),
        None => applied,
    };
    match suffix_increment {
        Some(inc) => with_name_part(
            with_prefix,
            interpolate_spec(
                name_part(with_prefix),
                padded_dec_rep((inc.start + count) as nat, inc.width as nat),
                IncrementPosition::Suffix,
            ),
        ),
        None => with_prefix,
    }
}

impl BatchState {
    /// Whether `name` is among the destinations already claimed within
    /// this batch.
    pub fn contains_pending(&self, name: &String) -> (r: bool)
        ensures
            r == pending_contains_spec(*self, name@),
    {
        let n = self.pending.len();
        let mut i: usize = 0;
        while i < n
            invariant
                i <= n,
                n == self.pending@.len(),
                forall|j: int| 0 <= j < i ==> self.pending@[j]@ != name@,
            decreases n - i,
        {
            if self.pending[i] == *name {
                return true;
            }
            i = i + 1;
        }
        false
    }
}

/// Checks the option set and opens a batch. The contradictory pair
/// `force` and `interactive` is refused here, before any file is
/// looked at; otherwise the counter starts at zero with nothing
/// pending.
pub fn begin_batch(opts: &Options) -> (r: Result<BatchState, RenameError>)
    ensures
        r is Err <==> opts.force && opts.interactive,
        match r {
            Ok(state) => state.count == 0 && state.pending@.len() == 0,
            Err(e) => e matches RenameError::InputError(InputError::ForceAndInteractive),
        },
{
    if opts.force && opts.interactive {
        Err(RenameError::InputError(InputError::ForceAndInteractive))
    } else {
        Ok(BatchState { count: 0, pending: Vec::new() })
    }
}

/// Runs one path through the whole name pipeline: all rules in order
/// (first-match or all-match per `global`), then the prefix counter,
/// then the suffix counter, both using the same `count`.
pub fn compute_rename(
    path: &String,
    rules: &[RewriteRule],
    global: bool,
    prefix_increment: Option<Increment>,
    suffix_increment: Option<Increment>,
    count: usize,
) -> (r: Result<String, RenameError>)
    requires
        prefix_increment matches Some(inc) ==> inc.start + count <= usize::MAX,
        suffix_increment matches Some(inc) ==> inc.start + count <= usize::MAX,
    ensures
        r is Ok,
        match r {
            Ok(renamed) => renamed@ == rename_target_spec(
                path@,
                rules@,
                global,
                prefix_increment,
                suffix_increment,
                count as nat,
            ),
            Err(_) => false,
        },
{
    let mut renamer = FileRenamer::new(path.clone());
    renamer.apply_patterns(global, rules)?;
    if let Some(inc) = prefix_increment {
        renamer.increment(IncrementPosition::Prefix, inc, count)?;
    }
    if let Some(inc) = suffix_increment {
        renamer.increment(IncrementPosition::Suffix, inc, count)?;
    }
    Ok(renamer.finish())
}

/// Decides the fate of one file from what the caller observed on
/// disk: whether the source is a regular file and whether the computed
/// destination is a directory or a file. In-batch collisions are
/// caught against the pending set, so a dry run flags two files
/// mapping to the same new name even though neither exists on disk.
pub fn plan_rename(
    ignore_invalid_files: bool,
    force: bool,
    interactive: bool,
    state: &BatchState,
    path: &String,
    renamed: &String,
    path_is_file: bool,
    renamed_is_dir: bool,
    renamed_is_file: bool,
) -> (d: RenameDecision)
    ensures
        d == plan_spec(
            ignore_invalid_files,
            force,
            interactive,
            *state,
            path@,
            renamed@,
            path_is_file,
            renamed_is_dir,
            renamed_is_file,
        ),
{
    if !path_is_file {
        if ignore_invalid_files {
            RenameDecision::SkipIgnored
        } else {
            RenameDecision::FailInvalidFile
        }
    } else if *renamed == *path {
        RenameDecision::SkipNoChange
    } else if renamed_is_dir {
        RenameDecision::FailDirectory
    } else if renamed_is_file || state.contains_pending(renamed) {
        if interactive {
            RenameDecision::AskOverwrite
        } else if force {
            RenameDecision::Proceed
        } else {
            RenameDecision::FailOverwrite
        }
    } else {
        RenameDecision::Proceed
    }
}

/// Books one rename that is going ahead. The shared counter advances
/// by exactly one; in a dry run the destination is recorded in the
/// pending set instead of touching the filesystem, and the result says
/// whether the caller should perform a real rename — never in a dry
/// run.
pub fn commit_rename(state: &mut BatchState, renamed: &String, dry_run: bool) -> (perform: bool)
    requires
        old(state).count < usize::MAX,
    ensures
        perform == !dry_run,
        final(state).count == old(state).count + 1,
        dry_run ==> final(state).pending@ == old(state).pending@.push(*renamed),
        !dry_run ==> final(state).pending@ == old(state).pending@,
{
    state.count = state.count + 1;
    if dry_run {
        state.pending.push(renamed.clone());
        false
    } else {
        true
    }
}

/// The characters the confirmation reply is trimmed of.
pub open spec fn is_space(c: char) -> bool {
    c == ' ' || c == '\t' || c == '\r' || c == '\n'
}

/// `s` with its leading whitespace dropped.
pub open spec fn trim_start_spec(s: Seq<char>) -> Seq<char>
    decreases s.len(),
{
    if s.len() > 0 && is_space(s[0]) {
        trim_start_spec(s.drop_first())
    } else {
        s
    }
}

/// `s` with its trailing whitespace dropped.
pub open spec fn trim_end_spec(s: Seq<char>) -> Seq<char>
    decreases s.len(),
{
    if s.len() > 0 && is_space(s.last()) {
        trim_end_spec(s.drop_last())
    } else {
        s
    }
}

/// `s` with whitespace dropped from both ends.
pub open spec fn trimmed(s: Seq<char>) -> Seq<char> {
    trim_end_spec(trim_start_spec(s))
}

/// Law: dropping leading whitespace keeps the suffix that starts at
/// the first non-space character.
proof fn lemma_trim_start(s: Seq<char>, a: int)
    requires
        0 <= a <= s.len(),
        forall|j: int| 0 <= j < a ==> is_space(s[j]),
        a < s.len() ==> !is_space(s[a]),
    ensures
        trim_start_spec(s) == s.skip(a),
    decreases a,
{
    if a == 0 {
        assert(s.skip(0) =~= s);
    } else {
        lemma_trim_start(s.drop_first(), a - 1);
        assert(s.drop_first().skip(a - 1) =~= s.skip(a));
    }
}

/// Law: dropping trailing whitespace keeps the prefix that ends at
/// the last non-space character.
proof fn lemma_trim_end(s: Seq<char>, b: int)
    requires
        0 <= b <= s.len(),
        forall|j: int| b <= j < s.len() ==> is_space(s[j]),
        b > 0 ==> !is_space(s[b - 1]),
    ensures
        trim_end_spec(s) == s.take(b),
    decreases s.len() - b,
{
    if b == s.len() {
        assert(s.take(b) =~= s);
    } else {
        lemma_trim_end(s.drop_last(), b);
        assert(s.drop_last().take(b) =~= s.take(b));
    }
}

/// Whether the character of `s` at `i` is trimmable whitespace.
fn space_at(s: &str, i: usize) -> (r: bool)
    requires
        i < s@.len(),
    ensures
        r == is_space(s@[i as int]),
{
    let c = s.get_char(i);
    c == ' ' || c == '\t' || c == '\r' || c == '\n'
}

/// Whether a confirmation reply counts as affirmative: exactly `y` or
/// `Y` once surrounding whitespace is trimmed.
pub fn is_affirmative(input: &str) -> (r: bool)
    ensures
        r == (trimmed(input@) == seq!['y'] || trimmed(input@) == seq!['Y']),
{
    let len = input.unicode_len();
    let mut a: usize = 0;
    while a < len && space_at(input, a)
        invariant
            a <= len,
            len == input@.len(),
            forall|j: int| 0 <= j < a ==> is_space(input@[j]),
        decreases len - a,
    {
        a = a + 1;
    }
    let mut b: usize = len;
    while b > a && space_at(input, b - 1)
        invariant
            a <= b <= len,
            len == input@.len(),
            forall|j: int| 0 <= j < a ==> is_space(input@[j]),
            forall|j: int| b <= j < len ==> is_space(input@[j]),
        decreases b,
    {
        b = b - 1;
    }
    proof {
        lemma_trim_start(input@, a as int);
        if b == a {
            lemma_trim_end(input@.skip(a as int), 0);
            assert(input@.skip(a as int).take(0) =~= Seq::<char>::empty());
        } else {
            lemma_trim_end(input@.skip(a as int), b - a);
            assert(input@.skip(a as int).take(b - a) =~= input@.subrange(a as int, b as int));
        }
    }
    if b == a {
        proof {
            assert(trimmed(input@) =~= Seq::<char>::empty());
        }
        return false;
    }
    if b - a != 1 {
        proof {
            assert(trimmed(input@).len() == b - a);
        }
        return false;
    }
    let c = input.get_char(a);
    proof {
        assert(trimmed(input@) =~= seq![input@[a as int]]);
    }
    c == 'y' || c == 'Y'
}

} // verus!
