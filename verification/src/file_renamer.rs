//! The name transformer: applies rewrite rules and counter insertions
//! to the file-name component of one path, never touching the
//! filesystem.
//!
//! A path is split at its last `/`: everything before and including it
//! is the directory part, the rest is the file name every operation
//! works on. Counter insertion respects the hidden-file convention (a
//! leading dot stays the first character) and the extension convention
//! (a suffix counter lands before the last real dot).

use vstd::prelude::*;

use crate::args::Increment;
use crate::digits::format_counter;
use crate::digits::padded_dec_rep;
use crate::errors::RenameError;
use crate::rules::RewriteRule;
use crate::rules::apply_rules;
use crate::rules::apply_rules_spec;

verus! {

/// Where a counter is inserted into a file name.
#[derive(Debug)]
pub enum IncrementPosition {
    Prefix,
    Suffix,
}

/// The index where insertion may begin: 1 for a hidden file (leading
/// dot), 0 otherwise. The hidden-file dot itself is never displaced.
pub open spec fn hidden_offset(name: Seq<char>) -> int {
    if name.len() > 0 && name[0] == '.' {
        1
    } else {
        0
    }
}

/// The file name after inserting `inc`. A prefix counter goes right
/// after the hidden-file dot, or at the very start. A suffix counter
/// goes right before the last dot when that dot is a real extension
/// separator (strictly after the hidden-file position), and onto the
/// end of the name otherwise.
pub open spec fn interpolate_spec(
    name: Seq<char>,
    inc: Seq<char>,
    position: IncrementPosition,
) -> Seq<char> {
    let si = hidden_offset(name);
    match position {
        IncrementPosition::Prefix => name.take(si) + inc + name.skip(si),
        IncrementPosition::Suffix => match name.index_of_last('.') {
            Some(i) => if i > si {
                name.take(i) + inc + name.skip(i)
            } else {
                name + inc
            },
            None => name + inc,
        },
    }
}

/// The index just past the last `/` in a path: its file name starts
/// there, and 0 means the path is a bare file name.
pub open spec fn file_name_start(path: Seq<char>) -> int {
    match path.index_of_last('/') {
        Some(i) => i + 1,
        None => 0,
    }
}

/// The directory part of a path, up to and including its last `/`.
pub open spec fn dir_part(path: Seq<char>) -> Seq<char> {
    path.take(file_name_start(path))
}

/// The file-name part of a path, after its last `/`.
pub open spec fn name_part(path: Seq<char>) -> Seq<char> {
    path.skip(file_name_start(path))
}

/// The path with its file-name part replaced by `name`.
pub open spec fn with_name_part(path: Seq<char>, name: Seq<char>) -> Seq<char> {
    dir_part(path) + name
}

/// The index of the last occurrence of `c` in `s`, if any.
fn rfind_char(s: &str, c: char) -> (r: Option<usize>)
    ensures
        match s@.index_of_last(c) {
            Some(i) => r == Some(i as usize),
            None => r is None,
        },
{
    let len = s.unicode_len();
    let mut i = len;
    while i > 0
        invariant
            i <= len,
            len == s@.len(),
            forall|j: int| i <= j < len ==> s@[j] != c,
        decreases i,
    {
        i = i - 1;
        if s.get_char(i) == c {
            proof {
                s@.index_of_last_ensures(c);
                assert(s@.contains(c)) by {
                    assert(s@[i as int] == c);
                }
                let found = s@.index_of_last(c).unwrap();
                assert(found == i as int) by {
                    if found < i as int {
                        assert(s@[i as int] != c);
                    }
                    if found > i as int {
                        assert(s@[found] != c);
                    }
                }
            }
            return Some(i);
        }
    }
    proof {
        s@.index_of_last_ensures(c);
        if s@.contains(c) {
            let found = s@.index_of_last(c).unwrap();
            assert(s@[found] != c);
        }
    }
    None
}

/// Inserts `inc` into a file name at the given position, keeping a
/// hidden file's leading dot first and a real extension behind the
/// inserted text.
pub fn interpolate_increment(name: String, inc: &str, position: IncrementPosition) -> (r: String)
    ensures
        r@ == interpolate_spec(name@, inc@, position),
{
    let len = name.as_str().unicode_len();
    let start_index: usize = if len > 0 && name.as_str().get_char(0) == '.' {
        1
    } else {
        0
    };
    proof {
        assert(start_index as int == hidden_offset(name@));
    }
    match position {
        IncrementPosition::Prefix => {
            let mut r = String::from_str(name.as_str().substring_char(0, start_index));
            r.append(inc);
            r.append(name.as_str().substring_char(start_index, len));
            proof {
                assert(r@ =~= interpolate_spec(name@, inc@, position));
            }
            r
        },
        IncrementPosition::Suffix => {
            let insert_at: Option<usize> = match rfind_char(name.as_str(), '.') {
                Some(i) => {
                    proof {
                        name@.index_of_last_ensures('.');
                    }
                    if i > start_index {
                        Some(i)
                    } else {
                        None
                    }
                },
                None => None,
            };
            match insert_at {
                Some(i) => {
                    let mut r = String::from_str(name.as_str().substring_char(0, i));
                    r.append(inc);
                    r.append(name.as_str().substring_char(i, len));
                    proof {
                        assert(r@ =~= interpolate_spec(name@, inc@, position));
                    }
                    r
                },
                None => {
                    let ghost before = name@;
                    let mut r = name;
                    r.append(inc);
                    proof {
                        assert(r@ =~= interpolate_spec(before, inc@, position));
                    }
                    r
                },
            }
        },
    }
}

/// Law: a counter inserted as a prefix never breaks the leading dot
/// off a hidden file. The dot stays the first character, and the
/// counter sits right behind it.
pub proof fn lemma_prefix_insertion_keeps_hidden(name: Seq<char>, inc: Seq<char>)
    requires
        name.len() > 0,
        name[0] == '.',
    ensures
        interpolate_spec(name, inc, IncrementPosition::Prefix) == seq!['.'] + inc + name.skip(1),
        interpolate_spec(name, inc, IncrementPosition::Prefix).len() == name.len() + inc.len(),
        interpolate_spec(name, inc, IncrementPosition::Prefix)[0] == '.',
{
    assert(name.take(1) =~= seq!['.']);
    assert(interpolate_spec(name, inc, IncrementPosition::Prefix) =~= seq!['.'] + inc + name.skip(
        1,
    ));
}

/// Law: a counter inserted as a suffix lands immediately before the
/// extension dot when the name has a real extension, and the whole
/// extension survives unchanged behind it.
pub proof fn lemma_suffix_insertion_keeps_extension(name: Seq<char>, inc: Seq<char>, i: int)
    requires
        name.index_of_last('.') == Some(i),
        i > hidden_offset(name),
    ensures
        ({
            let r = interpolate_spec(name, inc, IncrementPosition::Suffix);
            &&& r.len() == name.len() + inc.len()
            &&& r.take(i) == name.take(i)
            &&& r.subrange(i, i + inc.len()) == inc
            &&& r.skip(i + inc.len()) == name.skip(i)
            &&& name[i] == '.'
            &&& r[i + inc.len()] == '.'
        }),
{
    name.index_of_last_ensures('.');
    let r = interpolate_spec(name, inc, IncrementPosition::Suffix);
    assert(r == name.take(i) + inc + name.skip(i));
    assert(r.take(i) =~= name.take(i));
    assert(r.subrange(i, i + inc.len()) =~= inc);
    assert(r.skip(i + inc.len()) =~= name.skip(i));
    assert(name.skip(i)[0] == '.');
}

/// Accumulates name transformations on one path and hands the result
/// back; nothing here reads or writes the filesystem.
pub struct FileRenamer {
    pub path: String,
}

impl FileRenamer {
    /// Creates a new builder with the received path.
    pub fn new(path: String) -> (r: FileRenamer)
        ensures
            r.path@ == path@,
    {
        FileRenamer { path }
    }

    /// The file-name part of the current path: what follows its last
    /// `/`, or all of it when it has none.
    pub fn file_name(&self) -> (r: String)
        ensures
            r@ == name_part(self.path@),
    {
        let len = self.path.as_str().unicode_len();
        let start = match rfind_char(self.path.as_str(), '/') {
            Some(i) => {
                proof {
                    self.path@.index_of_last_ensures('/');
                }
                i + 1
            },
            None => 0,
        };
        String::from_str(self.path.as_str().substring_char(start, len))
    }

    /// Replaces the file-name part of the current path, keeping the
    /// directory part.
    fn set_file_name(&mut self, name: &str)
        ensures
            final(self).path@ == with_name_part(old(self).path@, name@),
    {
        let len = self.path.as_str().unicode_len();
        let start = match rfind_char(self.path.as_str(), '/') {
            Some(i) => {
                proof {
                    self.path@.index_of_last_ensures('/');
                }
                i + 1
            },
            None => 0,
        };
        let mut r = String::from_str(self.path.as_str().substring_char(0, start));
        r.append(name);
        self.path = r;
    }

    /// Applies the `regex=replacement` rules to the file name in
    /// sequence, first-match or all-match per `replace_all`.
    pub fn apply_patterns(&mut self, replace_all: bool, patterns: &[RewriteRule]) -> (r: Result<
        (),
        RenameError,
    >)
        ensures
            r is Ok,
            final(self).path@ == with_name_part(
                old(self).path@,
                apply_rules_spec(name_part(old(self).path@), patterns@, replace_all),
            ),
    {
        let file_name = self.file_name();
        let renamed = apply_rules(file_name.as_str(), patterns, replace_all);
        self.set_file_name(renamed.as_str());
        Ok(())
    }

    /// Inserts the zero-padded counter value `start + count` into the
    /// file name at the given position. Hidden files stay hidden and
    /// extensions stay behind the counter, per `interpolate_spec`.
    pub fn increment(
        &mut self,
        position: IncrementPosition,
        increment: Increment,
        count: usize,
    ) -> (r: Result<(), RenameError>)
        requires
            increment.start + count <= usize::MAX,
        ensures
            r is Ok,
            final(self).path@ == with_name_part(
                old(self).path@,
                interpolate_spec(
                    name_part(old(self).path@),
                    padded_dec_rep((increment.start + count) as nat, increment.width as nat),
                    position,
                ),
            ),
    {
        let file_name = self.file_name();
        let inc = format_counter(increment.start + count, increment.width);
        let renamed = interpolate_increment(file_name, inc.as_str(), position);
        self.set_file_name(renamed.as_str());
        Ok(())
    }

    /// Hands back the accumulated path.
    pub fn finish(self) -> (r: String)
        ensures
            r@ == self.path@,
    {
        self.path
    }
}

} // verus!
