//! Validated option values handed to the batch executor: counter
//! decorations and the full option set for one run.

use vstd::prelude::*;

use crate::digits::dec_value;
use crate::digits::is_digit;
use crate::digits::digit_value;
use crate::rules::RewriteRule;

verus! {

/// A zero-padded counter decoration: `width` is the padding width and
/// `start` the first counter value, both read from a literal digit
/// string such as `"0501"` (width 4, start 501).
#[derive(Debug, Copy, Clone)]
pub struct Increment {
    pub width: usize,
    pub start: usize,
}

/// Reads an increment specification from a literal digit string: the
/// string's length gives the padding width and its decimal value the
/// starting counter. Returns `None` when the string is empty, holds a
/// non-digit, or encodes a value too large for the machine.
pub fn parse_increment(s: &str) -> (r: Option<Increment>)
    ensures
        match r {
            Some(inc) => {
                &&& s@.len() > 0
                &&& forall|i: int| 0 <= i < s@.len() ==> is_digit(s@[i])
                &&& dec_value(s@) <= usize::MAX
                &&& inc.width == s@.len()
                &&& inc.start == dec_value(s@)
            },
            None => s@.len() == 0 || (exists|i: int|
                0 <= i < s@.len() && !is_digit(s@[i])) || dec_value(s@) > usize::MAX,
        },
{
    let len = s.unicode_len();
    if len == 0 {
        return None;
    }
    let mut value: usize = 0;
    let mut i: usize = 0;
    while i < len
        invariant
            i <= len,
            len == s@.len(),
            forall|j: int| 0 <= j < i ==> is_digit(s@[j]),
            value == dec_value(s@.take(i as int)),
        decreases len - i,
    {
        let c = s.get_char(i);
        let d: usize = if c == '0' {
            0
        } else if c == '1' {
            1
        } else if c == '2' {
            2
        } else if c == '3' {
            3
        } else if c == '4' {
            4
        } else if c == '5' {
            5
        } else if c == '6' {
            6
        } else if c == '7' {
            7
        } else if c == '8' {
            8
        } else if c == '9' {
            9
        } else {
            proof {
                assert(!is_digit(s@[i as int]));
            }
            return None;
        };
        proof {
            assert(is_digit(s@[i as int]) && d == digit_value(s@[i as int]));
        }
        let shifted = match value.checked_mul(10) {
            Some(v) => v,
            None => {
                proof {
                    let t = s@.take((i + 1) as int);
                    assert(t.drop_last() =~= s@.take(i as int));
                    assert(t.last() == s@[i as int]);
                    assert(dec_value(t) == value * 10 + digit_value(s@[i as int]));
                    lemma_dec_value_prefix_bound(s@, (i + 1) as int);
                }
                return None;
            },
        };
        let next = match shifted.checked_add(d) {
            Some(v) => v,
            None => {
                proof {
                    let t = s@.take((i + 1) as int);
                    assert(t.drop_last() =~= s@.take(i as int));
                    assert(t.last() == s@[i as int]);
                    assert(dec_value(t) == value * 10 + digit_value(s@[i as int]));
                    lemma_dec_value_prefix_bound(s@, (i + 1) as int);
                }
                return None;
            },
        };
        value = next;
        i = i + 1;
        proof {
            assert(s@.take(i as int).drop_last() =~= s@.take(i as int - 1));
            assert(s@.take(i as int).last() == s@[i as int - 1]);
            assert(value == dec_value(s@.take(i as int)));
        }
    }
    proof {
        assert(s@.take(len as int) =~= s@);
    }
    Some(Increment { width: len, start: value })
}

/// Law: extending a digit string can only increase its decimal value,
/// so an overflowing prefix means the whole string overflows.
proof fn lemma_dec_value_prefix_bound(s: Seq<char>, i: int)
    requires
        0 < i <= s.len(),
    ensures
        dec_value(s) >= dec_value(s.take(i)),
    decreases s.len() - i,
{
    if i == s.len() {
        assert(s.take(i) =~= s);
    } else {
        lemma_dec_value_prefix_bound(s, i + 1);
        assert(s.take(i + 1).drop_last() =~= s.take(i));
        assert(dec_value(s.take(i + 1)) >= dec_value(s.take(i)));
    }
}

/// The validated options for one run, as the batch executor consumes
/// them: behavioral flags, optional counter decorations, the rewrite
/// rules (the mandatory one first), and the files to rename.
pub struct Options {
    pub global: bool,
    pub dry_run: bool,
    pub verbose: bool,
    pub force: bool,
    pub interactive: bool,
    pub ignore_invalid_files: bool,
    pub prefix_increment: Option<Increment>,
    pub suffix_increment: Option<Increment>,
    pub pattern: RewriteRule,
    pub patterns: Vec<RewriteRule>,
    pub files: Vec<String>,
}

} // verus!
