//! Rewrite rules: a compiled regex pattern paired with a replacement
//! template, and the sequential application of an ordered rule list to
//! a file name.
//!
//! The regex engine itself is outside code; its behaviour enters the
//! proofs only through the named results below and the contracts of
//! the trusted items that apply them.

use vstd::prelude::*;

verus! {

#[verifier::external_type_specification]
#[verifier::external_body]
pub struct ExRegex(regex::Regex);

/// Whether `pattern` is accepted by the regex engine's parser (with
/// its default configuration). Names the success of `regex::Regex::new`,
/// which is a function of the pattern text alone.
pub uninterp spec fn regex_valid(pattern: Seq<char>) -> bool;

/// Whether the regex compiled from `pattern` matches anywhere in
/// `name`. Names the result of `regex::Regex::is_match`, a function of
/// the pattern and haystack texts alone.
pub uninterp spec fn has_match(pattern: Seq<char>, name: Seq<char>) -> bool;

/// The text produced by replacing the first match of `pattern` in
/// `name` with `replacement` (capture-group references expanded).
/// Names the result of `regex::Regex::replace`, a function of the
/// three texts alone.
pub uninterp spec fn replace_first_of(
    pattern: Seq<char>,
    name: Seq<char>,
    replacement: Seq<char>,
) -> Seq<char>;

/// The text produced by replacing every non-overlapping match of
/// `pattern` in `name` with `replacement` (capture-group references
/// expanded). Names the result of `regex::Regex::replace_all`, a
/// function of the three texts alone.
pub uninterp spec fn replace_all_of(
    pattern: Seq<char>,
    name: Seq<char>,
    replacement: Seq<char>,
) -> Seq<char>;

/// One rewrite rule: a regex pattern and the replacement template for
/// what it matches. The compiled regex is kept beside the pattern text
/// it was compiled from; the only constructors, `new` and
/// `parse_pattern`, establish that pairing, and nothing alters it.
pub struct RewriteRule {
    source: String,
    regex: regex::Regex,
    replacement: String,
}

impl RewriteRule {
    /// The pattern text the rule's regex was compiled from.
    pub closed spec fn pattern(self) -> Seq<char> {
        self.source@
    }

    /// The rule's replacement template.
    pub closed spec fn replacement(self) -> Seq<char> {
        self.replacement@
    }

    /// Relies on `regex::Regex::new`: compilation succeeds exactly on
    /// the patterns its parser accepts, deterministically in the
    /// pattern text, and the compiled regex searches for that pattern
    /// (`regex::Regex::as_str` returns the text it was compiled from).
    #[verifier::external_body]
    pub fn new(pattern: &str, replacement: &str) -> (r: Option<RewriteRule>)
        ensures
            r is Some <==> regex_valid(pattern@),
            match r {
                Some(rule) => rule.pattern() == pattern@ && rule.replacement() == replacement@,
                None => true,
            },
    {
        match regex::Regex::new(pattern) {
            Ok(regex) => Some(RewriteRule {
                source: pattern.to_owned(),
                regex,
                replacement: replacement.to_owned(),
            }),
            Err(_) => None,
        }
    }

    /// Relies on `regex::Regex::replace`: the result is a function of
    /// the pattern, haystack, and replacement texts alone, and a
    /// haystack without a match is returned unchanged.
    #[verifier::external_body]
    fn replace_first(&self, name: &str) -> (r: String)
        ensures
            r@ == replace_first_of(self.pattern(), name@, self.replacement()),
            !has_match(self.pattern(), name@) ==> r@ == name@,
    {
        self.regex.replace(name, self.replacement.as_str()).into_owned()
    }

    /// Relies on `regex::Regex::replace_all`: the result is a function
    /// of the pattern, haystack, and replacement texts alone, and a
    /// haystack without a match is returned unchanged.
    #[verifier::external_body]
    fn replace_all(&self, name: &str) -> (r: String)
        ensures
            r@ == replace_all_of(self.pattern(), name@, self.replacement()),
            !has_match(self.pattern(), name@) ==> r@ == name@,
    {
        self.regex.replace_all(name, self.replacement.as_str()).into_owned()
    }
}

/// The result of one rule on a name: every non-overlapping match is
/// replaced when `match_all` is set, only the first match otherwise.
pub open spec fn apply_one_spec(name: Seq<char>, rule: RewriteRule, match_all: bool) -> Seq<
    char,
> {
    if match_all {
        replace_all_of(rule.pattern(), name, rule.replacement())
    } else {
        replace_first_of(rule.pattern(), name, rule.replacement())
    }
}

/// The result of a rule list on a name: rules run in order, each on
/// the output of the one before it.
pub open spec fn apply_rules_spec(name: Seq<char>, rules: Seq<RewriteRule>, match_all: bool) -> Seq<
    char,
>
    decreases rules.len(),
{
    if rules.len() == 0 {
        name
    } else {
        apply_rules_spec(apply_one_spec(name, rules[0], match_all), rules.drop_first(), match_all)
    }
}

/// Law: an empty rule list leaves every name unchanged.
pub proof fn lemma_apply_rules_empty(name: Seq<char>, match_all: bool)
    ensures
        apply_rules_spec(name, Seq::<RewriteRule>::empty(), match_all) == name,
{
}

/// Law: rule application composes sequentially. Running the
/// concatenation of two rule lists equals running the first list, then
/// the second on its result.
pub proof fn lemma_apply_rules_compose(
    name: Seq<char>,
    first: Seq<RewriteRule>,
    second: Seq<RewriteRule>,
    match_all: bool,
)
    ensures
        apply_rules_spec(name, first + second, match_all) == apply_rules_spec(
            apply_rules_spec(name, first, match_all),
            second,
            match_all,
        ),
    decreases first.len(),
{
    if first.len() == 0 {
        assert(first + second =~= second);
    } else {
        let stepped = apply_one_spec(name, first[0], match_all);
        assert((first + second).drop_first() =~= first.drop_first() + second);
        lemma_apply_rules_compose(stepped, first.drop_first(), second, match_all);
    }
}

/// Applies the rules to `name` in order, each rule seeing the output
/// of the previous one; `match_all` selects all-match replacement over
/// first-match. A name no rule matches comes back unchanged.
pub fn apply_rules(name: &str, rules: &[RewriteRule], match_all: bool) -> (r: String)
    ensures
        r@ == apply_rules_spec(name@, rules@, match_all),
        (forall|i: int|
            0 <= i < rules@.len() ==> !has_match(rules@[i].pattern(), name@)) ==> r@ == name@,
{
    let mut current = String::from_str(name);
    let n = rules.len();
    let mut j: usize = 0;
    while j < n
        invariant
            j <= n,
            n == rules@.len(),
            current@ == apply_rules_spec(name@, rules@.take(j as int), match_all),
            (forall|i: int| 0 <= i < j ==> !has_match(rules@[i].pattern(), name@)) ==> current@
                == name@,
        decreases n - j,
    {
        let rule = &rules[j];
        let next = if match_all {
            rule.replace_all(current.as_str())
        } else {
            rule.replace_first(current.as_str())
        };
        proof {
            let taken = rules@.take(j as int);
            let single = seq![rules@[j as int]];
            lemma_apply_rules_compose(name@, taken, single, match_all);
            assert(taken + single =~= rules@.take(j as int + 1));
            let stepped = apply_one_spec(current@, rules@[j as int], match_all);
            assert(single.drop_first() =~= Seq::<RewriteRule>::empty());
            assert(apply_rules_spec(stepped, single.drop_first(), match_all) == stepped);
            assert(apply_rules_spec(current@, single, match_all) == stepped);
        }
        current = next;
        j = j + 1;
    }
    proof {
        assert(rules@.take(n as int) =~= rules@);
    }
    current
}

/// Reads a `REGEX=REPLACEMENT` argument: the text before the first
/// `=` is compiled as the pattern, the text after it is the
/// replacement template. Returns `None` when no `=` is present or the
/// pattern does not compile.
pub fn parse_pattern(s: &str) -> (r: Option<RewriteRule>)
    ensures
        match r {
            Some(rule) => {
                &&& s@.contains('=')
                &&& regex_valid(rule.pattern())
                &&& rule.pattern() == s@.take(s@.index_of_first('=').unwrap())
                &&& rule.replacement() == s@.skip(s@.index_of_first('=').unwrap() + 1)
            },
            None => !s@.contains('=') || !regex_valid(
                s@.take(s@.index_of_first('=').unwrap()),
            ),
        },
{
    let len = s.unicode_len();
    let mut i: usize = 0;
    while i < len
        invariant
            i <= len,
            len == s@.len(),
            forall|j: int| 0 <= j < i ==> s@[j] != '=',
        decreases len - i,
    {
        if s.get_char(i) == '=' {
            proof {
                s@.index_of_first_ensures('=');
                let found = s@.index_of_first('=').unwrap();
                assert(s@.contains('=')) by {
                    assert(s@[i as int] == '=');
                }
                assert(found == i as int) by {
                    if found < i as int {
                        assert(s@[found] == '=');
                    }
                    if found > i as int {
                        assert(s@[i as int] != '=');
                    }
                }
            }
            let pattern = s.substring_char(0, i);
            let replacement = s.substring_char(i + 1, len);
            return RewriteRule::new(pattern, replacement);
        }
        i = i + 1;
    }
    proof {
        s@.index_of_first_ensures('=');
        if s@.contains('=') {
            let found = s@.index_of_first('=').unwrap();
            assert(s@[found] != '=');
        }
    }
    None
}

} // verus!
