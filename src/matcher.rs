use vstd::prelude::*;
use vstd::string::StrSliceExecFns;

verus! {

broadcast use vstd::string::group_string_axioms;

/// Position of the last `'.'` in `name`, or -1 when it has none.
pub open spec fn last_dot(name: Seq<char>) -> int
    decreases name.len(),
{
    if name.len() == 0 {
        -1
    } else if name.last() == '.' {
        name.len() - 1
    } else {
        last_dot(name.drop_last())
    }
}

/// The extension of a file name: the text after its last `'.'`, if any.
pub open spec fn extension_of(name: Seq<char>) -> Option<Seq<char>> {
    if last_dot(name) < 0 {
        None
    } else {
        Some(name.subrange(last_dot(name) + 1, name.len() as int))
    }
}

/// Does a pattern ask for an extension rule (`*.<ext>`)?
pub open spec fn is_extension_pattern(p: Seq<char>) -> bool {
    p.len() >= 2 && p[0] == '*' && p[1] == '.'
}

/// A rule that suppresses files from an archive.
pub enum ExclusionRule {
    /// Matches a file whose whole name equals the text.
    Literal(String),
    /// Matches a file whose extension equals the text.
    Extension(String),
}

impl ExclusionRule {
    /// The rule that a raw pattern stands for.
    pub open spec fn spec_from_pattern(p: Seq<char>) -> (Seq<char>, bool) {
        if is_extension_pattern(p) {
            (p.subrange(2, p.len() as int), true)
        } else {
            (p, false)
        }
    }

    /// The rule's text, and whether it is an extension rule.
    pub open spec fn view(&self) -> (Seq<char>, bool) {
        match self {
            ExclusionRule::Literal(t) => (t@, false),
            ExclusionRule::Extension(e) => (e@, true),
        }
    }

    /// Does the rule match the base name `name`?
    pub open spec fn spec_matches(&self, name: Seq<char>) -> bool {
        match self {
            ExclusionRule::Literal(t) => t@ == name,
            ExclusionRule::Extension(e) => extension_of(name) == Some(e@),
        }
    }

    /// Builds the rule for a raw pattern: `*.<ext>` is an extension rule,
    /// anything else a literal file name.
    pub fn new(pattern: &str) -> (r: ExclusionRule)
        ensures
            r@ == Self::spec_from_pattern(pattern@),
    {
        let n = pattern.unicode_len();
        if n >= 2 && pattern.get_char(0) == '*' && pattern.get_char(1) == '.' {
            let ext = pattern.substring_char(2, n);
            ExclusionRule::Extension(ext.to_string())
        } else {
            ExclusionRule::Literal(pattern.to_string())
        }
    }

    /// Does the rule match the base name `name`? Case-sensitive.
    pub fn matches(&self, name: &str) -> (r: bool)
        ensures
            r == self.spec_matches(name@),
    {
        match self {
            ExclusionRule::Literal(t) => {
                let n = name.to_string();
                *t == n
            },
            ExclusionRule::Extension(e) => {
                match extension(name) {
                    Some(x) => x == *e,
                    None => false,
                }
            },
        }
    }
}

/// The text after the last `'.'` of `name`, if it has a `'.'`.
pub fn extension(name: &str) -> (r: Option<String>)
    ensures
        r matches Some(x) ==> extension_of(name@) == Some(x@),
        r is None ==> extension_of(name@) is None,
{
    let n = name.unicode_len();
    let mut i: usize = n;
    assert(name@.subrange(0, n as int) =~= name@);
    while i > 0
        invariant
            i <= n == name@.len(),
            last_dot(name@) == last_dot(name@.subrange(0, i as int)),
        decreases i,
    {
        if name.get_char(i - 1) == '.' {
            assert(name@.subrange(0, i as int).last() == '.');
            let x = name.substring_char(i, n);
            return Some(x.to_string());
        }
        assert(name@.subrange(0, i as int).drop_last() =~= name@.subrange(0, i - 1));
        i = i - 1;
    }
    assert(name@.subrange(0, 0).len() == 0);
    None
}

/// Is `name` (a file's base name) excluded by any of `rules`?
pub open spec fn spec_is_excluded(name: Seq<char>, rules: Seq<ExclusionRule>) -> bool {
    exists|i: int| 0 <= i < rules.len() && #[trigger] rules[i].spec_matches(name)
}

/// Is the file named `name` (its base name, no directories) excluded by any
/// of `rules`? False for an empty rule list.
pub fn is_excluded(name: &str, rules: &Vec<ExclusionRule>) -> (r: bool)
    ensures
        r == spec_is_excluded(name@, rules@),
{
    let mut i: usize = 0;
    while i < rules.len()
        invariant
            i <= rules.len(),
            forall|j: int| 0 <= j < i ==> !(#[trigger] rules@[j].spec_matches(name@)),
        decreases rules.len() - i,
    {
        if rules[i].matches(name) {
            return true;
        }
        i = i + 1;
    }
    false
}

/// With no rules, no file name is excluded.
pub proof fn lemma_no_rules_exclude_nothing(name: Seq<char>)
    ensures
        !spec_is_excluded(name, Seq::<ExclusionRule>::empty()),
{
}

/// The rules for a list of raw patterns, in the same order.
pub fn rules_from_patterns(patterns: &Vec<String>) -> (r: Vec<ExclusionRule>)
    ensures
        r.len() == patterns.len(),
        forall|i: int|
            0 <= i < r.len() ==> #[trigger] r@[i]@ == ExclusionRule::spec_from_pattern(
                patterns@[i]@,
            ),
{
    let mut r: Vec<ExclusionRule> = Vec::new();
    let mut i: usize = 0;
    while i < patterns.len()
        invariant
            i <= patterns.len(),
            r.len() == i,
            forall|j: int|
                0 <= j < i ==> #[trigger] r@[j]@ == ExclusionRule::spec_from_pattern(
                    patterns@[j]@,
                ),
        decreases patterns.len() - i,
    {
        r.push(ExclusionRule::new(patterns[i].as_str()));
        i = i + 1;
    }
    r
}

} // verus!
