use vstd::prelude::*;
use vstd::string::StringExecFns;

verus! {

broadcast use vstd::string::group_string_axioms;

/// The views of a list of strings.
pub open spec fn views(v: Seq<String>) -> Seq<Seq<char>> {
    v.map_values(|s: String| s@)
}

/// Everything that can stop a backup, as lines of text for the user.
pub enum Error {
    /// A configured path does not exist, or the configuration is unusable.
    ConfigMissingOrInvalid(Vec<String>),
    /// The destination archive exists already or is not an archive path.
    DestinationConflict(String),
    /// The source vanished between validation and the run.
    SourceMissing(String),
    /// A read, write or create failed; holds the system's own text.
    IOFailure(String),
    /// A path could not be made relative to its source root.
    PathComputationFailure(String),
    /// Free text, one line per item.
    Custom(Vec<String>),
}

impl Error {
    /// The lines that describe the error, in order.
    pub open spec fn texts_of(&self) -> Seq<Seq<char>> {
        match self {
            Error::ConfigMissingOrInvalid(v) => views(v@),
            Error::DestinationConflict(s) => seq![s@],
            Error::SourceMissing(s) => seq![s@],
            Error::IOFailure(s) => seq![s@],
            Error::PathComputationFailure(s) => seq![s@],
            Error::Custom(v) => views(v@),
        }
    }

    /// The lines that describe the error, in order.
    pub fn texts(self) -> (r: Vec<String>)
        ensures
            views(r@) == self.texts_of(),
    {
        match self {
            Error::ConfigMissingOrInvalid(v) => v,
            Error::DestinationConflict(s) => {
                let r = vec![s];
                assert(views(r@) =~= self.texts_of());
                r
            },
            Error::SourceMissing(s) => {
                let r = vec![s];
                assert(views(r@) =~= self.texts_of());
                r
            },
            Error::IOFailure(s) => {
                let r = vec![s];
                assert(views(r@) =~= self.texts_of());
                r
            },
            Error::PathComputationFailure(s) => {
                let r = vec![s];
                assert(views(r@) =~= self.texts_of());
                r
            },
            Error::Custom(v) => v,
        }
    }

    /// A free-text error with the given lines.
    pub fn new(text: Vec<String>) -> (r: Error)
        ensures
            r is Custom,
            r.texts_of() == views(text@),
    {
        Error::Custom(text)
    }

    /// A free-text error of one line.
    pub fn new_s(text: &str) -> (r: Error)
        ensures
            r is Custom,
            r.texts_of() == seq![text@],
    {
        let r = Error::Custom(vec![text.to_string()]);
        assert(r.texts_of() =~= seq![text@]);
        r
    }

    /// A free-text error: one line of context, then the lines of `cause`.
    pub fn new_j(text: &str, cause: Error) -> (r: Error)
        ensures
            r is Custom,
            r.texts_of() == seq![text@] + cause.texts_of(),
    {
        let ghost cause_texts = cause.texts_of();
        let mut v: Vec<String> = vec![text.to_string()];
        let rest = cause.texts();
        let mut i: usize = 0;
        assert(views(v@) =~= seq![text@] + cause_texts.subrange(0, 0));
        while i < rest.len()
            invariant
                i <= rest.len(),
                views(rest@) == cause_texts,
                views(v@) =~= seq![text@] + cause_texts.subrange(0, i as int),
            decreases rest.len() - i,
        {
            let ghost before = v@;
            v.push(rest[i].clone());
            proof {
                lemma_views_push(before, rest@[i as int]);
            }
            assert(views(v@) =~= seq![text@] + cause_texts.subrange(0, i + 1));
            i = i + 1;
        }
        assert(cause_texts.subrange(0, i as int) =~= cause_texts);
        Error::Custom(v)
    }
}

/// Views of a list with one more string.
pub proof fn lemma_views_push(v: Seq<String>, s: String)
    ensures
        views(v.push(s)) == views(v).push(s@),
{
    assert(views(v.push(s)) =~= views(v).push(s@));
}

/// `a` followed by `b`.
pub fn joined(a: &str, b: &str) -> (r: String)
    ensures
        r@ == a@ + b@,
{
    let mut s = a.to_string();
    s.append(b);
    s
}

} // verus!
