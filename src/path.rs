use vstd::prelude::*;
use vstd::string::StrSliceExecFns;
use vstd::string::StringExecFns;

use crate::error::views;

verus! {

broadcast use vstd::string::group_string_axioms;

/// A separator in a configured relative path: `'/'` or `'\\'`, whatever the host.
pub open spec fn is_separator(c: char) -> bool {
    c == '/' || c == '\\'
}

/// `done` with `cur` added as a component, unless `cur` is empty or `"."`.
pub open spec fn close_component(done: Seq<Seq<char>>, cur: Seq<char>) -> Seq<Seq<char>> {
    if cur.len() == 0 || cur == seq!['.'] {
        done
    } else {
        done.push(cur)
    }
}

/// Scanning `s` from the left: the components closed so far, and the
/// component under way.
pub open spec fn split_scan(s: Seq<char>) -> (Seq<Seq<char>>, Seq<char>)
    decreases s.len(),
{
    if s.len() == 0 {
        (seq![], seq![])
    } else {
        let (done, cur) = split_scan(s.drop_last());
        if is_separator(s.last()) {
            (close_component(done, cur), seq![])
        } else {
            (done, cur.push(s.last()))
        }
    }
}

/// The components of a relative path: the pieces between separators, with
/// empty pieces and `"."` left out.
pub open spec fn components_of(s: Seq<char>) -> Seq<Seq<char>> {
    close_component(split_scan(s).0, split_scan(s).1)
}

/// Components joined by `'/'`.
pub open spec fn join_slash(cs: Seq<Seq<char>>) -> Seq<char>
    decreases cs.len(),
{
    if cs.len() == 0 {
        seq![]
    } else if cs.len() == 1 {
        cs[0]
    } else {
        join_slash(cs.drop_last()) + seq!['/'] + cs.last()
    }
}

/// The name of an archive member: the components joined by `'/'`, and for a
/// directory a trailing `'/'`.
pub open spec fn member_name_of(cs: Seq<Seq<char>>, is_dir: bool) -> Seq<char> {
    if is_dir {
        join_slash(cs) + seq!['/']
    } else {
        join_slash(cs)
    }
}

/// A component that survives splitting: not empty, not `"."`, and without
/// separators.
pub open spec fn plain_component(c: Seq<char>) -> bool {
    &&& c.len() > 0
    &&& c != seq!['.']
    &&& forall|i: int| 0 <= i < c.len() ==> !is_separator(#[trigger] c[i])
}

/// Scanning text without separators only extends the component under way.
proof fn lemma_scan_plain(s: Seq<char>, c: Seq<char>)
    requires
        forall|i: int| 0 <= i < c.len() ==> !is_separator(#[trigger] c[i]),
    ensures
        split_scan(s + c) == (split_scan(s).0, split_scan(s).1 + c),
    decreases c.len(),
{
    if c.len() == 0 {
        assert(s + c =~= s);
        assert(split_scan(s).1 + c =~= split_scan(s).1);
    } else {
        let d = c.drop_last();
        lemma_scan_plain(s, d);
        assert((s + c).drop_last() =~= s + d);
        assert((s + c).last() == c.last());
        assert(split_scan(s).1 + d.push(c.last()) =~= (split_scan(s).1 + d).push(c.last()));
        assert(d.push(c.last()) =~= c);
    }
}

/// Scanning a separator closes the component under way.
proof fn lemma_scan_separator(s: Seq<char>)
    ensures
        split_scan(s.push('/')) == (close_component(split_scan(s).0, split_scan(s).1), Seq::<char>::empty()),
{
    assert(s.push('/').drop_last() =~= s);
}

/// Scanning joined components leaves all but the last closed and the last
/// under way.
proof fn lemma_scan_joined(cs: Seq<Seq<char>>)
    requires
        cs.len() > 0,
        forall|i: int| 0 <= i < cs.len() ==> plain_component(#[trigger] cs[i]),
    ensures
        split_scan(join_slash(cs)) == (cs.drop_last(), cs.last()),
    decreases cs.len(),
{
    if cs.len() == 1 {
        lemma_scan_plain(seq![], cs[0]);
        assert(Seq::<char>::empty() + cs[0] =~= cs[0]);
        assert(cs.drop_last() =~= Seq::<Seq<char>>::empty());
        assert(Seq::<char>::empty() + cs[0] =~= cs[0]);
    } else {
        let front = cs.drop_last();
        assert(forall|i: int| 0 <= i < front.len() ==> plain_component(#[trigger] front[i])) by {
            assert forall|i: int| 0 <= i < front.len() implies plain_component(#[trigger] front[i]) by {
                assert(front[i] == cs[i]);
            }
        }
        lemma_scan_joined(front);
        let j = join_slash(front);
        lemma_scan_separator(j);
        assert(plain_component(front.last()));
        assert(front.drop_last().push(front.last()) =~= front);
        lemma_scan_plain(j.push('/'), cs.last());
        assert(j + seq!['/'] =~= j.push('/'));
        assert(Seq::<char>::empty() + cs.last() =~= cs.last());
    }
}

/// Splitting a member name at its separators gives back exactly the
/// components it was made from, for a file and for a directory.
pub proof fn lemma_member_name_splits_back(cs: Seq<Seq<char>>)
    requires
        forall|i: int| 0 <= i < cs.len() ==> plain_component(#[trigger] cs[i]),
    ensures
        components_of(member_name_of(cs, false)) == cs,
        components_of(member_name_of(cs, true)) == cs,
{
    if cs.len() == 0 {
        assert(member_name_of(cs, false) =~= Seq::<char>::empty());
        assert(cs =~= Seq::<Seq<char>>::empty());
        lemma_scan_separator(Seq::<char>::empty());
        assert(member_name_of(cs, true) =~= Seq::<char>::empty().push('/'));
    } else {
        lemma_scan_joined(cs);
        assert(plain_component(cs.last()));
        assert(cs.drop_last().push(cs.last()) =~= cs);
        lemma_scan_separator(join_slash(cs));
        assert(member_name_of(cs, true) =~= join_slash(cs).push('/'));
    }
}

/// The components of a relative path from the configuration. Both `'/'` and
/// `'\\'` separate; empty pieces and `"."` are dropped.
pub fn split_components(path: &str) -> (r: Vec<String>)
    ensures
        views(r@) == components_of(path@),
{
    let n = path.unicode_len();
    let mut r: Vec<String> = Vec::new();
    let mut start: usize = 0;
    let mut i: usize = 0;
    while i < n
        invariant
            n == path@.len(),
            start <= i <= n,
            split_scan(path@.subrange(0, i as int)) == (
                views(r@),
                path@.subrange(start as int, i as int),
            ),
        decreases n - i,
    {
        let c = path.get_char(i);
        let ghost cur = path@.subrange(start as int, i as int);
        assert(path@.subrange(0, i + 1).drop_last() =~= path@.subrange(0, i as int));
        if c == '/' || c == '\\' {
            let dot = i - start == 1 && path.get_char(start) == '.';
            if i > start && !dot {
                assert(cur != seq!['.']) by {
                    if cur == seq!['.'] {
                        assert(cur.len() == 1 && cur[0] == path@[start as int]);
                    }
                }
                let piece = path.substring_char(start, i).to_string();
                let ghost before = r@;
                r.push(piece);
                proof {
                    crate::error::lemma_views_push(before, piece);
                }
            } else {
                assert(cur.len() == 0 || cur =~= seq!['.']);
            }
            start = i + 1;
            assert(path@.subrange(start as int, i + 1).len() == 0);
        } else {
            assert(path@.subrange(start as int, i + 1) =~= cur.push(c));
        }
        i = i + 1;
    }
    assert(path@.subrange(0, n as int) =~= path@);
    let ghost cur = path@.subrange(start as int, n as int);
    let dot = n - start == 1 && path.get_char(start) == '.';
    if n > start && !dot {
        assert(cur != seq!['.']) by {
            if cur == seq!['.'] {
                assert(cur.len() == 1 && cur[0] == path@[start as int]);
            }
        }
        let piece = path.substring_char(start, n).to_string();
        let ghost before = r@;
        r.push(piece);
        proof {
            crate::error::lemma_views_push(before, piece);
        }
    } else {
        assert(cur.len() == 0 || cur =~= seq!['.']);
    }
    r
}

/// The archive member name for the path with components `parts`: joined by
/// `'/'` whatever the host's separator, and ending in `'/'` for a directory.
pub fn member_name(parts: &Vec<String>, is_dir: bool) -> (r: String)
    ensures
        r@ == member_name_of(views(parts@), is_dir),
{
    let ghost cs = views(parts@);
    let mut r = String::new();
    let mut i: usize = 0;
    while i < parts.len()
        invariant
            i <= parts.len(),
            cs == views(parts@),
            r@ == join_slash(cs.subrange(0, i as int)),
        decreases parts.len() - i,
    {
        assert(cs.subrange(0, i + 1).drop_last() =~= cs.subrange(0, i as int));
        if i > 0 {
            r.append("/");
            proof {
                reveal_strlit("/");
            }
        }
        r.append(parts[i].as_str());
        i = i + 1;
    }
    assert(cs.subrange(0, i as int) =~= cs);
    if is_dir {
        r.append("/");
        proof {
            reveal_strlit("/");
        }
    }
    r
}

} // verus!
