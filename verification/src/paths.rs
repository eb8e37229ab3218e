use vstd::prelude::*;
use crate::chars::{chars_range, clone_chars};

verus! {

/// The path without its trailing separators.
pub open spec fn trim_slashes(s: Seq<char>) -> Seq<char>
    decreases s.len(),
{
    if s.len() > 0 && s.last() == '/' {
        trim_slashes(s.drop_last())
    } else {
        s
    }
}

/// The path without its trailing run of non-separator characters.
pub open spec fn trim_component(s: Seq<char>) -> Seq<char>
    decreases s.len(),
{
    if s.len() > 0 && s.last() != '/' {
        trim_component(s.drop_last())
    } else {
        s
    }
}

/// The path without its trailing separators, except that a single
/// leading separator, the root, is kept.
pub open spec fn trim_extra_slashes(s: Seq<char>) -> Seq<char>
    decreases s.len(),
{
    if s.len() > 1 && s.last() == '/' {
        trim_extra_slashes(s.drop_last())
    } else {
        s
    }
}

/// The parent directory of a path: trailing separators dropped, then the
/// last component, then the separators before it; the root and the empty
/// path have no parent.
pub open spec fn parent_of(s: Seq<char>) -> Option<Seq<char>> {
    let t = trim_slashes(s);
    if t.len() == 0 {
        None
    } else {
        Some(trim_extra_slashes(trim_component(t)))
    }
}

proof fn lemma_trim_slashes_len(s: Seq<char>)
    ensures
        trim_slashes(s).len() <= s.len(),
        trim_slashes(s).len() > 0 ==> trim_slashes(s).last() != '/',
    decreases s.len(),
{
    if s.len() > 0 && s.last() == '/' {
        lemma_trim_slashes_len(s.drop_last());
    }
}

proof fn lemma_trim_component_len(s: Seq<char>)
    ensures
        trim_component(s).len() <= s.len(),
        s.len() > 0 && s.last() != '/' ==> trim_component(s).len() < s.len(),
    decreases s.len(),
{
    if s.len() > 0 && s.last() != '/' {
        lemma_trim_component_len(s.drop_last());
    }
}

proof fn lemma_trim_extra_slashes_len(s: Seq<char>)
    ensures
        trim_extra_slashes(s).len() <= s.len(),
    decreases s.len(),
{
    if s.len() > 1 && s.last() == '/' {
        lemma_trim_extra_slashes_len(s.drop_last());
    }
}

/// A parent is strictly shorter than its child.
pub proof fn lemma_parent_shorter(s: Seq<char>)
    requires
        parent_of(s) is Some,
    ensures
        parent_of(s).unwrap().len() < s.len(),
{
    lemma_trim_slashes_len(s);
    lemma_trim_component_len(trim_slashes(s));
    lemma_trim_extra_slashes_len(trim_component(trim_slashes(s)));
}

/// Index just past `trim_slashes(v@.subrange(0, from))`.
fn scan_back_slashes(v: &Vec<char>, from: usize) -> (i: usize)
    requires
        from <= v.len(),
    ensures
        i <= from,
        v@.subrange(0, i as int) == trim_slashes(v@.subrange(0, from as int)),
    decreases from,
{
    if from > 0 && v[from - 1] == '/' {
        proof {
            assert(v@.subrange(0, from as int).last() == v@[from - 1]);
            assert(v@.subrange(0, from as int).drop_last() =~= v@.subrange(0, from - 1));
        }
        scan_back_slashes(v, from - 1)
    } else {
        proof {
            if from > 0 {
                assert(v@.subrange(0, from as int).last() == v@[from - 1]);
            }
        }
        from
    }
}

/// Index just past `trim_component(v@.subrange(0, from))`.
fn scan_back_component(v: &Vec<char>, from: usize) -> (i: usize)
    requires
        from <= v.len(),
    ensures
        i <= from,
        v@.subrange(0, i as int) == trim_component(v@.subrange(0, from as int)),
    decreases from,
{
    if from > 0 && v[from - 1] != '/' {
        proof {
            assert(v@.subrange(0, from as int).last() == v@[from - 1]);
            assert(v@.subrange(0, from as int).drop_last() =~= v@.subrange(0, from - 1));
        }
        scan_back_component(v, from - 1)
    } else {
        proof {
            if from > 0 {
                assert(v@.subrange(0, from as int).last() == v@[from - 1]);
            }
        }
        from
    }
}

/// Index just past `trim_extra_slashes(v@.subrange(0, from))`.
fn scan_back_extra_slashes(v: &Vec<char>, from: usize) -> (i: usize)
    requires
        from <= v.len(),
    ensures
        i <= from,
        v@.subrange(0, i as int) == trim_extra_slashes(v@.subrange(0, from as int)),
    decreases from,
{
    if from > 1 && v[from - 1] == '/' {
        proof {
            assert(v@.subrange(0, from as int).last() == v@[from - 1]);
            assert(v@.subrange(0, from as int).drop_last() =~= v@.subrange(0, from - 1));
        }
        scan_back_extra_slashes(v, from - 1)
    } else {
        proof {
            if from > 0 {
                assert(v@.subrange(0, from as int).last() == v@[from - 1]);
            }
        }
        from
    }
}

/// Computes the parent directory of a path, as `parent_of` states it.
pub fn parent_exec(v: &Vec<char>) -> (r: Option<Vec<char>>)
    ensures
        match r {
            Some(p) => parent_of(v@) == Some(p@),
            None => parent_of(v@) is None,
        },
{
    proof {
        assert(v@.subrange(0, v@.len() as int) =~= v@);
    }
    let t = scan_back_slashes(v, v.len());
    if t == 0 {
        proof {
            assert(trim_slashes(v@) =~= v@.subrange(0, 0));
        }
        None
    } else {
        let c = scan_back_component(v, t);
        let e = scan_back_extra_slashes(v, c);
        Some(chars_range(v, 0, e))
    }
}

/// A pending segment as a segment list: empty segments are dropped.
pub open spec fn seg_close(cur: Seq<char>) -> Seq<Seq<char>> {
    if cur.len() == 0 {
        Seq::empty()
    } else {
        seq![cur]
    }
}

/// The non-empty segments of `s` split on the separator, after the
/// characters of `cur`, an unfinished segment read before `s`.
pub open spec fn split_acc(s: Seq<char>, cur: Seq<char>) -> Seq<Seq<char>>
    decreases s.len(),
{
    if s.len() == 0 {
        seg_close(cur)
    } else if s[0] == '/' {
        seg_close(cur) + split_acc(s.skip(1), Seq::empty())
    } else {
        split_acc(s.skip(1), cur.push(s[0]))
    }
}

/// The non-empty segments of `s`, split on the separator.
pub open spec fn split_segments(s: Seq<char>) -> Seq<Seq<char>> {
    split_acc(s, Seq::empty())
}

/// The segments joined with single separators between them.
pub open spec fn join_slash(segs: Seq<Seq<char>>) -> Seq<char>
    decreases segs.len(),
{
    if segs.len() == 0 {
        Seq::empty()
    } else if segs.len() == 1 {
        segs[0]
    } else {
        segs[0] + seq!['/'] + join_slash(segs.skip(1))
    }
}

/// The word-delete gesture: the path split into its non-empty segments,
/// the last segment dropped, and the rest rejoined under the root.
pub open spec fn word_deleted(s: Seq<char>) -> Seq<char> {
    let segs = split_segments(s);
    let kept = if segs.len() == 0 {
        segs
    } else {
        segs.drop_last()
    };
    seq!['/'] + join_slash(kept)
}

/// The views of a sequence of character vectors.
pub open spec fn views_of(v: Seq<Vec<char>>) -> Seq<Seq<char>> {
    v.map_values(|x: Vec<char>| x@)
}

/// Splits `s` on the separator, dropping empty segments.
fn split_exec(s: &Vec<char>) -> (out: Vec<Vec<char>>)
    ensures
        views_of(out@) == split_segments(s@),
{
    let mut out: Vec<Vec<char>> = Vec::new();
    let mut cur: Vec<char> = Vec::new();
    let mut i: usize = 0;
    proof {
        assert(views_of(out@) =~= Seq::<Seq<char>>::empty());
        assert(s@.skip(0) =~= s@);
    }
    while i < s.len()
        invariant
            i <= s.len(),
            split_segments(s@) == views_of(out@) + split_acc(s@.skip(i as int), cur@),
        decreases s.len() - i,
    {
        let ghost prev_out = out@;
        let ghost prev_cur = cur@;
        proof {
            assert(s@.skip(i as int)[0] == s@[i as int]);
            assert(s@.skip(i as int).skip(1) =~= s@.skip(i + 1));
        }
        if s[i] == '/' {
            if cur.len() > 0 {
                out.push(cur);
                cur = Vec::new();
                proof {
                    assert(views_of(out@) =~= views_of(prev_out).push(prev_cur));
                    assert(views_of(prev_out) + (seg_close(prev_cur) + split_acc(s@.skip(i + 1), cur@))
                        =~= views_of(out@) + split_acc(s@.skip(i + 1), cur@));
                }
            } else {
                proof {
                    assert(cur@ =~= Seq::<char>::empty());
                    assert(seg_close(prev_cur) + split_acc(s@.skip(i + 1), Seq::<char>::empty())
                        =~= split_acc(s@.skip(i + 1), Seq::<char>::empty()));
                }
            }
        } else {
            cur.push(s[i]);
        }
        i = i + 1;
    }
    proof {
        assert(s@.skip(s@.len() as int) =~= Seq::<char>::empty());
    }
    if cur.len() > 0 {
        let ghost prev_out = out@;
        let ghost prev_cur = cur@;
        out.push(cur);
        proof {
            assert(views_of(out@) =~= views_of(prev_out).push(prev_cur));
            assert(views_of(prev_out) + seg_close(prev_cur) =~= views_of(out@));
        }
    } else {
        proof {
            assert(views_of(out@) + seg_close(cur@) =~= views_of(out@));
        }
    }
    out
}

/// Joins the segments from index `i` on with single separators.
fn join_from(segs: &Vec<Vec<char>>, i: usize) -> (r: Vec<char>)
    requires
        i <= segs.len(),
    ensures
        r@ == join_slash(views_of(segs@).skip(i as int)),
    decreases segs.len() - i,
{
    if i == segs.len() {
        proof {
            assert(views_of(segs@).skip(i as int) =~= Seq::<Seq<char>>::empty());
        }
        Vec::new()
    } else if i + 1 == segs.len() {
        proof {
            assert(views_of(segs@).skip(i as int)[0] == segs@[i as int]@);
        }
        clone_chars(&segs[i])
    } else {
        let mut r = clone_chars(&segs[i]);
        r.push('/');
        let mut tail = join_from(segs, i + 1);
        r.append(&mut tail);
        proof {
            assert(views_of(segs@).skip(i as int)[0] == segs@[i as int]@);
            assert(views_of(segs@).skip(i as int).skip(1) =~= views_of(segs@).skip(i + 1));
            assert(r@ =~= views_of(segs@).skip(i as int)[0] + seq!['/'] + join_slash(
                views_of(segs@).skip(i + 1)));
        }
        r
    }
}

/// Deletes the last path segment: the word-delete gesture of a Backspace
/// that follows a lone Escape.
pub fn word_delete(s: &Vec<char>) -> (r: Vec<char>)
    ensures
        r@ == word_deleted(s@),
{
    let mut segs = split_exec(s);
    let ghost all = views_of(segs@);
    if segs.len() > 0 {
        segs.pop();
        proof {
            assert(views_of(segs@) =~= all.drop_last());
        }
    }
    let mut r: Vec<char> = Vec::new();
    r.push('/');
    let mut tail = join_from(&segs, 0);
    r.append(&mut tail);
    proof {
        assert(views_of(segs@).skip(0) =~= views_of(segs@));
        assert(r@ =~= word_deleted(s@));
    }
    r
}

/// `v` is the full parent chain of `s`: `s` itself first, then each
/// parent in turn, down to a path with no parent.
pub open spec fn is_ancestor_chain(v: Seq<Vec<char>>, s: Seq<char>) -> bool {
    &&& v.len() >= 1
    &&& v[0]@ == s
    &&& forall|i: int| 1 <= i < v.len() ==> parent_of(#[trigger] v[i - 1]@) == Some(v[i]@)
    &&& parent_of(v[v.len() - 1]@) is None
}

/// The typed path and each of its parents in turn, longest first: the
/// chain of prefixes the roam matcher probes for an existing directory.
pub fn ancestor_candidates(s: &Vec<char>) -> (out: Vec<Vec<char>>)
    ensures
        is_ancestor_chain(out@, s@),
{
    let first = clone_chars(s);
    let mut out: Vec<Vec<char>> = Vec::new();
    out.push(first);
    loop
        invariant
            out.len() >= 1,
            out@[0]@ == s@,
            forall|i: int| 1 <= i < out.len() ==> parent_of(#[trigger] out@[i - 1]@) == Some(out@[i]@),
        ensures
            out.len() >= 1,
            out@[0]@ == s@,
            forall|i: int| 1 <= i < out.len() ==> parent_of(#[trigger] out@[i - 1]@) == Some(out@[i]@),
            parent_of(out@[out.len() - 1]@) is None,
        decreases out@[out.len() - 1]@.len(),
    {
        let last = &out[out.len() - 1];
        match parent_exec(last) {
            None => {
                break;
            },
            Some(p) => {
                proof {
                    lemma_parent_shorter(last@);
                }
                out.push(p);
            },
        }
    }
    out
}

} // verus!
