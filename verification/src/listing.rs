use vstd::prelude::*;
use vstd::multiset::Multiset;
use crate::chars::{lex_le, lex_le_exec, is_prefix, is_prefix_exec, lemma_lex_total, lemma_lex_trans};
use crate::entry::{Entry, keep_entry, keep_pred};

verus! {

broadcast use vstd::seq_lib::group_to_multiset_ensures;

/// The prefix filter of the roam matcher as a predicate on entries.
pub open spec fn prefix_pred(rest: Seq<char>) -> spec_fn(Entry) -> bool {
    |e: Entry| is_prefix(rest, e.name@)
}

/// The entry sequence is sorted ascending by name.
pub open spec fn entries_sorted(s: Seq<Entry>) -> bool {
    forall|i: int, j: int| 0 <= i < j < s.len() ==> lex_le(#[trigger] s[i].name@, #[trigger] s[j].name@)
}

/// Places `e` at its sorted position, keeping the vector sorted by name
/// and adding exactly `e` to its contents.
fn sorted_insert(out: &mut Vec<Entry>, e: Entry)
    requires
        entries_sorted(old(out)@),
    ensures
        entries_sorted(final(out)@),
        final(out)@.to_multiset() == old(out)@.to_multiset().insert(e),
{
    let mut k: usize = 0;
    while k < out.len() && lex_le_exec(&out[k].name, &e.name)
        invariant
            k <= out.len(),
            entries_sorted(out@),
            forall|j: int| 0 <= j < k ==> lex_le(#[trigger] out@[j].name@, e.name@),
        decreases out.len() - k,
    {
        k = k + 1;
    }
    proof {
        if k < out@.len() {
            lemma_lex_total(out@[k as int].name@, e.name@);
            assert forall|j: int| k <= j < out@.len() implies lex_le(e.name@, #[trigger] out@[j].name@) by {
                if j > k {
                    assert(lex_le(out@[k as int].name@, out@[j].name@));
                    lemma_lex_trans(e.name@, out@[k as int].name@, out@[j].name@);
                }
            }
        }
    }
    let ghost prev = out@;
    out.insert(k, e);
    proof {
        assert(out@ == prev.insert(k as int, e));
        vstd::seq_lib::to_multiset_insert(prev, k as int, e);
        assert forall|i: int, j: int| 0 <= i < j < out@.len() implies lex_le(#[trigger] out@[i].name@, #[trigger] out@[j].name@) by {
            if i < k && j < k {
                assert(out@[i] == prev[i] && out@[j] == prev[j]);
            } else if i < k && j == k {
                assert(out@[i] == prev[i]);
            } else if i < k && j > k {
                assert(out@[i] == prev[i] && out@[j] == prev[j - 1]);
            } else if i == k {
                assert(out@[j] == prev[j - 1]);
            } else {
                assert(out@[i] == prev[i - 1] && out@[j] == prev[j - 1]);
            }
        }
    }
}

/// Drops the entries that the hidden-file filter rejects and sorts the
/// survivors ascending by name; the result holds exactly those survivors.
pub fn filter_and_sort(raw: Vec<Entry>, show_hidden: bool) -> (out: Vec<Entry>)
    ensures
        entries_sorted(out@),
        out@.to_multiset() == raw@.filter(keep_pred(show_hidden)).to_multiset(),
{
    broadcast use vstd::seq_lib::group_seq_properties;

    let ghost orig = raw@;
    let ghost pred = keep_pred(show_hidden);
    let mut rest = raw;
    let n_total: usize = rest.len();
    let mut out: Vec<Entry> = Vec::new();
    let mut i: usize = 0;
    proof {
        assert(orig.subrange(0, 0).filter(pred) =~= out@);
    }
    while rest.len() > 0
        invariant
            n_total == orig.len(),
            i <= n_total,
            rest@ =~= orig.subrange(i as int, orig.len() as int),
            entries_sorted(out@),
            out@.to_multiset() == orig.subrange(0, i as int).filter(pred).to_multiset(),
            pred == keep_pred(show_hidden),
        decreases rest.len(),
    {
        let ghost prev_taken = orig.subrange(0, i as int);
        proof {
            assert(i < n_total);
        }
        let e = rest.remove(0);
        proof {
            assert(e == orig[i as int]);
            assert(rest@ =~= orig.subrange(i + 1, orig.len() as int));
            assert(orig.subrange(0, i + 1) =~= prev_taken.push(e));
            prev_taken.lemma_filter_push(e, pred);
        }
        let keep = show_hidden || !(e.name.len() > 0 && e.name[0] == '.');
        proof {
            assert(keep == pred(e));
        }
        if keep {
            sorted_insert(&mut out, e);
        }
        i = i + 1;
    }
    proof {
        assert(orig.subrange(0, orig.len() as int) =~= orig);
    }
    out
}

/// Keeps only the entries whose name starts with `rest`, in order.
pub fn filter_by_prefix(entries: Vec<Entry>, rest: &Vec<char>) -> (out: Vec<Entry>)
    ensures
        out@ == entries@.filter(prefix_pred(rest@)),
{
    broadcast use vstd::seq_lib::group_seq_properties;

    let ghost orig = entries@;
    let ghost pred = prefix_pred(rest@);
    let mut src = entries;
    let n_total: usize = src.len();
    let mut out: Vec<Entry> = Vec::new();
    let mut i: usize = 0;
    proof {
        assert(orig.subrange(0, 0).filter(pred) =~= out@);
    }
    while src.len() > 0
        invariant
            n_total == orig.len(),
            i <= n_total,
            src@ =~= orig.subrange(i as int, orig.len() as int),
            out@ == orig.subrange(0, i as int).filter(pred),
            pred == prefix_pred(rest@),
        decreases src.len(),
    {
        let ghost prev_taken = orig.subrange(0, i as int);
        proof {
            assert(i < n_total);
        }
        let e = src.remove(0);
        proof {
            assert(e == orig[i as int]);
            assert(src@ =~= orig.subrange(i + 1, orig.len() as int));
            assert(orig.subrange(0, i + 1) =~= prev_taken.push(e));
            prev_taken.lemma_filter_push(e, pred);
        }
        if is_prefix_exec(rest, &e.name) {
            out.push(e);
        }
        i = i + 1;
    }
    proof {
        assert(orig.subrange(0, orig.len() as int) =~= orig);
    }
    out
}

/// Filtering keeps a sorted sequence sorted.
pub proof fn lemma_filter_keeps_sorted(s: Seq<Entry>, pred: spec_fn(Entry) -> bool)
    requires
        entries_sorted(s),
    ensures
        entries_sorted(s.filter(pred)),
    decreases s.len(),
{
    broadcast use vstd::seq_lib::group_seq_properties;

    if s.len() > 0 {
        let head = s.drop_last();
        assert(s =~= head.push(s.last()));
        lemma_filter_keeps_sorted(head, pred);
        head.lemma_filter_push(s.last(), pred);
        let f = head.filter(pred);
        assert forall|j: int| 0 <= j < f.len() implies lex_le(#[trigger] f[j].name@, s.last().name@) by {
            head.lemma_filter_contains_rev(pred, f[j]);
            let k = choose|k: int| 0 <= k < head.len() && head[k] == f[j];
            assert(s[k] == f[j]);
            assert(lex_le(s[k].name@, s[s.len() - 1].name@));
        }
    }
}

/// Filtering and taking the contents commute: the multiset of a
/// filtered sequence is the filtered multiset.
pub proof fn lemma_filter_to_multiset(s: Seq<Entry>, p: spec_fn(Entry) -> bool)
    ensures
        s.filter(p).to_multiset() == s.to_multiset().filter(p),
    decreases s.len(),
{
    broadcast use vstd::multiset::group_multiset_axioms;

    if s.len() == 0 {
        assert(s.filter(p) =~= s);
        assert(s.to_multiset() =~= Multiset::<Entry>::empty());
        assert(Multiset::<Entry>::empty().filter(p) =~= Multiset::<Entry>::empty());
    } else {
        let h = s.drop_last();
        let a = s.last();
        lemma_filter_to_multiset(h, p);
        h.lemma_filter_push(a, p);
        assert(s =~= h.push(a));
        if p(a) {
            assert(s.filter(p).to_multiset() == h.filter(p).to_multiset().insert(a));
            assert(s.to_multiset().filter(p) =~= h.to_multiset().filter(p).insert(a));
        } else {
            assert(s.to_multiset().filter(p) =~= h.to_multiset().filter(p));
        }
    }
}

} // verus!
