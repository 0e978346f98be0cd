//! Removing repeated entries from a list while keeping the first of each,
//! and the facts that make it the right thing to do with error lists.

use vstd::prelude::*;
use crate::text::{views, lemma_views_push, same_text, copy_string};
use crate::paths::{PathModel, PathView, path_view, paths_view};

verus! {

/// The list with every entry after its first occurrence removed.
pub open spec fn dedup_seq<A>(s: Seq<A>) -> Seq<A>
    decreases s.len(),
{
    if s.len() == 0 {
        Seq::empty()
    } else {
        let d = dedup_seq(s.drop_last());
        if d.contains(s.last()) {
            d
        } else {
            d.push(s.last())
        }
    }
}

/// Removing repeats leaves no entry twice, and exactly the entries that
/// were there.
pub proof fn lemma_dedup_distinct_same_entries<A>(s: Seq<A>)
    ensures
        dedup_seq(s).no_duplicates(),
        forall|x: A| #[trigger] dedup_seq(s).contains(x) <==> s.contains(x),
    decreases s.len(),
{
    if s.len() > 0 {
        let t = s.drop_last();
        lemma_dedup_distinct_same_entries(t);
        let d = dedup_seq(t);
        assert forall|x: A| #[trigger] s.contains(x) <==> (t.contains(x) || x == s.last()) by {
            if s.contains(x) {
                let k = choose|k: int| 0 <= k < s.len() && s[k] == x;
                if k < s.len() - 1 {
                    assert(t[k] == s[k]);
                }
            }
            if t.contains(x) {
                let k = choose|k: int| 0 <= k < t.len() && t[k] == x;
                assert(s[k] == t[k]);
            }
            if x == s.last() {
                assert(s[s.len() - 1] == x);
            }
        }
        if !d.contains(s.last()) {
            let e = d.push(s.last());
            assert forall|x: A| #[trigger] e.contains(x) <==> (d.contains(x) || x == s.last()) by {
                if e.contains(x) {
                    let k = choose|k: int| 0 <= k < e.len() && e[k] == x;
                    if k < d.len() {
                        assert(d[k] == e[k]);
                    }
                }
                if d.contains(x) {
                    let k = choose|k: int| 0 <= k < d.len() && d[k] == x;
                    assert(e[k] == d[k]);
                }
                if x == s.last() {
                    assert(e[e.len() - 1] == x);
                }
            }
        }
        if !d.contains(s.last()) {
            let e = d.push(s.last());
            assert forall|i: int, j: int| 0 <= i < e.len() && 0 <= j < e.len() && i != j implies e[i] != e[j] by {
                if i < d.len() && j < d.len() {
                } else if i == d.len() {
                    assert(d[j] == e[j]);
                } else {
                    assert(d[i] == e[i]);
                }
            }
        }
    }
}

/// A list with no repeated entry is left as it is.
pub proof fn lemma_dedup_of_distinct<A>(s: Seq<A>)
    requires
        s.no_duplicates(),
    ensures
        dedup_seq(s) == s,
    decreases s.len(),
{
    if s.len() > 0 {
        let t = s.drop_last();
        assert(t.no_duplicates()) by {
            assert forall|i: int, j: int| 0 <= i < t.len() && 0 <= j < t.len() && i != j implies t[i] != t[j] by {
                assert(s[i] == t[i] && s[j] == t[j]);
            }
        }
        lemma_dedup_of_distinct(t);
        lemma_dedup_distinct_same_entries(t);
        if t.contains(s.last()) {
            let k = choose|k: int| 0 <= k < t.len() && t[k] == s.last();
            assert(s[k] == s[s.len() - 1]);
        }
        assert(t.push(s.last()) =~= s);
    }
}

/// Removing repeats twice is removing them once.
pub proof fn lemma_dedup_idempotent<A>(s: Seq<A>)
    ensures
        dedup_seq(dedup_seq(s)) == dedup_seq(s),
{
    lemma_dedup_distinct_same_entries(s);
    lemma_dedup_of_distinct(dedup_seq(s));
}

/// One more entry: kept when it is new, dropped when it was seen.
pub proof fn lemma_dedup_take_step<A>(s: Seq<A>, i: int)
    requires
        0 <= i < s.len(),
    ensures
        dedup_seq(s.take(i + 1)) == (if dedup_seq(s.take(i)).contains(s[i]) {
            dedup_seq(s.take(i))
        } else {
            dedup_seq(s.take(i)).push(s[i])
        }),
{
    assert(s.take(i + 1).drop_last() =~= s.take(i));
}

fn same_texts(a: &Vec<String>, b: &Vec<String>) -> (r: bool)
    ensures
        r == (views(a@) == views(b@)),
{
    if a.len() != b.len() {
        proof {
            if views(a@) == views(b@) {
                assert(views(a@).len() == views(b@).len());
            }
        }
        return false;
    }
    let mut i: usize = 0;
    while i < a.len()
        invariant
            i <= a.len() == b.len(),
            forall|k: int| 0 <= k < i ==> a@[k]@ == b@[k]@,
        decreases a.len() - i,
    {
        if !same_text(&a[i], &b[i]) {
            proof {
                if views(a@) == views(b@) {
                    assert(views(a@)[i as int] == views(b@)[i as int]);
                }
            }
            return false;
        }
        i += 1;
    }
    assert(views(a@) =~= views(b@));
    true
}

fn copy_texts(v: &Vec<String>) -> (r: Vec<String>)
    ensures
        views(r@) == views(v@),
{
    let mut out: Vec<String> = Vec::new();
    let mut i: usize = 0;
    while i < v.len()
        invariant
            i <= v.len(),
            views(out@) == views(v@.take(i as int)),
        decreases v.len() - i,
    {
        let ghost before = out@;
        out.push(copy_string(&v[i]));
        proof { lemma_views_push(before, out@.last()); }
        assert(v@.take(i + 1) =~= v@.take(i as int).push(v@[i as int]));
        proof { lemma_views_push(v@.take(i as int), v@[i as int]); }
        i += 1;
    }
    assert(v@.take(v.len() as int) =~= v@);
    out
}

/// Two paths are the same path: the same leading `::`, segments and
/// generic arguments.
pub fn same_path(a: &PathModel, b: &PathModel) -> (r: bool)
    ensures
        r == (path_view(*a) == path_view(*b)),
{
    a.leading_colon == b.leading_colon && same_texts(&a.segments, &b.segments)
        && same_texts(&a.arguments, &b.arguments)
}

/// A copy of a path.
pub fn copy_path(p: &PathModel) -> (r: PathModel)
    ensures
        path_view(r) == path_view(*p),
{
    PathModel {
        leading_colon: p.leading_colon,
        segments: copy_texts(&p.segments),
        arguments: copy_texts(&p.arguments),
    }
}

fn contains_path(list: &Vec<PathModel>, p: &PathModel) -> (r: bool)
    ensures
        r == paths_view(list@).contains(path_view(*p)),
{
    let mut i: usize = 0;
    while i < list.len()
        invariant
            i <= list.len(),
            forall|k: int| 0 <= k < i ==> path_view(list@[k]) != path_view(*p),
        decreases list.len() - i,
    {
        if same_path(&list[i], p) {
            assert(paths_view(list@)[i as int] == path_view(*p));
            return true;
        }
        i += 1;
    }
    proof {
        if paths_view(list@).contains(path_view(*p)) {
            let k = choose|k: int| 0 <= k < paths_view(list@).len() && paths_view(list@)[k] == path_view(*p);
            assert(path_view(list@[k]) == path_view(*p));
        }
    }
    false
}

/// The paths with repeats removed, keeping the first of each.
pub fn dedup_paths(v: &Vec<PathModel>) -> (r: Vec<PathModel>)
    ensures
        paths_view(r@) == dedup_seq(paths_view(v@)),
{
    let ghost all = paths_view(v@);
    let mut out: Vec<PathModel> = Vec::new();
    let mut i: usize = 0;
    assert(all.take(0) =~= Seq::<PathView>::empty());
    while i < v.len()
        invariant
            i <= v.len(),
            all == paths_view(v@),
            paths_view(out@) == dedup_seq(all.take(i as int)),
        decreases v.len() - i,
    {
        proof { lemma_dedup_take_step(all, i as int); }
        assert(all[i as int] == path_view(v@[i as int]));
        if !contains_path(&out, &v[i]) {
            let ghost before = out@;
            out.push(copy_path(&v[i]));
            assert(paths_view(out@) =~= paths_view(before).push(path_view(out@.last())));
        }
        i += 1;
    }
    assert(all.take(v.len() as int) =~= all);
    out
}

/// The strings with repeats removed, keeping the first of each.
pub fn dedup_strings(v: &Vec<String>) -> (r: Vec<String>)
    ensures
        views(r@) == dedup_seq(views(v@)),
{
    let ghost all = views(v@);
    let mut out: Vec<String> = Vec::new();
    let mut i: usize = 0;
    assert(all.take(0) =~= Seq::<Seq<char>>::empty());
    while i < v.len()
        invariant
            i <= v.len(),
            all == views(v@),
            views(out@) == dedup_seq(all.take(i as int)),
        decreases v.len() - i,
    {
        proof { lemma_dedup_take_step(all, i as int); }
        assert(all[i as int] == v@[i as int]@);
        let mut found = false;
        let mut j: usize = 0;
        while j < out.len()
            invariant
                i < v.len(),
                j <= out.len(),
                found == (exists|k: int| 0 <= k < j && out@[k]@ == v@[i as int]@),
            decreases out.len() - j,
        {
            if same_text(&out[j], &v[i]) {
                found = true;
            }
            j += 1;
        }
        proof {
            if views(out@).contains(all[i as int]) {
                let k = choose|k: int| 0 <= k < views(out@).len() && views(out@)[k] == all[i as int];
                assert(out@[k]@ == v@[i as int]@);
            }
            if found {
                let k = choose|k: int| 0 <= k < j && out@[k]@ == v@[i as int]@;
                assert(views(out@)[k] == all[i as int]);
            }
        }
        if !found {
            let ghost before = out@;
            out.push(copy_string(&v[i]));
            proof { lemma_views_push(before, out@.last()); }
        }
        i += 1;
    }
    assert(all.take(v.len() as int) =~= all);
    out
}

} // verus!
