//! The orders the tracker keeps its lists in: projects alphabetically by
//! lower-cased name, entries newest first. Both sorts are stable, like
//! `slice::sort_by_key` and `slice::sort_by`.

use vstd::prelude::*;
use crate::model::{Project, TimeEntry};
use crate::text::chars_of;

verus! {

// ---------------------------------------------------------------------------
// Text order

/// `a` sorts strictly before `b` in the order of `String`: lexicographic by
/// Unicode scalar value.
pub open spec fn chars_before(a: Seq<char>, b: Seq<char>) -> bool
    decreases a.len(),
{
    if a.len() == 0 {
        b.len() > 0
    } else if b.len() == 0 {
        false
    } else if a[0] != b[0] {
        a[0] < b[0]
    } else {
        chars_before(a.drop_first(), b.drop_first())
    }
}

/// The text order is irreflexive and asymmetric, and any two different texts
/// are ordered one way or the other.
pub proof fn lemma_chars_before_total(a: Seq<char>, b: Seq<char>)
    ensures
        !chars_before(a, a),
        chars_before(a, b) ==> !chars_before(b, a),
        a != b ==> chars_before(a, b) || chars_before(b, a),
    decreases a.len(),
{
    if a.len() > 0 {
        lemma_chars_before_total(a.drop_first(), a.drop_first());
        if b.len() > 0 {
            lemma_chars_before_total(a.drop_first(), b.drop_first());
            if a[0] == b[0] && a.drop_first() == b.drop_first() {
                assert(a =~= seq![a[0]] + a.drop_first());
                assert(b =~= seq![b[0]] + b.drop_first());
            }
        }
    } else if b.len() == 0 {
        assert(a =~= b);
    }
}

/// The text order is transitive.
pub proof fn lemma_chars_before_transitive(a: Seq<char>, b: Seq<char>, c: Seq<char>)
    requires
        chars_before(a, b),
        chars_before(b, c),
    ensures
        chars_before(a, c),
    decreases a.len(),
{
    if a.len() > 0 && b.len() > 0 && c.len() > 0 && a[0] == b[0] && b[0] == c[0] {
        lemma_chars_before_transitive(a.drop_first(), b.drop_first(), c.drop_first());
    }
}

fn text_before(a: &Vec<char>, b: &Vec<char>) -> (r: bool)
    ensures
        r == chars_before(a@, b@),
{
    let mut i: usize = 0;
    assert(a@.skip(0) =~= a@ && b@.skip(0) =~= b@);
    while i < a.len() && i < b.len() && a[i] == b[i]
        invariant
            i <= a.len(),
            i <= b.len(),
            forall|k: int| 0 <= k < i ==> a@[k] == b@[k],
            chars_before(a@, b@) == chars_before(a@.skip(i as int), b@.skip(i as int)),
        decreases a.len() - i,
    {
        proof {
            let x = a@.skip(i as int);
            let y = b@.skip(i as int);
            assert(x.drop_first() =~= a@.skip(i + 1));
            assert(y.drop_first() =~= b@.skip(i + 1));
        }
        i = i + 1;
    }
    let ghost x = a@.skip(i as int);
    let ghost y = b@.skip(i as int);
    if i == a.len() {
        i < b.len()
    } else if i == b.len() {
        false
    } else {
        assert(x[0] == a@[i as int] && y[0] == b@[i as int]);
        a[i] < b[i]
    }
}

// ---------------------------------------------------------------------------
// Projects by name

/// Unicode lower case of a text, as `str::to_lowercase` gives it.
pub uninterp spec fn lowercase(s: Seq<char>) -> Seq<char>;

/// The lower case of a text.
///
/// Trusted: calls `str::to_lowercase`; the contract claims the result is
/// `lowercase` of the characters, a function of them alone.
#[verifier::external_body]
fn to_lowercase(s: &str) -> (l: String)
    ensures
        l@ == lowercase(s@),
{
    s.to_lowercase()
}

/// The key projects are sorted by.
pub open spec fn name_key(p: Project) -> Seq<char> {
    lowercase(p.name@)
}

/// Inserts `p` into a name-sorted list after every project whose key does
/// not sort after its own.
pub open spec fn insert_by_name(s: Seq<Project>, p: Project) -> Seq<Project>
    decreases s.len(),
{
    if s.len() == 0 {
        seq![p]
    } else if chars_before(name_key(p), name_key(s.last())) {
        insert_by_name(s.drop_last(), p).push(s.last())
    } else {
        s.push(p)
    }
}

/// `s` stably sorted by lower-cased name.
pub open spec fn sorted_by_name(s: Seq<Project>) -> Seq<Project>
    decreases s.len(),
{
    if s.len() == 0 {
        s
    } else {
        insert_by_name(sorted_by_name(s.drop_last()), s.last())
    }
}

/// No project sorts after a later one.
pub open spec fn names_ordered(s: Seq<Project>) -> bool {
    forall|i: int, j: int|
        0 <= i < j < s.len() ==> !chars_before(name_key(#[trigger] s[j]), name_key(#[trigger] s[i]))
}

proof fn lemma_insert_by_name_at(s: Seq<Project>, p: Project, j: int)
    requires
        0 <= j <= s.len(),
        forall|k: int| j <= k < s.len() ==> chars_before(name_key(p), name_key(#[trigger] s[k])),
        j > 0 ==> !chars_before(name_key(p), name_key(s[j - 1])),
    ensures
        insert_by_name(s, p) == s.insert(j, p),
    decreases s.len(),
{
    if s.len() == 0 {
        assert(s.insert(0, p) =~= seq![p]);
    } else if j == s.len() {
        assert(s.insert(j, p) =~= s.push(p));
    } else {
        let t = s.drop_last();
        assert forall|k: int| j <= k < t.len() implies chars_before(
            name_key(p),
            name_key(#[trigger] t[k]),
        ) by {
            assert(t[k] == s[k]);
        }
        if j > 0 {
            assert(t[j - 1] == s[j - 1]);
        }
        lemma_insert_by_name_at(t, p, j);
        assert(s.insert(j, p) =~= t.insert(j, p).push(s.last()));
    }
}

/// Sorts projects stably by lower-cased name.
pub fn sort_projects_by_name(projects: &mut Vec<Project>)
    ensures
        final(projects)@ == sorted_by_name(old(projects)@),
{
    let ghost input = projects@;
    let mut sorted: Vec<Project> = Vec::new();
    let n = projects.len();
    let mut i: usize = 0;
    while i < n
        invariant
            i <= n == input.len(),
            projects@ == input,
            sorted@ == sorted_by_name(input.take(i as int)),
        decreases n - i,
    {
        let p = projects[i].clone();
        let key_text = to_lowercase(p.name.as_str());
        let key = chars_of(key_text.as_str());
        let mut j: usize = sorted.len();
        let mut placed = false;
        while j > 0 && !placed
            invariant
                j <= sorted.len(),
                key@ == name_key(p),
                forall|k: int|
                    j <= k < sorted.len() ==> chars_before(name_key(p), name_key(#[trigger] sorted@[k])),
                placed ==> j > 0 && !chars_before(name_key(p), name_key(sorted@[j - 1])),
            decreases j + (if placed { 0int } else { 1int }),
        {
            let other_text = to_lowercase(sorted[j - 1].name.as_str());
            let other = chars_of(other_text.as_str());
            if text_before(&key, &other) {
                j = j - 1;
            } else {
                placed = true;
            }
        }
        proof {
            lemma_insert_by_name_at(sorted@, p, j as int);
            assert(input.take(i + 1).drop_last() =~= input.take(i as int));
            assert(input.take(i + 1).last() == input[i as int]);
        }
        sorted.insert(j, p);
        i = i + 1;
    }
    assert(input.take(n as int) =~= input);
    *projects = sorted;
}

/// Inserting a project keeps the projects it was inserted among, plus it.
pub proof fn lemma_insert_by_name_multiset(s: Seq<Project>, p: Project)
    ensures
        insert_by_name(s, p).to_multiset() =~= s.to_multiset().insert(p),
    decreases s.len(),
{
    broadcast use vstd::seq_lib::group_to_multiset_ensures;

    if s.len() > 0 && chars_before(name_key(p), name_key(s.last())) {
        lemma_insert_by_name_multiset(s.drop_last(), p);
        assert(s =~= s.drop_last().push(s.last()));
    } else if s.len() == 0 {
        assert(seq![p] =~= Seq::<Project>::empty().push(p));
    }
}

/// Sorting by name is a permutation: the same projects, each as often.
pub proof fn lemma_sorted_by_name_permutes(s: Seq<Project>)
    ensures
        sorted_by_name(s).to_multiset() =~= s.to_multiset(),
    decreases s.len(),
{
    broadcast use vstd::seq_lib::group_to_multiset_ensures;

    if s.len() > 0 {
        lemma_sorted_by_name_permutes(s.drop_last());
        lemma_insert_by_name_multiset(sorted_by_name(s.drop_last()), s.last());
        assert(s =~= s.drop_last().push(s.last()));
    }
}

proof fn lemma_insert_by_name_ordered(s: Seq<Project>, p: Project)
    requires
        names_ordered(s),
    ensures
        names_ordered(insert_by_name(s, p)),
    decreases s.len(),
{
    broadcast use vstd::seq_lib::group_to_multiset_ensures;

    let r = insert_by_name(s, p);
    if s.len() == 0 {
    } else if chars_before(name_key(p), name_key(s.last())) {
        let t = s.drop_last();
        let last = s.last();
        assert(names_ordered(t)) by {
            assert forall|i: int, j: int| 0 <= i < j < t.len() implies !chars_before(
                name_key(#[trigger] t[j]),
                name_key(#[trigger] t[i]),
            ) by {
                assert(t[i] == s[i] && t[j] == s[j]);
            }
        }
        lemma_insert_by_name_ordered(t, p);
        lemma_insert_by_name_multiset(t, p);
        let u = insert_by_name(t, p);
        assert forall|i: int, j: int| 0 <= i < j < r.len() implies !chars_before(
            name_key(#[trigger] r[j]),
            name_key(#[trigger] r[i]),
        ) by {
            if j == r.len() - 1 {
                let x = u[i];
                assert(u.to_multiset().count(x) > 0);
                assert(u.contains(x));
                if x == p {
                    lemma_chars_before_total(name_key(p), name_key(last));
                } else {
                    assert(t.to_multiset().count(x) > 0);
                    assert(t.contains(x));
                    let k = choose|k: int| 0 <= k < t.len() && t[k] == x;
                    assert(s[k] == x);
                    assert(!chars_before(name_key(s[s.len() - 1]), name_key(s[k])));
                }
            } else {
                assert(r[i] == u[i] && r[j] == u[j]);
            }
        }
    } else {
        let last = s.last();
        assert forall|i: int, j: int| 0 <= i < j < r.len() implies !chars_before(
            name_key(#[trigger] r[j]),
            name_key(#[trigger] r[i]),
        ) by {
            if j == r.len() - 1 {
                let x = s[i];
                if chars_before(name_key(p), name_key(x)) {
                    lemma_chars_before_total(name_key(p), name_key(last));
                    if i < s.len() - 1 {
                        assert(!chars_before(name_key(s[s.len() - 1]), name_key(s[i])));
                    }
                    if name_key(p) != name_key(last) {
                        lemma_chars_before_transitive(name_key(last), name_key(p), name_key(x));
                    }
                }
            } else {
                assert(r[i] == s[i] && r[j] == s[j]);
            }
        }
    }
}

/// Sorting by name orders the projects: no project's lower-cased name
/// sorts after that of a project further down.
pub proof fn lemma_sorted_by_name_ordered(s: Seq<Project>)
    ensures
        names_ordered(sorted_by_name(s)),
    decreases s.len(),
{
    if s.len() > 0 {
        lemma_sorted_by_name_ordered(s.drop_last());
        lemma_insert_by_name_ordered(sorted_by_name(s.drop_last()), s.last());
    }
}


/// Projects already in name order are left as they are by sorting.
pub proof fn lemma_sorted_by_name_keeps_ordered(s: Seq<Project>)
    requires
        names_ordered(s),
    ensures
        sorted_by_name(s) == s,
    decreases s.len(),
{
    if s.len() > 0 {
        let t = s.drop_last();
        assert(names_ordered(t)) by {
            assert forall|i: int, j: int| 0 <= i < j < t.len() implies !chars_before(
                name_key(#[trigger] t[j]),
                name_key(#[trigger] t[i]),
            ) by {
                assert(t[i] == s[i] && t[j] == s[j]);
            }
        }
        lemma_sorted_by_name_keeps_ordered(t);
        if t.len() > 0 {
            assert(t.last() == s[s.len() - 2]);
        }
        assert(s =~= t.push(s.last()));
    }
}

/// Sorting projects by name twice is sorting them once.
pub proof fn lemma_sorted_by_name_idempotent(s: Seq<Project>)
    ensures
        sorted_by_name(sorted_by_name(s)) == sorted_by_name(s),
{
    lemma_sorted_by_name_ordered(s);
    lemma_sorted_by_name_keeps_ordered(sorted_by_name(s));
}

// ---------------------------------------------------------------------------
// Entries by start, newest first

/// Inserts `e` into a newest-first list after every entry that did not start
/// strictly before it.
pub open spec fn insert_by_start(s: Seq<TimeEntry>, e: TimeEntry) -> Seq<TimeEntry>
    decreases s.len(),
{
    if s.len() == 0 {
        seq![e]
    } else if s.last().started_at.before(e.started_at) {
        insert_by_start(s.drop_last(), e).push(s.last())
    } else {
        s.push(e)
    }
}

/// `s` stably sorted by start, newest first.
pub open spec fn newest_first(s: Seq<TimeEntry>) -> Seq<TimeEntry>
    decreases s.len(),
{
    if s.len() == 0 {
        s
    } else {
        insert_by_start(newest_first(s.drop_last()), s.last())
    }
}

/// No entry started before one further down.
pub open spec fn starts_descending(s: Seq<TimeEntry>) -> bool {
    forall|i: int, j: int|
        0 <= i < j < s.len() ==> !(#[trigger] s[i]).started_at.before((#[trigger] s[j]).started_at)
}

proof fn lemma_insert_by_start_at(s: Seq<TimeEntry>, e: TimeEntry, j: int)
    requires
        0 <= j <= s.len(),
        forall|k: int| j <= k < s.len() ==> (#[trigger] s[k]).started_at.before(e.started_at),
        j > 0 ==> !s[j - 1].started_at.before(e.started_at),
    ensures
        insert_by_start(s, e) == s.insert(j, e),
    decreases s.len(),
{
    if s.len() == 0 {
        assert(s.insert(0, e) =~= seq![e]);
    } else if j == s.len() {
        assert(s.insert(j, e) =~= s.push(e));
    } else {
        let t = s.drop_last();
        assert forall|k: int| j <= k < t.len() implies (#[trigger] t[k]).started_at.before(
            e.started_at,
        ) by {
            assert(t[k] == s[k]);
        }
        if j > 0 {
            assert(t[j - 1] == s[j - 1]);
        }
        lemma_insert_by_start_at(t, e, j);
        assert(s.insert(j, e) =~= t.insert(j, e).push(s.last()));
    }
}

/// Sorts entries stably by start, newest first.
pub fn sort_entries_newest_first(entries: &mut Vec<TimeEntry>)
    ensures
        final(entries)@ == newest_first(old(entries)@),
{
    let ghost input = entries@;
    let mut sorted: Vec<TimeEntry> = Vec::new();
    let n = entries.len();
    let mut i: usize = 0;
    while i < n
        invariant
            i <= n == input.len(),
            entries@ == input,
            sorted@ == newest_first(input.take(i as int)),
        decreases n - i,
    {
        let e = entries[i].clone();
        let mut j: usize = sorted.len();
        while j > 0 && sorted[j - 1].started_at.is_before(&e.started_at)
            invariant
                j <= sorted.len(),
                forall|k: int|
                    j <= k < sorted.len() ==> (#[trigger] sorted@[k]).started_at.before(
                        e.started_at,
                    ),
            decreases j,
        {
            j = j - 1;
        }
        proof {
            lemma_insert_by_start_at(sorted@, e, j as int);
            assert(input.take(i + 1).drop_last() =~= input.take(i as int));
            assert(input.take(i + 1).last() == input[i as int]);
        }
        sorted.insert(j, e);
        i = i + 1;
    }
    assert(input.take(n as int) =~= input);
    *entries = sorted;
}

/// Inserting an entry keeps the entries it was inserted among, plus it.
pub proof fn lemma_insert_by_start_multiset(s: Seq<TimeEntry>, e: TimeEntry)
    ensures
        insert_by_start(s, e).to_multiset() =~= s.to_multiset().insert(e),
    decreases s.len(),
{
    broadcast use vstd::seq_lib::group_to_multiset_ensures;

    if s.len() > 0 && s.last().started_at.before(e.started_at) {
        lemma_insert_by_start_multiset(s.drop_last(), e);
        assert(s =~= s.drop_last().push(s.last()));
    } else if s.len() == 0 {
        assert(seq![e] =~= Seq::<TimeEntry>::empty().push(e));
    }
}

/// Sorting newest first is a permutation: the same entries, each as often.
pub proof fn lemma_newest_first_permutes(s: Seq<TimeEntry>)
    ensures
        newest_first(s).to_multiset() =~= s.to_multiset(),
    decreases s.len(),
{
    broadcast use vstd::seq_lib::group_to_multiset_ensures;

    if s.len() > 0 {
        lemma_newest_first_permutes(s.drop_last());
        lemma_insert_by_start_multiset(newest_first(s.drop_last()), s.last());
        assert(s =~= s.drop_last().push(s.last()));
    }
}

proof fn lemma_insert_by_start_ordered(s: Seq<TimeEntry>, e: TimeEntry)
    requires
        starts_descending(s),
    ensures
        starts_descending(insert_by_start(s, e)),
    decreases s.len(),
{
    broadcast use vstd::seq_lib::group_to_multiset_ensures;

    let r = insert_by_start(s, e);
    if s.len() == 0 {
    } else if s.last().started_at.before(e.started_at) {
        let t = s.drop_last();
        assert(starts_descending(t)) by {
            assert forall|i: int, j: int| 0 <= i < j < t.len() implies !(
            #[trigger] t[i]).started_at.before((#[trigger] t[j]).started_at) by {
                assert(t[i] == s[i] && t[j] == s[j]);
            }
        }
        lemma_insert_by_start_ordered(t, e);
        lemma_insert_by_start_multiset(t, e);
        let u = insert_by_start(t, e);
        assert forall|i: int, j: int| 0 <= i < j < r.len() implies !(
        #[trigger] r[i]).started_at.before((#[trigger] r[j]).started_at) by {
            if j == r.len() - 1 {
                let x = u[i];
                assert(u.to_multiset().count(x) > 0);
                assert(u.contains(x));
                if x != e {
                    assert(t.to_multiset().count(x) > 0);
                    assert(t.contains(x));
                    let k = choose|k: int| 0 <= k < t.len() && t[k] == x;
                    assert(s[k] == x);
                    assert(!s[k].started_at.before(s[s.len() - 1].started_at));
                }
            } else {
                assert(r[i] == u[i] && r[j] == u[j]);
            }
        }
    } else {
        assert forall|i: int, j: int| 0 <= i < j < r.len() implies !(
        #[trigger] r[i]).started_at.before((#[trigger] r[j]).started_at) by {
            if j == r.len() - 1 {
                if i < s.len() - 1 {
                    assert(!s[i].started_at.before(s[s.len() - 1].started_at));
                }
            } else {
                assert(r[i] == s[i] && r[j] == s[j]);
            }
        }
    }
}

/// Sorting newest first orders the entries: none started before an entry
/// further down.
pub proof fn lemma_newest_first_ordered(s: Seq<TimeEntry>)
    ensures
        starts_descending(newest_first(s)),
    decreases s.len(),
{
    if s.len() > 0 {
        lemma_newest_first_ordered(s.drop_last());
        lemma_insert_by_start_ordered(newest_first(s.drop_last()), s.last());
    }
}

/// Entries already newest first are left as they are by sorting.
pub proof fn lemma_newest_first_keeps_ordered(s: Seq<TimeEntry>)
    requires
        starts_descending(s),
    ensures
        newest_first(s) == s,
    decreases s.len(),
{
    if s.len() > 0 {
        let t = s.drop_last();
        assert(starts_descending(t)) by {
            assert forall|i: int, j: int| 0 <= i < j < t.len() implies !(
            #[trigger] t[i]).started_at.before((#[trigger] t[j]).started_at) by {
                assert(t[i] == s[i] && t[j] == s[j]);
            }
        }
        lemma_newest_first_keeps_ordered(t);
        if t.len() > 0 {
            assert(t.last() == s[s.len() - 2]);
        }
        assert(s =~= t.push(s.last()));
    }
}

/// Sorting entries newest first twice is sorting them once.
pub proof fn lemma_newest_first_idempotent(s: Seq<TimeEntry>)
    ensures
        newest_first(newest_first(s)) == newest_first(s),
{
    lemma_newest_first_ordered(s);
    lemma_newest_first_keeps_ordered(newest_first(s));
}

} // verus!
