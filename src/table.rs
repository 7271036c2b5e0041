//! The tabular layout of several result trees: one column per name that any
//! tree has, in lexicographic order, and one row per tree. Writing the cells
//! out is the caller's.
use vstd::prelude::*;
use crate::value::{ReturnedData, ReturnedDataItem};

verus! {

/// Lexicographic order of texts, by code point (the order of their UTF-8
/// bytes).
pub open spec fn text_lt(a: Seq<char>, b: Seq<char>) -> bool
    decreases a.len(),
{
    if a.len() == 0 {
        b.len() > 0
    } else if b.len() == 0 {
        false
    } else if a[0] != b[0] {
        a[0] < b[0]
    } else {
        text_lt(a.drop_first(), b.drop_first())
    }
}

proof fn lemma_text_lt_total(a: Seq<char>, b: Seq<char>)
    ensures
        a == b || text_lt(a, b) || text_lt(b, a),
        !(text_lt(a, b) && text_lt(b, a)),
        !text_lt(a, a),
    decreases a.len(),
{
    if a.len() > 0 && b.len() > 0 {
        lemma_text_lt_total(a.drop_first(), b.drop_first());
        if a[0] == b[0] && a.drop_first() == b.drop_first() {
            assert forall|i: int| 0 <= i < a.len() implies a[i] == b[i] by {
                if i > 0 {
                    assert(a[i] == a.drop_first()[i - 1]);
                    assert(b[i] == b.drop_first()[i - 1]);
                }
            }
            assert(a =~= b);
        }
    }
    if a.len() > 0 {
        lemma_text_lt_total(a.drop_first(), a.drop_first());
    }
    if a.len() == 0 && b.len() == 0 {
        assert(a =~= b);
    }
}

proof fn lemma_text_lt_trans(a: Seq<char>, b: Seq<char>, c: Seq<char>)
    requires
        text_lt(a, b),
        text_lt(b, c),
    ensures
        text_lt(a, c),
    decreases a.len(),
{
    if a.len() > 0 && b.len() > 0 && c.len() > 0 && a[0] == b[0] && b[0] == c[0] {
        lemma_text_lt_trans(a.drop_first(), b.drop_first(), c.drop_first());
    }
}

/// Whether `a` comes before `b`.
pub fn text_less(a: &str, b: &str) -> (r: bool)
    ensures
        r == text_lt(a@, b@),
{
    let n = a.unicode_len();
    let m = b.unicode_len();
    let mut i: usize = 0;
    assert(a@.skip(0) =~= a@);
    assert(b@.skip(0) =~= b@);
    while i < n && i < m
        invariant
            n == a@.len(),
            m == b@.len(),
            i <= n,
            i <= m,
            text_lt(a@, b@) == text_lt(a@.skip(i as int), b@.skip(i as int)),
        decreases n - i,
    {
        let x = a.get_char(i);
        let y = b.get_char(i);
        if x != y {
            return x < y;
        }
        assert(a@.skip(i as int).drop_first() =~= a@.skip(i as int + 1));
        assert(b@.skip(i as int).drop_first() =~= b@.skip(i as int + 1));
        i = i + 1;
    }
    i == n && i < m
}

pub open spec fn strictly_sorted(v: Seq<String>) -> bool {
    forall|i: int, j: int| 0 <= i < j < v.len() ==> text_lt(v[i]@, v[j]@)
}

/// `k` is one of the texts of `v`.
pub open spec fn lists(v: Seq<String>, k: Seq<char>) -> bool {
    exists|i: int| 0 <= i < v.len() && #[trigger] v[i]@ == k
}

/// Every name of some tree among `results`.
pub open spec fn all_names(results: Seq<ReturnedData>) -> Set<Seq<char>> {
    Set::new(|k: Seq<char>| exists|t: int| 0 <= t < results.len() && #[trigger] results[t]@.contains_key(k))
}

/// Adds `key` to a strictly sorted list unless it is there.
fn insert_sorted(keys: &mut Vec<String>, key: String)
    requires
        strictly_sorted(old(keys)@),
    ensures
        strictly_sorted(final(keys)@),
        forall|k: Seq<char>| #[trigger] lists(final(keys)@, k) <==> (k == key@ || lists(old(keys)@, k)),
{
    let mut p: usize = 0;
    while p < keys.len() && text_less(keys[p].as_str(), key.as_str())
        invariant
            p <= keys@.len(),
            forall|i: int| 0 <= i < p ==> text_lt(#[trigger] keys@[i]@, key@),
        decreases keys@.len() - p,
    {
        p = p + 1;
    }
    if p < keys.len() && crate::value::str_eq(keys[p].as_str(), key.as_str()) {
        return;
    }
    let ghost before = keys@;
    proof {
        if p < before.len() {
            lemma_text_lt_total(before[p as int]@, key@);
        }
    }
    keys.insert(p, key);
    proof {
        let after = keys@;
        assert forall|m: int| p <= m < before.len() implies text_lt(key@, #[trigger] before[m]@) by {
            if m > p {
                lemma_text_lt_trans(key@, before[p as int]@, before[m]@);
            }
        }
        assert forall|i: int, j: int| 0 <= i < j < after.len() implies text_lt(after[i]@, after[j]@) by {
            if j < p {
            } else if j == p {
            } else if i < p {
                assert(after[j] == before[j - 1]);
                assert(text_lt(key@, before[j - 1]@));
                lemma_text_lt_trans(after[i]@, after[p as int]@, after[j]@);
            } else if i == p {
                assert(after[j] == before[j - 1]);
                assert(text_lt(key@, before[j - 1]@));
            } else {
                assert(after[i] == before[i - 1] && after[j] == before[j - 1]);
            }
        }
        assert forall|k: Seq<char>| #[trigger] lists(after, k) <==> (k == after[p as int]@ || lists(before, k)) by {
            if exists|i: int| 0 <= i < after.len() && #[trigger] after[i]@ == k {
                let i = choose|i: int| 0 <= i < after.len() && #[trigger] after[i]@ == k;
                if i < p {
                    assert(before[i]@ == k);
                } else if i > p {
                    assert(before[i - 1]@ == k);
                }
            }
            if exists|i: int| 0 <= i < before.len() && #[trigger] before[i]@ == k {
                let i = choose|i: int| 0 <= i < before.len() && #[trigger] before[i]@ == k;
                if i < p {
                    assert(after[i]@ == k);
                } else {
                    assert(after[i + 1]@ == k);
                }
            }
        }
    }
}

/// The header row: every name of every tree, once each, in lexicographic
/// order.
pub fn csv_header(results: &Vec<ReturnedData>) -> (r: Vec<String>)
    requires
        forall|t: int| 0 <= t < results@.len() ==> (#[trigger] results@[t]).wf(),
    ensures
        strictly_sorted(r@),
        forall|k: Seq<char>| all_names(results@).contains(k) <==> #[trigger] lists(r@, k),
{
    let mut header: Vec<String> = Vec::new();
    let mut t: usize = 0;
    while t < results.len()
        invariant
            t <= results@.len(),
            forall|q: int| 0 <= q < results@.len() ==> (#[trigger] results@[q]).wf(),
            strictly_sorted(header@),
            forall|k: Seq<char>| #[trigger] lists(header@, k) <==> exists|q: int|
                0 <= q < t && #[trigger] results@[q]@.contains_key(k),
        decreases results@.len() - t,
    {
        let keys = results[t].keys();
        let mut j: usize = 0;
        while j < keys.len()
            invariant
                t < results@.len(),
                j <= keys@.len(),
                strictly_sorted(header@),
                forall|k: Seq<char>| #[trigger] results@[t as int]@.contains_key(k) <==> lists(keys@, k),
                forall|k: Seq<char>| #[trigger] lists(header@, k) <==> ((exists|q: int|
                    0 <= q < t && #[trigger] results@[q]@.contains_key(k)) || lists(keys@.subrange(0, j as int), k)),
            decreases keys@.len() - j,
        {
            insert_sorted(&mut header, keys[j].clone());
            proof {
                assert forall|k: Seq<char>| #[trigger] lists(keys@.subrange(0, j as int + 1), k) <==> (k == keys@[j as int]@
                    || lists(keys@.subrange(0, j as int), k)) by {
                    if lists(keys@.subrange(0, j as int + 1), k) {
                        let i = choose|i: int| 0 <= i < j + 1 && #[trigger] keys@.subrange(0, j as int + 1)[i]@ == k;
                        if i < j {
                            assert(keys@.subrange(0, j as int)[i]@ == k);
                        }
                    }
                    if lists(keys@.subrange(0, j as int), k) {
                        let i = choose|i: int| 0 <= i < j && #[trigger] keys@.subrange(0, j as int)[i]@ == k;
                        assert(keys@.subrange(0, j as int + 1)[i]@ == k);
                    }
                    if k == keys@[j as int]@ {
                        assert(keys@.subrange(0, j as int + 1)[j as int]@ == k);
                    }
                }
                assert forall|k: Seq<char>| #[trigger] lists(header@, k) <==> ((exists|q: int|
                    0 <= q < t && #[trigger] results@[q]@.contains_key(k)) || lists(keys@.subrange(0, j as int + 1), k)) by {
                    assert(lists(keys@.subrange(0, j as int + 1), k) <==> (k == keys@[j as int]@
                        || lists(keys@.subrange(0, j as int), k)));
                }
            }
            j = j + 1;
        }
        proof {
            assert(keys@.subrange(0, keys@.len() as int) =~= keys@);
            assert forall|k: Seq<char>| #[trigger] lists(header@, k) <==> exists|q: int|
                0 <= q < t + 1 && #[trigger] results@[q]@.contains_key(k) by {
                if results@[t as int]@.contains_key(k) {
                    assert(0 <= t < t + 1);
                }
                if exists|q: int| 0 <= q < t + 1 && #[trigger] results@[q]@.contains_key(k) {
                    let q = choose|q: int| 0 <= q < t + 1 && #[trigger] results@[q]@.contains_key(k);
                    if q < t {
                        assert(0 <= q < t);
                    }
                }
            }
        }
        t = t + 1;
    }
    header
}

/// One row: for each column, the tree's value under that name, if any.
pub fn csv_row<'a>(result: &'a ReturnedData, header: &Vec<String>) -> (r: Vec<Option<&'a ReturnedDataItem>>)
    requires
        result.wf(),
    ensures
        r@.len() == header@.len(),
        forall|i: int|
            0 <= i < header@.len() ==> match #[trigger] r@[i] {
                Some(v) => result@.contains_key(header@[i]@) && *v == result@[header@[i]@],
                None => !result@.contains_key(header@[i]@),
            },
{
    let mut r: Vec<Option<&'a ReturnedDataItem>> = Vec::new();
    let mut i: usize = 0;
    while i < header.len()
        invariant
            result.wf(),
            i <= header@.len(),
            r@.len() == i,
            forall|j: int|
                0 <= j < i ==> match #[trigger] r@[j] {
                    Some(v) => result@.contains_key(header@[j]@) && *v == result@[header@[j]@],
                    None => !result@.contains_key(header@[j]@),
                },
        decreases header@.len() - i,
    {
        r.push(result.get(header[i].as_str()));
        i = i + 1;
    }
    r
}

} // verus!
