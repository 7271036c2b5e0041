use vstd::prelude::*;

verus! {

/// One extracted value.
///
/// A number is kept as the text it was read from; that text is a valid
/// floating-point literal (see `transform::is_float_literal`).
#[derive(Debug, PartialEq)]
pub enum ReturnedDataItem {
    StringItem(String),
    NumberItem(String),
    BoolItem(bool),
    DataItems(Vec<ReturnedData>),
}

/// One result tree: a mapping from field name to value.
#[derive(Debug, PartialEq)]
pub struct ReturnedData {
    entries: Vec<(String, ReturnedDataItem)>,
}

/// The mapping that a list of entries stands for (a later entry wins, which
/// matters only for lists whose keys are not unique).
pub open spec fn entries_map(s: Seq<(String, ReturnedDataItem)>) -> Map<Seq<char>, ReturnedDataItem>
    decreases s.len(),
{
    if s.len() == 0 {
        Map::empty()
    } else {
        entries_map(s.drop_last()).insert(s.last().0@, s.last().1)
    }
}

pub open spec fn keys_unique(s: Seq<(String, ReturnedDataItem)>) -> bool {
    forall|i: int, j: int| 0 <= i < j < s.len() ==> s[i].0@ != s[j].0@
}

proof fn lemma_entries_map_key(s: Seq<(String, ReturnedDataItem)>, k: Seq<char>)
    requires
        keys_unique(s),
    ensures
        entries_map(s).contains_key(k) <==> exists|i: int| 0 <= i < s.len() && s[i].0@ == k,
        forall|i: int| 0 <= i < s.len() && s[i].0@ == k ==> entries_map(s)[k] == s[i].1,
    decreases s.len(),
{
    if s.len() > 0 {
        let p = s.drop_last();
        assert(keys_unique(p));
        lemma_entries_map_key(p, k);
        if entries_map(s).contains_key(k) && s.last().0@ != k {
            let i = choose|i: int| 0 <= i < p.len() && p[i].0@ == k;
            assert(s[i].0@ == k);
        }
        if exists|i: int| 0 <= i < s.len() && s[i].0@ == k {
            let i = choose|i: int| 0 <= i < s.len() && s[i].0@ == k;
            if i < p.len() {
                assert(p[i].0@ == k);
            }
        }
    }
}

/// An item that carries no content: empty text or an empty list.
pub open spec fn item_is_blank(v: ReturnedDataItem) -> bool {
    match v {
        ReturnedDataItem::StringItem(s) => s@.len() == 0,
        ReturnedDataItem::DataItems(items) => items@.len() == 0,
        _ => false,
    }
}

impl View for ReturnedData {
    type V = Map<Seq<char>, ReturnedDataItem>;

    closed spec fn view(&self) -> Map<Seq<char>, ReturnedDataItem> {
        entries_map(self.entries@)
    }
}

impl ReturnedData {
    /// No name occurs twice.
    pub closed spec fn wf(&self) -> bool {
        keys_unique(self.entries@)
    }

    /// The tree judged empty: no fields, or every field blank.
    pub open spec fn spec_is_empty_result(&self) -> bool {
        forall|k: Seq<char>| #[trigger] self@.contains_key(k) ==> item_is_blank(self@[k])
    }

    pub fn new() -> (r: ReturnedData)
        ensures
            r.wf(),
            r@ == Map::<Seq<char>, ReturnedDataItem>::empty(),
    {
        ReturnedData { entries: Vec::new() }
    }

    pub fn len(&self) -> (r: usize)
        requires
            self.wf(),
        ensures
            r == self@.len(),
    {
        proof {
            self.lemma_dom_len();
        }
        self.entries.len()
    }

    pub fn is_empty(&self) -> (r: bool)
        requires
            self.wf(),
        ensures
            r == (self@.len() == 0),
    {
        proof {
            self.lemma_dom_len();
        }
        self.entries.len() == 0
    }

    proof fn lemma_dom_len(&self)
        requires
            self.wf(),
        ensures
            self@.dom().finite(),
            self@.len() == self.entries@.len(),
    {
        lemma_dom_len_seq(self.entries@);
    }

    /// Position of `key` among the entries.
    fn find(&self, key: &str) -> (r: Option<usize>)
        requires
            self.wf(),
        ensures
            match r {
                Some(i) => i < self.entries@.len() && self.entries@[i as int].0@ == key@,
                None => !self@.contains_key(key@),
            },
    {
        let mut i: usize = 0;
        while i < self.entries.len()
            invariant
                i <= self.entries@.len(),
                forall|j: int| 0 <= j < i ==> self.entries@[j].0@ != key@,
            decreases self.entries@.len() - i,
        {
            if str_eq(self.entries[i].0.as_str(), key) {
                return Some(i);
            }
            i = i + 1;
        }
        proof {
            lemma_entries_map_key(self.entries@, key@);
        }
        None
    }

    /// The value stored under `key`.
    pub fn get(&self, key: &str) -> (r: Option<&ReturnedDataItem>)
        requires
            self.wf(),
        ensures
            match r {
                Some(v) => self@.contains_key(key@) && *v == self@[key@],
                None => !self@.contains_key(key@),
            },
    {
        match self.find(key) {
            Some(i) => {
                proof {
                    lemma_entries_map_key(self.entries@, key@);
                }
                Some(&self.entries[i].1)
            },
            None => None,
        }
    }

    /// Stores `value` under `key`, replacing what was there.
    pub fn insert(&mut self, key: String, value: ReturnedDataItem)
        requires
            old(self).wf(),
        ensures
            final(self).wf(),
            final(self)@ == old(self)@.insert(key@, value),
    {
        match self.find(key.as_str()) {
            Some(i) => {
                proof {
                    lemma_entries_map_key(self.entries@, key@);
                }
                let ghost before = self.entries@;
                self.entries.set(i, (key, value));
                proof {
                    self.lemma_replace_entry(before, i as int);
                }
            },
            None => {
                let ghost before = self.entries@;
                self.entries.push((key, value));
                proof {
                    assert(self.entries@.drop_last() == before);
                    assert forall|a: int, b: int| 0 <= a < b < self.entries@.len() implies
                        self.entries@[a].0@ != self.entries@[b].0@ by {
                        if b == before.len() {
                            lemma_entries_map_key(before, self.entries@[b].0@);
                        }
                    }
                }
            },
        }
    }

    /// Stores `value` under `key` unless `key` is already present: the value
    /// computed first for a name is never overwritten.
    pub fn insert_if_absent(&mut self, key: String, value: ReturnedDataItem)
        requires
            old(self).wf(),
        ensures
            final(self).wf(),
            old(self)@.contains_key(key@) ==> final(self)@ == old(self)@,
            !old(self)@.contains_key(key@) ==> final(self)@ == old(self)@.insert(key@, value),
    {
        match self.find(key.as_str()) {
            Some(_) => {
                proof {
                    lemma_entries_map_key(self.entries@, key@);
                }
            },
            None => {
                self.insert(key, value);
            },
        }
    }

    proof fn lemma_replace_entry(&self, before: Seq<(String, ReturnedDataItem)>, i: int)
        requires
            keys_unique(before),
            0 <= i < before.len(),
            self.entries@ == before.update(i, self.entries@[i]),
            self.entries@[i].0@ == before[i].0@,
        ensures
            self.wf(),
            self@ == entries_map(before).insert(before[i].0@, self.entries@[i].1),
    {
        let after = self.entries@;
        let k = before[i].0@;
        assert(keys_unique(after));
        lemma_entries_map_key(before, k);
        let m = entries_map(before).insert(k, after[i].1);
        assert forall|q: Seq<char>| #[trigger] entries_map(after).contains_key(q) == m.contains_key(q)
            && (entries_map(after).contains_key(q) ==> entries_map(after)[q] == m[q]) by {
            lemma_entries_map_key(before, q);
            lemma_entries_map_key(after, q);
            if exists|j: int| 0 <= j < before.len() && before[j].0@ == q {
                let j = choose|j: int| 0 <= j < before.len() && before[j].0@ == q;
                assert(after[j].0@ == q);
            }
            if exists|j: int| 0 <= j < after.len() && after[j].0@ == q {
                let j = choose|j: int| 0 <= j < after.len() && after[j].0@ == q;
                if j != i {
                    assert(before[j].0@ == q);
                }
            }
        }
        assert(entries_map(after) =~= entries_map(before).insert(k, after[i].1));
    }
}

proof fn lemma_dom_len_seq(s: Seq<(String, ReturnedDataItem)>)
    requires
        keys_unique(s),
    ensures
        entries_map(s).dom().finite(),
        entries_map(s).len() == s.len(),
    decreases s.len(),
{
    if s.len() > 0 {
        let p = s.drop_last();
        assert(keys_unique(p));
        lemma_dom_len_seq(p);
        lemma_entries_map_key(p, s.last().0@);
        if entries_map(p).contains_key(s.last().0@) {
            let i = choose|i: int| 0 <= i < p.len() && p[i].0@ == s.last().0@;
            assert(s[i].0@ == s[s.len() - 1].0@);
        }
    }
}

/// Compares two strings character by character.
pub fn str_eq(a: &str, b: &str) -> (r: bool)
    ensures
        r == (a@ == b@),
{
    let n = a.unicode_len();
    if n != b.unicode_len() {
        return false;
    }
    let mut i: usize = 0;
    while i < n
        invariant
            n == a@.len(),
            n == b@.len(),
            i <= n,
            forall|j: int| 0 <= j < i ==> a@[j] == b@[j],
        decreases n - i,
    {
        if a.get_char(i) != b.get_char(i) {
            return false;
        }
        i = i + 1;
    }
    assert(a@ =~= b@);
    true
}

/// A tree is empty when it has no fields, or when every field holds empty
/// text or an empty list; any number or boolean counts as content.
pub fn is_empty_result(data: &ReturnedData) -> (r: bool)
    requires
        data.wf(),
    ensures
        r == data.spec_is_empty_result(),
{
    let mut i: usize = 0;
    while i < data.entries.len()
        invariant
            data.wf(),
            i <= data.entries@.len(),
            forall|j: int| 0 <= j < i ==> item_is_blank(#[trigger] data.entries@[j].1),
        decreases data.entries@.len() - i,
    {
        let blank = match &data.entries[i].1 {
            ReturnedDataItem::StringItem(s) => s.unicode_len() == 0,
            ReturnedDataItem::DataItems(items) => items.len() == 0,
            ReturnedDataItem::NumberItem(_) => false,
            ReturnedDataItem::BoolItem(_) => false,
        };
        if !blank {
            proof {
                let k = data.entries@[i as int].0@;
                lemma_entries_map_key(data.entries@, k);
                assert(data@.contains_key(k));
            }
            return false;
        }
        i = i + 1;
    }
    proof {
        assert forall|k: Seq<char>| #[trigger] data@.contains_key(k) implies item_is_blank(
            data@[k],
        ) by {
            lemma_entries_map_key(data.entries@, k);
            let j = choose|j: int| 0 <= j < data.entries@.len() && data.entries@[j].0@ == k;
        }
    }
    true
}

impl ReturnedData {
    /// The names of the tree, in insertion order.
    pub fn keys(&self) -> (r: Vec<String>)
        requires
            self.wf(),
        ensures
            forall|i: int, j: int| 0 <= i < j < r@.len() ==> r@[i]@ != r@[j]@,
            forall|k: Seq<char>|
                self@.contains_key(k) <==> exists|i: int| 0 <= i < r@.len() && #[trigger] r@[i]@ == k,
    {
        let mut r: Vec<String> = Vec::new();
        let mut i: usize = 0;
        while i < self.entries.len()
            invariant
                self.wf(),
                i <= self.entries@.len(),
                r@.len() == i,
                forall|j: int| 0 <= j < i ==> #[trigger] r@[j]@ == self.entries@[j].0@,
            decreases self.entries@.len() - i,
        {
            r.push(self.entries[i].0.clone());
            i = i + 1;
        }
        proof {
            assert forall|k: Seq<char>| self@.contains_key(k) <==> exists|i: int|
                0 <= i < r@.len() && #[trigger] r@[i]@ == k by {
                lemma_entries_map_key(self.entries@, k);
                if self@.contains_key(k) {
                    let j = choose|j: int| 0 <= j < self.entries@.len() && self.entries@[j].0@ == k;
                    assert(r@[j]@ == k);
                }
                if exists|i: int| 0 <= i < r@.len() && #[trigger] r@[i]@ == k {
                    let j = choose|i: int| 0 <= i < r@.len() && #[trigger] r@[i]@ == k;
                    assert(self.entries@[j].0@ == k);
                }
            }
        }
        r
    }
}

} // verus!
