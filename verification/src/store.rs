//! The set of documents, each under its own name.
use vstd::prelude::*;
use crate::checklist::{checklist_entries, toggled, has_item};
use crate::document::{Document, Timestamp};

verus! {

/// No two entries of `s` share a name.
pub open spec fn distinct_names(s: Seq<(Seq<char>, Document)>) -> bool {
    forall|i: int, j: int| 0 <= i < s.len() && 0 <= j < s.len() && i != j ==> s[i].0 != s[j].0
}

/// Some entry of `s` is named `k`.
pub open spec fn has_name(s: Seq<(Seq<char>, Document)>, k: Seq<char>) -> bool {
    exists|i: int| 0 <= i < s.len() && s[i].0 == k
}

/// The position of the entry named `k`, or -1 when there is none.
pub open spec fn name_index(s: Seq<(Seq<char>, Document)>, k: Seq<char>) -> int {
    if has_name(s, k) {
        choose|i: int| 0 <= i < s.len() && s[i].0 == k
    } else {
        -1
    }
}

/// The documents of `s` by name.
pub open spec fn as_map(s: Seq<(Seq<char>, Document)>) -> Map<Seq<char>, Document> {
    Map::new(|k: Seq<char>| has_name(s, k), |k: Seq<char>| s[name_index(s, k)].1)
}

/// What storing `d` under `k` does: an existing entry of that name is
/// replaced in place, otherwise the entry is added last.
pub open spec fn stored(s: Seq<(Seq<char>, Document)>, k: Seq<char>, d: Document) -> Seq<
    (Seq<char>, Document),
> {
    if has_name(s, k) {
        s.update(name_index(s, k), (k, d))
    } else {
        s.push((k, d))
    }
}

/// What removing the entry named `k` does.
pub open spec fn removed(s: Seq<(Seq<char>, Document)>, k: Seq<char>) -> Seq<(Seq<char>, Document)> {
    if has_name(s, k) {
        s.remove(name_index(s, k))
    } else {
        s
    }
}

/// In a sequence with distinct names, the entry named `k` sits at `name_index`.
pub proof fn lemma_name_index(s: Seq<(Seq<char>, Document)>, k: Seq<char>, i: int)
    requires
        distinct_names(s),
        0 <= i < s.len(),
        s[i].0 == k,
    ensures
        has_name(s, k),
        name_index(s, k) == i,
{
    assert(has_name(s, k));
}

/// Storing keeps names distinct.
pub proof fn lemma_stored_distinct(s: Seq<(Seq<char>, Document)>, k: Seq<char>, d: Document)
    requires
        distinct_names(s),
    ensures
        distinct_names(stored(s, k, d)),
        has_name(stored(s, k, d), k),
{
    let t = stored(s, k, d);
    if has_name(s, k) {
        let i = name_index(s, k);
        assert forall|a: int, b: int|
            0 <= a < t.len() && 0 <= b < t.len() && a != b implies t[a].0 != t[b].0 by {
            if a == i {
                assert(s[b].0 != s[i].0);
            } else if b == i {
                assert(s[a].0 != s[i].0);
            } else {
                assert(s[a].0 != s[b].0);
            }
        }
        assert(t[i].0 == k);
    } else {
        assert forall|a: int, b: int|
            0 <= a < t.len() && 0 <= b < t.len() && a != b implies t[a].0 != t[b].0 by {
            if a == s.len() {
                assert(!(0 <= b < s.len() && s[b].0 == k));
            } else if b == s.len() {
                assert(!(0 <= a < s.len() && s[a].0 == k));
            }
        }
        assert(t[s.len() as int].0 == k);
    }
}

/// Removing keeps names distinct and leaves no entry of the removed name.
pub proof fn lemma_removed_distinct(s: Seq<(Seq<char>, Document)>, k: Seq<char>)
    requires
        distinct_names(s),
    ensures
        distinct_names(removed(s, k)),
        !has_name(removed(s, k), k),
{
    let t = removed(s, k);
    if has_name(s, k) {
        let i = name_index(s, k);
        assert forall|a: int, b: int|
            0 <= a < t.len() && 0 <= b < t.len() && a != b implies t[a].0 != t[b].0 by {
            let a2 = if a < i { a } else { a + 1 };
            let b2 = if b < i { b } else { b + 1 };
            assert(t[a] == s[a2]);
            assert(t[b] == s[b2]);
        }
        assert forall|j: int| 0 <= j < t.len() implies t[j].0 != k by {
            let j2 = if j < i { j } else { j + 1 };
            assert(t[j] == s[j2]);
        }
    }
}


/// Law: storing a document is inserting it into the map of documents by name.
pub proof fn lemma_stored_as_map(s: Seq<(Seq<char>, Document)>, k: Seq<char>, d: Document)
    requires
        distinct_names(s),
    ensures
        as_map(stored(s, k, d)) == as_map(s).insert(k, d),
{
    let t = stored(s, k, d);
    lemma_stored_distinct(s, k, d);
    assert forall|k2: Seq<char>| #[trigger] has_name(t, k2) <==> (has_name(s, k2) || k2 == k) by {
        if has_name(s, k2) {
            let i = choose|i: int| 0 <= i < s.len() && s[i].0 == k2;
            if has_name(s, k) {
                if i == name_index(s, k) {
                    assert(t[i].0 == k);
                } else {
                    assert(t[i] == s[i]);
                }
            } else {
                assert(t[i] == s[i]);
            }
        }
        if has_name(t, k2) && k2 != k {
            let i = choose|i: int| 0 <= i < t.len() && t[i].0 == k2;
            if has_name(s, k) {
                assert(t[i] == s[i]);
            } else {
                assert(i < s.len());
                assert(t[i] == s[i]);
            }
        }
    }
    assert forall|k2: Seq<char>| has_name(t, k2) implies #[trigger] as_map(t)[k2] == as_map(
        s,
    ).insert(k, d)[k2] by {
        let i = name_index(t, k2);
        if k2 == k {
            let j = if has_name(s, k) { name_index(s, k) } else { s.len() as int };
            assert(t[j].0 == k);
            lemma_name_index(t, k, j);
        } else {
            let j = name_index(s, k2);
            assert(s[j].0 == k2);
            if has_name(s, k) {
                assert(j != name_index(s, k));
            }
            assert(t[j] == s[j]);
            lemma_name_index(t, k2, j);
        }
    }
    assert(as_map(stored(s, k, d)) =~= as_map(s).insert(k, d));
}

/// Law: removing a document is removing it from the map of documents by name.
pub proof fn lemma_removed_as_map(s: Seq<(Seq<char>, Document)>, k: Seq<char>)
    requires
        distinct_names(s),
    ensures
        as_map(removed(s, k)) == as_map(s).remove(k),
{
    let t = removed(s, k);
    lemma_removed_distinct(s, k);
    if has_name(s, k) {
        let r = name_index(s, k);
        assert(0 <= r < s.len() && s[r].0 == k);
        assert forall|k2: Seq<char>| #[trigger] has_name(t, k2) <==> (has_name(s, k2) && k2 != k) by {
            if has_name(s, k2) && k2 != k {
                let i = choose|i: int| 0 <= i < s.len() && s[i].0 == k2;
                assert(i != r);
                let i2 = if i < r { i } else { i - 1 };
                assert(t[i2] == s[i]);
            }
            if has_name(t, k2) {
                let i = choose|i: int| 0 <= i < t.len() && t[i].0 == k2;
                let i2 = if i < r { i } else { i + 1 };
                assert(t[i] == s[i2]);
            }
        }
        assert forall|k2: Seq<char>| has_name(t, k2) implies #[trigger] as_map(t)[k2] == as_map(
            s,
        )[k2] by {
            let j = name_index(s, k2);
            assert(s[j].0 == k2);
            let j2 = if j < r { j } else { j - 1 };
            assert(t[j2] == s[j]);
            lemma_name_index(t, k2, j2);
        }
        assert(as_map(t) =~= as_map(s).remove(k));
    } else {
        assert(as_map(t) =~= as_map(s).remove(k));
    }
}

/// Documents under distinct names, in the order they were first stored.
pub struct DocumentStore {
    entries: Vec<(String, Document)>,
}

impl View for DocumentStore {
    type V = Seq<(Seq<char>, Document)>;

    closed spec fn view(&self) -> Seq<(Seq<char>, Document)> {
        self.entries@.map_values(|p: (String, Document)| (p.0@, p.1))
    }
}

impl DocumentStore {
    #[verifier::type_invariant]
    spec fn names_distinct(self) -> bool {
        distinct_names(self@)
    }

    /// A store without documents.
    pub fn new() -> (s: DocumentStore)
        ensures
            s@ == Seq::<(Seq<char>, Document)>::empty(),
    {
        let s = DocumentStore { entries: Vec::new() };
        assert(s@ =~= Seq::<(Seq<char>, Document)>::empty());
        s
    }

    /// The number of documents.
    pub fn len(&self) -> (n: usize)
        ensures
            n == self@.len(),
    {
        self.entries.len()
    }

    /// The name and document at position `index`, or `None` past the end.
    pub fn get_index(&self, index: usize) -> (r: Option<(&String, &Document)>)
        ensures
            match r {
                Some(p) => index < self@.len() && p.0@ == self@[index as int].0 && *p.1
                    == self@[index as int].1,
                None => index >= self@.len(),
            },
    {
        if index < self.entries.len() {
            let p = &self.entries[index];
            Some((&p.0, &p.1))
        } else {
            None
        }
    }

    /// The position of the document named `name`, or `None`.
    fn position(&self, name: &String) -> (r: Option<usize>)
        ensures
            match r {
                Some(i) => has_name(self@, name@) && i == name_index(self@, name@),
                None => !has_name(self@, name@),
            },
    {
        proof {
            use_type_invariant(self);
        }
        let n = self.entries.len();
        let mut i: usize = 0;
        while i < n
            invariant
                n == self.entries@.len(),
                n == self@.len(),
                i <= n,
                distinct_names(self@),
                forall|j: int| 0 <= j < i ==> (#[trigger] self@[j]).0 != name@,
            decreases n - i,
        {
            if self.entries[i].0 == *name {
                proof {
                    lemma_name_index(self@, name@, i as int);
                }
                return Some(i);
            }
            i = i + 1;
        }
        None
    }

    /// Whether a document named `name` is stored.
    pub fn contains_key(&self, name: &String) -> (b: bool)
        ensures
            b == has_name(self@, name@),
    {
        self.position(name).is_some()
    }

    /// The document named `name`, or `None`.
    pub fn get(&self, name: &String) -> (r: Option<&Document>)
        ensures
            match r {
                Some(d) => has_name(self@, name@) && *d == self@[name_index(self@, name@)].1,
                None => !has_name(self@, name@),
            },
    {
        match self.position(name) {
            Some(i) => Some(&self.entries[i].1),
            None => None,
        }
    }

    /// Stores `doc` under `name`, replacing and returning a document of that
    /// name in its place, or adding it last.
    pub fn insert(&mut self, name: String, doc: Document) -> (prev: Option<Document>)
        ensures
            final(self)@ == stored(old(self)@, name@, doc),
            has_name(final(self)@, name@),
            final(self)@[name_index(final(self)@, name@)].1 == doc,
            prev == (if has_name(old(self)@, name@) {
                Some(old(self)@[name_index(old(self)@, name@)].1)
            } else {
                None::<Document>
            }),
    {
        proof {
            use_type_invariant(&*self);
            lemma_stored_distinct(self@, name@, doc);
        }
        let ghost s = self@;
        let ghost k = name@;
        proof {
            let t = stored(s, k, doc);
            let i = if has_name(s, k) { name_index(s, k) } else { s.len() as int };
            assert(t[i].0 == k);
            lemma_name_index(t, k, i);
        }
        match self.position(&name) {
            Some(i) => {
                let mut entries = Vec::new();
                std::mem::swap(&mut entries, &mut self.entries);
                let (_, old_doc) = entries.remove(i);
                entries.insert(i, (name, doc));
                assert(entries@.map_values(|p: (String, Document)| (p.0@, p.1)) =~= stored(
                    s,
                    name@,
                    doc,
                ));
                self.entries = entries;
                assert(self@ =~= stored(s, name@, doc));
                Some(old_doc)
            },
            None => {
                let mut entries = Vec::new();
                std::mem::swap(&mut entries, &mut self.entries);
                entries.push((name, doc));
                assert(entries@.map_values(|p: (String, Document)| (p.0@, p.1)) =~= stored(
                    s,
                    name@,
                    doc,
                ));
                self.entries = entries;
                assert(self@ =~= stored(s, name@, doc));
                None
            },
        }
    }

    /// Removes and returns the document named `name`, if any.
    pub fn remove(&mut self, name: &String) -> (prev: Option<Document>)
        ensures
            final(self)@ == removed(old(self)@, name@),
            !has_name(final(self)@, name@),
            prev == (if has_name(old(self)@, name@) {
                Some(old(self)@[name_index(old(self)@, name@)].1)
            } else {
                None::<Document>
            }),
    {
        proof {
            use_type_invariant(&*self);
            lemma_removed_distinct(self@, name@);
            if has_name(self@, name@) {
                let i = name_index(self@, name@);
                assert(0 <= i < self@.len() && self@[i].0 == name@);
            }
        }
        let ghost s = self@;
        match self.position(name) {
            Some(i) => {
                let mut entries = Vec::new();
                std::mem::swap(&mut entries, &mut self.entries);
                let (_, old_doc) = entries.remove(i);
                assert(entries@.map_values(|p: (String, Document)| (p.0@, p.1)) =~= removed(
                    s,
                    name@,
                ));
                self.entries = entries;
                assert(self@ =~= removed(s, name@));
                Some(old_doc)
            },
            None => None,
        }
    }

    /// Clicks item `child` of section `section` in the checklist of the
    /// document named `name` (see `Checklist::toggle_item`) and stamps that
    /// document modified at `now`. Returns whether that item exists; when it
    /// does not, nothing changes.
    pub fn toggle_item(
        &mut self,
        name: &String,
        section: &String,
        child: &String,
        now: Timestamp,
    ) -> (found: bool)
        ensures
            found == (has_name(old(self)@, name@) && has_item(
                checklist_entries(old(self)@[name_index(old(self)@, name@)].1.checklist),
                section@,
                child@,
            )),
            final(self)@.len() == old(self)@.len(),
            forall|j: int|
                0 <= j < old(self)@.len() && j != name_index(old(self)@, name@) ==> final(self)@[j]
                    == old(self)@[j],
            has_name(old(self)@, name@) ==> {
                let i = name_index(old(self)@, name@);
                &&& final(self)@[i].0 == old(self)@[i].0
                &&& final(self)@[i].1.name == old(self)@[i].1.name
                &&& final(self)@[i].1.last_modified == (if found {
                    now
                } else {
                    old(self)@[i].1.last_modified
                })
                &&& found ==> toggled(
                    checklist_entries(old(self)@[i].1.checklist),
                    checklist_entries(final(self)@[i].1.checklist),
                    section@,
                    child@,
                )
            },
            !found ==> final(self)@ == old(self)@,
    {
        proof {
            use_type_invariant(&*self);
        }
        let ghost s = self@;
        match self.position(name) {
            Some(i) => {
                let mut entries = Vec::new();
                std::mem::swap(&mut entries, &mut self.entries);
                let (key, mut doc) = entries.remove(i);
                let found = doc.checklist.toggle_item(section, child);
                if found {
                    doc.last_modified = now;
                }
                entries.insert(i, (key, doc));
                proof {
                    let t = entries@.map_values(|p: (String, Document)| (p.0@, p.1));
                    assert(t =~= s.update(i as int, (s[i as int].0, doc)));
                    assert(distinct_names(t)) by {
                        assert forall|a: int, b: int|
                            0 <= a < t.len() && 0 <= b < t.len() && a != b implies t[a].0
                            != t[b].0 by {
                            assert(s[a].0 != s[b].0);
                        }
                    }
                }
                self.entries = entries;
                proof {
                    assert(self@ =~= s.update(i as int, (s[i as int].0, doc)));
                    assert(distinct_names(self@)) by {
                        assert forall|a: int, b: int|
                            0 <= a < self@.len() && 0 <= b < self@.len() && a != b implies self@[a].0
                            != self@[b].0 by {
                            assert(s[a].0 != s[b].0);
                        }
                    }
                }
                found
            },
            None => false,
        }
    }
}

} // verus!
