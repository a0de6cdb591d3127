//! A storage engine that keeps its indexes in memory: documents in
//! insertion order, found by a substring of one of their text values.

use vstd::prelude::*;
use crate::document::PersistedDocument;
use crate::persistence::{Index, MichelPersistence, PersistenceError};
use crate::value::HostValue;

verus! {

/// `q` occurs in `t` as a contiguous run of characters.
pub open spec fn contains_text(t: Seq<char>, q: Seq<char>) -> bool {
    exists|k: int| 0 <= k && k + q.len() <= t.len() && #[trigger] t.subrange(k, k + q.len()) == q
}

/// A document matches a query when the query is empty or occurs in one of
/// the document's text values.
pub open spec fn document_matches(entries: Seq<(String, HostValue)>, q: Seq<char>) -> bool {
    q.len() == 0 || exists|i: int|
        0 <= i < entries.len() && (#[trigger] entries[i]).1 is Text && contains_text(
            entries[i].1->Text_0@,
            q,
        )
}

/// The documents of index `name` that match `q`, in insertion order, at
/// most `max` of them.
pub open spec fn first_matches(
    s: Seq<(String, PersistedDocument)>,
    name: Seq<char>,
    q: Seq<char>,
    max: nat,
) -> Seq<Map<Seq<char>, HostValue>>
    decreases s.len(),
{
    if s.len() == 0 {
        Seq::empty()
    } else {
        let prev = first_matches(s.drop_last(), name, q, max);
        let e = s.last();
        if prev.len() < max && e.0@ == name && document_matches(e.1.entry_seq(), q) {
            prev.push(e.1@)
        } else {
            prev
        }
    }
}

/// Whether `q` occurs in `t` at position `k`.
fn occurs_at(t: &str, q: &str, k: usize) -> (r: bool)
    requires
        k + q@.len() <= t@.len(),
    ensures
        r == (t@.subrange(k as int, k + q@.len()) == q@),
{
    let n = t.unicode_len();
    let m = q.unicode_len();
    let mut j: usize = 0;
    while j < m
        invariant
            n == t@.len(),
            m == q@.len(),
            k + m <= t@.len(),
            j <= m,
            forall|jj: int| 0 <= jj < j ==> t@[k + jj] == q@[jj],
        decreases m - j,
    {
        if t.get_char(k + j) != q.get_char(j) {
            assert(t@.subrange(k as int, k + q@.len())[j as int] != q@[j as int]);
            return false;
        }
        j += 1;
    }
    assert(t@.subrange(k as int, k + q@.len()) =~= q@);
    true
}

/// Whether `q` occurs in `t`.
pub fn text_contains(t: &String, q: &String) -> (r: bool)
    ensures
        r == contains_text(t@, q@),
{
    let ts = t.as_str();
    let qs = q.as_str();
    let n = ts.unicode_len();
    let m = qs.unicode_len();
    if m > n {
        return false;
    }
    if m == 0 {
        assert(t@.subrange(0, 0 + q@.len() as int) =~= q@);
        return true;
    }
    let mut k: usize = 0;
    while k <= n - m
        invariant
            n == t@.len(),
            m == q@.len(),
            1 <= m <= n,
            k <= n - m + 1,
            ts@ == t@,
            qs@ == q@,
            forall|kk: int| 0 <= kk < k ==> #[trigger] t@.subrange(kk, kk + q@.len()) != q@,
        decreases n - m + 1 - k,
    {
        if occurs_at(ts, qs, k) {
            return true;
        }
        k += 1;
    }
    false
}

/// Whether a document matches a query.
pub fn matches_query(doc: &PersistedDocument, q: &String) -> (r: bool)
    ensures
        r == document_matches(doc.entry_seq(), q@),
{
    if q.as_str().unicode_len() == 0 {
        return true;
    }
    let entries = doc.entries();
    let mut i: usize = 0;
    while i < entries.len()
        invariant
            i <= entries@.len(),
            entries@ == doc.entry_seq(),
            forall|k: int|
                0 <= k < i ==> !((#[trigger] entries@[k]).1 is Text && contains_text(
                    entries@[k].1->Text_0@,
                    q@,
                )),
        decreases entries@.len() - i,
    {
        match &entries[i].1 {
            HostValue::Text(t) => {
                if text_contains(t, q) {
                    return true;
                }
            },
            _ => {},
        }
        i += 1;
    }
    false
}

/// An in-memory implementation of the persistence port.
pub struct MemoryPersistence {
    names: Vec<String>,
    documents: Vec<(String, PersistedDocument)>,
}

impl MemoryPersistence {
    /// The index names, in creation order.
    pub closed spec fn name_seq(&self) -> Seq<String> {
        self.names@
    }

    /// Each stored document with the name of its index, in insertion order.
    pub closed spec fn document_seq(&self) -> Seq<(String, PersistedDocument)> {
        self.documents@
    }

    /// A store without indexes.
    pub fn new() -> (r: Self)
        ensures
            r.inv(),
            r.index_names() == Set::<Seq<char>>::empty(),
            r.document_seq() == Seq::<(String, PersistedDocument)>::empty(),
    {
        let r = MemoryPersistence { names: Vec::new(), documents: Vec::new() };
        assert(r.index_names() =~= Set::<Seq<char>>::empty());
        r
    }

    /// Whether an index of this name exists.
    pub fn has_index(&self, name: &String) -> (r: bool)
        ensures
            r == self.index_names().contains(name@),
    {
        let mut i: usize = 0;
        while i < self.names.len()
            invariant
                i <= self.names@.len(),
                forall|k: int| 0 <= k < i ==> self.names@[k]@ != name@,
            decreases self.names@.len() - i,
        {
            if self.names[i] == *name {
                assert(self.name_seq()[i as int]@ == name@);
                return true;
            }
            i += 1;
        }
        false
    }

    /// Appends a document to an existing index.
    fn append(&mut self, name: String, document: PersistedDocument)
        requires
            old(self).inv(),
            old(self).index_names().contains(name@),
            document.wf(),
        ensures
            final(self).inv(),
            final(self).index_names() == old(self).index_names(),
            final(self).stored(name@) == old(self).stored(name@).insert(document@),
            forall|n: Seq<char>| n != name@ ==> #[trigger] final(self).stored(n) == old(self).stored(n),
    {
        let ghost pre = *self;
        let ghost index_name = name@;
        let ghost m = document@;
        self.documents.push((name, document));
        proof {
            let n0 = pre.document_seq().len() as int;
            assert(self.document_seq()[n0].1@ == m);
            assert(self.index_names() =~= pre.index_names());
            assert forall|n: Seq<char>|
                #[trigger] self.stored(n) == if n == index_name {
                    pre.stored(n).insert(m)
                } else {
                    pre.stored(n)
                } by {
                assert forall|x: Map<Seq<char>, HostValue>|
                    self.stored(n).contains(x) == (if n == index_name {
                        pre.stored(n).insert(m)
                    } else {
                        pre.stored(n)
                    }).contains(x) by {
                    if pre.stored(n).contains(x) {
                        let i = choose|i: int|
                            0 <= i < pre.document_seq().len() && (#[trigger] pre.document_seq()[i]).0@
                                == n && pre.document_seq()[i].1@ == x;
                        assert(self.document_seq()[i] == pre.document_seq()[i]);
                    }
                    if self.stored(n).contains(x) {
                        let i = choose|i: int|
                            0 <= i < self.document_seq().len() && (#[trigger] self.document_seq()[
                                i
                            ]).0@ == n && self.document_seq()[i].1@ == x;
                        if i < n0 {
                            assert(pre.document_seq()[i] == self.document_seq()[i]);
                        }
                    }
                }
                if n == index_name {
                    assert(self.stored(n) =~= pre.stored(n).insert(m));
                } else {
                    assert(self.stored(n) =~= pre.stored(n));
                }
            }
            assert forall|i: int| 0 <= i < self.document_seq().len() implies (
            #[trigger] self.document_seq()[i]).1.wf() && self.index_names().contains(
                self.document_seq()[i].0@,
            ) by {
                if i < n0 {
                    assert(pre.document_seq()[i] == self.document_seq()[i]);
                }
            }
        }
    }

    /// The documents of index `name` that match `query`, in insertion
    /// order, at most `max` of them.
    pub fn search(&self, name: &String, query: &String, max: u32) -> (r: Vec<PersistedDocument>)
        requires
            self.inv(),
        ensures
            r@.len() == first_matches(self.document_seq(), name@, query@, max as nat).len(),
            r@.len() <= max,
            forall|j: int|
                0 <= j < r@.len() ==> (#[trigger] r@[j])@ == first_matches(
                    self.document_seq(),
                    name@,
                    query@,
                    max as nat,
                )[j] && r@[j].wf() && self.stored(name@).contains(r@[j]@),
    {
        let mut out: Vec<PersistedDocument> = Vec::new();
        let mut i: usize = 0;
        while i < self.documents.len()
            invariant
                self.inv(),
                i <= self.documents@.len(),
                out@.len() == first_matches(
                    self.documents@.subrange(0, i as int),
                    name@,
                    query@,
                    max as nat,
                ).len(),
                out@.len() <= max,
                forall|j: int|
                    0 <= j < out@.len() ==> (#[trigger] out@[j])@ == first_matches(
                        self.documents@.subrange(0, i as int),
                        name@,
                        query@,
                        max as nat,
                    )[j] && out@[j].wf() && self.stored(name@).contains(out@[j]@),
            decreases self.documents@.len() - i,
        {
            let ghost s = self.documents@.subrange(0, i + 1);
            assert(s.drop_last() =~= self.documents@.subrange(0, i as int));
            assert(s.last() == self.documents@[i as int]);
            let e = &self.documents[i];
            if out.len() < max as usize && e.0 == *name && matches_query(&e.1, query) {
                assert(self.document_seq()[i as int].1@ == e.1@);
                out.push(e.1.duplicate());
            }
            i += 1;
        }
        assert(self.documents@.subrange(0, i as int) =~= self.documents@);
        out
    }
}

impl MichelPersistence for MemoryPersistence {
    open spec fn infallible(&self) -> bool {
        true
    }

    open spec fn search_result(&self, name: Seq<char>, query: Seq<char>, limit: Option<u32>) -> Seq<
        Map<Seq<char>, HostValue>,
    > {
        first_matches(
            self.document_seq(),
            name,
            query,
            match limit {
                Some(l) => l as nat,
                None => u32::MAX as nat,
            },
        )
    }

    open spec fn inv(&self) -> bool {
        forall|i: int|
            0 <= i < self.document_seq().len() ==> (#[trigger] self.document_seq()[i]).1.wf()
                && self.index_names().contains(self.document_seq()[i].0@)
    }

    open spec fn index_names(&self) -> Set<Seq<char>> {
        Set::new(
            |n: Seq<char>|
                exists|i: int| 0 <= i < self.name_seq().len() && (#[trigger] self.name_seq()[i])@ == n,
        )
    }

    open spec fn stored(&self, name: Seq<char>) -> Set<Map<Seq<char>, HostValue>> {
        Set::new(
            |m: Map<Seq<char>, HostValue>|
                exists|i: int|
                    0 <= i < self.document_seq().len() && (#[trigger] self.document_seq()[i]).0@
                        == name && self.document_seq()[i].1@ == m,
        )
    }

    fn init_index(&mut self, name: String) -> (r: Result<(), PersistenceError>) {
        if self.has_index(&name) {
            return Err(PersistenceError::AlreadyExists);
        }
        let ghost pre = *self;
        self.names.push(name);
        proof {
            assert(self.name_seq()[pre.name_seq().len() as int] == name);
            assert forall|n: Seq<char>|
                self.index_names().contains(n) == pre.index_names().insert(name@).contains(n) by {
                if pre.index_names().contains(n) {
                    let i = choose|i: int|
                        0 <= i < pre.name_seq().len() && (#[trigger] pre.name_seq()[i])@ == n;
                    assert(self.name_seq()[i] == pre.name_seq()[i]);
                }
                if self.index_names().contains(n) && n != name@ {
                    let i = choose|i: int|
                        0 <= i < self.name_seq().len() && (#[trigger] self.name_seq()[i])@ == n;
                    assert(pre.name_seq()[i] == self.name_seq()[i]);
                }
            }
            assert(self.index_names() =~= pre.index_names().insert(name@));
            assert(self.document_seq() == pre.document_seq());
            assert forall|x: Map<Seq<char>, HostValue>| !self.stored(name@).contains(x) by {
                if self.stored(name@).contains(x) {
                    let i = choose|i: int|
                        0 <= i < self.document_seq().len() && (#[trigger] self.document_seq()[
                            i
                        ]).0@ == name@ && self.document_seq()[i].1@ == x;
                    assert(pre.index_names().contains(pre.document_seq()[i].0@));
                }
            }
            assert(self.stored(name@) =~= Set::<Map<Seq<char>, HostValue>>::empty());
            assert forall|n: Seq<char>| n != name@ implies #[trigger] self.stored(n) == pre.stored(
                n,
            ) by {
                assert(self.stored(n) =~= pre.stored(n));
            }
        }
        Ok(())
    }

    fn add_document(&mut self, index: Index, document: PersistedDocument) -> (r: Result<
        (),
        PersistenceError,
    >) {
        if !self.has_index(&index.name) {
            return Err(PersistenceError::NotFound);
        }
        self.append(index.name, document);
        Ok(())
    }

    fn add_documents(&mut self, index: Index, documents: Vec<PersistedDocument>) -> (r: Result<
        (),
        PersistenceError,
    >) {
        if !self.has_index(&index.name) {
            return Err(PersistenceError::NotFound);
        }
        let ghost pre = *self;
        let ghost docs = documents@;
        let ghost name = index.name@;
        let mut rest = documents;
        while rest.len() > 0
            invariant
                self.inv(),
                self.index_names() == pre.index_names(),
                pre.index_names().contains(name),
                index.name@ == name,
                rest@.len() <= docs.len(),
                rest@ == docs.subrange(docs.len() - rest@.len(), docs.len() as int),
                forall|i: int| 0 <= i < docs.len() ==> (#[trigger] docs[i]).wf(),
                forall|i: int|
                    0 <= i < docs.len() - rest@.len() ==> self.stored(name).contains(
                        (#[trigger] docs[i])@,
                    ),
                forall|m: Map<Seq<char>, HostValue>| #[trigger]
                    self.stored(name).contains(m) ==> pre.stored(name).contains(m) || exists|i: int|
                        0 <= i < docs.len() - rest@.len() && docs[i]@ == m,
                forall|n: Seq<char>| n != name ==> #[trigger] self.stored(n) == pre.stored(n),
            decreases rest@.len(),
        {
            let ghost done = docs.len() - rest@.len();
            let d = rest.remove(0);
            assert(d == docs[done]);
            assert(rest@ =~= docs.subrange(docs.len() - rest@.len(), docs.len() as int));
            self.append(index.name.clone(), d);
        }
        Ok(())
    }

    fn search_document(&self, index: Index, query: String, limit: Option<u32>) -> (r: Result<
        Vec<PersistedDocument>,
        PersistenceError,
    >) {
        if !self.has_index(&index.name) {
            return Err(PersistenceError::NotFound);
        }
        let max = match limit {
            Some(l) => l,
            None => u32::MAX,
        };
        Ok(self.search(&index.name, &query, max))
    }
}

} // verus!
