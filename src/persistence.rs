//! The persistence port: what a storage engine offers the host.

use vstd::prelude::*;
use crate::document::PersistedDocument;
use crate::value::HostValue;

verus! {

/// Names a logical index of the persistence port.
pub struct Index {
    pub name: String,
}

/// Why the persistence port refused an operation.
#[derive(Debug, Clone, Copy, PartialEq, Eq, Structural)]
pub enum PersistenceError {
    /// `init_index` on a name that is already registered.
    AlreadyExists,
    /// An operation on an index that was never initialized.
    NotFound,
    /// A failure inside the storage engine.
    Engine,
}

/// The contract that a storage engine meets to serve the host.
pub trait MichelPersistence: Sized {
    /// The implementation's internal consistency.
    spec fn inv(&self) -> bool;

    /// The engine has no failure of its own: it refuses an operation only
    /// with `AlreadyExists` or `NotFound`, never with `Engine`.
    spec fn infallible(&self) -> bool;

    /// The names of the indexes that exist.
    spec fn index_names(&self) -> Set<Seq<char>>;

    /// What a search of index `name` for `query`, with at most `limit`
    /// results (no limit: as many as the engine returns), answers, in order.
    spec fn search_result(&self, name: Seq<char>, query: Seq<char>, limit: Option<u32>) -> Seq<
        Map<Seq<char>, HostValue>,
    >;

    /// The documents that the index `name` holds.
    spec fn stored(&self, name: Seq<char>) -> Set<Map<Seq<char>, HostValue>>;

    /// Creates an empty index; fails with `AlreadyExists` exactly when the
    /// name is registered, and changes nothing when it fails.
    fn init_index(&mut self, name: String) -> (r: Result<(), PersistenceError>)
        requires
            old(self).inv(),
        ensures
            final(self).inv(),
            r matches Err(e) ==> e == PersistenceError::AlreadyExists || e == PersistenceError::Engine,
            final(self).infallible() == old(self).infallible(),
            old(self).infallible() ==> r != Err::<(), PersistenceError>(PersistenceError::Engine),
            (r == Err::<(), PersistenceError>(PersistenceError::AlreadyExists)) <==> old(
                self,
            ).index_names().contains(name@),
            r is Ok ==> final(self).index_names() == old(self).index_names().insert(name@)
                && final(self).stored(name@) == Set::<Map<Seq<char>, HostValue>>::empty()
                && (forall|n: Seq<char>|
                n != name@ ==> #[trigger] final(self).stored(n) == old(self).stored(n)),
            r is Err ==> final(self).index_names() == old(self).index_names() && forall|n: Seq<char>|
                #[trigger] final(self).stored(n) == old(self).stored(n),
    ;

    /// Inserts or replaces one document; fails with `NotFound` exactly when
    /// the index does not exist, and changes nothing when it fails.
    fn add_document(&mut self, index: Index, document: PersistedDocument) -> (r: Result<
        (),
        PersistenceError,
    >)
        requires
            old(self).inv(),
            document.wf(),
        ensures
            final(self).inv(),
            r matches Err(e) ==> e == PersistenceError::NotFound || e == PersistenceError::Engine,
            final(self).infallible() == old(self).infallible(),
            old(self).infallible() ==> r != Err::<(), PersistenceError>(PersistenceError::Engine),
            (r == Err::<(), PersistenceError>(PersistenceError::NotFound)) <==> !old(
                self,
            ).index_names().contains(index.name@),
            r is Ok ==> final(self).index_names() == old(self).index_names()
                && final(self).stored(index.name@).contains(document@)
                && final(self).stored(index.name@).subset_of(
                old(self).stored(index.name@).insert(document@),
            ) && (forall|n: Seq<char>|
                n != index.name@ ==> #[trigger] final(self).stored(n) == old(self).stored(n)),
            r is Err ==> final(self).index_names() == old(self).index_names() && forall|n: Seq<char>|
                #[trigger] final(self).stored(n) == old(self).stored(n),
    ;

    /// Inserts or replaces several documents at once; fails with `NotFound`
    /// exactly when the index does not exist, and changes nothing when it
    /// fails.
    fn add_documents(&mut self, index: Index, documents: Vec<PersistedDocument>) -> (r: Result<
        (),
        PersistenceError,
    >)
        requires
            old(self).inv(),
            forall|i: int| 0 <= i < documents@.len() ==> (#[trigger] documents@[i]).wf(),
        ensures
            final(self).inv(),
            r matches Err(e) ==> e == PersistenceError::NotFound || e == PersistenceError::Engine,
            final(self).infallible() == old(self).infallible(),
            old(self).infallible() ==> r != Err::<(), PersistenceError>(PersistenceError::Engine),
            (r == Err::<(), PersistenceError>(PersistenceError::NotFound)) <==> !old(
                self,
            ).index_names().contains(index.name@),
            r is Ok ==> final(self).index_names() == old(self).index_names() && (forall|i: int|
                0 <= i < documents@.len() ==> final(self).stored(index.name@).contains(
                    (#[trigger] documents@[i])@,
                )) && (forall|m: Map<Seq<char>, HostValue>| #[trigger]
                final(self).stored(index.name@).contains(m) ==> old(self).stored(
                    index.name@,
                ).contains(m) || exists|i: int|
                0 <= i < documents@.len() && documents@[i]@ == m) && (forall|n: Seq<char>|
                n != index.name@ ==> #[trigger] final(self).stored(n) == old(self).stored(n)),
            r is Err ==> final(self).index_names() == old(self).index_names() && forall|n: Seq<char>|
                #[trigger] final(self).stored(n) == old(self).stored(n),
    ;

    /// Searches an index; fails with `NotFound` exactly when the index does
    /// not exist. The results are the engine's answer for the query, in
    /// order; each is a document of the index, and there are at most `limit`
    /// of them.
    fn search_document(&self, index: Index, query: String, limit: Option<u32>) -> (r: Result<
        Vec<PersistedDocument>,
        PersistenceError,
    >)
        requires
            self.inv(),
        ensures
            r matches Err(e) ==> e == PersistenceError::NotFound || e == PersistenceError::Engine,
            self.infallible() ==> r != Err::<Vec<PersistedDocument>, PersistenceError>(
                PersistenceError::Engine,
            ),
            (r == Err::<Vec<PersistedDocument>, PersistenceError>(PersistenceError::NotFound))
                <==> !self.index_names().contains(index.name@),
            r matches Ok(v) ==> (limit matches Some(l) ==> v@.len() <= l) && v@.len()
                == self.search_result(index.name@, query@, limit).len() && forall|i: int|
                0 <= i < v@.len() ==> (#[trigger] v@[i]).wf() && self.stored(
                    index.name@,
                ).contains(v@[i]@) && v@[i]@ == self.search_result(index.name@, query@, limit)[i],
    ;
}

} // verus!
