//! The entry points that a sandboxed guest may call on the host. Each one
//! goes through the document bridge and the persistence port, and hands
//! every failure back to the guest.

use vstd::prelude::*;
use crate::document::{
    BridgeError, Document, PersistedDocument, guest_fields_of, host_map_of, id_key, to_guest,
    to_host,
};
use crate::persistence::{Index, MichelPersistence, PersistenceError};
use crate::value::HostValue;

verus! {

/// Why a host entry point failed.
#[derive(Debug, Clone, Copy, PartialEq, Eq, Structural)]
pub enum HostApiError {
    /// The persistence port refused the operation.
    Persistence(PersistenceError),
    /// A stored document has no guest counterpart.
    Conversion(BridgeError),
}

/// A persisted document converts to a guest document: its `"id"` is text.
pub open spec fn converts(p: PersistedDocument) -> bool {
    p@.contains_key(id_key()) && p@[id_key()] is Text
}

/// `d` is the guest form of the persisted document `p`.
pub open spec fn is_guest_form(d: Document, p: PersistedDocument) -> bool {
    d.identifier == p@[id_key()]->Text_0 && d.fields@ == guest_fields_of(p.entry_seq())
}

/// `d` is the guest form of a document that index `name` of `port` holds.
pub open spec fn guest_form_of_stored<P: MichelPersistence>(port: P, name: Seq<char>, d: Document) -> bool {
    exists|p: PersistedDocument|
        p.wf() && port.stored(name).contains(p@) && converts(p) && #[trigger] is_guest_form(d, p)
}

/// The persisted form of a stored document converts to a guest document.
pub open spec fn map_converts(m: Map<Seq<char>, HostValue>) -> bool {
    m.contains_key(id_key()) && m[id_key()] is Text
}

/// `d` is the guest form of a persisted document whose field map is `m`.
pub open spec fn guest_form_of_map(d: Document, m: Map<Seq<char>, HostValue>) -> bool {
    exists|p: PersistedDocument| p.wf() && p@ == m && #[trigger] is_guest_form(d, p)
}

/// The answer to a guest's handshake, whatever name it gives.
pub fn hi(name: String) -> (r: String)
    ensures
        r@ == seq!['y', 'o'],
{
    let r = String::from_str("yo");
    proof {
        reveal_strlit("yo");
    }
    assert(r@ =~= seq!['y', 'o']);
    r
}

/// Creates an index for a guest.
pub fn init_index<P: MichelPersistence>(port: &mut P, index: String) -> (r: Result<
    (),
    HostApiError,
>)
    requires
        old(port).inv(),
    ensures
        final(port).inv(),
        final(port).infallible() == old(port).infallible(),
        old(port).infallible() ==> r != Err::<(), HostApiError>(
            HostApiError::Persistence(PersistenceError::Engine),
        ),
        (r == Err::<(), HostApiError>(HostApiError::Persistence(PersistenceError::AlreadyExists)))
            <==> old(port).index_names().contains(index@),
        r is Ok ==> final(port).index_names() == old(port).index_names().insert(index@)
            && final(port).stored(index@) == Set::<Map<Seq<char>, HostValue>>::empty(),
        r matches Err(e) ==> (e == HostApiError::Persistence(PersistenceError::AlreadyExists) || e
            == HostApiError::Persistence(PersistenceError::Engine)) && final(port).index_names()
            == old(port).index_names() && forall|n: Seq<char>| #[trigger]
            final(port).stored(n) == old(port).stored(n),
{
    match port.init_index(index) {
        Ok(()) => Ok(()),
        Err(e) => Err(HostApiError::Persistence(e)),
    }
}

/// Stores a guest document in an index: the document is bridged to its
/// persisted form and handed to the port.
pub fn new_document_for_index<P: MichelPersistence>(
    port: &mut P,
    index: String,
    document: &Document,
) -> (r: Result<(), HostApiError>)
    requires
        old(port).inv(),
    ensures
        final(port).inv(),
        final(port).infallible() == old(port).infallible(),
        old(port).infallible() ==> r != Err::<(), HostApiError>(
            HostApiError::Persistence(PersistenceError::Engine),
        ),
        (r == Err::<(), HostApiError>(HostApiError::Persistence(PersistenceError::NotFound)))
            <==> !old(port).index_names().contains(index@),
        r is Ok ==> final(port).index_names() == old(port).index_names() && final(port).stored(
            index@,
        ).contains(host_map_of(document.identifier, document.fields@)) && final(port).stored(
            index@,
        ).subset_of(old(port).stored(index@).insert(host_map_of(document.identifier, document.fields@))),
        r matches Err(e) ==> (e == HostApiError::Persistence(PersistenceError::NotFound) || e
            == HostApiError::Persistence(PersistenceError::Engine)) && final(port).index_names()
            == old(port).index_names() && forall|n: Seq<char>| #[trigger]
            final(port).stored(n) == old(port).stored(n),
{
    let persisted = to_host(document);
    match port.add_document(Index { name: index }, persisted) {
        Ok(()) => Ok(()),
        Err(e) => Err(HostApiError::Persistence(e)),
    }
}

/// Converts search results to guest documents, failing on the first result
/// that has no guest counterpart.
pub fn bridge_results(results: &Vec<PersistedDocument>) -> (r: Result<Vec<Document>, BridgeError>)
    requires
        forall|i: int| 0 <= i < results@.len() ==> (#[trigger] results@[i]).wf(),
    ensures
        r is Ok <==> forall|i: int| 0 <= i < results@.len() ==> converts(#[trigger] results@[i]),
        r matches Ok(v) ==> v@.len() == results@.len() && forall|i: int|
            0 <= i < v@.len() ==> is_guest_form(#[trigger] v@[i], results@[i]),
        r matches Err(e) ==> exists|i: int|
            0 <= i < results@.len() && !converts(#[trigger] results@[i]) && (e
                == BridgeError::MissingIdentifier <==> !results@[i]@.contains_key(id_key())),
{
    let mut out: Vec<Document> = Vec::new();
    let mut i: usize = 0;
    while i < results.len()
        invariant
            i <= results@.len(),
            forall|k: int| 0 <= k < results@.len() ==> (#[trigger] results@[k]).wf(),
            out@.len() == i,
            forall|k: int| 0 <= k < i ==> converts(#[trigger] results@[k]),
            forall|k: int| 0 <= k < i ==> is_guest_form(#[trigger] out@[k], results@[k]),
        decreases results@.len() - i,
    {
        match to_guest(&results[i]) {
            Ok(d) => out.push(d),
            Err(e) => {
                assert(!converts(results@[i as int]));
                return Err(e);
            },
        }
        i += 1;
    }
    Ok(out)
}

/// Searches an index for a guest: the guest's query goes to the port with
/// no limit, and each result of the port's answer, in order, is bridged back
/// to a guest document; a result without a text identifier fails the call.
pub fn search_in_index<P: MichelPersistence>(port: &P, index: String, query: String) -> (r: Result<
    Vec<Document>,
    HostApiError,
>)
    requires
        port.inv(),
    ensures
        port.infallible() ==> r != Err::<Vec<Document>, HostApiError>(
            HostApiError::Persistence(PersistenceError::Engine),
        ),
        (r == Err::<Vec<Document>, HostApiError>(
            HostApiError::Persistence(PersistenceError::NotFound),
        )) <==> !port.index_names().contains(index@),
        r matches Ok(v) ==> forall|i: int|
            0 <= i < v@.len() ==> guest_form_of_stored(*port, index@, #[trigger] v@[i]),
        r matches Ok(v) ==> v@.len() == port.search_result(index@, query@, None).len()
            && forall|i: int|
            0 <= i < v@.len() ==> guest_form_of_map(
                #[trigger] v@[i],
                port.search_result(index@, query@, None)[i],
            ),
        r matches Err(e) ==> e == HostApiError::Persistence(PersistenceError::NotFound) || e
            == HostApiError::Persistence(PersistenceError::Engine) || e is Conversion,
        r matches Err(HostApiError::Conversion(_)) ==> exists|i: int|
            0 <= i < port.search_result(index@, query@, None).len() && !map_converts(
                #[trigger] port.search_result(index@, query@, None)[i],
            ),
        (port.infallible() && port.index_names().contains(index@) && forall|i: int|
            0 <= i < port.search_result(index@, query@, None).len() ==> map_converts(
                #[trigger] port.search_result(index@, query@, None)[i],
            )) ==> r is Ok,
{
    let ghost name = index@;
    let ghost q = query@;
    match port.search_document(Index { name: index }, query, None) {
        Ok(results) => match bridge_results(&results) {
            Ok(v) => {
                assert forall|i: int| 0 <= i < v@.len() implies guest_form_of_stored(
                    *port,
                    name,
                    #[trigger] v@[i],
                ) by {
                    assert(converts(results@[i]));
                    assert(is_guest_form(v@[i], results@[i]));
                }
                assert forall|i: int| 0 <= i < v@.len() implies guest_form_of_map(
                    #[trigger] v@[i],
                    port.search_result(name, q, None)[i],
                ) by {
                    assert(is_guest_form(v@[i], results@[i]));
                }
                Ok(v)
            },
            Err(e) => {
                let ghost i = choose|i: int|
                    0 <= i < results@.len() && !converts(#[trigger] results@[i]);
                assert(!map_converts(port.search_result(name, q, None)[i]));
                Err(HostApiError::Conversion(e))
            },
        },
        Err(e) => Err(HostApiError::Persistence(e)),
    }
}

} // verus!
