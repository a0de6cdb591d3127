//! The document bridge: guest documents (an identifier and ordered, typed
//! fields) and persisted documents (a map from field names to host values,
//! with the identifier under the reserved key `"id"`).

use vstd::prelude::*;
use crate::keyed::{KeyedMap, entries_map, keys_unique, lemma_entries_map_value};
use crate::value::{
    ConversionError, HostValue, Value, value_to_host, value_from_host, value_to_host_spec, value_from_host_spec,
    representable, lemma_value_round_trip,
};

verus! {

/// A document as the host's document store holds it.
pub type PersistedDocument = KeyedMap<HostValue>;

/// A named, typed field of a guest document.
#[derive(Debug, PartialEq, Eq)]
pub struct Field {
    pub name: String,
    pub value: Value,
}

/// A document as a guest sees it.
#[derive(Debug, PartialEq, Eq)]
pub struct Document {
    pub identifier: String,
    pub fields: Vec<Field>,
}

/// Why a persisted document has no guest counterpart.
#[derive(Debug, Clone, Copy, PartialEq, Eq, Structural)]
pub enum BridgeError {
    /// The document has no `"id"` key.
    MissingIdentifier,
    /// The `"id"` key holds something other than text.
    IdentifierNotText,
}

/// The reserved key under which a persisted document keeps its identifier.
pub open spec fn id_key() -> Seq<char> {
    seq!['i', 'd']
}

/// The persisted form of a guest document: the identifier under `"id"`,
/// then each field in order, a later field overriding an earlier one.
pub open spec fn host_map_of(identifier: String, fields: Seq<Field>) -> Map<Seq<char>, HostValue>
    decreases fields.len(),
{
    if fields.len() == 0 {
        Map::empty().insert(id_key(), HostValue::Text(identifier))
    } else {
        host_map_of(identifier, fields.drop_last()).insert(
            fields.last().name@,
            value_to_host_spec(fields.last().value),
        )
    }
}

/// The guest fields of persisted entries, in entry order: every entry but
/// `"id"` whose value converts, with the converted value.
pub open spec fn guest_fields_of(s: Seq<(String, HostValue)>) -> Seq<Field>
    decreases s.len(),
{
    if s.len() == 0 {
        Seq::empty()
    } else {
        let init = guest_fields_of(s.drop_last());
        let e = s.last();
        if e.0@ == id_key() {
            init
        } else {
            match value_from_host_spec(e.1) {
                Ok(v) => init.push(Field { name: e.0, value: v }),
                Err(_) => init,
            }
        }
    }
}

/// Field names are pairwise distinct and none is `"id"`.
pub open spec fn plain_names(fields: Seq<Field>) -> bool {
    &&& forall|i: int| 0 <= i < fields.len() ==> (#[trigger] fields[i]).name@ != id_key()
    &&& forall|i: int, j: int|
        0 <= i < j < fields.len() ==> (#[trigger] fields[i]).name@ != (#[trigger] fields[j]).name@
}

/// No field holds a date-time, which the persisted form keeps as text.
pub open spec fn no_datetime(fields: Seq<Field>) -> bool {
    forall|i: int| 0 <= i < fields.len() ==> !((#[trigger] fields[i]).value is Datetime)
}

/// The entries `s` are laid out as the persisted form of a guest document:
/// the identifier under `"id"` first, then one entry per field, in order.
pub open spec fn laid_out_from(s: Seq<(String, HostValue)>, identifier: String, fields: Seq<Field>) -> bool {
    &&& s.len() == fields.len() + 1
    &&& s[0].0@ == id_key()
    &&& s[0].1 == HostValue::Text(identifier)
    &&& forall|i: int|
        0 <= i < fields.len() ==> #[trigger] s[i + 1] == (
            fields[i].name,
            value_to_host_spec(fields[i].value),
        )
}

/// The key `"id"`, proved to be [`id_key`].
fn id_key_string() -> (r: String)
    ensures
        r@ == id_key(),
{
    let r = String::from_str("id");
    proof {
        reveal_strlit("id");
    }
    assert(r@ =~= id_key());
    r
}

/// Converts a guest document to its persisted form; this never fails.
pub fn to_host(doc: &Document) -> (r: PersistedDocument)
    ensures
        r.wf(),
        r@ == host_map_of(doc.identifier, doc.fields@),
        plain_names(doc.fields@) ==> laid_out_from(r.entry_seq(), doc.identifier, doc.fields@),
{
    let mut map = PersistedDocument::new();
    map.insert(id_key_string(), HostValue::Text(doc.identifier.clone()));
    assert(map@ =~= host_map_of(doc.identifier, doc.fields@.subrange(0, 0)));
    let ghost plain = plain_names(doc.fields@);
    let mut i: usize = 0;
    while i < doc.fields.len()
        invariant
            i <= doc.fields@.len(),
            map.wf(),
            map@ == host_map_of(doc.identifier, doc.fields@.subrange(0, i as int)),
            plain == plain_names(doc.fields@),
            plain ==> laid_out_from(map.entry_seq(), doc.identifier, doc.fields@.subrange(0, i as int)),
        decreases doc.fields@.len() - i,
    {
        let f = &doc.fields[i];
        proof {
            if plain {
                let es = map.entry_seq();
                assert forall|j: int| 0 <= j < es.len() implies es[j].0@ != f.name@ by {
                    if j == 0 {
                        assert(doc.fields@[i as int].name@ != id_key());
                    } else {
                        assert(es[(j - 1) + 1] == (
                            doc.fields@[j - 1].name,
                            value_to_host_spec(doc.fields@[j - 1].value),
                        ));
                    }
                }
            }
        }
        let ghost before = map.entry_seq();
        map.insert(f.name.clone(), value_to_host(f.value.duplicate()));
        proof {
            if plain {
                let fs = doc.fields@.subrange(0, i + 1);
                let es = map.entry_seq();
                assert(es == before.push((f.name, value_to_host_spec(f.value))));
                assert forall|j: int| 0 <= j < fs.len() implies #[trigger] es[j + 1] == (
                    fs[j].name,
                    value_to_host_spec(fs[j].value),
                ) by {
                    if j < i {
                        assert(before[j + 1] == (
                            doc.fields@.subrange(0, i as int)[j].name,
                            value_to_host_spec(doc.fields@.subrange(0, i as int)[j].value),
                        ));
                    }
                }
            }
        }
        proof {
            assert(doc.fields@.subrange(0, i + 1).drop_last() =~= doc.fields@.subrange(0, i as int));
        }
        i += 1;
    }
    assert(doc.fields@.subrange(0, i as int) =~= doc.fields@);
    map
}

proof fn lemma_guest_fields_prefix(s: Seq<(String, HostValue)>, identifier: String, fields: Seq<Field>, k: int)
    requires
        laid_out_from(s, identifier, fields),
        plain_names(fields),
        no_datetime(fields),
        0 <= k <= fields.len(),
    ensures
        guest_fields_of(s.subrange(0, k + 1)) == fields.subrange(0, k),
    decreases k,
{
    if k == 0 {
        let t = s.subrange(0, 1);
        assert(t.drop_last() =~= Seq::<(String, HostValue)>::empty());
        assert(t.last() == s[0]);
        assert(guest_fields_of(t.drop_last()) == Seq::<Field>::empty());
        assert(fields.subrange(0, 0) =~= Seq::<Field>::empty());
    } else {
        lemma_guest_fields_prefix(s, identifier, fields, k - 1);
        let t = s.subrange(0, k + 1);
        assert(t.drop_last() =~= s.subrange(0, k));
        let f = fields[k - 1];
        assert(t.last() == s[(k - 1) + 1]);
        assert(f.name@ != id_key());
        assert(!(f.value is Datetime));
        assert(value_from_host_spec(value_to_host_spec(f.value)) == Ok::<Value, ConversionError>(f.value));
        assert(fields.subrange(0, k) =~= fields.subrange(0, k - 1).push(f));
    }
}

/// A guest document whose field names are distinct, none of them `"id"`,
/// and whose values hold no date-time, survives conversion to its persisted
/// form and back: the identifier and every field come back, in order.
pub proof fn lemma_guest_round_trip(s: Seq<(String, HostValue)>, identifier: String, fields: Seq<Field>)
    requires
        laid_out_from(s, identifier, fields),
        plain_names(fields),
        no_datetime(fields),
    ensures
        guest_fields_of(s) == fields,
        keys_unique(s) ==> entries_map(s)[id_key()] == HostValue::Text(identifier),
{
    lemma_guest_fields_prefix(s, identifier, fields, fields.len() as int);
    assert(s.subrange(0, fields.len() + 1 as int) =~= s);
    assert(fields.subrange(0, fields.len() as int) =~= fields);
    if keys_unique(s) {
        lemma_entries_map_value(s, 0);
    }
}

/// Converts a persisted document to a guest document. The identifier comes
/// from `"id"`; every other entry whose value converts becomes a field, in
/// entry order, and the entries whose values do not convert are dropped.
pub fn to_guest(p: &PersistedDocument) -> (r: Result<Document, BridgeError>)
    requires
        p.wf(),
    ensures
        r is Ok <==> (p@.contains_key(id_key()) && p@[id_key()] is Text),
        r matches Err(e) ==> (e == BridgeError::MissingIdentifier <==> !p@.contains_key(id_key())),
        r matches Ok(d) ==> d.identifier == p@[id_key()]->Text_0 && d.fields@ == guest_fields_of(
            p.entry_seq(),
        ),
{
    let key = id_key_string();
    match p.get(&key) {
        None => Err(BridgeError::MissingIdentifier),
        Some(HostValue::Text(id)) => {
            let entries = p.entries();
            let mut fields: Vec<Field> = Vec::new();
            let mut i: usize = 0;
            while i < entries.len()
                invariant
                    i <= entries@.len(),
                    key@ == id_key(),
                    fields@ == guest_fields_of(entries@.subrange(0, i as int)),
                decreases entries@.len() - i,
            {
                let e = &entries[i];
                if e.0 == key {
                } else {
                    match value_from_host(&e.1) {
                        Ok(v) => fields.push(Field { name: e.0.clone(), value: v }),
                        Err(_) => {},
                    }
                }
                proof {
                    let s = entries@.subrange(0, i + 1);
                    assert(s.drop_last() =~= entries@.subrange(0, i as int));
                    assert(s.last() == entries@[i as int]);
                }
                i += 1;
            }
            assert(entries@.subrange(0, i as int) =~= entries@);
            Ok(Document { identifier: id.clone(), fields })
        },
        Some(_) => Err(BridgeError::IdentifierNotText),
    }
}

proof fn lemma_round_trip_prefix(identifier: String, s: Seq<(String, HostValue)>)
    requires
        keys_unique(s),
        forall|i: int| 0 <= i < s.len() && s[i].0@ != id_key() ==> representable(#[trigger] s[i].1),
    ensures
        host_map_of(identifier, guest_fields_of(s)) == entries_map(s).insert(
            id_key(),
            HostValue::Text(identifier),
        ),
    decreases s.len(),
{
    let t = HostValue::Text(identifier);
    if s.len() == 0 {
        assert(host_map_of(identifier, guest_fields_of(s)) =~= entries_map(s).insert(id_key(), t));
    } else {
        let init = s.drop_last();
        let e = s.last();
        assert(keys_unique(init));
        assert forall|i: int| 0 <= i < init.len() && init[i].0@ != id_key() implies representable(
            #[trigger] init[i].1,
        ) by {
            assert(init[i] == s[i]);
        }
        lemma_round_trip_prefix(identifier, init);
        if e.0@ == id_key() {
            assert(entries_map(s).insert(id_key(), t) =~= entries_map(init).insert(id_key(), t));
        } else {
            assert(representable(s[s.len() - 1].1));
            let v = value_from_host_spec(e.1)->Ok_0;
            lemma_value_round_trip(e.1);
            let gf = guest_fields_of(init).push(Field { name: e.0, value: v });
            assert(gf.drop_last() =~= guest_fields_of(init));
            assert(host_map_of(identifier, gf) =~= entries_map(s).insert(id_key(), t));
        }
    }
}

/// A persisted document whose identifier is text and whose other values all
/// convert survives conversion to a guest document and back: the persisted
/// form of the guest document maps the same names to the same values.
pub proof fn lemma_persisted_round_trip(p: PersistedDocument)
    requires
        p.wf(),
        p@.contains_key(id_key()),
        p@[id_key()] is Text,
        forall|k: Seq<char>| #[trigger] p@.contains_key(k) && k != id_key() ==> representable(p@[k]),
    ensures
        host_map_of(p@[id_key()]->Text_0, guest_fields_of(p.entry_seq())) == p@,
{
    let s = p.entry_seq();
    assert forall|i: int| 0 <= i < s.len() && s[i].0@ != id_key() implies representable(
        #[trigger] s[i].1,
    ) by {
        lemma_entries_map_value(s, i);
    }
    lemma_round_trip_prefix(p@[id_key()]->Text_0, s);
    assert(p@.insert(id_key(), p@[id_key()]) =~= p@);
}

} // verus!
