//! The document that a set of field values becomes on the wire.

use vstd::prelude::*;
use crate::field::field_at;
use crate::field::lemma_wire_names_distinct;
use crate::field::Field;
use crate::field::FIELD_COUNT;
use crate::value::WireValue;

verus! {

/// The seven fields in the order in which the document lists them.
pub open spec fn all_fields() -> Seq<Field> {
    Seq::new(FIELD_COUNT as nat, |rank: int| field_at(rank))
}

/// The entry that the document holds for a field: its key and its value, or
/// nothing where the field has no value.
pub open spec fn entry_of(values: Map<Field, WireValue>, field: Field) -> Option<
    (Seq<char>, WireValue),
> {
    if values.contains_key(field) {
        Some((field.spec_wire_name(), values[field]))
    } else {
        None
    }
}

/// [`entry_of`] as a function of the field alone.
pub open spec fn entries_of(values: Map<Field, WireValue>) -> spec_fn(Field) -> Option<
    (Seq<char>, WireValue),
> {
    |field: Field| entry_of(values, field)
}

/// The document for a set of field values: one entry for each field that
/// has a value, in the order of the fields, each value as it stands.
pub open spec fn wire_document(values: Map<Field, WireValue>) -> Seq<(Seq<char>, WireValue)> {
    all_fields().filter_map(entries_of(values))
}

/// What one field adds to the document: its entry, or nothing.
pub open spec fn listed(values: Map<Field, WireValue>, field: Field) -> Seq<
    (Seq<char>, WireValue),
> {
    match entry_of(values, field) {
        Some(entry) => seq![entry],
        None => Seq::empty(),
    }
}

/// The document is what the seven fields add to it, one after the other.
pub proof fn lemma_document_by_field(values: Map<Field, WireValue>)
    ensures
        wire_document(values) == listed(values, Field::Color) + listed(values, Field::Hoist)
            + listed(values, Field::Managed) + listed(values, Field::Mentionable) + listed(
            values,
            Field::Name,
        ) + listed(values, Field::Permissions) + listed(values, Field::Position),
{
    let fields = all_fields();
    let entries = entries_of(values);
    assert(fields.take(0).filter_map(entries) =~= Seq::empty());
    fields.lemma_filter_map_take_succ(entries, 0);
    fields.lemma_filter_map_take_succ(entries, 1);
    fields.lemma_filter_map_take_succ(entries, 2);
    fields.lemma_filter_map_take_succ(entries, 3);
    fields.lemma_filter_map_take_succ(entries, 4);
    fields.lemma_filter_map_take_succ(entries, 5);
    fields.lemma_filter_map_take_succ(entries, 6);
    assert(fields.take(7) =~= fields);
}

/// Whether `entry` is the entry of a field that has a value.
pub open spec fn is_entry(values: Map<Field, WireValue>, entry: (Seq<char>, WireValue)) -> bool {
    exists|field: Field| #[trigger] entry_of(values, field) == Some(entry)
}

/// The document of the fields before place `n`.
spec fn document_before(values: Map<Field, WireValue>, n: int) -> Seq<(Seq<char>, WireValue)> {
    all_fields().take(n).filter_map(entries_of(values))
}

/// Whether `entry` is the entry of a field before place `n`.
spec fn is_entry_before(
    values: Map<Field, WireValue>,
    n: int,
    entry: (Seq<char>, WireValue),
) -> bool {
    exists|field: Field| field.rank() < n && #[trigger] entry_of(values, field) == Some(entry)
}

/// The three parts of [`lemma_document_lists_values`], for the fields
/// before place `n`.
proof fn lemma_document_before_lists_values(values: Map<Field, WireValue>, n: int)
    requires
        0 <= n <= FIELD_COUNT,
    ensures
        forall|i: int|
            0 <= i < document_before(values, n).len() ==> is_entry_before(
                values,
                n,
                #[trigger] document_before(values, n)[i],
            ),
        forall|field: Field|
            field.rank() < n && #[trigger] values.contains_key(field) ==> document_before(
                values,
                n,
            ).contains((field.spec_wire_name(), values[field])),
        forall|i: int, j: int|
            0 <= i < j < document_before(values, n).len() ==> (#[trigger] document_before(
                values,
                n,
            )[i]).0 != (#[trigger] document_before(values, n)[j]).0,
    decreases n,
{
    let now = document_before(values, n);
    if n == 0 {
        assert(now =~= Seq::empty());
    } else {
        let before = document_before(values, n - 1);
        let field = field_at(n - 1);
        lemma_document_before_lists_values(values, n - 1);
        all_fields().lemma_filter_map_take_succ(entries_of(values), n - 1);
        assert(now == before + listed(values, field));
        assert forall|i: int| 0 <= i < now.len() implies is_entry_before(
            values,
            n,
            #[trigger] now[i],
        ) by {
            if i < before.len() {
                assert(is_entry_before(values, n - 1, before[i]));
                let f = choose|f: Field|
                    f.rank() < n - 1 && #[trigger] entry_of(values, f) == Some(before[i]);
                assert(f.rank() < n && entry_of(values, f) == Some(now[i]));
            } else {
                assert(field.rank() < n && entry_of(values, field) == Some(now[i]));
            }
        }
        assert forall|f: Field|
            f.rank() < n && #[trigger] values.contains_key(f) implies now.contains(
            (f.spec_wire_name(), values[f]),
        ) by {
            let entry = (f.spec_wire_name(), values[f]);
            if f.rank() < n - 1 {
                let i = choose|i: int| 0 <= i < before.len() && before[i] == entry;
                assert(now[i] == entry);
            } else {
                assert(f == field);
                assert(now[before.len() as int] == entry);
            }
        }
        assert forall|i: int, j: int| 0 <= i < j < now.len() implies (#[trigger] now[i]).0 != (
        #[trigger] now[j]).0 by {
            if j >= before.len() {
                assert(is_entry_before(values, n - 1, before[i]));
                let f = choose|f: Field|
                    f.rank() < n - 1 && #[trigger] entry_of(values, f) == Some(before[i]);
                lemma_wire_names_distinct(f, field);
            } else {
                assert(now[i] == before[i] && now[j] == before[j]);
            }
        }
    }
}

/// The document lists the fields that have a value and nothing else: each
/// entry is the key and the value of such a field, each such field has its
/// entry, and no key stands twice.
pub proof fn lemma_document_lists_values(values: Map<Field, WireValue>)
    ensures
        forall|i: int|
            0 <= i < wire_document(values).len() ==> is_entry(
                values,
                #[trigger] wire_document(values)[i],
            ),
        forall|field: Field| #[trigger]
            values.contains_key(field) ==> wire_document(values).contains(
                (field.spec_wire_name(), values[field]),
            ),
        forall|i: int, j: int|
            0 <= i < j < wire_document(values).len() ==> (#[trigger] wire_document(values)[i]).0
                != (#[trigger] wire_document(values)[j]).0,
{
    lemma_document_before_lists_values(values, FIELD_COUNT as int);
    assert(all_fields().take(FIELD_COUNT as int) =~= all_fields());
    let doc = wire_document(values);
    let whole = document_before(values, FIELD_COUNT as int);
    assert(doc == whole);
    assert forall|i: int| 0 <= i < doc.len() implies is_entry(values, #[trigger] doc[i]) by {
        assert(is_entry_before(values, FIELD_COUNT as int, whole[i]));
    }
}

} // verus!
