//! What holds of the builder whatever it is seeded from and however it is
//! written to.

use vstd::prelude::*;
use crate::document::lemma_document_by_field;
use crate::document::listed;
use crate::document::wire_document;
use crate::edit_role::creation_defaults;
use crate::edit_role::populated;
use crate::edit_role::seeded;
use crate::field::Field;
use crate::model::RoleView;
use crate::model::PRESET_GENERAL;
use crate::value::WireValue;

verus! {

/// One write to a builder: a field and the value stored under it.
pub struct Write {
    pub field: Field,
    pub value: WireValue,
}

/// The values after a run of writes, made one after the other.
pub open spec fn apply_writes(values: Map<Field, WireValue>, writes: Seq<Write>) -> Map<
    Field,
    WireValue,
>
    decreases writes.len(),
{
    if writes.len() == 0 {
        values
    } else {
        apply_writes(values, writes.drop_last()).insert(writes.last().field, writes.last().value)
    }
}

/// Whether no two writes of a run go to the same field.
pub open spec fn fields_distinct(writes: Seq<Write>) -> bool {
    forall|i: int, j: int|
        0 <= i < j < writes.len() ==> (#[trigger] writes[i]).field != (#[trigger] writes[j]).field
}

/// A document seeded from a role holds all seven fields, each with what the
/// role holds: the colour and the permissions as their numbers, the rest as
/// they are.
pub proof fn lemma_document_of_role(role: RoleView)
    ensures
        wire_document(seeded(role)) == seq![
            ("color"@, WireValue::Integer(role.colour.0 as u64)),
            ("hoist"@, WireValue::Bool(role.hoist)),
            ("managed"@, WireValue::Bool(role.managed)),
            ("mentionable"@, WireValue::Bool(role.mentionable)),
            ("name"@, WireValue::Text(role.name)),
            ("permissions"@, WireValue::Integer(role.permissions.bits)),
            ("position"@, WireValue::Integer(role.position)),
        ],
{
    lemma_document_by_field(seeded(role));
}

/// The document of a builder for a new role holds the six creation defaults
/// and no entry for `managed`.
pub proof fn lemma_document_of_defaults()
    ensures
        wire_document(creation_defaults()) == seq![
            ("color"@, WireValue::Integer(10070709)),
            ("hoist"@, WireValue::Bool(false)),
            ("mentionable"@, WireValue::Bool(false)),
            ("name"@, WireValue::Text("new role"@)),
            ("permissions"@, WireValue::Integer(PRESET_GENERAL)),
            ("position"@, WireValue::Integer(1)),
        ],
{
    lemma_document_by_field(creation_defaults());
}

/// Both starting points give values as every builder has them.
pub proof fn lemma_starts_populated(role: RoleView)
    ensures
        populated(seeded(role)),
        populated(creation_defaults()),
{
}

/// The document of a builder always holds the six fields that every builder
/// has, and before `mentionable` the entry for `managed` where there is one.
pub proof fn lemma_document_of_populated(values: Map<Field, WireValue>)
    requires
        populated(values),
    ensures
        wire_document(values) == seq![
            ("color"@, values[Field::Color]),
            ("hoist"@, values[Field::Hoist]),
        ] + listed(values, Field::Managed) + seq![
            ("mentionable"@, values[Field::Mentionable]),
            ("name"@, values[Field::Name]),
            ("permissions"@, values[Field::Permissions]),
            ("position"@, values[Field::Position]),
        ],
        6 <= wire_document(values).len() <= 7,
{
    lemma_document_by_field(values);
    assert(values.contains_key(Field::Color));
    assert(values.contains_key(Field::Hoist));
    assert(values.contains_key(Field::Mentionable));
    assert(values.contains_key(Field::Name));
    assert(values.contains_key(Field::Permissions));
    assert(values.contains_key(Field::Position));
}

/// Writing a field twice leaves what writing the second value alone leaves.
pub proof fn lemma_overwrite(
    values: Map<Field, WireValue>,
    field: Field,
    first: WireValue,
    second: WireValue,
)
    ensures
        values.insert(field, first).insert(field, second) == values.insert(field, second),
        values.insert(field, first).insert(field, second)[field] == second,
{
    assert(values.insert(field, first).insert(field, second) =~= values.insert(field, second));
}

/// The last write to a field decides its value, whatever was written to it
/// or to other fields before, and whatever is written to other fields after.
pub proof fn lemma_last_write_wins(values: Map<Field, WireValue>, writes: Seq<Write>, last: int)
    requires
        0 <= last < writes.len(),
        forall|later: int|
            last < later < writes.len() ==> (#[trigger] writes[later]).field != writes[last].field,
    ensures
        apply_writes(values, writes).contains_key(writes[last].field),
        apply_writes(values, writes)[writes[last].field] == writes[last].value,
    decreases writes.len(),
{
    if last < writes.len() - 1 {
        assert(writes.drop_last()[last] == writes[last]);
        assert forall|later: int| last < later < writes.drop_last().len() implies (
        #[trigger] writes.drop_last()[later]).field != writes.drop_last()[last].field by {
            assert(writes.drop_last()[later] == writes[later]);
        }
        lemma_last_write_wins(values, writes.drop_last(), last);
        assert(writes.last() == writes[writes.len() - 1]);
    }
}

/// A field that no write goes to keeps what it had.
pub proof fn lemma_unwritten_field_kept(
    values: Map<Field, WireValue>,
    writes: Seq<Write>,
    field: Field,
)
    requires
        forall|i: int| 0 <= i < writes.len() ==> (#[trigger] writes[i]).field != field,
    ensures
        apply_writes(values, writes).contains_key(field) == values.contains_key(field),
        apply_writes(values, writes)[field] == values[field],
    decreases writes.len(),
{
    if writes.len() > 0 {
        assert forall|i: int| 0 <= i < writes.drop_last().len() implies (
        #[trigger] writes.drop_last()[i]).field != field by {
            assert(writes.drop_last()[i] == writes[i]);
        }
        lemma_unwritten_field_kept(values, writes.drop_last(), field);
        assert(writes.last() == writes[writes.len() - 1]);
    }
}

/// Two writes to different fields leave the same values in either order.
pub proof fn lemma_writes_commute(
    values: Map<Field, WireValue>,
    a: Write,
    b: Write,
)
    requires
        a.field != b.field,
    ensures
        values.insert(a.field, a.value).insert(b.field, b.value) == values.insert(
            b.field,
            b.value,
        ).insert(a.field, a.value),
{
    assert(values.insert(a.field, a.value).insert(b.field, b.value) =~= values.insert(
        b.field,
        b.value,
    ).insert(a.field, a.value));
}

/// In a run of writes to different fields, each write decides the value of
/// its field, and the other fields keep what they had.
proof fn lemma_distinct_writes(values: Map<Field, WireValue>, writes: Seq<Write>, field: Field)
    requires
        fields_distinct(writes),
    ensures
        forall|i: int|
            0 <= i < writes.len() && (#[trigger] writes[i]).field == field ==> apply_writes(
                values,
                writes,
            ).contains_key(field) && apply_writes(values, writes)[field] == writes[i].value,
        (forall|i: int| 0 <= i < writes.len() ==> (#[trigger] writes[i]).field != field)
            ==> apply_writes(values, writes).contains_key(field) == values.contains_key(field)
            && apply_writes(values, writes)[field] == values[field],
{
    assert forall|i: int| 0 <= i < writes.len() && (#[trigger] writes[i]).field
        == field implies apply_writes(values, writes).contains_key(field) && apply_writes(
        values,
        writes,
    )[field] == writes[i].value by {
        lemma_last_write_wins(values, writes, i);
    }
    if forall|i: int| 0 <= i < writes.len() ==> (#[trigger] writes[i]).field != field {
        lemma_unwritten_field_kept(values, writes, field);
    }
}

/// A write that stands in one run stands in every run with the same writes.
proof fn lemma_write_found(writes: Seq<Write>, reordered: Seq<Write>, j: int) -> (i: int)
    requires
        writes.to_multiset() == reordered.to_multiset(),
        0 <= j < reordered.len(),
    ensures
        0 <= i < writes.len(),
        writes[i] == reordered[j],
{
    writes.to_multiset_ensures();
    reordered.to_multiset_ensures();
    let write = reordered[j];
    assert(reordered.contains(write));
    assert(reordered.to_multiset().count(write) > 0);
    assert(writes.to_multiset().count(write) > 0);
    assert(writes.contains(write));
    choose|i: int| 0 <= i < writes.len() && writes[i] == write
}

/// Writes to different fields leave the same values in whatever order they
/// are made.
pub proof fn lemma_order_of_writes(
    values: Map<Field, WireValue>,
    writes: Seq<Write>,
    reordered: Seq<Write>,
)
    requires
        fields_distinct(writes),
        writes.to_multiset() == reordered.to_multiset(),
    ensures
        fields_distinct(reordered),
        apply_writes(values, writes) == apply_writes(values, reordered),
{
    assert(writes.no_duplicates());
    writes.lemma_multiset_has_no_duplicates();
    reordered.lemma_multiset_has_no_duplicates_conv();
    assert forall|i: int, j: int| 0 <= i < j < reordered.len() implies (
    #[trigger] reordered[i]).field != (#[trigger] reordered[j]).field by {
        let a = lemma_write_found(writes, reordered, i);
        let b = lemma_write_found(writes, reordered, j);
        assert(reordered[i] != reordered[j]);
        assert(a != b);
    }
    let left = apply_writes(values, writes);
    let right = apply_writes(values, reordered);
    assert forall|field: Field| #![trigger left.dom().contains(field)]
        left.dom().contains(field) == right.dom().contains(field) && left[field]
            == right[field] by {
        lemma_distinct_writes(values, writes, field);
        lemma_distinct_writes(values, reordered, field);
        if exists|i: int| 0 <= i < writes.len() && (#[trigger] writes[i]).field == field {
            let i = choose|i: int| 0 <= i < writes.len() && (#[trigger] writes[i]).field == field;
            let j = lemma_write_found(reordered, writes, i);
            assert(reordered[j].field == field);
        } else {
            assert forall|j: int| 0 <= j < reordered.len() implies (
            #[trigger] reordered[j]).field != field by {
                let i = lemma_write_found(writes, reordered, j);
                assert(writes[i].field != field);
            }
        }
    }
    assert(left =~= right);
}

/// A write of a value of the field's kind leaves values as every builder
/// has them.
pub proof fn lemma_write_keeps_populated(values: Map<Field, WireValue>, write: Write)
    requires
        populated(values),
        write.field.admits(write.value),
    ensures
        populated(values.insert(write.field, write.value)),
{
    let after = values.insert(write.field, write.value);
    assert forall|field: Field| field != Field::Managed implies #[trigger] after.contains_key(
        field,
    ) by {
        assert(values.contains_key(field));
    }
    assert forall|field: Field| #[trigger] after.contains_key(field) implies field.admits(
        after[field],
    ) by {
        if field != write.field {
            assert(values.contains_key(field));
        }
    }
}

} // verus!
