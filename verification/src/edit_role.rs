//! The builder: a value for each field, seeded once and overwritten at will.

use vstd::prelude::*;
use crate::document::all_fields;
use crate::document::entries_of;
use crate::document::wire_document;
use crate::field::Field;
use crate::field::FIELD_COUNT;
use crate::model::colour_to_wire_integer;
use crate::model::Permissions;
use crate::model::Role;
use crate::model::RoleView;
use crate::model::PRESET_GENERAL;
use crate::value::TaggedValue;
use crate::value::WireValue;

verus! {

/// The values of a role update, one slot for each field.
#[derive(Debug, PartialEq, Eq)]
pub struct EditRole {
    slots: Vec<Option<TaggedValue>>,
}

impl View for EditRole {
    type V = Map<Field, WireValue>;

    /// The fields that have a value, each with the scalar it holds.
    closed spec fn view(&self) -> Map<Field, WireValue> {
        Map::new(
            |field: Field| self.slots@[field.rank()] is Some,
            |field: Field| self.slots@[field.rank()].unwrap()@,
        )
    }
}

/// The values that a builder starts with when it is seeded from a role: all
/// seven fields, each with what the role holds.
pub open spec fn seeded(role: RoleView) -> Map<Field, WireValue> {
    map![
        Field::Color => WireValue::Integer(role.colour.0 as u64),
        Field::Hoist => WireValue::Bool(role.hoist),
        Field::Managed => WireValue::Bool(role.managed),
        Field::Mentionable => WireValue::Bool(role.mentionable),
        Field::Name => WireValue::Text(role.name),
        Field::Permissions => WireValue::Integer(role.permissions.bits),
        Field::Position => WireValue::Integer(role.position),
    ]
}

/// The values that a builder for a new role starts with: every field but
/// `Managed`, which means nothing before the role exists.
pub open spec fn creation_defaults() -> Map<Field, WireValue> {
    map![
        Field::Color => WireValue::Integer(10070709),
        Field::Hoist => WireValue::Bool(false),
        Field::Mentionable => WireValue::Bool(false),
        Field::Name => WireValue::Text("new role"@),
        Field::Permissions => WireValue::Integer(PRESET_GENERAL),
        Field::Position => WireValue::Integer(1),
    ]
}

/// What holds of the values of every builder: each field but `Managed` has a
/// value, and each value is of the kind that its field holds.
pub open spec fn populated(values: Map<Field, WireValue>) -> bool {
    &&& forall|field: Field| field != Field::Managed ==> #[trigger] values.contains_key(field)
    &&& forall|field: Field| #[trigger]
        values.contains_key(field) ==> field.admits(values[field])
}

/// Whether two slots hold the same scalar, or both hold nothing.
spec fn same_slot(a: Option<TaggedValue>, b: Option<TaggedValue>) -> bool {
    match (a, b) {
        (Some(x), Some(y)) => x@ == y@,
        (None, None) => true,
        _ => false,
    }
}

impl Clone for EditRole {
    /// A builder that holds the same values.
    fn clone(&self) -> (copy: Self)
        ensures
            copy@ == self@,
    {
        proof {
            use_type_invariant(self);
        }
        let mut slots: Vec<Option<TaggedValue>> = Vec::new();
        let mut i: usize = 0;
        while i < FIELD_COUNT
            invariant
                i <= FIELD_COUNT,
                self.slots@.len() == FIELD_COUNT,
                slots@.len() == i,
                forall|j: int| 0 <= j < i ==> same_slot(#[trigger] slots@[j], self.slots@[j]),
            decreases FIELD_COUNT - i,
        {
            let slot = match &self.slots[i] {
                Some(value) => Some(value.clone()),
                None => None,
            };
            slots.push(slot);
            i += 1;
        }
        let copy = EditRole { slots };
        assert(copy@ =~= self@);
        copy
    }
}

impl EditRole {
    #[verifier::type_invariant]
    spec fn slots_in_order(&self) -> bool {
        &&& self.slots@.len() == FIELD_COUNT
        &&& forall|field: Field|
            field != Field::Managed ==> (#[trigger] self.slots@[field.rank()]) is Some
        &&& forall|field: Field|
            (#[trigger] self.slots@[field.rank()]) matches Some(value) ==> field.admits(value@)
    }

    /// A builder with the values of an existing role.
    pub fn new(role: &Role) -> (builder: Self)
        ensures
            builder@ == seeded(role@),
            populated(builder@),
    {
        let mut slots: Vec<Option<TaggedValue>> = Vec::new();
        slots.push(Some(TaggedValue::Integer(colour_to_wire_integer(role.colour))));
        slots.push(Some(TaggedValue::Bool(role.hoist)));
        slots.push(Some(TaggedValue::Bool(role.managed)));
        slots.push(Some(TaggedValue::Bool(role.mentionable)));
        slots.push(Some(TaggedValue::Text(role.name.clone())));
        slots.push(Some(TaggedValue::Integer(role.permissions.bits())));
        slots.push(Some(TaggedValue::Integer(role.position)));
        let builder = EditRole { slots };
        assert(builder@ =~= seeded(role@));
        builder
    }

    /// Sets the colour of the role.
    pub fn colour(self, colour: u64) -> (updated: Self)
        ensures
            updated@ == self@.insert(Field::Color, WireValue::Integer(colour)),
            populated(updated@),
    {
        self.set(Field::Color, TaggedValue::Integer(colour))
    }

    /// Whether to show the role apart from the roles below it in the list
    /// of users.
    pub fn hoist(self, hoist: bool) -> (updated: Self)
        ensures
            updated@ == self@.insert(Field::Hoist, WireValue::Bool(hoist)),
            populated(updated@),
    {
        self.set(Field::Hoist, TaggedValue::Bool(hoist))
    }

    /// Whether the role can be mentioned, which notifies its users.
    pub fn mentionable(self, mentionable: bool) -> (updated: Self)
        ensures
            updated@ == self@.insert(Field::Mentionable, WireValue::Bool(mentionable)),
            populated(updated@),
    {
        self.set(Field::Mentionable, TaggedValue::Bool(mentionable))
    }

    /// Sets the name of the role. Any text is taken as it is.
    pub fn name(self, name: &str) -> (updated: Self)
        ensures
            updated@ == self@.insert(Field::Name, WireValue::Text(name@)),
            populated(updated@),
    {
        self.set(Field::Name, TaggedValue::Text(name.to_owned()))
    }

    /// Sets the permissions of the role.
    pub fn permissions(self, permissions: Permissions) -> (updated: Self)
        ensures
            updated@ == self@.insert(Field::Permissions, WireValue::Integer(permissions.bits)),
            populated(updated@),
    {
        self.set(Field::Permissions, TaggedValue::Integer(permissions.bits()))
    }

    /// Sets the place of the role in the list of roles.
    pub fn position(self, position: u8) -> (updated: Self)
        ensures
            updated@ == self@.insert(Field::Position, WireValue::Integer(position as u64)),
            populated(updated@),
    {
        self.set(Field::Position, TaggedValue::Integer(position as u64))
    }

    /// The document to send: an entry for each field that has a value, in
    /// the order of the fields, under the field's key and with the value as
    /// it stands. The builder is left as it was.
    pub fn to_wire_payload(&self) -> (document: Vec<(&'static str, TaggedValue)>)
        ensures
            document.deep_view() == wire_document(self@),
            document@.len() == wire_document(self@).len(),
            forall|i: int|
                0 <= i < document@.len() ==> (#[trigger] document@[i]).0@ == wire_document(
                    self@,
                )[i].0 && document@[i].1@ == wire_document(self@)[i].1,
            populated(self@),
    {
        proof {
            use_type_invariant(self);
            self.lemma_populated();
        }
        let mut document: Vec<(&'static str, TaggedValue)> = Vec::new();
        let mut i: usize = 0;
        while i < FIELD_COUNT
            invariant
                i <= FIELD_COUNT,
                self.slots@.len() == FIELD_COUNT,
                document.deep_view() == all_fields().take(i as int).filter_map(entries_of(self@)),
            decreases FIELD_COUNT - i,
        {
            proof {
                all_fields().lemma_filter_map_take_succ(entries_of(self@), i as int);
            }
            if let Some(field) = Field::from_index(i) {
                if let Some(value) = &self.slots[i] {
                    let ghost before = document.deep_view();
                    document.push((field.wire_name(), value.clone()));
                    assert(document.deep_view() =~= before.push((field.spec_wire_name(), value@)));
                }
            }
            i += 1;
        }
        assert(all_fields().take(FIELD_COUNT as int) =~= all_fields());
        assert forall|i: int| 0 <= i < document@.len() implies (#[trigger] document@[i]).0@
            == wire_document(self@)[i].0 && document@[i].1@ == wire_document(self@)[i].1 by {
            assert(document.deep_view()[i] == (document@[i].0@, document@[i].1@));
        }
        document
    }

    /// The value stored under `field`, if there is one.
    pub fn get(&self, field: Field) -> (found: Option<&TaggedValue>)
        ensures
            found is Some <==> self@.contains_key(field),
            found matches Some(value) ==> value@ == self@[field],
            populated(self@),
    {
        proof {
            use_type_invariant(self);
            self.lemma_populated();
        }
        self.slots[field.index()].as_ref()
    }

    /// The slots of a builder give values as every builder has them.
    proof fn lemma_populated(&self)
        requires
            self.slots_in_order(),
        ensures
            populated(self@),
    {
        assert forall|field: Field| field != Field::Managed implies #[trigger] self@.contains_key(
            field,
        ) by {
            assert(self.slots@[field.rank()] is Some);
        }
        assert forall|field: Field| #[trigger] self@.contains_key(field) implies field.admits(
            self@[field],
        ) by {
            assert(self.slots@[field.rank()] is Some);
        }
    }

    /// Stores `value` under `field`, in place of what was there.
    fn set(self, field: Field, value: TaggedValue) -> (updated: Self)
        requires
            field.admits(value@),
        ensures
            updated@ == self@.insert(field, value@),
            populated(updated@),
    {
        proof {
            use_type_invariant(&self);
        }
        let mut slots = self.slots;
        slots[field.index()] = Some(value);
        let updated = EditRole { slots };
        assert(updated@ =~= self@.insert(field, value@));
        proof {
            updated.lemma_populated();
        }
        updated
    }
}

impl Default for EditRole {
    /// A builder for a new role, with the creation defaults.
    fn default() -> (builder: Self)
        ensures
            builder@ == creation_defaults(),
            populated(builder@),
    {
        let mut slots: Vec<Option<TaggedValue>> = Vec::new();
        slots.push(Some(TaggedValue::Integer(10070709)));
        slots.push(Some(TaggedValue::Bool(false)));
        slots.push(None);
        slots.push(Some(TaggedValue::Bool(false)));
        slots.push(Some(TaggedValue::Text("new role".to_owned())));
        slots.push(Some(TaggedValue::Integer(Permissions::general().bits())));
        slots.push(Some(TaggedValue::Integer(1)));
        let builder = EditRole { slots };
        assert(builder@ =~= creation_defaults());
        builder
    }
}

} // verus!
