//! The closed set of attributes that a role update can carry.

use vstd::prelude::*;
use crate::value::Kind;
use crate::value::WireValue;

verus! {

/// One attribute of a role, as the update document knows it.
///
/// The variants stand in the order in which the document lists them, which
/// is the alphabetical order of their names on the wire.
#[derive(Clone, Copy, Debug, PartialEq, Eq, Structural)]
pub enum Field {
    Color,
    Hoist,
    Managed,
    Mentionable,
    Name,
    Permissions,
    Position,
}

/// How many fields there are.
pub const FIELD_COUNT: usize = 7;

/// The field at a given place of the document's order; `Position` stands for
/// every place past the end.
pub open spec fn field_at(rank: int) -> Field {
    if rank <= 0 {
        Field::Color
    } else if rank == 1 {
        Field::Hoist
    } else if rank == 2 {
        Field::Managed
    } else if rank == 3 {
        Field::Mentionable
    } else if rank == 4 {
        Field::Name
    } else if rank == 5 {
        Field::Permissions
    } else {
        Field::Position
    }
}

impl Field {
    /// The place of the field in the document's order, from 0.
    pub open spec fn rank(self) -> int {
        match self {
            Field::Color => 0,
            Field::Hoist => 1,
            Field::Managed => 2,
            Field::Mentionable => 3,
            Field::Name => 4,
            Field::Permissions => 5,
            Field::Position => 6,
        }
    }

    /// The key under which the document lists the field.
    pub open spec fn spec_wire_name(self) -> Seq<char> {
        match self {
            Field::Color => "color"@,
            Field::Hoist => "hoist"@,
            Field::Managed => "managed"@,
            Field::Mentionable => "mentionable"@,
            Field::Name => "name"@,
            Field::Permissions => "permissions"@,
            Field::Position => "position"@,
        }
    }

    /// The kind of scalar that the field holds.
    pub open spec fn kind(self) -> Kind {
        match self {
            Field::Color => Kind::Integer,
            Field::Hoist => Kind::Bool,
            Field::Managed => Kind::Bool,
            Field::Mentionable => Kind::Bool,
            Field::Name => Kind::Text,
            Field::Permissions => Kind::Integer,
            Field::Position => Kind::Integer,
        }
    }

    /// Whether a scalar is of the kind that the field holds.
    pub open spec fn admits(self, value: WireValue) -> bool {
        value.kind() == self.kind()
    }

    /// The place of the field in the document's order, from 0.
    pub fn index(self) -> (i: usize)
        ensures
            i == self.rank(),
            i < FIELD_COUNT,
            field_at(i as int) == self,
    {
        match self {
            Field::Color => 0,
            Field::Hoist => 1,
            Field::Managed => 2,
            Field::Mentionable => 3,
            Field::Name => 4,
            Field::Permissions => 5,
            Field::Position => 6,
        }
    }

    /// The field at place `i` of the document's order, if there is one.
    pub fn from_index(i: usize) -> (found: Option<Field>)
        ensures
            found == if i < FIELD_COUNT {
                Some(field_at(i as int))
            } else {
                None
            },
            found matches Some(field) ==> field.rank() == i,
    {
        match i {
            0 => Some(Field::Color),
            1 => Some(Field::Hoist),
            2 => Some(Field::Managed),
            3 => Some(Field::Mentionable),
            4 => Some(Field::Name),
            5 => Some(Field::Permissions),
            6 => Some(Field::Position),
            _ => None,
        }
    }

    /// The key under which the document lists the field.
    pub fn wire_name(self) -> (name: &'static str)
        ensures
            name@ == self.spec_wire_name(),
    {
        match self {
            Field::Color => "color",
            Field::Hoist => "hoist",
            Field::Managed => "managed",
            Field::Mentionable => "mentionable",
            Field::Name => "name",
            Field::Permissions => "permissions",
            Field::Position => "position",
        }
    }
}

/// No two fields share a key on the wire.
pub proof fn lemma_wire_names_distinct(a: Field, b: Field)
    requires
        a != b,
    ensures
        a.spec_wire_name() != b.spec_wire_name(),
{
    reveal_strlit("color");
    reveal_strlit("hoist");
    reveal_strlit("managed");
    reveal_strlit("mentionable");
    reveal_strlit("name");
    reveal_strlit("permissions");
    reveal_strlit("position");
    let x = a.spec_wire_name();
    let y = b.spec_wire_name();
    if x.len() == y.len() {
        // Keys of one length differ in their first or their second letter.
        assert(x[0] != y[0] || x[1] != y[1]);
    }
}

} // verus!
