//! The snapshot of an existing role that a builder can be seeded from.

use vstd::prelude::*;

verus! {

/// A colour, as a packed number.
#[derive(Clone, Copy, Debug, PartialEq, Eq, Structural)]
pub struct Colour(pub u32);

/// A set of permissions, as a bitmask.
#[derive(Clone, Copy, Debug, PartialEq, Eq, Structural)]
pub struct Permissions {
    pub bits: u64,
}

/// The bitmask of the general preset: create invites, add reactions, read
/// and send messages (text to speech too), embed links, attach files, read
/// the message history, mention everyone, use external emoji, connect,
/// speak, use voice activity and change one's own nickname.
pub const PRESET_GENERAL: u64 = 0b0000_0110_0011_0111_1101_1100_0100_0001;

impl Permissions {
    /// The general preset as a set.
    pub fn general() -> (set: Permissions)
        ensures
            set.bits == PRESET_GENERAL,
    {
        Permissions { bits: PRESET_GENERAL }
    }

    /// The bitmask of the set.
    pub fn bits(&self) -> (mask: u64)
        ensures
            mask == self.bits,
    {
        self.bits
    }
}

/// The number that the document carries for a colour.
pub fn colour_to_wire_integer(colour: Colour) -> (n: u64)
    ensures
        n == colour.0,
{
    colour.0 as u64
}

/// A role as it stands on the server.
#[derive(Debug, PartialEq, Eq)]
pub struct Role {
    pub colour: Colour,
    pub hoist: bool,
    pub managed: bool,
    pub mentionable: bool,
    pub name: String,
    pub permissions: Permissions,
    pub position: u64,
}

impl Clone for Role {
    /// A snapshot of the same role.
    fn clone(&self) -> (copy: Self)
        ensures
            copy@ == self@,
    {
        Role {
            colour: self.colour,
            hoist: self.hoist,
            managed: self.managed,
            mentionable: self.mentionable,
            name: self.name.clone(),
            permissions: self.permissions,
            position: self.position,
        }
    }
}

/// What a [`Role`] stands for, its text as a sequence of characters.
pub struct RoleView {
    pub colour: Colour,
    pub hoist: bool,
    pub managed: bool,
    pub mentionable: bool,
    pub name: Seq<char>,
    pub permissions: Permissions,
    pub position: u64,
}

impl View for Role {
    type V = RoleView;

    open spec fn view(&self) -> RoleView {
        RoleView {
            colour: self.colour,
            hoist: self.hoist,
            managed: self.managed,
            mentionable: self.mentionable,
            name: self.name@,
            permissions: self.permissions,
            position: self.position,
        }
    }
}

} // verus!
