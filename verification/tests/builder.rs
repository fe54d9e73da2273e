use role_builder::edit_role::EditRole;
use role_builder::field::Field;
use role_builder::model::Colour;
use role_builder::model::Permissions;
use role_builder::model::Role;
use role_builder::model::PRESET_GENERAL;
use role_builder::value::TaggedValue;

fn sample_role() -> Role {
    Role {
        colour: Colour(0x00ff_7f00),
        hoist: true,
        managed: false,
        mentionable: true,
        name: String::from("moderators"),
        permissions: Permissions { bits: 0x0000_0008 },
        position: 12,
    }
}

fn text(s: &str) -> TaggedValue {
    TaggedValue::Text(String::from(s))
}

#[test]
fn defaults_give_the_literal_document() {
    let document = EditRole::default().to_wire_payload();
    assert_eq!(
        document,
        vec![
            ("color", TaggedValue::Integer(10070709)),
            ("hoist", TaggedValue::Bool(false)),
            ("mentionable", TaggedValue::Bool(false)),
            ("name", text("new role")),
            ("permissions", TaggedValue::Integer(PRESET_GENERAL)),
            ("position", TaggedValue::Integer(1)),
        ]
    );
}

#[test]
fn defaults_have_no_managed_key() {
    let builder = EditRole::default();
    assert_eq!(builder.get(Field::Managed), None);
    let document = builder.to_wire_payload();
    assert_eq!(document.len(), 6);
    assert!(document.iter().all(|entry| entry.0 != "managed"));
}

#[test]
fn general_preset_has_its_bitmask() {
    assert_eq!(PRESET_GENERAL, 104_324_161);
    assert_eq!(Permissions::general().bits(), 104_324_161);
    assert_eq!(
        EditRole::default().get(Field::Permissions),
        Some(&TaggedValue::Integer(104_324_161))
    );
}

#[test]
fn role_gives_all_seven_keys() {
    let role = sample_role();
    let document = EditRole::new(&role).to_wire_payload();
    assert_eq!(
        document,
        vec![
            ("color", TaggedValue::Integer(0x00ff_7f00)),
            ("hoist", TaggedValue::Bool(true)),
            ("managed", TaggedValue::Bool(false)),
            ("mentionable", TaggedValue::Bool(true)),
            ("name", text("moderators")),
            ("permissions", TaggedValue::Integer(8)),
            ("position", TaggedValue::Integer(12)),
        ]
    );
}

#[test]
fn role_with_managed_set_keeps_it() {
    let mut role = sample_role();
    role.managed = true;
    let builder = EditRole::new(&role);
    assert_eq!(builder.get(Field::Managed), Some(&TaggedValue::Bool(true)));
    assert_eq!(builder.to_wire_payload()[2], ("managed", TaggedValue::Bool(true)));
}

#[test]
fn role_is_left_as_it_was() {
    let role = sample_role();
    let _ = EditRole::new(&role);
    assert_eq!(role, sample_role());
}

#[test]
fn payload_twice_is_the_same() {
    let builder = EditRole::new(&sample_role()).name("staff").position(3);
    let first = builder.to_wire_payload();
    let second = builder.to_wire_payload();
    assert_eq!(first, second);
}

#[test]
fn payload_leaves_the_builder_as_it_was() {
    let builder = EditRole::default().hoist(true);
    let before = builder.clone();
    let _ = builder.to_wire_payload();
    assert_eq!(builder, before);
}

#[test]
fn colour_overwrites_color_only() {
    let builder = EditRole::default().colour(0x00ab_cdef);
    assert_eq!(
        builder.to_wire_payload(),
        vec![
            ("color", TaggedValue::Integer(0x00ab_cdef)),
            ("hoist", TaggedValue::Bool(false)),
            ("mentionable", TaggedValue::Bool(false)),
            ("name", text("new role")),
            ("permissions", TaggedValue::Integer(PRESET_GENERAL)),
            ("position", TaggedValue::Integer(1)),
        ]
    );
}

#[test]
fn colour_takes_the_whole_width() {
    let builder = EditRole::default().colour(u64::MAX);
    assert_eq!(builder.get(Field::Color), Some(&TaggedValue::Integer(u64::MAX)));
}

#[test]
fn hoist_overwrites_hoist_only() {
    let builder = EditRole::default().hoist(true);
    assert_eq!(
        builder.to_wire_payload(),
        vec![
            ("color", TaggedValue::Integer(10070709)),
            ("hoist", TaggedValue::Bool(true)),
            ("mentionable", TaggedValue::Bool(false)),
            ("name", text("new role")),
            ("permissions", TaggedValue::Integer(PRESET_GENERAL)),
            ("position", TaggedValue::Integer(1)),
        ]
    );
}

#[test]
fn mentionable_overwrites_mentionable_only() {
    let builder = EditRole::default().mentionable(true);
    assert_eq!(
        builder.to_wire_payload(),
        vec![
            ("color", TaggedValue::Integer(10070709)),
            ("hoist", TaggedValue::Bool(false)),
            ("mentionable", TaggedValue::Bool(true)),
            ("name", text("new role")),
            ("permissions", TaggedValue::Integer(PRESET_GENERAL)),
            ("position", TaggedValue::Integer(1)),
        ]
    );
}

#[test]
fn name_overwrites_name_only() {
    let builder = EditRole::default().name("a test role");
    assert_eq!(
        builder.to_wire_payload(),
        vec![
            ("color", TaggedValue::Integer(10070709)),
            ("hoist", TaggedValue::Bool(false)),
            ("mentionable", TaggedValue::Bool(false)),
            ("name", text("a test role")),
            ("permissions", TaggedValue::Integer(PRESET_GENERAL)),
            ("position", TaggedValue::Integer(1)),
        ]
    );
}

#[test]
fn permissions_overwrites_permissions_only() {
    let builder = EditRole::default().permissions(Permissions { bits: 0x0000_0c00 });
    assert_eq!(
        builder.to_wire_payload(),
        vec![
            ("color", TaggedValue::Integer(10070709)),
            ("hoist", TaggedValue::Bool(false)),
            ("mentionable", TaggedValue::Bool(false)),
            ("name", text("new role")),
            ("permissions", TaggedValue::Integer(0x0000_0c00)),
            ("position", TaggedValue::Integer(1)),
        ]
    );
}

#[test]
fn position_overwrites_position_only() {
    let builder = EditRole::default().position(7);
    assert_eq!(
        builder.to_wire_payload(),
        vec![
            ("color", TaggedValue::Integer(10070709)),
            ("hoist", TaggedValue::Bool(false)),
            ("mentionable", TaggedValue::Bool(false)),
            ("name", text("new role")),
            ("permissions", TaggedValue::Integer(PRESET_GENERAL)),
            ("position", TaggedValue::Integer(7)),
        ]
    );
}

#[test]
fn setters_leave_managed_alone() {
    let mut role = sample_role();
    role.managed = true;
    let builder = EditRole::new(&role)
        .colour(1)
        .hoist(false)
        .mentionable(false)
        .name("x")
        .permissions(Permissions { bits: 0 })
        .position(0);
    assert_eq!(builder.get(Field::Managed), Some(&TaggedValue::Bool(true)));
}

#[test]
fn last_colour_wins() {
    let builder = EditRole::default().colour(1).colour(2);
    assert_eq!(builder.get(Field::Color), Some(&TaggedValue::Integer(2)));
    assert_eq!(builder, EditRole::default().colour(2));
}

#[test]
fn last_hoist_wins() {
    let builder = EditRole::default().hoist(true).hoist(false);
    assert_eq!(builder.get(Field::Hoist), Some(&TaggedValue::Bool(false)));
    let builder = builder.hoist(true);
    assert_eq!(builder.get(Field::Hoist), Some(&TaggedValue::Bool(true)));
}

#[test]
fn last_mentionable_wins() {
    let builder = EditRole::default().mentionable(false).mentionable(true);
    assert_eq!(builder.get(Field::Mentionable), Some(&TaggedValue::Bool(true)));
}

#[test]
fn last_name_wins() {
    let builder = EditRole::default().name("first").name("second");
    assert_eq!(builder.get(Field::Name), Some(&text("second")));
    assert_eq!(builder, EditRole::default().name("second"));
}

#[test]
fn last_permissions_win() {
    let builder = EditRole::default()
        .permissions(Permissions { bits: 1 })
        .permissions(Permissions { bits: 2 });
    assert_eq!(builder.get(Field::Permissions), Some(&TaggedValue::Integer(2)));
}

#[test]
fn last_position_wins() {
    let builder = EditRole::default().position(9).position(4);
    assert_eq!(builder.get(Field::Position), Some(&TaggedValue::Integer(4)));
}

#[test]
fn last_write_wins_across_other_writes() {
    let builder = EditRole::default()
        .name("first")
        .hoist(true)
        .position(3)
        .name("second")
        .colour(5)
        .hoist(false);
    assert_eq!(builder.get(Field::Name), Some(&text("second")));
    assert_eq!(builder.get(Field::Hoist), Some(&TaggedValue::Bool(false)));
    assert_eq!(builder.get(Field::Position), Some(&TaggedValue::Integer(3)));
    assert_eq!(builder.get(Field::Color), Some(&TaggedValue::Integer(5)));
}

#[test]
fn hoist_and_name_in_either_order() {
    let one = EditRole::default().hoist(true).name("x");
    let other = EditRole::default().name("x").hoist(true);
    assert_eq!(one, other);
    assert_eq!(one.to_wire_payload(), other.to_wire_payload());
}

#[test]
fn all_setters_in_two_orders() {
    let role = sample_role();
    let one = EditRole::new(&role)
        .colour(3)
        .hoist(false)
        .mentionable(false)
        .name("n")
        .permissions(Permissions { bits: 64 })
        .position(200);
    let other = EditRole::new(&role)
        .position(200)
        .permissions(Permissions { bits: 64 })
        .name("n")
        .mentionable(false)
        .hoist(false)
        .colour(3);
    assert_eq!(one, other);
    assert_eq!(
        one.to_wire_payload(),
        vec![
            ("color", TaggedValue::Integer(3)),
            ("hoist", TaggedValue::Bool(false)),
            ("managed", TaggedValue::Bool(false)),
            ("mentionable", TaggedValue::Bool(false)),
            ("name", text("n")),
            ("permissions", TaggedValue::Integer(64)),
            ("position", TaggedValue::Integer(200)),
        ]
    );
}

#[test]
fn round_trip_position_zero() {
    let mut role = sample_role();
    role.position = 0;
    let builder = EditRole::new(&role);
    assert_eq!(builder.get(Field::Position), Some(&TaggedValue::Integer(0)));
    assert_eq!(builder.to_wire_payload()[6], ("position", TaggedValue::Integer(0)));
}

#[test]
fn round_trip_position_255() {
    let mut role = sample_role();
    role.position = 255;
    let builder = EditRole::new(&role);
    assert_eq!(builder.get(Field::Position), Some(&TaggedValue::Integer(255)));
    assert_eq!(builder.to_wire_payload()[6], ("position", TaggedValue::Integer(255)));
}

#[test]
fn round_trip_no_permissions() {
    let mut role = sample_role();
    role.permissions = Permissions { bits: 0 };
    let builder = EditRole::new(&role);
    assert_eq!(builder.get(Field::Permissions), Some(&TaggedValue::Integer(0)));
    assert_eq!(builder.to_wire_payload()[5], ("permissions", TaggedValue::Integer(0)));
}

#[test]
fn round_trip_all_permissions() {
    let mut role = sample_role();
    role.permissions = Permissions { bits: u64::MAX };
    let builder = EditRole::new(&role);
    assert_eq!(builder.get(Field::Permissions), Some(&TaggedValue::Integer(u64::MAX)));
}

#[test]
fn round_trip_empty_name() {
    let mut role = sample_role();
    role.name = String::new();
    let builder = EditRole::new(&role);
    assert_eq!(builder.get(Field::Name), Some(&text("")));
    assert_eq!(builder.to_wire_payload()[4], ("name", text("")));
}

#[test]
fn round_trip_widest_colour() {
    let mut role = sample_role();
    role.colour = Colour(u32::MAX);
    let builder = EditRole::new(&role);
    assert_eq!(builder.get(Field::Color), Some(&TaggedValue::Integer(4_294_967_295)));
}

#[test]
fn setter_position_boundaries() {
    assert_eq!(
        EditRole::default().position(0).get(Field::Position),
        Some(&TaggedValue::Integer(0))
    );
    assert_eq!(
        EditRole::default().position(255).get(Field::Position),
        Some(&TaggedValue::Integer(255))
    );
}

#[test]
fn setter_empty_name() {
    assert_eq!(EditRole::default().name("").get(Field::Name), Some(&text("")));
}

#[test]
fn get_finds_every_seeded_field() {
    let builder = EditRole::new(&sample_role());
    assert_eq!(builder.get(Field::Color), Some(&TaggedValue::Integer(0x00ff_7f00)));
    assert_eq!(builder.get(Field::Hoist), Some(&TaggedValue::Bool(true)));
    assert_eq!(builder.get(Field::Managed), Some(&TaggedValue::Bool(false)));
    assert_eq!(builder.get(Field::Mentionable), Some(&TaggedValue::Bool(true)));
    assert_eq!(builder.get(Field::Name), Some(&text("moderators")));
    assert_eq!(builder.get(Field::Permissions), Some(&TaggedValue::Integer(8)));
    assert_eq!(builder.get(Field::Position), Some(&TaggedValue::Integer(12)));
}

#[test]
fn clone_holds_the_same_values() {
    let builder = EditRole::new(&sample_role()).name("copy me");
    let copy = builder.clone();
    assert_eq!(copy, builder);
    assert_eq!(copy.to_wire_payload(), builder.to_wire_payload());
    let changed = copy.name("changed");
    assert_eq!(builder.get(Field::Name), Some(&text("copy me")));
    assert_eq!(changed.get(Field::Name), Some(&text("changed")));
}

#[test]
fn builders_from_different_starts_differ() {
    assert_ne!(EditRole::default(), EditRole::new(&sample_role()));
}
