use dojo_introspect::classify::classify_type;
use dojo_introspect::introspect::{derive_declaration, Declaration, DerivedLayout};
use dojo_introspect::layout::{get_packed_item_layout_from_type, merge_packed_layout};
use dojo_introspect::{Diagnostic, DojoEvent, Member, PackedSlot, ResolvedLayout, Size};

fn member(name: &str, ty: &str, key: bool) -> Member {
    Member { name: name.to_string(), ty: ty.to_string(), key }
}

fn moved() -> Vec<Member> {
    vec![member("player", "ContractAddress", true), member("direction", "u8", false)]
}

#[test]
fn event_is_derived_loose() {
    let decl = Declaration::Event { name: "Moved".to_string(), members: moved() };
    let r = derive_declaration(&decl, false, &vec![]);
    assert!(r.diagnostics.is_empty());
    let d = r.descriptor.expect("descriptor");
    assert!(matches!(d.layout, DerivedLayout::Loose(_)));
    assert_eq!(d.size, Size::Known(1));
    assert_eq!(d.key_type, "ContractAddress");
}

#[test]
fn packed_event_conflicts() {
    let decl = Declaration::Event { name: "Moved".to_string(), members: moved() };
    let r = derive_declaration(&decl, true, &vec![]);
    assert!(r.descriptor.is_none());
    assert_eq!(r.diagnostics, vec![Diagnostic::ConflictError]);
}

#[test]
fn event_without_values_fails() {
    let decl = Declaration::Event {
        name: "Ping".to_string(),
        members: vec![member("player", "ContractAddress", true)],
    };
    let r = derive_declaration(&decl, false, &vec![]);
    assert!(r.descriptor.is_none());
    assert_eq!(r.diagnostics, vec![Diagnostic::EmptyValuesError]);
}

#[test]
fn event_serialization_lines() {
    let ms = vec![member("a", "u8", true), member("b", "u8", false), member("c", "u8", false)];
    let (keys, values) = DojoEvent::serialize_keys_and_values(&ms);
    assert_eq!(keys, vec!["core::serde::Serde::serialize(self.a, ref serialized);\n".to_string()]);
    assert_eq!(
        values,
        vec![
            "core::serde::Serde::serialize(self.b, ref serialized);\n".to_string(),
            "core::serde::Serde::serialize(self.c, ref serialized);\n".to_string(),
        ]
    );
}

#[test]
fn merging_resolves_custom_slots() {
    let slots = get_packed_item_layout_from_type(&classify_type("(u8, Vec2, bool)")).unwrap();
    assert!(matches!(&slots[1], PackedSlot::Custom(n) if n == "Vec2"));
    let resolved = vec![
        ResolvedLayout { name: "Other".to_string(), widths: vec![1u8] },
        ResolvedLayout { name: "Vec2".to_string(), widths: vec![32u8, 32u8] },
    ];
    assert_eq!(merge_packed_layout(&slots, &resolved), Some(vec![8u8, 32u8, 32u8, 1u8]));
    assert_eq!(merge_packed_layout(&slots, &vec![]), None);
}
