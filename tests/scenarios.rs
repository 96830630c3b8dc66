use dojo_introspect::introspect::{derive_declaration, derive_enum, derive_struct, Declaration, DerivedLayout, Variant};
use dojo_introspect::{Diagnostic, Layout, Member, PackedSlot, Size};

fn member(name: &str, ty: &str, key: bool) -> Member {
    Member { name: name.to_string(), ty: ty.to_string(), key }
}

fn position_struct() -> Vec<Member> {
    vec![member("id", "u32", true), member("x", "u8", false), member("y", "u8", false)]
}

fn selector(name: &str) -> [u8; 32] {
    starknet_core::utils::get_selector_from_name(name).unwrap().to_bytes_be()
}

fn widths(slots: &[PackedSlot]) -> Vec<u8> {
    slots
        .iter()
        .map(|s| match s {
            PackedSlot::Width(w) => *w,
            PackedSlot::Custom(n) => panic!("unexpected custom slot {n}"),
        })
        .collect()
}

#[test]
fn loose_struct_with_one_key() {
    let r = derive_struct("Position", &position_struct(), false, true);
    assert!(r.diagnostics.is_empty());
    let d = r.descriptor.expect("descriptor");
    assert_eq!(d.size, Size::Known(2));
    match &d.layout {
        DerivedLayout::Loose(Layout::Struct(fields)) => {
            assert_eq!(fields.len(), 2);
            assert_eq!(fields[0].selector, selector("x"));
            assert_eq!(fields[1].selector, selector("y"));
            for f in fields {
                match &f.layout {
                    Layout::Fixed(w) => assert_eq!(w, &vec![8u8]),
                    _ => panic!("expected a fixed layout"),
                }
            }
        }
        _ => panic!("expected a loose struct layout"),
    }
    let keys: Vec<&str> = d.keys.iter().map(|m| m.name.as_str()).collect();
    let values: Vec<&str> = d.values.iter().map(|m| m.name.as_str()).collect();
    assert_eq!(keys, vec!["id"]);
    assert_eq!(values, vec!["x", "y"]);
    assert_eq!(d.key_type, "u32");
}

#[test]
fn packed_struct_with_one_key() {
    let r = derive_struct("Position", &position_struct(), true, true);
    assert!(r.diagnostics.is_empty());
    let d = r.descriptor.expect("descriptor");
    assert_eq!(d.size, Size::Known(2));
    match &d.layout {
        DerivedLayout::Packed(slots) => assert_eq!(widths(slots), vec![8u8, 8u8]),
        _ => panic!("expected a packed layout"),
    }
}

#[test]
fn packed_struct_with_array_fails() {
    let ms = vec![member("id", "u32", true), member("data", "Array<u8>", false)];
    let packed = derive_struct("Blob", &ms, true, true);
    assert!(packed.descriptor.is_none());
    assert_eq!(packed.diagnostics, vec![Diagnostic::PackingError { index: 1 }]);

    let loose = derive_struct("Blob", &ms, false, true);
    assert!(loose.diagnostics.is_empty());
    let d = loose.descriptor.expect("descriptor");
    assert_eq!(d.size, Size::Unknown);
    match &d.layout {
        DerivedLayout::Loose(Layout::Struct(fields)) => {
            assert_eq!(fields.len(), 1);
            match &fields[0].layout {
                Layout::Array(item) => match &**item {
                    Layout::Fixed(w) => assert_eq!(w, &vec![8u8]),
                    _ => panic!("expected fixed items"),
                },
                _ => panic!("expected an array layout"),
            }
        }
        _ => panic!("expected a loose struct layout"),
    }
}

fn two_variants() -> Vec<Variant> {
    vec![
        Variant { name: "A".to_string(), ty: Some("u8".to_string()) },
        Variant { name: "B".to_string(), ty: Some("u16".to_string()) },
    ]
}

#[test]
fn packed_enum_with_different_variants_fails() {
    let r = derive_enum("Choice", &two_variants(), true);
    assert!(r.descriptor.is_none());
    assert_eq!(r.diagnostics, vec![Diagnostic::PackingError { index: 1 }]);
}

#[test]
fn loose_enum_with_different_variants() {
    let r = derive_enum("Choice", &two_variants(), false);
    assert!(r.diagnostics.is_empty());
    let d = r.descriptor.expect("descriptor");
    assert_eq!(d.size, Size::Unknown);
    match &d.layout {
        DerivedLayout::Loose(Layout::Enum(vs)) => {
            assert_eq!(vs.len(), 2);
            match (&vs[0], &vs[1]) {
                (Layout::Fixed(a), Layout::Fixed(b)) => {
                    assert_eq!(a, &vec![8u8]);
                    assert_eq!(b, &vec![16u8]);
                }
                _ => panic!("expected fixed variant layouts"),
            }
        }
        _ => panic!("expected a loose enum layout"),
    }
}

#[test]
fn model_without_keys_fails() {
    let ms = vec![member("x", "u8", false), member("y", "u8", false)];
    let r = derive_struct("NoKeys", &ms, false, true);
    assert!(r.descriptor.is_none());
    assert_eq!(r.diagnostics, vec![Diagnostic::EmptyKeysError]);
}

#[test]
fn model_without_values_fails() {
    let ms = vec![member("id", "u32", true)];
    let r = derive_struct("OnlyKeys", &ms, false, true);
    assert!(r.descriptor.is_none());
    assert_eq!(r.diagnostics, vec![Diagnostic::EmptyValuesError]);
}

#[test]
fn plain_struct_needs_no_keys() {
    let ms = vec![member("x", "u8", false)];
    let decl = Declaration::Struct { name: "Plain".to_string(), members: ms };
    let r = derive_declaration(&decl, false, &vec![]);
    assert!(r.diagnostics.is_empty());
    assert_eq!(r.descriptor.expect("descriptor").size, Size::Known(1));
}

#[test]
fn key_after_value_is_reported_with_the_rest() {
    let ms = vec![
        member("x", "u8", false),
        member("id", "usize", true),
        member("y", "u8", false),
    ];
    let r = derive_struct("Bad Name", &ms, false, true);
    assert_eq!(
        r.diagnostics,
        vec![
            Diagnostic::NameError,
            Diagnostic::OrderingError { index: 1 },
            Diagnostic::UnsupportedTypeError { index: 1 },
        ]
    );
    assert!(r.descriptor.is_some());
}

#[test]
fn conflicting_derives_are_fatal() {
    let decl = Declaration::Model { name: "Position".to_string(), members: position_struct() };
    let names = vec!["Introspect".to_string(), "Drop".to_string(), "IntrospectPacked".to_string()];
    let r = derive_declaration(&decl, true, &names);
    assert!(r.descriptor.is_none());
    assert_eq!(r.diagnostics, vec![Diagnostic::ConflictError]);
}

#[test]
fn model_through_declaration() {
    let decl = Declaration::Model { name: "Position".to_string(), members: position_struct() };
    let r = derive_declaration(&decl, false, &vec!["Introspect".to_string()]);
    assert!(r.diagnostics.is_empty());
    let d = r.descriptor.expect("descriptor");
    assert_eq!(d.size, Size::Known(2));
    assert_eq!(d.types.len(), 3);
}

#[test]
fn composite_key_type() {
    let ms = vec![
        member("a", "u32", true),
        member("b", "ContractAddress", true),
        member("v", "felt252", false),
    ];
    let d = derive_struct("Pair", &ms, false, true).descriptor.expect("descriptor");
    assert_eq!(d.key_type, "(u32, ContractAddress)");
    assert_eq!(d.size, Size::Known(1));
}

#[test]
fn option_of_tuple_is_unsupported() {
    let ms = vec![member("id", "u32", true), member("o", "Option<(u8, u16)>", false)];
    let r = derive_struct("Opt", &ms, false, true);
    assert!(r.descriptor.is_none());
    assert_eq!(r.diagnostics, vec![Diagnostic::UnsupportedTypeError { index: 1 }]);
}

#[test]
fn usize_value_cannot_be_packed() {
    let ms = vec![member("id", "u32", true), member("n", "usize", false)];
    let r = derive_struct("Counter", &ms, true, true);
    assert!(r.descriptor.is_none());
    assert_eq!(r.diagnostics, vec![Diagnostic::UnsupportedTypeError { index: 1 }]);
    let loose = derive_struct("Counter", &ms, false, true);
    assert_eq!(loose.descriptor.expect("descriptor").size, Size::Known(1));
}

#[test]
fn packed_enum_with_uniform_variants() {
    let vs = vec![
        Variant { name: "A".to_string(), ty: Some("(u8, u32)".to_string()) },
        Variant { name: "B".to_string(), ty: Some("(i8, u32)".to_string()) },
    ];
    let d = derive_enum("Uniform", &vs, true).descriptor.expect("descriptor");
    match &d.layout {
        DerivedLayout::Packed(slots) => assert_eq!(widths(slots), vec![8u8, 8u8, 32u8]),
        _ => panic!("expected a packed layout"),
    }
    assert_eq!(d.size, Size::Known(3));
}

#[test]
fn enum_of_unit_variants() {
    let vs = vec![
        Variant { name: "On".to_string(), ty: None },
        Variant { name: "Off".to_string(), ty: None },
    ];
    let d = derive_enum("Switch", &vs, false).descriptor.expect("descriptor");
    assert_eq!(d.size, Size::Known(1));
    match &d.layout {
        DerivedLayout::Loose(Layout::Enum(ls)) => {
            assert_eq!(ls.len(), 2);
            for l in ls {
                match l {
                    Layout::Fixed(w) => assert!(w.is_empty()),
                    _ => panic!("expected empty fixed layouts"),
                }
            }
        }
        _ => panic!("expected a loose enum layout"),
    }
}

#[test]
fn empty_enum_size_is_unknown() {
    let d = derive_enum("Never", &vec![], true).descriptor.expect("descriptor");
    assert_eq!(d.size, Size::Unknown);
    match &d.layout {
        DerivedLayout::Packed(slots) => assert_eq!(widths(slots), vec![8u8]),
        _ => panic!("expected a packed layout"),
    }
}
