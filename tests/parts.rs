use dojo_introspect::checker::type_contains_usize;
use dojo_introspect::classify::{classify_type, primitive_widths_of};
use dojo_introspect::enums::{compute_enum_layout_size, is_enum_packable};
use dojo_introspect::hash::{compute_unique_hash, selector, trim_text};
use dojo_introspect::introspect::{derive_struct, DerivedLayout};
use dojo_introspect::layout::{
    build_array_layout_from_type, build_item_layout_from_type, build_tuple_layout_from_type,
    get_packed_item_layout_from_type, get_packed_tuple_layout_from_type, is_custom_layout,
};
use dojo_introspect::members::{build_key_type, serialize_member_ty, split_members};
use dojo_introspect::size::size_of_type;
use dojo_introspect::{
    DojoChecker, DojoSerializer, Layout, Member, PackedSlot, Size, TypeExpr, TypeIssue,
};
use starknet_crypto::Felt;

fn member(name: &str, ty: &str, key: bool) -> Member {
    Member { name: name.to_string(), ty: ty.to_string(), key }
}

fn felt_bytes(hex: &str) -> [u8; 32] {
    Felt::from_hex(hex).unwrap().to_bytes_be()
}

#[test]
fn classifies_nested_types() {
    match classify_type(" (u8, Array<(u16, felt252)>, Option<u32>, Vec2) ") {
        TypeExpr::Tuple(items) => {
            assert_eq!(items.len(), 4);
            assert!(matches!(&items[0], TypeExpr::Primitive(n) if n == "u8"));
            match &items[1] {
                TypeExpr::Array(inner) => match &**inner {
                    TypeExpr::Tuple(parts) => {
                        assert_eq!(parts.len(), 2);
                        assert!(matches!(&parts[1], TypeExpr::Primitive(n) if n == "felt252"));
                    }
                    _ => panic!("expected a tuple item"),
                },
                _ => panic!("expected an array"),
            }
            assert!(matches!(&items[2], TypeExpr::Optional(inner) if matches!(&**inner, TypeExpr::Primitive(n) if n == "u32")));
            assert!(matches!(&items[3], TypeExpr::Custom(n) if n == "Vec2"));
        }
        _ => panic!("expected a tuple"),
    }
}

#[test]
fn classifies_leaves() {
    assert!(matches!(classify_type("ByteArray"), TypeExpr::ByteString));
    assert!(matches!(classify_type("Span<u8>"), TypeExpr::Array(_)));
    assert!(matches!(classify_type("Array<Array<u8>>"), TypeExpr::Array(inner) if matches!(&*inner, TypeExpr::Array(_))));
    assert!(matches!(classify_type("usize"), TypeExpr::Primitive(n) if n == "usize"));
    assert!(matches!(classify_type("()"), TypeExpr::Tuple(items) if items.is_empty()));
    assert!(matches!(classify_type("(u8,)"), TypeExpr::Tuple(items) if items.len() == 1));
}

#[test]
fn primitive_width_table() {
    assert_eq!(primitive_widths_of("u256"), Some(vec![128u8, 128u8]));
    assert_eq!(primitive_widths_of("felt252"), Some(vec![251u8]));
    assert_eq!(primitive_widths_of("EthAddress"), Some(vec![160u8]));
    assert_eq!(primitive_widths_of("Position"), None);
}

#[test]
fn sizes_of_types() {
    assert_eq!(size_of_type(&classify_type("(u8, u256, bool)")), Size::Known(4));
    assert_eq!(size_of_type(&classify_type("(u8, Array<u8>)")), Size::Unknown);
    assert_eq!(size_of_type(&classify_type("Option<u8>")), Size::Unknown);
    assert_eq!(size_of_type(&classify_type("Position")), Size::Unknown);
    assert_eq!(size_of_type(&classify_type("()")), Size::Known(0));
}

#[test]
fn loose_layouts_of_types() {
    match build_item_layout_from_type(&classify_type("(u8, Position)")) {
        Ok(Layout::Tuple(items)) => {
            assert!(matches!(&items[0], Layout::Fixed(w) if w == &vec![8u8]));
            assert!(matches!(&items[1], Layout::Custom(n) if n == "Position"));
        }
        _ => panic!("expected a tuple layout"),
    }
    match build_item_layout_from_type(&classify_type("Option<u16>")) {
        Ok(Layout::Enum(vs)) => {
            assert_eq!(vs.len(), 2);
            assert!(matches!(&vs[0], Layout::Fixed(w) if w == &vec![16u8]));
            assert!(matches!(&vs[1], Layout::Fixed(w) if w.is_empty()));
        }
        _ => panic!("expected an enum layout"),
    }
    assert!(matches!(build_item_layout_from_type(&classify_type("ByteArray")), Ok(Layout::ByteString)));
    assert!(matches!(
        build_item_layout_from_type(&classify_type("Array<Option<(u8, u8)>>")),
        Err(TypeIssue::OptionOfTuple)
    ));
    let item = classify_type("u64");
    assert!(matches!(build_array_layout_from_type(&item), Ok(Layout::Array(_))));
    let items = vec![classify_type("u8"), classify_type("ByteArray")];
    assert!(matches!(build_tuple_layout_from_type(&items), Ok(Layout::Tuple(ls)) if ls.len() == 2));
}

#[test]
fn packed_layouts_of_types() {
    let slots = get_packed_item_layout_from_type(&classify_type("(u8, (u256, bool), Pos)")).unwrap();
    assert_eq!(slots.len(), 5);
    assert!(matches!(slots[0], PackedSlot::Width(8)));
    assert!(matches!(slots[1], PackedSlot::Width(128)));
    assert!(matches!(slots[2], PackedSlot::Width(128)));
    assert!(matches!(slots[3], PackedSlot::Width(1)));
    assert!(is_custom_layout(&slots[4]));
    assert!(!is_custom_layout(&slots[0]));
    assert!(matches!(get_packed_item_layout_from_type(&classify_type("ByteArray")), Err(TypeIssue::Dynamic)));
    assert!(matches!(get_packed_item_layout_from_type(&classify_type("Option<u8>")), Err(TypeIssue::Dynamic)));
    assert!(matches!(get_packed_item_layout_from_type(&classify_type("(u8, usize)")), Err(TypeIssue::ArchitectureDependent)));
    let items = vec![classify_type("u8"), classify_type("u16")];
    assert_eq!(get_packed_tuple_layout_from_type(&items).unwrap().len(), 2);
}

#[test]
fn packed_struct_is_concatenation_of_members() {
    let ms = vec![
        member("id", "u32", true),
        member("a", "(u8, u16)", false),
        member("b", "u256", false),
    ];
    let d = derive_struct("Packed", &ms, true, true).descriptor.unwrap();
    let whole: Vec<u8> = match &d.layout {
        DerivedLayout::Packed(s) => s.iter().map(|x| match x { PackedSlot::Width(w) => *w, _ => 0 }).collect(),
        _ => panic!("expected a packed layout"),
    };
    let mut parts: Vec<u8> = vec![];
    for ty in ["(u8, u16)", "u256"] {
        for x in get_packed_item_layout_from_type(&classify_type(ty)).unwrap() {
            if let PackedSlot::Width(w) = x {
                parts.push(w);
            }
        }
    }
    assert_eq!(whole, parts);
    assert_eq!(whole, vec![8u8, 16u8, 128u8, 128u8]);
}

#[test]
fn loose_slot_count_matches_known_size() {
    let ms = vec![member("id", "u32", true), member("a", "(u8, u256)", false), member("b", "bool", false)];
    let d = derive_struct("Counted", &ms, false, true).descriptor.unwrap();
    assert_eq!(d.size, Size::Known(4));
    fn count(l: &Layout) -> usize {
        match l {
            Layout::Fixed(w) => w.len(),
            Layout::Tuple(items) => items.iter().map(count).sum(),
            Layout::Struct(fs) => fs.iter().map(|f| count(&f.layout)).sum(),
            _ => 0,
        }
    }
    match &d.layout {
        DerivedLayout::Loose(l) => assert_eq!(count(l), 4),
        _ => panic!("expected a loose layout"),
    }
}

#[test]
fn enum_packing_and_size() {
    let same = vec![Some(classify_type("u8")), Some(classify_type("i8"))];
    assert!(is_enum_packable(&same));
    assert_eq!(compute_enum_layout_size(&same), Size::Known(2));
    let different = vec![Some(classify_type("u8")), Some(classify_type("u16"))];
    assert!(!is_enum_packable(&different));
    assert_eq!(compute_enum_layout_size(&different), Size::Unknown);
    let dynamic = vec![Some(classify_type("Array<u8>")), Some(classify_type("Array<u8>"))];
    assert!(!is_enum_packable(&dynamic));
    assert!(is_enum_packable(&vec![]));
}

#[test]
fn usize_is_found_in_type_texts() {
    assert!(type_contains_usize("usize"));
    assert!(type_contains_usize("(u8, usize, u32)"));
    assert!(type_contains_usize("Array<usize>"));
    assert!(!type_contains_usize("u32"));
    assert!(!type_contains_usize("MyUsizeType"));
    assert!(!type_contains_usize("usizes"));
}

#[test]
fn checker_rules() {
    assert!(DojoChecker::is_name_valid("Position_2"));
    assert!(!DojoChecker::is_name_valid("Bad-Name"));
    assert!(!DojoChecker::is_name_valid(""));
    let both = vec!["Introspect".to_string(), "IntrospectPacked".to_string()];
    assert!(DojoChecker::check_derive_conflicts(&both));
    let one = vec!["IntrospectPacked".to_string(), "Drop".to_string()];
    assert!(!DojoChecker::check_derive_conflicts(&one));
}

#[test]
fn member_serialization_lines() {
    let m = member("score", "u32", false);
    assert_eq!(
        serialize_member_ty(&m, true),
        "core::serde::Serde::serialize(self.score, ref serialized);\n"
    );
    assert_eq!(
        DojoSerializer::serialize_member_ty(&m, false),
        "core::serde::Serde::serialize(@score, ref serialized);\n"
    );
}

#[test]
fn keys_and_values_keep_order() {
    let ms = vec![member("a", "u8", true), member("b", "u16", true), member("c", "u32", false), member("d", "u64", false)];
    let (keys, values) = split_members(&ms);
    assert_eq!(keys.iter().map(|m| m.name.as_str()).collect::<Vec<_>>(), vec!["a", "b"]);
    assert_eq!(values.iter().map(|m| m.name.as_str()).collect::<Vec<_>>(), vec!["c", "d"]);
    assert_eq!(build_key_type(&keys), "(u8, u16)");
    assert_eq!(build_key_type(&keys[..1].to_vec()), "u8");
}

#[test]
fn selector_of_known_name() {
    assert_eq!(
        selector("balanceOf"),
        Some(felt_bytes("0x2e4263afad30923c891518314c3c95dbe830a16874e8abc5777a9a20b54c76e"))
    );
    assert_eq!(selector("caf\u{e9}"), None);
}

#[test]
fn trims_type_text() {
    assert_eq!(trim_text("  (u8, u16)\n"), "(u8, u16)");
}

#[test]
fn fingerprint_matches_direct_hash() {
    let ms = vec![member("id", "u32", true), member("x", " u8 ", false)];
    let fp = compute_unique_hash("Position", true, &ms);
    let direct = starknet_crypto::poseidon_hash_many(&[
        Felt::ONE,
        dojo_types::naming::compute_bytearray_hash("Position"),
        starknet_crypto::poseidon_hash_many(&[
            dojo_types::naming::compute_bytearray_hash("id"),
            dojo_types::naming::compute_bytearray_hash("u32"),
        ]),
        starknet_crypto::poseidon_hash_many(&[
            dojo_types::naming::compute_bytearray_hash("x"),
            dojo_types::naming::compute_bytearray_hash("u8"),
        ]),
    ]);
    assert_eq!(fp, direct.to_bytes_be());
}

#[test]
fn fingerprint_follows_order_names_and_mode() {
    let ms = vec![member("id", "u32", true), member("x", "u8", false), member("y", "u16", false)];
    let base = compute_unique_hash("Position", false, &ms);
    assert_eq!(base, compute_unique_hash("Position", false, &ms));
    let swapped = vec![member("id", "u32", true), member("y", "u16", false), member("x", "u8", false)];
    assert_ne!(base, compute_unique_hash("Position", false, &swapped));
    let renamed = vec![member("id", "u32", true), member("z", "u8", false), member("y", "u16", false)];
    assert_ne!(base, compute_unique_hash("Position", false, &renamed));
    assert_ne!(base, compute_unique_hash("Position", true, &ms));
}

#[test]
fn bytearray_hash_of_known_string() {
    let ms: Vec<Member> = vec![];
    let fp = compute_unique_hash("test", false, &ms);
    let direct = starknet_crypto::poseidon_hash_many(&[
        Felt::ZERO,
        Felt::from_hex("0x2ca96bf6e71766195fa290b97c50f073b218d4e8c6948c899e3b07d754d6760").unwrap(),
    ]);
    assert_eq!(fp, direct.to_bytes_be());
}
