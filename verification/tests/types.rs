//! Tests of the portable type representation and the normalizer.

use crux_codegen::graph::GenericArgRef;
use crux_codegen::graph::GenericArgsRef;
use crux_codegen::graph::ItemId;
use crux_codegen::graph::PathRef;
use crux_codegen::graph::RawType;
use crux_codegen::rust_types::Id;
use crux_codegen::rust_types::NormalizeError;
use crux_codegen::rust_types::RustStruct;
use crux_codegen::rust_types::RustType;
use crux_codegen::rust_types::SpecialRustType;
use crux_codegen::rust_types::last_segment_of;
use crux_codegen::rust_types::normalize_type;

fn path(name: &str, id: usize, args: Option<GenericArgsRef>) -> RawType {
    RawType::ResolvedPath(PathRef {
        name: name.as_bytes().to_vec(),
        id: ItemId(id),
        args: args.map(Box::new),
    })
}

#[test]
fn primitive_table_round_trip() {
    let table: Vec<(&str, SpecialRustType)> = vec![
        ("String", SpecialRustType::String),
        ("char", SpecialRustType::Char),
        ("i8", SpecialRustType::I8),
        ("i16", SpecialRustType::I16),
        ("i32", SpecialRustType::I32),
        ("i64", SpecialRustType::I64),
        ("u8", SpecialRustType::U8),
        ("u16", SpecialRustType::U16),
        ("u32", SpecialRustType::U32),
        ("u64", SpecialRustType::U64),
        ("isize", SpecialRustType::ISize),
        ("usize", SpecialRustType::USize),
        ("bool", SpecialRustType::Bool),
        ("f32", SpecialRustType::F32),
        ("f64", SpecialRustType::F64),
        ("I54", SpecialRustType::I54),
        ("U53", SpecialRustType::U53),
    ];
    for (name, variant) in table {
        let parsed = SpecialRustType::try_from(&name.as_bytes().to_vec());
        assert_eq!(parsed, Ok(variant));
        let back = parsed.unwrap().name();
        assert_eq!(back, Some(name.as_bytes().to_vec()));
    }
}

#[test]
fn primitive_table_rejects_unknown_name() {
    let unknown = b"flot".to_vec();
    assert_eq!(SpecialRustType::try_from(&unknown), Err(b"flot".to_vec()));
}

#[test]
fn container_variants_have_no_table_name() {
    assert_eq!(SpecialRustType::Unit.name(), None);
    assert_eq!(
        SpecialRustType::Vec(Box::new(RustType::Special(SpecialRustType::U8))).name(),
        None
    );
}

#[test]
fn last_segment_takes_the_tail_of_a_path() {
    assert_eq!(last_segment_of(&b"std::vec::Vec".to_vec()), b"Vec".to_vec());
    assert_eq!(last_segment_of(&b"Plain".to_vec()), b"Plain".to_vec());
    assert_eq!(last_segment_of(&b"".to_vec()), b"".to_vec());
}

#[test]
fn normalize_primitive_maps_through_the_table() {
    let r = normalize_type(&RawType::Primitive(b"i32".to_vec()));
    assert_eq!(r, Ok(Some(RustType::Special(SpecialRustType::I32))));
}

#[test]
fn normalize_unknown_primitive_is_an_error() {
    let r = normalize_type(&RawType::Primitive(b"flot".to_vec()));
    assert_eq!(r, Err(NormalizeError::UnknownPrimitive(b"flot".to_vec())));
}

#[test]
fn normalize_plain_reference_is_its_last_segment() {
    let r = normalize_type(&path("std::vec::Vec", 7, None));
    assert_eq!(r, Ok(Some(RustType::Simple { id: b"Vec".to_vec() })));
}

#[test]
fn normalize_bracketed_reference_normalizes_arguments() {
    let args = GenericArgsRef::AngleBracketed(vec![GenericArgRef::Type(RawType::Primitive(
        b"u8".to_vec(),
    ))]);
    let r = normalize_type(&path("Holder", 3, Some(args)));
    assert_eq!(
        r,
        Ok(Some(RustType::Generic {
            id: b"Holder".to_vec(),
            parameters: vec![RustType::Special(SpecialRustType::U8)],
        }))
    );
}

#[test]
fn normalize_empty_bracket_list_is_plain() {
    let args = GenericArgsRef::AngleBracketed(vec![]);
    let r = normalize_type(&path("Holder", 3, Some(args)));
    assert_eq!(r, Ok(Some(RustType::Simple { id: b"Holder".to_vec() })));
}

#[test]
fn normalize_lifetime_argument_is_unhandled() {
    let args = GenericArgsRef::AngleBracketed(vec![GenericArgRef::Lifetime]);
    let r = normalize_type(&path("Holder", 3, Some(args)));
    assert_eq!(r, Err(NormalizeError::UnhandledGenericArg));
}

#[test]
fn normalize_parenthesized_arguments_count_as_none() {
    let r = normalize_type(&path("Fun", 3, Some(GenericArgsRef::Parenthesized)));
    assert_eq!(r, Ok(Some(RustType::Simple { id: b"Fun".to_vec() })));
}

#[test]
fn normalize_generic_parameter_is_its_own_name() {
    let r = normalize_type(&RawType::Generic(b"T".to_vec()));
    assert_eq!(r, Ok(Some(RustType::Simple { id: b"T".to_vec() })));
}

#[test]
fn normalize_empty_tuple_is_unit() {
    let r = normalize_type(&RawType::Tuple(vec![]));
    assert_eq!(r, Ok(Some(RustType::Special(SpecialRustType::Unit))));
}

#[test]
fn normalize_tuple_walks_elements_for_errors() {
    let bad = RawType::Tuple(vec![
        RawType::Primitive(b"u8".to_vec()),
        RawType::Primitive(b"wat".to_vec()),
    ]);
    assert_eq!(
        normalize_type(&bad),
        Err(NormalizeError::UnknownPrimitive(b"wat".to_vec()))
    );
    let fine = RawType::Tuple(vec![RawType::Primitive(b"u8".to_vec())]);
    assert_eq!(normalize_type(&fine), Ok(None));
}

#[test]
fn normalize_unsupported_shapes_carry_no_type() {
    assert_eq!(normalize_type(&RawType::BorrowedRef), Ok(None));
    assert_eq!(normalize_type(&RawType::Slice), Ok(None));
    assert_eq!(normalize_type(&RawType::QualifiedPath), Ok(None));
    assert_eq!(normalize_type(&RawType::Infer), Ok(None));
}

#[test]
fn id_and_struct_builders_start_empty() {
    let id = Id::new(ItemId(5));
    assert_eq!(id.id, ItemId(5));
    assert!(id.original.is_empty());
    assert!(id.renamed.is_empty());
    let s = RustStruct::new(Id::new(ItemId(5)));
    assert!(s.generic_types.is_empty());
    assert!(s.fields.is_empty());
    assert!(s.comments.is_empty());
}
