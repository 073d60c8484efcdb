//! Tests of the whole parse: seeding from the marker interfaces, pruning,
//! the fatal redacted-fields case, deterministic ordering and idempotence.

use crux_codegen::graph::Crate;
use crux_codegen::graph::ImplData;
use crux_codegen::graph::Item;
use crux_codegen::graph::ItemEnum;
use crux_codegen::graph::ItemId;
use crux_codegen::graph::PathRef;
use crux_codegen::graph::RawType;
use crux_codegen::graph::StructKind;
use crux_codegen::item_processor::ParseError;
use crux_codegen::parser::find_impls;
use crux_codegen::parser::find_roots;
use crux_codegen::parser::parse;

fn item(id: usize, name: Option<&str>, inner: ItemEnum) -> Item {
    Item {
        id: ItemId(id),
        name: name.map(|n| n.as_bytes().to_vec()),
        attrs: vec![],
        inner,
    }
}

/// A graph whose first two slots hold an effect-marker implementation whose
/// designated slot points at `target`, followed by the given items.
fn with_effect_root(target: usize, mut rest: Vec<Option<Item>>) -> Crate {
    let mut items = vec![
        Some(item(
            0,
            None,
            ItemEnum::Impl(ImplData {
                trait_: Some(PathRef { name: b"Effect".to_vec(), id: ItemId(0), args: None }),
                for_: RawType::ResolvedPath(PathRef {
                    name: b"Shell".to_vec(),
                    id: ItemId(2),
                    args: None,
                }),
                items: vec![ItemId(1)],
                synthetic: false,
                blanket: false,
            }),
        )),
        Some(item(
            1,
            Some("Ffi"),
            ItemEnum::AssocType {
                default: Some(RawType::ResolvedPath(PathRef {
                    name: b"Root".to_vec(),
                    id: ItemId(target),
                    args: None,
                })),
            },
        )),
    ];
    items.append(&mut rest);
    Crate { items }
}

fn render_of(graph: &Crate) -> Vec<u8> {
    let (api, _data) = parse(graph).unwrap();
    api.render()
}

#[test]
fn identical_snapshots_render_byte_identical_output() {
    let build = || {
        with_effect_root(
            2,
            vec![
                Some(item(
                    2,
                    Some("m"),
                    ItemEnum::Module { items: vec![ItemId(3), ItemId(4)] },
                )),
                Some(item(3, Some("B"), ItemEnum::Struct { kind: StructKind::Unit, impls: vec![] })),
                Some(item(4, Some("A"), ItemEnum::Struct { kind: StructKind::Unit, impls: vec![] })),
            ],
        )
    };
    let g1 = build();
    let first = render_of(&g1);
    let second = render_of(&g1);
    assert_eq!(first, second, "one snapshot, two runs, identical bytes");
    let g2 = build();
    assert_eq!(first, render_of(&g2), "a rebuilt identical snapshot agrees");
    assert!(!first.is_empty());
}

#[test]
fn siblings_sort_by_name_within_equal_priority() {
    let graph = with_effect_root(
        2,
        vec![
            Some(item(
                2,
                Some("m"),
                ItemEnum::Module { items: vec![ItemId(3), ItemId(4)] },
            )),
            Some(item(3, Some("B"), ItemEnum::Struct { kind: StructKind::Unit, impls: vec![] })),
            Some(item(4, Some("A"), ItemEnum::Struct { kind: StructKind::Unit, impls: vec![] })),
        ],
    );
    let (api, _data) = parse(&graph).unwrap();
    let items = api.items();
    assert_eq!(items.len(), 2, "the module is scaffolding; the structs stay");
    assert_eq!(items[0].visible_path.last().unwrap(), &b"A".to_vec());
    assert_eq!(items[1].visible_path.last().unwrap(), &b"B".to_vec());
}

#[test]
fn pruned_noise_reaches_no_final_item() {
    for (synthetic, blanket) in [(true, false), (false, true)] {
        let graph = with_effect_root(
            2,
            vec![
                Some(item(
                    2,
                    Some("S"),
                    ItemEnum::Struct { kind: StructKind::Unit, impls: vec![ItemId(3)] },
                )),
                Some(item(
                    3,
                    None,
                    ItemEnum::Impl(ImplData {
                        trait_: Some(PathRef {
                            name: b"Whatever".to_vec(),
                            id: ItemId(0),
                            args: None,
                        }),
                        for_: RawType::ResolvedPath(PathRef {
                            name: b"S".to_vec(),
                            id: ItemId(2),
                            args: None,
                        }),
                        items: vec![ItemId(4)],
                        synthetic,
                        blanket,
                    }),
                )),
                Some(item(4, Some("shibboleth_member"), ItemEnum::Function)),
            ],
        );
        let (api, _data) = parse(&graph).unwrap();
        let rendered = api.render();
        let needle = b"shibboleth_member";
        let found = rendered.windows(needle.len()).any(|w| w == needle);
        assert!(!found, "a pruned block's member must reach no final item");
        assert_eq!(api.items().len(), 1, "only the struct itself stays");
    }
}

#[test]
fn retained_impl_members_group_under_the_type() {
    let graph = with_effect_root(
        2,
        vec![
            Some(item(
                2,
                Some("S"),
                ItemEnum::Struct { kind: StructKind::Unit, impls: vec![ItemId(3)] },
            )),
            Some(item(
                3,
                None,
                ItemEnum::Impl(ImplData {
                    trait_: None,
                    for_: RawType::ResolvedPath(PathRef {
                        name: b"S".to_vec(),
                        id: ItemId(2),
                        args: None,
                    }),
                    items: vec![ItemId(4)],
                    synthetic: false,
                    blanket: false,
                }),
            )),
            Some(item(4, Some("len"), ItemEnum::Function)),
        ],
    );
    let (api, _data) = parse(&graph).unwrap();
    assert_eq!(api.items().len(), 1, "functions are scaffolding in the final list");
    let rendered = api.render();
    let needle = b"len";
    assert!(!rendered.windows(needle.len()).any(|w| w == needle));
}

#[test]
fn stripped_fields_fail_the_whole_parse() {
    let graph = with_effect_root(
        2,
        vec![Some(item(
            2,
            Some("Secret"),
            ItemEnum::Struct {
                kind: StructKind::Plain { fields: vec![], fields_stripped: true },
                impls: vec![],
            },
        ))],
    );
    match parse(&graph) {
        Err(ParseError::InaccessibleFields { id, name }) => {
            assert_eq!(id, ItemId(2));
            assert_eq!(name, b"Secret".to_vec());
        },
        Err(ParseError::TraversalLimit) => panic!("wrong failure"),
        Ok(_) => panic!("a struct with redacted fields must fail the parse"),
    }
}

#[test]
fn missing_targets_are_reported_not_fatal() {
    let graph = with_effect_root(
        2,
        vec![Some(item(
            2,
            Some("m"),
            ItemEnum::Module { items: vec![ItemId(77)] },
        ))],
    );
    let (api, _data) = parse(&graph).unwrap();
    assert_eq!(api.missing_item_ids(), &vec![ItemId(77)]);
    assert_eq!(api.items().len(), 0, "a module alone is scaffolding");
}

#[test]
fn type_aliases_normalize_into_the_portable_model() {
    let graph = with_effect_root(
        2,
        vec![
            Some(item(
                2,
                Some("m"),
                ItemEnum::Module { items: vec![ItemId(3)] },
            )),
            Some(item(3, Some("Count"), ItemEnum::TypeAlias(RawType::Primitive(b"u64".to_vec())))),
        ],
    );
    let (api, data) = parse(&graph).unwrap();
    assert_eq!(data.aliases.len(), 1);
    assert_eq!(data.aliases[0].id.id, ItemId(3));
    assert!(matches!(
        data.aliases[0].ty,
        crux_codegen::rust_types::RustType::Special(
            crux_codegen::rust_types::SpecialRustType::U64,
        )
    ));
    assert!(data.structs.is_empty());
    assert!(data.enums.is_empty());
    assert_eq!(api.items().len(), 1);
}

#[test]
fn into_items_hands_the_sorted_items_over() {
    let graph = with_effect_root(
        2,
        vec![Some(item(2, Some("S"), ItemEnum::Struct { kind: StructKind::Unit, impls: vec![] }))],
    );
    let (api, _data) = parse(&graph).unwrap();
    let n = api.items().len();
    let owned = api.into_items();
    assert_eq!(owned.len(), n);
    assert_eq!(owned[0].visible_path.last().unwrap(), &b"S".to_vec());
}

#[test]
fn rendering_joins_segments_with_double_colons() {
    let graph = with_effect_root(
        2,
        vec![
            Some(item(2, Some("m"), ItemEnum::Module { items: vec![ItemId(3)] })),
            Some(item(3, Some("S"), ItemEnum::Struct { kind: StructKind::Unit, impls: vec![] })),
        ],
    );
    let (api, _data) = parse(&graph).unwrap();
    assert_eq!(api.items().len(), 1);
    assert_eq!(api.items()[0].visible_path, vec![b"".to_vec(), b"m".to_vec(), b"S".to_vec()]);
    assert_eq!(api.render(), b"::m::S\n".to_vec());
}

#[test]
fn grouping_orders_by_priority_before_name() {
    let graph = with_effect_root(
        2,
        vec![
            Some(item(
                2,
                Some("m"),
                ItemEnum::Module { items: vec![ItemId(3), ItemId(4)] },
            )),
            Some(item(3, Some("AAlias"), ItemEnum::TypeAlias(RawType::Primitive(b"u8".to_vec())))),
            Some(item(4, Some("ZStruct"), ItemEnum::Struct { kind: StructKind::Unit, impls: vec![] })),
        ],
    );
    let (api, _data) = parse(&graph).unwrap();
    assert_eq!(api.items().len(), 2);
    assert_eq!(
        api.items()[0].visible_path.last().unwrap(),
        &b"ZStruct".to_vec(),
        "a struct's kind sorts before a type alias's, whatever the names"
    );
    assert_eq!(api.items()[1].visible_path.last().unwrap(), &b"AAlias".to_vec());
}

#[test]
fn an_empty_graph_parses_to_an_empty_api() {
    let graph = Crate { items: vec![] };
    let (api, data) = parse(&graph).unwrap();
    assert_eq!(api.items().len(), 0);
    assert!(api.missing_item_ids().is_empty());
    assert!(api.render().is_empty());
    assert!(data.aliases.is_empty());
}

#[test]
fn parsed_data_starts_empty() {
    let d = crux_codegen::parser::ParsedData::new();
    assert!(d.structs.is_empty() && d.enums.is_empty() && d.aliases.is_empty());
    let d2 = crux_codegen::parser::ParsedData::default();
    assert!(d2.structs.is_empty() && d2.enums.is_empty() && d2.aliases.is_empty());
}

#[test]
fn reexport_fan_out_is_never_collapsed() {
    let import = |id: usize, name: &str| {
        Some(item(
            id,
            None,
            ItemEnum::Import(crux_codegen::graph::ImportData {
                target: Some(ItemId(5)),
                glob: false,
                source: b"x::S".to_vec(),
                name: name.as_bytes().to_vec(),
            }),
        ))
    };
    let graph = with_effect_root(
        2,
        vec![
            Some(item(
                2,
                Some("m"),
                ItemEnum::Module { items: vec![ItemId(3), ItemId(4)] },
            )),
            import(3, "Twin"),
            import(4, "Twin"),
            Some(item(5, Some("S"), ItemEnum::Struct { kind: StructKind::Unit, impls: vec![] })),
        ],
    );
    let (api, _data) = parse(&graph).unwrap();
    assert_eq!(api.items().len(), 2, "one definition, two spellings, two items");
    assert_eq!(api.items()[0].visible_path.last().unwrap(), &b"Twin".to_vec());
    assert_eq!(api.items()[1].visible_path.last().unwrap(), &b"Twin".to_vec());
}

#[test]
fn find_roots_reads_the_designated_slots() {
    let graph = with_effect_root(
        2,
        vec![Some(item(2, Some("S"), ItemEnum::Struct { kind: StructKind::Unit, impls: vec![] }))],
    );
    let roots = find_roots(&graph, &b"Effect".to_vec(), &vec![b"Ffi".to_vec()]);
    assert_eq!(roots.len(), 1);
    assert_eq!(roots[0].parent, ItemId(0));
    assert_eq!(roots[0].assoc_types, vec![ItemId(2)]);
    let none = find_roots(&graph, &b"App".to_vec(), &vec![b"Event".to_vec()]);
    assert_eq!(none.len(), 0);
    let wrong_slot = find_roots(&graph, &b"Effect".to_vec(), &vec![b"Event".to_vec()]);
    assert_eq!(wrong_slot.len(), 1);
    assert_eq!(wrong_slot[0].assoc_types.len(), 0, "slots are silently excluded");
}

#[test]
fn find_impls_keys_matches_by_their_target_type() {
    let graph = with_effect_root(
        2,
        vec![Some(item(2, Some("S"), ItemEnum::Struct { kind: StructKind::Unit, impls: vec![] }))],
    );
    let matches_ = find_impls(&graph, &b"Effect".to_vec(), &vec![b"Ffi".to_vec()]);
    assert_eq!(matches_.len(), 1);
    assert_eq!(matches_[0].for_id, ItemId(2));
    assert_eq!(matches_[0].assoc_types, vec![(b"Ffi".to_vec(), ItemId(2))]);
}
