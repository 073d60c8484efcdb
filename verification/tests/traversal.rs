//! Tests of the work-queue traversal engine: cycle safety, re-export
//! multiplicity, classification and grouping.

use crux_codegen::graph::Crate;
use crux_codegen::graph::ImplData;
use crux_codegen::graph::ImportData;
use crux_codegen::graph::Item;
use crux_codegen::graph::ItemEnum;
use crux_codegen::graph::ItemId;
use crux_codegen::graph::PathRef;
use crux_codegen::graph::RawType;
use crux_codegen::graph::StructKind;
use crux_codegen::item_processor::ImplKind;
use crux_codegen::item_processor::ItemProcessor;
use crux_codegen::item_processor::children_for_item;
use crux_codegen::item_processor::impls_for_item;
use crux_codegen::item_processor::sorting_prefix;
use crux_codegen::intermediate_public_item::IntermediatePublicItem;
use crux_codegen::intermediate_public_item::NameOverride;
use crux_codegen::intermediate_public_item::NameableItem;
use crux_codegen::intermediate_public_item::PathComponent;
use crux_codegen::render::RenderingContext;

fn item(id: usize, name: Option<&str>, inner: ItemEnum) -> Item {
    Item {
        id: ItemId(id),
        name: name.map(|n| n.as_bytes().to_vec()),
        attrs: vec![],
        inner,
    }
}

fn sortable_names(proc_: &ItemProcessor<'_>, graph: &Crate, index: usize) -> Vec<Vec<u8>> {
    let context = RenderingContext {
        crate_: graph,
        id_to_items: proc_.id_to_items(),
    };
    proc_.output[index]
        .sortable_path(&context)
        .into_iter()
        .map(|e| e.name)
        .collect()
}

#[test]
fn module_holding_itself_yields_one_guard_leaf() {
    let graph = Crate {
        items: vec![Some(item(
            0,
            Some("m"),
            ItemEnum::Module { items: vec![ItemId(0)] },
        ))],
    };
    let mut proc_ = ItemProcessor::new(&graph);
    proc_.add_to_work_queue(vec![], ItemId(0));
    proc_.run().unwrap();
    assert_eq!(proc_.output.len(), 2);
    assert_eq!(sortable_names(&proc_, &graph, 0), vec![b"m".to_vec()]);
    assert_eq!(
        sortable_names(&proc_, &graph, 1),
        vec![b"m".to_vec(), b"<<m>>".to_vec()]
    );
}

#[test]
fn module_glob_importing_itself_yields_one_guard_leaf() {
    let graph = Crate {
        items: vec![
            Some(item(0, Some("m"), ItemEnum::Module { items: vec![ItemId(1)] })),
            Some(item(
                1,
                None,
                ItemEnum::Import(ImportData {
                    target: Some(ItemId(0)),
                    glob: true,
                    source: b"m".to_vec(),
                    name: b"m".to_vec(),
                }),
            )),
        ],
    };
    let mut proc_ = ItemProcessor::new(&graph);
    proc_.add_to_work_queue(vec![], ItemId(0));
    proc_.run().unwrap();
    assert_eq!(proc_.output.len(), 2);
    assert_eq!(
        sortable_names(&proc_, &graph, 1),
        vec![b"m".to_vec(), b"<<m::*>>".to_vec()]
    );
}

#[test]
fn two_reexport_paths_give_two_items_sharing_one_id() {
    let graph = Crate {
        items: vec![
            Some(item(
                0,
                Some("m"),
                ItemEnum::Module { items: vec![ItemId(1), ItemId(2)] },
            )),
            Some(item(
                1,
                None,
                ItemEnum::Import(ImportData {
                    target: Some(ItemId(3)),
                    glob: false,
                    source: b"x::S".to_vec(),
                    name: b"First".to_vec(),
                }),
            )),
            Some(item(
                2,
                None,
                ItemEnum::Import(ImportData {
                    target: Some(ItemId(3)),
                    glob: false,
                    source: b"x::S".to_vec(),
                    name: b"Second".to_vec(),
                }),
            )),
            Some(item(
                3,
                Some("S"),
                ItemEnum::Struct { kind: StructKind::Unit, impls: vec![] },
            )),
        ],
    };
    let mut proc_ = ItemProcessor::new(&graph);
    proc_.add_to_work_queue(vec![], ItemId(0));
    proc_.run().unwrap();
    let map = proc_.id_to_items();
    let entry = map
        .entries
        .iter()
        .find(|e| e.0 == ItemId(3))
        .expect("the struct's id must be mapped");
    assert_eq!(entry.1.len(), 2, "one definition, two reachable spellings");
    let names_a = sortable_names(&proc_, &graph, entry.1[0]);
    let names_b = sortable_names(&proc_, &graph, entry.1[1]);
    assert_eq!(names_a.last().unwrap(), &b"Second".to_vec());
    assert_eq!(names_b.last().unwrap(), &b"First".to_vec());
}

#[test]
fn module_importing_itself_directly_leaves_the_import_as_a_leaf() {
    let graph = Crate {
        items: vec![
            Some(item(0, Some("m"), ItemEnum::Module { items: vec![ItemId(1)] })),
            Some(item(
                1,
                None,
                ItemEnum::Import(ImportData {
                    target: Some(ItemId(0)),
                    glob: false,
                    source: b"m".to_vec(),
                    name: b"m_again".to_vec(),
                }),
            )),
        ],
    };
    let mut proc_ = ItemProcessor::new(&graph);
    proc_.add_to_work_queue(vec![], ItemId(0));
    proc_.run().unwrap();
    assert_eq!(proc_.output.len(), 2, "the cycle ends after one leaf");
    assert_eq!(
        sortable_names(&proc_, &graph, 1),
        vec![b"m".to_vec(), b"m_again".to_vec()]
    );
}

#[test]
fn glob_import_inlines_the_module_children_without_a_step() {
    let graph = Crate {
        items: vec![
            Some(item(0, Some("outer"), ItemEnum::Module { items: vec![ItemId(1)] })),
            Some(item(
                1,
                None,
                ItemEnum::Import(ImportData {
                    target: Some(ItemId(2)),
                    glob: true,
                    source: b"inner".to_vec(),
                    name: b"inner".to_vec(),
                }),
            )),
            Some(item(2, Some("inner"), ItemEnum::Module { items: vec![ItemId(3)] })),
            Some(item(3, Some("S"), ItemEnum::Struct { kind: StructKind::Unit, impls: vec![] })),
        ],
    };
    let mut proc_ = ItemProcessor::new(&graph);
    proc_.add_to_work_queue(vec![], ItemId(0));
    proc_.run().unwrap();
    assert_eq!(proc_.output.len(), 2, "the glob step and its module are invisible");
    assert_eq!(
        sortable_names(&proc_, &graph, 1),
        vec![b"outer".to_vec(), b"S".to_vec()],
        "the struct hangs right under the importing module"
    );
}

#[test]
fn unresolved_import_stays_as_a_leaf_under_its_local_name() {
    let graph = Crate {
        items: vec![
            Some(item(0, Some("m"), ItemEnum::Module { items: vec![ItemId(1)] })),
            Some(item(
                1,
                None,
                ItemEnum::Import(ImportData {
                    target: None,
                    glob: false,
                    source: b"my_i32".to_vec(),
                    name: b"my_i32".to_vec(),
                }),
            )),
        ],
    };
    let mut proc_ = ItemProcessor::new(&graph);
    proc_.add_to_work_queue(vec![], ItemId(0));
    proc_.run().unwrap();
    assert_eq!(proc_.output.len(), 2);
    assert_eq!(
        sortable_names(&proc_, &graph, 1),
        vec![b"m".to_vec(), b"my_i32".to_vec()]
    );
    assert!(proc_.crate_.missing_item_ids().is_empty());
}

#[test]
fn missing_ids_are_recorded_and_dropped() {
    let graph = Crate {
        items: vec![Some(item(
            0,
            Some("m"),
            ItemEnum::Module { items: vec![ItemId(9), ItemId(0)] },
        ))],
    };
    let mut proc_ = ItemProcessor::new(&graph);
    proc_.add_to_work_queue(vec![], ItemId(0));
    proc_.run().unwrap();
    assert_eq!(proc_.crate_.missing_item_ids(), vec![ItemId(9)]);
    assert_eq!(proc_.output.len(), 2);
}

#[test]
fn intermediate_items_expose_their_path_and_renames() {
    let module = item(0, Some("m"), ItemEnum::Module { items: vec![ItemId(1)] });
    let target = item(1, Some("S"), ItemEnum::Struct { kind: StructKind::Unit, impls: vec![] });
    let graph = Crate { items: vec![] };

    let plain = IntermediatePublicItem::new(vec![
        PathComponent {
            item: NameableItem { item: &module, overridden_name: None, sorting_prefix: 4 },
            type_: None,
            hide: false,
        },
        PathComponent {
            item: NameableItem { item: &target, overridden_name: None, sorting_prefix: 9 },
            type_: None,
            hide: false,
        },
    ]);
    assert_eq!(plain.path().len(), 2);
    assert_eq!(plain.item().id, ItemId(1));
    assert!(!plain.path_contains_renamed_item());

    let renamed = IntermediatePublicItem::new(vec![PathComponent {
        item: NameableItem {
            item: &target,
            overridden_name: Some(NameOverride::Renamed(b"Other".to_vec())),
            sorting_prefix: 9,
        },
        type_: None,
        hide: true,
    }]);
    assert!(renamed.path_contains_renamed_item());

    let context = RenderingContext {
        crate_: &graph,
        id_to_items: crux_codegen::render::IdToItems { entries: vec![] },
    };
    let entries = plain.sortable_path(&context);
    assert_eq!(entries.len(), 2);
    assert_eq!(entries[0].prio, 4);
    assert_eq!(entries[0].name, b"m".to_vec());
    let visible = plain.render_token_stream(&context);
    assert_eq!(visible, vec![b"m".to_vec(), b"S".to_vec()]);
    let hidden = renamed.render_token_stream(&context);
    assert!(hidden.is_empty(), "hidden steps stay out of rendered output");
    let sortable = renamed.sortable_path(&context);
    assert_eq!(sortable.len(), 1, "hidden steps stay in sortable output");
    assert_eq!(sortable[0].name, b"Other".to_vec());
}

#[test]
fn impl_kind_classification_has_fixed_precedence() {
    let mk_impl = |synthetic: bool, blanket: bool, with_trait: bool| ImplData {
        trait_: if with_trait {
            Some(PathRef { name: b"Any".to_vec(), id: ItemId(9), args: None })
        } else {
            None
        },
        for_: RawType::Infer,
        items: vec![],
        synthetic,
        blanket,
    };
    let plain = item(0, None, ItemEnum::Function);
    let mut derived = item(0, None, ItemEnum::Function);
    derived.attrs.push(b"#[automatically_derived]".to_vec());

    assert_eq!(ImplKind::from(&plain, &mk_impl(true, false, true)), ImplKind::AutoTrait);
    assert_eq!(ImplKind::from(&plain, &mk_impl(false, true, true)), ImplKind::Blanket);
    assert_eq!(ImplKind::from(&derived, &mk_impl(false, false, true)), ImplKind::AutoDerived);
    assert_eq!(ImplKind::from(&plain, &mk_impl(false, false, false)), ImplKind::Inherent);
    assert_eq!(ImplKind::from(&plain, &mk_impl(false, false, true)), ImplKind::Trait);

    assert!(!ImplKind::from(&plain, &mk_impl(true, false, true)).is_active());
    assert!(!ImplKind::from(&plain, &mk_impl(false, true, true)).is_active());
    assert!(!ImplKind::from(&derived, &mk_impl(false, false, true)).is_active());
    assert!(ImplKind::from(&plain, &mk_impl(false, false, false)).is_active());
    assert!(ImplKind::from(&plain, &mk_impl(false, false, true)).is_active());
}

#[test]
fn sorting_prefix_orders_kinds() {
    assert_eq!(sorting_prefix(&item(0, None, ItemEnum::Module { items: vec![] })), 4);
    assert_eq!(
        sorting_prefix(&item(0, None, ItemEnum::Struct { kind: StructKind::Unit, impls: vec![] })),
        9
    );
    assert_eq!(sorting_prefix(&item(0, None, ItemEnum::Function)), 17);
    assert_eq!(sorting_prefix(&item(0, None, ItemEnum::OuterCrate)), 1);
}

#[test]
fn children_skip_absent_positional_fields() {
    let tuple_struct = item(
        0,
        Some("T"),
        ItemEnum::Struct {
            kind: StructKind::Tuple(vec![Some(ItemId(4)), None, Some(ItemId(6))]),
            impls: vec![ItemId(7)],
        },
    );
    assert_eq!(children_for_item(&tuple_struct), vec![ItemId(4), ItemId(6)]);
    assert_eq!(impls_for_item(&tuple_struct), Some(&vec![ItemId(7)]));
    assert_eq!(impls_for_item(&item(0, None, ItemEnum::Function)), None);
}
