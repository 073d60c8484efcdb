//! Parsing a symbol graph into the public API: roots are found on the
//! marker-interface implementations, the traversal drains its queue, and the
//! finished paths are filtered, rendered and sorted.

use vstd::prelude::*;
use crate::graph::Crate;
use crate::graph::ImplData;
use crate::graph::Item;
use crate::graph::ItemEnum;
use crate::graph::ItemId;
use crate::graph::RawType;
use crate::graph::lookup;
use crate::intermediate_public_item::Comp;
use crate::intermediate_public_item::KindTag;
use crate::intermediate_public_item::NameableItem;
use crate::intermediate_public_item::PathComponent;
use crate::intermediate_public_item::comp_of;
use crate::item_processor::Entry;
use crate::item_processor::ItemProcessor;
use crate::item_processor::ParseError;
use crate::item_processor::STEP_LIMIT;
use crate::item_processor::State;
use crate::item_processor::StepOut;
use crate::item_processor::iterate;
use crate::item_processor::lemma_iterate_stable;
use crate::item_processor::mk_comp;
use crate::item_processor::sorting_prefix;
use crate::public_api::PublicApi;
use crate::render::PubModel;
use crate::render::PublicItem;
use crate::render::RenderingContext;
use crate::render::key_lt;
use crate::render::Rel;
use crate::rust_types::Id;
use crate::rust_types::NormOutcome;
use crate::rust_types::RustEnum;
use crate::rust_types::RustStruct;
use crate::rust_types::RustTy;
use crate::rust_types::RustType;
use crate::rust_types::RustTypeAlias;
use crate::rust_types::normalize_spec;
use crate::rust_types::normalize_type;
use crate::text::bytes_eq;
use crate::text::clone_bytes;

verus! {

// --- The marker-interface names ---------------------------------------------

/// Name bytes of the effect marker interface.
pub open spec fn effect_name() -> Seq<u8> {
    seq!['E' as u8, 'f' as u8, 'f' as u8, 'e' as u8, 'c' as u8, 't' as u8]
}

/// Name bytes of the app marker interface.
pub open spec fn app_name() -> Seq<u8> {
    seq!['A' as u8, 'p' as u8, 'p' as u8]
}

/// Name bytes of the foreign-interface slot of the effect marker.
pub open spec fn ffi_name() -> Seq<u8> {
    seq!['F' as u8, 'f' as u8, 'i' as u8]
}

/// Name bytes of the event slot of the app marker.
pub open spec fn event_name() -> Seq<u8> {
    seq!['E' as u8, 'v' as u8, 'e' as u8, 'n' as u8, 't' as u8]
}

/// Name bytes of the view-model slot of the app marker.
pub open spec fn view_model_name() -> Seq<u8> {
    seq!['V' as u8, 'i' as u8, 'e' as u8, 'w' as u8, 'M' as u8, 'o' as u8, 'd' as u8, 'e' as u8,
        'l' as u8]
}

/// The designated slot names of the effect marker.
pub open spec fn effect_filter() -> Seq<Seq<u8>> {
    seq![ffi_name()]
}

/// The designated slot names of the app marker.
pub open spec fn app_filter() -> Seq<Seq<u8>> {
    seq![event_name(), view_model_name()]
}

fn effect_name_bytes() -> (r: Vec<u8>)
    ensures
        r@ == effect_name(),
{
    let mut r: Vec<u8> = Vec::new();
    r.push('E' as u8);
    r.push('f' as u8);
    r.push('f' as u8);
    r.push('e' as u8);
    r.push('c' as u8);
    r.push('t' as u8);
    assert(r@ =~= effect_name());
    r
}

fn app_name_bytes() -> (r: Vec<u8>)
    ensures
        r@ == app_name(),
{
    let mut r: Vec<u8> = Vec::new();
    r.push('A' as u8);
    r.push('p' as u8);
    r.push('p' as u8);
    assert(r@ =~= app_name());
    r
}

fn ffi_name_bytes() -> (r: Vec<u8>)
    ensures
        r@ == ffi_name(),
{
    let mut r: Vec<u8> = Vec::new();
    r.push('F' as u8);
    r.push('f' as u8);
    r.push('i' as u8);
    assert(r@ =~= ffi_name());
    r
}

fn event_name_bytes() -> (r: Vec<u8>)
    ensures
        r@ == event_name(),
{
    let mut r: Vec<u8> = Vec::new();
    r.push('E' as u8);
    r.push('v' as u8);
    r.push('e' as u8);
    r.push('n' as u8);
    r.push('t' as u8);
    assert(r@ =~= event_name());
    r
}

fn view_model_name_bytes() -> (r: Vec<u8>)
    ensures
        r@ == view_model_name(),
{
    let mut r: Vec<u8> = Vec::new();
    r.push('V' as u8);
    r.push('i' as u8);
    r.push('e' as u8);
    r.push('w' as u8);
    r.push('M' as u8);
    r.push('o' as u8);
    r.push('d' as u8);
    r.push('e' as u8);
    r.push('l' as u8);
    assert(r@ =~= view_model_name());
    r
}

fn effect_filter_bytes() -> (r: Vec<Vec<u8>>)
    ensures
        r@.map_values(|v: Vec<u8>| v@) == effect_filter(),
{
    let mut r: Vec<Vec<u8>> = Vec::new();
    r.push(ffi_name_bytes());
    assert(r@.map_values(|v: Vec<u8>| v@) =~= effect_filter());
    r
}

fn app_filter_bytes() -> (r: Vec<Vec<u8>>)
    ensures
        r@.map_values(|v: Vec<u8>| v@) == app_filter(),
{
    let mut r: Vec<Vec<u8>> = Vec::new();
    r.push(event_name_bytes());
    r.push(view_model_name_bytes());
    assert(r@.map_values(|v: Vec<u8>| v@) =~= app_filter());
    r
}

// --- The root finder ---------------------------------------------------------

/// Tells whether a name stands in a designated slot-name set.
pub open spec fn filter_has(filter: Seq<Seq<u8>>, n: Seq<u8>) -> bool {
    exists|i: int| 0 <= i < filter.len() && filter[i] == n
}

/// The root id one implementation member contributes: the member must
/// resolve, carry a designated name, and be an associated-type slot whose
/// default is a reference to another item.  Slots with inline defaults, and
/// members the graph does not carry, are silently excluded.
pub open spec fn member_root(c: Crate, id: ItemId, filter: Seq<Seq<u8>>) -> Seq<ItemId> {
    match lookup(c, id) {
        Some(mi) => match mi.name {
            Some(n) => if filter_has(filter, n@) {
                match mi.inner {
                    ItemEnum::AssocType { default: Some(RawType::ResolvedPath(p)) } => seq![p.id],
                    _ => Seq::empty(),
                }
            } else {
                Seq::empty()
            },
            None => Seq::empty(),
        },
        None => Seq::empty(),
    }
}

/// The designated associated-type targets of one implementation block's
/// member list, in member order.
pub open spec fn assoc_targets(c: Crate, members: Seq<ItemId>, filter: Seq<Seq<u8>>) -> Seq<
    ItemId,
>
    decreases members.len(),
{
    if members.len() == 0 {
        Seq::empty()
    } else {
        assoc_targets(c, members.drop_last(), filter) + member_root(c, members.last(), filter)
    }
}

/// One traversal root: the implementation block's item, and the targets of
/// its designated associated-type slots.
pub ghost struct RootModel {
    pub parent: ItemId,
    pub assoc: Seq<ItemId>,
}

/// The roots the graph's first `n` slots give, in id order: every
/// implementation block declaring the named marker interface, paired with
/// its designated associated-type targets.
pub open spec fn roots_upto(c: Crate, tn: Seq<u8>, filter: Seq<Seq<u8>>, n: int) -> Seq<RootModel>
    decreases n,
{
    if n <= 0 {
        Seq::empty()
    } else {
        roots_upto(c, tn, filter, n - 1) + match c.items@[n - 1] {
            Some(item) => match item.inner {
                ItemEnum::Impl(d) => match d.trait_ {
                    Some(p) => if p.name@ == tn {
                        seq![
                            RootModel { parent: item.id, assoc: assoc_targets(c, d.items@, filter) },
                        ]
                    } else {
                        Seq::empty()
                    },
                    None => Seq::empty(),
                },
                _ => Seq::empty(),
            },
            None => Seq::empty(),
        }
    }
}

/// Every root of the graph for one marker interface.
pub open spec fn roots_spec(c: Crate, tn: Seq<u8>, filter: Seq<Seq<u8>>) -> Seq<RootModel> {
    roots_upto(c, tn, filter, c.items@.len() as int)
}

/// One traversal root in executable form.
pub struct Root {
    pub parent: ItemId,
    pub assoc_types: Vec<ItemId>,
}

/// The model of one root.
pub open spec fn root_model(r: Root) -> RootModel {
    RootModel { parent: r.parent, assoc: r.assoc_types@ }
}

/// Tells whether a name stands in a designated slot-name set.
fn filter_contains(filter: &Vec<Vec<u8>>, n: &Vec<u8>) -> (r: bool)
    ensures
        r == filter_has(filter@.map_values(|v: Vec<u8>| v@), n@),
{
    let ghost fm = filter@.map_values(|v: Vec<u8>| v@);
    let mut i: usize = 0;
    while i < filter.len()
        invariant
            i <= filter@.len(),
            fm == filter@.map_values(|v: Vec<u8>| v@),
            forall|j: int| 0 <= j < i ==> #[trigger] fm[j] != n@,
        decreases filter@.len() - i,
    {
        if bytes_eq(&filter[i], n) {
            assert(fm[i as int] == n@);
            return true;
        }
        i = i + 1;
    }
    false
}

/// Collects the designated associated-type targets of one member list.
#[verifier::loop_isolation(false)]
fn collect_assoc_targets(c: &Crate, members: &Vec<ItemId>, filter: &Vec<Vec<u8>>) -> (r: Vec<
    ItemId,
>)
    ensures
        r@ == assoc_targets(*c, members@, filter@.map_values(|v: Vec<u8>| v@)),
{
    let ghost fm = filter@.map_values(|v: Vec<u8>| v@);
    let mut r: Vec<ItemId> = Vec::new();
    let mut i: usize = 0;
    while i < members.len()
        invariant
            i <= members@.len(),
            r@ =~= assoc_targets(*c, members@.take(i as int), fm),
        decreases members@.len() - i,
    {
        proof {
            assert(members@.take(i + 1).drop_last() =~= members@.take(i as int));
            assert(members@.take(i + 1).last() == members@[i as int]);
        }
        match c.get(members[i]) {
            Some(mi) => {
                match &mi.name {
                    Some(n) => {
                        if filter_contains(filter, n) {
                            match &mi.inner {
                                ItemEnum::AssocType { default: Some(RawType::ResolvedPath(p)) } => {
                                    r.push(p.id);
                                },
                                _ => (),
                            }
                        }
                    },
                    None => (),
                }
            },
            None => (),
        }
        i = i + 1;
    }
    assert(members@.take(members@.len() as int) =~= members@);
    r
}

/// Finds every traversal root: each implementation block declaring the named
/// marker interface, paired with the targets of its designated
/// associated-type slots.
#[verifier::loop_isolation(false)]
pub fn find_roots(crate_: &Crate, trait_name: &Vec<u8>, filter: &Vec<Vec<u8>>) -> (r: Vec<Root>)
    ensures
        r@.map_values(|x: Root| root_model(x)) == roots_spec(
            *crate_,
            trait_name@,
            filter@.map_values(|v: Vec<u8>| v@),
        ),
{
    let ghost fm = filter@.map_values(|v: Vec<u8>| v@);
    let mut r: Vec<Root> = Vec::new();
    let mut i: usize = 0;
    while i < crate_.items.len()
        invariant
            i <= crate_.items@.len(),
            r@.map_values(|x: Root| root_model(x)) =~= roots_upto(
                *crate_,
                trait_name@,
                fm,
                i as int,
            ),
        decreases crate_.items@.len() - i,
    {
        match &crate_.items[i] {
            Some(item) => match &item.inner {
                ItemEnum::Impl(d) => match &d.trait_ {
                    Some(p) => {
                        if bytes_eq(&p.name, trait_name) {
                            let assoc_types = collect_assoc_targets(crate_, &d.items, filter);
                            r.push(Root { parent: item.id, assoc_types });
                        }
                    },
                    None => (),
                },
                _ => (),
            },
            None => (),
        }
        i = i + 1;
    }
    r
}

// --- Marker implementations keyed by their implementing type -----------------

/// The named slot one implementation member contributes: the member must
/// resolve, carry a designated name, and be an associated-type slot whose
/// default is a reference to another item.
pub open spec fn member_slot(c: Crate, id: ItemId, filter: Seq<Seq<u8>>) -> Seq<(Seq<u8>, ItemId)> {
    match lookup(c, id) {
        Some(mi) => match mi.name {
            Some(n) => if filter_has(filter, n@) {
                match mi.inner {
                    ItemEnum::AssocType { default: Some(RawType::ResolvedPath(p)) } => seq![
                        (n@, p.id),
                    ],
                    _ => Seq::empty(),
                }
            } else {
                Seq::empty()
            },
            None => Seq::empty(),
        },
        None => Seq::empty(),
    }
}

/// The named designated slots of one member list, in member order.
pub open spec fn assoc_slots(c: Crate, members: Seq<ItemId>, filter: Seq<Seq<u8>>) -> Seq<
    (Seq<u8>, ItemId),
>
    decreases members.len(),
{
    if members.len() == 0 {
        Seq::empty()
    } else {
        assoc_slots(c, members.drop_last(), filter) + member_slot(c, members.last(), filter)
    }
}

/// One marker-interface implementation keyed by the id of the type it is
/// for, with its named designated slots.
pub ghost struct ImplMatchModel {
    pub for_id: ItemId,
    pub assoc: Seq<(Seq<u8>, ItemId)>,
}

/// The matches the graph's first `n` slots give: every implementation block
/// declaring the named marker interface for a resolved type.
pub open spec fn impl_matches_upto(c: Crate, tn: Seq<u8>, filter: Seq<Seq<u8>>, n: int) -> Seq<
    ImplMatchModel,
>
    decreases n,
{
    if n <= 0 {
        Seq::empty()
    } else {
        impl_matches_upto(c, tn, filter, n - 1) + match c.items@[n - 1] {
            Some(item) => match item.inner {
                ItemEnum::Impl(d) => match (d.trait_, d.for_) {
                    (Some(p), RawType::ResolvedPath(fp)) => if p.name@ == tn {
                        seq![
                            ImplMatchModel {
                                for_id: fp.id,
                                assoc: assoc_slots(c, d.items@, filter),
                            },
                        ]
                    } else {
                        Seq::empty()
                    },
                    _ => Seq::empty(),
                },
                _ => Seq::empty(),
            },
            None => Seq::empty(),
        }
    }
}

/// One marker-interface implementation in executable form.
pub struct ImplMatch {
    pub for_id: ItemId,
    pub assoc_types: Vec<(Vec<u8>, ItemId)>,
}

/// The model of one match.
pub open spec fn impl_match_model(m: ImplMatch) -> ImplMatchModel {
    ImplMatchModel {
        for_id: m.for_id,
        assoc: m.assoc_types@.map_values(|e: (Vec<u8>, ItemId)| (e.0@, e.1)),
    }
}

/// Collects the named designated slots of one member list.
#[verifier::loop_isolation(false)]
fn collect_assoc_slots(c: &Crate, members: &Vec<ItemId>, filter: &Vec<Vec<u8>>) -> (r: Vec<
    (Vec<u8>, ItemId),
>)
    ensures
        r@.map_values(|e: (Vec<u8>, ItemId)| (e.0@, e.1)) == assoc_slots(
            *c,
            members@,
            filter@.map_values(|v: Vec<u8>| v@),
        ),
{
    let ghost fm = filter@.map_values(|v: Vec<u8>| v@);
    let mut r: Vec<(Vec<u8>, ItemId)> = Vec::new();
    let mut i: usize = 0;
    while i < members.len()
        invariant
            i <= members@.len(),
            r@.map_values(|e: (Vec<u8>, ItemId)| (e.0@, e.1)) =~= assoc_slots(
                *c,
                members@.take(i as int),
                fm,
            ),
        decreases members@.len() - i,
    {
        proof {
            assert(members@.take(i + 1).drop_last() =~= members@.take(i as int));
            assert(members@.take(i + 1).last() == members@[i as int]);
        }
        match c.get(members[i]) {
            Some(mi) => {
                match &mi.name {
                    Some(n) => {
                        if filter_contains(filter, n) {
                            match &mi.inner {
                                ItemEnum::AssocType { default: Some(RawType::ResolvedPath(p)) } => {
                                    r.push((clone_bytes(n), p.id));
                                    proof {
                                        assert(r@.map_values(
                                            |e: (Vec<u8>, ItemId)| (e.0@, e.1),
                                        ) =~= assoc_slots(*c, members@.take(i as int), fm).push(
                                            (n@, p.id),
                                        ));
                                    }
                                },
                                _ => (),
                            }
                        }
                    },
                    None => (),
                }
            },
            None => (),
        }
        i = i + 1;
    }
    assert(members@.take(members@.len() as int) =~= members@);
    r
}

/// Finds every implementation block declaring the named marker interface for
/// a resolved type: the id of the type it is for, paired with its named
/// designated associated-type slots.
#[verifier::loop_isolation(false)]
pub fn find_impls(crate_: &Crate, trait_name: &Vec<u8>, filter: &Vec<Vec<u8>>) -> (r: Vec<
    ImplMatch,
>)
    ensures
        r@.map_values(|x: ImplMatch| impl_match_model(x)) == impl_matches_upto(
            *crate_,
            trait_name@,
            filter@.map_values(|v: Vec<u8>| v@),
            crate_.items@.len() as int,
        ),
{
    let ghost fm = filter@.map_values(|v: Vec<u8>| v@);
    let mut r: Vec<ImplMatch> = Vec::new();
    let mut i: usize = 0;
    while i < crate_.items.len()
        invariant
            i <= crate_.items@.len(),
            r@.map_values(|x: ImplMatch| impl_match_model(x)) =~= impl_matches_upto(
                *crate_,
                trait_name@,
                fm,
                i as int,
            ),
        decreases crate_.items@.len() - i,
    {
        match &crate_.items[i] {
            Some(item) => match &item.inner {
                ItemEnum::Impl(d) => match (&d.trait_, &d.for_) {
                    (Some(p), RawType::ResolvedPath(fp)) => {
                        if bytes_eq(&p.name, trait_name) {
                            let assoc_types = collect_assoc_slots(crate_, &d.items, filter);
                            r.push(ImplMatch { for_id: fp.id, assoc_types });
                        }
                    },
                    _ => (),
                },
                _ => (),
            },
            None => (),
        }
        i = i + 1;
    }
    r
}

// --- Seeding the traversal ---------------------------------------------------

/// The work entries one root seeds: each designated target under a
/// single-component path of the root's implementation item.
pub open spec fn root_entries(c: Crate, root: RootModel) -> Seq<Entry> {
    match lookup(c, root.parent) {
        Some(item) => root.assoc.map_values(
            |id: ItemId| Entry { path: seq![mk_comp(item, None, None, false)], id },
        ),
        None => Seq::empty(),
    }
}

/// The work entries a root list seeds, in root order.
pub open spec fn seeds(c: Crate, roots: Seq<RootModel>) -> Seq<Entry>
    decreases roots.len(),
{
    if roots.len() == 0 {
        Seq::empty()
    } else {
        seeds(c, roots.drop_last()) + root_entries(c, roots.last())
    }
}

/// Seeds the traversal queue from every root of one marker interface.
#[verifier::loop_isolation(false)]
pub fn add_items<'c>(
    crate_: &'c Crate,
    trait_name: &Vec<u8>,
    filter: &Vec<Vec<u8>>,
    item_processor: &mut ItemProcessor<'c>,
)
    requires
        old(item_processor).graph() == *crate_,
    ensures
        final(item_processor).graph() == old(item_processor).graph(),
        final(item_processor).st() == (State {
            queue: old(item_processor).st().queue + seeds(
                *crate_,
                roots_spec(*crate_, trait_name@, filter@.map_values(|v: Vec<u8>| v@)),
            ),
            output: old(item_processor).st().output,
            missing: old(item_processor).st().missing,
        }),
{
    let ghost rootsm = roots_spec(*crate_, trait_name@, filter@.map_values(|v: Vec<u8>| v@));
    let roots = find_roots(crate_, trait_name, filter);
    let mut i: usize = 0;
    while i < roots.len()
        invariant
            i <= roots@.len(),
            rootsm == roots@.map_values(|x: Root| root_model(x)),
            item_processor.graph() == *crate_,
            item_processor.st().output == old(item_processor).st().output,
            item_processor.st().missing == old(item_processor).st().missing,
            item_processor.st().queue =~= old(item_processor).st().queue + seeds(
                *crate_,
                rootsm.take(i as int),
            ),
        decreases roots@.len() - i,
    {
        proof {
            assert(rootsm.take(i + 1).drop_last() =~= rootsm.take(i as int));
            assert(rootsm.take(i + 1).last() == root_model(roots@[i as int]));
        }
        let root = &roots[i];
        match crate_.get(root.parent) {
            Some(item) => {
                let ghost base = item_processor.st().queue;
                let mut j: usize = 0;
                while j < root.assoc_types.len()
                    invariant
                        j <= root.assoc_types@.len(),
                        item_processor.graph() == *crate_,
                        item_processor.st().output == old(item_processor).st().output,
                        item_processor.st().missing == old(item_processor).st().missing,
                        lookup(*crate_, root.parent) is Some,
                        *item == lookup(*crate_, root.parent)->Some_0,
                        item_processor.st().queue =~= base + root_entries(
                            *crate_,
                            root_model(*root),
                        ).take(j as int),
                    decreases root.assoc_types@.len() - j,
                {
                    let mut path: Vec<PathComponent<'c>> = Vec::new();
                    let pc = PathComponent {
                        item: NameableItem {
                            item,
                            overridden_name: None,
                            sorting_prefix: sorting_prefix(item),
                        },
                        type_: None,
                        hide: false,
                    };
                    proof {
                        assert(comp_of(pc) == mk_comp(*item, None, None, false));
                    }
                    path.push(pc);
                    let id = root.assoc_types[j];
                    item_processor.add_to_work_queue(path, id);
                    proof {
                        assert(root_entries(*crate_, root_model(*root)).take(j + 1)
                            =~= root_entries(*crate_, root_model(*root)).take(j as int).push(
                            Entry {
                                path: seq![mk_comp(*item, None, None, false)],
                                id: root.assoc_types@[j as int],
                            },
                        ));
                        assert(crate::intermediate_public_item::path_model(path@) =~= seq![
                            mk_comp(*item, None, None, false),
                        ]);
                    }
                    j = j + 1;
                }
                proof {
                    assert(root_entries(*crate_, root_model(*root)).take(
                        root.assoc_types@.len() as int,
                    ) =~= root_entries(*crate_, root_model(*root)));
                    assert(seeds(*crate_, rootsm.take(i + 1)) =~= seeds(
                        *crate_,
                        rootsm.take(i as int),
                    ) + root_entries(*crate_, root_model(*root)));
                }
            },
            None => {
                proof {
                    assert(root_entries(*crate_, root_model(*root)) =~= Seq::<Entry>::empty());
                    assert(seeds(*crate_, rootsm.take(i + 1)) =~= seeds(
                        *crate_,
                        rootsm.take(i as int),
                    ));
                }
            },
        }
        i = i + 1;
    }
    proof {
        assert(rootsm.take(rootsm.len() as int) =~= rootsm);
        assert(item_processor.st() =~= (State {
            queue: old(item_processor).st().queue + seeds(*crate_, rootsm),
            output: old(item_processor).st().output,
            missing: old(item_processor).st().missing,
        }));
    }
}

// --- Filtering, sorting and the portable side products ----------------------

/// The data-shape kinds that stay in the assembled public API; every other
/// kind was traversal scaffolding only.
pub open spec fn kind_keep(k: KindTag) -> bool {
    match k {
        KindTag::Union => true,
        KindTag::Struct => true,
        KindTag::StructField => true,
        KindTag::Enum => true,
        KindTag::Variant => true,
        KindTag::Primitive => true,
        KindTag::TypeAlias => true,
        KindTag::ForeignType => true,
        KindTag::Constant => true,
        _ => false,
    }
}

/// The finished paths of data-shape kinds, rendered, in output order.
pub open spec fn filtered(out: Seq<Seq<Comp>>) -> Seq<PubModel>
    decreases out.len(),
{
    if out.len() == 0 {
        Seq::empty()
    } else {
        filtered(out.drop_last()) + if out.last().len() > 0 && kind_keep(out.last().last().kind) {
            seq![PublicItem::render_spec(out.last())]
        } else {
            Seq::empty()
        }
    }
}

/// Inserts an item into a sorted list: it lands after every item whose key
/// does not exceed its own, so items with equal keys keep their earlier
/// order.
pub open spec fn insert_sorted(s: Seq<PubModel>, x: PubModel) -> Seq<PubModel>
    decreases s.len(),
{
    if s.len() == 0 {
        seq![x]
    } else if key_lt(x.key, s.last().key) {
        insert_sorted(s.drop_last(), x).push(s.last())
    } else {
        s.push(x)
    }
}

/// Stable insertion sort by sortable path: items are taken in input order
/// and each lands after the items with keys not above its own.
pub open spec fn sort_spec(s: Seq<PubModel>) -> Seq<PubModel>
    decreases s.len(),
{
    if s.len() == 0 {
        Seq::empty()
    } else {
        insert_sorted(sort_spec(s.drop_last()), s.last())
    }
}

/// Inserting at the first position, counted from the back, whose item's key
/// is not above the inserted key splits the list there.
proof fn lemma_insert_split(s: Seq<PubModel>, x: PubModel, pos: int)
    requires
        0 <= pos <= s.len(),
        forall|i: int| pos <= i < s.len() ==> key_lt(x.key, (#[trigger] s[i]).key),
        pos > 0 ==> !key_lt(x.key, s[pos - 1].key),
    ensures
        insert_sorted(s, x) == s.take(pos).push(x) + s.skip(pos),
    decreases s.len(),
{
    if pos == s.len() {
        if s.len() == 0 {
            assert(insert_sorted(s, x) =~= s.take(pos).push(x) + s.skip(pos));
        } else {
            assert(insert_sorted(s, x) == s.push(x));
            assert(s.push(x) =~= s.take(pos).push(x) + s.skip(pos));
        }
    } else {
        assert(key_lt(x.key, s.last().key));
        lemma_insert_split(s.drop_last(), x, pos);
        assert((s.drop_last().take(pos).push(x) + s.drop_last().skip(pos)).push(s.last()) =~= s.take(
            pos,
        ).push(x) + s.skip(pos));
    }
}

/// An item list ordered by sortable path: no later item's key orders
/// strictly below an earlier item's key.
pub open spec fn sorted_by_key(s: Seq<PubModel>) -> bool {
    forall|i: int, j: int| 0 <= i < j < s.len() ==> !key_lt(
        (#[trigger] s[j]).key,
        (#[trigger] s[i]).key,
    )
}

/// Inserting keeps an item list sorted, and adds exactly the inserted item.
proof fn lemma_insert_sorted_keeps(s: Seq<PubModel>, x: PubModel)
    requires
        sorted_by_key(s),
    ensures
        sorted_by_key(insert_sorted(s, x)),
        forall|i: int| 0 <= i < insert_sorted(s, x).len() ==> (#[trigger] insert_sorted(s, x)[i])
            == x || s.contains(insert_sorted(s, x)[i]),
        insert_sorted(s, x).to_multiset() == s.to_multiset().insert(x),
    decreases s.len(),
{
    broadcast use vstd::seq_lib::group_to_multiset_ensures;

    if s.len() == 0 {
        assert(seq![x] =~= Seq::<PubModel>::empty().push(x));
        assert(insert_sorted(s, x).to_multiset() =~= s.to_multiset().insert(x));
    } else if key_lt(x.key, s.last().key) {
        assert(sorted_by_key(s.drop_last())) by {
            assert(forall|i: int, j: int| 0 <= i < j < s.len() - 1 ==> !key_lt(
                (#[trigger] s.drop_last()[j]).key,
                (#[trigger] s.drop_last()[i]).key,
            ));
        }
        lemma_insert_sorted_keeps(s.drop_last(), x);
        let r0 = insert_sorted(s.drop_last(), x);
        let r = r0.push(s.last());
        assert forall|i: int, j: int| 0 <= i < j < r.len() implies !key_lt(
            (#[trigger] r[j]).key,
            (#[trigger] r[i]).key,
        ) by {
            if j == r.len() - 1 {
                if r0[i] == x {
                    crate::render::lemma_key_lt_asymm(x.key, s.last().key);
                } else {
                    assert(s.drop_last().contains(r0[i]));
                    let w = choose|w: int| 0 <= w < s.drop_last().len() && s.drop_last()[w]
                        == r0[i];
                    assert(s[w] == r0[i]);
                    assert(!key_lt(s.last().key, s[w].key));
                }
            }
        }
        assert forall|i: int| 0 <= i < r.len() implies (#[trigger] r[i]) == x || s.contains(
            r[i],
        ) by {
            if i < r.len() - 1 {
                if r0[i] != x {
                    let w = choose|w: int| 0 <= w < s.drop_last().len() && s.drop_last()[w]
                        == r0[i];
                    assert(s[w] == r0[i]);
                }
            } else {
                assert(s[s.len() - 1] == s.last());
            }
        }
        assert(s =~= s.drop_last().push(s.last()));
        assert(s.to_multiset() == s.drop_last().to_multiset().insert(s.last()));
        assert(r.to_multiset() == r0.to_multiset().insert(s.last()));
        assert(r.to_multiset() =~= s.to_multiset().insert(x)) by {
            assert(r0.to_multiset() == s.drop_last().to_multiset().insert(x));
        }
    } else {
        let r = s.push(x);
        assert forall|i: int, j: int| 0 <= i < j < r.len() implies !key_lt(
            (#[trigger] r[j]).key,
            (#[trigger] r[i]).key,
        ) by {
            if j == r.len() - 1 {
                assert(!key_lt(x.key, s.last().key));
                if i < s.len() - 1 {
                    assert(!key_lt(s.last().key, s[i].key));
                    crate::render::lemma_key_le_trans(s[i].key, s.last().key, x.key);
                }
            }
        }
        assert(forall|i: int| 0 <= i < r.len() ==> (#[trigger] r[i]) == x || s.contains(r[i]));
        assert(r.to_multiset() == s.to_multiset().insert(x));
    }
}

/// The sort law: sorting by sortable path yields an item list ordered by the
/// total lexicographic order over (priority, name) sequences, holding
/// exactly the items that went in.  Siblings of equal priority come out
/// name-ordered, and items with equal keys keep their input order.
pub proof fn lemma_sort_spec_sorted(s: Seq<PubModel>)
    ensures
        sorted_by_key(sort_spec(s)),
        sort_spec(s).to_multiset() == s.to_multiset(),
    decreases s.len(),
{
    broadcast use vstd::seq_lib::group_to_multiset_ensures;

    if s.len() == 0 {
    } else {
        lemma_sort_spec_sorted(s.drop_last());
        lemma_insert_sorted_keeps(sort_spec(s.drop_last()), s.last());
        assert(s =~= s.drop_last().push(s.last()));
        assert(s.to_multiset() == s.drop_last().to_multiset().insert(s.last()));
    }
}

/// The portable aliases a finished output carries: for each type-alias path,
/// the target item's id and the normalization of its aliased type, where one
/// exists.
pub open spec fn alias_of(p: Seq<Comp>) -> Seq<(ItemId, RustTy)> {
    if p.len() > 0 && p.last().kind is TypeAlias {
        match p.last().data_ty {
            Some(t) => match normalize_spec(t) {
                NormOutcome::Portable(ty) => seq![(p.last().id, ty)],
                _ => Seq::empty(),
            },
            None => Seq::empty(),
        }
    } else {
        Seq::empty()
    }
}

/// The portable aliases of a whole output, in output order.
pub open spec fn aliases_spec(out: Seq<Seq<Comp>>) -> Seq<(ItemId, RustTy)>
    decreases out.len(),
{
    if out.len() == 0 {
        Seq::empty()
    } else {
        aliases_spec(out.drop_last()) + alias_of(out.last())
    }
}

/// The results of parsing: the portable model of the source.
pub struct ParsedData {
    /// Structs defined in the source.
    pub structs: Vec<RustStruct>,
    /// Enums defined in the source.
    pub enums: Vec<RustEnum>,
    /// Type aliases defined in the source.
    pub aliases: Vec<RustTypeAlias>,
}

impl ParsedData {
    pub fn new() -> (r: Self)
        ensures
            r.structs@.len() == 0,
            r.enums@.len() == 0,
            r.aliases@.len() == 0,
    {
        ParsedData { structs: Vec::new(), enums: Vec::new(), aliases: Vec::new() }
    }
}

impl Default for ParsedData {
    fn default() -> (r: Self)
        ensures
            r.structs@.len() == 0,
            r.enums@.len() == 0,
            r.aliases@.len() == 0,
    {
        ParsedData::new()
    }
}

// --- The whole parse ---------------------------------------------------------

/// The traversal state the marker interfaces seed: every effect root first,
/// then every app root, on an empty output.
pub open spec fn init_state(c: Crate) -> State {
    State {
        queue: seeds(c, roots_spec(c, effect_name(), effect_filter())) + seeds(
            c,
            roots_spec(c, app_name(), app_filter()),
        ),
        output: Seq::empty(),
        missing: Seq::empty(),
    }
}

/// The outcome of one parse, in mathematical form.
pub ghost enum ParseOut {
    /// The run completed: the sorted public items, the missing ids, and the
    /// portable aliases.
    Done { items: Seq<PubModel>, missing: Seq<ItemId>, aliases: Seq<(ItemId, RustTy)> },
    /// The run passed the step budget with work left.
    Limit,
    /// The run aborted on an item with redacted fields.
    Fail { id: ItemId, name: Seq<u8> },
}

/// The model of a parse result.
pub open spec fn parse_model(r: Result<(PublicApi, ParsedData), ParseError>) -> ParseOut {
    match r {
        Ok((api, pd)) => ParseOut::Done {
            items: api.items_model(),
            missing: api.missing_item_ids@,
            aliases: pd.aliases@.map_values(|a: RustTypeAlias| (a.id.id, a.ty.model())),
        },
        Err(ParseError::InaccessibleFields { id, name }) => ParseOut::Fail { id, name: name@ },
        Err(ParseError::TraversalLimit) => ParseOut::Limit,
    }
}

/// What parsing a graph must yield: after some number of steps the seeded
/// traversal settles, and the outcome is the sorted rendering of its output
/// with its missing ids and portable aliases; a fatal item yields exactly
/// the fields failure naming it, with no item list at all; a run out of
/// budget yields the budget failure.
pub open spec fn parse_out_rel(c: Crate, po: ParseOut, k: nat) -> bool {
    k <= STEP_LIMIT && match iterate(c, init_state(c), k) {
        StepOut::Go(s) => if s.queue.len() == 0 {
            po == (ParseOut::Done {
                items: sort_spec(filtered(s.output)),
                missing: s.missing,
                aliases: aliases_spec(s.output),
            })
        } else {
            k == STEP_LIMIT && po is Limit
        },
        StepOut::Fatal(s, id, nm) => po == (ParseOut::Fail { id, name: nm }),
    }
}

/// Idempotence of parsing: one graph snapshot admits exactly one parse
/// outcome — whatever step counts witnessed two parses of the same
/// snapshot, their outcomes are equal, so repeated runs render to
/// byte-identical sorted output.
pub proof fn lemma_parse_deterministic(c: Crate, po1: ParseOut, po2: ParseOut, k1: nat, k2: nat)
    requires
        parse_out_rel(c, po1, k1),
        parse_out_rel(c, po2, k2),
    ensures
        po1 == po2,
{
    let s0 = init_state(c);
    let i1 = iterate(c, s0, k1);
    let i2 = iterate(c, s0, k2);
    if crate::item_processor::settled(i1) && crate::item_processor::settled(i2) {
        crate::item_processor::lemma_traversal_deterministic(c, s0, k1, k2);
    } else if crate::item_processor::settled(i1) {
        lemma_iterate_stable(c, s0, k1, STEP_LIMIT as nat);
        assert(false);
    } else if crate::item_processor::settled(i2) {
        lemma_iterate_stable(c, s0, k2, STEP_LIMIT as nat);
        assert(false);
    }
}

/// Every completed parse hands back items sorted by the total lexicographic
/// order over (priority, name) sequences, and exactly the rendered
/// data-shape paths of the traversal's output — nothing added, nothing
/// dropped.
pub proof fn lemma_parse_items_sorted(c: Crate, po: ParseOut, k: nat)
    requires
        parse_out_rel(c, po, k),
        po is Done,
    ensures
        sorted_by_key(po->Done_items),
        match iterate(c, init_state(c), k) {
            StepOut::Go(s) => po->Done_items.to_multiset() == filtered(s.output).to_multiset(),
            StepOut::Fatal(..) => false,
        },
{
    match iterate(c, init_state(c), k) {
        StepOut::Go(s) => {
            lemma_sort_spec_sorted(filtered(s.output));
        },
        StepOut::Fatal(..) => {},
    }
}

/// Cycle safety: in any graph holding a module whose one child is a
/// wildcard import of the module itself, a traversal started at the module
/// settles after exactly two steps — it terminates — and its output is the
/// module's path followed by exactly one recursion-guard leaf.
pub proof fn lemma_cycle_safety(c: Crate, mid: ItemId, gid: ItemId, m: Item, g: Item, d: crate::graph::ImportData)
    requires
        lookup(c, mid) == Some(m),
        m.id == mid,
        m.inner is Module,
        m.inner->Module_items@ == seq![gid],
        lookup(c, gid) == Some(g),
        g.inner is Import,
        g.inner->Import_0 == d,
        d.glob,
        d.target == Some(mid),
    ensures
        ({
            let s0 = State {
                queue: seq![Entry { path: Seq::empty(), id: mid }],
                output: Seq::empty(),
                missing: Seq::empty(),
            };
            let fp = seq![mk_comp(m, None, None, false)];
            &&& crate::item_processor::settled(iterate(c, s0, 2))
            &&& iterate(c, s0, 2) == StepOut::Go(
                State {
                    queue: Seq::empty(),
                    output: seq![
                        fp,
                        fp.push(
                            mk_comp(
                                g,
                                Some(crate::intermediate_public_item::glob_wrap(d.source@)),
                                None,
                                false,
                            ),
                        ),
                    ],
                    missing: Seq::empty(),
                },
            )
        }),
{
    reveal_with_fuel(crate::item_processor::iterate, 3);
    let s0 = State {
        queue: seq![Entry { path: Seq::empty(), id: mid }],
        output: Seq::empty(),
        missing: Seq::empty(),
    };
    let fp = seq![mk_comp(m, None, None, false)];
    let s1 = State { queue: seq![Entry { path: fp, id: gid }], output: seq![fp], missing: Seq::empty() };
    assert(iterate(c, s0, 1) == crate::item_processor::step(c, s0));
    assert(crate::item_processor::step(c, s0) == StepOut::Go(s1)) by {
        assert(s0.queue.last() == (Entry { path: Seq::empty(), id: mid }));
        assert(!crate::item_processor::in_path(Seq::empty(), mid));
        assert(!crate::item_processor::stripped_fields(m));
        assert(crate::item_processor::children_of(m) == seq![gid]);
        assert(crate::item_processor::impls_of(m) =~= Seq::<ItemId>::empty());
        assert(crate::item_processor::finish_path(Seq::empty(), m, None, None) =~= fp);
        let rest = s0.queue.drop_last();
        assert(rest =~= Seq::<Entry>::empty());
        assert(rest + crate::item_processor::child_entries(fp, seq![gid])
            + crate::item_processor::child_entries(
            crate::item_processor::hide_all(fp),
            Seq::empty(),
        ) =~= seq![Entry { path: fp, id: gid }]);
        assert(Seq::<Seq<Comp>>::empty().push(fp) =~= seq![fp]);
        assert(crate::item_processor::step(c, s0) == StepOut::Go(
            State {
                queue: rest + crate::item_processor::child_entries(fp, seq![gid])
                    + crate::item_processor::child_entries(
                    crate::item_processor::hide_all(fp),
                    Seq::empty(),
                ),
                output: Seq::<Seq<Comp>>::empty().push(fp),
                missing: Seq::empty(),
            },
        ));
    }
    let guard = mk_comp(
        g,
        Some(crate::intermediate_public_item::glob_wrap(d.source@)),
        None,
        false,
    );
    let s2 = State { queue: Seq::empty(), output: seq![fp, fp.push(guard)], missing: Seq::empty() };
    assert(crate::item_processor::step(c, s1) == StepOut::Go(s2)) by {
        assert(s1.queue.last() == (Entry { path: fp, id: gid }));
        assert(fp[0].id == mid);
        assert(crate::item_processor::in_path(fp, mid));
        assert(!crate::item_processor::stripped_fields(g));
        assert(crate::item_processor::children_of(g) =~= Seq::<ItemId>::empty());
        assert(crate::item_processor::impls_of(g) =~= Seq::<ItemId>::empty());
        let rest = s1.queue.drop_last();
        assert(rest =~= Seq::<Entry>::empty());
        assert(crate::item_processor::finish_path(fp, g, Some(
            crate::intermediate_public_item::glob_wrap(d.source@),
        ), None) == fp.push(guard));
        assert(rest + crate::item_processor::child_entries(fp.push(guard), Seq::empty())
            + crate::item_processor::child_entries(
            crate::item_processor::hide_all(fp.push(guard)),
            Seq::empty(),
        ) =~= Seq::<Entry>::empty());
        assert(seq![fp].push(fp.push(guard)) =~= seq![fp, fp.push(guard)]);
    }
    assert(iterate(c, s0, 2) == crate::item_processor::step(c, iterate(c, s0, 1)->Go_0));
}

/// Tells whether one item sorts strictly below another.
fn is_less(a: &PublicItem, b: &PublicItem) -> (r: bool)
    ensures
        r == key_lt(a.model().key, b.model().key),
{
    let c = a.grouping_cmp(b);
    match c {
        Rel::Less => true,
        Rel::Equal => false,
        Rel::Greater => false,
    }
}

/// Parses a symbol graph into its public API and portable model: the marker
/// interfaces seed the traversal, the traversal drains its queue, the
/// finished paths of data-shape kinds are rendered and sorted by sortable
/// path, and each type alias's aliased type is normalized.  An item with
/// redacted fields fails the whole parse with the fields error naming it;
/// no partial result is returned.
#[verifier::loop_isolation(false)]
pub fn parse(crate_: &Crate) -> (r: Result<(PublicApi, ParsedData), ParseError>)
    ensures
        exists|k: nat| #[trigger] parse_out_rel(*crate_, parse_model(r), k),
{
    let ghost c = *crate_;
    let mut item_processor = ItemProcessor::new(crate_);
    let effect = effect_name_bytes();
    let effect_slots = effect_filter_bytes();
    add_items(crate_, &effect, &effect_slots, &mut item_processor);
    let app = app_name_bytes();
    let app_slots = app_filter_bytes();
    add_items(crate_, &app, &app_slots, &mut item_processor);
    proof {
        assert(item_processor.st() =~= init_state(c));
    }
    let run_res = item_processor.run();
    let ghost k = choose|k: nat| crate::item_processor::run_rel(
        c,
        init_state(c),
        item_processor.st(),
        run_res,
        k,
    );
    match run_res {
        Err(e) => {
            proof {
                match &e {
                    ParseError::InaccessibleFields { id, name } => {
                        assert(parse_out_rel(c, parse_model(Err::<(PublicApi, ParsedData),
                            ParseError>(e)), k));
                    },
                    ParseError::TraversalLimit => {
                        assert(parse_out_rel(c, parse_model(Err::<(PublicApi, ParsedData),
                            ParseError>(e)), k));
                    },
                }
            }
            Err(e)
        },
        Ok(()) => {
            let ghost sa = item_processor.st();
            let ghost outm = sa.output;
            let context = RenderingContext { crate_, id_to_items: item_processor.id_to_items() };
            let mut sorted_items: Vec<PublicItem> = Vec::new();
            let mut i: usize = 0;
            while i < item_processor.output.len()
                invariant
                    i <= item_processor.output@.len(),
                    item_processor.st() == sa,
                    sorted_items@.map_values(|p: PublicItem| p.model()) == sort_spec(
                        filtered(outm.take(i as int)),
                    ),
                decreases item_processor.output@.len() - i,
            {
                proof {
                    assert(outm.take(i + 1).drop_last() =~= outm.take(i as int));
                    assert(outm.take(i + 1).last() == item_processor.output@[i as int].model());
                }
                let it = &item_processor.output[i];
                if it.path().len() > 0 {
                    let t_item = it.item();
                    let keep: bool = match &t_item.inner {
                        ItemEnum::Union { .. } => true,
                        ItemEnum::Struct { .. } => true,
                        ItemEnum::StructField(..) => true,
                        ItemEnum::Enum { .. } => true,
                        ItemEnum::Variant(..) => true,
                        ItemEnum::Primitive { .. } => true,
                        ItemEnum::TypeAlias(..) => true,
                        ItemEnum::ForeignType => true,
                        ItemEnum::Constant => true,
                        _ => false,
                    };
                    proof {
                        assert(outm[i as int].last() == comp_of(it.path@.last()));
                        assert(keep == kind_keep(outm[i as int].last().kind));
                    }
                    if keep {
                        let x = PublicItem::from_intermediate_public_item(&context, it);
                        let ghost sortedm = sorted_items@.map_values(|p: PublicItem| p.model());
                        let mut pos: usize = sorted_items.len();
                        while pos > 0 && is_less(&x, &sorted_items[pos - 1])
                            invariant
                                pos <= sorted_items@.len(),
                                forall|q: int| pos <= q < sorted_items@.len() ==> key_lt(
                                    x.model().key,
                                    (#[trigger] sortedm[q]).key,
                                ),
                            decreases pos,
                        {
                            pos = pos - 1;
                        }
                        proof {
                            lemma_insert_split(sortedm, x.model(), pos as int);
                        }
                        sorted_items.insert(pos, x);
                        proof {
                            assert(sorted_items@.map_values(|p: PublicItem| p.model())
                                =~= sortedm.take(pos as int).push(x.model()) + sortedm.skip(
                                pos as int,
                            ));
                            assert(filtered(outm.take(i + 1)) =~= filtered(outm.take(
                                i as int,
                            )).push(PublicItem::render_spec(outm[i as int])));
                            let f2 = filtered(outm.take(i + 1));
                            assert(f2.drop_last() =~= filtered(outm.take(i as int)));
                            assert(f2.last() == PublicItem::render_spec(outm[i as int]));
                            assert(sort_spec(f2) == insert_sorted(
                                sort_spec(filtered(outm.take(i as int))),
                                PublicItem::render_spec(outm[i as int]),
                            ));
                            assert(x.model() == PublicItem::render_spec(outm[i as int]));
                        }
                    } else {
                        proof {
                            assert(filtered(outm.take(i + 1)) =~= filtered(outm.take(i as int)));
                        }
                    }
                } else {
                    proof {
                        assert(filtered(outm.take(i + 1)) =~= filtered(outm.take(i as int)));
                    }
                }
                i = i + 1;
            }
            proof {
                assert(outm.take(item_processor.output@.len() as int) =~= outm);
            }
            let mut aliases: Vec<RustTypeAlias> = Vec::new();
            let mut i2: usize = 0;
            while i2 < item_processor.output.len()
                invariant
                    i2 <= item_processor.output@.len(),
                    item_processor.st() == sa,
                    aliases@.map_values(|a: RustTypeAlias| (a.id.id, a.ty.model()))
                        == aliases_spec(outm.take(i2 as int)),
                decreases item_processor.output@.len() - i2,
            {
                proof {
                    assert(outm.take(i2 + 1).drop_last() =~= outm.take(i2 as int));
                    assert(outm.take(i2 + 1).last() == item_processor.output@[i2 as int].model());
                }
                let it = &item_processor.output[i2];
                if it.path().len() > 0 {
                    let t_item = it.item();
                    proof {
                        assert(outm[i2 as int].last() == comp_of(it.path@.last()));
                    }
                    match &t_item.inner {
                        ItemEnum::TypeAlias(t) => {
                            match normalize_type(t) {
                                Ok(Some(ir)) => {
                                    let alias = RustTypeAlias {
                                        id: Id::new(t_item.id),
                                        generic_types: Vec::new(),
                                        ty: ir,
                                        comments: Vec::new(),
                                    };
                                    aliases.push(alias);
                                    proof {
                                        assert(aliases@.map_values(
                                            |a: RustTypeAlias| (a.id.id, a.ty.model()),
                                        ) =~= aliases_spec(outm.take(i2 as int)) + alias_of(
                                            outm[i2 as int],
                                        ));
                                        assert(aliases_spec(outm.take(i2 + 1)) =~= aliases_spec(
                                            outm.take(i2 as int),
                                        ) + alias_of(outm[i2 as int]));
                                    }
                                },
                                _ => {
                                    proof {
                                        assert(alias_of(outm[i2 as int]) =~= Seq::<(
                                            ItemId,
                                            RustTy,
                                        )>::empty());
                                        assert(aliases_spec(outm.take(i2 + 1)) =~= aliases_spec(
                                            outm.take(i2 as int),
                                        ));
                                    }
                                },
                            }
                        },
                        _ => {
                            proof {
                                assert(alias_of(outm[i2 as int]) =~= Seq::<(ItemId, RustTy)>::empty());
                                assert(aliases_spec(outm.take(i2 + 1)) =~= aliases_spec(outm.take(
                                    i2 as int,
                                )));
                            }
                        },
                    }
                } else {
                    proof {
                        assert(alias_of(outm[i2 as int]) =~= Seq::<(ItemId, RustTy)>::empty());
                        assert(aliases_spec(outm.take(i2 + 1)) =~= aliases_spec(outm.take(
                            i2 as int,
                        )));
                    }
                }
                i2 = i2 + 1;
            }
            proof {
                assert(outm.take(item_processor.output@.len() as int) =~= outm);
            }
            let missing_item_ids = item_processor.crate_.missing_item_ids();
            let public_api = PublicApi { items: sorted_items, missing_item_ids };
            let parsed_data = ParsedData { structs: Vec::new(), enums: Vec::new(), aliases };
            let result: Result<(PublicApi, ParsedData), ParseError> = Ok((public_api, parsed_data));
            proof {
                assert(parse_out_rel(c, parse_model(result), k));
            }
            result
        },
    }
}

} // verus!
