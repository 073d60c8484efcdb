//! The work-queue traversal engine: takes one id at a time, expands items
//! into root-to-item paths, inlines re-exports, prunes implementation noise
//! and breaks cycles.

use vstd::prelude::*;
use crate::graph::Crate;
use crate::graph::CrateWrapper;
use crate::graph::ImplData;
use crate::graph::ImportData;
use crate::graph::Item;
use crate::graph::ItemEnum;
use crate::graph::ItemId;
use crate::graph::RawType;
use crate::graph::StructKind;
use crate::graph::VariantKind;
use crate::graph::lookup;
use crate::intermediate_public_item::Comp;
use crate::intermediate_public_item::IntermediatePublicItem;
use crate::intermediate_public_item::NameOverride;
use crate::intermediate_public_item::NameableItem;
use crate::intermediate_public_item::PathComponent;
use crate::intermediate_public_item::comp_of;
use crate::intermediate_public_item::declared_or_empty;
use crate::intermediate_public_item::glob_wrap;
use crate::intermediate_public_item::guard_wrap;
use crate::intermediate_public_item::import_source_of;
use crate::intermediate_public_item::kind_of;
use crate::intermediate_public_item::data_ty_of;
use crate::intermediate_public_item::opt_name;
use crate::intermediate_public_item::path_model;
use crate::text::bytes_eq;
use crate::text::clone_bytes;

verus! {

// --- Implementation-block classification ------------------------------------

/// How an implementation block relates to the interface it declares.
#[derive(Clone, Copy, PartialEq, Eq, Structural, Debug)]
pub enum ImplKind {
    /// A block without an interface.
    Inherent,
    /// An ordinary interface implementation written by hand.
    Trait,
    /// A block a derive produced.
    AutoDerived,
    /// A compiler-synthesized auto-trait block.
    AutoTrait,
    /// A blanket implementation.
    Blanket,
}

/// The attribute string that marks a derive-produced block.
pub open spec fn auto_derived_marker() -> Seq<u8> {
    seq![
        '#' as u8,
        '[' as u8,
        'a' as u8,
        'u' as u8,
        't' as u8,
        'o' as u8,
        'm' as u8,
        'a' as u8,
        't' as u8,
        'i' as u8,
        'c' as u8,
        'a' as u8,
        'l' as u8,
        'l' as u8,
        'y' as u8,
        '_' as u8,
        'd' as u8,
        'e' as u8,
        'r' as u8,
        'i' as u8,
        'v' as u8,
        'e' as u8,
        'd' as u8,
        ']' as u8,
    ]
}

/// Tells whether an attribute list carries the derive marker.
pub open spec fn is_auto_derived(attrs: Seq<Vec<u8>>) -> bool {
    exists|i: int| 0 <= i < attrs.len() && (#[trigger] attrs[i])@ == auto_derived_marker()
}

/// The classification of an implementation block, with its fixed precedence:
/// synthetic without blanket is auto-trait; blanket without synthetic is
/// blanket; else the derive marker makes it auto-derived; else a block
/// without an interface is inherent; else it is an ordinary interface block.
pub open spec fn impl_kind_of(item: Item, d: ImplData) -> ImplKind {
    if d.synthetic && !d.blanket {
        ImplKind::AutoTrait
    } else if !d.synthetic && d.blanket {
        ImplKind::Blanket
    } else if is_auto_derived(item.attrs@) {
        ImplKind::AutoDerived
    } else if d.trait_ is None {
        ImplKind::Inherent
    } else {
        ImplKind::Trait
    }
}

/// Tells whether a classification keeps the block in the traversal.
pub open spec fn kind_active(k: ImplKind) -> bool {
    k is Inherent || k is Trait
}

/// Builds the derive-marker attribute bytes.
fn auto_derived_bytes() -> (r: Vec<u8>)
    ensures
        r@ == auto_derived_marker(),
{
    let mut r: Vec<u8> = Vec::new();
    r.push('#' as u8);
    r.push('[' as u8);
    r.push('a' as u8);
    r.push('u' as u8);
    r.push('t' as u8);
    r.push('o' as u8);
    r.push('m' as u8);
    r.push('a' as u8);
    r.push('t' as u8);
    r.push('i' as u8);
    r.push('c' as u8);
    r.push('a' as u8);
    r.push('l' as u8);
    r.push('l' as u8);
    r.push('y' as u8);
    r.push('_' as u8);
    r.push('d' as u8);
    r.push('e' as u8);
    r.push('r' as u8);
    r.push('i' as u8);
    r.push('v' as u8);
    r.push('e' as u8);
    r.push('d' as u8);
    r.push(']' as u8);
    assert(r@ =~= auto_derived_marker());
    r
}

impl ImplKind {
    /// Classifies an implementation block from its item and payload.
    pub fn from(impl_item: &Item, impl_: &ImplData) -> (r: ImplKind)
        ensures
            r == impl_kind_of(*impl_item, *impl_),
    {
        if impl_.synthetic && !impl_.blanket {
            return ImplKind::AutoTrait;
        }
        if !impl_.synthetic && impl_.blanket {
            return ImplKind::Blanket;
        }
        let marker = auto_derived_bytes();
        let mut i: usize = 0;
        let mut derived = false;
        while i < impl_item.attrs.len()
            invariant
                i <= impl_item.attrs@.len(),
                derived ==> is_auto_derived(impl_item.attrs@),
                !derived ==> forall|j: int| 0 <= j < i ==> (#[trigger] impl_item.attrs@[j])@
                    != auto_derived_marker(),
                marker@ == auto_derived_marker(),
            decreases impl_item.attrs@.len() - i,
        {
            if bytes_eq(&impl_item.attrs[i], &marker) {
                derived = true;
            }
            i = i + 1;
        }
        if derived {
            ImplKind::AutoDerived
        } else {
            assert(!is_auto_derived(impl_item.attrs@));
            match &impl_.trait_ {
                None => ImplKind::Inherent,
                Some(_) => ImplKind::Trait,
            }
        }
    }

    /// Tells whether the block stays in the traversal; auto-trait, blanket
    /// and derive-produced blocks are pruned as noise.
    pub fn is_active(&self) -> (r: bool)
        ensures
            r == kind_active(*self),
    {
        match self {
            ImplKind::Blanket => false,
            ImplKind::AutoTrait => false,
            ImplKind::AutoDerived => false,
            ImplKind::Inherent => true,
            ImplKind::Trait => true,
        }
    }
}

// --- Sort priorities ---------------------------------------------------------

/// The numeric sort priority of an item, by kind.  Sorting on (priority,
/// name) groups related kinds; hand-written and derive-produced interface
/// blocks share one group so switching between them causes no reordering.
pub open spec fn prio_of(item: Item) -> u8 {
    match item.inner {
        ItemEnum::OuterCrate => 1,
        ItemEnum::Import(..) => 2,
        ItemEnum::Primitive { .. } => 3,
        ItemEnum::Module { .. } => 4,
        ItemEnum::Macro => 5,
        ItemEnum::ProcMacro => 6,
        ItemEnum::Enum { .. } => 7,
        ItemEnum::Union { .. } => 8,
        ItemEnum::Struct { .. } => 9,
        ItemEnum::StructField(..) => 10,
        ItemEnum::Variant(..) => 11,
        ItemEnum::Constant => 12,
        ItemEnum::Static => 13,
        ItemEnum::Trait { .. } => 14,
        ItemEnum::AssocType { .. } => 15,
        ItemEnum::AssocConst => 16,
        ItemEnum::Function => 17,
        ItemEnum::TypeAlias(..) => 19,
        ItemEnum::Impl(d) => match impl_kind_of(item, d) {
            ImplKind::Inherent => 20,
            ImplKind::Trait => 21,
            ImplKind::AutoDerived => 21,
            ImplKind::AutoTrait => 23,
            ImplKind::Blanket => 24,
        },
        ItemEnum::ForeignType => 25,
        ItemEnum::OpaqueTy => 26,
        ItemEnum::TraitAlias => 27,
    }
}

/// Computes the sort priority of an item.
pub fn sorting_prefix(item: &Item) -> (r: u8)
    ensures
        r == prio_of(*item),
{
    match &item.inner {
        ItemEnum::OuterCrate => 1,
        ItemEnum::Import(..) => 2,
        ItemEnum::Primitive { .. } => 3,
        ItemEnum::Module { .. } => 4,
        ItemEnum::Macro => 5,
        ItemEnum::ProcMacro => 6,
        ItemEnum::Enum { .. } => 7,
        ItemEnum::Union { .. } => 8,
        ItemEnum::Struct { .. } => 9,
        ItemEnum::StructField(..) => 10,
        ItemEnum::Variant(..) => 11,
        ItemEnum::Constant => 12,
        ItemEnum::Static => 13,
        ItemEnum::Trait { .. } => 14,
        ItemEnum::AssocType { .. } => 15,
        ItemEnum::AssocConst => 16,
        ItemEnum::Function => 17,
        ItemEnum::TypeAlias(..) => 19,
        ItemEnum::Impl(d) => match ImplKind::from(item, d) {
            ImplKind::Inherent => 20,
            ImplKind::Trait => 21,
            ImplKind::AutoDerived => 21,
            ImplKind::AutoTrait => 23,
            ImplKind::Blanket => 24,
        },
        ItemEnum::ForeignType => 25,
        ItemEnum::OpaqueTy => 26,
        ItemEnum::TraitAlias => 27,
    }
}

// --- Structural children and implementation lists ---------------------------

/// The present ids of a positional field list.
pub open spec fn flatten_opts(s: Seq<Option<ItemId>>) -> Seq<ItemId>
    decreases s.len(),
{
    if s.len() == 0 {
        Seq::empty()
    } else {
        flatten_opts(s.drop_last()) + match s.last() {
            Some(id) => seq![id],
            None => Seq::empty(),
        }
    }
}

/// The structural children of an item: module members, struct and variant
/// fields, enum variants, interface and implementation members.
pub open spec fn children_of(item: Item) -> Seq<ItemId> {
    match item.inner {
        ItemEnum::Module { items } => items@,
        ItemEnum::Union { fields, .. } => fields@,
        ItemEnum::Struct { kind: StructKind::Plain { fields, .. }, .. } => fields@,
        ItemEnum::Struct { kind: StructKind::Tuple(fields), .. } => flatten_opts(fields@),
        ItemEnum::Struct { kind: StructKind::Unit, .. } => Seq::empty(),
        ItemEnum::Variant(VariantKind::Struct { fields, .. }) => fields@,
        ItemEnum::Variant(VariantKind::Tuple(fields)) => flatten_opts(fields@),
        ItemEnum::Variant(VariantKind::Plain) => Seq::empty(),
        ItemEnum::Enum { variants, .. } => variants@,
        ItemEnum::Trait { items, .. } => items@,
        ItemEnum::Impl(d) => d.items@,
        _ => Seq::empty(),
    }
}

/// The implementation blocks attached to an item.
pub open spec fn impls_of(item: Item) -> Seq<ItemId> {
    match item.inner {
        ItemEnum::Union { impls, .. } => impls@,
        ItemEnum::Struct { impls, .. } => impls@,
        ItemEnum::Enum { impls, .. } => impls@,
        ItemEnum::Primitive { impls, .. } => impls@,
        ItemEnum::Trait { implementations, .. } => implementations@,
        _ => Seq::empty(),
    }
}

/// Copies an id list.
fn copy_ids(v: &Vec<ItemId>) -> (r: Vec<ItemId>)
    ensures
        r@ == v@,
{
    let mut r: Vec<ItemId> = Vec::new();
    let mut i: usize = 0;
    while i < v.len()
        invariant
            i <= v.len(),
            r@ =~= v@.take(i as int),
        decreases v.len() - i,
    {
        r.push(v[i]);
        i = i + 1;
    }
    assert(r@ =~= v@);
    r
}

/// Copies the present ids of a positional field list.
fn copy_opt_ids(v: &Vec<Option<ItemId>>) -> (r: Vec<ItemId>)
    ensures
        r@ == flatten_opts(v@),
{
    let mut r: Vec<ItemId> = Vec::new();
    let mut i: usize = 0;
    while i < v.len()
        invariant
            i <= v.len(),
            r@ =~= flatten_opts(v@.take(i as int)),
        decreases v.len() - i,
    {
        proof {
            assert(v@.take(i + 1).drop_last() =~= v@.take(i as int));
            assert(v@.take(i + 1).last() == v@[i as int]);
        }
        match &v[i] {
            Some(id) => r.push(*id),
            None => (),
        }
        i = i + 1;
    }
    assert(v@.take(v@.len() as int) =~= v@);
    r
}

/// Collects the structural children of an item.
pub fn children_for_item(item: &Item) -> (r: Vec<ItemId>)
    ensures
        r@ == children_of(*item),
{
    match &item.inner {
        ItemEnum::Module { items } => copy_ids(items),
        ItemEnum::Union { fields, .. } => copy_ids(fields),
        ItemEnum::Struct { kind: StructKind::Plain { fields, .. }, .. } => copy_ids(fields),
        ItemEnum::Struct { kind: StructKind::Tuple(fields), .. } => copy_opt_ids(fields),
        ItemEnum::Struct { kind: StructKind::Unit, .. } => Vec::new(),
        ItemEnum::Variant(VariantKind::Struct { fields, .. }) => copy_ids(fields),
        ItemEnum::Variant(VariantKind::Tuple(fields)) => copy_opt_ids(fields),
        ItemEnum::Variant(VariantKind::Plain) => Vec::new(),
        ItemEnum::Enum { variants, .. } => copy_ids(variants),
        ItemEnum::Trait { items, .. } => copy_ids(items),
        ItemEnum::Impl(d) => copy_ids(&d.items),
        _ => Vec::new(),
    }
}

/// The implementation blocks attached to an item, where its kind carries
/// them.
pub fn impls_for_item(item: &Item) -> (r: Option<&Vec<ItemId>>)
    ensures
        match r {
            Some(v) => v@ == impls_of(*item),
            None => impls_of(*item) == Seq::<ItemId>::empty(),
        },
{
    match &item.inner {
        ItemEnum::Union { impls, .. } => Some(impls),
        ItemEnum::Struct { impls, .. } => Some(impls),
        ItemEnum::Enum { impls, .. } => Some(impls),
        ItemEnum::Primitive { impls, .. } => Some(impls),
        ItemEnum::Trait { implementations, .. } => Some(implementations),
        _ => None,
    }
}

// --- The traversal as a state machine ---------------------------------------

/// One unit of work: the processed path to an item, and the id of the item.
#[verifier::ext_equal]
pub ghost struct Entry {
    pub path: Seq<Comp>,
    pub id: ItemId,
}

/// The whole traversal state: the work queue (its front at the sequence's
/// back), the finished paths in output order, and the recorded missing ids.
#[verifier::ext_equal]
pub ghost struct State {
    pub queue: Seq<Entry>,
    pub output: Seq<Seq<Comp>>,
    pub missing: Seq<ItemId>,
}

/// What one step of the traversal leaves behind: the next state, or the
/// state at the first unrecoverable condition with the offending item's id
/// and name.
#[verifier::ext_equal]
pub ghost enum StepOut {
    Go(State),
    Fatal(State, ItemId, Seq<u8>),
}

/// Tells whether an id stands among the components of a path.
pub open spec fn in_path(p: Seq<Comp>, id: ItemId) -> bool {
    exists|i: int| 0 <= i < p.len() && (#[trigger] p[i]).id == id
}

/// The component a processed item contributes to its path.
pub open spec fn mk_comp(
    item: Item,
    ov: Option<Seq<u8>>,
    ty: Option<RawType>,
    hide: bool,
) -> Comp {
    Comp {
        id: item.id,
        declared_name: opt_name(item.name),
        override_name: ov,
        prio: prio_of(item),
        kind: kind_of(item.inner),
        data_ty: data_ty_of(item.inner),
        step_ty: ty,
        hide,
    }
}

/// A path completed with its target item.
pub open spec fn finish_path(
    p: Seq<Comp>,
    item: Item,
    ov: Option<Seq<u8>>,
    ty: Option<RawType>,
) -> Seq<Comp> {
    p.push(mk_comp(item, ov, ty, false))
}

/// Work entries for a list of ids under one path.
pub open spec fn child_entries(path: Seq<Comp>, ids: Seq<ItemId>) -> Seq<Entry> {
    ids.map_values(|id: ItemId| Entry { path, id })
}

/// A path with every component's hide flag forced on.
pub open spec fn hide_all(p: Seq<Comp>) -> Seq<Comp> {
    p.map_values(
        |c: Comp| Comp {
            id: c.id,
            declared_name: c.declared_name,
            override_name: c.override_name,
            prio: c.prio,
            kind: c.kind,
            data_ty: c.data_ty,
            step_ty: c.step_ty,
            hide: true,
        },
    )
}

/// Tells whether the graph reports an item's fields redacted: a plain struct
/// or a struct-shaped variant with the stripped flag set.
pub open spec fn stripped_fields(item: Item) -> bool {
    match item.inner {
        ItemEnum::Struct { kind: StructKind::Plain { fields_stripped, .. }, .. } => fields_stripped,
        ItemEnum::Variant(VariantKind::Struct { fields_stripped, .. }) => fields_stripped,
        _ => false,
    }
}

/// Processes one item under a path: an item with redacted fields aborts the
/// whole run; otherwise the path is completed, the item's structural
/// children are enqueued under the completed path, its implementation blocks
/// are enqueued under the same path with every component hidden, and the
/// completed path joins the output.
pub open spec fn spec_process_item(
    path: Seq<Comp>,
    item: Item,
    ov: Option<Seq<u8>>,
    ty: Option<RawType>,
    s: State,
) -> StepOut {
    if stripped_fields(item) {
        StepOut::Fatal(s, item.id, declared_or_empty(opt_name(item.name)))
    } else {
        let fp = finish_path(path, item, ov, ty);
        StepOut::Go(
            State {
                queue: s.queue + child_entries(fp, children_of(item)) + child_entries(
                    hide_all(fp),
                    impls_of(item),
                ),
                output: s.output.push(fp),
                missing: s.missing,
            },
        )
    }
}

/// The recursion-guard leaf an item in its own ancestor path contributes.
pub open spec fn guard_leaf(path: Seq<Comp>, item: Item) -> Seq<Comp> {
    path.push(
        mk_comp(item, Some(guard_wrap(declared_or_empty(opt_name(item.name)))), None, false),
    )
}

/// Processes an item unless its id already stands in the path; recursion
/// yields exactly one terminal guard leaf and nothing is enqueued.
pub open spec fn spec_process_guarded(
    path: Seq<Comp>,
    item: Item,
    ov: Option<Seq<u8>>,
    s: State,
) -> StepOut {
    if in_path(path, item.id) {
        StepOut::Go(
            State { queue: s.queue, output: s.output.push(guard_leaf(path, item)), missing: s.missing },
        )
    } else {
        spec_process_item(path, item, ov, None, s)
    }
}

/// Processes a plain import: the target is resolved and processed under the
/// import's local name unless resolving would close a cycle; an unresolved
/// target leaves the import itself as a leaf, and a failed lookup is
/// recorded.
pub open spec fn spec_process_import(
    c: Crate,
    path: Seq<Comp>,
    item: Item,
    d: ImportData,
    s: State,
) -> StepOut {
    match d.target {
        Some(t) => if in_path(path, t) {
            spec_process_item(path, item, Some(d.name@), None, s)
        } else {
            match lookup(c, t) {
                Some(ti) => spec_process_item(path, ti, Some(d.name@), None, s),
                None => spec_process_item(
                    path,
                    item,
                    Some(d.name@),
                    None,
                    State { queue: s.queue, output: s.output, missing: s.missing.push(t) },
                ),
            }
        },
        None => spec_process_item(path, item, Some(d.name@), None, s),
    }
}

/// Processes a wildcard import: a resolved module that is no path ancestor
/// has all its children enqueued under the current path and the import
/// contributes no step of its own; otherwise the import falls back to an
/// opaque leaf, and a failed lookup is recorded.
pub open spec fn spec_process_glob(
    c: Crate,
    path: Seq<Comp>,
    item: Item,
    d: ImportData,
    s: State,
) -> StepOut {
    match d.target {
        Some(t) => if in_path(path, t) {
            spec_process_item(path, item, Some(glob_wrap(d.source@)), None, s)
        } else {
            match lookup(c, t) {
                Some(ti) => match ti.inner {
                    ItemEnum::Module { items } => StepOut::Go(
                        State {
                            queue: s.queue + child_entries(path, items@),
                            output: s.output,
                            missing: s.missing,
                        },
                    ),
                    _ => spec_process_item(path, item, Some(glob_wrap(d.source@)), None, s),
                },
                None => spec_process_item(
                    path,
                    item,
                    Some(glob_wrap(d.source@)),
                    None,
                    State { queue: s.queue, output: s.output, missing: s.missing.push(t) },
                ),
            }
        },
        None => spec_process_item(path, item, Some(glob_wrap(d.source@)), None, s),
    }
}

/// Dispatches one resolved item: imports are inlined, implementation blocks
/// are classified and the noisy ones dropped, and every other kind runs
/// through the recursion guard.
pub open spec fn spec_process_any(c: Crate, path: Seq<Comp>, item: Item, s: State) -> StepOut {
    match item.inner {
        ItemEnum::Import(d) => if d.glob {
            spec_process_glob(c, path, item, d, s)
        } else {
            spec_process_import(c, path, item, d, s)
        },
        ItemEnum::Impl(d) => if kind_active(impl_kind_of(item, d)) {
            spec_process_item(path, item, None, Some(d.for_), s)
        } else {
            StepOut::Go(s)
        },
        _ => spec_process_guarded(path, item, None, s),
    }
}

/// One step of the traversal: the front work entry is taken, its id is
/// looked up — a failed lookup records the id and drops the entry — and the
/// resolved item is dispatched.  A state without work is left as it stands.
pub open spec fn step(c: Crate, s: State) -> StepOut {
    if s.queue.len() == 0 {
        StepOut::Go(s)
    } else {
        let e = s.queue.last();
        let s1 = State { queue: s.queue.drop_last(), output: s.output, missing: s.missing };
        match lookup(c, e.id) {
            None => StepOut::Go(
                State { queue: s1.queue, output: s1.output, missing: s1.missing.push(e.id) },
            ),
            Some(item) => spec_process_any(c, e.path, item, s1),
        }
    }
}

/// `k` steps of the traversal; a fatal outcome absorbs every later step.
pub open spec fn iterate(c: Crate, s0: State, k: nat) -> StepOut
    decreases k,
{
    if k == 0 {
        StepOut::Go(s0)
    } else {
        match iterate(c, s0, (k - 1) as nat) {
            StepOut::Go(s) => step(c, s),
            f => f,
        }
    }
}

/// Tells whether an outcome is final: a drained queue, or a fatal abort.
pub open spec fn settled(so: StepOut) -> bool {
    match so {
        StepOut::Go(s) => s.queue.len() == 0,
        StepOut::Fatal(..) => true,
    }
}

/// A settled outcome stays as it is under further steps.
pub proof fn lemma_iterate_stable(c: Crate, s0: State, k1: nat, k2: nat)
    requires
        k1 <= k2,
        settled(iterate(c, s0, k1)),
    ensures
        iterate(c, s0, k2) == iterate(c, s0, k1),
    decreases k2,
{
    if k2 > k1 {
        lemma_iterate_stable(c, s0, k1, (k2 - 1) as nat);
    }
}

/// Determinism of the traversal: on one graph and one start state, any two
/// settled outcomes are the same, whatever number of steps reached them.
/// Identical snapshots therefore yield identical traversal results.
pub proof fn lemma_traversal_deterministic(c: Crate, s0: State, k1: nat, k2: nat)
    requires
        settled(iterate(c, s0, k1)),
        settled(iterate(c, s0, k2)),
    ensures
        iterate(c, s0, k1) == iterate(c, s0, k2),
{
    if k1 <= k2 {
        lemma_iterate_stable(c, s0, k1, k2);
    } else {
        lemma_iterate_stable(c, s0, k2, k1);
    }
}

/// Noise pruning: a front entry that resolves to a blanket, auto-trait or
/// derive-produced implementation block is dropped whole — the step takes
/// the entry off the queue, enqueues nothing, and adds nothing to the
/// output.
pub proof fn lemma_noise_pruning(c: Crate, s: State, item: Item, d: ImplData)
    requires
        s.queue.len() > 0,
        lookup(c, s.queue.last().id) == Some(item),
        item.inner == ItemEnum::Impl(d),
        !kind_active(impl_kind_of(item, d)),
    ensures
        step(c, s) == StepOut::Go(
            State { queue: s.queue.drop_last(), output: s.output, missing: s.missing },
        ),
{
}

/// Cycle safety at one step: a front entry that resolves to an item already
/// on its own ancestor path — any kind but an import or an implementation
/// block — contributes exactly one terminal recursion-guard leaf, and
/// nothing is enqueued.
pub proof fn lemma_recursion_guard(c: Crate, s: State, item: Item)
    requires
        s.queue.len() > 0,
        lookup(c, s.queue.last().id) == Some(item),
        !(item.inner is Import),
        !(item.inner is Impl),
        in_path(s.queue.last().path, item.id),
    ensures
        step(c, s) == StepOut::Go(
            State {
                queue: s.queue.drop_last(),
                output: s.output.push(guard_leaf(s.queue.last().path, item)),
                missing: s.missing,
            },
        ),
{
}

// --- The traversal engine ---------------------------------------------------

/// Why a run of the traversal aborted.
#[derive(Debug)]
pub enum ParseError {
    /// A data-bearing item whose fields the graph reports redacted; no
    /// faithful portable model exists, so the whole run aborts with the
    /// offending item's id and declared name.
    InaccessibleFields { id: ItemId, name: Vec<u8> },
    /// The run passed the fixed step budget without draining its queue.
    TraversalLimit,
}

/// The step budget of one run.
pub const STEP_LIMIT: u64 = 0x1000_0000_0000_0000;

/// One unit of work: the processed path to an item, and the id of the item
/// to process.
pub struct UnprocessedItem<'c> {
    pub parent_path: Vec<PathComponent<'c>>,
    pub id: ItemId,
}

/// The model of one unit of work.
pub open spec fn entry_of(u: UnprocessedItem) -> Entry {
    Entry { path: path_model(u.parent_path@), id: u.id }
}

/// The name-override model an override choice gives an item.
pub open spec fn override_model(item: Item, ov: Option<NameOverride>) -> Option<Seq<u8>> {
    match ov {
        None => None,
        Some(NameOverride::Renamed(n)) => Some(n@),
        Some(NameOverride::Guard) => Some(guard_wrap(declared_or_empty(opt_name(item.name)))),
        Some(NameOverride::GlobFallback) => Some(glob_wrap(import_source_of(item.inner))),
    }
}

/// The model of an optional step type.
pub open spec fn opt_ty_model(t: Option<&RawType>) -> Option<RawType> {
    match t {
        Some(x) => Some(*x),
        None => None,
    }
}

impl<'c> UnprocessedItem<'c> {
    /// Completes this unit's path with its target item.
    pub fn finish(
        self,
        item: &'c Item,
        overridden_name: Option<NameOverride>,
        type_: Option<&'c RawType>,
    ) -> (r: IntermediatePublicItem<'c>)
        ensures
            r.model() == finish_path(
                path_model(self.parent_path@),
                *item,
                override_model(*item, overridden_name),
                opt_ty_model(type_),
            ),
    {
        let ghost ov = override_model(*item, overridden_name);
        let ghost ty = opt_ty_model(type_);
        let mut path = self.parent_path;
        let pc = PathComponent {
            item: NameableItem { item, overridden_name, sorting_prefix: sorting_prefix(item) },
            type_,
            hide: false,
        };
        proof {
            assert(comp_of(pc) == mk_comp(*item, ov, ty, false));
        }
        path.push(pc);
        let r = IntermediatePublicItem::new(path);
        proof {
            assert(r.model() =~= finish_path(path_model(self.parent_path@), *item, ov, ty));
        }
        r
    }
}

/// Tells whether an id stands among a path's components.
pub fn path_has_id(p: &Vec<PathComponent<'_>>, id: ItemId) -> (r: bool)
    ensures
        r == in_path(path_model(p@), id),
{
    let mut i: usize = 0;
    while i < p.len()
        invariant
            i <= p@.len(),
            forall|j: int| 0 <= j < i ==> (#[trigger] path_model(p@)[j]).id != id,
        decreases p@.len() - i,
    {
        if p[i].item.item.id == id {
            assert(path_model(p@)[i as int].id == id);
            return true;
        }
        assert(path_model(p@)[i as int].id != id);
        i = i + 1;
    }
    false
}

/// Processes work units to find more work units and the path to each item.
/// The front of the work queue sits at the vector's back, so a unit's
/// structural children are fully expanded before its siblings.
pub struct ItemProcessor<'c> {
    /// The graph, with the record of failed lookups.
    pub crate_: CrateWrapper<'c>,
    /// The work queue; the front is the vector's back.
    pub work_queue: Vec<UnprocessedItem<'c>>,
    /// The finished paths, in the order the traversal completed them.
    pub output: Vec<IntermediatePublicItem<'c>>,
}

impl<'c> ItemProcessor<'c> {
    /// The traversal state this processor holds.
    pub open spec fn st(self) -> State {
        State {
            queue: self.work_queue@.map_values(|u: UnprocessedItem| entry_of(u)),
            output: self.output@.map_values(|x: IntermediatePublicItem| x.model()),
            missing: self.crate_.missing(),
        }
    }

    /// The graph the processor walks.
    pub open spec fn graph(self) -> Crate {
        *self.crate_.crate_
    }

    pub fn new(crate_: &'c Crate) -> (r: Self)
        ensures
            r.graph() == *crate_,
            r.st() == (State {
                queue: Seq::<Entry>::empty(),
                output: Seq::<Seq<Comp>>::empty(),
                missing: Seq::<ItemId>::empty(),
            }),
    {
        let r = ItemProcessor {
            crate_: CrateWrapper::new(crate_),
            work_queue: Vec::new(),
            output: Vec::new(),
        };
        proof {
            assert(r.st() =~= (State {
                queue: Seq::<Entry>::empty(),
                output: Seq::<Seq<Comp>>::empty(),
                missing: Seq::<ItemId>::empty(),
            }));
        }
        r
    }

    /// Adds one unit to the front of the work queue.
    pub fn add_to_work_queue(&mut self, parent_path: Vec<PathComponent<'c>>, id: ItemId)
        ensures
            final(self).graph() == old(self).graph(),
            final(self).st() == (State {
                queue: old(self).st().queue.push(Entry { path: path_model(parent_path@), id }),
                output: old(self).st().output,
                missing: old(self).st().missing,
            }),
    {
        self.work_queue.push(UnprocessedItem { parent_path, id });
        proof {
            assert(self.st().queue =~= old(self).st().queue.push(
                Entry { path: path_model(parent_path@), id },
            ));
            assert(self.st() =~= (State {
                queue: old(self).st().queue.push(Entry { path: path_model(parent_path@), id }),
                output: old(self).st().output,
                missing: old(self).st().missing,
            }));
        }
    }

    /// Looks an id up unless it already stands in the path; a failed lookup
    /// is recorded, a lookup skipped for cycle safety is not.
    fn get_item_if_not_in_path(
        &mut self,
        parent_path: &Vec<PathComponent<'c>>,
        id: ItemId,
    ) -> (r: Option<&'c Item>)
        ensures
            final(self).graph() == old(self).graph(),
            final(self).st().queue == old(self).st().queue,
            final(self).st().output == old(self).st().output,
            in_path(path_model(parent_path@), id) ==> r is None && final(self).st().missing == old(
                self,
            ).st().missing,
            !in_path(path_model(parent_path@), id) ==> match lookup(old(self).graph(), id) {
                Some(it) => r is Some && *r->Some_0 == it && final(self).st().missing == old(
                    self,
                ).st().missing,
                None => r is None && final(self).st().missing == old(self).st().missing.push(id),
            },
    {
        if path_has_id(parent_path, id) {
            return None;
        }
        self.crate_.get_item(id)
    }

    /// Processes one item under a path: aborts on redacted fields, else
    /// completes the path, enqueues the item's children under it, enqueues
    /// its implementation blocks under the hidden path, and appends the
    /// completed path to the output.
    #[verifier::loop_isolation(false)]
    fn process_item_for_type(
        &mut self,
        unprocessed_item: UnprocessedItem<'c>,
        item: &'c Item,
        overridden_name: Option<NameOverride>,
        type_: Option<&'c RawType>,
    ) -> (r: Result<(), ParseError>)
        ensures
            final(self).graph() == old(self).graph(),
            match r {
                Ok(_) => spec_process_item(
                    path_model(unprocessed_item.parent_path@),
                    *item,
                    override_model(*item, overridden_name),
                    opt_ty_model(type_),
                    old(self).st(),
                ) == StepOut::Go(final(self).st()),
                Err(ParseError::InaccessibleFields { id, name }) => spec_process_item(
                    path_model(unprocessed_item.parent_path@),
                    *item,
                    override_model(*item, overridden_name),
                    opt_ty_model(type_),
                    old(self).st(),
                ) == StepOut::Fatal(final(self).st(), id, name@),
                Err(ParseError::TraversalLimit) => false,
            },
    {
        let ghost path = path_model(unprocessed_item.parent_path@);
        let ghost ov = override_model(*item, overridden_name);
        let ghost ty = opt_ty_model(type_);
        let is_stripped: bool = match &item.inner {
            ItemEnum::Struct { kind: StructKind::Plain { fields_stripped, .. }, .. } => *fields_stripped,
            ItemEnum::Variant(VariantKind::Struct { fields_stripped, .. }) => *fields_stripped,
            _ => false,
        };
        if is_stripped {
            let name = match &item.name {
                Some(n) => clone_bytes(n),
                None => Vec::new(),
            };
            return Err(ParseError::InaccessibleFields { id: item.id, name });
        }
        let finished = unprocessed_item.finish(item, overridden_name, type_);
        let ghost fp = finished.model();
        let children = children_for_item(item);
        let mut i: usize = 0;
        while i < children.len()
            invariant
                i <= children@.len(),
                children@ == children_of(*item),
                fp == finished.model(),
                finished.path@.len() > 0,
                path_model(finished.path@) == fp,
                self.graph() == old(self).graph(),
                self.st().output == old(self).st().output,
                self.st().missing == old(self).st().missing,
                self.st().queue =~= old(self).st().queue + child_entries(
                    fp,
                    children@.take(i as int),
                ),
            decreases children@.len() - i,
        {
            let p = crate::intermediate_public_item::clone_path(finished.path());
            let id = children[i];
            self.add_to_work_queue(p, id);
            proof {
                assert(child_entries(fp, children@.take(i + 1)) =~= child_entries(
                    fp,
                    children@.take(i as int),
                ).push(Entry { path: fp, id: children@[i as int] }));
            }
            i = i + 1;
        }
        proof {
            assert(children@.take(children@.len() as int) =~= children@);
        }
        let ghost queue_mid = self.st().queue;
        match impls_for_item(item) {
            Some(impl_ids) => {
                let mut j: usize = 0;
                while j < impl_ids.len()
                    invariant
                        j <= impl_ids@.len(),
                        impl_ids@ == impls_of(*item),
                        fp == finished.model(),
                        finished.path@.len() > 0,
                        path_model(finished.path@) == fp,
                        self.graph() == old(self).graph(),
                        self.st().output == old(self).st().output,
                        self.st().missing == old(self).st().missing,
                        self.st().queue =~= queue_mid + child_entries(
                            hide_all(fp),
                            impl_ids@.take(j as int),
                        ),
                    decreases impl_ids@.len() - j,
                {
                    let mut p: Vec<PathComponent<'c>> = Vec::new();
                    let mut m: usize = 0;
                    let fpath = finished.path();
                    while m < fpath.len()
                        invariant
                            m <= fpath@.len(),
                            path_model(p@) =~= hide_all(path_model(fpath@)).take(m as int),
                        decreases fpath@.len() - m,
                    {
                        p.push(crate::intermediate_public_item::clone_component_hidden(&fpath[m]));
                        proof {
                            assert(path_model(p@) =~= hide_all(path_model(fpath@)).take(m + 1));
                        }
                        m = m + 1;
                    }
                    proof {
                        assert(hide_all(path_model(fpath@)).take(fpath@.len() as int) =~= hide_all(
                            fp,
                        ));
                    }
                    let id = impl_ids[j];
                    self.add_to_work_queue(p, id);
                    proof {
                        assert(child_entries(hide_all(fp), impl_ids@.take(j + 1)) =~= child_entries(
                            hide_all(fp),
                            impl_ids@.take(j as int),
                        ).push(Entry { path: hide_all(fp), id: impl_ids@[j as int] }));
                    }
                    j = j + 1;
                }
                proof {
                    assert(impl_ids@.take(impl_ids@.len() as int) =~= impl_ids@);
                }
            },
            None => {
                proof {
                    assert(child_entries(hide_all(fp), impls_of(*item)) =~= Seq::<Entry>::empty());
                }
            },
        }
        self.output.push(finished);
        proof {
            assert(self.st().output =~= old(self).st().output.push(fp));
            assert(self.st() =~= (State {
                queue: old(self).st().queue + child_entries(fp, children_of(*item))
                    + child_entries(hide_all(fp), impls_of(*item)),
                output: old(self).st().output.push(fp),
                missing: old(self).st().missing,
            }));
        }
        Ok(())
    }

    /// Processes one item under a path with no grouping type.
    fn process_item(
        &mut self,
        unprocessed_item: UnprocessedItem<'c>,
        item: &'c Item,
        overridden_name: Option<NameOverride>,
    ) -> (r: Result<(), ParseError>)
        ensures
            final(self).graph() == old(self).graph(),
            match r {
                Ok(_) => spec_process_item(
                    path_model(unprocessed_item.parent_path@),
                    *item,
                    override_model(*item, overridden_name),
                    None,
                    old(self).st(),
                ) == StepOut::Go(final(self).st()),
                Err(ParseError::InaccessibleFields { id, name }) => spec_process_item(
                    path_model(unprocessed_item.parent_path@),
                    *item,
                    override_model(*item, overridden_name),
                    None,
                    old(self).st(),
                ) == StepOut::Fatal(final(self).st(), id, name@),
                Err(ParseError::TraversalLimit) => false,
            },
    {
        self.process_item_for_type(unprocessed_item, item, overridden_name, None)
    }

    /// Processes one item unless its id already stands in its own ancestor
    /// path; recursion emits one terminal guard leaf instead of expanding.
    fn process_item_unless_recursive(
        &mut self,
        unprocessed_item: UnprocessedItem<'c>,
        item: &'c Item,
        overridden_name: Option<NameOverride>,
    ) -> (r: Result<(), ParseError>)
        ensures
            final(self).graph() == old(self).graph(),
            match r {
                Ok(_) => spec_process_guarded(
                    path_model(unprocessed_item.parent_path@),
                    *item,
                    override_model(*item, overridden_name),
                    old(self).st(),
                ) == StepOut::Go(final(self).st()),
                Err(ParseError::InaccessibleFields { id, name }) => spec_process_guarded(
                    path_model(unprocessed_item.parent_path@),
                    *item,
                    override_model(*item, overridden_name),
                    old(self).st(),
                ) == StepOut::Fatal(final(self).st(), id, name@),
                Err(ParseError::TraversalLimit) => false,
            },
    {
        if path_has_id(&unprocessed_item.parent_path, item.id) {
            let ghost path = path_model(unprocessed_item.parent_path@);
            let recursion_breaker = unprocessed_item.finish(
                item,
                Some(NameOverride::Guard),
                None,
            );
            proof {
                assert(recursion_breaker.model() == guard_leaf(path, *item));
            }
            self.output.push(recursion_breaker);
            proof {
                assert(self.st().output =~= old(self).st().output.push(guard_leaf(path, *item)));
                assert(self.st() =~= (State {
                    queue: old(self).st().queue,
                    output: old(self).st().output.push(guard_leaf(path, *item)),
                    missing: old(self).st().missing,
                }));
            }
            Ok(())
        } else {
            self.process_item(unprocessed_item, item, overridden_name)
        }
    }

    /// Inlines a plain import: the target item is processed under the
    /// import's local name; a target that cannot be resolved, or whose
    /// resolution would close a cycle, leaves the import itself as a leaf.
    fn process_import_item(
        &mut self,
        item: &'c Item,
        import: &'c ImportData,
        unprocessed_item: UnprocessedItem<'c>,
    ) -> (r: Result<(), ParseError>)
        requires
            item.inner == ItemEnum::Import(*import),
        ensures
            final(self).graph() == old(self).graph(),
            match r {
                Ok(_) => spec_process_import(
                    old(self).graph(),
                    path_model(unprocessed_item.parent_path@),
                    *item,
                    *import,
                    old(self).st(),
                ) == StepOut::Go(final(self).st()),
                Err(ParseError::InaccessibleFields { id, name }) => spec_process_import(
                    old(self).graph(),
                    path_model(unprocessed_item.parent_path@),
                    *item,
                    *import,
                    old(self).st(),
                ) == StepOut::Fatal(final(self).st(), id, name@),
                Err(ParseError::TraversalLimit) => false,
            },
    {
        let mut actual_item = item;
        match import.target {
            Some(t) => {
                match self.get_item_if_not_in_path(&unprocessed_item.parent_path, t) {
                    Some(imported_item) => {
                        actual_item = imported_item;
                    },
                    None => (),
                }
            },
            None => (),
        }
        let name = clone_bytes(&import.name);
        self.process_item(unprocessed_item, actual_item, Some(NameOverride::Renamed(name)))
    }

    /// Inlines a wildcard import: a resolved module that is no path ancestor
    /// has all its children enqueued under the current path; otherwise the
    /// import falls back to an opaque leaf.
    #[verifier::loop_isolation(false)]
    fn process_import_glob_item(
        &mut self,
        import: &'c ImportData,
        unprocessed_item: UnprocessedItem<'c>,
        item: &'c Item,
    ) -> (r: Result<(), ParseError>)
        requires
            item.inner == ItemEnum::Import(*import),
        ensures
            final(self).graph() == old(self).graph(),
            match r {
                Ok(_) => spec_process_glob(
                    old(self).graph(),
                    path_model(unprocessed_item.parent_path@),
                    *item,
                    *import,
                    old(self).st(),
                ) == StepOut::Go(final(self).st()),
                Err(ParseError::InaccessibleFields { id, name }) => spec_process_glob(
                    old(self).graph(),
                    path_model(unprocessed_item.parent_path@),
                    *item,
                    *import,
                    old(self).st(),
                ) == StepOut::Fatal(final(self).st(), id, name@),
                Err(ParseError::TraversalLimit) => false,
            },
    {
        let ghost path = path_model(unprocessed_item.parent_path@);
        let resolved: Option<&'c Item> = match import.target {
            Some(t) => self.get_item_if_not_in_path(&unprocessed_item.parent_path, t),
            None => None,
        };
        match resolved {
            Some(module_item) => match &module_item.inner {
                ItemEnum::Module { items } => {
                    let ghost mid_st = self.st();
                    let mut i: usize = 0;
                    while i < items.len()
                        invariant
                            i <= items@.len(),
                            path == path_model(unprocessed_item.parent_path@),
                            self.graph() == old(self).graph(),
                            self.st().output == mid_st.output,
                            self.st().missing == mid_st.missing,
                            self.st().queue =~= mid_st.queue + child_entries(
                                path,
                                items@.take(i as int),
                            ),
                        decreases items@.len() - i,
                    {
                        let p = crate::intermediate_public_item::clone_path(
                            &unprocessed_item.parent_path,
                        );
                        let id = items[i];
                        self.add_to_work_queue(p, id);
                        proof {
                            assert(child_entries(path, items@.take(i + 1)) =~= child_entries(
                                path,
                                items@.take(i as int),
                            ).push(Entry { path, id: items@[i as int] }));
                        }
                        i = i + 1;
                    }
                    proof {
                        assert(items@.take(items@.len() as int) =~= items@);
                        assert(self.st() =~= (State {
                            queue: mid_st.queue + child_entries(path, items@),
                            output: mid_st.output,
                            missing: mid_st.missing,
                        }));
                    }
                    Ok(())
                },
                _ => {
                    self.process_item(unprocessed_item, item, Some(NameOverride::GlobFallback))
                },
            },
            None => {
                self.process_item(unprocessed_item, item, Some(NameOverride::GlobFallback))
            },
        }
    }

    /// Classifies an implementation block; noisy blocks are dropped whole,
    /// retained ones are processed grouped under the type they are for.
    fn process_impl_item(
        &mut self,
        unprocessed_item: UnprocessedItem<'c>,
        item: &'c Item,
        impl_: &'c ImplData,
    ) -> (r: Result<(), ParseError>)
        requires
            item.inner == ItemEnum::Impl(*impl_),
        ensures
            final(self).graph() == old(self).graph(),
            match r {
                Ok(_) => (if kind_active(impl_kind_of(*item, *impl_)) {
                    spec_process_item(
                        path_model(unprocessed_item.parent_path@),
                        *item,
                        None,
                        Some(impl_.for_),
                        old(self).st(),
                    )
                } else {
                    StepOut::Go(old(self).st())
                }) == StepOut::Go(final(self).st()),
                Err(ParseError::InaccessibleFields { id, name }) => kind_active(
                    impl_kind_of(*item, *impl_),
                ) && spec_process_item(
                    path_model(unprocessed_item.parent_path@),
                    *item,
                    None,
                    Some(impl_.for_),
                    old(self).st(),
                ) == StepOut::Fatal(final(self).st(), id, name@),
                Err(ParseError::TraversalLimit) => false,
            },
    {
        if !ImplKind::from(item, impl_).is_active() {
            return Ok(());
        }
        self.process_item_for_type(unprocessed_item, item, None, Some(&impl_.for_))
    }

    /// Dispatches one resolved item by kind.
    fn process_any_item(
        &mut self,
        item: &'c Item,
        unprocessed_item: UnprocessedItem<'c>,
    ) -> (r: Result<(), ParseError>)
        ensures
            final(self).graph() == old(self).graph(),
            match r {
                Ok(_) => spec_process_any(
                    old(self).graph(),
                    path_model(unprocessed_item.parent_path@),
                    *item,
                    old(self).st(),
                ) == StepOut::Go(final(self).st()),
                Err(ParseError::InaccessibleFields { id, name }) => spec_process_any(
                    old(self).graph(),
                    path_model(unprocessed_item.parent_path@),
                    *item,
                    old(self).st(),
                ) == StepOut::Fatal(final(self).st(), id, name@),
                Err(ParseError::TraversalLimit) => false,
            },
    {
        match &item.inner {
            ItemEnum::Import(import) => {
                if import.glob {
                    self.process_import_glob_item(import, unprocessed_item, item)
                } else {
                    self.process_import_item(item, import, unprocessed_item)
                }
            },
            ItemEnum::Impl(impl_) => {
                self.process_impl_item(unprocessed_item, item, impl_)
            },
            _ => {
                self.process_item_unless_recursive(unprocessed_item, item, None)
            },
        }
    }

    /// Drains the work queue: one step per unit, each step possibly adding
    /// more units, until the queue is empty, an item with redacted fields
    /// aborts the run, or the step budget runs out.
    #[verifier::loop_isolation(false)]
    pub fn run(&mut self) -> (r: Result<(), ParseError>)
        ensures
            final(self).graph() == old(self).graph(),
            exists|k: nat| #[trigger] run_rel(
                old(self).graph(),
                old(self).st(),
                final(self).st(),
                r,
                k,
            ),
    {
        let ghost c = self.graph();
        let ghost s0 = self.st();
        let mut steps: u64 = 0;
        while steps < STEP_LIMIT && self.work_queue.len() > 0
            invariant
                steps <= STEP_LIMIT,
                self.graph() == c,
                iterate(c, s0, steps as nat) == StepOut::Go(self.st()),
            decreases STEP_LIMIT - steps,
        {
            let ghost cur = self.st();
            let unprocessed_item = self.work_queue.pop().unwrap();
            proof {
                assert(self.st().queue =~= cur.queue.drop_last());
                assert(entry_of(unprocessed_item) == cur.queue.last());
            }
            let ghost popped = self.st();
            let item_opt = self.crate_.get_item(unprocessed_item.id);
            match item_opt {
                Some(item) => {
                    proof {
                        assert(self.st() == popped);
                    }
                    let ghost before = self.st();
                    let res = self.process_any_item(item, unprocessed_item);
                    match res {
                        Ok(_) => {
                            proof {
                                assert(step(c, cur) == spec_process_any(
                                    c,
                                    cur.queue.last().path,
                                    *item,
                                    before,
                                ));
                                assert(step(c, cur) == StepOut::Go(self.st()));
                                assert(iterate(c, s0, (steps + 1) as nat) == StepOut::Go(
                                    self.st(),
                                ));
                            }
                        },
                        Err(e) => {
                            proof {
                                assert(step(c, cur) == spec_process_any(
                                    c,
                                    cur.queue.last().path,
                                    *item,
                                    before,
                                ));
                                match &e {
                                    ParseError::InaccessibleFields { id, name } => {
                                        assert(iterate(c, s0, (steps + 1) as nat)
                                            == StepOut::Fatal(self.st(), *id, name@));
                                        assert(run_rel(c, s0, self.st(), Err::<(), ParseError>(e),
                                            (steps + 1) as nat));
                                    },
                                    ParseError::TraversalLimit => {
                                        assert(false);
                                    },
                                }
                            }
                            return Err(e);
                        },
                    }
                },
                None => {
                    proof {
                        assert(step(c, cur) == StepOut::Go(
                            State {
                                queue: cur.queue.drop_last(),
                                output: cur.output,
                                missing: cur.missing.push(cur.queue.last().id),
                            },
                        ));
                        assert(self.st() =~= (State {
                            queue: cur.queue.drop_last(),
                            output: cur.output,
                            missing: cur.missing.push(cur.queue.last().id),
                        }));
                        assert(iterate(c, s0, (steps + 1) as nat) == StepOut::Go(self.st()));
                    }
                },
            }
            steps = steps + 1;
        }
        if self.work_queue.len() == 0 {
            proof {
                assert(self.st().queue.len() == 0);
                assert(run_rel(c, s0, self.st(), Ok::<(), ParseError>(()), steps as nat));
            }
            Ok(())
        } else {
            proof {
                assert(steps == STEP_LIMIT);
                assert(self.st().queue.len() > 0);
                assert(run_rel(c, s0, self.st(), Err::<(), ParseError>(
                    ParseError::TraversalLimit,
                ), steps as nat));
            }
            Err(ParseError::TraversalLimit)
        }
    }
}

/// The id-to-items map a finished output gives: every position, in output
/// order, recorded under the id its path ends at.  Re-export fan-out shows
/// up as one id holding many positions.
pub open spec fn id_map_spec(out: Seq<Seq<Comp>>) -> Seq<(ItemId, Seq<int>)>
    decreases out.len(),
{
    if out.len() == 0 {
        Seq::empty()
    } else {
        let m = id_map_spec(out.drop_last());
        if out.last().len() == 0 {
            m
        } else {
            crate::render::assoc_add(m, out.last().last().id, out.len() - 1)
        }
    }
}

/// Every finished path's position is recorded under its terminal id.
pub proof fn lemma_id_map_contains(out: Seq<Seq<Comp>>, i: int)
    requires
        0 <= i < out.len(),
        out[i].len() > 0,
    ensures
        match crate::render::assoc_lookup(id_map_spec(out), out[i].last().id) {
            Some(s) => s.contains(i),
            None => false,
        },
    decreases out.len(),
{
    let n = out.len() - 1;
    let id = out[i].last().id;
    if i == n {
        crate::render::lemma_assoc_add_lookup_same(id_map_spec(out.drop_last()), id, n);
        let s = crate::render::assoc_lookup(id_map_spec(out), id)->Some_0;
        assert(s.last() == n);
        assert(s.contains(n));
    } else {
        assert(out.drop_last()[i] == out[i]);
        lemma_id_map_contains(out.drop_last(), i);
        let m = id_map_spec(out.drop_last());
        let prev = crate::render::assoc_lookup(m, id)->Some_0;
        assert(prev.contains(i));
        if out.last().len() == 0 {
        } else {
            let id2 = out.last().last().id;
            if id2 == id {
                crate::render::lemma_assoc_add_lookup_same(m, id, n);
                let s = crate::render::assoc_lookup(id_map_spec(out), id)->Some_0;
                assert(s == prev.push(n));
                let w = choose|w: int| 0 <= w < prev.len() && prev[w] == i;
                assert(s[w] == i);
                assert(s.contains(i));
            } else {
                crate::render::lemma_assoc_add_lookup_other(m, id2, n, id);
            }
        }
    }
}

/// Re-export multiplicity: two distinct output positions whose paths end at
/// one id both stand, as distinct entries, in that id's list of the
/// id-to-items map.
pub proof fn lemma_multiplicity(out: Seq<Seq<Comp>>, i1: int, i2: int)
    requires
        0 <= i1 < i2 < out.len(),
        out[i1].len() > 0,
        out[i2].len() > 0,
        out[i1].last().id == out[i2].last().id,
    ensures
        match crate::render::assoc_lookup(id_map_spec(out), out[i1].last().id) {
            Some(s) => s.contains(i1) && s.contains(i2),
            None => false,
        },
{
    lemma_id_map_contains(out, i1);
    lemma_id_map_contains(out, i2);
}

/// Copies a position list.
fn copy_usizes(v: &Vec<usize>) -> (r: Vec<usize>)
    ensures
        r@ == v@,
{
    let mut r: Vec<usize> = Vec::new();
    let mut i: usize = 0;
    while i < v.len()
        invariant
            i <= v.len(),
            r@ =~= v@.take(i as int),
        decreases v.len() - i,
    {
        r.push(v[i]);
        i = i + 1;
    }
    assert(r@ =~= v@);
    r
}

impl<'c> ItemProcessor<'c> {
    /// Maps every id to the output positions of the finished paths ending at
    /// it.  One id holds many positions exactly where re-exports make one
    /// item reachable by many paths.
    #[verifier::loop_isolation(false)]
    pub fn id_to_items(&self) -> (r: crate::render::IdToItems)
        ensures
            r.model() == id_map_spec(self.st().output),
    {
        let mut entries: Vec<(ItemId, Vec<usize>)> = Vec::new();
        let mut i: usize = 0;
        while i < self.output.len()
            invariant
                i <= self.output@.len(),
                (crate::render::IdToItems { entries }).model() == id_map_spec(
                    self.st().output.take(i as int),
                ),
            decreases self.output@.len() - i,
        {
            let ghost pre = (crate::render::IdToItems { entries }).model();
            proof {
                assert(self.st().output.take(i + 1).drop_last() =~= self.st().output.take(
                    i as int,
                ));
                assert(self.st().output.take(i + 1).last() == self.output@[i as int].model());
            }
            let it = &self.output[i];
            if it.path().len() > 0 {
                let id = it.item().id;
                let mut j: usize = 0;
                while j < entries.len() && entries[j].0 != id
                    invariant
                        j <= entries@.len(),
                        forall|jj: int| 0 <= jj < j ==> (#[trigger] entries@[jj]).0 != id,
                        (crate::render::IdToItems { entries }).model() == pre,
                    decreases entries@.len() - j,
                {
                    j = j + 1;
                }
                if j < entries.len() {
                    assert(entries@[j as int].0 == id);
                    let mut newlist = copy_usizes(&entries[j].1);
                    newlist.push(i);
                    let ghost oldm = (crate::render::IdToItems { entries }).model();
                    vstd::pervasive::VecAdditionalExecFns::set(&mut entries, j, (id, newlist));
                    proof {
                        crate::render::lemma_assoc_add_found(oldm, id, i as int, j as int);
                        assert((crate::render::IdToItems { entries }).model() =~~= oldm.update(
                            j as int,
                            (id, oldm[j as int].1.push(i as int)),
                        ));
                    }
                } else {
                    let mut single: Vec<usize> = Vec::new();
                    single.push(i);
                    let ghost oldm = (crate::render::IdToItems { entries }).model();
                    entries.push((id, single));
                    proof {
                        crate::render::lemma_assoc_add_missing(oldm, id, i as int);
                        assert((crate::render::IdToItems { entries }).model() =~~= oldm.push(
                            (id, seq![i as int]),
                        ));
                    }
                }
            }
            i = i + 1;
        }
        proof {
            assert(self.st().output.take(self.output@.len() as int) =~= self.st().output);
        }
        crate::render::IdToItems { entries }
    }
}

/// How a finished run relates to the state machine: after `k` steps the
/// machine either ran out of work — then the run answers `Ok` and leaves the
/// machine's state — or hit a fatal item, answered as the fields error; a
/// run out of budget with work left answers the budget error.
pub open spec fn run_rel(
    c: Crate,
    s0: State,
    sf: State,
    r: Result<(), ParseError>,
    k: nat,
) -> bool {
    k <= STEP_LIMIT && match iterate(c, s0, k) {
        StepOut::Go(s) => sf == s && match r {
            Ok(_) => s.queue.len() == 0,
            Err(ParseError::TraversalLimit) => k == STEP_LIMIT && s.queue.len() > 0,
            Err(_) => false,
        },
        StepOut::Fatal(s, id, nm) => sf == s && match r {
            Err(ParseError::InaccessibleFields { id: id2, name }) => id2 == id && name@ == nm,
            _ => false,
        },
    }
}

} // verus!
