//! The path and naming model: one component per step from a root to a target
//! item, and the finished root-to-item path.

use vstd::prelude::*;
use crate::graph::Item;
use crate::graph::ItemEnum;
use crate::graph::ItemId;
use crate::graph::RawType;
use crate::text::clone_bytes;

verus! {

/// The kind tag of an item, stripped of its payload.
#[derive(Clone, Copy, PartialEq, Eq, Structural, Debug)]
pub enum KindTag {
    Module,
    OuterCrate,
    Import,
    Union,
    Struct,
    StructField,
    Enum,
    Variant,
    Function,
    Trait,
    TraitAlias,
    Impl,
    TypeAlias,
    OpaqueTy,
    Constant,
    Static,
    ForeignType,
    Macro,
    ProcMacro,
    Primitive,
    AssocConst,
    AssocType,
}

/// The kind tag of an item payload.
pub open spec fn kind_of(inner: ItemEnum) -> KindTag {
    match inner {
        ItemEnum::Module { .. } => KindTag::Module,
        ItemEnum::OuterCrate => KindTag::OuterCrate,
        ItemEnum::Import(..) => KindTag::Import,
        ItemEnum::Union { .. } => KindTag::Union,
        ItemEnum::Struct { .. } => KindTag::Struct,
        ItemEnum::StructField(..) => KindTag::StructField,
        ItemEnum::Enum { .. } => KindTag::Enum,
        ItemEnum::Variant(..) => KindTag::Variant,
        ItemEnum::Function => KindTag::Function,
        ItemEnum::Trait { .. } => KindTag::Trait,
        ItemEnum::TraitAlias => KindTag::TraitAlias,
        ItemEnum::Impl(..) => KindTag::Impl,
        ItemEnum::TypeAlias(..) => KindTag::TypeAlias,
        ItemEnum::OpaqueTy => KindTag::OpaqueTy,
        ItemEnum::Constant => KindTag::Constant,
        ItemEnum::Static => KindTag::Static,
        ItemEnum::ForeignType => KindTag::ForeignType,
        ItemEnum::Macro => KindTag::Macro,
        ItemEnum::ProcMacro => KindTag::ProcMacro,
        ItemEnum::Primitive { .. } => KindTag::Primitive,
        ItemEnum::AssocConst => KindTag::AssocConst,
        ItemEnum::AssocType { .. } => KindTag::AssocType,
    }
}

/// The raw type a data-bearing item declares: the type of a field, or the
/// aliased type of a type alias.
pub open spec fn data_ty_of(inner: ItemEnum) -> Option<RawType> {
    match inner {
        ItemEnum::StructField(t) => Some(t),
        ItemEnum::TypeAlias(t) => Some(t),
        _ => None,
    }
}

/// The source-path bytes of an import item; empty for any other kind.
pub open spec fn import_source_of(inner: ItemEnum) -> Seq<u8> {
    match inner {
        ItemEnum::Import(d) => d.source@,
        _ => Seq::empty(),
    }
}

/// How a component's display name is overridden.
pub enum NameOverride {
    /// A re-export's local name replaces the target's declared name.
    Renamed(Vec<u8>),
    /// A recursion-guard leaf: the declared name wrapped in guard brackets.
    Guard,
    /// A wildcard import that could not be inlined: its source path wrapped
    /// in guard brackets with a trailing star.
    GlobFallback,
}

/// An item together with its display-name override and sort priority.
pub struct NameableItem<'c> {
    pub item: &'c Item,
    pub overridden_name: Option<NameOverride>,
    pub sorting_prefix: u8,
}

/// One step from a root to a target item.
pub struct PathComponent<'c> {
    pub item: NameableItem<'c>,
    /// The type this step is grouped under, carried by implementation steps.
    pub type_: Option<&'c RawType>,
    /// Set when the step is left out of rendered output; sortable output
    /// keeps it.
    pub hide: bool,
}

/// Mathematical model of one path component.
#[verifier::ext_equal]
pub ghost struct Comp {
    pub id: ItemId,
    pub declared_name: Option<Seq<u8>>,
    pub override_name: Option<Seq<u8>>,
    pub prio: u8,
    pub kind: KindTag,
    pub data_ty: Option<RawType>,
    pub step_ty: Option<RawType>,
    pub hide: bool,
}

/// Wraps a name in recursion-guard brackets.
pub open spec fn guard_wrap(n: Seq<u8>) -> Seq<u8> {
    seq!['<' as u8, '<' as u8] + n + seq!['>' as u8, '>' as u8]
}

/// Wraps a wildcard import's source path for its fallback leaf.
pub open spec fn glob_wrap(src: Seq<u8>) -> Seq<u8> {
    seq!['<' as u8, '<' as u8] + src + seq![':' as u8, ':' as u8, '*' as u8, '>' as u8, '>' as u8]
}

/// The view of an optional name.
pub open spec fn opt_name(n: Option<Vec<u8>>) -> Option<Seq<u8>> {
    match n {
        Some(v) => Some(v@),
        None => None,
    }
}

/// The declared name of an item, or empty.
pub open spec fn declared_or_empty(n: Option<Seq<u8>>) -> Seq<u8> {
    match n {
        Some(v) => v,
        None => Seq::empty(),
    }
}

/// The model of one path component.
pub open spec fn comp_of(pc: PathComponent) -> Comp {
    Comp {
        id: pc.item.item.id,
        declared_name: opt_name(pc.item.item.name),
        override_name: match pc.item.overridden_name {
            None => None,
            Some(NameOverride::Renamed(n)) => Some(n@),
            Some(NameOverride::Guard) => Some(
                guard_wrap(declared_or_empty(opt_name(pc.item.item.name))),
            ),
            Some(NameOverride::GlobFallback) => Some(glob_wrap(import_source_of(pc.item.item.inner))),
        },
        prio: pc.item.sorting_prefix,
        kind: kind_of(pc.item.item.inner),
        data_ty: data_ty_of(pc.item.item.inner),
        step_ty: match pc.type_ {
            Some(t) => Some(*t),
            None => None,
        },
        hide: pc.hide,
    }
}

/// The model of a whole path.
pub open spec fn path_model(p: Seq<PathComponent>) -> Seq<Comp> {
    p.map_values(|pc: PathComponent| comp_of(pc))
}

/// The name a component sorts under: the override if present, else the
/// declared name, else empty.
pub open spec fn sortable_name(c: Comp) -> Seq<u8> {
    match c.override_name {
        Some(n) => n,
        None => declared_or_empty(c.declared_name),
    }
}

/// The display bytes of a raw type at a grouping step: the written path name
/// of a resolved reference, the token of a primitive, the name of a generic
/// parameter, else empty.
pub open spec fn type_display(t: RawType) -> Seq<u8> {
    match t {
        RawType::ResolvedPath(p) => p.name@,
        RawType::Primitive(n) => n@,
        RawType::Generic(s) => s@,
        _ => Seq::empty(),
    }
}

/// The name a component renders under: the override if present, else the
/// declared name, else the display of the type at this step, else empty.
pub open spec fn visible_name(c: Comp) -> Seq<u8> {
    match c.override_name {
        Some(n) => n,
        None => match c.declared_name {
            Some(n) => n,
            None => match c.step_ty {
                Some(t) => type_display(t),
                None => Seq::empty(),
            },
        },
    }
}

/// One entry of a sortable path.
pub struct SortEntry {
    pub prio: u8,
    pub name: Vec<u8>,
}

/// The model of a sortable-path entry.
pub open spec fn entry_model(e: SortEntry) -> (u8, Seq<u8>) {
    (e.prio, e.name@)
}

/// The sortable path of a component path: one (priority, name) pair per
/// component, hidden components kept.
pub open spec fn sort_key(p: Seq<Comp>) -> Seq<(u8, Seq<u8>)> {
    p.map_values(|c: Comp| (c.prio, sortable_name(c)))
}

/// The rendered visible path: the render names of the components whose hide
/// flag is off, in path order.
pub open spec fn visible_path(p: Seq<Comp>) -> Seq<Seq<u8>>
    decreases p.len(),
{
    if p.len() == 0 {
        Seq::empty()
    } else if p.last().hide {
        visible_path(p.drop_last())
    } else {
        visible_path(p.drop_last()).push(visible_name(p.last()))
    }
}

// --- Executable name builders ----------------------------------------------

/// Builds the recursion-guard name of an item.
pub fn guard_name(base: &Option<Vec<u8>>) -> (r: Vec<u8>)
    ensures
        r@ == guard_wrap(declared_or_empty(opt_name(*base))),
{
    let mut r: Vec<u8> = Vec::new();
    r.push('<' as u8);
    r.push('<' as u8);
    match base {
        Some(b) => crate::text::push_all(&mut r, b),
        None => (),
    }
    r.push('>' as u8);
    r.push('>' as u8);
    assert(r@ =~= guard_wrap(declared_or_empty(opt_name(*base))));
    r
}

/// Builds the fallback name of a wildcard import from its source path.
pub fn glob_name(source: &Vec<u8>) -> (r: Vec<u8>)
    ensures
        r@ == glob_wrap(source@),
{
    let mut r: Vec<u8> = Vec::new();
    r.push('<' as u8);
    r.push('<' as u8);
    crate::text::push_all(&mut r, source);
    r.push(':' as u8);
    r.push(':' as u8);
    r.push('*' as u8);
    r.push('>' as u8);
    r.push('>' as u8);
    assert(r@ =~= glob_wrap(source@));
    r
}

/// Computes the sortable name of a component.
pub fn sortable_name_of(pc: &PathComponent<'_>) -> (r: Vec<u8>)
    ensures
        r@ == sortable_name(comp_of(*pc)),
{
    match &pc.item.overridden_name {
        Some(NameOverride::Renamed(n)) => clone_bytes(n),
        Some(NameOverride::Guard) => guard_name(&pc.item.item.name),
        Some(NameOverride::GlobFallback) => match &pc.item.item.inner {
            ItemEnum::Import(d) => glob_name(&d.source),
            _ => {
                let empty: Vec<u8> = Vec::new();
                glob_name(&empty)
            },
        },
        None => match &pc.item.item.name {
            Some(n) => clone_bytes(n),
            None => Vec::new(),
        },
    }
}

/// Computes the display bytes of a raw type at a grouping step.
pub fn type_display_of(t: &RawType) -> (r: Vec<u8>)
    ensures
        r@ == type_display(*t),
{
    match t {
        RawType::ResolvedPath(p) => clone_bytes(&p.name),
        RawType::Primitive(n) => clone_bytes(n),
        RawType::Generic(s) => clone_bytes(s),
        _ => Vec::new(),
    }
}

/// Computes the render name of a component.
pub fn visible_name_of(pc: &PathComponent<'_>) -> (r: Vec<u8>)
    ensures
        r@ == visible_name(comp_of(*pc)),
{
    match &pc.item.overridden_name {
        Some(_) => sortable_name_of(pc),
        None => match &pc.item.item.name {
            Some(n) => clone_bytes(n),
            None => match &pc.type_ {
                Some(t) => type_display_of(t),
                None => Vec::new(),
            },
        },
    }
}

/// Copies one path component.
pub fn clone_component<'c>(pc: &PathComponent<'c>) -> (r: PathComponent<'c>)
    ensures
        comp_of(r) == comp_of(*pc),
{
    let overridden_name = match &pc.item.overridden_name {
        None => None,
        Some(NameOverride::Renamed(n)) => Some(NameOverride::Renamed(clone_bytes(n))),
        Some(NameOverride::Guard) => Some(NameOverride::Guard),
        Some(NameOverride::GlobFallback) => Some(NameOverride::GlobFallback),
    };
    PathComponent {
        item: NameableItem {
            item: pc.item.item,
            overridden_name,
            sorting_prefix: pc.item.sorting_prefix,
        },
        type_: pc.type_,
        hide: pc.hide,
    }
}

/// Copies a whole path.
pub fn clone_path<'c>(p: &Vec<PathComponent<'c>>) -> (r: Vec<PathComponent<'c>>)
    ensures
        path_model(r@) == path_model(p@),
        r@.len() == p@.len(),
{
    let mut r: Vec<PathComponent<'c>> = Vec::new();
    let mut i: usize = 0;
    while i < p.len()
        invariant
            i <= p.len(),
            r@.len() == i,
            forall|j: int| 0 <= j < i ==> comp_of(#[trigger] r@[j]) == comp_of(p@[j]),
        decreases p.len() - i,
    {
        r.push(clone_component(&p[i]));
        i = i + 1;
    }
    assert(path_model(r@) =~= path_model(p@));
    r
}

/// Copies one path component with its hide flag forced on.
pub fn clone_component_hidden<'c>(pc: &PathComponent<'c>) -> (r: PathComponent<'c>)
    ensures
        comp_of(r) == (Comp { hide: true, ..comp_of(*pc) }),
{
    let mut r = clone_component(pc);
    r.hide = true;
    r
}

// --- The finished path -----------------------------------------------------

/// One public item of the graph in intermediate form: the whole path of
/// components from a root to the target item, the target being the last
/// component.
pub struct IntermediatePublicItem<'c> {
    pub path: Vec<PathComponent<'c>>,
}

impl<'c> IntermediatePublicItem<'c> {
    /// The model of this item: its path's component models.
    pub open spec fn model(self) -> Seq<Comp> {
        path_model(self.path@)
    }

    pub fn new(path: Vec<PathComponent<'c>>) -> (r: Self)
        ensures
            r.model() == path_model(path@),
            r.path@ == path@,
    {
        Self { path }
    }

    /// The target item the path ends at.
    pub fn item(&self) -> (r: &'c Item)
        requires
            self.path@.len() > 0,
        ensures
            *r == *self.path@.last().item.item,
            r.id == self.model().last().id,
    {
        &self.path[self.path.len() - 1].item.item
    }

    /// The path of components.
    pub fn path(&self) -> (r: &Vec<PathComponent<'c>>)
        ensures
            r@ == self.path@,
    {
        &self.path
    }

    /// The sortable path: one (priority, name) entry per component, hidden
    /// components kept.
    pub fn sortable_path(&self, context: &crate::render::RenderingContext<'c>) -> (r: Vec<
        SortEntry,
    >)
        ensures
            r@.map_values(|e: SortEntry| entry_model(e)) == sort_key(self.model()),
    {
        let mut r: Vec<SortEntry> = Vec::new();
        let mut i: usize = 0;
        while i < self.path.len()
            invariant
                i <= self.path@.len(),
                r@.len() == i,
                forall|j: int| 0 <= j < i ==> entry_model(#[trigger] r@[j]) == (
                    comp_of(self.path@[j]).prio,
                    sortable_name(comp_of(self.path@[j])),
                ),
            decreases self.path@.len() - i,
        {
            let pc = &self.path[i];
            r.push(SortEntry { prio: pc.item.sorting_prefix, name: sortable_name_of(pc) });
            i = i + 1;
        }
        assert(r@.map_values(|e: SortEntry| entry_model(e)) =~= sort_key(self.model()));
        r
    }

    /// Tells whether any component of the path carries a name override.
    pub fn path_contains_renamed_item(&self) -> (r: bool)
        ensures
            r == exists|i: int| 0 <= i < self.model().len() && (#[trigger] self.model()[i].override_name) is Some,
    {
        let mut i: usize = 0;
        while i < self.path.len()
            invariant
                i <= self.path@.len(),
                forall|j: int| 0 <= j < i ==> (#[trigger] self.model()[j].override_name) is None,
            decreases self.path@.len() - i,
        {
            match &self.path[i].item.overridden_name {
                Some(_) => {
                    assert((self.model()[i as int].override_name) is Some);
                    return true;
                },
                None => (),
            }
            i = i + 1;
        }
        false
    }

    /// Renders the visible path: the render names of the components whose
    /// hide flag is off, in path order.
    pub fn render_token_stream(&self, context: &crate::render::RenderingContext<'c>) -> (r: Vec<
        Vec<u8>,
    >)
        ensures
            r@.map_values(|s: Vec<u8>| s@) == visible_path(self.model()),
    {
        let mut r: Vec<Vec<u8>> = Vec::new();
        let mut i: usize = 0;
        while i < self.path.len()
            invariant
                i <= self.path@.len(),
                r@.map_values(|s: Vec<u8>| s@) =~= visible_path(self.model().take(i as int)),
            decreases self.path@.len() - i,
        {
            let pc = &self.path[i];
            proof {
                assert(self.model().take(i + 1).drop_last() =~= self.model().take(i as int));
                assert(self.model().take(i + 1).last() == comp_of(self.path@[i as int]));
            }
            if !pc.hide {
                r.push(visible_name_of(pc));
            }
            i = i + 1;
        }
        assert(self.model().take(self.path@.len() as int) =~= self.model());
        r
    }
}

} // verus!
