//! The symbol graph: a read-only collection of kind-tagged items that
//! reference each other by id.  An id is a position in the graph's item
//! vector; an id may point past the vector or at an empty slot, which models a
//! reference to an item the graph does not carry (a "missing" id).

use vstd::prelude::*;

verus! {

/// Identifier of a node in the symbol graph.
#[derive(Clone, Copy, PartialEq, Eq, Hash, Debug, Structural)]
pub struct ItemId(pub usize);

/// One path reference to another item: the display name of the path as
/// written, the id of its target, and any generic arguments.
pub struct PathRef {
    pub name: Vec<u8>,
    pub id: ItemId,
    pub args: Option<Box<GenericArgsRef>>,
}

/// Generic arguments attached to a path reference.
pub enum GenericArgsRef {
    /// Arguments in angle brackets.
    AngleBracketed(Vec<GenericArgRef>),
    /// A parenthesized (function-trait style) argument list.
    Parenthesized,
}

/// One generic argument in angle-bracket position.
pub enum GenericArgRef {
    Lifetime,
    Type(RawType),
    Const,
    Infer,
}

/// A raw type reference as the symbol graph spells it.
pub enum RawType {
    /// A reference to an item of the graph, possibly with generic arguments.
    ResolvedPath(PathRef),
    DynTrait,
    /// A generic parameter name.
    Generic(Vec<u8>),
    /// A primitive name token.
    Primitive(Vec<u8>),
    FunctionPointer,
    /// A tuple of element types.
    Tuple(Vec<RawType>),
    Slice,
    Array,
    ImplTrait,
    Infer,
    RawPointer,
    BorrowedRef,
    QualifiedPath,
}

/// The shape of a struct item.
pub enum StructKind {
    Unit,
    /// Positional fields; a slot is `None` when the field is not public.
    Tuple(Vec<Option<ItemId>>),
    /// Named fields; `fields_stripped` reports fields redacted by the graph.
    Plain { fields: Vec<ItemId>, fields_stripped: bool },
}

/// The shape of an enum variant item.
pub enum VariantKind {
    Plain,
    /// Positional fields; a slot is `None` when the field is not public.
    Tuple(Vec<Option<ItemId>>),
    /// Named fields; `fields_stripped` reports fields redacted by the graph.
    Struct { fields: Vec<ItemId>, fields_stripped: bool },
}

/// Payload of an implementation block.
pub struct ImplData {
    /// The implemented interface, absent for inherent blocks.
    pub trait_: Option<PathRef>,
    /// The type the block is for.
    pub for_: RawType,
    /// The member items of the block.
    pub items: Vec<ItemId>,
    /// Set for compiler-synthesized (auto-trait) blocks.
    pub synthetic: bool,
    /// Set for blanket implementations.
    pub blanket: bool,
}

/// Payload of an import item.
pub struct ImportData {
    /// The id of the imported item, absent e.g. for re-exported primitives.
    pub target: Option<ItemId>,
    /// Set for wildcard imports.
    pub glob: bool,
    /// The source path of the import as written.
    pub source: Vec<u8>,
    /// The local name the import binds.
    pub name: Vec<u8>,
}

/// The kind tag and payload of an item.
pub enum ItemEnum {
    Module { items: Vec<ItemId> },
    OuterCrate,
    Import(ImportData),
    Union { fields: Vec<ItemId>, impls: Vec<ItemId> },
    Struct { kind: StructKind, impls: Vec<ItemId> },
    StructField(RawType),
    Enum { variants: Vec<ItemId>, impls: Vec<ItemId> },
    Variant(VariantKind),
    Function,
    Trait { items: Vec<ItemId>, implementations: Vec<ItemId> },
    TraitAlias,
    Impl(ImplData),
    TypeAlias(RawType),
    OpaqueTy,
    Constant,
    Static,
    ForeignType,
    Macro,
    ProcMacro,
    Primitive { name: Vec<u8>, impls: Vec<ItemId> },
    AssocConst,
    AssocType { default: Option<RawType> },
}

/// One node of the symbol graph.
pub struct Item {
    pub id: ItemId,
    pub name: Option<Vec<u8>>,
    /// Attribute strings attached to the item, as written.
    pub attrs: Vec<Vec<u8>>,
    pub inner: ItemEnum,
}

/// The whole symbol graph.  The item with id `i` sits at position `i`; an
/// empty slot stands for an id the graph knows of but does not carry.
pub struct Crate {
    pub items: Vec<Option<Item>>,
}

/// The item a graph associates with an id, if any.
pub open spec fn lookup(c: Crate, id: ItemId) -> Option<Item> {
    if id.0 < c.items@.len() {
        c.items@[id.0 as int]
    } else {
        None
    }
}

impl Crate {
    /// Looks an id up in the graph.
    pub fn get(&self, id: ItemId) -> (r: Option<&Item>)
        ensures
            r is Some <==> lookup(*self, id) is Some,
            r is Some ==> *r->Some_0 == lookup(*self, id)->Some_0,
    {
        if id.0 < self.items.len() {
            match &self.items[id.0] {
                Some(it) => Some(it),
                None => None,
            }
        } else {
            None
        }
    }
}

/// The graph together with the record of every failed lookup.  A failed
/// lookup appends the id to the missing list and the unit of work that made
/// it is dropped, never retried.
pub struct CrateWrapper<'c> {
    pub crate_: &'c Crate,
    pub missing_ids: Vec<ItemId>,
}

impl<'c> CrateWrapper<'c> {
    /// The recorded failed lookups, in the order they were made.
    pub open spec fn missing(self) -> Seq<ItemId> {
        self.missing_ids@
    }

    pub fn new(crate_: &'c Crate) -> (r: Self)
        ensures
            r.crate_ == crate_,
            r.missing() =~= Seq::<ItemId>::empty(),
    {
        CrateWrapper { crate_, missing_ids: Vec::new() }
    }

    /// Looks an id up; a failed lookup is recorded once and answers `None`.
    pub fn get_item(&mut self, id: ItemId) -> (r: Option<&'c Item>)
        ensures
            final(self).crate_ == old(self).crate_,
            lookup(*old(self).crate_, id) is Some ==> {
                &&& r is Some
                &&& *r->Some_0 == lookup(*old(self).crate_, id)->Some_0
                &&& final(self).missing() == old(self).missing()
            },
            lookup(*old(self).crate_, id) is None ==> {
                &&& r is None
                &&& final(self).missing() == old(self).missing().push(id)
            },
    {
        match self.crate_.get(id) {
            Some(it) => Some(it),
            None => {
                self.missing_ids.push(id);
                None
            },
        }
    }

    /// The ids of every failed lookup so far.
    pub fn missing_item_ids(&self) -> (r: Vec<ItemId>)
        ensures
            r@ == self.missing(),
    {
        let mut r: Vec<ItemId> = Vec::new();
        let mut i: usize = 0;
        while i < self.missing_ids.len()
            invariant
                i <= self.missing_ids.len(),
                r@ =~= self.missing_ids@.take(i as int),
            decreases self.missing_ids.len() - i,
        {
            r.push(self.missing_ids[i]);
            i = i + 1;
        }
        assert(r@ =~= self.missing_ids@);
        r
    }
}

} // verus!
