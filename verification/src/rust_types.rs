//! The portable type representation and its normalizer.

use vstd::prelude::*;
use crate::graph::GenericArgRef;
use crate::graph::GenericArgsRef;
use crate::graph::ItemId;
use crate::graph::RawType;

verus! {

/// A portable type.
#[derive(Debug, PartialEq)]
pub enum RustType {
    /// A named type applied to type arguments.
    Generic { id: Vec<u8>, parameters: Vec<RustType> },
    /// A fixed container or primitive.
    Special(SpecialRustType),
    /// A named type without arguments.
    Simple { id: Vec<u8> },
}

/// A fixed container or primitive that downstream generators translate
/// specially.
#[derive(Debug, PartialEq)]
pub enum SpecialRustType {
    Vec(Box<RustType>),
    Array(Box<RustType>, usize),
    Slice(Box<RustType>),
    HashMap(Box<RustType>, Box<RustType>),
    Option(Box<RustType>),
    Unit,
    String,
    Char,
    I8,
    I16,
    I32,
    I64,
    U8,
    U16,
    U32,
    U64,
    ISize,
    USize,
    Bool,
    F32,
    F64,
    I54,
    U53,
}

/// Mathematical model of a [`RustType`].
pub ghost enum RustTy {
    Generic { id: Seq<u8>, parameters: Seq<RustTy> },
    Special(SpecialTy),
    Simple { id: Seq<u8> },
}

/// Mathematical model of a [`SpecialRustType`].
pub ghost enum SpecialTy {
    Vec(Box<RustTy>),
    Array(Box<RustTy>, nat),
    Slice(Box<RustTy>),
    HashMap(Box<RustTy>, Box<RustTy>),
    Option(Box<RustTy>),
    Unit,
    String,
    Char,
    I8,
    I16,
    I32,
    I64,
    U8,
    U16,
    U32,
    U64,
    ISize,
    USize,
    Bool,
    F32,
    F64,
    I54,
    U53,
}

impl RustType {
    /// The model of this value.
    pub open spec fn model(self) -> RustTy
        decreases self,
    {
        match self {
            RustType::Generic { id, parameters } => RustTy::Generic {
                id: id@,
                parameters: Seq::new(
                    parameters@.len(),
                    |i: int| if 0 <= i < parameters@.len() {
                        parameters@[i].model()
                    } else {
                        RustTy::Simple { id: Seq::empty() }
                    },
                ),
            },
            RustType::Special(s) => RustTy::Special(
                match s {
                    SpecialRustType::Vec(t) => SpecialTy::Vec(Box::new(t.model())),
                    SpecialRustType::Array(t, n) => SpecialTy::Array(Box::new(t.model()), n as nat),
                    SpecialRustType::Slice(t) => SpecialTy::Slice(Box::new(t.model())),
                    SpecialRustType::HashMap(k, v) => SpecialTy::HashMap(
                        Box::new(k.model()),
                        Box::new(v.model()),
                    ),
                    SpecialRustType::Option(t) => SpecialTy::Option(Box::new(t.model())),
                    SpecialRustType::Unit => SpecialTy::Unit,
                    SpecialRustType::String => SpecialTy::String,
                    SpecialRustType::Char => SpecialTy::Char,
                    SpecialRustType::I8 => SpecialTy::I8,
                    SpecialRustType::I16 => SpecialTy::I16,
                    SpecialRustType::I32 => SpecialTy::I32,
                    SpecialRustType::I64 => SpecialTy::I64,
                    SpecialRustType::U8 => SpecialTy::U8,
                    SpecialRustType::U16 => SpecialTy::U16,
                    SpecialRustType::U32 => SpecialTy::U32,
                    SpecialRustType::U64 => SpecialTy::U64,
                    SpecialRustType::ISize => SpecialTy::ISize,
                    SpecialRustType::USize => SpecialTy::USize,
                    SpecialRustType::Bool => SpecialTy::Bool,
                    SpecialRustType::F32 => SpecialTy::F32,
                    SpecialRustType::F64 => SpecialTy::F64,
                    SpecialRustType::I54 => SpecialTy::I54,
                    SpecialRustType::U53 => SpecialTy::U53,
                },
            ),
            RustType::Simple { id } => RustTy::Simple { id: id@ },
        }
    }
}

impl SpecialRustType {
    /// The model of this value.
    pub open spec fn model(self) -> SpecialTy
        decreases self,
    {
        match self {
            SpecialRustType::Vec(t) => SpecialTy::Vec(Box::new(t.model())),
            SpecialRustType::Array(t, n) => SpecialTy::Array(Box::new(t.model()), n as nat),
            SpecialRustType::Slice(t) => SpecialTy::Slice(Box::new(t.model())),
            SpecialRustType::HashMap(k, v) => SpecialTy::HashMap(
                Box::new(k.model()),
                Box::new(v.model()),
            ),
            SpecialRustType::Option(t) => SpecialTy::Option(Box::new(t.model())),
            SpecialRustType::Unit => SpecialTy::Unit,
            SpecialRustType::String => SpecialTy::String,
            SpecialRustType::Char => SpecialTy::Char,
            SpecialRustType::I8 => SpecialTy::I8,
            SpecialRustType::I16 => SpecialTy::I16,
            SpecialRustType::I32 => SpecialTy::I32,
            SpecialRustType::I64 => SpecialTy::I64,
            SpecialRustType::U8 => SpecialTy::U8,
            SpecialRustType::U16 => SpecialTy::U16,
            SpecialRustType::U32 => SpecialTy::U32,
            SpecialRustType::U64 => SpecialTy::U64,
            SpecialRustType::ISize => SpecialTy::ISize,
            SpecialRustType::USize => SpecialTy::USize,
            SpecialRustType::Bool => SpecialTy::Bool,
            SpecialRustType::F32 => SpecialTy::F32,
            SpecialRustType::F64 => SpecialTy::F64,
            SpecialRustType::I54 => SpecialTy::I54,
            SpecialRustType::U53 => SpecialTy::U53,
        }
    }
}

// --- The fixed primitive-name table ---------------------------------------

/// Name bytes of `String`.
pub open spec fn n_string() -> Seq<u8> {
    seq!['S' as u8, 't' as u8, 'r' as u8, 'i' as u8, 'n' as u8, 'g' as u8]
}

/// Name bytes of `char`.
pub open spec fn n_char() -> Seq<u8> {
    seq!['c' as u8, 'h' as u8, 'a' as u8, 'r' as u8]
}

/// Name bytes of `i8`.
pub open spec fn n_i8() -> Seq<u8> {
    seq!['i' as u8, '8' as u8]
}

/// Name bytes of `i16`.
pub open spec fn n_i16() -> Seq<u8> {
    seq!['i' as u8, '1' as u8, '6' as u8]
}

/// Name bytes of `i32`.
pub open spec fn n_i32() -> Seq<u8> {
    seq!['i' as u8, '3' as u8, '2' as u8]
}

/// Name bytes of `i64`.
pub open spec fn n_i64() -> Seq<u8> {
    seq!['i' as u8, '6' as u8, '4' as u8]
}

/// Name bytes of `u8`.
pub open spec fn n_u8() -> Seq<u8> {
    seq!['u' as u8, '8' as u8]
}

/// Name bytes of `u16`.
pub open spec fn n_u16() -> Seq<u8> {
    seq!['u' as u8, '1' as u8, '6' as u8]
}

/// Name bytes of `u32`.
pub open spec fn n_u32() -> Seq<u8> {
    seq!['u' as u8, '3' as u8, '2' as u8]
}

/// Name bytes of `u64`.
pub open spec fn n_u64() -> Seq<u8> {
    seq!['u' as u8, '6' as u8, '4' as u8]
}

/// Name bytes of `isize`.
pub open spec fn n_isize() -> Seq<u8> {
    seq!['i' as u8, 's' as u8, 'i' as u8, 'z' as u8, 'e' as u8]
}

/// Name bytes of `usize`.
pub open spec fn n_usize() -> Seq<u8> {
    seq!['u' as u8, 's' as u8, 'i' as u8, 'z' as u8, 'e' as u8]
}

/// Name bytes of `bool`.
pub open spec fn n_bool() -> Seq<u8> {
    seq!['b' as u8, 'o' as u8, 'o' as u8, 'l' as u8]
}

/// Name bytes of `f32`.
pub open spec fn n_f32() -> Seq<u8> {
    seq!['f' as u8, '3' as u8, '2' as u8]
}

/// Name bytes of `f64`.
pub open spec fn n_f64() -> Seq<u8> {
    seq!['f' as u8, '6' as u8, '4' as u8]
}

/// Name bytes of `I54`.
pub open spec fn n_i54() -> Seq<u8> {
    seq!['I' as u8, '5' as u8, '4' as u8]
}

/// Name bytes of `U53`.
pub open spec fn n_u53() -> Seq<u8> {
    seq!['U' as u8, '5' as u8, '3' as u8]
}

/// The fixed table mapping primitive name bytes to their `Special` variant,
/// in match order.
pub open spec fn special_of_name(n: Seq<u8>) -> Option<SpecialRustType> {
    if n == n_string() {
        Some(SpecialRustType::String)
    } else if n == n_char() {
        Some(SpecialRustType::Char)
    } else if n == n_i8() {
        Some(SpecialRustType::I8)
    } else if n == n_i16() {
        Some(SpecialRustType::I16)
    } else if n == n_i32() {
        Some(SpecialRustType::I32)
    } else if n == n_i64() {
        Some(SpecialRustType::I64)
    } else if n == n_u8() {
        Some(SpecialRustType::U8)
    } else if n == n_u16() {
        Some(SpecialRustType::U16)
    } else if n == n_u32() {
        Some(SpecialRustType::U32)
    } else if n == n_u64() {
        Some(SpecialRustType::U64)
    } else if n == n_isize() {
        Some(SpecialRustType::ISize)
    } else if n == n_usize() {
        Some(SpecialRustType::USize)
    } else if n == n_bool() {
        Some(SpecialRustType::Bool)
    } else if n == n_f32() {
        Some(SpecialRustType::F32)
    } else if n == n_f64() {
        Some(SpecialRustType::F64)
    } else if n == n_i54() {
        Some(SpecialRustType::I54)
    } else if n == n_u53() {
        Some(SpecialRustType::U53)
    } else {
        None
    }
}

/// The name in the fixed table that maps to a `Special` variant, for the
/// variants that stand in the table.
pub open spec fn name_of_special(s: SpecialRustType) -> Option<Seq<u8>> {
    match s {
        SpecialRustType::String => Some(n_string()),
        SpecialRustType::Char => Some(n_char()),
        SpecialRustType::I8 => Some(n_i8()),
        SpecialRustType::I16 => Some(n_i16()),
        SpecialRustType::I32 => Some(n_i32()),
        SpecialRustType::I64 => Some(n_i64()),
        SpecialRustType::U8 => Some(n_u8()),
        SpecialRustType::U16 => Some(n_u16()),
        SpecialRustType::U32 => Some(n_u32()),
        SpecialRustType::U64 => Some(n_u64()),
        SpecialRustType::ISize => Some(n_isize()),
        SpecialRustType::USize => Some(n_usize()),
        SpecialRustType::Bool => Some(n_bool()),
        SpecialRustType::F32 => Some(n_f32()),
        SpecialRustType::F64 => Some(n_f64()),
        SpecialRustType::I54 => Some(n_i54()),
        SpecialRustType::U53 => Some(n_u53()),
        _ => None,
    }
}

/// Builds the byte string a spec name function describes.  Each arm pushes
/// the bytes of one table entry.
fn build_name(s: &SpecialRustType) -> (r: Option<Vec<u8>>)
    ensures
        r is Some <==> name_of_special(*s) is Some,
        r is Some ==> r->Some_0@ == name_of_special(*s)->Some_0,
{
    let mut v: Vec<u8> = Vec::new();
    match s {
        SpecialRustType::String => {
            v.push('S' as u8);
            v.push('t' as u8);
            v.push('r' as u8);
            v.push('i' as u8);
            v.push('n' as u8);
            v.push('g' as u8);
            assert(v@ =~= n_string());
            Some(v)
        },
        SpecialRustType::Char => {
            v.push('c' as u8);
            v.push('h' as u8);
            v.push('a' as u8);
            v.push('r' as u8);
            assert(v@ =~= n_char());
            Some(v)
        },
        SpecialRustType::I8 => {
            v.push('i' as u8);
            v.push('8' as u8);
            assert(v@ =~= n_i8());
            Some(v)
        },
        SpecialRustType::I16 => {
            v.push('i' as u8);
            v.push('1' as u8);
            v.push('6' as u8);
            assert(v@ =~= n_i16());
            Some(v)
        },
        SpecialRustType::I32 => {
            v.push('i' as u8);
            v.push('3' as u8);
            v.push('2' as u8);
            assert(v@ =~= n_i32());
            Some(v)
        },
        SpecialRustType::I64 => {
            v.push('i' as u8);
            v.push('6' as u8);
            v.push('4' as u8);
            assert(v@ =~= n_i64());
            Some(v)
        },
        SpecialRustType::U8 => {
            v.push('u' as u8);
            v.push('8' as u8);
            assert(v@ =~= n_u8());
            Some(v)
        },
        SpecialRustType::U16 => {
            v.push('u' as u8);
            v.push('1' as u8);
            v.push('6' as u8);
            assert(v@ =~= n_u16());
            Some(v)
        },
        SpecialRustType::U32 => {
            v.push('u' as u8);
            v.push('3' as u8);
            v.push('2' as u8);
            assert(v@ =~= n_u32());
            Some(v)
        },
        SpecialRustType::U64 => {
            v.push('u' as u8);
            v.push('6' as u8);
            v.push('4' as u8);
            assert(v@ =~= n_u64());
            Some(v)
        },
        SpecialRustType::ISize => {
            v.push('i' as u8);
            v.push('s' as u8);
            v.push('i' as u8);
            v.push('z' as u8);
            v.push('e' as u8);
            assert(v@ =~= n_isize());
            Some(v)
        },
        SpecialRustType::USize => {
            v.push('u' as u8);
            v.push('s' as u8);
            v.push('i' as u8);
            v.push('z' as u8);
            v.push('e' as u8);
            assert(v@ =~= n_usize());
            Some(v)
        },
        SpecialRustType::Bool => {
            v.push('b' as u8);
            v.push('o' as u8);
            v.push('o' as u8);
            v.push('l' as u8);
            assert(v@ =~= n_bool());
            Some(v)
        },
        SpecialRustType::F32 => {
            v.push('f' as u8);
            v.push('3' as u8);
            v.push('2' as u8);
            assert(v@ =~= n_f32());
            Some(v)
        },
        SpecialRustType::F64 => {
            v.push('f' as u8);
            v.push('6' as u8);
            v.push('4' as u8);
            assert(v@ =~= n_f64());
            Some(v)
        },
        SpecialRustType::I54 => {
            v.push('I' as u8);
            v.push('5' as u8);
            v.push('4' as u8);
            assert(v@ =~= n_i54());
            Some(v)
        },
        SpecialRustType::U53 => {
            v.push('U' as u8);
            v.push('5' as u8);
            v.push('3' as u8);
            assert(v@ =~= n_u53());
            Some(v)
        },
        _ => None,
    }
}

impl SpecialRustType {
    /// Maps a primitive name token to its `Special` variant by exact match
    /// against the fixed table; an unmatched name comes back unchanged as the
    /// error.
    pub fn try_from(value: &Vec<u8>) -> (r: Result<SpecialRustType, Vec<u8>>)
        ensures
            special_of_name(value@) is Some ==> (r is Ok && r->Ok_0 == special_of_name(
                value@,
            )->Some_0),
            special_of_name(value@) is None ==> (r is Err && r->Err_0@ == value@),
    {
        if matches_name(value, SpecialRustType::String) {
            Ok(SpecialRustType::String)
        } else if matches_name(value, SpecialRustType::Char) {
            Ok(SpecialRustType::Char)
        } else if matches_name(value, SpecialRustType::I8) {
            Ok(SpecialRustType::I8)
        } else if matches_name(value, SpecialRustType::I16) {
            Ok(SpecialRustType::I16)
        } else if matches_name(value, SpecialRustType::I32) {
            Ok(SpecialRustType::I32)
        } else if matches_name(value, SpecialRustType::I64) {
            Ok(SpecialRustType::I64)
        } else if matches_name(value, SpecialRustType::U8) {
            Ok(SpecialRustType::U8)
        } else if matches_name(value, SpecialRustType::U16) {
            Ok(SpecialRustType::U16)
        } else if matches_name(value, SpecialRustType::U32) {
            Ok(SpecialRustType::U32)
        } else if matches_name(value, SpecialRustType::U64) {
            Ok(SpecialRustType::U64)
        } else if matches_name(value, SpecialRustType::ISize) {
            Ok(SpecialRustType::ISize)
        } else if matches_name(value, SpecialRustType::USize) {
            Ok(SpecialRustType::USize)
        } else if matches_name(value, SpecialRustType::Bool) {
            Ok(SpecialRustType::Bool)
        } else if matches_name(value, SpecialRustType::F32) {
            Ok(SpecialRustType::F32)
        } else if matches_name(value, SpecialRustType::F64) {
            Ok(SpecialRustType::F64)
        } else if matches_name(value, SpecialRustType::I54) {
            Ok(SpecialRustType::I54)
        } else if matches_name(value, SpecialRustType::U53) {
            Ok(SpecialRustType::U53)
        } else {
            Err(crate::text::clone_bytes(value))
        }
    }

    /// The primitive name this variant has in the fixed table, for the
    /// variants that stand in it.
    pub fn name(&self) -> (r: Option<Vec<u8>>)
        ensures
            r is Some <==> name_of_special(*self) is Some,
            r is Some ==> r->Some_0@ == name_of_special(*self)->Some_0,
    {
        build_name(self)
    }
}

/// Tells whether `value` is the fixed-table name of the variant `s`.
fn matches_name(value: &Vec<u8>, s: SpecialRustType) -> (r: bool)
    ensures
        r <==> name_of_special(s) == Some(value@),
{
    match build_name(&s) {
        Some(n) => crate::text::bytes_eq(value, &n),
        None => false,
    }
}

/// Every name the table maps from is the name the matched variant maps back
/// to: the table is one-to-one in both directions.
pub proof fn lemma_table_complete()
    ensures
        forall|n: Seq<u8>| #[trigger] special_of_name(n) is Some ==> name_of_special(
            special_of_name(n)->Some_0,
        ) == Some(n),
        forall|s: SpecialRustType| #[trigger] name_of_special(s) is Some ==> special_of_name(
            name_of_special(s)->Some_0,
        ) == Some(s),
        forall|n: Seq<u8>|
            special_of_name(n) is None ==> forall|s: SpecialRustType|
                #[trigger] name_of_special(s) is Some ==> name_of_special(s)->Some_0 != n,
{
    assert forall|n: Seq<u8>| #[trigger] special_of_name(n) is Some implies name_of_special(
        special_of_name(n)->Some_0,
    ) == Some(n) by {
        assert(n_i8()[0] == 'i' as u8);
    }
    assert forall|s: SpecialRustType| #[trigger] name_of_special(s) is Some implies special_of_name(
        name_of_special(s)->Some_0,
    ) == Some(s) by {
        assert(n_string().len() == 6);
        assert(n_char().len() == 4);
        assert(n_i8().len() == 2);
        assert(n_i16().len() == 3);
        assert(n_isize().len() == 5);
        assert(n_i8()[0] == 105u8 && n_u8()[0] == 117u8);
        assert(n_i16()[0] == 105u8 && n_i16()[1] == 49u8);
        assert(n_i32()[1] == 51u8 && n_i64()[1] == 54u8);
        assert(n_u16()[0] == 117u8 && n_u16()[1] == 49u8);
        assert(n_u32()[1] == 51u8 && n_u64()[1] == 54u8);
        assert(n_f32()[0] == 102u8 && n_f64()[0] == 102u8 && n_f32()[1] == 51u8 && n_f64()[1]
            == 54u8);
        assert(n_i54()[0] == 73u8 && n_u53()[0] == 85u8);
        assert(n_isize()[0] == 105u8 && n_usize()[0] == 117u8);
        assert(n_bool()[0] == 98u8 && n_char()[0] == 99u8);
    }
}

/// Round trip of the fixed table: a table name normalizes to its `Special`
/// variant and that variant names back to the exact original bytes.
pub proof fn lemma_primitive_round_trip(n: Seq<u8>, s: SpecialRustType)
    requires
        special_of_name(n) == Some(s),
    ensures
        name_of_special(s) == Some(n),
        special_of_name(name_of_special(s)->Some_0) == Some(s),
{
    lemma_table_complete();
}

// --- Path segments ----------------------------------------------------------

/// Tells whether the byte string holds a `::` separator.
pub open spec fn contains_sep(n: Seq<u8>) -> bool {
    exists|i: int| 0 <= i && i + 1 < n.len() && #[trigger] n[i] == 58 && n[i + 1] == 58
}

/// The last display segment of a path written with `::` separators; a path
/// without a separator is its own last segment.
pub open spec fn last_segment(n: Seq<u8>) -> Seq<u8>
    decreases n.len(),
{
    if !contains_sep(n) {
        n
    } else if n.len() >= 2 && n[0] == 58 && n[1] == 58 {
        last_segment(n.skip(2))
    } else if n.len() >= 1 {
        last_segment(n.skip(1))
    } else {
        n
    }
}

/// Scans for a `::` separator at or after `start`.
fn has_sep_from(v: &Vec<u8>, start: usize) -> (r: bool)
    requires
        start <= v.len(),
    ensures
        r == contains_sep(v@.skip(start as int)),
{
    let mut i: usize = start;
    while i < v.len() && i + 1 < v.len()
        invariant
            start <= i,
            i <= v.len(),
            forall|j: int| start <= j && j + 1 < v.len() && j < i ==> !(#[trigger] v@[j] == 58
                && v@[j + 1] == 58),
        decreases v.len() - i,
    {
        if v[i] == 58 && v[i + 1] == 58 {
            assert(v@.skip(start as int)[i - start] == 58 && v@.skip(start as int)[i - start + 1]
                == 58);
            return true;
        }
        i = i + 1;
    }
    assert(!contains_sep(v@.skip(start as int))) by {
        assert forall|j: int| 0 <= j && j + 1 < v@.skip(start as int).len() implies !(#[trigger] v@.skip(
            start as int,
        )[j] == 58 && v@.skip(start as int)[j + 1] == 58) by {
            assert(v@.skip(start as int)[j] == v@[start + j]);
            assert(v@.skip(start as int)[j + 1] == v@[start + j + 1]);
        }
    }
    false
}

/// Copies the bytes at or after `start`.
fn copy_from(v: &Vec<u8>, start: usize) -> (r: Vec<u8>)
    requires
        start <= v.len(),
    ensures
        r@ == v@.skip(start as int),
{
    let mut r: Vec<u8> = Vec::new();
    let mut i: usize = start;
    while i < v.len()
        invariant
            start <= i,
            i <= v.len(),
            r@ =~= v@.subrange(start as int, i as int),
        decreases v.len() - i,
    {
        r.push(v[i]);
        i = i + 1;
    }
    assert(r@ =~= v@.skip(start as int));
    r
}

/// Computes the last segment of the bytes at or after `start`.
fn last_segment_from(v: &Vec<u8>, start: usize) -> (r: Vec<u8>)
    requires
        start <= v.len(),
    ensures
        r@ == last_segment(v@.skip(start as int)),
    decreases v.len() - start,
{
    if !has_sep_from(v, start) {
        copy_from(v, start)
    } else {
        assert(v@.skip(start as int).len() >= 2) by {
            let s = v@.skip(start as int);
            assert(contains_sep(s));
            let i = choose|i: int| 0 <= i && i + 1 < s.len() && #[trigger] s[i] == 58 && s[i + 1]
                == 58;
            assert(i + 1 < s.len());
        }
        if v[start] == 58 && v[start + 1] == 58 {
            let r = last_segment_from(v, start + 2);
            assert(v@.skip(start as int).skip(2) =~= v@.skip(start as int + 2));
            r
        } else {
            let r = last_segment_from(v, start + 1);
            assert(v@.skip(start as int).skip(1) =~= v@.skip(start as int + 1));
            assert(v@.skip(start as int)[0] == v@[start as int]);
            assert(v@.skip(start as int)[1] == v@[start as int + 1]);
            r
        }
    }
}

/// The last display segment of a path.
pub fn last_segment_of(v: &Vec<u8>) -> (r: Vec<u8>)
    ensures
        r@ == last_segment(v@),
{
    let r = last_segment_from(v, 0);
    assert(v@.skip(0) =~= v@);
    r
}

// --- The normalizer ---------------------------------------------------------

/// Why a raw type did not normalize.
#[derive(Debug, PartialEq)]
pub enum NormalizeError {
    /// A primitive name token missing from the fixed table; holds the token.
    UnknownPrimitive(Vec<u8>),
    /// A generic-argument kind not handled in angle-bracket position: a
    /// lifetime, a const argument or an inferred argument.  A defect-class
    /// outcome, distinct from a normal error.
    UnhandledGenericArg,
}

/// The outcome of normalizing one raw type.
pub ghost enum NormOutcome {
    /// A portable type was produced.
    Portable(RustTy),
    /// The raw form carries no portable type; the caller omits the field and
    /// goes on.
    NotPortable,
    /// A primitive name token missing from the fixed table.
    Unknown(Seq<u8>),
    /// A generic-argument kind not handled in angle-bracket position.
    Unhandled,
}

/// The model of a normalizer result.
pub open spec fn outcome_of(r: Result<Option<RustType>, NormalizeError>) -> NormOutcome {
    match r {
        Ok(Some(t)) => NormOutcome::Portable(t.model()),
        Ok(None) => NormOutcome::NotPortable,
        Err(NormalizeError::UnknownPrimitive(n)) => NormOutcome::Unknown(n@),
        Err(NormalizeError::UnhandledGenericArg) => NormOutcome::Unhandled,
    }
}

/// Generic arguments folded left to right: all portable, or the first
/// outcome that is not.
pub ghost enum ArgsCollect {
    Good(Seq<RustTy>),
    Bad(NormOutcome),
}

/// Folds argument outcomes left to right; the first outcome that is not
/// portable decides.
pub open spec fn collect_args(outs: Seq<NormOutcome>) -> ArgsCollect
    decreases outs.len(),
{
    if outs.len() == 0 {
        ArgsCollect::Good(Seq::empty())
    } else {
        match outs[0] {
            NormOutcome::Portable(t) => match collect_args(outs.drop_first()) {
                ArgsCollect::Good(s) => ArgsCollect::Good(seq![t] + s),
                ArgsCollect::Bad(e) => ArgsCollect::Bad(e),
            },
            o => ArgsCollect::Bad(o),
        }
    }
}

/// Tells whether an outcome aborts a tuple walk.
pub open spec fn is_fatal_outcome(o: NormOutcome) -> bool {
    o is Unknown || o is Unhandled
}

/// The first error among tuple-element outcomes, left to right.
pub open spec fn first_fatal(outs: Seq<NormOutcome>) -> Option<NormOutcome>
    decreases outs.len(),
{
    if outs.len() == 0 {
        None
    } else if is_fatal_outcome(outs[0]) {
        Some(outs[0])
    } else {
        first_fatal(outs.drop_first())
    }
}

/// The per-argument outcomes of an angle-bracketed argument list.
pub open spec fn arg_outcomes(args: Seq<GenericArgRef>) -> Seq<NormOutcome>
    decreases args,
{
    Seq::new(
        args.len(),
        |i: int| if 0 <= i < args.len() {
            match args[i] {
                GenericArgRef::Type(ty) => normalize_spec(ty),
                _ => NormOutcome::Unhandled,
            }
        } else {
            NormOutcome::NotPortable
        },
    )
}

/// The per-element outcomes of a tuple.
pub open spec fn elem_outcomes(elems: Seq<RawType>) -> Seq<NormOutcome>
    decreases elems,
{
    Seq::new(
        elems.len(),
        |i: int| if 0 <= i < elems.len() {
            normalize_spec(elems[i])
        } else {
            NormOutcome::NotPortable
        },
    )
}

/// The normalization mapping from raw type references to portable types.
///
/// - a primitive name token maps through the fixed table; a miss is the
///   unknown-primitive error;
/// - a resolved reference without arguments, with a parenthesized argument
///   list or with an empty bracketed list is the plain name of its last path
///   segment;
/// - a resolved reference with bracketed arguments normalizes the arguments
///   recursively; a non-type argument is the defect-class outcome and an
///   argument without a portable type makes the whole reference carry none;
/// - a bare generic parameter is its own name;
/// - a tuple is walked element-wise for errors and carries no portable type
///   itself, except the empty tuple, which is the unit primitive;
/// - every other raw form carries no portable type.
pub open spec fn normalize_spec(t: RawType) -> NormOutcome
    decreases t,
{
    match t {
        RawType::ResolvedPath(p) => {
            match p.args {
                Option::None => NormOutcome::Portable(
                    RustTy::Simple { id: last_segment(p.name@) },
                ),
                Option::Some(boxed) => match *boxed {
                    GenericArgsRef::Parenthesized => NormOutcome::Portable(
                        RustTy::Simple { id: last_segment(p.name@) },
                    ),
                    GenericArgsRef::AngleBracketed(args) => if args@.len() == 0 {
                        NormOutcome::Portable(RustTy::Simple { id: last_segment(p.name@) })
                    } else {
                        match collect_args(arg_outcomes(args@)) {
                            ArgsCollect::Good(ps) => NormOutcome::Portable(
                                RustTy::Generic { id: last_segment(p.name@), parameters: ps },
                            ),
                            ArgsCollect::Bad(e) => e,
                        }
                    },
                },
            }
        },
        RawType::Generic(s) => NormOutcome::Portable(RustTy::Simple { id: s@ }),
        RawType::Primitive(n) => match special_of_name(n@) {
            Some(s) => NormOutcome::Portable(RustType::Special(s).model()),
            None => NormOutcome::Unknown(n@),
        },
        RawType::Tuple(elems) => if elems@.len() == 0 {
            NormOutcome::Portable(RustTy::Special(SpecialTy::Unit))
        } else {
            match first_fatal(elem_outcomes(elems@)) {
                Some(e) => e,
                None => NormOutcome::NotPortable,
            }
        },
        _ => NormOutcome::NotPortable,
    }
}

/// A fold over outcomes that are all portable collects exactly their types.
proof fn lemma_collect_all_good(outs: Seq<NormOutcome>, vals: Seq<RustTy>)
    requires
        outs.len() == vals.len(),
        forall|i: int| 0 <= i < outs.len() ==> outs[i] == NormOutcome::Portable(#[trigger] vals[i]),
    ensures
        collect_args(outs) == ArgsCollect::Good(vals),
    decreases outs.len(),
{
    if outs.len() == 0 {
        assert(vals =~= Seq::<RustTy>::empty());
    } else {
        lemma_collect_all_good(outs.drop_first(), vals.drop_first());
        assert(seq![vals[0]] + vals.drop_first() =~= vals);
    }
}

/// A fold whose first non-portable outcome sits at `i` answers that outcome.
proof fn lemma_collect_bad_at(outs: Seq<NormOutcome>, i: int)
    requires
        0 <= i < outs.len(),
        forall|j: int| 0 <= j < i ==> #[trigger] outs[j] is Portable,
        !(outs[i] is Portable),
    ensures
        collect_args(outs) == ArgsCollect::Bad(outs[i]),
    decreases outs.len(),
{
    if i > 0 {
        lemma_collect_bad_at(outs.drop_first(), i - 1);
    }
}

/// Outcomes that equal the models of collected parameters are portable.
proof fn lemma_portable_prefix(outs: Seq<NormOutcome>, params: Seq<RustType>, i: int)
    requires
        0 <= i,
        i <= outs.len(),
        i <= params.len(),
        forall|j: int| 0 <= j < i ==> outs[j] == NormOutcome::Portable(
            #[trigger] params[j].model(),
        ),
    ensures
        forall|j: int| 0 <= j < i ==> #[trigger] outs[j] is Portable,
{
    assert forall|j: int| 0 <= j < i implies #[trigger] outs[j] is Portable by {
        assert(outs[j] == NormOutcome::Portable(params[j].model()));
    }
}

/// A tuple walk without errors answers none.
proof fn lemma_first_fatal_none(outs: Seq<NormOutcome>)
    requires
        forall|i: int| 0 <= i < outs.len() ==> !is_fatal_outcome(#[trigger] outs[i]),
    ensures
        first_fatal(outs) is None,
    decreases outs.len(),
{
    if outs.len() > 0 {
        lemma_first_fatal_none(outs.drop_first());
    }
}

/// A tuple walk whose first error sits at `i` answers that error.
proof fn lemma_first_fatal_at(outs: Seq<NormOutcome>, i: int)
    requires
        0 <= i < outs.len(),
        forall|j: int| 0 <= j < i ==> !is_fatal_outcome(#[trigger] outs[j]),
        is_fatal_outcome(outs[i]),
    ensures
        first_fatal(outs) == Some(outs[i]),
    decreases outs.len(),
{
    if i > 0 {
        lemma_first_fatal_at(outs.drop_first(), i - 1);
    }
}

/// Maps a raw type reference to its portable type, to no portable type where
/// the raw form carries none, or to an error, exactly as
/// [`normalize_spec`] lays down.
#[verifier::loop_isolation(false)]
pub fn normalize_type(t: &RawType) -> (r: Result<Option<RustType>, NormalizeError>)
    ensures
        outcome_of(r) == normalize_spec(*t),
    decreases *t,
{
    match t {
        RawType::ResolvedPath(p) => {
            match &p.args {
                Option::None => Ok(
                    Some(RustType::Simple { id: last_segment_of(&p.name) }),
                ),
                Option::Some(boxed) => match &**boxed {
                    GenericArgsRef::Parenthesized => Ok(
                        Some(RustType::Simple { id: last_segment_of(&p.name) }),
                    ),
                    GenericArgsRef::AngleBracketed(args) => {
                        if args.len() == 0 {
                            return Ok(Some(RustType::Simple { id: last_segment_of(&p.name) }));
                        }
                        let ghost outs = arg_outcomes(args@);
                        let mut params: Vec<RustType> = Vec::new();
                        let mut i: usize = 0;
                        while i < args.len()
                            invariant
                                i <= args.len(),
                                params@.len() == i,
                                forall|j: int| 0 <= j < i ==> outs[j] == NormOutcome::Portable(
                                    #[trigger] params@[j].model(),
                                ),
                            decreases args.len() - i,
                        {
                            match &args[i] {
                                GenericArgRef::Type(ty) => {
                                    proof {
                                        assert(decreases_to!(*t => *ty));
                                    }
                                    match normalize_type(ty) {
                                        Ok(Some(v)) => {
                                            params.push(v);
                                        },
                                        Ok(None) => {
                                            proof {
                                                lemma_portable_prefix(outs, params@, i as int);
                                                lemma_collect_bad_at(outs, i as int);
                                            }
                                            return Ok(None);
                                        },
                                        Err(e) => {
                                            proof {
                                                lemma_portable_prefix(outs, params@, i as int);
                                                lemma_collect_bad_at(outs, i as int);
                                            }
                                            return Err(e);
                                        },
                                    }
                                },
                                _ => {
                                    proof {
                                        lemma_portable_prefix(outs, params@, i as int);
                                        lemma_collect_bad_at(outs, i as int);
                                    }
                                    return Err(NormalizeError::UnhandledGenericArg);
                                },
                            }
                            i = i + 1;
                        }
                        let ghost vals = Seq::new(
                            params@.len(),
                            |j: int| if 0 <= j < params@.len() {
                                params@[j].model()
                            } else {
                                RustTy::Simple { id: Seq::empty() }
                            },
                        );
                        proof {
                            lemma_portable_prefix(outs, params@, params@.len() as int);
                            assert(outs.len() == vals.len());
                            assert forall|j: int| 0 <= j < outs.len() implies outs[j]
                                == NormOutcome::Portable(#[trigger] vals[j]) by {
                                assert(vals[j] == params@[j].model());
                            }
                            lemma_collect_all_good(outs, vals);
                        }
                        let r = RustType::Generic {
                            id: last_segment_of(&p.name),
                            parameters: params,
                        };
                        proof {
                            let m = r.model();
                            match m {
                                RustTy::Generic { id: _, parameters: mps } => {
                                    assert(mps =~= vals);
                                },
                                _ => {
                                    assert(false);
                                },
                            }
                        }
                        assert(r.model() == normalize_spec(*t)->Portable_0);
                        Ok(Some(r))
                    },
                },
            }
        },
        RawType::Generic(s) => Ok(
            Some(RustType::Simple { id: crate::text::clone_bytes(s) }),
        ),
        RawType::Primitive(n) => match SpecialRustType::try_from(n) {
            Ok(s) => Ok(Some(RustType::Special(s))),
            Err(e) => Err(NormalizeError::UnknownPrimitive(e)),
        },
        RawType::Tuple(elems) => {
            if elems.len() == 0 {
                return Ok(Some(RustType::Special(SpecialRustType::Unit)));
            }
            let ghost outs = elem_outcomes(elems@);
            let mut i: usize = 0;
            while i < elems.len()
                invariant
                    i <= elems.len(),
                    forall|j: int| 0 <= j < i ==> !is_fatal_outcome(#[trigger] outs[j]),
                decreases elems.len() - i,
            {
                proof {
                    assert(decreases_to!(*t => elems@[i as int]));
                }
                match normalize_type(&elems[i]) {
                    Err(e) => {
                        proof {
                            lemma_first_fatal_at(outs, i as int);
                        }
                        return Err(e);
                    },
                    Ok(_) => {},
                }
                i = i + 1;
            }
            proof {
                lemma_first_fatal_none(outs);
            }
            Ok(None)
        },
        RawType::DynTrait => Ok(None),
        RawType::FunctionPointer => Ok(None),
        RawType::Slice => Ok(None),
        RawType::Array => Ok(None),
        RawType::ImplTrait => Ok(None),
        RawType::Infer => Ok(None),
        RawType::RawPointer => Ok(None),
        RawType::BorrowedRef => Ok(None),
        RawType::QualifiedPath => Ok(None),
    }
}

// --- Named items of the portable model -------------------------------------

/// Identifier of a named item of the portable model: the graph id together
/// with the declared name and the name after renaming.
pub struct Id {
    pub id: ItemId,
    pub original: Vec<u8>,
    pub renamed: Vec<u8>,
}

impl Id {
    pub fn new(id: ItemId) -> (r: Id)
        ensures
            r.id == id,
            r.original@ == Seq::<u8>::empty(),
            r.renamed@ == Seq::<u8>::empty(),
    {
        Id { id, original: Vec::new(), renamed: Vec::new() }
    }
}

/// A field of a portable struct.
pub struct RustField {
    pub id: Id,
    pub ty: RustType,
    pub comments: Vec<Vec<u8>>,
    pub has_default: bool,
}

/// A portable struct.
pub struct RustStruct {
    pub id: Id,
    pub generic_types: Vec<Vec<u8>>,
    pub fields: Vec<RustField>,
    pub comments: Vec<Vec<u8>>,
}

impl RustStruct {
    pub fn new(id: Id) -> (r: RustStruct)
        ensures
            r.id == id,
            r.generic_types@.len() == 0,
            r.fields@.len() == 0,
            r.comments@.len() == 0,
    {
        RustStruct { id, generic_types: Vec::new(), fields: Vec::new(), comments: Vec::new() }
    }
}

/// A portable type alias.
pub struct RustTypeAlias {
    pub id: Id,
    pub generic_types: Vec<Vec<u8>>,
    pub ty: RustType,
    pub comments: Vec<Vec<u8>>,
}

/// Variant data shared among the variant shapes.
pub struct RustEnumVariantShared {
    pub id: Id,
    pub comments: Vec<Vec<u8>>,
}

/// A variant of a portable enum.
pub enum RustEnumVariant {
    Unit(RustEnumVariantShared),
    Tuple { ty: RustType, shared: RustEnumVariantShared },
    AnonymousStruct { fields: Vec<RustField>, shared: RustEnumVariantShared },
}

impl RustEnumVariant {
    /// The shared content of this variant.
    pub open spec fn shared_spec(self) -> RustEnumVariantShared {
        match self {
            RustEnumVariant::Unit(shared) => shared,
            RustEnumVariant::Tuple { shared, .. } => shared,
            RustEnumVariant::AnonymousStruct { shared, .. } => shared,
        }
    }

    pub fn shared(&self) -> (r: &RustEnumVariantShared)
        ensures
            *r == self.shared_spec(),
    {
        match self {
            RustEnumVariant::Unit(shared) => shared,
            RustEnumVariant::Tuple { shared, .. } => shared,
            RustEnumVariant::AnonymousStruct { shared, .. } => shared,
        }
    }
}

/// Enum data shared among the enum shapes.
pub struct RustEnumShared {
    pub id: Id,
    pub generic_types: Vec<Vec<u8>>,
    pub comments: Vec<Vec<u8>>,
    pub variants: Vec<RustEnumVariant>,
    pub is_recursive: bool,
}

/// A portable enum.
pub enum RustEnum {
    Unit(RustEnumShared),
    Algebraic { tag_key: Vec<u8>, content_key: Vec<u8>, shared: RustEnumShared },
}

impl RustEnum {
    /// The shared content of this enum.
    pub open spec fn shared_spec(self) -> RustEnumShared {
        match self {
            RustEnum::Unit(shared) => shared,
            RustEnum::Algebraic { shared, .. } => shared,
        }
    }

    pub fn shared(&self) -> (r: &RustEnumShared)
        ensures
            *r == self.shared_spec(),
    {
        match self {
            RustEnum::Unit(shared) => shared,
            RustEnum::Algebraic { shared, .. } => shared,
        }
    }
}

/// One unit of the portable model.
pub enum RustItem {
    Struct(RustStruct),
    Enum(RustEnum),
    Alias(RustTypeAlias),
}

} // verus!
