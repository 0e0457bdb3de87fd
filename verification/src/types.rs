//! Checker-level types carried by MIR locals, and source spans.
//!
//! MIR does not interpret these beyond a few classification queries
//! (heap-ness, element types, merging two branch types); the checker
//! that produces them lives upstream.
use vstd::prelude::*;

verus! {

/// A source location: file and byte range.
#[derive(Debug, Clone, Copy, PartialEq, Eq, Structural)]
pub struct Span {
    pub file_id: u32,
    pub start: u32,
    pub end: u32,
}

/// A resolved checker type, as attached to MIR locals and function results.
#[derive(Debug)]
pub enum Type {
    I32,
    I64,
    U64,
    F32,
    F64,
    Bool,
    Char,
    String,
    Unit,
    Never,
    Any,
    Vec(Box<Type>),
    Option(Box<Type>),
    Result(Box<Type>, Box<Type>),
    Array(Box<Type>, u64),
    Slice(Box<Type>),
    Tuple(Vec<Type>),
    /// A struct, by its checker id.
    Struct(u32),
    /// An enum, by its checker id.
    Enum(u32),
}

/// The mathematical value of a [`Type`]: the same tree with sequences for
/// tuple element lists.
pub enum TypeView {
    I32,
    I64,
    U64,
    F32,
    F64,
    Bool,
    Char,
    String,
    Unit,
    Never,
    Any,
    Vec(Box<TypeView>),
    Option(Box<TypeView>),
    Result(Box<TypeView>, Box<TypeView>),
    Array(Box<TypeView>, u64),
    Slice(Box<TypeView>),
    Tuple(Seq<TypeView>),
    Struct(u32),
    Enum(u32),
}

pub open spec fn type_view(t: Type) -> TypeView
    decreases t,
{
    match t {
        Type::I32 => TypeView::I32,
        Type::I64 => TypeView::I64,
        Type::U64 => TypeView::U64,
        Type::F32 => TypeView::F32,
        Type::F64 => TypeView::F64,
        Type::Bool => TypeView::Bool,
        Type::Char => TypeView::Char,
        Type::String => TypeView::String,
        Type::Unit => TypeView::Unit,
        Type::Never => TypeView::Never,
        Type::Any => TypeView::Any,
        Type::Vec(b) => TypeView::Vec(Box::new(type_view(*b))),
        Type::Option(b) => TypeView::Option(Box::new(type_view(*b))),
        Type::Result(a, b) => TypeView::Result(Box::new(type_view(*a)), Box::new(type_view(*b))),
        Type::Array(b, n) => TypeView::Array(Box::new(type_view(*b)), n),
        Type::Slice(b) => TypeView::Slice(Box::new(type_view(*b))),
        Type::Tuple(v) => TypeView::Tuple(types_view(v@)),
        Type::Struct(id) => TypeView::Struct(id),
        Type::Enum(id) => TypeView::Enum(id),
    }
}

pub open spec fn types_view(s: Seq<Type>) -> Seq<TypeView>
    decreases s,
{
    if s.len() == 0 {
        Seq::empty()
    } else {
        types_view(s.drop_last()).push(type_view(s.last()))
    }
}

impl View for Type {
    type V = TypeView;

    open spec fn view(&self) -> TypeView {
        type_view(*self)
    }
}

pub proof fn lemma_types_view(s: Seq<Type>)
    ensures
        types_view(s).len() == s.len(),
        forall|i: int| 0 <= i < s.len() ==> #[trigger] types_view(s)[i] == type_view(s[i]),
    decreases s.len(),
{
    if s.len() > 0 {
        lemma_types_view(s.drop_last());
    }
}

/// Whether a type is allocated on the heap: strings, collections, structs,
/// enums, options, results and tuples.
pub open spec fn is_heap_type_spec(t: TypeView) -> bool {
    match t {
        TypeView::String | TypeView::Vec(_) | TypeView::Struct(_) | TypeView::Enum(_)
        | TypeView::Option(_) | TypeView::Result(_, _) | TypeView::Array(_, _)
        | TypeView::Slice(_) | TypeView::Tuple(_) => true,
        _ => false,
    }
}

/// Whether values of `ty` live on the heap.
pub fn is_heap_type(ty: &Type) -> (r: bool)
    ensures
        r == is_heap_type_spec(ty@),
{
    match ty {
        Type::String | Type::Vec(_) | Type::Struct(_) | Type::Enum(_) | Type::Option(_)
        | Type::Result(_, _) | Type::Array(_, _) | Type::Slice(_) | Type::Tuple(_) => true,
        _ => false,
    }
}

/// A copy of `t` with the same value.
pub fn clone_type(t: &Type) -> (r: Type)
    ensures
        r@ == t@,
    decreases t,
{
    match t {
        Type::I32 => Type::I32,
        Type::I64 => Type::I64,
        Type::U64 => Type::U64,
        Type::F32 => Type::F32,
        Type::F64 => Type::F64,
        Type::Bool => Type::Bool,
        Type::Char => Type::Char,
        Type::String => Type::String,
        Type::Unit => Type::Unit,
        Type::Never => Type::Never,
        Type::Any => Type::Any,
        Type::Vec(b) => Type::Vec(Box::new(clone_type(b))),
        Type::Option(b) => Type::Option(Box::new(clone_type(b))),
        Type::Result(a, b) => Type::Result(Box::new(clone_type(a)), Box::new(clone_type(b))),
        Type::Array(b, n) => Type::Array(Box::new(clone_type(b)), *n),
        Type::Slice(b) => Type::Slice(Box::new(clone_type(b))),
        Type::Tuple(v) => {
            let mut out: Vec<Type> = Vec::new();
            let mut i: usize = 0;
            #[verifier::loop_isolation(false)]
            while i < v.len()
                invariant
                    i <= v.len(),
                    types_view(out@) == types_view(v@.take(i as int)),
                decreases v.len() - i,
            {
                proof {
                    broadcast use vstd::std_specs::vec::axiom_vec_index_decreases;

                    assert(decreases_to!(v => v[i as int]));
                }
                let c = clone_type(&v[i]);
                proof {
                    assert(v@.take(i as int + 1).drop_last() =~= v@.take(i as int));
                    assert(out@.push(c).drop_last() =~= out@);
                }
                out.push(c);
                i = i + 1;
            }
            assert(v@.take(v.len() as int) =~= v@);
            Type::Tuple(out)
        },
        Type::Struct(id) => Type::Struct(*id),
        Type::Enum(id) => Type::Enum(*id),
    }
}

impl Clone for Type {
    fn clone(&self) -> (r: Self)
        ensures
            r@ == self@,
    {
        clone_type(self)
    }
}

/// Structural equality of two types.
pub fn type_eq(a: &Type, b: &Type) -> (r: bool)
    ensures
        r == (a@ == b@),
    decreases a,
{
    match (a, b) {
        (Type::I32, Type::I32) => true,
        (Type::I64, Type::I64) => true,
        (Type::U64, Type::U64) => true,
        (Type::F32, Type::F32) => true,
        (Type::F64, Type::F64) => true,
        (Type::Bool, Type::Bool) => true,
        (Type::Char, Type::Char) => true,
        (Type::String, Type::String) => true,
        (Type::Unit, Type::Unit) => true,
        (Type::Never, Type::Never) => true,
        (Type::Any, Type::Any) => true,
        (Type::Vec(x), Type::Vec(y)) => type_eq(x, y),
        (Type::Option(x), Type::Option(y)) => type_eq(x, y),
        (Type::Result(x1, x2), Type::Result(y1, y2)) => type_eq(x1, y1) && type_eq(x2, y2),
        (Type::Array(x, n), Type::Array(y, m)) => *n == *m && type_eq(x, y),
        (Type::Slice(x), Type::Slice(y)) => type_eq(x, y),
        (Type::Tuple(xs), Type::Tuple(ys)) => {
            proof {
                lemma_types_view(xs@);
                lemma_types_view(ys@);
            }
            if xs.len() != ys.len() {
                assert(types_view(xs@).len() != types_view(ys@).len());
                return false;
            }
            let mut i: usize = 0;
            #[verifier::loop_isolation(false)]
            while i < xs.len()
                invariant
                    i <= xs.len(),
                    xs.len() == ys.len(),
                    forall|j: int| 0 <= j < i ==> type_view(xs@[j]) == type_view(ys@[j]),
                decreases xs.len() - i,
            {
                proof {
                    broadcast use vstd::std_specs::vec::axiom_vec_index_decreases;

                    assert(decreases_to!(xs => xs[i as int]));
                }
                if !type_eq(&xs[i], &ys[i]) {
                    assert(types_view(xs@)[i as int] != types_view(ys@)[i as int]);
                    return false;
                }
                i = i + 1;
            }
            assert(types_view(xs@) =~= types_view(ys@));
            true
        },
        (Type::Struct(x), Type::Struct(y)) => *x == *y,
        (Type::Enum(x), Type::Enum(y)) => *x == *y,
        _ => false,
    }
}

} // verus!
