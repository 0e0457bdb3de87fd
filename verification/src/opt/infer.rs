//! Best-effort result types of MIR operands, used to type the temporaries
//! that desugaring introduces.
use vstd::prelude::*;

use crate::mir::{
    lemma_operands_view, local_view, operand_view, operands_view, BinOp, LocalId, LocalView,
    MirLocal, Operand, OperandView, Place, PlaceView, UnaryOp,
};
use crate::strutil::{str_eq, str_starts_with};
use crate::types::{clone_type, type_eq, Type, TypeView};

verus! {

// ---------------------------------------------------------------------------
// Call names
// ---------------------------------------------------------------------------
/// Whether "::" starts at position `i` of `s`.
pub open spec fn sep_at(s: Seq<char>, i: int) -> bool {
    0 <= i && i + 1 < s.len() && s[i] == ':' && s[i + 1] == ':'
}

/// The last position at or below `j` where "::" starts, or -1.
pub open spec fn last_sep_below(s: Seq<char>, j: int) -> int
    decreases j + 1,
{
    if j < 0 {
        -1
    } else if sep_at(s, j) {
        j
    } else {
        last_sep_below(s, j - 1)
    }
}

/// The part of a path after its last "::".
pub open spec fn last_segment(s: Seq<char>) -> Seq<char> {
    let i = last_sep_below(s, s.len() - 2);
    if i < 0 {
        s
    } else {
        s.skip(i + 2)
    }
}

/// The builtin name a call refers to: the last path segment, without an
/// `__intrinsic_` prefix.
pub open spec fn canonical_call_name_spec(name: Seq<char>) -> Seq<char> {
    let short = last_segment(name);
    let p = "__intrinsic_"@;
    if p.len() <= short.len() && short.subrange(0, p.len() as int) == p {
        short.skip(p.len() as int)
    } else {
        short
    }
}

/// The last path segment of `name` ("a::b::c" gives "c").
pub fn last_path_segment(name: &str) -> (r: &str)
    ensures
        r@ == last_segment(name@),
{
    let n = name.unicode_len();
    if n < 2 {
        assert(last_sep_below(name@, name@.len() - 2) == -1);
        return name;
    }
    let mut j: usize = n - 1;
    // Scan positions j - 1 downwards; `j` is one past the candidate.
    while j > 0
        invariant
            n == name@.len(),
            n >= 2,
            j <= n - 1,
            last_sep_below(name@, n - 2) == last_sep_below(name@, j - 1),
        decreases j,
    {
        if name.get_char(j - 1) == ':' && name.get_char(j) == ':' {
            proof {
                assert(sep_at(name@, j - 1));
            }
            return name.substring_char(j + 1, n);
        }
        assert(!sep_at(name@, j - 1));
        j = j - 1;
    }
    assert(last_sep_below(name@, -1) == -1);
    name
}

/// The builtin a call name refers to (see [`canonical_call_name_spec`]).
pub fn canonical_call_name(name: &str) -> (r: &str)
    ensures
        r@ == canonical_call_name_spec(name@),
{
    let short = last_path_segment(name);
    if str_starts_with(short, "__intrinsic_") {
        let n = short.unicode_len();
        proof {
            reveal_strlit("__intrinsic_");
        }
        short.substring_char(12, n)
    } else {
        short
    }
}

// ---------------------------------------------------------------------------
// Type merging
// ---------------------------------------------------------------------------
/// The type of a value that is one of two types.
pub open spec fn merge_types_spec(lhs: TypeView, rhs: TypeView) -> TypeView {
    if lhs is Never || lhs is Unit {
        rhs
    } else if rhs is Never || rhs is Unit {
        lhs
    } else if lhs is Any {
        rhs
    } else if rhs is Any {
        lhs
    } else if lhs == rhs {
        lhs
    } else if (lhs is I64 && rhs is U64) || (lhs is U64 && rhs is I64) {
        TypeView::I64
    } else {
        TypeView::Any
    }
}

pub fn merge_types(lhs: Type, rhs: Type) -> (r: Type)
    ensures
        r@ == merge_types_spec(lhs@, rhs@),
{
    if matches!(lhs, Type::Never | Type::Unit) {
        return rhs;
    }
    if matches!(rhs, Type::Never | Type::Unit) {
        return lhs;
    }
    if matches!(lhs, Type::Any) {
        return rhs;
    }
    if matches!(rhs, Type::Any) {
        return lhs;
    }
    if type_eq(&lhs, &rhs) {
        return lhs;
    }
    match (&lhs, &rhs) {
        (Type::I64, Type::U64) | (Type::U64, Type::I64) => Type::I64,
        _ => Type::Any,
    }
}

// ---------------------------------------------------------------------------
// Lookups
// ---------------------------------------------------------------------------
/// The type of the first of `locals` with id `id`.
pub open spec fn find_local_type(locals: Seq<LocalView>, id: LocalId) -> Option<TypeView>
    decreases locals.len(),
{
    if locals.len() == 0 {
        None
    } else if locals[0].id == id {
        Some(locals[0].ty)
    } else {
        find_local_type(locals.drop_first(), id)
    }
}

/// The type of local `id`, parameters first.
pub open spec fn lookup_local_type_spec(
    params: Seq<MirLocal>,
    locals: Seq<MirLocal>,
    id: LocalId,
) -> Option<TypeView> {
    find_local_type((params + locals).map_values(|l: MirLocal| local_view(l)), id)
}

/// The declared result type of the first entry of `rets` named `name`.
pub open spec fn lookup_ret_spec(rets: Seq<(String, Type)>, name: Seq<char>) -> Option<TypeView>
    decreases rets.len(),
{
    if rets.len() == 0 {
        None
    } else if rets[0].0@ == name {
        Some(rets[0].1@)
    } else {
        lookup_ret_spec(rets.drop_first(), name)
    }
}

fn find_in(s: &Vec<MirLocal>, id: LocalId) -> (r: Option<Type>)
    ensures
        match r {
            Some(t) => find_local_type(s@.map_values(|l: MirLocal| local_view(l)), id) == Some(t@),
            None => find_local_type(s@.map_values(|l: MirLocal| local_view(l)), id) is None,
        },
{
    let ghost v = s@.map_values(|l: MirLocal| local_view(l));
    assert(v.skip(0) =~= v);
    let mut i: usize = 0;
    while i < s.len()
        invariant
            i <= s.len(),
            v == s@.map_values(|l: MirLocal| local_view(l)),
            find_local_type(v, id) == find_local_type(v.skip(i as int), id),
        decreases s.len() - i,
    {
        assert(v.skip(i as int)[0] == v[i as int]);
        assert(v.skip(i as int).drop_first() =~= v.skip(i + 1));
        if s[i].id == id {
            return Some(clone_type(&s[i].ty));
        }
        i = i + 1;
    }
    assert(v.skip(i as int).len() == 0);
    None
}

proof fn lemma_find_local_type_append(a: Seq<LocalView>, b: Seq<LocalView>, id: LocalId)
    ensures
        find_local_type(a + b, id) == (match find_local_type(a, id) {
            Some(t) => Some(t),
            None => find_local_type(b, id),
        }),
    decreases a.len(),
{
    if a.len() > 0 {
        assert((a + b)[0] == a[0]);
        assert((a + b).drop_first() =~= a.drop_first() + b);
        lemma_find_local_type_append(a.drop_first(), b, id);
    } else {
        assert(a + b =~= b);
    }
}

/// The type of local `id`, looked up in the parameters, then the locals.
pub fn lookup_local_type(params: &Vec<MirLocal>, locals: &Vec<MirLocal>, id: LocalId) -> (r:
    Option<Type>)
    ensures
        match r {
            Some(t) => lookup_local_type_spec(params@, locals@, id) == Some(t@),
            None => lookup_local_type_spec(params@, locals@, id) is None,
        },
{
    proof {
        let f = |l: MirLocal| local_view(l);
        assert((params@ + locals@).map_values(f) =~= params@.map_values(f) + locals@.map_values(f));
        lemma_find_local_type_append(params@.map_values(f), locals@.map_values(f), id);
    }
    match find_in(params, id) {
        Some(t) => Some(t),
        None => find_in(locals, id),
    }
}

fn lookup_ret(rets: &Vec<(String, Type)>, name: &str) -> (r: Option<Type>)
    ensures
        match r {
            Some(t) => lookup_ret_spec(rets@, name@) == Some(t@),
            None => lookup_ret_spec(rets@, name@) is None,
        },
{
    assert(rets@.skip(0) =~= rets@);
    let mut i: usize = 0;
    while i < rets.len()
        invariant
            i <= rets.len(),
            lookup_ret_spec(rets@, name@) == lookup_ret_spec(rets@.skip(i as int), name@),
        decreases rets.len() - i,
    {
        assert(rets@.skip(i as int)[0] == rets@[i as int]);
        assert(rets@.skip(i as int).drop_first() =~= rets@.skip(i + 1));
        if str_eq(rets[i].0.as_str(), name) {
            return Some(clone_type(&rets[i].1));
        }
        i = i + 1;
    }
    assert(rets@.skip(i as int).len() == 0);
    None
}

// ---------------------------------------------------------------------------
// Builtin result types
// ---------------------------------------------------------------------------
pub open spec fn is_string_builtin(c: Seq<char>) -> bool {
    ||| c == "String_from"@
    ||| c == "String_new"@
    ||| c == "concat"@
    ||| c == "to_string"@
    ||| c == "i32_to_string"@
    ||| c == "f64_to_string"@
    ||| c == "f32_to_string"@
    ||| c == "i64_to_string"@
    ||| c == "bool_to_string"@
    ||| c == "char_to_string"@
    ||| c == "join"@
    ||| c == "slice"@
    ||| c == "substring"@
    ||| c == "trim"@
    ||| c == "replace"@
    ||| c == "read_line"@
    ||| c == "to_lower"@
    ||| c == "to_upper"@
}

pub open spec fn is_i32_builtin(c: Seq<char>) -> bool {
    ||| c == "len"@
    ||| c == "arg_count"@
    ||| c == "arg_at"@
    ||| c == "index_of"@
    ||| c == "char_at"@
    ||| c == "digit_value"@
    ||| c == "get_byte"@
    ||| c == "HashMap_i32_i32_len"@
    ||| c == "HashMap_i32_i32_contains_key"@
    ||| c == "contains_i32"@
    ||| c == "contains_String"@
    ||| c == "random_i32"@
}

pub open spec fn is_i64_builtin(c: Seq<char>) -> bool {
    ||| c == "clock_now"@
    ||| c == "clock_now_ms"@
    ||| c == "monotonic_now"@
    ||| c == "now_ms"@
}

pub open spec fn is_f64_builtin(c: Seq<char>) -> bool {
    ||| c == "sqrt"@
    ||| c == "random_next_f64"@
    ||| c == "next_f64"@
}

pub open spec fn is_never_builtin(c: Seq<char>) -> bool {
    ||| c == "panic"@
    ||| c == "assert"@
    ||| c == "assert_eq"@
    ||| c == "assert_ne"@
    ||| c == "assert_eq_str"@
    ||| c == "assert_eq_i64"@
    ||| c == "exit"@
    ||| c == "proc_exit"@
    ||| c == "process_exit"@
    ||| c == "process_abort"@
}

pub open spec fn is_unit_builtin(c: Seq<char>) -> bool {
    ||| c == "println"@
    ||| c == "print"@
    ||| c == "eprintln"@
    ||| c == "print_i32_ln"@
    ||| c == "print_bool_ln"@
    ||| c == "print_str_ln"@
    ||| c == "set"@
    ||| c == "sort_i32"@
    ||| c == "sort_String"@
    ||| c == "sort_i64"@
    ||| c == "sort_f64"@
    ||| c == "reverse_i32"@
    ||| c == "reverse_String"@
    ||| c == "remove_i32"@
    ||| c == "HashMap_i32_i32_insert"@
    ||| c == "push_char"@
}

pub open spec fn is_string_result_builtin(c: Seq<char>) -> bool {
    ||| c == "read_to_string"@
    ||| c == "fs_read_file"@
    ||| c == "http_get"@
    ||| c == "http_request"@
}

pub open spec fn result_of(ok: TypeView, err: TypeView) -> TypeView {
    TypeView::Result(Box::new(ok), Box::new(err))
}

/// Result types of known builtins, by canonical name; `arg0` is the type
/// of the first argument, if there is one.
pub open spec fn builtin_type(c: Seq<char>, arg0: Option<TypeView>) -> TypeView {
    if is_string_builtin(c) {
        TypeView::String
    } else if c == "clone"@ {
        match arg0 {
            Some(t) => t,
            None => TypeView::Any,
        }
    } else if c == "Vec_new_i32"@ {
        TypeView::Vec(Box::new(TypeView::I32))
    } else if c == "Vec_new_i64"@ {
        TypeView::Vec(Box::new(TypeView::I64))
    } else if c == "Vec_new_f64"@ {
        TypeView::Vec(Box::new(TypeView::F64))
    } else if c == "Vec_new_String"@ {
        TypeView::Vec(Box::new(TypeView::String))
    } else if c == "parse_i32"@ {
        result_of(TypeView::I32, TypeView::String)
    } else if c == "parse_i64"@ {
        result_of(TypeView::I64, TypeView::String)
    } else if c == "parse_f64"@ {
        result_of(TypeView::F64, TypeView::String)
    } else if is_string_result_builtin(c) {
        result_of(TypeView::String, TypeView::String)
    } else if c == "env_var"@ || c == "var"@ {
        TypeView::Option(Box::new(TypeView::String))
    } else if c == "get"@ || c == "get_unchecked"@ {
        match arg0 {
            Some(TypeView::Vec(inner)) => *inner,
            Some(TypeView::Option(inner)) => *inner,
            _ => TypeView::Any,
        }
    } else if is_i32_builtin(c) {
        TypeView::I32
    } else if is_i64_builtin(c) {
        TypeView::I64
    } else if is_f64_builtin(c) {
        TypeView::F64
    } else if is_never_builtin(c) {
        TypeView::Never
    } else if is_unit_builtin(c) {
        TypeView::Unit
    } else {
        TypeView::Any
    }
}

pub open spec fn is_http_name(name: Seq<char>) -> bool {
    ||| name == "std::host::http::get"@
    ||| name == "http::get"@
    ||| name == "std::host::http::request"@
    ||| name == "http::request"@
}

// ---------------------------------------------------------------------------
// Operand types
// ---------------------------------------------------------------------------
pub open spec fn elem_type(t: TypeView) -> TypeView {
    match t {
        TypeView::Vec(inner) => *inner,
        TypeView::Array(inner, _) => *inner,
        TypeView::Slice(inner) => *inner,
        _ => TypeView::Any,
    }
}

pub open spec fn unwrap_or_any(t: Option<TypeView>) -> TypeView {
    match t {
        Some(x) => x,
        None => TypeView::Any,
    }
}

pub open spec fn is_bool_binop(op: BinOp) -> bool {
    matches!(op, BinOp::Eq | BinOp::Ne | BinOp::Lt | BinOp::Le | BinOp::Gt | BinOp::Ge | BinOp::And | BinOp::Or)
}

/// The result type of a call: HTTP helpers, then declared results (by full
/// name, then canonical name), then known builtins.
pub open spec fn call_type_spec(
    name: Seq<char>,
    args: Seq<OperandView>,
    params: Seq<MirLocal>,
    locals: Seq<MirLocal>,
    rets: Seq<(String, Type)>,
) -> TypeView
    decreases args, 0nat,
{
    if is_http_name(name) {
        result_of(TypeView::String, TypeView::String)
    } else if lookup_ret_spec(rets, name) is Some {
        lookup_ret_spec(rets, name).unwrap()
    } else if lookup_ret_spec(rets, canonical_call_name_spec(name)) is Some {
        lookup_ret_spec(rets, canonical_call_name_spec(name)).unwrap()
    } else {
        let arg0 = if args.len() > 0 {
            Some(operand_type_spec(args[0], params, locals, rets))
        } else {
            None
        };
        builtin_type(canonical_call_name_spec(name), arg0)
    }
}

/// The best-effort type of an operand.
pub open spec fn operand_type_spec(
    o: OperandView,
    params: Seq<MirLocal>,
    locals: Seq<MirLocal>,
    rets: Seq<(String, Type)>,
) -> TypeView
    decreases o, 1nat,
{
    match o {
        OperandView::Place(PlaceView::Local(id)) => unwrap_or_any(
            lookup_local_type_spec(params, locals, id),
        ),
        OperandView::Place(PlaceView::Index(base, _)) => match *base {
            PlaceView::Local(id) => elem_type(
                unwrap_or_any(lookup_local_type_spec(params, locals, id)),
            ),
            _ => TypeView::Any,
        },
        OperandView::Place(_) => TypeView::Any,
        OperandView::ConstI32(_) | OperandView::ConstU8(_) | OperandView::ConstU16(_)
        | OperandView::ConstU32(_) | OperandView::ConstI8(_) | OperandView::ConstI16(_) => TypeView::I32,
        OperandView::ConstI64(_) | OperandView::ConstU64(_) => TypeView::I64,
        OperandView::ConstF32(_) => TypeView::F32,
        OperandView::ConstF64(_) => TypeView::F64,
        OperandView::ConstBool(_) => TypeView::Bool,
        OperandView::ConstChar(_) => TypeView::Char,
        OperandView::ConstString(_) => TypeView::String,
        OperandView::Unit => TypeView::Unit,
        OperandView::BinOp(op, l, r) => if is_bool_binop(op) {
            TypeView::Bool
        } else {
            merge_types_spec(
                operand_type_spec(*l, params, locals, rets),
                operand_type_spec(*r, params, locals, rets),
            )
        },
        OperandView::UnaryOp(op, inner) => if op == UnaryOp::Not {
            TypeView::Bool
        } else {
            operand_type_spec(*inner, params, locals, rets)
        },
        OperandView::Call(name, args) => call_type_spec(name, args, params, locals, rets),
        OperandView::IfExpr { then_result, else_result, .. } => merge_types_spec(
            match then_result {
                Some(r) => operand_type_spec(*r, params, locals, rets),
                None => TypeView::Unit,
            },
            match else_result {
                Some(r) => operand_type_spec(*r, params, locals, rets),
                None => TypeView::Unit,
            },
        ),
        OperandView::EnumInit { enum_name, variant, payload, .. } => if enum_name == "Option"@
            && variant == "Some"@ && payload.len() == 1 {
            TypeView::Option(Box::new(operand_type_spec(payload[0], params, locals, rets)))
        } else if enum_name == "Option"@ && variant == "None"@ {
            TypeView::Option(Box::new(TypeView::Any))
        } else if enum_name == "Result"@ && variant == "Ok"@ && payload.len() == 1 {
            result_of(operand_type_spec(payload[0], params, locals, rets), TypeView::Any)
        } else if enum_name == "Result"@ && variant == "Err"@ && payload.len() == 1 {
            result_of(TypeView::Any, operand_type_spec(payload[0], params, locals, rets))
        } else {
            TypeView::Any
        },
        OperandView::EnumTag(_) => TypeView::I32,
        OperandView::EnumPayload { object, variant_name, .. } => match operand_type_spec(
            *object,
            params,
            locals,
            rets,
        ) {
            TypeView::Option(inner) => *inner,
            TypeView::Result(ok, err) => if variant_name == "Ok"@ {
                *ok
            } else if variant_name == "Err"@ {
                *err
            } else {
                TypeView::Any
            },
            _ => TypeView::Any,
        },
        OperandView::LoopExpr { result, .. } => operand_type_spec(*result, params, locals, rets),
        OperandView::TryExpr { expr, .. } => match operand_type_spec(*expr, params, locals, rets) {
            TypeView::Option(inner) => *inner,
            TypeView::Result(ok, _) => *ok,
            _ => TypeView::Any,
        },
        OperandView::ArrayInit { elements } => if elements.len() > 0 {
            TypeView::Array(
                Box::new(operand_type_spec(elements[0], params, locals, rets)),
                elements.len() as u64,
            )
        } else {
            TypeView::Array(Box::new(TypeView::Any), 0)
        },
        OperandView::IndexAccess { object, .. } => elem_type(
            operand_type_spec(*object, params, locals, rets),
        ),
        _ => TypeView::Any,
    }
}

fn string_builtin(c: &str) -> (r: bool)
    ensures
        r == is_string_builtin(c@),
{
    str_eq(c, "String_from")
        || str_eq(c, "String_new")
        || str_eq(c, "concat")
        || str_eq(c, "to_string")
        || str_eq(c, "i32_to_string")
        || str_eq(c, "f64_to_string")
        || str_eq(c, "f32_to_string")
        || str_eq(c, "i64_to_string")
        || str_eq(c, "bool_to_string")
        || str_eq(c, "char_to_string")
        || str_eq(c, "join")
        || str_eq(c, "slice")
        || str_eq(c, "substring")
        || str_eq(c, "trim")
        || str_eq(c, "replace")
        || str_eq(c, "read_line")
        || str_eq(c, "to_lower")
        || str_eq(c, "to_upper")
}

fn i32_builtin(c: &str) -> (r: bool)
    ensures
        r == is_i32_builtin(c@),
{
    str_eq(c, "len")
        || str_eq(c, "arg_count")
        || str_eq(c, "arg_at")
        || str_eq(c, "index_of")
        || str_eq(c, "char_at")
        || str_eq(c, "digit_value")
        || str_eq(c, "get_byte")
        || str_eq(c, "HashMap_i32_i32_len")
        || str_eq(c, "HashMap_i32_i32_contains_key")
        || str_eq(c, "contains_i32")
        || str_eq(c, "contains_String")
        || str_eq(c, "random_i32")
}

fn i64_builtin(c: &str) -> (r: bool)
    ensures
        r == is_i64_builtin(c@),
{
    str_eq(c, "clock_now")
        || str_eq(c, "clock_now_ms")
        || str_eq(c, "monotonic_now")
        || str_eq(c, "now_ms")
}

fn f64_builtin(c: &str) -> (r: bool)
    ensures
        r == is_f64_builtin(c@),
{
    str_eq(c, "sqrt")
        || str_eq(c, "random_next_f64")
        || str_eq(c, "next_f64")
}

fn never_builtin(c: &str) -> (r: bool)
    ensures
        r == is_never_builtin(c@),
{
    str_eq(c, "panic")
        || str_eq(c, "assert")
        || str_eq(c, "assert_eq")
        || str_eq(c, "assert_ne")
        || str_eq(c, "assert_eq_str")
        || str_eq(c, "assert_eq_i64")
        || str_eq(c, "exit")
        || str_eq(c, "proc_exit")
        || str_eq(c, "process_exit")
        || str_eq(c, "process_abort")
}

fn unit_builtin(c: &str) -> (r: bool)
    ensures
        r == is_unit_builtin(c@),
{
    str_eq(c, "println")
        || str_eq(c, "print")
        || str_eq(c, "eprintln")
        || str_eq(c, "print_i32_ln")
        || str_eq(c, "print_bool_ln")
        || str_eq(c, "print_str_ln")
        || str_eq(c, "set")
        || str_eq(c, "sort_i32")
        || str_eq(c, "sort_String")
        || str_eq(c, "sort_i64")
        || str_eq(c, "sort_f64")
        || str_eq(c, "reverse_i32")
        || str_eq(c, "reverse_String")
        || str_eq(c, "remove_i32")
        || str_eq(c, "HashMap_i32_i32_insert")
        || str_eq(c, "push_char")
}

fn string_result_builtin(c: &str) -> (r: bool)
    ensures
        r == is_string_result_builtin(c@),
{
    str_eq(c, "read_to_string")
        || str_eq(c, "fs_read_file")
        || str_eq(c, "http_get")
        || str_eq(c, "http_request")
}

/// The result type of the builtin with canonical name `c`, given the type
/// of its first argument.
fn builtin_call_type(c: &str, arg0: Option<Type>) -> (r: Type)
    ensures
        r@ == builtin_type(
            c@,
            match arg0 {
                Some(t) => Some(t@),
                None => None,
            },
        ),
{
    proof {
        reveal_with_fuel(crate::types::type_view, 3);
    }
    if string_builtin(c) {
        Type::String
    } else if str_eq(c, "clone") {
        match arg0 {
            Some(t) => t,
            None => Type::Any,
        }
    } else if str_eq(c, "Vec_new_i32") {
        Type::Vec(Box::new(Type::I32))
    } else if str_eq(c, "Vec_new_i64") {
        Type::Vec(Box::new(Type::I64))
    } else if str_eq(c, "Vec_new_f64") {
        Type::Vec(Box::new(Type::F64))
    } else if str_eq(c, "Vec_new_String") {
        Type::Vec(Box::new(Type::String))
    } else if str_eq(c, "parse_i32") {
        Type::Result(Box::new(Type::I32), Box::new(Type::String))
    } else if str_eq(c, "parse_i64") {
        Type::Result(Box::new(Type::I64), Box::new(Type::String))
    } else if str_eq(c, "parse_f64") {
        Type::Result(Box::new(Type::F64), Box::new(Type::String))
    } else if string_result_builtin(c) {
        Type::Result(Box::new(Type::String), Box::new(Type::String))
    } else if str_eq(c, "env_var") || str_eq(c, "var") {
        Type::Option(Box::new(Type::String))
    } else if str_eq(c, "get") || str_eq(c, "get_unchecked") {
        match arg0 {
            Some(Type::Vec(inner)) => *inner,
            Some(Type::Option(inner)) => *inner,
            _ => Type::Any,
        }
    } else if i32_builtin(c) {
        Type::I32
    } else if i64_builtin(c) {
        Type::I64
    } else if f64_builtin(c) {
        Type::F64
    } else if never_builtin(c) {
        Type::Never
    } else if unit_builtin(c) {
        Type::Unit
    } else {
        Type::Any
    }
}

/// The result type of a call to `name` with `args`.
pub fn infer_call_type(
    name: &str,
    args: &Vec<Operand>,
    params: &Vec<MirLocal>,
    locals: &Vec<MirLocal>,
    rets: &Vec<(String, Type)>,
) -> (r: Type)
    ensures
        r@ == call_type_spec(name@, operands_view(args@), params@, locals@, rets@),
    decreases args, 0nat,
{
    let canonical = canonical_call_name(name);
    let h1 = str_eq(name, "std::host::http::get");
    let h2 = str_eq(name, "http::get");
    let h3 = str_eq(name, "std::host::http::request");
    let h4 = str_eq(name, "http::request");
    assert((h1 || h2 || h3 || h4) == is_http_name(name@));
    if h1 || h2 || h3 || h4 {
        let r = Type::Result(Box::new(Type::String), Box::new(Type::String));
        proof {
            reveal_with_fuel(crate::types::type_view, 2);
        }
        return r;
    }
    if let Some(ty) = lookup_ret(rets, name) {
        return ty;
    }
    if let Some(ty) = lookup_ret(rets, canonical) {
        return ty;
    }
    proof {
        lemma_operands_view(args@);
    }
    let arg0 = if args.len() > 0 {
        proof {
            broadcast use vstd::std_specs::vec::axiom_vec_index_decreases;

            assert(decreases_to!(args => args[0]));
        }
        Some(infer_operand_type(&args[0], params, locals, rets))
    } else {
        None
    };
    builtin_call_type(canonical, arg0)
}

pub(crate) fn infer_opt(
    o: &Option<Box<Operand>>,
    params: &Vec<MirLocal>,
    locals: &Vec<MirLocal>,
    rets: &Vec<(String, Type)>,
) -> (r: Type)
    ensures
        r@ == match o {
            Some(b) => operand_type_spec(operand_view(**b), params@, locals@, rets@),
            None => TypeView::Unit,
        },
    decreases o, 0nat,
{
    match o {
        Some(b) => infer_operand_type(b, params, locals, rets),
        None => Type::Unit,
    }
}

fn elem_of(t: Type) -> (r: Type)
    ensures
        r@ == elem_type(t@),
{
    match t {
        Type::Vec(inner) => *inner,
        Type::Array(inner, _) => *inner,
        Type::Slice(inner) => *inner,
        _ => Type::Any,
    }
}

fn infer_place_type(p: &Place, params: &Vec<MirLocal>, locals: &Vec<MirLocal>) -> (r: Type)
    ensures
        r@ == operand_type_spec(OperandView::Place(p@), params@, locals@, Seq::empty()),
{
    proof {
        reveal_with_fuel(crate::mir::place_view, 2);
    }
    match p {
        Place::Local(id) => match lookup_local_type(params, locals, *id) {
            Some(t) => t,
            None => Type::Any,
        },
        Place::Index(base, _) => match &**base {
            Place::Local(id) => match lookup_local_type(params, locals, *id) {
                Some(t) => elem_of(t),
                None => Type::Any,
            },
            _ => Type::Any,
        },
        _ => Type::Any,
    }
}

fn infer_enum_init_type(
    op: &Operand,
    params: &Vec<MirLocal>,
    locals: &Vec<MirLocal>,
    rets: &Vec<(String, Type)>,
) -> (r: Type)
    requires
        op is EnumInit,
    ensures
        r@ == operand_type_spec(op@, params@, locals@, rets@),
    decreases op, 0nat,
{
    proof {
        reveal_with_fuel(crate::types::type_view, 2);
    }
    match op {
        Operand::EnumInit { enum_name, variant, payload, .. } => {
            proof {
                lemma_operands_view(payload@);
            }
            let e = enum_name.as_str();
            let v = variant.as_str();
            if payload.len() == 1 {
                proof {
                    broadcast use vstd::std_specs::vec::axiom_vec_index_decreases;

                    assert(decreases_to!(payload => payload[0]));
                }
                if str_eq(e, "Option") && str_eq(v, "Some") {
                    return Type::Option(
                        Box::new(infer_operand_type(&payload[0], params, locals, rets)),
                    );
                }
            }
            if str_eq(e, "Option") && str_eq(v, "None") {
                return Type::Option(Box::new(Type::Any));
            }
            if payload.len() == 1 {
                proof {
                    broadcast use vstd::std_specs::vec::axiom_vec_index_decreases;

                    assert(decreases_to!(payload => payload[0]));
                }
                if str_eq(e, "Result") && str_eq(v, "Ok") {
                    let t = infer_operand_type(&payload[0], params, locals, rets);
                    return Type::Result(Box::new(t), Box::new(Type::Any));
                }
                if str_eq(e, "Result") && str_eq(v, "Err") {
                    let t = infer_operand_type(&payload[0], params, locals, rets);
                    return Type::Result(Box::new(Type::Any), Box::new(t));
                }
            }
            Type::Any
        },
        _ => Type::Any,
    }
}

fn infer_enum_payload_type(
    op: &Operand,
    params: &Vec<MirLocal>,
    locals: &Vec<MirLocal>,
    rets: &Vec<(String, Type)>,
) -> (r: Type)
    requires
        op is EnumPayload,
    ensures
        r@ == operand_type_spec(op@, params@, locals@, rets@),
    decreases op, 0nat,
{
    match op {
        Operand::EnumPayload { object, variant_name, .. } => {
            match infer_operand_type(object, params, locals, rets) {
                Type::Option(inner) => *inner,
                Type::Result(ok, err) => {
                    if str_eq(variant_name.as_str(), "Ok") {
                        *ok
                    } else if str_eq(variant_name.as_str(), "Err") {
                        *err
                    } else {
                        Type::Any
                    }
                },
                _ => Type::Any,
            }
        },
        _ => Type::Any,
    }
}

fn infer_array_init_type(
    op: &Operand,
    params: &Vec<MirLocal>,
    locals: &Vec<MirLocal>,
    rets: &Vec<(String, Type)>,
) -> (r: Type)
    requires
        op is ArrayInit,
    ensures
        r@ == operand_type_spec(op@, params@, locals@, rets@),
    decreases op, 0nat,
{
    proof {
        reveal_with_fuel(crate::types::type_view, 2);
    }
    match op {
        Operand::ArrayInit { elements } => {
            proof {
                lemma_operands_view(elements@);
            }
            if elements.len() > 0 {
                proof {
                    broadcast use vstd::std_specs::vec::axiom_vec_index_decreases;

                    assert(decreases_to!(elements => elements[0]));
                }
                let t = infer_operand_type(&elements[0], params, locals, rets);
                Type::Array(Box::new(t), elements.len() as u64)
            } else {
                Type::Array(Box::new(Type::Any), 0)
            }
        },
        _ => Type::Any,
    }
}

fn infer_binop_type(
    op: &Operand,
    params: &Vec<MirLocal>,
    locals: &Vec<MirLocal>,
    rets: &Vec<(String, Type)>,
) -> (r: Type)
    requires
        op is BinOp,
    ensures
        r@ == operand_type_spec(op@, params@, locals@, rets@),
    decreases op, 0nat,
{
    match op {
        Operand::BinOp(bop, lhs, rhs) => match bop {
            BinOp::Eq | BinOp::Ne | BinOp::Lt | BinOp::Le | BinOp::Gt | BinOp::Ge | BinOp::And
            | BinOp::Or => Type::Bool,
            _ => {
                let l = infer_operand_type(lhs, params, locals, rets);
                let r = infer_operand_type(rhs, params, locals, rets);
                merge_types(l, r)
            },
        },
        _ => Type::Any,
    }
}

fn infer_unary_type(
    op: &Operand,
    params: &Vec<MirLocal>,
    locals: &Vec<MirLocal>,
    rets: &Vec<(String, Type)>,
) -> (r: Type)
    requires
        op is UnaryOp,
    ensures
        r@ == operand_type_spec(op@, params@, locals@, rets@),
    decreases op, 0nat,
{
    match op {
        Operand::UnaryOp(uop, inner) => match uop {
            UnaryOp::Not => Type::Bool,
            _ => infer_operand_type(inner, params, locals, rets),
        },
        _ => Type::Any,
    }
}

fn infer_if_type(
    op: &Operand,
    params: &Vec<MirLocal>,
    locals: &Vec<MirLocal>,
    rets: &Vec<(String, Type)>,
) -> (r: Type)
    requires
        op is IfExpr,
    ensures
        r@ == operand_type_spec(op@, params@, locals@, rets@),
    decreases op, 0nat,
{
    match op {
        Operand::IfExpr { then_result, else_result, .. } => {
            let t = infer_opt(then_result, params, locals, rets);
            let e = infer_opt(else_result, params, locals, rets);
            proof {
                match then_result {
                    Some(b) => assert(crate::mir::opt_box_operand_view(*then_result) == Some(
                        Box::new(operand_view(**b)),
                    )),
                    None => {},
                }
                match else_result {
                    Some(b) => assert(crate::mir::opt_box_operand_view(*else_result) == Some(
                        Box::new(operand_view(**b)),
                    )),
                    None => {},
                }
            }
            merge_types(t, e)
        },
        _ => Type::Any,
    }
}

fn infer_try_type(
    op: &Operand,
    params: &Vec<MirLocal>,
    locals: &Vec<MirLocal>,
    rets: &Vec<(String, Type)>,
) -> (r: Type)
    requires
        op is TryExpr,
    ensures
        r@ == operand_type_spec(op@, params@, locals@, rets@),
    decreases op, 0nat,
{
    match op {
        Operand::TryExpr { expr, .. } => match infer_operand_type(expr, params, locals, rets) {
            Type::Option(inner) => *inner,
            Type::Result(ok, _) => *ok,
            _ => Type::Any,
        },
        _ => Type::Any,
    }
}

fn infer_index_type(
    op: &Operand,
    params: &Vec<MirLocal>,
    locals: &Vec<MirLocal>,
    rets: &Vec<(String, Type)>,
) -> (r: Type)
    requires
        op is IndexAccess,
    ensures
        r@ == operand_type_spec(op@, params@, locals@, rets@),
    decreases op, 0nat,
{
    match op {
        Operand::IndexAccess { object, .. } => elem_of(
            infer_operand_type(object, params, locals, rets),
        ),
        _ => Type::Any,
    }
}

/// The best-effort type of `op`, given the function's parameters and
/// locals and the declared result types of callees.
pub fn infer_operand_type(
    op: &Operand,
    params: &Vec<MirLocal>,
    locals: &Vec<MirLocal>,
    rets: &Vec<(String, Type)>,
) -> (r: Type)
    ensures
        r@ == operand_type_spec(op@, params@, locals@, rets@),
    decreases op, 1nat,
{
    match op {
        Operand::Place(p) => infer_place_type(p, params, locals),
        Operand::ConstI32(_) | Operand::ConstU8(_) | Operand::ConstU16(_) | Operand::ConstU32(_)
        | Operand::ConstI8(_) | Operand::ConstI16(_) => Type::I32,
        Operand::ConstI64(_) | Operand::ConstU64(_) => Type::I64,
        Operand::ConstF32(_) => Type::F32,
        Operand::ConstF64(_) => Type::F64,
        Operand::ConstBool(_) => Type::Bool,
        Operand::ConstChar(_) => Type::Char,
        Operand::ConstString(_) => Type::String,
        Operand::Unit => Type::Unit,
        Operand::Call(name, args) => infer_call_type(name.as_str(), args, params, locals, rets),
        Operand::EnumInit { .. } => infer_enum_init_type(op, params, locals, rets),
        Operand::EnumTag(_) => Type::I32,
        Operand::EnumPayload { .. } => infer_enum_payload_type(op, params, locals, rets),
        Operand::ArrayInit { .. } => infer_array_init_type(op, params, locals, rets),
        Operand::BinOp(..) => infer_binop_type(op, params, locals, rets),
        Operand::UnaryOp(..) => infer_unary_type(op, params, locals, rets),
        Operand::IfExpr { .. } => infer_if_type(op, params, locals, rets),
        Operand::LoopExpr { result, .. } => infer_operand_type(result, params, locals, rets),
        Operand::TryExpr { .. } => infer_try_type(op, params, locals, rets),
        Operand::IndexAccess { .. } => infer_index_type(op, params, locals, rets),
        _ => Type::Any,
    }
}

} // verus!
