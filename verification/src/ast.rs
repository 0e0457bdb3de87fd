//! Type expressions of the typed AST, as lowering reads them: named types,
//! generic applications and the unit type; every other form is told apart
//! only as such. Lowering maps them to checker types, to display names and
//! to the names of the specialised `Result` enums.
use vstd::prelude::*;

use crate::strutil::{join_strings, join_with, str_eq, strings_view};
use crate::types::{Type, TypeView};

verus! {

#[derive(Debug)]
pub enum TypeExpr {
    Named { name: String },
    Generic { name: String, args: Vec<TypeExpr> },
    Unit,
    Other,
}

// ---------------------------------------------------------------------------
// Checker types
// ---------------------------------------------------------------------------
/// The checker type a named type lowers to; an unknown name lowers to `i32`.
pub open spec fn named_type(n: Seq<char>) -> TypeView {
    if n == "i64"@ || n == "u64"@ {
        TypeView::I64
    } else if n == "f64"@ {
        TypeView::F64
    } else if n == "f32"@ {
        TypeView::F32
    } else if n == "bool"@ {
        TypeView::Bool
    } else if n == "char"@ {
        TypeView::Char
    } else if n == "String"@ {
        TypeView::String
    } else {
        TypeView::I32
    }
}

/// The checker type of a type expression: `Vec` of its first argument's
/// type (`i32` without one), unit, a named type, or else `i32`.
pub open spec fn lowered_type(t: TypeExpr) -> TypeView
    decreases t,
{
    match t {
        TypeExpr::Named { name } => named_type(name@),
        TypeExpr::Generic { name, args } => {
            if name@ == "Vec"@ {
                if args@.len() > 0 {
                    TypeView::Vec(Box::new(lowered_type(args@[0])))
                } else {
                    TypeView::Vec(Box::new(TypeView::I32))
                }
            } else {
                TypeView::I32
            }
        },
        TypeExpr::Unit => TypeView::Unit,
        TypeExpr::Other => TypeView::I32,
    }
}

fn named_to_type(name: &str) -> (r: Type)
    ensures
        r@ == named_type(name@),
{
    if str_eq(name, "i64") || str_eq(name, "u64") {
        Type::I64
    } else if str_eq(name, "f64") {
        Type::F64
    } else if str_eq(name, "f32") {
        Type::F32
    } else if str_eq(name, "bool") {
        Type::Bool
    } else if str_eq(name, "char") {
        Type::Char
    } else if str_eq(name, "String") {
        Type::String
    } else {
        Type::I32
    }
}

/// Convert a type expression to the corresponding checker type.
pub fn lower_type_expr_to_type(ty: &TypeExpr) -> (r: Type)
    ensures
        r@ == lowered_type(*ty),
    decreases ty,
{
    match ty {
        TypeExpr::Named { name } => {
            named_to_type(name.as_str())
        },
        TypeExpr::Generic { name, args } => {
            if str_eq(name.as_str(), "Vec") {
                if args.len() > 0 {
                    Type::Vec(Box::new(lower_type_expr_to_type(&args[0])))
                } else {
                    let inner = Type::I32;
                    assert(inner@ == TypeView::I32);
                    Type::Vec(Box::new(inner))
                }
            } else {
                Type::I32
            }
        },
        TypeExpr::Unit => Type::Unit,
        TypeExpr::Other => Type::I32,
    }
}

/// Whether the type expression names `String`.
pub fn is_string_type(ty: &TypeExpr) -> (r: bool)
    ensures
        r == (ty matches TypeExpr::Named { name } && name@ == "String"@),
{
    match ty {
        TypeExpr::Named { name } => str_eq(name.as_str(), "String"),
        _ => false,
    }
}

// ---------------------------------------------------------------------------
// Display names
// ---------------------------------------------------------------------------
/// The display name of a type expression: a generic application with
/// arguments shows them between angle brackets, separated by `, `.
pub open spec fn display_name(t: TypeExpr) -> Seq<char>
    decreases t,
{
    match t {
        TypeExpr::Named { name } => name@,
        TypeExpr::Generic { name, args } => {
            if args@.len() == 0 {
                name@
            } else {
                name@ + "<"@ + join_with(display_names(args@), ", "@) + ">"@
            }
        },
        TypeExpr::Unit => "()"@,
        TypeExpr::Other => "unknown"@,
    }
}

/// The display names of a list of type expressions.
pub open spec fn display_names(ts: Seq<TypeExpr>) -> Seq<Seq<char>>
    decreases ts,
{
    if ts.len() == 0 {
        Seq::empty()
    } else {
        display_names(ts.drop_last()).push(display_name(ts.last()))
    }
}

/// The display name of a type expression.
pub fn type_expr_name(ty: &TypeExpr) -> (r: String)
    ensures
        r@ == display_name(*ty),
    decreases ty,
{
    match ty {
        TypeExpr::Named { name } => name.as_str().to_owned(),
        TypeExpr::Generic { name, args } => {
            if args.len() == 0 {
                name.as_str().to_owned()
            } else {
                let mut parts: Vec<String> = Vec::new();
                let mut i: usize = 0;
                while i < args.len()
                    invariant
                        i <= args.len(),
                        strings_view(parts@) == display_names(args@.take(i as int)),
                        *ty == (TypeExpr::Generic { name: *name, args: *args }),
                    decreases args.len() - i,
                {
                    proof {
                        assert(args@.take(i + 1).drop_last() =~= args@.take(i as int));
                        assert(decreases_to!(*ty => ty->Generic_args));
                        assert(decreases_to!(ty->Generic_args => ty->Generic_args@));
                        assert(decreases_to!(ty->Generic_args@ => ty->Generic_args@[i as int]));
                    }
                    let part = type_expr_name(&args[i]);
                    parts.push(part);
                    proof {
                        assert(strings_view(parts@) =~= display_names(args@.take(i as int)).push(part@));
                    }
                    i = i + 1;
                }
                proof {
                    assert(args@.take(i as int) =~= args@);
                }
                let mut out = name.as_str().to_owned();
                out.append("<");
                out.append(join_strings(&parts, ", ").as_str());
                out.append(">");
                out
            }
        },
        TypeExpr::Unit => "()".to_owned(),
        TypeExpr::Other => "unknown".to_owned(),
    }
}

// ---------------------------------------------------------------------------
// Specialised Result enums
// ---------------------------------------------------------------------------
/// The nominal name of a type expression: a named type by its name, unit as
/// `Unit`, a generic application as its name and its arguments' nominal
/// names joined by `_`; no other form, nor an application with an argument
/// of such a form, has one.
pub open spec fn nominal(t: TypeExpr) -> Option<Seq<char>>
    decreases t,
{
    match t {
        TypeExpr::Named { name } => Some(name@),
        TypeExpr::Unit => Some("Unit"@),
        TypeExpr::Generic { name, args } => match nominals(args@) {
            Some(parts) => Some(join_with(seq![name@] + parts, "_"@)),
            None => None,
        },
        TypeExpr::Other => None,
    }
}

/// The nominal names of a list of type expressions, where each has one.
pub open spec fn nominals(ts: Seq<TypeExpr>) -> Option<Seq<Seq<char>>>
    decreases ts,
{
    if ts.len() == 0 {
        Some(Seq::empty())
    } else {
        match (nominals(ts.drop_last()), nominal(ts.last())) {
            (Some(p), Some(x)) => Some(p.push(x)),
            _ => None,
        }
    }
}

proof fn lemma_nominals_none(ts: Seq<TypeExpr>, i: int)
    requires
        0 <= i <= ts.len(),
        nominals(ts.take(i)) is None,
    ensures
        nominals(ts) is None,
    decreases ts.len() - i,
{
    if i < ts.len() {
        assert(ts.take(i + 1).drop_last() =~= ts.take(i));
        lemma_nominals_none(ts, i + 1);
    } else {
        assert(ts.take(i) =~= ts);
    }
}

fn nominalize_type_expr(ty: &TypeExpr) -> (r: Option<String>)
    ensures
        match r {
            Some(s) => nominal(*ty) == Some(s@),
            None => nominal(*ty) is None,
        },
    decreases ty,
{
    match ty {
        TypeExpr::Named { name } => Some(name.as_str().to_owned()),
        TypeExpr::Unit => Some("Unit".to_owned()),
        TypeExpr::Generic { name, args } => {
            let mut parts: Vec<String> = Vec::new();
            parts.push(name.as_str().to_owned());
            proof {
                assert(args@.take(0) =~= Seq::<TypeExpr>::empty());
                assert(strings_view(parts@) =~= seq![name@] + Seq::<Seq<char>>::empty());
            }
            let mut i: usize = 0;
            while i < args.len()
                invariant
                    i <= args.len(),
                    nominals(args@.take(i as int)) is Some,
                    strings_view(parts@) == seq![name@] + nominals(args@.take(i as int))->Some_0,
                    *ty == (TypeExpr::Generic { name: *name, args: *args }),
                decreases args.len() - i,
            {
                proof {
                    assert(args@.take(i + 1).drop_last() =~= args@.take(i as int));
                    assert(args@.take(i + 1).last() == args@[i as int]);
                    assert(decreases_to!(*ty => ty->Generic_args));
                    assert(decreases_to!(ty->Generic_args => ty->Generic_args@));
                    assert(decreases_to!(ty->Generic_args@ => ty->Generic_args@[i as int]));
                }
                match nominalize_type_expr(&args[i]) {
                    Some(part) => {
                        let ghost before = strings_view(parts@);
                        parts.push(part);
                        proof {
                            assert(strings_view(parts@) =~= before.push(part@));
                            assert(nominals(args@.take(i + 1)) == Some(
                                nominals(args@.take(i as int))->Some_0.push(part@),
                            ));
                            assert(strings_view(parts@) =~= seq![name@] + nominals(
                                args@.take(i + 1),
                            )->Some_0);
                        }
                    },
                    None => {
                        proof {
                            lemma_nominals_none(args@, i + 1);
                        }
                        return None;
                    },
                }
                i = i + 1;
            }
            proof {
                assert(args@.take(i as int) =~= args@);
            }
            Some(join_strings(&parts, "_"))
        },
        TypeExpr::Other => None,
    }
}

pub open spec fn is_specialized_result_name(s: Seq<char>) -> bool {
    s == "Result_i64_String"@ || s == "Result_f64_String"@ || s == "Result_String_String"@
}

/// The specialised `Result` enum a type expression names: a `Result`
/// application whose nominal name is that of one of the specialised enums.
pub open spec fn specialized_result(t: TypeExpr) -> Option<Seq<char>> {
    if t matches TypeExpr::Generic { name, .. } && name@ == "Result"@ {
        match nominal(t) {
            Some(s) => if is_specialized_result_name(s) {
                Some(s)
            } else {
                None
            },
            None => None,
        }
    } else {
        None
    }
}

/// The specialised `Result` enum for concrete payloads, such as
/// `Result_i64_String` for `Result<i64, String>`, if the type names one.
pub fn detect_specialized_result(type_expr: &TypeExpr) -> (r: Option<String>)
    ensures
        match r {
            Some(s) => specialized_result(*type_expr) == Some(s@),
            None => specialized_result(*type_expr) is None,
        },
{
    if let TypeExpr::Generic { name, .. } = type_expr {
        if str_eq(name.as_str(), "Result") {
            match nominalize_type_expr(type_expr) {
                Some(s) => {
                    if str_eq(s.as_str(), "Result_i64_String") || str_eq(
                        s.as_str(),
                        "Result_f64_String",
                    ) || str_eq(s.as_str(), "Result_String_String") {
                        return Some(s);
                    }
                    return None;
                },
                None => {
                    return None;
                },
            }
        }
    }
    None
}

// ---------------------------------------------------------------------------
// Void expressions
// ---------------------------------------------------------------------------
/// Expressions of the typed AST, as far as telling void ones apart reads
/// them: calls by their callee, plain and module-qualified identifiers,
/// assignments, blocks and `if`s by their tail expression, and matches by
/// their arm bodies.
#[derive(Debug)]
pub enum Expr {
    Call { callee: Box<Expr> },
    Ident { name: String },
    QualifiedIdent { name: String },
    Assign,
    Block { tail: Option<Box<Expr>> },
    If { then_tail: Option<Box<Expr>> },
    Match { arm_bodies: Vec<Expr> },
    Other,
}

/// The builtins called by plain name that yield no value.
pub open spec fn void_call_name(n: Seq<char>) -> bool {
    n == "println"@
        || n == "print"@
        || n == "eprintln"@
        || n == "panic"@
        || n == "assert"@
        || n == "assert_eq"@
        || n == "assert_ne"@
        || n == "assert_eq_str"@
        || n == "assert_eq_i64"@
        || n == "push"@
        || n == "push_char"@
        || n == "set"@
        || n == "sort_i32"@
        || n == "sort_String"@
        || n == "sort_i64"@
        || n == "sort_f64"@
        || n == "reverse_i32"@
        || n == "reverse_String"@
        || n == "remove_i32"@
}

/// The module-qualified functions that yield no value.
pub open spec fn void_qualified_name(n: Seq<char>) -> bool {
    n == "assert_true"@
        || n == "assert_false"@
        || n == "assert_eq_i32"@
        || n == "assert_eq_i64"@
        || n == "assert_eq_f64"@
        || n == "assert_eq_string"@
        || n == "assert_eq_bool"@
        || n == "assert_ne_i32"@
        || n == "assert_ne_string"@
        || n == "expect_none_i32"@
        || n == "print"@
        || n == "println"@
        || n == "eprintln"@
        || n == "exit"@
        || n == "abort"@
        || n == "hashmap_set"@
        || n == "deque_push_back"@
        || n == "deque_push_front"@
        || n == "sorted_map_insert"@
        || n == "bitset_set"@
        || n == "bitset_mark"@
        || n == "bitset_unmark"@
        || n == "bitset_clear"@
        || n == "pq_push"@
        || n == "bytes_push"@
}

/// Whether an expression yields no value, so that it is emitted as a
/// statement: a call of a void builtin, an assignment, a block or an `if`
/// without a tail or with a void one, or a match without arms or whose
/// first arm's body is void.
pub open spec fn is_void(e: Expr) -> bool
    decreases e,
{
    match e {
        Expr::Call { callee } => match *callee {
            Expr::Ident { name } => void_call_name(name@),
            Expr::QualifiedIdent { name } => void_qualified_name(name@),
            _ => false,
        },
        Expr::Assign => true,
        Expr::Block { tail } => match tail {
            Some(t) => is_void(*t),
            None => true,
        },
        Expr::If { then_tail } => match then_tail {
            Some(t) => is_void(*t),
            None => true,
        },
        Expr::Match { arm_bodies } => if arm_bodies@.len() == 0 {
            true
        } else {
            is_void(arm_bodies@[0])
        },
        _ => false,
    }
}

fn is_void_call_name(n: &str) -> (r: bool)
    ensures
        r == void_call_name(n@),
{
    str_eq(n, "println")
        || str_eq(n, "print")
        || str_eq(n, "eprintln")
        || str_eq(n, "panic")
        || str_eq(n, "assert")
        || str_eq(n, "assert_eq")
        || str_eq(n, "assert_ne")
        || str_eq(n, "assert_eq_str")
        || str_eq(n, "assert_eq_i64")
        || str_eq(n, "push")
        || str_eq(n, "push_char")
        || str_eq(n, "set")
        || str_eq(n, "sort_i32")
        || str_eq(n, "sort_String")
        || str_eq(n, "sort_i64")
        || str_eq(n, "sort_f64")
        || str_eq(n, "reverse_i32")
        || str_eq(n, "reverse_String")
        || str_eq(n, "remove_i32")
}

fn is_void_qualified_name(n: &str) -> (r: bool)
    ensures
        r == void_qualified_name(n@),
{
    str_eq(n, "assert_true")
        || str_eq(n, "assert_false")
        || str_eq(n, "assert_eq_i32")
        || str_eq(n, "assert_eq_i64")
        || str_eq(n, "assert_eq_f64")
        || str_eq(n, "assert_eq_string")
        || str_eq(n, "assert_eq_bool")
        || str_eq(n, "assert_ne_i32")
        || str_eq(n, "assert_ne_string")
        || str_eq(n, "expect_none_i32")
        || str_eq(n, "print")
        || str_eq(n, "println")
        || str_eq(n, "eprintln")
        || str_eq(n, "exit")
        || str_eq(n, "abort")
        || str_eq(n, "hashmap_set")
        || str_eq(n, "deque_push_back")
        || str_eq(n, "deque_push_front")
        || str_eq(n, "sorted_map_insert")
        || str_eq(n, "bitset_set")
        || str_eq(n, "bitset_mark")
        || str_eq(n, "bitset_unmark")
        || str_eq(n, "bitset_clear")
        || str_eq(n, "pq_push")
        || str_eq(n, "bytes_push")
}

/// Whether an expression yields no value.
pub fn is_void_expr(expr: &Expr) -> (r: bool)
    ensures
        r == is_void(*expr),
    decreases expr,
{
    match expr {
        Expr::Call { callee } => match &**callee {
            Expr::Ident { name } => is_void_call_name(name.as_str()),
            Expr::QualifiedIdent { name } => is_void_qualified_name(name.as_str()),
            _ => false,
        },
        Expr::Assign => true,
        Expr::Block { tail } => match tail {
            Some(t) => is_void_expr(t),
            None => true,
        },
        Expr::If { then_tail } => match then_tail {
            Some(t) => is_void_expr(t),
            None => true,
        },
        Expr::Match { arm_bodies } => {
            if arm_bodies.len() == 0 {
                true
            } else {
                proof {
                    assert(decreases_to!(*expr => expr->Match_arm_bodies));
                    assert(decreases_to!(expr->Match_arm_bodies => expr->Match_arm_bodies@));
                    assert(decreases_to!(expr->Match_arm_bodies@ => expr->Match_arm_bodies@[0]));
                }
                is_void_expr(&arm_bodies[0])
            }
        },
        _ => false,
    }
}

// ---------------------------------------------------------------------------
// Operators
// ---------------------------------------------------------------------------
/// Binary operators of the typed AST.
#[derive(Debug, Clone, Copy, PartialEq, Eq, Structural)]
pub enum BinOp {
    Add,
    Sub,
    Mul,
    Div,
    Mod,
    Eq,
    Ne,
    Lt,
    Gt,
    Le,
    Ge,
    And,
    Or,
    BitAnd,
    BitOr,
    BitXor,
    Shl,
    Shr,
}

/// Unary operators of the typed AST.
#[derive(Debug, Clone, Copy, PartialEq, Eq, Structural)]
pub enum UnaryOp {
    Neg,
    Not,
    BitNot,
}

/// The MIR operator of an AST binary operator: the one of the same name.
pub open spec fn mir_binop(op: BinOp) -> crate::mir::BinOp {
    match op {
        BinOp::Add => crate::mir::BinOp::Add,
        BinOp::Sub => crate::mir::BinOp::Sub,
        BinOp::Mul => crate::mir::BinOp::Mul,
        BinOp::Div => crate::mir::BinOp::Div,
        BinOp::Mod => crate::mir::BinOp::Mod,
        BinOp::Eq => crate::mir::BinOp::Eq,
        BinOp::Ne => crate::mir::BinOp::Ne,
        BinOp::Lt => crate::mir::BinOp::Lt,
        BinOp::Gt => crate::mir::BinOp::Gt,
        BinOp::Le => crate::mir::BinOp::Le,
        BinOp::Ge => crate::mir::BinOp::Ge,
        BinOp::And => crate::mir::BinOp::And,
        BinOp::Or => crate::mir::BinOp::Or,
        BinOp::BitAnd => crate::mir::BinOp::BitAnd,
        BinOp::BitOr => crate::mir::BinOp::BitOr,
        BinOp::BitXor => crate::mir::BinOp::BitXor,
        BinOp::Shl => crate::mir::BinOp::Shl,
        BinOp::Shr => crate::mir::BinOp::Shr,
    }
}

/// The MIR operator of an AST unary operator: the one of the same name.
pub open spec fn mir_unaryop(op: UnaryOp) -> crate::mir::UnaryOp {
    match op {
        UnaryOp::Neg => crate::mir::UnaryOp::Neg,
        UnaryOp::Not => crate::mir::UnaryOp::Not,
        UnaryOp::BitNot => crate::mir::UnaryOp::BitNot,
    }
}

pub fn lower_binop(op: &BinOp) -> (r: crate::mir::BinOp)
    ensures
        r == mir_binop(*op),
{
    match op {
        BinOp::Add => crate::mir::BinOp::Add,
        BinOp::Sub => crate::mir::BinOp::Sub,
        BinOp::Mul => crate::mir::BinOp::Mul,
        BinOp::Div => crate::mir::BinOp::Div,
        BinOp::Mod => crate::mir::BinOp::Mod,
        BinOp::Eq => crate::mir::BinOp::Eq,
        BinOp::Ne => crate::mir::BinOp::Ne,
        BinOp::Lt => crate::mir::BinOp::Lt,
        BinOp::Gt => crate::mir::BinOp::Gt,
        BinOp::Le => crate::mir::BinOp::Le,
        BinOp::Ge => crate::mir::BinOp::Ge,
        BinOp::And => crate::mir::BinOp::And,
        BinOp::Or => crate::mir::BinOp::Or,
        BinOp::BitAnd => crate::mir::BinOp::BitAnd,
        BinOp::BitOr => crate::mir::BinOp::BitOr,
        BinOp::BitXor => crate::mir::BinOp::BitXor,
        BinOp::Shl => crate::mir::BinOp::Shl,
        BinOp::Shr => crate::mir::BinOp::Shr,
    }
}

pub fn lower_unaryop(op: &UnaryOp) -> (r: crate::mir::UnaryOp)
    ensures
        r == mir_unaryop(*op),
{
    match op {
        UnaryOp::Neg => crate::mir::UnaryOp::Neg,
        UnaryOp::Not => crate::mir::UnaryOp::Not,
        UnaryOp::BitNot => crate::mir::UnaryOp::BitNot,
    }
}

// ---------------------------------------------------------------------------
// Type expressions of checker types
// ---------------------------------------------------------------------------
/// Whether a checker type has a type expression: the primitive types other
/// than the unsigned and character ones, unit, and `Result`, `Option` and
/// `Vec` of such types.
pub open spec fn has_type_expr(t: TypeView) -> bool
    decreases t,
{
    match t {
        TypeView::I32 | TypeView::I64 | TypeView::F32 | TypeView::F64 | TypeView::Bool
        | TypeView::String | TypeView::Unit => true,
        TypeView::Result(ok, err) => has_type_expr(*ok) && has_type_expr(*err),
        TypeView::Option(inner) => has_type_expr(*inner),
        TypeView::Vec(elem) => has_type_expr(*elem),
        _ => false,
    }
}

pub open spec fn names(e: TypeExpr, n: Seq<char>) -> bool {
    e matches TypeExpr::Named { name } && name@ == n
}

/// `e` is the type expression of the checker type `t`.
pub open spec fn expresses(e: TypeExpr, t: TypeView) -> bool
    decreases t,
{
    match t {
        TypeView::I32 => names(e, "i32"@),
        TypeView::I64 => names(e, "i64"@),
        TypeView::F32 => names(e, "f32"@),
        TypeView::F64 => names(e, "f64"@),
        TypeView::Bool => names(e, "bool"@),
        TypeView::String => names(e, "String"@),
        TypeView::Unit => e is Unit,
        TypeView::Result(ok, err) => e matches TypeExpr::Generic { name, args } && name@
            == "Result"@ && args@.len() == 2 && expresses(args@[0], *ok) && expresses(
            args@[1],
            *err,
        ),
        TypeView::Option(inner) => e matches TypeExpr::Generic { name, args } && name@
            == "Option"@ && args@.len() == 1 && expresses(args@[0], *inner),
        TypeView::Vec(elem) => e matches TypeExpr::Generic { name, args } && name@ == "Vec"@
            && args@.len() == 1 && expresses(args@[0], *elem),
        _ => false,
    }
}

fn named_expr(n: &str) -> (e: TypeExpr)
    ensures
        names(e, n@),
{
    TypeExpr::Named { name: n.to_owned() }
}

/// The type expression of a checker type, for the types that carry
/// `Result` and `Option` payloads through lowering; `None` for the others.
pub fn type_to_type_expr(ty: &Type) -> (r: Option<TypeExpr>)
    ensures
        match r {
            Some(e) => has_type_expr(ty@) && expresses(e, ty@),
            None => !has_type_expr(ty@),
        },
    decreases ty,
{
    match ty {
        Type::I32 => Some(named_expr("i32")),
        Type::I64 => Some(named_expr("i64")),
        Type::F32 => Some(named_expr("f32")),
        Type::F64 => Some(named_expr("f64")),
        Type::Bool => Some(named_expr("bool")),
        Type::String => Some(named_expr("String")),
        Type::Unit => Some(TypeExpr::Unit),
        Type::Result(ok, err) => {
            let ok_te = match type_to_type_expr(ok) {
                Some(e) => e,
                None => return None,
            };
            let err_te = match type_to_type_expr(err) {
                Some(e) => e,
                None => return None,
            };
            let args = vec![ok_te, err_te];
            Some(TypeExpr::Generic { name: "Result".to_owned(), args })
        },
        Type::Option(inner) => {
            let inner_te = match type_to_type_expr(inner) {
                Some(e) => e,
                None => return None,
            };
            let args = vec![inner_te];
            Some(TypeExpr::Generic { name: "Option".to_owned(), args })
        },
        Type::Vec(elem) => {
            let elem_te = match type_to_type_expr(elem) {
                Some(e) => e,
                None => return None,
            };
            let args = vec![elem_te];
            Some(TypeExpr::Generic { name: "Vec".to_owned(), args })
        },
        _ => None,
    }
}

// ---------------------------------------------------------------------------
// Function signatures
// ---------------------------------------------------------------------------
/// A function parameter: its name and declared type.
#[derive(Debug)]
pub struct Param {
    pub name: String,
    pub ty: TypeExpr,
}

/// Whether `n` is one of the type parameters `tps`.
pub open spec fn is_type_param(tps: Seq<String>, n: Seq<char>) -> bool {
    exists|i: int| 0 <= i < tps.len() && (#[trigger] tps[i])@ == n
}

/// The type a declared parameter or result type gets in a function's
/// signature: `String`, `f64`, `f32`, `i64`, `bool` and `char` by name, a
/// type parameter of the function as any type, everything else as `i32`.
pub open spec fn sig_type(t: TypeExpr, tps: Seq<String>) -> TypeView {
    match t {
        TypeExpr::Named { name } => {
            if name@ == "String"@ {
                TypeView::String
            } else if name@ == "f64"@ {
                TypeView::F64
            } else if name@ == "f32"@ {
                TypeView::F32
            } else if name@ == "i64"@ {
                TypeView::I64
            } else if name@ == "bool"@ {
                TypeView::Bool
            } else if name@ == "char"@ {
                TypeView::Char
            } else if is_type_param(tps, name@) {
                TypeView::Any
            } else {
                TypeView::I32
            }
        },
        _ => TypeView::I32,
    }
}

fn contains_name(tps: &Vec<String>, n: &str) -> (r: bool)
    ensures
        r == is_type_param(tps@, n@),
{
    let mut i: usize = 0;
    while i < tps.len()
        invariant
            i <= tps.len(),
            forall|j: int| 0 <= j < i ==> (#[trigger] tps@[j])@ != n@,
        decreases tps.len() - i,
    {
        if str_eq(tps[i].as_str(), n) {
            return true;
        }
        i = i + 1;
    }
    false
}

/// The signature type of a declared parameter type.
pub fn lower_param_type(ty: &TypeExpr, type_params: &Vec<String>) -> (r: Type)
    ensures
        r@ == sig_type(*ty, type_params@),
{
    match ty {
        TypeExpr::Named { name } => {
            let n = name.as_str();
            if str_eq(n, "String") {
                Type::String
            } else if str_eq(n, "f64") {
                Type::F64
            } else if str_eq(n, "f32") {
                Type::F32
            } else if str_eq(n, "i64") {
                Type::I64
            } else if str_eq(n, "bool") {
                Type::Bool
            } else if str_eq(n, "char") {
                Type::Char
            } else if contains_name(type_params, n) {
                Type::Any
            } else {
                Type::I32
            }
        },
        _ => Type::I32,
    }
}

/// The result type of a function's signature: unit when none is declared.
pub open spec fn sig_return_type(ret: Option<TypeExpr>, tps: Seq<String>) -> TypeView {
    match ret {
        Some(t) => sig_type(t, tps),
        None => TypeView::Unit,
    }
}

pub fn lower_return_type(ret: &Option<TypeExpr>, type_params: &Vec<String>) -> (r: Type)
    ensures
        r@ == sig_return_type(*ret, type_params@),
{
    match ret {
        Some(t) => lower_param_type(t, type_params),
        None => Type::Unit,
    }
}

/// The parameter locals of a function's signature: the `i`-th parameter is
/// local `i`, named after it and of its signature type.
pub fn lower_params(params: &Vec<Param>, type_params: &Vec<String>) -> (r: Vec<crate::mir::MirLocal>)
    requires
        params@.len() <= u32::MAX + 1,
    ensures
        r@.len() == params@.len(),
        forall|i: int|
            0 <= i < params@.len() ==> {
                &&& (#[trigger] r@[i]).id.0 == i
                &&& crate::mir::opt_string_view(r@[i].name) == Some(params@[i].name@)
                &&& r@[i].ty@ == sig_type(params@[i].ty, type_params@)
            },
{
    let mut out: Vec<crate::mir::MirLocal> = Vec::new();
    let mut i: usize = 0;
    while i < params.len()
        invariant
            i <= params.len(),
            params@.len() <= u32::MAX + 1,
            out@.len() == i,
            forall|j: int|
                0 <= j < i ==> {
                    &&& (#[trigger] out@[j]).id.0 == j
                    &&& crate::mir::opt_string_view(out@[j].name) == Some(params@[j].name@)
                    &&& out@[j].ty@ == sig_type(params@[j].ty, type_params@)
                },
        decreases params.len() - i,
    {
        let p = &params[i];
        let ty = lower_param_type(&p.ty, type_params);
        out.push(
            crate::mir::MirLocal {
                id: crate::mir::LocalId(i as u32),
                name: Some(p.name.as_str().to_owned()),
                ty,
            },
        );
        i = i + 1;
    }
    out
}

} // verus!
