//! The human-readable text of MIR, as a sequence of pieces: literal text,
//! and the atoms whose rendering lies outside the library (characters,
//! floating-point constants given by their bits, and checker types). The
//! text of a piece sequence is its pieces' renderings joined in order.
use vstd::prelude::*;

use crate::facade::{debug_quoted, debug_str};
use crate::mir::{
    fields_view, lemma_fields_view, lemma_operands_view, lemma_stmts_view, operand_view,
    operands_view, place_view, stmt_view, stmts_view, AggregateKind, AggregateKindView,
    BasicBlock, BlockView, MirFunction, MirLocal, MirModule, MirStmt, Operand, OperandView, Place,
    PlaceView, Rvalue, RvalueView, StmtView, Terminator, TerminatorView, block_view, blocks_view,
    opt_string_view, rvalue_view, terminator_view,
};
use crate::mir_ops::{binop_sym, binop_text, unaryop_sym, unaryop_text};
use crate::strutil::{concat_str, decimal, join_with, strings_view, u64_to_decimal};
use crate::types::{clone_type, Type, TypeView};
use vstd::string::StringExecFns;

verus! {

broadcast use {lemma_operands_view, lemma_stmts_view, lemma_fields_view};

// ---------------------------------------------------------------------------
// Pieces
// ---------------------------------------------------------------------------
/// A piece of MIR text.
#[derive(Debug)]
pub enum TextPiece {
    /// Literal text.
    Text(String),
    /// A character, shown as itself.
    Char(char),
    /// An `f32` constant by its bits, shown as the float's shortest form.
    F32(u32),
    /// An `f64` constant by its bits, shown as the float's shortest form.
    F64(u64),
    /// A checker type.
    Ty(Type),
}

pub enum PieceView {
    Text(Seq<char>),
    Char(char),
    F32(u32),
    F64(u64),
    Ty(TypeView),
}

pub open spec fn piece_view(p: TextPiece) -> PieceView {
    match p {
        TextPiece::Text(s) => PieceView::Text(s@),
        TextPiece::Char(c) => PieceView::Char(c),
        TextPiece::F32(b) => PieceView::F32(b),
        TextPiece::F64(b) => PieceView::F64(b),
        TextPiece::Ty(t) => PieceView::Ty(t@),
    }
}

pub open spec fn pieces_view(s: Seq<TextPiece>) -> Seq<PieceView> {
    s.map_values(|p: TextPiece| piece_view(p))
}

pub open spec fn txt(s: Seq<char>) -> PieceView {
    PieceView::Text(s)
}

/// A signed integer in decimal.
pub open spec fn int_text(i: int) -> Seq<char> {
    if i < 0 {
        "-"@ + decimal((-i) as nat)
    } else {
        decimal(i as nat)
    }
}

fn put(buf: &mut Vec<TextPiece>, p: TextPiece)
    ensures
        pieces_view(final(buf)@) == pieces_view(old(buf)@).push(piece_view(p)),
{
    let ghost pv = piece_view(p);
    buf.push(p);
    proof {
        assert(pieces_view(buf@) =~= pieces_view(old(buf)@).push(pv));
    }
}

fn put_str(buf: &mut Vec<TextPiece>, s: &str)
    ensures
        pieces_view(final(buf)@) == pieces_view(old(buf)@).push(txt(s@)),
{
    put(buf, TextPiece::Text(s.to_owned()));
}

fn put_string(buf: &mut Vec<TextPiece>, s: String)
    ensures
        pieces_view(final(buf)@) == pieces_view(old(buf)@).push(txt(s@)),
{
    put(buf, TextPiece::Text(s));
}

fn i64_text(v: i64) -> (r: String)
    ensures
        r@ == int_text(v as int),
{
    if v < 0 {
        let m: u64 = ((-(v + 1)) as u64) + 1;
        concat_str("-", u64_to_decimal(m).as_str())
    } else {
        u64_to_decimal(v as u64)
    }
}

fn dec(n: u64) -> (r: String)
    ensures
        r@ == decimal(n as nat),
{
    u64_to_decimal(n)
}

// ---------------------------------------------------------------------------
// Places and operands
// ---------------------------------------------------------------------------
/// The text of `p` appended to `acc`.
pub open spec fn place_out(acc: Seq<PieceView>, p: PlaceView) -> Seq<PieceView>
    decreases p,
{
    match p {
        PlaceView::Local(id) => acc.push(txt("_"@ + decimal(id.0 as nat))),
        PlaceView::Field(base, f) => place_out(acc, *base).push(txt("."@ + f)),
        PlaceView::Index(base, idx) => op_out(place_out(acc, *base).push(txt("["@)), *idx).push(
            txt("]"@),
        ),
    }
}

/// The text of `o` appended to `acc`.
pub open spec fn op_out(acc: Seq<PieceView>, o: OperandView) -> Seq<PieceView>
    decreases o,
{
    match o {
        OperandView::Place(p) => place_out(acc, p),
        OperandView::ConstI32(v) => acc.push(txt(int_text(v as int))),
        OperandView::ConstI64(v) => acc.push(txt(int_text(v as int) + "i64"@)),
        OperandView::ConstF32(b) => acc.push(PieceView::F32(b)).push(txt("f32"@)),
        OperandView::ConstF64(b) => acc.push(PieceView::F64(b)),
        OperandView::ConstBool(v) => acc.push(txt(if v { "true"@ } else { "false"@ })),
        OperandView::ConstChar(c) => acc.push(txt("'"@)).push(PieceView::Char(c)).push(txt("'"@)),
        OperandView::ConstString(s) => acc.push(txt(debug_quoted(s))),
        OperandView::ConstU8(v) => acc.push(txt(decimal(v as nat) + "u8"@)),
        OperandView::ConstU16(v) => acc.push(txt(decimal(v as nat) + "u16"@)),
        OperandView::ConstU32(v) => acc.push(txt(decimal(v as nat) + "u32"@)),
        OperandView::ConstU64(v) => acc.push(txt(decimal(v as nat) + "u64"@)),
        OperandView::ConstI8(v) => acc.push(txt(int_text(v as int) + "i8"@)),
        OperandView::ConstI16(v) => acc.push(txt(int_text(v as int) + "i16"@)),
        OperandView::Unit => acc.push(txt("()"@)),
        OperandView::BinOp(op, a, b) => op_out(
            op_out(acc.push(txt("("@)), *a).push(txt(" "@ + binop_text(op) + " "@)),
            *b,
        ).push(txt(")"@)),
        OperandView::UnaryOp(op, a) => op_out(acc.push(txt("("@ + unaryop_text(op) + " "@)), *a).push(
            txt(")"@),
        ),
        OperandView::Call(name, args) => args_out(acc.push(txt(name + "("@)), args).push(txt(")"@)),
        OperandView::FnRef(name) => acc.push(txt("&fn:"@ + name)),
        OperandView::CallIndirect { callee, args } => args_out(
            op_out(acc.push(txt("call_indirect "@)), *callee).push(txt("("@)),
            args,
        ).push(txt(")"@)),
        OperandView::StructInit { name, fields } => acc.push(
            txt(name + " { "@ + decimal(fields.len()) + "_fields }"@),
        ),
        OperandView::FieldAccess { object, field, .. } => op_out(acc, *object).push(txt("."@ + field)),
        OperandView::EnumInit { enum_name, variant, .. } => acc.push(txt(enum_name + "::"@ + variant)),
        OperandView::EnumTag(a) => op_out(acc.push(txt("tag("@)), *a).push(txt(")"@)),
        OperandView::EnumPayload { object, index, .. } => op_out(acc.push(txt("payload("@)), *object).push(
            txt(", "@ + decimal(index as nat) + ")"@),
        ),
        OperandView::ArrayInit { elements } => acc.push(txt("["@ + decimal(elements.len()) + "; ...]"@)),
        OperandView::IndexAccess { object, index } => op_out(
            op_out(acc, *object).push(txt("["@)),
            *index,
        ).push(txt("]"@)),
        OperandView::IfExpr { .. } => acc.push(txt("<if-expr>"@)),
        OperandView::LoopExpr { .. } => acc.push(txt("<loop-expr>"@)),
        OperandView::TryExpr { .. } => acc.push(txt("<try-expr>"@)),
    }
}

/// The texts of `args`, separated by `, `, appended to `acc`.
pub open spec fn args_out(acc: Seq<PieceView>, args: Seq<OperandView>) -> Seq<PieceView>
    decreases args,
{
    if args.len() == 0 {
        acc
    } else {
        let before = args_out(acc, args.drop_last());
        op_out(if args.len() > 1 { before.push(txt(", "@)) } else { before }, args.last())
    }
}

fn place_text(buf: &mut Vec<TextPiece>, p: &Place)
    ensures
        pieces_view(final(buf)@) == place_out(pieces_view(old(buf)@), place_view(*p)),
    decreases p,
{
    match p {
        Place::Local(id) => put_string(buf, concat_str("_", dec(id.0 as u64).as_str())),
        Place::Field(base, f) => {
            place_text(buf, base);
            put_string(buf, concat_str(".", f.as_str()));
        },
        Place::Index(base, idx) => {
            place_text(buf, base);
            put_str(buf, "[");
            operand_text(buf, idx);
            put_str(buf, "]");
        },
    }
}

fn operand_text(buf: &mut Vec<TextPiece>, o: &Operand)
    ensures
        pieces_view(final(buf)@) == op_out(pieces_view(old(buf)@), operand_view(*o)),
    decreases o,
{
    match o {
        Operand::Place(p) => place_text(buf, p),
        Operand::ConstI32(v) => put_string(buf, i64_text(*v as i64)),
        Operand::ConstI64(v) => {
            let mut s = i64_text(*v);
            s.append("i64");
            put_string(buf, s);
        },
        Operand::ConstF32(b) => {
            put(buf, TextPiece::F32(*b));
            put_str(buf, "f32");
        },
        Operand::ConstF64(b) => put(buf, TextPiece::F64(*b)),
        Operand::ConstBool(v) => {
            if *v {
                put_str(buf, "true");
            } else {
                put_str(buf, "false");
            }
        },
        Operand::ConstChar(c) => {
            put_str(buf, "'");
            put(buf, TextPiece::Char(*c));
            put_str(buf, "'");
        },
        Operand::ConstString(s) => put_string(buf, debug_str(s.as_str())),
        Operand::ConstU8(v) => put_string(buf, concat_str(dec(*v as u64).as_str(), "u8")),
        Operand::ConstU16(v) => put_string(buf, concat_str(dec(*v as u64).as_str(), "u16")),
        Operand::ConstU32(v) => put_string(buf, concat_str(dec(*v as u64).as_str(), "u32")),
        Operand::ConstU64(v) => put_string(buf, concat_str(dec(*v).as_str(), "u64")),
        Operand::ConstI8(v) => put_string(buf, concat_str(i64_text(*v as i64).as_str(), "i8")),
        Operand::ConstI16(v) => put_string(buf, concat_str(i64_text(*v as i64).as_str(), "i16")),
        Operand::Unit => put_str(buf, "()"),
        Operand::BinOp(op, a, b) => {
            put_str(buf, "(");
            operand_text(buf, a);
            let mut s = concat_str(" ", binop_sym(*op));
            s.append(" ");
            put_string(buf, s);
            operand_text(buf, b);
            put_str(buf, ")");
        },
        Operand::UnaryOp(op, a) => {
            let mut s = concat_str("(", unaryop_sym(*op));
            s.append(" ");
            put_string(buf, s);
            operand_text(buf, a);
            put_str(buf, ")");
        },
        Operand::Call(name, args) => {
            put_string(buf, concat_str(name.as_str(), "("));
            args_text(buf, args);
            put_str(buf, ")");
        },
        Operand::FnRef(name) => put_string(buf, concat_str("&fn:", name.as_str())),
        Operand::CallIndirect { callee, args } => {
            put_str(buf, "call_indirect ");
            operand_text(buf, callee);
            put_str(buf, "(");
            args_text(buf, args);
            put_str(buf, ")");
        },
        Operand::StructInit { name, fields } => {
            proof {
                assert(fields_view(fields@).len() == fields@.len());
            }
            let mut s = concat_str(name.as_str(), " { ");
            s.append(dec(fields.len() as u64).as_str());
            s.append("_fields }");
            put_string(buf, s);
        },
        Operand::FieldAccess { object, field, .. } => {
            operand_text(buf, object);
            put_string(buf, concat_str(".", field.as_str()));
        },
        Operand::EnumInit { enum_name, variant, .. } => {
            let mut s = concat_str(enum_name.as_str(), "::");
            s.append(variant.as_str());
            put_string(buf, s);
        },
        Operand::EnumTag(a) => {
            put_str(buf, "tag(");
            operand_text(buf, a);
            put_str(buf, ")");
        },
        Operand::EnumPayload { object, index, .. } => {
            put_str(buf, "payload(");
            operand_text(buf, object);
            let mut s = concat_str(", ", dec(*index as u64).as_str());
            s.append(")");
            put_string(buf, s);
        },
        Operand::ArrayInit { elements } => {
            proof {
                assert(operands_view(elements@).len() == elements@.len());
            }
            let mut s = concat_str("[", dec(elements.len() as u64).as_str());
            s.append("; ...]");
            put_string(buf, s);
        },
        Operand::IndexAccess { object, index } => {
            operand_text(buf, object);
            put_str(buf, "[");
            operand_text(buf, index);
            put_str(buf, "]");
        },
        Operand::IfExpr { .. } => put_str(buf, "<if-expr>"),
        Operand::LoopExpr { .. } => put_str(buf, "<loop-expr>"),
        Operand::TryExpr { .. } => put_str(buf, "<try-expr>"),
    }
}

fn args_text(buf: &mut Vec<TextPiece>, v: &Vec<Operand>)
    ensures
        pieces_view(final(buf)@) == args_out(pieces_view(old(buf)@), operands_view(v@)),
    decreases v,
{
    let ghost acc = pieces_view(buf@);
    let mut i: usize = 0;
    proof {
        assert(operands_view(v@.take(0)) =~= Seq::<OperandView>::empty());
    }
    #[verifier::loop_isolation(false)]
    while i < v.len()
        invariant
            i <= v.len(),
            pieces_view(buf@) == args_out(acc, operands_view(v@.take(i as int))),
        decreases v.len() - i,
    {
        let ghost pre = operands_view(v@.take(i as int));
        proof {
            broadcast use vstd::std_specs::vec::axiom_vec_index_decreases;

            assert(decreases_to!(v => v[i as int]));
            assert(v@.take(i as int + 1).drop_last() =~= v@.take(i as int));
            assert(operands_view(v@.take(i as int + 1)) == pre.push(operand_view(v@[i as int])));
            assert(pre.push(operand_view(v@[i as int])).drop_last() =~= pre);
        }
        if i > 0 {
            put_str(buf, ", ");
        }
        operand_text(buf, &v[i]);
        i = i + 1;
    }
    proof {
        assert(v@.take(v.len() as int) =~= v@);
    }
}


// ---------------------------------------------------------------------------
// Rvalues and terminators
// ---------------------------------------------------------------------------
/// The text of `r` appended to `acc`.
pub open spec fn rvalue_out(acc: Seq<PieceView>, r: RvalueView) -> Seq<PieceView> {
    match r {
        RvalueView::Use(o) => op_out(acc, o),
        RvalueView::BinaryOp(op, a, b) => op_out(
            op_out(acc, a).push(txt(" "@ + binop_text(op) + " "@)),
            b,
        ),
        RvalueView::UnaryOp(op, a) => op_out(acc.push(txt(unaryop_text(op) + " "@)), a),
        RvalueView::Aggregate(kind, fields) => match kind {
            AggregateKindView::Tuple => args_out(acc.push(txt("("@)), fields).push(txt(")"@)),
            AggregateKindView::Array => args_out(acc.push(txt("["@)), fields).push(txt("]"@)),
            AggregateKindView::Struct(name) => args_out(acc.push(txt(name + " { "@)), fields).push(
                txt(" }"@),
            ),
            AggregateKindView::EnumVariant(e, v) => args_out(
                acc.push(txt(e + "::"@ + v + " { "@)),
                fields,
            ).push(txt(" }"@)),
        },
        RvalueView::Ref(p) => place_out(acc.push(txt("&"@)), p),
    }
}

/// One switch arm: `<value> => bb<id>`.
pub open spec fn arm_text(arm: (i64, crate::mir::BlockId)) -> Seq<char> {
    int_text(arm.0 as int) + " => bb"@ + decimal(arm.1.0 as nat)
}

/// The switch arms, separated by `, `.
pub open spec fn arms_text(arms: Seq<(i64, crate::mir::BlockId)>) -> Seq<char>
    decreases arms.len(),
{
    if arms.len() == 0 {
        Seq::empty()
    } else {
        let before = arms_text(arms.drop_last());
        (if arms.len() > 1 {
            before + ", "@
        } else {
            before
        }) + arm_text(arms.last())
    }
}

/// What follows a switch's scrutinee: its arms and its default target.
pub open spec fn switch_tail(arms: Seq<(i64, crate::mir::BlockId)>, default: crate::mir::BlockId) -> Seq<char> {
    " [ "@ + (if arms.len() == 0 {
        Seq::empty()
    } else {
        arms_text(arms) + ", "@
    }) + "_ => bb"@ + decimal(default.0 as nat) + " ]"@
}

/// The text of `t` appended to `acc`.
pub open spec fn term_out(acc: Seq<PieceView>, t: TerminatorView) -> Seq<PieceView> {
    match t {
        TerminatorView::Goto(bb) => acc.push(txt("goto bb"@ + decimal(bb.0 as nat))),
        TerminatorView::Return(None) => acc.push(txt("return"@)),
        TerminatorView::Return(Some(o)) => op_out(acc.push(txt("return "@)), o),
        TerminatorView::Unreachable => acc.push(txt("unreachable"@)),
        TerminatorView::If { cond, then_block, else_block, .. } => op_out(
            acc.push(txt("if "@)),
            cond,
        ).push(
            txt(" → bb"@ + decimal(then_block.0 as nat) + " else bb"@ + decimal(else_block.0 as nat)),
        ),
        TerminatorView::Switch { scrutinee, arms, default } => op_out(
            acc.push(txt("switch "@)),
            scrutinee,
        ).push(txt(switch_tail(arms, default))),
        TerminatorView::TailCall { func, args } => args_out(
            acc.push(txt("tail_call "@ + func + "("@)),
            args,
        ).push(txt(")"@)),
        TerminatorView::TailCallIndirect { callee, args } => args_out(
            op_out(acc.push(txt("tail_call_indirect "@)), *callee).push(txt("("@)),
            args,
        ).push(txt(")"@)),
    }
}

fn rvalue_text(buf: &mut Vec<TextPiece>, r: &Rvalue)
    ensures
        pieces_view(final(buf)@) == rvalue_out(pieces_view(old(buf)@), rvalue_view(*r)),
{
    match r {
        Rvalue::Use(o) => operand_text(buf, o),
        Rvalue::BinaryOp(op, a, b) => {
            operand_text(buf, a);
            let mut s = concat_str(" ", binop_sym(*op));
            s.append(" ");
            put_string(buf, s);
            operand_text(buf, b);
        },
        Rvalue::UnaryOp(op, a) => {
            put_string(buf, concat_str(unaryop_sym(*op), " "));
            operand_text(buf, a);
        },
        Rvalue::Aggregate(kind, fields) => match kind {
            AggregateKind::Tuple => {
                put_str(buf, "(");
                args_text(buf, fields);
                put_str(buf, ")");
            },
            AggregateKind::Array => {
                put_str(buf, "[");
                args_text(buf, fields);
                put_str(buf, "]");
            },
            AggregateKind::Struct(name) => {
                put_string(buf, concat_str(name.as_str(), " { "));
                args_text(buf, fields);
                put_str(buf, " }");
            },
            AggregateKind::EnumVariant(e, v) => {
                let mut s = concat_str(e.as_str(), "::");
                s.append(v.as_str());
                s.append(" { ");
                put_string(buf, s);
                args_text(buf, fields);
                put_str(buf, " }");
            },
        },
        Rvalue::Ref(p) => {
            put_str(buf, "&");
            place_text(buf, p);
        },
    }
}

fn arms_string(arms: &Vec<(i64, crate::mir::BlockId)>) -> (r: String)
    ensures
        r@ == arms_text(arms@),
{
    let mut out = String::new();
    let mut i: usize = 0;
    proof {
        assert(arms@.take(0) =~= Seq::<(i64, crate::mir::BlockId)>::empty());
    }
    while i < arms.len()
        invariant
            i <= arms.len(),
            out@ == arms_text(arms@.take(i as int)),
        decreases arms.len() - i,
    {
        proof {
            assert(arms@.take(i as int + 1).drop_last() =~= arms@.take(i as int));
        }
        if i > 0 {
            out.append(", ");
        }
        let (v, bb) = arms[i];
        out.append(i64_text(v).as_str());
        out.append(" => bb");
        out.append(dec(bb.0 as u64).as_str());
        i = i + 1;
    }
    proof {
        assert(arms@.take(arms.len() as int) =~= arms@);
    }
    out
}

fn switch_suffix(arms: &Vec<(i64, crate::mir::BlockId)>, default: crate::mir::BlockId) -> (r: String)
    ensures
        r@ == switch_tail(arms@, default),
{
    let mut s = if arms.len() > 0 {
        let mut a = concat_str(" [ ", arms_string(arms).as_str());
        a.append(", ");
        a
    } else {
        concat_str(" [ ", "")
    };
    s.append("_ => bb");
    s.append(dec(default.0 as u64).as_str());
    s.append(" ]");
    proof {
        reveal_strlit("");
        assert(" [ "@ + ""@ =~= " [ "@ + Seq::<char>::empty());
    }
    s
}

fn terminator_text(buf: &mut Vec<TextPiece>, t: &Terminator)
    ensures
        pieces_view(final(buf)@) == term_out(pieces_view(old(buf)@), terminator_view(*t)),
{
    match t {
        Terminator::Goto(bb) => put_string(buf, concat_str("goto bb", dec(bb.0 as u64).as_str())),
        Terminator::Return(None) => put_str(buf, "return"),
        Terminator::Return(Some(o)) => {
            put_str(buf, "return ");
            operand_text(buf, o);
        },
        Terminator::Unreachable => put_str(buf, "unreachable"),
        Terminator::If { cond, then_block, else_block, .. } => {
            put_str(buf, "if ");
            operand_text(buf, cond);
            let mut s = concat_str(" → bb", dec(then_block.0 as u64).as_str());
            s.append(" else bb");
            s.append(dec(else_block.0 as u64).as_str());
            put_string(buf, s);
        },
        Terminator::Switch { scrutinee, arms, default } => {
            put_str(buf, "switch ");
            operand_text(buf, scrutinee);
            put_string(buf, switch_suffix(arms, *default));
        },
        Terminator::TailCall { func, args } => {
            let mut s = concat_str("tail_call ", func.as_str());
            s.append("(");
            put_string(buf, s);
            args_text(buf, args);
            put_str(buf, ")");
        },
        Terminator::TailCallIndirect { callee, args } => {
            put_str(buf, "tail_call_indirect ");
            operand_text(buf, callee);
            put_str(buf, "(");
            args_text(buf, args);
            put_str(buf, ")");
        },
    }
}


// ---------------------------------------------------------------------------
// Statements
// ---------------------------------------------------------------------------
/// Indentation for nesting depth `d`: two spaces per level.
pub open spec fn pad(d: nat) -> Seq<char>
    decreases d,
{
    if d == 0 {
        Seq::empty()
    } else {
        pad((d - 1) as nat) + "  "@
    }
}

/// The depth of the statements nested in a statement at depth `d`; it
/// stops growing at the largest `usize`.
pub open spec fn inner_depth(d: nat) -> nat {
    if d < usize::MAX {
        d + 1
    } else {
        d
    }
}

/// `<place> = ` for a call with a destination, nothing without.
pub open spec fn dest_out(acc: Seq<PieceView>, dest: Option<PlaceView>) -> Seq<PieceView> {
    match dest {
        Some(p) => place_out(acc, p).push(txt(" = "@)),
        None => acc,
    }
}

/// The text of `s` at depth `d` appended to `acc`.
pub open spec fn stmt_out(acc: Seq<PieceView>, s: StmtView, d: nat) -> Seq<PieceView>
    decreases s,
{
    let a = acc.push(txt(pad(d)));
    match s {
        StmtView::Assign(p, r) => rvalue_out(place_out(a, p).push(txt(" = "@)), r),
        StmtView::Call { dest, func, args } => args_out(
            dest_out(a, dest).push(txt("call fn#"@ + decimal(func.0 as nat) + "("@)),
            args,
        ).push(txt(")"@)),
        StmtView::CallBuiltin { dest, name, args } => args_out(
            dest_out(a, dest).push(txt("builtin "@ + name + "("@)),
            args,
        ).push(txt(")"@)),
        StmtView::IfStmt { cond, then_body, else_body } => {
            let b = lines_out(op_out(a.push(txt("if "@)), cond).push(txt(" {"@)), then_body, inner_depth(d));
            let c = if else_body.len() == 0 {
                b
            } else {
                lines_out(b.push(txt("\n"@ + pad(d) + "} else {"@)), else_body, inner_depth(d))
            };
            c.push(txt("\n"@ + pad(d) + "}"@))
        },
        StmtView::WhileStmt { cond, body } => lines_out(
            op_out(a.push(txt("while "@)), cond).push(txt(" {"@)),
            body,
            inner_depth(d),
        ).push(txt("\n"@ + pad(d) + "}"@)),
        StmtView::Break => a.push(txt("break"@)),
        StmtView::Continue => a.push(txt("continue"@)),
        StmtView::Return(None) => a.push(txt("return"@)),
        StmtView::Return(Some(o)) => op_out(a.push(txt("return "@)), o),
        StmtView::GcHint { local, .. } => a.push(
            txt("gc_hint _"@ + decimal(local.0 as nat) + " ShortLived"@),
        ),
    }
}

/// Each statement of `ss` on a new line at depth `d`, appended to `acc`.
pub open spec fn lines_out(acc: Seq<PieceView>, ss: Seq<StmtView>, d: nat) -> Seq<PieceView>
    decreases ss,
{
    if ss.len() == 0 {
        acc
    } else {
        stmt_out(lines_out(acc, ss.drop_last(), d).push(txt("\n"@)), ss.last(), d)
    }
}

fn pad_string(d: usize) -> (r: String)
    ensures
        r@ == pad(d as nat),
{
    let mut out = String::new();
    let mut i: usize = 0;
    proof {
        reveal_strlit("");
    }
    while i < d
        invariant
            i <= d,
            out@ == pad(i as nat),
        decreases d - i,
    {
        out.append("  ");
        i = i + 1;
    }
    out
}

fn inner(d: usize) -> (r: usize)
    ensures
        r == inner_depth(d as nat),
{
    if d < usize::MAX {
        d + 1
    } else {
        d
    }
}

fn dest_text(buf: &mut Vec<TextPiece>, dest: &Option<Place>)
    ensures
        pieces_view(final(buf)@) == dest_out(
            pieces_view(old(buf)@),
            crate::mir::opt_place_view(*dest),
        ),
{
    match dest {
        Some(p) => {
            place_text(buf, p);
            put_str(buf, " = ");
        },
        None => {},
    }
}

fn close_text(buf: &mut Vec<TextPiece>, depth: usize, tail: &str)
    ensures
        pieces_view(final(buf)@) == pieces_view(old(buf)@).push(txt("\n"@ + pad(depth as nat) + tail@)),
{
    let mut s = concat_str("\n", pad_string(depth).as_str());
    s.append(tail);
    put_string(buf, s);
}

fn stmt_text(buf: &mut Vec<TextPiece>, s: &MirStmt, depth: usize)
    ensures
        pieces_view(final(buf)@) == stmt_out(pieces_view(old(buf)@), stmt_view(*s), depth as nat),
    decreases s,
{
    put_string(buf, pad_string(depth));
    match s {
        MirStmt::Assign(p, r) => {
            place_text(buf, p);
            put_str(buf, " = ");
            rvalue_text(buf, r);
        },
        MirStmt::Call { dest, func, args } => {
            dest_text(buf, dest);
            let mut t = concat_str("call fn#", dec(func.0 as u64).as_str());
            t.append("(");
            put_string(buf, t);
            args_text(buf, args);
            put_str(buf, ")");
        },
        MirStmt::CallBuiltin { dest, name, args } => {
            dest_text(buf, dest);
            let mut t = concat_str("builtin ", name.as_str());
            t.append("(");
            put_string(buf, t);
            args_text(buf, args);
            put_str(buf, ")");
        },
        MirStmt::IfStmt { cond, then_body, else_body } => {
            put_str(buf, "if ");
            operand_text(buf, cond);
            put_str(buf, " {");
            lines_text(buf, then_body, inner(depth));
            if else_body.len() > 0 {
                close_text(buf, depth, "} else {");
                lines_text(buf, else_body, inner(depth));
            }
            close_text(buf, depth, "}");
        },
        MirStmt::WhileStmt { cond, body } => {
            put_str(buf, "while ");
            operand_text(buf, cond);
            put_str(buf, " {");
            lines_text(buf, body, inner(depth));
            close_text(buf, depth, "}");
        },
        MirStmt::Break => put_str(buf, "break"),
        MirStmt::Continue => put_str(buf, "continue"),
        MirStmt::Return(None) => put_str(buf, "return"),
        MirStmt::Return(Some(o)) => {
            put_str(buf, "return ");
            operand_text(buf, o);
        },
        MirStmt::GcHint { local, .. } => {
            let mut t = concat_str("gc_hint _", dec(local.0 as u64).as_str());
            t.append(" ShortLived");
            put_string(buf, t);
        },
    }
}

fn lines_text(buf: &mut Vec<TextPiece>, v: &Vec<MirStmt>, depth: usize)
    ensures
        pieces_view(final(buf)@) == lines_out(pieces_view(old(buf)@), stmts_view(v@), depth as nat),
    decreases v,
{
    let ghost acc = pieces_view(buf@);
    let mut i: usize = 0;
    proof {
        assert(stmts_view(v@.take(0)) =~= Seq::<StmtView>::empty());
    }
    #[verifier::loop_isolation(false)]
    while i < v.len()
        invariant
            i <= v.len(),
            pieces_view(buf@) == lines_out(acc, stmts_view(v@.take(i as int)), depth as nat),
        decreases v.len() - i,
    {
        let ghost pre = stmts_view(v@.take(i as int));
        proof {
            broadcast use vstd::std_specs::vec::axiom_vec_index_decreases;

            assert(decreases_to!(v => v[i as int]));
            assert(v@.take(i as int + 1).drop_last() =~= v@.take(i as int));
            assert(stmts_view(v@.take(i as int + 1)) == pre.push(stmt_view(v@[i as int])));
            assert(pre.push(stmt_view(v@[i as int])).drop_last() =~= pre);
        }
        put_str(buf, "\n");
        stmt_text(buf, &v[i], depth);
        i = i + 1;
    }
    proof {
        assert(v@.take(v.len() as int) =~= v@);
    }
}


// ---------------------------------------------------------------------------
// Functions and modules
// ---------------------------------------------------------------------------
/// A parameter's name, or `_` for an unnamed one.
pub open spec fn param_name(l: MirLocal) -> Seq<char> {
    match opt_string_view(l.name) {
        Some(n) => n,
        None => "_"@,
    }
}

/// `name: type` for each parameter, separated by `, `, appended to `acc`.
pub open spec fn params_out(acc: Seq<PieceView>, ps: Seq<MirLocal>) -> Seq<PieceView>
    decreases ps.len(),
{
    if ps.len() == 0 {
        acc
    } else {
        let before = params_out(acc, ps.drop_last());
        (if ps.len() > 1 {
            before.push(txt(", "@))
        } else {
            before
        }).push(txt(param_name(ps.last()) + ": "@)).push(PieceView::Ty(ps.last().ty@))
    }
}

/// The header line of block `b`, marking the function's entry block.
pub open spec fn block_header(b: BlockView, entry: crate::mir::BlockId) -> Seq<char> {
    "\n  bb"@ + decimal(b.id.0 as nat) + (if b.id == entry {
        " [entry]"@
    } else {
        Seq::empty()
    }) + ":"@
}

/// Block `b`: its header, its statements and its terminator.
pub open spec fn block_out(acc: Seq<PieceView>, b: BlockView, entry: crate::mir::BlockId) -> Seq<PieceView> {
    term_out(lines_out(acc.push(txt(block_header(b, entry))), b.stmts, 2).push(txt("\n    "@)), b.terminator)
}

pub open spec fn blocks_out(acc: Seq<PieceView>, bs: Seq<BlockView>, entry: crate::mir::BlockId) -> Seq<PieceView>
    decreases bs.len(),
{
    if bs.len() == 0 {
        acc
    } else {
        block_out(blocks_out(acc, bs.drop_last(), entry), bs.last(), entry)
    }
}

/// The text of function `f` appended to `acc`.
pub open spec fn function_out(acc: Seq<PieceView>, f: MirFunction) -> Seq<PieceView> {
    blocks_out(
        params_out(acc.push(txt("fn "@ + f.name@ + "("@)), f.params@).push(txt(") -> "@)).push(
            PieceView::Ty(f.return_ty@),
        ).push(txt(":"@)),
        blocks_view(f.blocks@),
        f.entry,
    )
}

pub open spec fn functions_out(acc: Seq<PieceView>, fs: Seq<MirFunction>) -> Seq<PieceView>
    decreases fs.len(),
{
    if fs.len() == 0 {
        acc
    } else {
        function_out(functions_out(acc, fs.drop_last()).push(txt("\n\n"@)), fs.last())
    }
}

/// The text of module `m`: a header with its function count and its
/// passes, then each function after a blank line.
pub open spec fn module_out(m: MirModule) -> Seq<PieceView> {
    functions_out(
        seq![
            txt(
                "// MIR module: "@ + decimal(m.functions@.len()) + " fn(s), passes: ["@ + join_with(
                    strings_view(m.stats.optimization_trace@),
                    ", "@,
                ) + "]"@,
            ),
        ],
        m.functions@,
    )
}

fn params_text(buf: &mut Vec<TextPiece>, ps: &Vec<MirLocal>)
    ensures
        pieces_view(final(buf)@) == params_out(pieces_view(old(buf)@), ps@),
{
    let ghost acc = pieces_view(buf@);
    let mut i: usize = 0;
    proof {
        assert(ps@.take(0) =~= Seq::<MirLocal>::empty());
    }
    while i < ps.len()
        invariant
            i <= ps.len(),
            pieces_view(buf@) == params_out(acc, ps@.take(i as int)),
        decreases ps.len() - i,
    {
        proof {
            assert(ps@.take(i as int + 1).drop_last() =~= ps@.take(i as int));
        }
        if i > 0 {
            put_str(buf, ", ");
        }
        let name = match &ps[i].name {
            Some(n) => concat_str(n.as_str(), ": "),
            None => concat_str("_", ": "),
        };
        put_string(buf, name);
        put(buf, TextPiece::Ty(clone_type(&ps[i].ty)));
        i = i + 1;
    }
    proof {
        assert(ps@.take(ps.len() as int) =~= ps@);
    }
}

fn block_text(buf: &mut Vec<TextPiece>, b: &BasicBlock, entry: crate::mir::BlockId)
    ensures
        pieces_view(final(buf)@) == block_out(pieces_view(old(buf)@), block_view(*b), entry),
{
    let mut h = concat_str("\n  bb", dec(b.id.0 as u64).as_str());
    if b.id == entry {
        h.append(" [entry]");
    }
    h.append(":");
    proof {
        if b.id != entry {
            assert(h@ == "\n  bb"@ + decimal(b.id.0 as nat) + ":"@);
            assert(block_header(block_view(*b), entry) =~= "\n  bb"@ + decimal(b.id.0 as nat)
                + ":"@);
        }
    }
    put_string(buf, h);
    lines_text(buf, &b.stmts, 2);
    put_str(buf, "\n    ");
    terminator_text(buf, &b.terminator);
}

fn function_text(buf: &mut Vec<TextPiece>, f: &MirFunction)
    ensures
        pieces_view(final(buf)@) == function_out(pieces_view(old(buf)@), *f),
{
    let mut h = concat_str("fn ", f.name.as_str());
    h.append("(");
    put_string(buf, h);
    params_text(buf, &f.params);
    put_str(buf, ") -> ");
    put(buf, TextPiece::Ty(clone_type(&f.return_ty)));
    put_str(buf, ":");
    let ghost acc = pieces_view(buf@);
    let ghost bs = blocks_view(f.blocks@);
    let mut i: usize = 0;
    proof {
        assert(bs.take(0) =~= Seq::<BlockView>::empty());
    }
    while i < f.blocks.len()
        invariant
            i <= f.blocks@.len(),
            bs == blocks_view(f.blocks@),
            pieces_view(buf@) == blocks_out(acc, bs.take(i as int), f.entry),
        decreases f.blocks@.len() - i,
    {
        proof {
            assert(bs.take(i as int + 1).drop_last() =~= bs.take(i as int));
            assert(bs[i as int] == block_view(f.blocks@[i as int]));
        }
        block_text(buf, &f.blocks[i], f.entry);
        i = i + 1;
    }
    proof {
        assert(bs.take(f.blocks@.len() as int) =~= bs);
    }
}

/// The pieces of a function's text.
pub fn function_text_pieces(func: &MirFunction) -> (r: Vec<TextPiece>)
    ensures
        pieces_view(r@) == function_out(Seq::empty(), *func),
{
    let mut buf: Vec<TextPiece> = Vec::new();
    proof {
        assert(pieces_view(buf@) =~= Seq::<PieceView>::empty());
    }
    function_text(&mut buf, func);
    buf
}

/// The pieces of a module's text.
pub fn module_text_pieces(module: &MirModule) -> (r: Vec<TextPiece>)
    ensures
        pieces_view(r@) == module_out(*module),
{
    let mut buf: Vec<TextPiece> = Vec::new();
    proof {
        assert(pieces_view(buf@) =~= Seq::<PieceView>::empty());
    }
    let mut h = concat_str("// MIR module: ", dec(module.functions.len() as u64).as_str());
    h.append(" fn(s), passes: [");
    h.append(crate::strutil::join_strings(&module.stats.optimization_trace, ", ").as_str());
    h.append("]");
    put_string(&mut buf, h);
    let ghost acc = pieces_view(buf@);
    let ghost fs = module.functions@;
    let mut i: usize = 0;
    proof {
        assert(fs.take(0) =~= Seq::<MirFunction>::empty());
    }
    while i < module.functions.len()
        invariant
            i <= fs.len(),
            fs == module.functions@,
            pieces_view(buf@) == functions_out(acc, fs.take(i as int)),
        decreases fs.len() - i,
    {
        proof {
            assert(fs.take(i as int + 1).drop_last() =~= fs.take(i as int));
        }
        put_str(&mut buf, "\n\n");
        function_text(&mut buf, &module.functions[i]);
        i = i + 1;
    }
    proof {
        assert(fs.take(fs.len() as int) =~= fs);
        assert(acc =~= seq![
            txt(
                "// MIR module: "@ + decimal(module.functions@.len()) + " fn(s), passes: ["@ + join_with(
                    strings_view(module.stats.optimization_trace@),
                    ", "@,
                ) + "]"@,
            ),
        ]);
    }
    buf
}

} // verus!
