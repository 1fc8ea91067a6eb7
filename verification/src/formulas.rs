//! The formula expression language: value types and the expression code
//! generator.
//!
//! Compilation is typed: the pair of result types of a binary expression
//! decides the lowering.  Strings admit only equality and inequality, and
//! only between a materialized (pointer-backed) value and a compile-time
//! literal, lowered as one comparison per literal byte with the failure edge
//! of every comparison going to the function's exit block.  An
//! aggregate-count expression cannot take part in any comparison, and a
//! string cannot be compared with a number or a boolean.

use vstd::prelude::*;
use vstd::string::StringSliceAdditionalSpecFns;
use vstd::utf8::encode_utf8;

use crate::codegen::{CodegenError, SpecCgErr, generate_string_literal};
use crate::ir::{CodegenCtx, Instr, IrValue, SpecCtx, keeps_layout, keeps_sink_counts};
use crate::nodes::{ExprValue, OutputType};
use crate::parser::{FormulaExpr, FormulaOp, FormulaTerm, SpecExpr, SpecTerm};
use crate::text::str_eq;

verus! {

/// The type of a compiled formula expression.
///
/// `Counter` is a sentinel: it marks an expression that stands for an
/// aggregate count rather than a materialized value.  It cannot take part in
/// comparisons and routes a sink node to a counting code path.
#[derive(PartialEq, Eq, Structural, Hash, Clone, Copy, Debug)]
pub enum ExprType {
    String,
    Number,
    Boolean,
    Counter,
}

/// The shape of a compiled value: a compile-time byte-array literal with its
/// bytes, a runtime pointer, a runtime integer, an integer constant with its
/// value, or the address of a global.
pub enum SpecVal {
    Lit(Seq<u8>),
    RunPtr,
    RunReg,
    ConstNum(u64),
    GlobalRef,
}

/// The shape of an operand under a given code generator state.
pub open spec fn val_shape(c: SpecCtx, v: IrValue) -> SpecVal {
    match v {
        IrValue::ConstInt(c) => SpecVal::ConstNum(c),
        IrValue::LitString(id) => SpecVal::Lit(
            if 0 <= id < c.literals.len() {
                c.literals[id as int]
            } else {
                Seq::empty()
            },
        ),
        IrValue::Reg(_) => SpecVal::RunReg,
        IrValue::Ptr(_) => SpecVal::RunPtr,
        IrValue::GlobalPtr(_) => SpecVal::GlobalRef,
    }
}

/// The outcome the type rules assign to a binary expression over two
/// compiled sides, in the order the dispatch tries them.
pub open spec fn spec_binary_outcome(
    lt: ExprType,
    lv: SpecVal,
    rt: ExprType,
    rv: SpecVal,
    op: FormulaOp,
) -> Result<(ExprType, SpecVal), SpecCgErr> {
    if lt == ExprType::String && rt == ExprType::String {
        if op != FormulaOp::Eq && op != FormulaOp::NotEq {
            Err(SpecCgErr::InvalidStringOperation)
        } else if (lv is RunPtr && rv is Lit) || (lv is Lit && rv is RunPtr) {
            Ok((ExprType::Number, SpecVal::ConstNum(1)))
        } else {
            Err(SpecCgErr::UnsupportedOperation)
        }
    } else if lt == ExprType::Number && rt == ExprType::Number {
        Err(SpecCgErr::UnsupportedOperation)
    } else if (lt == ExprType::Boolean && rt == ExprType::Number) || (lt == ExprType::Number && rt
        == ExprType::Boolean) {
        Err(SpecCgErr::UnsupportedOperation)
    } else if lt == ExprType::Boolean && rt == ExprType::Boolean {
        Err(SpecCgErr::UnsupportedOperation)
    } else if lt == ExprType::Counter || rt == ExprType::Counter {
        Err(SpecCgErr::InvalidCounterComparison)
    } else {
        Err(SpecCgErr::TypeMismatch)
    }
}

/// The type and shape a formula compiles to against a producer's output, or
/// the error that rejects it.
pub open spec fn spec_compile(e: SpecExpr, prev: Option<OutputType>) -> Result<
    (ExprType, SpecVal),
    SpecCgErr,
>
    decreases e,
{
    match e {
        SpecExpr::Term(t) => match t {
            SpecTerm::Property(obj, name) => if obj != "input"@ {
                Err(SpecCgErr::InvalidPropertyScope(obj))
            } else {
                match prev {
                    Some(OutputType::Struct(_)) => if name == "process_name"@ {
                        Ok((ExprType::String, SpecVal::RunPtr))
                    } else if name == "pid"@ {
                        Ok((ExprType::Number, SpecVal::RunReg))
                    } else {
                        Err(SpecCgErr::UnknownProperty(name))
                    },
                    _ => Err(SpecCgErr::VoidInput),
                }
            },
            SpecTerm::StrLit(w) => Ok((ExprType::String, SpecVal::Lit(encode_utf8(w)))),
            SpecTerm::Number(n) => Ok((ExprType::Number, SpecVal::ConstNum(n))),
            SpecTerm::Boolean(b) => Ok(
                (
                    ExprType::Boolean,
                    SpecVal::ConstNum(
                        if b {
                            1
                        } else {
                            0
                        },
                    ),
                ),
            ),
            SpecTerm::CountCall(_) => Ok((ExprType::Counter, SpecVal::ConstNum(1))),
        },
        SpecExpr::Binary { lhs, rhs, binary_op } => match spec_compile(*lhs, prev) {
            Err(e) => Err(e),
            Ok((lt, lv)) => match spec_compile(*rhs, prev) {
                Err(e) => Err(e),
                Ok((rt, rv)) => spec_binary_outcome(lt, lv, rt, rv, binary_op),
            },
        },
    }
}

/// The number of comparison decision points a successful compile of `e`
/// emits: one per literal byte of each string comparison.
pub open spec fn spec_cmp_points(e: SpecExpr, prev: Option<OutputType>) -> int
    decreases e,
{
    match e {
        SpecExpr::Term(_) => 0,
        SpecExpr::Binary { lhs, rhs, binary_op } => spec_cmp_points(*lhs, prev) + spec_cmp_points(
            *rhs,
            prev,
        ) + match (spec_compile(*lhs, prev), spec_compile(*rhs, prev)) {
            (
                Ok((ExprType::String, SpecVal::RunPtr)),
                Ok((ExprType::String, SpecVal::Lit(bytes))),
            ) => if binary_op == FormulaOp::Eq || binary_op == FormulaOp::NotEq {
                bytes.len() as int
            } else {
                0
            },
            (
                Ok((ExprType::String, SpecVal::Lit(bytes))),
                Ok((ExprType::String, SpecVal::RunPtr)),
            ) => if binary_op == FormulaOp::Eq || binary_op == FormulaOp::NotEq {
                bytes.len() as int
            } else {
                0
            },
            _ => 0,
        },
    }
}

/// The producer output a borrowed option denotes.
pub open spec fn opt_output(p: Option<&OutputType>) -> Option<OutputType> {
    match p {
        Some(o) => Some(*o),
        None => None,
    }
}

/// A comparison of an aggregate count against anything — itself included —
/// is rejected with the designated invalid-counter-comparison error, never
/// silently coerced.
pub proof fn lemma_counter_comparison_rejected(
    lhs: SpecExpr,
    rhs: SpecExpr,
    op: FormulaOp,
    prev: Option<OutputType>,
)
    requires
        spec_compile(lhs, prev) matches Ok((lt, _)),
        spec_compile(rhs, prev) matches Ok((rt, _)),
        spec_compile(lhs, prev)->Ok_0.0 == ExprType::Counter || spec_compile(rhs, prev)->Ok_0.0
            == ExprType::Counter,
    ensures
        spec_compile(SpecExpr::Binary { lhs: Box::new(lhs), rhs: Box::new(rhs), binary_op: op }, prev)
            == Err::<(ExprType, SpecVal), SpecCgErr>(SpecCgErr::InvalidCounterComparison),
{
}

/// A comparison of a string against a number or a boolean is rejected with
/// the designated type-mismatch error.
pub proof fn lemma_string_mismatch_rejected(
    lhs: SpecExpr,
    rhs: SpecExpr,
    op: FormulaOp,
    prev: Option<OutputType>,
)
    requires
        spec_compile(lhs, prev) matches Ok((lt, _)),
        spec_compile(rhs, prev) matches Ok((rt, _)),
        ({
            let lt = spec_compile(lhs, prev)->Ok_0.0;
            let rt = spec_compile(rhs, prev)->Ok_0.0;
            (lt == ExprType::String && (rt == ExprType::Number || rt == ExprType::Boolean)) || (rt
                == ExprType::String && (lt == ExprType::Number || lt == ExprType::Boolean))
        }),
    ensures
        spec_compile(SpecExpr::Binary { lhs: Box::new(lhs), rhs: Box::new(rhs), binary_op: op }, prev)
            == Err::<(ExprType, SpecVal), SpecCgErr>(SpecCgErr::TypeMismatch),
{
}

/// Emits the per-byte comparison of a runtime string against a compile-time
/// literal of known length.
///
/// For a literal of N bytes this emits exactly N comparison decision points:
/// each one loads one byte of the runtime value, materializes the matching
/// literal byte, compares them, and branches — on failure straight to the
/// function's single exit block, on success into the next fresh block.
/// After all N bytes the expression is the constant one.
fn generate_string_cmp(ctx: &mut CodegenCtx, binary_op: FormulaOp, lhs_ptr: usize, lit: usize) -> (r:
    ExprValue)
    requires
        old(ctx)@.wf(),
        binary_op == FormulaOp::Eq || binary_op == FormulaOp::NotEq,
        0 <= lit < old(ctx)@.literals.len(),
    ensures
        final(ctx)@.wf(),
        keeps_layout(old(ctx)@, final(ctx)@),
        keeps_sink_counts(old(ctx)@, final(ctx)@),
        final(ctx)@.globals == old(ctx)@.globals,
        final(ctx)@.literals == old(ctx)@.literals,
        final(ctx)@.exit_branches() == old(ctx)@.exit_branches() + old(ctx)@.literals[
            lit as int
        ].len(),
        final(ctx)@.cond_branches() - final(ctx)@.exit_branches() == old(ctx)@.cond_branches()
            - old(ctx)@.exit_branches(),
        (r == ExprValue { value: IrValue::ConstInt(1), ty: ExprType::Number }),
{
    let count = ctx.literals[lit].len();
    let mut q: usize = 0;
    while q < count
        invariant
            ctx@.wf(),
            keeps_layout(old(ctx)@, ctx@),
            keeps_sink_counts(old(ctx)@, ctx@),
            ctx@.globals == old(ctx)@.globals,
            ctx@.literals == old(ctx)@.literals,
            0 <= lit < ctx@.literals.len(),
            count == ctx@.literals[lit as int].len(),
            0 <= q <= count,
            ctx@.exit_branches() == old(ctx)@.exit_branches() + q,
            ctx@.cond_branches() - ctx@.exit_branches() == old(ctx)@.cond_branches() - old(
                ctx,
            )@.exit_branches(),
        decreases count - q,
    {
        let next_block = ctx.append_basic_block();
        let ch = ctx.literals[lit][q];
        let loaded = ctx.fresh_value();
        ctx.emit(Instr::LoadChar { dst: loaded, ptr: lhs_ptr, index: q as u64 });
        let litc = ctx.fresh_value();
        ctx.emit(Instr::ConstByte { dst: litc, value: ch });
        let cmp = ctx.fresh_value();
        ctx.emit(Instr::Compare { dst: cmp, op: binary_op, lhs: loaded, rhs: litc });
        let exit = ctx.func_exit;
        ctx.emit(Instr::CondBranch { cond: cmp, then_block: next_block, else_block: exit });
        ctx.set_current_block(next_block);
        q = q + 1;
    }
    ExprValue { value: IrValue::ConstInt(1), ty: ExprType::Number }
}

/// Compiles a formula against the statically known output of the producing
/// node, emitting instructions into the shared context.
///
/// On success the returned value has exactly the type and shape the type
/// rules assign, and the emitted control flow holds one exit-edged decision
/// point per literal byte of each string comparison; on failure the error is
/// exactly the one the type rules assign.
pub fn generate_expr_code(
    ctx: &mut CodegenCtx,
    expr: &FormulaExpr,
    prev_node_output: Option<&OutputType>,
) -> (r: Result<ExprValue, CodegenError>)
    requires
        old(ctx)@.wf(),
    ensures
        final(ctx)@.wf(),
        keeps_layout(old(ctx)@, final(ctx)@),
        keeps_sink_counts(old(ctx)@, final(ctx)@),
        final(ctx)@.globals == old(ctx)@.globals,
        final(ctx)@.literals.len() >= old(ctx)@.literals.len(),
        forall|j: int| 0 <= j < old(ctx)@.literals.len() ==> final(ctx)@.literals[j] == old(
            ctx,
        )@.literals[j],
        (expr@ matches SpecExpr::Term(t) && !(t is Property)) ==> final(ctx)@.blocks == old(
            ctx,
        )@.blocks,
        final(ctx)@.cond_branches() - final(ctx)@.exit_branches() == old(ctx)@.cond_branches()
            - old(ctx)@.exit_branches(),
        match r {
            Ok(v) => spec_compile(expr@, opt_output(prev_node_output)) == Ok::<
                (ExprType, SpecVal),
                SpecCgErr,
            >((v.ty, val_shape(final(ctx)@, v.value))) && final(ctx)@.exit_branches() == old(
                ctx,
            )@.exit_branches() + spec_cmp_points(expr@, opt_output(prev_node_output)) && (v.value
                matches IrValue::LitString(id) ==> id < final(ctx)@.literals.len()),
            Err(e) => (spec_compile(expr@, opt_output(prev_node_output)) matches Err(k) && e@ == k),
        },
    decreases expr,
{
    match expr {
        FormulaExpr::Term(term) => match term {
            FormulaTerm::Property(object, prop_name) => {
                if !str_eq(object.as_str(), "input") {
                    return Err(CodegenError::InvalidPropertyScope(object.clone()));
                }
                match prev_node_output {
                    Some(ot) => match ot {
                        OutputType::Struct(s) => s.codegen_lookup(prop_name.as_str(), ctx),
                        OutputType::Void => Err(CodegenError::VoidInput),
                    },
                    None => Err(CodegenError::VoidInput),
                }
            },
            FormulaTerm::String(str_literal) => {
                let value = generate_string_literal(ctx, str_literal.as_str());
                Ok(ExprValue { value, ty: ExprType::String })
            },
            FormulaTerm::Number(n) => Ok(
                ExprValue { value: IrValue::ConstInt(*n), ty: ExprType::Number },
            ),
            FormulaTerm::Boolean(b) => Ok(
                ExprValue {
                    value: IrValue::ConstInt(
                        if *b {
                            1
                        } else {
                            0
                        },
                    ),
                    ty: ExprType::Boolean,
                },
            ),
            FormulaTerm::CountCall(_ident) => Ok(
                ExprValue { value: IrValue::ConstInt(1), ty: ExprType::Counter },
            ),
        },
        FormulaExpr::Binary { lhs, rhs, binary_op } => {
            let ghost prevs = opt_output(prev_node_output);
            proof {
                assert(expr@ == (SpecExpr::Binary {
                    lhs: Box::new(lhs@),
                    rhs: Box::new(rhs@),
                    binary_op: *binary_op,
                }));
            }
            let lhs_expr = match generate_expr_code(ctx, lhs, prev_node_output) {
                Ok(v) => v,
                Err(e) => {
                    return Err(e);
                },
            };
            let ghost s1 = ctx@;
            let rhs_expr = match generate_expr_code(ctx, rhs, prev_node_output) {
                Ok(v) => v,
                Err(e) => {
                    return Err(e);
                },
            };
            let ghost s2 = ctx@;
            proof {
                assert(val_shape(s2, lhs_expr.value) == val_shape(s1, lhs_expr.value));
                assert(spec_compile(expr@, prevs) == spec_binary_outcome(
                    lhs_expr.ty,
                    val_shape(s2, lhs_expr.value),
                    rhs_expr.ty,
                    val_shape(s2, rhs_expr.value),
                    *binary_op,
                ));
            }
            match (lhs_expr.ty, rhs_expr.ty) {
                (ExprType::String, ExprType::String) => {
                    if *binary_op != FormulaOp::Eq && *binary_op != FormulaOp::NotEq {
                        return Err(CodegenError::InvalidStringOperation);
                    }
                    match (lhs_expr.value, rhs_expr.value) {
                        (IrValue::Ptr(p), IrValue::LitString(l)) => {
                            if l < ctx.literals.len() {
                                Ok(generate_string_cmp(ctx, *binary_op, p, l))
                            } else {
                                Err(CodegenError::UnsupportedOperation)
                            }
                        },
                        (IrValue::LitString(l), IrValue::Ptr(p)) => {
                            if l < ctx.literals.len() {
                                Ok(generate_string_cmp(ctx, *binary_op, p, l))
                            } else {
                                Err(CodegenError::UnsupportedOperation)
                            }
                        },
                        _ => Err(CodegenError::UnsupportedOperation),
                    }
                },
                (ExprType::Number, ExprType::Number) => Err(CodegenError::UnsupportedOperation),
                (ExprType::Boolean, ExprType::Number) => Err(CodegenError::UnsupportedOperation),
                (ExprType::Number, ExprType::Boolean) => Err(CodegenError::UnsupportedOperation),
                (ExprType::Boolean, ExprType::Boolean) => Err(CodegenError::UnsupportedOperation),
                (ExprType::Counter, _) => Err(CodegenError::InvalidCounterComparison),
                (_, ExprType::Counter) => Err(CodegenError::InvalidCounterComparison),
                (ExprType::String, _) => Err(CodegenError::TypeMismatch),
                (_, ExprType::String) => Err(CodegenError::TypeMismatch),
            }
        },
    }
}

} // verus!
