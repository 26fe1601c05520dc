//! The laws of the translation, stated over the evaluator that the
//! translator's own contract is proved against: what a supported literal,
//! a binary operation over literals, and a re-declaration mean.

use vstd::prelude::*;

use crate::ast::{BinOpKind, Expr, LiteralKind};
use crate::env::{declared, distinct_names, env_has, env_slot};
use crate::sem::{apply_op, bool_val, eval_expr, int_lit_value, s64, EvalEnv, EvalStep};

verus! {

/// A supported integer literal evaluates to its own value, in every state:
/// translating it and executing the result yields exactly that value.
pub proof fn lemma_literal_yields_itself(e: Expr, env: EvalEnv, data: Seq<u64>)
    requires
        e matches Expr::Literal(lit) && lit matches LiteralKind::Integer(s) && int_lit_value(s@)
            is Some,
    ensures
        ({
            let s = e->Literal_0->Integer_0;
            eval_expr(e, env, data) == EvalStep::Val(int_lit_value(s@)->0 as u64, env)
        }),
{
}

/// A binary operation over two supported integer literals evaluates to
/// 64-bit machine arithmetic on their values — wrapping addition,
/// subtraction and multiplication, unsigned division, signed comparisons
/// yielding one or zero, and bitwise `and`/`or` — as `apply_op` states.
pub proof fn lemma_binop_of_literals(e: Expr, env: EvalEnv, data: Seq<u64>)
    requires
        e matches Expr::BinOp(op, l, r),
        e->BinOp_0 != BinOpKind::Unsupported,
        (*e->BinOp_1) matches Expr::Literal(ll) && ll matches LiteralKind::Integer(ls)
            && int_lit_value(ls@) is Some,
        (*e->BinOp_2) matches Expr::Literal(rl) && rl matches LiteralKind::Integer(rs)
            && int_lit_value(rs@) is Some,
    ensures
        ({
            let a = int_lit_value((*e->BinOp_1)->Literal_0->Integer_0@)->0 as u64;
            let b = int_lit_value((*e->BinOp_2)->Literal_0->Integer_0@)->0 as u64;
            eval_expr(e, env, data) == EvalStep::Val(apply_op(e->BinOp_0, a, b), env)
        }),
{
    let l = *e->BinOp_1;
    let r = *e->BinOp_2;
    assert(eval_expr(l, env, data) == EvalStep::Val(
        int_lit_value(l->Literal_0->Integer_0@)->0 as u64,
        env,
    ));
    assert(eval_expr(r, env, data) == EvalStep::Val(
        int_lit_value(r->Literal_0->Integer_0@)->0 as u64,
        env,
    ));
}

/// A comparison of two supported integer literals yields one exactly when
/// the signed predicate holds of their values and zero otherwise.
pub proof fn lemma_comparison_yields_boolean(e: Expr, env: EvalEnv, data: Seq<u64>)
    requires
        e matches Expr::BinOp(op, l, r),
        e->BinOp_0 == BinOpKind::Less,
        (*e->BinOp_1) matches Expr::Literal(ll) && ll matches LiteralKind::Integer(ls)
            && int_lit_value(ls@) is Some,
        (*e->BinOp_2) matches Expr::Literal(rl) && rl matches LiteralKind::Integer(rs)
            && int_lit_value(rs@) is Some,
    ensures
        ({
            let a = int_lit_value((*e->BinOp_1)->Literal_0->Integer_0@)->0 as u64;
            let b = int_lit_value((*e->BinOp_2)->Literal_0->Integer_0@)->0 as u64;
            eval_expr(e, env, data) == EvalStep::Val(bool_val(s64(a) < s64(b)), env)
        }),
{
    lemma_binop_of_literals(e, env, data);
}

/// Declaring a name that is already known creates no second binding: the
/// table is unchanged, and the name keeps its slot.
pub proof fn lemma_redeclare_reuses_slot(names: Seq<Seq<char>>, name: Seq<char>)
    requires
        distinct_names(names),
        env_has(names, name),
    ensures
        declared(names, name) == names,
        env_slot(declared(names, name), name) == env_slot(names, name),
{
}

} // verus!
