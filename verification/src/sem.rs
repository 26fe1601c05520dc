//! The mathematical meaning of expressions and of the emitted code.
//!
//! `exec_state` gives the machine state after running a prefix of a
//! function's straight-line instructions: the 64-bit value each instruction
//! produced and the current value of each binding slot. `eval_expr` gives
//! the meaning of a source expression directly. The translator's contract
//! ties the two together: the code it emits computes exactly what
//! `eval_expr` says.
//!
//! Constant data objects live at addresses the backend chooses, so both
//! semantics are parameterized by an arbitrary address sequence `data`,
//! giving the address of each data object in emission order.

use vstd::prelude::*;

use crate::ast::{BinOpKind, Error, Expr, LiteralKind, StrPart};
use crate::env::{declared, env_has, env_slot};
use crate::ir::{blobs_view, IrFunction, IrModule, Inst};

verus! {

/// The signed reading of a 64-bit pattern.
pub open spec fn s64(a: u64) -> int {
    if a >= 0x8000000000000000 {
        a - 0x1_0000_0000_0000_0000
    } else {
        a as int
    }
}

/// One for a predicate that holds, zero otherwise.
pub open spec fn bool_val(b: bool) -> u64 {
    if b {
        1
    } else {
        0
    }
}

/// The value a binary instruction computes. Arithmetic wraps at 64 bits and
/// division is unsigned; the machine traps on division by zero, which this
/// model renders as zero. Ordering and equality read their operands as
/// signed values and yield one or zero. Logical `and`/`or` are bitwise over
/// the operands, not short-circuit evaluation.
pub open spec fn apply_op(op: BinOpKind, a: u64, b: u64) -> u64 {
    match op {
        BinOpKind::Add => vstd::wrapping::u64_specs::wrapping_add(a, b),
        BinOpKind::Sub => vstd::wrapping::u64_specs::wrapping_sub(a, b),
        BinOpKind::Mul => vstd::wrapping::u64_specs::wrapping_mul(a, b),
        BinOpKind::Div => if b == 0 {
            0
        } else {
            a / b
        },
        BinOpKind::Less => bool_val(s64(a) < s64(b)),
        BinOpKind::LessOrEq => bool_val(s64(a) <= s64(b)),
        BinOpKind::More => bool_val(s64(a) > s64(b)),
        BinOpKind::MoreOrEq => bool_val(s64(a) >= s64(b)),
        BinOpKind::Equal => bool_val(a == b),
        BinOpKind::NotEqual => bool_val(a != b),
        BinOpKind::And => a & b,
        BinOpKind::Or => a | b,
        BinOpKind::Unsupported => 0,
    }
}

/// The machine state at one point of a function: the value each instruction
/// so far produced, and the current value of each stored-to binding slot.
#[verifier::ext_equal]
pub struct MachState {
    pub vals: Seq<u64>,
    pub vars: Map<int, u64>,
}

/// The state after one more instruction. Out-of-range operands, never
/// emitted by the translator, read as zero.
pub open spec fn exec_step(st: MachState, inst: Inst, data: Seq<u64>) -> MachState {
    match inst {
        Inst::Iconst(c) => MachState { vals: st.vals.push(c), vars: st.vars },
        Inst::F64const(bits) => MachState { vals: st.vals.push(bits), vars: st.vars },
        Inst::Binary(op, a, b) => MachState {
            vals: st.vals.push(
                apply_op(
                    op,
                    if a < st.vals.len() {
                        st.vals[a as int]
                    } else {
                        0
                    },
                    if b < st.vals.len() {
                        st.vals[b as int]
                    } else {
                        0
                    },
                ),
            ),
            vars: st.vars,
        },
        Inst::UseVar(s) => MachState {
            vals: st.vals.push(
                if st.vars.dom().contains(s as int) {
                    st.vars[s as int]
                } else {
                    0
                },
            ),
            vars: st.vars,
        },
        Inst::DefVar(s, v) => MachState {
            vals: st.vals.push(0),
            vars: st.vars.insert(
                s as int,
                if v < st.vals.len() {
                    st.vals[v as int]
                } else {
                    0
                },
            ),
        },
        Inst::SymbolAddr(d) => MachState {
            vals: st.vals.push(
                if d < data.len() {
                    data[d as int]
                } else {
                    0
                },
            ),
            vars: st.vars,
        },
    }
}

/// The machine state after the first `n` instructions, starting from no
/// values and no stored slots.
pub open spec fn exec_state(insts: Seq<Inst>, n: nat, data: Seq<u64>) -> MachState
    decreases n,
{
    if n == 0 {
        MachState { vals: Seq::empty(), vars: Map::empty() }
    } else {
        exec_step(exec_state(insts, (n - 1) as nat, data), insts[n - 1], data)
    }
}

/// The value instruction `v` produces.
pub open spec fn val_at(insts: Seq<Inst>, v: int, data: Seq<u64>) -> u64 {
    exec_state(insts, (v + 1) as nat, data).vals[v]
}

/// After `n` instructions exactly `n` values exist.
pub proof fn lemma_state_len(insts: Seq<Inst>, n: nat, data: Seq<u64>)
    ensures
        exec_state(insts, n, data).vals.len() == n,
    decreases n,
{
    if n > 0 {
        lemma_state_len(insts, (n - 1) as nat, data);
    }
}

/// The state after `n` instructions reads only the first `n` instructions.
pub proof fn lemma_state_prefix(s1: Seq<Inst>, s2: Seq<Inst>, n: nat, data: Seq<u64>)
    requires
        n <= s1.len(),
        s1.is_prefix_of(s2),
    ensures
        exec_state(s1, n, data) == exec_state(s2, n, data),
    decreases n,
{
    if n > 0 {
        lemma_state_prefix(s1, s2, (n - 1) as nat, data);
        assert(s1[n - 1] == s2[n - 1]);
    }
}

/// Values once produced never change: the values after `n` instructions are
/// a prefix of the values after `n2 >= n`.
pub proof fn lemma_vals_monotone(insts: Seq<Inst>, n: nat, n2: nat, data: Seq<u64>)
    requires
        n <= n2,
    ensures
        exec_state(insts, n, data).vals.is_prefix_of(exec_state(insts, n2, data).vals),
    decreases n2,
{
    lemma_state_len(insts, n, data);
    lemma_state_len(insts, n2, data);
    if n < n2 {
        lemma_vals_monotone(insts, n, (n2 - 1) as nat, data);
        lemma_state_len(insts, (n2 - 1) as nat, data);
        assert(exec_state(insts, n, data).vals.is_prefix_of(
            exec_state(insts, n2, data).vals,
        )) by {
            let a = exec_state(insts, n, data).vals;
            let b = exec_state(insts, (n2 - 1) as nat, data).vals;
            let c = exec_state(insts, n2, data).vals;
            assert(b.is_prefix_of(c)) by {
                assert(c.subrange(0, b.len() as int) =~= b);
            }
            assert(a.subrange(0, a.len() as int) =~= a);
            assert(c.subrange(0, a.len() as int) =~= a);
        }
    } else {
        let a = exec_state(insts, n, data).vals;
        assert(a.subrange(0, a.len() as int) =~= a);
    }
}

/// A slot holds a value exactly when one of the instructions run so far
/// stores to it.
pub proof fn lemma_state_dom(insts: Seq<Inst>, n: nat, data: Seq<u64>)
    requires
        n <= insts.len(),
    ensures
        forall|s: int|
            exec_state(insts, n, data).vars.dom().contains(s) <==> crate::ir::defined_in(
                insts,
                n as int,
                s,
            ),
    decreases n,
{
    if n > 0 {
        lemma_state_dom(insts, (n - 1) as nat, data);
        assert forall|s: int|
            exec_state(insts, n, data).vars.dom().contains(s) <==> crate::ir::defined_in(
                insts,
                n as int,
                s,
            ) by {
            if exec_state(insts, n, data).vars.dom().contains(s) {
                if !(insts[n - 1] matches Inst::DefVar(s2, _) && s2 == s) {
                    assert(crate::ir::defined_in(insts, n as int - 1, s));
                }
            }
            if crate::ir::defined_in(insts, n as int, s) {
                let j = choose|j: int|
                    0 <= j < n && n <= insts.len() && ((#[trigger] insts[j]) matches Inst::DefVar(
                        s2,
                        _,
                    ) && s2 == s);
                if j < n - 1 {
                    assert(crate::ir::defined_in(insts, n as int - 1, s));
                }
            }
        }
    }
}

/// A sequence is a prefix of itself.
pub proof fn lemma_prefix_refl<A>(s: Seq<A>)
    ensures
        s.is_prefix_of(s),
{
    assert(s.subrange(0, s.len() as int) =~= s);
}

/// Being a prefix is transitive.
pub proof fn lemma_prefix_trans<A>(a: Seq<A>, b: Seq<A>, c: Seq<A>)
    requires
        a.is_prefix_of(b),
        b.is_prefix_of(c),
    ensures
        a.is_prefix_of(c),
{
    assert(c.subrange(0, a.len() as int) =~= a) by {
        assert(forall|i: int| 0 <= i < a.len() ==> c[i] == b[i] && b[i] == a[i]);
    }
}

/// Appending one instruction leaves every earlier state unchanged and runs
/// the new instruction as one step from the last state.
pub proof fn lemma_exec_snoc(insts: Seq<Inst>, inst: Inst, data: Seq<u64>)
    ensures
        forall|n: nat|
            n <= insts.len() ==> #[trigger] exec_state(insts.push(inst), n, data) == exec_state(
                insts,
                n,
                data,
            ),
        exec_state(insts.push(inst), (insts.len() + 1) as nat, data) == exec_step(
            exec_state(insts, insts.len() as nat, data),
            inst,
            data,
        ),
{
    assert(insts.is_prefix_of(insts.push(inst))) by {
        assert(insts.push(inst).subrange(0, insts.len() as int) =~= insts);
    }
    assert forall|n: nat| n <= insts.len() implies #[trigger] exec_state(
        insts.push(inst),
        n,
        data,
    ) == exec_state(insts, n, data) by {
        lemma_state_prefix(insts, insts.push(inst), n, data);
    }
    assert(insts.push(inst)[insts.len() as int] == inst);
    lemma_state_prefix(insts, insts.push(inst), insts.len() as nat, data);
    let n2 = (insts.len() + 1) as nat;
    assert(exec_state(insts.push(inst), n2, data) == exec_step(
        exec_state(insts.push(inst), (n2 - 1) as nat, data),
        insts.push(inst)[n2 - 1],
        data,
    ));
    assert((n2 - 1) as nat == insts.len() as nat);
}

/// The value an instruction produced does not change as later instructions
/// are appended.
pub proof fn lemma_val_at_stable(s1: Seq<Inst>, s2: Seq<Inst>, v: int, data: Seq<u64>)
    requires
        s1.is_prefix_of(s2),
        0 <= v < s1.len(),
    ensures
        val_at(s1, v, data) == val_at(s2, v, data),
{
    lemma_state_prefix(s1, s2, (v + 1) as nat, data);
}

/// Within a longer run, the value at index `v` is the value instruction `v`
/// produced.
pub proof fn lemma_vals_index(insts: Seq<Inst>, n: nat, v: int, data: Seq<u64>)
    requires
        0 <= v < n,
    ensures
        exec_state(insts, n, data).vals[v] == val_at(insts, v, data),
{
    lemma_vals_monotone(insts, (v + 1) as nat, n, data);
    lemma_state_len(insts, (v + 1) as nat, data);
    lemma_state_len(insts, n, data);
    assert(exec_state(insts, n, data).vals.subrange(0, v + 1) =~= exec_state(
        insts,
        (v + 1) as nat,
        data,
    ).vals);
}

/// A digit string denotes a number that is not negative.
pub proof fn lemma_digits_nonneg(s: Seq<char>)
    requires
        all_digits(s),
    ensures
        digits_val(s) >= 0,
    decreases s.len(),
{
    if s.len() > 0 {
        assert(all_digits(s.drop_last())) by {
            assert(forall|i: int| 0 <= i < s.len() - 1 ==> s.drop_last()[i] == s[i]);
        }
        lemma_digits_nonneg(s.drop_last());
        assert(is_ascii_digit(s[s.len() - 1]));
    }
}

/// The compilation-wide state an expression is evaluated in: the declared
/// names, the value each stored-to slot of the function under construction
/// currently holds, and the text of each constant data object emitted so
/// far.
#[verifier::ext_equal]
pub struct EvalEnv {
    pub names: Seq<Seq<char>>,
    pub vars: Map<int, u64>,
    pub blobs: Seq<Seq<char>>,
}

/// The outcome of evaluating one expression: a failure, no value (a node
/// kind that produces none), or a 64-bit value; the latter two carry the
/// evaluation state left behind.
pub enum EvalStep {
    Fail(Error),
    NoVal(EvalEnv),
    Val(u64, EvalEnv),
}

/// True of an ASCII decimal digit.
pub open spec fn is_ascii_digit(c: char) -> bool {
    48 <= c as u32 <= 57
}

/// The digit's numeric value.
pub open spec fn digit_val(c: char) -> int {
    c as u32 - 48
}

pub open spec fn all_digits(s: Seq<char>) -> bool {
    forall|i: int| 0 <= i < s.len() ==> is_ascii_digit(#[trigger] s[i])
}

/// The number the digit string denotes.
pub open spec fn digits_val(s: Seq<char>) -> int
    decreases s.len(),
{
    if s.len() == 0 {
        0
    } else {
        digits_val(s.drop_last()) * 10 + digit_val(s.last())
    }
}

/// The value of an integer literal's text: at least one digit, digits only,
/// and small enough for the 64-bit signed width; `None` otherwise.
pub open spec fn int_lit_value(s: Seq<char>) -> Option<i64> {
    if s.len() > 0 && all_digits(s) && digits_val(s) <= i64::MAX {
        Some(digits_val(s) as i64)
    } else {
        None
    }
}

/// The meaning of one expression, mirroring the translation step by step.
///
/// - An integer literal is its parsed value; a float literal is its bit
///   pattern.
/// - An identifier is the current value of its slot; a name never declared,
///   or whose slot was never stored to in the function under construction,
///   fails with `UnboundIdentifier`.
/// - A binary operation evaluates the left operand fully, then the right;
///   if either yields no value the whole expression yields no value, and an
///   unsupported operator fails only after both operands were evaluated,
///   exactly as the translation emits code.
/// - A `let` binding evaluates the bound expression in the current state,
///   declares (or reuses) the slot, stores the value, and evaluates the
///   body in the same one namespace.
/// - A lambda evaluates its body in a fresh function — no stored slots —
///   but in the same namespace and data state, and itself yields no value.
/// - A string literal accumulates its plain text parts; at the first
///   interpolation part it instead evaluates to that part's value,
///   discarding the accumulated text and every later part. With no
///   interpolation the text becomes a new constant data object and the
///   value is that object's address.
pub open spec fn eval_expr(e: Expr, env: EvalEnv, data: Seq<u64>) -> EvalStep
    decreases e,
{
    match e {
        Expr::Literal(lit) => match lit {
            LiteralKind::Integer(s) => match int_lit_value(s@) {
                Some(n) => EvalStep::Val(n as u64, env),
                None => EvalStep::Fail(Error::LiteralOutOfRange),
            },
            LiteralKind::Float(bits) => EvalStep::Val(bits, env),
            LiteralKind::Unsupported => EvalStep::Fail(Error::UnsupportedConstruct),
        },
        Expr::Ident(name) => if env_has(env.names, name@) && env.vars.dom().contains(
            env_slot(env.names, name@),
        ) {
            EvalStep::Val(env.vars[env_slot(env.names, name@)], env)
        } else {
            EvalStep::Fail(Error::UnboundIdentifier)
        },
        Expr::BinOp(op, l, r) => match eval_expr(*l, env, data) {
            EvalStep::Fail(er) => EvalStep::Fail(er),
            EvalStep::NoVal(env1) => match eval_expr(*r, env1, data) {
                EvalStep::Fail(er) => EvalStep::Fail(er),
                EvalStep::NoVal(env2) => EvalStep::NoVal(env2),
                EvalStep::Val(_, env2) => EvalStep::NoVal(env2),
            },
            EvalStep::Val(a, env1) => match eval_expr(*r, env1, data) {
                EvalStep::Fail(er) => EvalStep::Fail(er),
                EvalStep::NoVal(env2) => EvalStep::NoVal(env2),
                EvalStep::Val(b, env2) => if op == BinOpKind::Unsupported {
                    EvalStep::Fail(Error::UnsupportedOperator)
                } else {
                    EvalStep::Val(apply_op(op, a, b), env2)
                },
            },
        },
        Expr::LetIn(name, value, body) => match eval_expr(*value, env, data) {
            EvalStep::Fail(er) => EvalStep::Fail(er),
            EvalStep::NoVal(_) => EvalStep::Fail(Error::MissingValue),
            EvalStep::Val(x, env1) => {
                let names2 = declared(env1.names, name@);
                let slot = env_slot(names2, name@);
                eval_expr(
                    *body,
                    EvalEnv { names: names2, vars: env1.vars.insert(slot, x), blobs: env1.blobs },
                    data,
                )
            },
        },
        Expr::Lambda(_param, body) => match eval_expr(
            *body,
            EvalEnv { names: env.names, vars: Map::empty(), blobs: env.blobs },
            data,
        ) {
            EvalStep::Fail(er) => EvalStep::Fail(er),
            EvalStep::NoVal(_) => EvalStep::Fail(Error::EmptyLambdaBody),
            EvalStep::Val(_, envb) => EvalStep::NoVal(
                EvalEnv { names: envb.names, vars: env.vars, blobs: envb.blobs },
            ),
        },
        Expr::Str(parts) => eval_str(*parts, Seq::empty(), env, data),
        Expr::Unsupported => EvalStep::Fail(Error::UnsupportedConstruct),
    }
}

/// The meaning of a string literal's parts, with `acc` the text accumulated
/// so far.
pub open spec fn eval_str(p: StrPart, acc: Seq<char>, env: EvalEnv, data: Seq<u64>) -> EvalStep
    decreases p,
{
    match p {
        StrPart::End => EvalStep::Val(
            if env.blobs.len() < data.len() {
                data[env.blobs.len() as int]
            } else {
                0
            },
            EvalEnv { names: env.names, vars: env.vars, blobs: env.blobs.push(acc) },
        ),
        StrPart::Literal(s, rest) => eval_str(*rest, acc + s@, env, data),
        StrPart::Interpolation(e, _rest) => eval_expr(*e, env, data),
    }
}

/// The evaluation state that the translation state denotes, for a given
/// assignment of data object addresses.
pub open spec fn state_env(m: IrModule, f: IrFunction, names: Seq<Seq<char>>, data: Seq<u64>)
    -> EvalEnv {
    EvalEnv {
        names: names,
        vars: exec_state(f.insts@, f.insts@.len() as nat, data).vars,
        blobs: blobs_view(m),
    }
}

} // verus!
