//! The expression translator: the recursive walk that turns an expression
//! tree into instructions of the intermediate representation.
//!
//! Every function here carries a contract tying what it emits to the
//! mathematical evaluator of `sem`: for every assignment of data object
//! addresses, the emitted code computes exactly the value `eval_expr` gives
//! the expression, fails with exactly the error it names, or yields no value
//! exactly when it says so.

use vstd::prelude::*;
use vstd::string::StrSliceExecFns;

use crate::ast::{BinOpKind, Error, Expr, LiteralKind, StrPart};
use crate::env::{declare_variable, distinct_names, env_has, Env};
use crate::ir::{
    defined_in, lemma_wf_extend, lemma_wf_module_extend, wf_func, wf_inst, wf_module, IrFunction,
    IrModule, Inst,
};
use crate::sem::{
    all_digits, digits_val, int_lit_value, is_ascii_digit, lemma_digits_nonneg, lemma_exec_snoc,
    lemma_prefix_refl, lemma_prefix_trans, lemma_state_dom, lemma_state_len, lemma_val_at_stable,
    lemma_vals_index, eval_expr, eval_str, exec_state, exec_step, state_env, val_at, EvalEnv,
    EvalStep,
};

verus! {

/// Parse the text of an integer literal: at least one decimal digit, digits
/// only, value at most the largest 64-bit signed integer.
pub fn parse_int_literal(s: &String) -> (r: Result<i64, Error>)
    ensures
        match int_lit_value(s@) {
            Some(n) => r == Ok::<i64, Error>(n) && n >= 0,
            None => r == Err::<i64, Error>(Error::LiteralOutOfRange),
        },
{
    let st = s.as_str();
    let n = st.unicode_len();
    if n == 0 {
        return Err(Error::LiteralOutOfRange);
    }
    let mut acc: u64 = 0;
    let mut overflow: bool = false;
    for i in 0..n
        invariant
            n == s@.len(),
            all_digits(s@.take(i as int)),
            if overflow {
                digits_val(s@.take(i as int)) > i64::MAX
            } else {
                acc as int == digits_val(s@.take(i as int)) && acc <= 0x7fff_ffff_ffff_ffffu64
            },
            st@ == s@,
    {
        let c = st.get_char(i);
        let cu = c as u32;
        if cu < 48 || cu > 57 {
            proof {
                assert(!is_ascii_digit(s@[i as int]));
                assert(!all_digits(s@));
            }
            return Err(Error::LiteralOutOfRange);
        }
        proof {
            assert(s@.take(i + 1).drop_last() =~= s@.take(i as int));
            assert(s@.take(i + 1).last() == s@[i as int]);
            assert(all_digits(s@.take(i + 1))) by {
                assert(forall|j: int| 0 <= j < i + 1 ==> s@.take(i + 1)[j] == s@[j]);
                assert(is_ascii_digit(s@[i as int]));
            }
            assert(digits_val(s@.take(i + 1)) == digits_val(s@.take(i as int)) * 10 + (cu
                - 48));
        }
        if overflow {
            proof {
                lemma_digits_nonneg(s@.take(i as int));
                assert(digits_val(s@.take(i as int)) * 10 > i64::MAX) by {
                    assert(digits_val(s@.take(i as int)) >= i64::MAX + 1);
                }
            }
        } else {
            let d: u64 = (cu - 48) as u64;
            let big: u128 = acc as u128 * 10 + d as u128;
            if big > 0x7fff_ffff_ffff_ffff {
                overflow = true;
            } else {
                acc = big as u64;
            }
        }
    }
    proof {
        assert(s@.take(n as int) =~= s@);
    }
    if overflow {
        return Err(Error::LiteralOutOfRange);
    }
    proof {
        lemma_digits_nonneg(s@);
    }
    Ok(acc as i64)
}

/// Append one instruction to the function under construction; its value is
/// named by its index.
fn emit(f: &mut IrFunction, inst: Inst) -> (v: usize)
    ensures
        v == old(f).insts@.len(),
        final(f).insts@ == old(f).insts@.push(inst),
        final(f).ret == old(f).ret,
        old(f).insts@.is_prefix_of(final(f).insts@),
{
    let v = f.insts.len();
    f.insts.push(inst);
    proof {
        assert(f.insts@ == old(f).insts@.push(inst));
        assert(f.insts@.subrange(0, old(f).insts@.len() as int) =~= old(f).insts@);
    }
    v
}

/// Whether any instruction emitted so far into `f` stores to slot `s`.
fn is_defined(f: &IrFunction, s: usize) -> (b: bool)
    ensures
        b == defined_in(f.insts@, f.insts@.len() as int, s as int),
{
    let n = f.insts.len();
    for i in 0..n
        invariant
            n == f.insts@.len(),
            forall|j: int|
                0 <= j < i ==> !((#[trigger] f.insts@[j]) matches Inst::DefVar(s2, _) && s2
                    == s as int),
    {
        match f.insts[i] {
            Inst::DefVar(s2, _) => {
                if s2 == s {
                    proof {
                        assert(f.insts@[i as int] matches Inst::DefVar(s3, _) && s3 == s as int);
                    }
                    return true;
                }
            },
            _ => {},
        }
    }
    false
}

/// Compile one literal into a constant-load instruction of the matching
/// type: the parsed value for an integer, the bit pattern for a float.
/// Fails with `LiteralOutOfRange` when the integer text does not parse into
/// the 64-bit width, emitting nothing, and with `UnsupportedConstruct` for a
/// literal kind outside the supported set.
pub fn compile_literal(f: &mut IrFunction, literal: &LiteralKind) -> (r: Result<usize, Error>)
    ensures
        final(f).ret == old(f).ret,
        old(f).insts@.is_prefix_of(final(f).insts@),
        match *literal {
            LiteralKind::Integer(s) => match int_lit_value(s@) {
                Some(n) => {
                    &&& (r matches Ok(v) && v == old(f).insts@.len())
                    &&& final(f).insts@ == old(f).insts@.push(Inst::Iconst(n as u64))
                },
                None => {
                    &&& r == Err::<usize, Error>(Error::LiteralOutOfRange)
                    &&& *final(f) == *old(f)
                },
            },
            LiteralKind::Float(bits) => {
                &&& (r matches Ok(v) && v == old(f).insts@.len())
                &&& final(f).insts@ == old(f).insts@.push(Inst::F64const(bits))
            },
            LiteralKind::Unsupported => {
                &&& r == Err::<usize, Error>(Error::UnsupportedConstruct)
                &&& *final(f) == *old(f)
            },
        },
{
    match literal {
        LiteralKind::Integer(s) => match parse_int_literal(s) {
            Ok(v) => Ok(emit(f, Inst::Iconst(v as u64))),
            Err(e) => {
                proof {
                    lemma_prefix_refl(f.insts@);
                }
                Err(e)
            },
        },
        LiteralKind::Float(bits) => Ok(emit(f, Inst::F64const(*bits))),
        LiteralKind::Unsupported => {
            proof {
                lemma_prefix_refl(f.insts@);
            }
            Err(Error::UnsupportedConstruct)
        },
    }
}

/// How a translation outcome corresponds to the evaluator's verdict, for
/// one assignment of data object addresses: the translation fails with
/// exactly the error the evaluator names; or returns no value exactly when
/// the evaluator says so; or returns the index of an emitted instruction
/// whose value is exactly the evaluator's value — and in the two successful
/// cases the machine state the emitted code reaches is the evaluation state
/// the evaluator leaves behind.
pub open spec fn corresponds(
    r: Result<Option<usize>, Error>,
    step: EvalStep,
    m: IrModule,
    f: IrFunction,
    names: Seq<Seq<char>>,
    data: Seq<u64>,
) -> bool {
    match step {
        EvalStep::Fail(e) => r == Result::<Option<usize>, Error>::Err(e),
        EvalStep::NoVal(env2) => r == Result::<Option<usize>, Error>::Ok(Option::<usize>::None)
            && state_env(m, f, names, data) == env2,
        EvalStep::Val(x, env2) => match r {
            Result::Ok(o) => match o {
                Some(v) => v < f.insts@.len() && val_at(f.insts@, v as int, data) == x
                    && state_env(m, f, names, data) == env2,
                None => false,
            },
            Result::Err(_) => false,
        },
    }
}

/// The translation outcome `r` corresponds to evaluating `expr` from the
/// translation state (m0, f0, names0), leaving the state (m, f, names) —
/// for every assignment of data object addresses.
pub open spec fn translated(
    r: Result<Option<usize>, Error>,
    expr: Expr,
    m0: IrModule,
    f0: IrFunction,
    names0: Seq<Seq<char>>,
    m: IrModule,
    f: IrFunction,
    names: Seq<Seq<char>>,
) -> bool {
    forall|data: Seq<u64>|
        corresponds(
            r,
            #[trigger] eval_expr(expr, state_env(m0, f0, names0, data), data),
            m,
            f,
            names,
            data,
        )
}

/// As `translated`, for the parts of a string literal with `acc` already
/// accumulated.
pub open spec fn translated_str(
    r: Result<Option<usize>, Error>,
    p: StrPart,
    acc: Seq<char>,
    m0: IrModule,
    f0: IrFunction,
    names0: Seq<Seq<char>>,
    m: IrModule,
    f: IrFunction,
    names: Seq<Seq<char>>,
) -> bool {
    forall|data: Seq<u64>|
        corresponds(
            r,
            #[trigger] eval_str(p, acc, state_env(m0, f0, names0, data), data),
            m,
            f,
            names,
            data,
        )
}

/// The evaluation state after a `let` binding: the name declared, its slot
/// holding the bound value.
pub open spec fn letin_env(env1: EvalEnv, x: u64, name: Seq<char>) -> EvalEnv {
    let names2 = crate::env::declared(env1.names, name);
    let slot = crate::env::env_slot(names2, name);
    EvalEnv { names: names2, vars: env1.vars.insert(slot, x), blobs: env1.blobs }
}

/// Both halves of a binary operation were translated, each corresponding
/// to its evaluation from the state the previous one left.
pub open spec fn two_steps_hold(
    r1: Result<Option<usize>, Error>,
    r2: Result<Option<usize>, Error>,
    lhs: Expr,
    rhs: Expr,
    e0: EvalEnv,
    m1: IrModule,
    f1: IrFunction,
    names1: Seq<Seq<char>>,
    m2: IrModule,
    f2: IrFunction,
    names2: Seq<Seq<char>>,
    data: Seq<u64>,
) -> bool {
    corresponds(r1, eval_expr(lhs, e0, data), m1, f1, names1, data) && corresponds(
        r2,
        eval_expr(rhs, state_env(m1, f1, names1, data), data),
        m2,
        f2,
        names2,
        data,
    )
}

/// Chaining two translation steps keeps every grow-only fact.
proof fn lemma_translate_chain(
    m0: IrModule,
    f0: IrFunction,
    e0: Env,
    m1: IrModule,
    f1: IrFunction,
    e1: Env,
    m2: IrModule,
    f2: IrFunction,
    e2: Env,
)
    requires
        f0.insts@.is_prefix_of(f1.insts@),
        f1.insts@.is_prefix_of(f2.insts@),
        m0.data@.is_prefix_of(m1.data@),
        m1.data@.is_prefix_of(m2.data@),
        m0.funcs@.is_prefix_of(m1.funcs@),
        m1.funcs@.is_prefix_of(m2.funcs@),
        e0@.is_prefix_of(e1@),
        e1@.is_prefix_of(e2@),
    ensures
        f0.insts@.is_prefix_of(f2.insts@),
        m0.data@.is_prefix_of(m2.data@),
        m0.funcs@.is_prefix_of(m2.funcs@),
        e0@.is_prefix_of(e2@),
{
    lemma_prefix_trans(f0.insts@, f1.insts@, f2.insts@);
    lemma_prefix_trans(m0.data@, m1.data@, m2.data@);
    lemma_prefix_trans(m0.funcs@, m1.funcs@, m2.funcs@);
    lemma_prefix_trans(e0@, e1@, e2@);
}

/// Translate one expression into instructions appended to the function
/// under construction `f`, against the shared binding environment `env`;
/// finished lambda functions and constant data objects are added to
/// `module`.
///
/// Returns the index of the instruction holding the expression's value,
/// `None` for an expression that produces no value (a lambda), or the error
/// the evaluator names. The contract states full correspondence with
/// `eval_expr`, for every assignment of data object addresses; looking up a
/// name that was never declared fails before any code is emitted.
#[verifier::rlimit(100)]
pub fn compile_expression(
    module: &mut IrModule,
    f: &mut IrFunction,
    expr: &Expr,
    env: &mut Env,
) -> (r: Result<Option<usize>, Error>)
    requires
        distinct_names(old(env)@),
        wf_module(*old(module), old(env)@.len() as int),
        wf_func(*old(f), old(env)@.len() as int, old(module).data@.len() as int),
    ensures
        distinct_names(final(env)@),
        old(env)@.is_prefix_of(final(env)@),
        old(f).insts@.is_prefix_of(final(f).insts@),
        old(module).data@.is_prefix_of(final(module).data@),
        old(module).funcs@.is_prefix_of(final(module).funcs@),
        final(f).ret == old(f).ret,
        wf_module(*final(module), final(env)@.len() as int),
        wf_func(*final(f), final(env)@.len() as int, final(module).data@.len() as int),
        translated(
            r,
            *expr,
            *old(module),
            *old(f),
            old(env)@,
            *final(module),
            *final(f),
            final(env)@,
        ),
        (expr matches Expr::Ident(nm) && !env_has(old(env)@, nm@)) ==> *final(f) == *old(f)
            && *final(module) == *old(module) && *final(env) == *old(env),
    decreases *expr,
{
    let ghost nv0 = old(env)@.len() as int;
    let ghost nd0 = old(module).data@.len() as int;
    proof {
        lemma_prefix_refl(f.insts@);
        lemma_prefix_refl(module.data@);
        lemma_prefix_refl(module.funcs@);
        lemma_prefix_refl(env@);
    }
    match expr {
        Expr::Literal(lit) => {
            let r0 = compile_literal(f, lit);
            match r0 {
                Ok(v) => {
                    proof {
                        assert(v == old(f).insts@.len());
                        let oldi = old(f).insts@;
                        let inst = f.insts@[oldi.len() as int];
                        assert(f.insts@ == oldi.push(inst));
                        assert(wf_func(*f, nv0, nd0)) by {
                            lemma_wf_extend(oldi, f.insts@, nv0, nd0, nv0, nd0);
                            assert(wf_inst(f.insts@, oldi.len() as int, nv0, nd0));
                        }
                        assert(translated(
                            Result::<Option<usize>, Error>::Ok(Some(v)),
                            *expr,
                            *old(module),
                            *old(f),
                            old(env)@,
                            *module,
                            *f,
                            env@,
                        )) by {
                            assert forall|data: Seq<u64>|
                                corresponds(
                                    Result::<Option<usize>, Error>::Ok(Some(v)),
                                    #[trigger] eval_expr(
                                        *expr,
                                        state_env(*old(module), *old(f), old(env)@, data),
                                        data,
                                    ),
                                    *module,
                                    *f,
                                    env@,
                                    data,
                                ) by {
                                lemma_exec_snoc(oldi, inst, data);
                                lemma_state_len(oldi, oldi.len(), data);
                                let e0 = state_env(*old(module), *old(f), old(env)@, data);
                                let sfin = state_env(*module, *f, env@, data);
                                let st = exec_state(oldi, oldi.len(), data);
                                assert(exec_state(f.insts@, (oldi.len() + 1) as nat, data)
                                    == exec_step(st, inst, data));
                                assert(sfin.vars == e0.vars);
                                assert(sfin =~= e0);
                                assert(v as int + 1 == oldi.len() + 1);
                                assert(val_at(f.insts@, v as int, data) == exec_step(
                                    st,
                                    inst,
                                    data,
                                ).vals[v as int]);
                                assert(st.vals.len() == v as int);
                                match *lit {
                                    LiteralKind::Integer(s) => {
                                        assert(int_lit_value(s@) is Some);
                                        let n = int_lit_value(s@)->0;
                                        assert(inst == Inst::Iconst(n as u64));
                                        assert(val_at(f.insts@, v as int, data) == n as u64);
                                        assert(eval_expr(*expr, e0, data) == EvalStep::Val(
                                            n as u64,
                                            e0,
                                        ));
                                    },
                                    LiteralKind::Float(bits) => {
                                        assert(inst == Inst::F64const(bits));
                                        assert(val_at(f.insts@, v as int, data) == bits);
                                    },
                                    LiteralKind::Unsupported => {
                                        assert(false);
                                    },
                                }
                            }
                        }
                    }
                    Ok(Some(v))
                },
                Err(e) => {
                    proof {
                        assert(translated(
                            Result::<Option<usize>, Error>::Err(e),
                            *expr,
                            *old(module),
                            *old(f),
                            old(env)@,
                            *module,
                            *f,
                            env@,
                        )) by {
                            assert forall|data: Seq<u64>|
                                corresponds(
                                    Result::<Option<usize>, Error>::Err(e),
                                    #[trigger] eval_expr(
                                        *expr,
                                        state_env(*old(module), *old(f), old(env)@, data),
                                        data,
                                    ),
                                    *module,
                                    *f,
                                    env@,
                                    data,
                                ) by {
                                assert(*expr == Expr::Literal(*lit));
                            }
                        }
                    }
                    Err(e)
                },
            }
        },
        Expr::Ident(name) => {
            match env.lookup(name) {
                None => {
                    proof {
                        assert(translated(
                            Result::<Option<usize>, Error>::Err(Error::UnboundIdentifier),
                            *expr,
                            *old(module),
                            *old(f),
                            old(env)@,
                            *module,
                            *f,
                            env@,
                        )) by {
                            assert forall|data: Seq<u64>|
                                corresponds(
                                    Result::<Option<usize>, Error>::Err(Error::UnboundIdentifier),
                                    #[trigger] eval_expr(
                                        *expr,
                                        state_env(*old(module), *old(f), old(env)@, data),
                                        data,
                                    ),
                                    *module,
                                    *f,
                                    env@,
                                    data,
                                ) by {
                                assert(!env_has(old(env)@, name@));
                            }
                        }
                    }
                    Err(Error::UnboundIdentifier)
                },
                Some(slot) => {
                    if is_defined(f, slot) {
                        let ghost oldi = f.insts@;
                        let v = emit(f, Inst::UseVar(slot));
                        proof {
                            assert(wf_func(*f, nv0, nd0)) by {
                                lemma_wf_extend(oldi, f.insts@, nv0, nd0, nv0, nd0);
                                assert(defined_in(f.insts@, oldi.len() as int, slot as int)) by {
                                    let j = choose|j: int|
                                        0 <= j < oldi.len() && oldi.len() <= oldi.len() && ((
                                        #[trigger] oldi[j]) matches Inst::DefVar(s2, _) && s2
                                            == slot as int);
                                    assert(f.insts@[j] == oldi[j]);
                                }
                                assert(wf_inst(f.insts@, oldi.len() as int, nv0, nd0));
                            }
                            assert(translated(
                                Result::<Option<usize>, Error>::Ok(Some(v)),
                                *expr,
                                *old(module),
                                *old(f),
                                old(env)@,
                                *module,
                                *f,
                                env@,
                            )) by {
                                assert forall|data: Seq<u64>|
                                    corresponds(
                                        Result::<Option<usize>, Error>::Ok(Some(v)),
                                        #[trigger] eval_expr(
                                            *expr,
                                            state_env(*old(module), *old(f), old(env)@, data),
                                            data,
                                        ),
                                        *module,
                                        *f,
                                        env@,
                                        data,
                                    ) by {
                                    lemma_exec_snoc(oldi, Inst::UseVar(slot), data);
                                    lemma_state_len(oldi, oldi.len(), data);
                                    lemma_state_dom(oldi, oldi.len(), data);
                                    assert(exec_state(oldi, oldi.len(), data).vars.dom().contains(
                                        slot as int,
                                    ));
                                    assert(state_env(*module, *f, env@, data) =~= state_env(
                                        *old(module),
                                        *old(f),
                                        old(env)@,
                                        data,
                                    ));
                                }
                            }
                        }
                        Ok(Some(v))
                    } else {
                        proof {
                            assert(translated(
                                Result::<Option<usize>, Error>::Err(Error::UnboundIdentifier),
                                *expr,
                                *old(module),
                                *old(f),
                                old(env)@,
                                *module,
                                *f,
                                env@,
                            )) by {
                                assert forall|data: Seq<u64>|
                                    corresponds(
                                        Result::<Option<usize>, Error>::Err(Error::UnboundIdentifier),
                                        #[trigger] eval_expr(
                                            *expr,
                                            state_env(*old(module), *old(f), old(env)@, data),
                                            data,
                                        ),
                                        *module,
                                        *f,
                                        env@,
                                        data,
                                    ) by {
                                    lemma_state_dom(f.insts@, f.insts@.len(), data);
                                }
                            }
                        }
                        Err(Error::UnboundIdentifier)
                    }
                },
            }
        },
        Expr::Unsupported => {
            proof {
                assert(translated(
                    Result::<Option<usize>, Error>::Err(Error::UnsupportedConstruct),
                    *expr,
                    *old(module),
                    *old(f),
                    old(env)@,
                    *module,
                    *f,
                    env@,
                )) by {
                    assert forall|data: Seq<u64>|
                        corresponds(
                            Result::<Option<usize>, Error>::Err(Error::UnsupportedConstruct),
                            #[trigger] eval_expr(
                                *expr,
                                state_env(*old(module), *old(f), old(env)@, data),
                                data,
                            ),
                            *module,
                            *f,
                            env@,
                            data,
                        ) by {}
                }
            }
            Err(Error::UnsupportedConstruct)
        },
        Expr::BinOp(op, lhs, rhs) => {
            let r1 = compile_expression(module, f, &**lhs, env);
            let ghost m1 = *module;
            let ghost f1 = *f;
            let ghost env1 = *env;
            let left = match r1 {
                Ok(x) => x,
                Err(e) => {
                    proof {
                        assert(translated(
                            Result::<Option<usize>, Error>::Err(e),
                            *expr,
                            *old(module),
                            *old(f),
                            old(env)@,
                            *module,
                            *f,
                            env@,
                        )) by {
                            assert forall|data: Seq<u64>|
                                corresponds(
                                    Result::<Option<usize>, Error>::Err(e),
                                    #[trigger] eval_expr(
                                        *expr,
                                        state_env(*old(module), *old(f), old(env)@, data),
                                        data,
                                    ),
                                    *module,
                                    *f,
                                    env@,
                                    data,
                                ) by {
                                let step_l = eval_expr(
                                    **lhs,
                                    state_env(*old(module), *old(f), old(env)@, data),
                                    data,
                                );
                                assert(corresponds(r1, step_l, m1, f1, env1@, data));
                            }
                        }
                    }
                    return Err(e);
                },
            };
            let r2 = compile_expression(module, f, &**rhs, env);
            let ghost m2 = *module;
            let ghost f2 = *f;
            proof {
                lemma_translate_chain(
                    *old(module),
                    *old(f),
                    *old(env),
                    m1,
                    f1,
                    env1,
                    *module,
                    *f,
                    *env,
                );
            }
            proof {
                assert forall|data: Seq<u64>| #[trigger] two_steps_hold(
                    r1,
                    r2,
                    **lhs,
                    **rhs,
                    state_env(*old(module), *old(f), old(env)@, data),
                    m1,
                    f1,
                    env1@,
                    m2,
                    f2,
                    env@,
                    data,
                ) by {
                    let e0 = state_env(*old(module), *old(f), old(env)@, data);
                    let step_l = eval_expr(**lhs, e0, data);
                    assert(corresponds(r1, step_l, m1, f1, env1@, data));
                    let step_r = eval_expr(**rhs, state_env(m1, f1, env1@, data), data);
                    assert(corresponds(r2, step_r, m2, f2, env@, data));
                }
            }
            let right = match r2 {
                Ok(x) => x,
                Err(e) => {
                    proof {
                        assert(translated(
                            Result::<Option<usize>, Error>::Err(e),
                            *expr,
                            *old(module),
                            *old(f),
                            old(env)@,
                            *module,
                            *f,
                            env@,
                        )) by {
                            assert forall|data: Seq<u64>|
                                corresponds(
                                    Result::<Option<usize>, Error>::Err(e),
                                    #[trigger] eval_expr(
                                        *expr,
                                        state_env(*old(module), *old(f), old(env)@, data),
                                        data,
                                    ),
                                    *module,
                                    *f,
                                    env@,
                                    data,
                                ) by {
                                assert(two_steps_hold(
                                    r1,
                                    r2,
                                    **lhs,
                                    **rhs,
                                    state_env(*old(module), *old(f), old(env)@, data),
                                    m1,
                                    f1,
                                    env1@,
                                    m2,
                                    f2,
                                    env@,
                                    data,
                                ));
                            }
                        }
                    }
                    return Err(e);
                },
            };
            match (left, right) {
                (Some(a), Some(b)) => {
                    if *op == BinOpKind::Unsupported {
                        proof {
                            assert(translated(
                                Result::<Option<usize>, Error>::Err(Error::UnsupportedOperator),
                                *expr,
                                *old(module),
                                *old(f),
                                old(env)@,
                                *module,
                                *f,
                                env@,
                            )) by {
                                assert forall|data: Seq<u64>|
                                    corresponds(
                                        Result::<Option<usize>, Error>::Err(Error::UnsupportedOperator),
                                        #[trigger] eval_expr(
                                            *expr,
                                            state_env(*old(module), *old(f), old(env)@, data),
                                            data,
                                        ),
                                        *module,
                                        *f,
                                        env@,
                                        data,
                                    ) by {
                                    assert(two_steps_hold(
                                        r1,
                                        r2,
                                        **lhs,
                                        **rhs,
                                        state_env(*old(module), *old(f), old(env)@, data),
                                        m1,
                                        f1,
                                        env1@,
                                        m2,
                                        f2,
                                        env@,
                                        data,
                                    ));
                                }
                            }
                        }
                        return Err(Error::UnsupportedOperator);
                    }
                    proof {
                        let data0 = Seq::<u64>::empty();
                        assert(corresponds(
                            r1,
                            eval_expr(
                                **lhs,
                                state_env(*old(module), *old(f), old(env)@, data0),
                                data0,
                            ),
                            m1,
                            f1,
                            env1@,
                            data0,
                        ));
                        assert(a < f1.insts@.len());
                        assert(corresponds(
                            r2,
                            eval_expr(**rhs, state_env(m1, f1, env1@, data0), data0),
                            m2,
                            f2,
                            env@,
                            data0,
                        ));
                        assert(b < f2.insts@.len());
                    }
                    let ghost oldi = f.insts@;
                    let v = emit(f, Inst::Binary(*op, a, b));
                    proof {
                        let nv2 = env@.len() as int;
                        let nd2 = module.data@.len() as int;
                        assert(wf_func(*f, nv2, nd2)) by {
                            lemma_wf_extend(oldi, f.insts@, nv2, nd2, nv2, nd2);
                            assert(a < oldi.len() && b < oldi.len());
                            assert(wf_inst(f.insts@, oldi.len() as int, nv2, nd2));
                        }
                        assert(translated(
                            Result::<Option<usize>, Error>::Ok(Some(v)),
                            *expr,
                            *old(module),
                            *old(f),
                            old(env)@,
                            *module,
                            *f,
                            env@,
                        )) by {
                            assert forall|data: Seq<u64>|
                                corresponds(
                                    Result::<Option<usize>, Error>::Ok(Some(v)),
                                    #[trigger] eval_expr(
                                        *expr,
                                        state_env(*old(module), *old(f), old(env)@, data),
                                        data,
                                    ),
                                    *module,
                                    *f,
                                    env@,
                                    data,
                                ) by {
                                let e0 = state_env(*old(module), *old(f), old(env)@, data);
                                let step_l = eval_expr(**lhs, e0, data);
                                assert(corresponds(r1, step_l, m1, f1, env1@, data));
                                let step_r = eval_expr(**rhs, state_env(m1, f1, env1@, data), data);
                                assert(corresponds(r2, step_r, m2, f2, env@, data));
                                let xa = step_l->Val_0;
                                let xb = step_r->Val_0;
                                lemma_exec_snoc(oldi, Inst::Binary(*op, a, b), data);
                                lemma_state_len(oldi, oldi.len(), data);
                                lemma_vals_index(oldi, oldi.len(), a as int, data);
                                lemma_vals_index(oldi, oldi.len(), b as int, data);
                                lemma_val_at_stable(f1.insts@, oldi, a as int, data);
                                assert(val_at(oldi, a as int, data) == xa);
                                assert(val_at(oldi, b as int, data) == xb);
                                assert(state_env(*module, *f, env@, data) =~= state_env(
                                    m2,
                                    f2,
                                    env@,
                                    data,
                                ));
                            }
                        }
                    }
                    Ok(Some(v))
                },
                _ => {
                    proof {
                        assert(translated(
                            Result::<Option<usize>, Error>::Ok(Option::<usize>::None),
                            *expr,
                            *old(module),
                            *old(f),
                            old(env)@,
                            *module,
                            *f,
                            env@,
                        )) by {
                            assert forall|data: Seq<u64>|
                                corresponds(
                                    Result::<Option<usize>, Error>::Ok(Option::<usize>::None),
                                    #[trigger] eval_expr(
                                        *expr,
                                        state_env(*old(module), *old(f), old(env)@, data),
                                        data,
                                    ),
                                    *module,
                                    *f,
                                    env@,
                                    data,
                                ) by {
                                assert(two_steps_hold(
                                    r1,
                                    r2,
                                    **lhs,
                                    **rhs,
                                    state_env(*old(module), *old(f), old(env)@, data),
                                    m1,
                                    f1,
                                    env1@,
                                    m2,
                                    f2,
                                    env@,
                                    data,
                                ));
                            }
                        }
                    }
                    Ok(None)
                },
            }
        },
        Expr::LetIn(name, value, body) => {
            let r1 = compile_expression(module, f, &**value, env);
            let ghost m1 = *module;
            let ghost f1 = *f;
            let ghost env1 = *env;
            let v = match r1 {
                Ok(Some(v)) => v,
                Ok(None) => {
                    proof {
                        assert(translated(
                            Result::<Option<usize>, Error>::Err(Error::MissingValue),
                            *expr,
                            *old(module),
                            *old(f),
                            old(env)@,
                            *module,
                            *f,
                            env@,
                        )) by {
                            assert forall|data: Seq<u64>|
                                corresponds(
                                    Result::<Option<usize>, Error>::Err(Error::MissingValue),
                                    #[trigger] eval_expr(
                                        *expr,
                                        state_env(*old(module), *old(f), old(env)@, data),
                                        data,
                                    ),
                                    *module,
                                    *f,
                                    env@,
                                    data,
                                ) by {
                                let step_l = eval_expr(
                                    **value,
                                    state_env(*old(module), *old(f), old(env)@, data),
                                    data,
                                );
                                assert(corresponds(r1, step_l, m1, f1, env1@, data));
                            }
                        }
                    }
                    return Err(Error::MissingValue);
                },
                Err(e) => {
                    proof {
                        assert(translated(
                            Result::<Option<usize>, Error>::Err(e),
                            *expr,
                            *old(module),
                            *old(f),
                            old(env)@,
                            *module,
                            *f,
                            env@,
                        )) by {
                            assert forall|data: Seq<u64>|
                                corresponds(
                                    Result::<Option<usize>, Error>::Err(e),
                                    #[trigger] eval_expr(
                                        *expr,
                                        state_env(*old(module), *old(f), old(env)@, data),
                                        data,
                                    ),
                                    *module,
                                    *f,
                                    env@,
                                    data,
                                ) by {
                                let step_l = eval_expr(
                                    **value,
                                    state_env(*old(module), *old(f), old(env)@, data),
                                    data,
                                );
                                assert(corresponds(r1, step_l, m1, f1, env1@, data));
                            }
                        }
                    }
                    return Err(e);
                },
            };
            proof {
                let data0 = Seq::<u64>::empty();
                assert(corresponds(
                    r1,
                    eval_expr(**value, state_env(*old(module), *old(f), old(env)@, data0), data0),
                    m1,
                    f1,
                    env1@,
                    data0,
                ));
                assert(v < f1.insts@.len());
            }
            let slot = declare_variable(env, name);
            let ghost oldi = f.insts@;
            let _d = emit(f, Inst::DefVar(slot, v));
            let ghost m2 = *module;
            let ghost f2 = *f;
            let ghost env2 = *env;
            proof {
                let nv2 = env@.len() as int;
                let nd2 = module.data@.len() as int;
                assert(wf_func(*f, nv2, nd2)) by {
                    lemma_wf_extend(oldi, f.insts@, env1@.len() as int, nd2, nv2, nd2);
                    assert(v < oldi.len());
                    assert(wf_inst(f.insts@, oldi.len() as int, nv2, nd2));
                }
                lemma_wf_module_extend(m1, *module, env1@.len() as int, nv2);
                assert forall|data: Seq<u64>|
                    state_env(m2, f2, env2@, data) =~= letin_env(
                        (#[trigger] eval_expr(
                            **value,
                            state_env(*old(module), *old(f), old(env)@, data),
                            data,
                        ))->Val_1,
                        eval_expr(
                            **value,
                            state_env(*old(module), *old(f), old(env)@, data),
                            data,
                        )->Val_0,
                        name@,
                    ) by {
                    let step_l = eval_expr(
                        **value,
                        state_env(*old(module), *old(f), old(env)@, data),
                        data,
                    );
                    assert(corresponds(r1, step_l, m1, f1, env1@, data));
                    lemma_exec_snoc(oldi, Inst::DefVar(slot, v), data);
                    lemma_state_len(oldi, oldi.len(), data);
                    lemma_vals_index(oldi, oldi.len(), v as int, data);
                }
            }
            let rb = compile_expression(module, f, &**body, env);
            proof {
                lemma_translate_chain(
                    *old(module),
                    *old(f),
                    *old(env),
                    m2,
                    f2,
                    env2,
                    *module,
                    *f,
                    *env,
                );
                assert(translated(
                    rb,
                    *expr,
                    *old(module),
                    *old(f),
                    old(env)@,
                    *module,
                    *f,
                    env@,
                )) by {
                    assert forall|data: Seq<u64>|
                        corresponds(
                            rb,
                            #[trigger] eval_expr(
                                *expr,
                                state_env(*old(module), *old(f), old(env)@, data),
                                data,
                            ),
                            *module,
                            *f,
                            env@,
                            data,
                        ) by {
                        let e0 = state_env(*old(module), *old(f), old(env)@, data);
                        let step_l = eval_expr(**value, e0, data);
                        assert(corresponds(r1, step_l, m1, f1, env1@, data));
                        assert(state_env(m2, f2, env2@, data) =~= letin_env(
                            step_l->Val_1,
                            step_l->Val_0,
                            name@,
                        ));
                        assert(corresponds(
                            rb,
                            eval_expr(**body, state_env(m2, f2, env2@, data), data),
                            *module,
                            *f,
                            env@,
                            data,
                        ));
                    }
                }
            }
            rb
        },
        Expr::Lambda(_param, body) => {
            let mut lf = IrFunction::new();
            let ghost lf0 = lf;
            let ghost m0 = *module;
            let rb = compile_expression(module, &mut lf, &**body, env);
            let ghost mb = *module;
            let ghost lfb = lf;
            proof {
                lemma_prefix_refl(f.insts@);
                lemma_wf_extend(
                    f.insts@,
                    f.insts@,
                    nv0,
                    nd0,
                    env@.len() as int,
                    module.data@.len() as int,
                );
            }
            let bv = match rb {
                Ok(Some(bv)) => bv,
                Ok(None) => {
                    proof {
                        assert(translated(
                            Result::<Option<usize>, Error>::Err(Error::EmptyLambdaBody),
                            *expr,
                            *old(module),
                            *old(f),
                            old(env)@,
                            *module,
                            *f,
                            env@,
                        )) by {
                            assert forall|data: Seq<u64>|
                                corresponds(
                                    Result::<Option<usize>, Error>::Err(Error::EmptyLambdaBody),
                                    #[trigger] eval_expr(
                                        *expr,
                                        state_env(*old(module), *old(f), old(env)@, data),
                                        data,
                                    ),
                                    *module,
                                    *f,
                                    env@,
                                    data,
                                ) by {
                                let e0 = state_env(*old(module), *old(f), old(env)@, data);
                                let eb = state_env(m0, lf0, old(env)@, data);
                                assert(eb =~= EvalEnv {
                                    names: e0.names,
                                    vars: Map::empty(),
                                    blobs: e0.blobs,
                                });
                                let stepb = eval_expr(**body, eb, data);
                                assert(corresponds(rb, stepb, mb, lfb, env@, data));
                            }
                        }
                    }
                    return Err(Error::EmptyLambdaBody);
                },
                Err(e) => {
                    proof {
                        assert(translated(
                            Result::<Option<usize>, Error>::Err(e),
                            *expr,
                            *old(module),
                            *old(f),
                            old(env)@,
                            *module,
                            *f,
                            env@,
                        )) by {
                            assert forall|data: Seq<u64>|
                                corresponds(
                                    Result::<Option<usize>, Error>::Err(e),
                                    #[trigger] eval_expr(
                                        *expr,
                                        state_env(*old(module), *old(f), old(env)@, data),
                                        data,
                                    ),
                                    *module,
                                    *f,
                                    env@,
                                    data,
                                ) by {
                                let e0 = state_env(*old(module), *old(f), old(env)@, data);
                                let eb = state_env(m0, lf0, old(env)@, data);
                                assert(eb =~= EvalEnv {
                                    names: e0.names,
                                    vars: Map::empty(),
                                    blobs: e0.blobs,
                                });
                                let stepb = eval_expr(**body, eb, data);
                                assert(corresponds(rb, stepb, mb, lfb, env@, data));
                            }
                        }
                    }
                    return Err(e);
                },
            };
            proof {
                let data0 = Seq::<u64>::empty();
                assert(corresponds(
                    rb,
                    eval_expr(**body, state_env(m0, lf0, old(env)@, data0), data0),
                    mb,
                    lfb,
                    env@,
                    data0,
                ));
                assert(bv < lfb.insts@.len());
            }
            lf.ret = bv;
            let ghost lff = lf;
            module.funcs.push(lf);
            proof {
                assert(lff.insts@ == lfb.insts@);
                assert(module.funcs@ == mb.funcs@.push(lff));
                assert(old(module).funcs@.is_prefix_of(module.funcs@)) by {
                    lemma_prefix_refl(mb.funcs@);
                    assert(mb.funcs@.is_prefix_of(module.funcs@)) by {
                        assert(module.funcs@.subrange(0, mb.funcs@.len() as int) =~= mb.funcs@);
                    }
                    lemma_prefix_trans(old(module).funcs@, mb.funcs@, module.funcs@);
                }
                assert(wf_module(*module, env@.len() as int)) by {
                    assert(crate::ir::wf_finished(
                        lff,
                        env@.len() as int,
                        module.data@.len() as int,
                    )) by {
                        assert(wf_func(lfb, env@.len() as int, mb.data@.len() as int));
                        assert(module.data@ == mb.data@);
                    }
                    assert(forall|k: int|
                        0 <= k < mb.funcs@.len() ==> module.funcs@[k] == mb.funcs@[k]);
                }
                assert(translated(
                    Result::<Option<usize>, Error>::Ok(Option::<usize>::None),
                    *expr,
                    *old(module),
                    *old(f),
                    old(env)@,
                    *module,
                    *f,
                    env@,
                )) by {
                    assert forall|data: Seq<u64>|
                        corresponds(
                            Result::<Option<usize>, Error>::Ok(Option::<usize>::None),
                            #[trigger] eval_expr(
                                *expr,
                                state_env(*old(module), *old(f), old(env)@, data),
                                data,
                            ),
                            *module,
                            *f,
                            env@,
                            data,
                        ) by {
                        let e0 = state_env(*old(module), *old(f), old(env)@, data);
                        let eb = state_env(m0, lf0, old(env)@, data);
                        assert(eb =~= EvalEnv { names: e0.names, vars: Map::empty(), blobs: e0.blobs });
                        let stepb = eval_expr(**body, eb, data);
                        assert(corresponds(rb, stepb, mb, lfb, env@, data));
                        let envb = stepb->Val_1;
                        assert(state_env(mb, lfb, env@, data) == envb);
                        assert(state_env(*module, *f, env@, data) =~= EvalEnv {
                            names: envb.names,
                            vars: e0.vars,
                            blobs: envb.blobs,
                        });
                    }
                }
            }
            Ok(None)
        },
        Expr::Str(parts) => {
            let rs = compile_str_parts(module, f, &**parts, String::new(), env);
            proof {
                assert(translated(
                    rs,
                    *expr,
                    *old(module),
                    *old(f),
                    old(env)@,
                    *module,
                    *f,
                    env@,
                )) by {
                    assert forall|data: Seq<u64>|
                        corresponds(
                            rs,
                            #[trigger] eval_expr(
                                *expr,
                                state_env(*old(module), *old(f), old(env)@, data),
                                data,
                            ),
                            *module,
                            *f,
                            env@,
                            data,
                        ) by {
                        let e0 = state_env(*old(module), *old(f), old(env)@, data);
                        assert(corresponds(
                            rs,
                            eval_str(**parts, Seq::<char>::empty(), e0, data),
                            *module,
                            *f,
                            env@,
                            data,
                        ));
                    }
                }
            }
            rs
        },
    }
}

/// Translate the ordered parts of a string literal, with `acc` the text
/// accumulated so far: plain text parts are appended to `acc`; the first
/// interpolation part is translated and its value returned as the whole
/// literal's value, discarding `acc` and every later part; with no
/// interpolation the accumulated text becomes a new constant data object of
/// the module and the value is that object's address.
#[verifier::rlimit(100)]
fn compile_str_parts(
    module: &mut IrModule,
    f: &mut IrFunction,
    p: &StrPart,
    acc: String,
    env: &mut Env,
) -> (r: Result<Option<usize>, Error>)
    requires
        distinct_names(old(env)@),
        wf_module(*old(module), old(env)@.len() as int),
        wf_func(*old(f), old(env)@.len() as int, old(module).data@.len() as int),
    ensures
        distinct_names(final(env)@),
        old(env)@.is_prefix_of(final(env)@),
        old(f).insts@.is_prefix_of(final(f).insts@),
        old(module).data@.is_prefix_of(final(module).data@),
        old(module).funcs@.is_prefix_of(final(module).funcs@),
        final(f).ret == old(f).ret,
        wf_module(*final(module), final(env)@.len() as int),
        wf_func(*final(f), final(env)@.len() as int, final(module).data@.len() as int),
        translated_str(
            r,
            *p,
            acc@,
            *old(module),
            *old(f),
            old(env)@,
            *final(module),
            *final(f),
            final(env)@,
        ),
    decreases *p,
{
    proof {
        lemma_prefix_refl(f.insts@);
        lemma_prefix_refl(module.data@);
        lemma_prefix_refl(module.funcs@);
        lemma_prefix_refl(env@);
    }
    match p {
        StrPart::End => {
            let d = module.data.len();
            let ghost m0 = *module;
            module.data.push(acc);
            let ghost oldi = f.insts@;
            let v = emit(f, Inst::SymbolAddr(d));
            proof {
                let nv = env@.len() as int;
                assert(module.data@ == m0.data@.push(acc));
                assert(m0.data@.is_prefix_of(module.data@)) by {
                    assert(module.data@.subrange(0, m0.data@.len() as int) =~= m0.data@);
                }
                assert(wf_func(*f, nv, module.data@.len() as int)) by {
                    lemma_wf_extend(
                        oldi,
                        f.insts@,
                        nv,
                        m0.data@.len() as int,
                        nv,
                        module.data@.len() as int,
                    );
                    assert(wf_inst(f.insts@, oldi.len() as int, nv, module.data@.len() as int));
                }
                lemma_wf_module_extend(m0, *module, nv, nv);
                assert(crate::ir::blobs_view(*module) =~= crate::ir::blobs_view(m0).push(acc@));
                assert(translated_str(
                    Result::<Option<usize>, Error>::Ok(Some(v)),
                    *p,
                    acc@,
                    *old(module),
                    *old(f),
                    old(env)@,
                    *module,
                    *f,
                    env@,
                )) by {
                    assert forall|data: Seq<u64>|
                        corresponds(
                            Result::<Option<usize>, Error>::Ok(Some(v)),
                            #[trigger] eval_str(
                                *p,
                                acc@,
                                state_env(*old(module), *old(f), old(env)@, data),
                                data,
                            ),
                            *module,
                            *f,
                            env@,
                            data,
                        ) by {
                        lemma_exec_snoc(oldi, Inst::SymbolAddr(d), data);
                        lemma_state_len(oldi, oldi.len(), data);
                        assert(state_env(*module, *f, env@, data).vars =~= state_env(
                            *old(module),
                            *old(f),
                            old(env)@,
                            data,
                        ).vars);
                        assert(state_env(*module, *f, env@, data) =~= EvalEnv {
                            names: old(env)@,
                            vars: state_env(*old(module), *old(f), old(env)@, data).vars,
                            blobs: crate::ir::blobs_view(m0).push(acc@),
                        });
                    }
                }
            }
            Ok(Some(v))
        },
        StrPart::Literal(s, rest) => {
            let mut acc2 = acc;
            let ghost accv = acc2@;
            acc2.append(s.as_str());
            proof {
                assert(acc2@ == accv + s@);
            }
            let ghost acc2v = acc2@;
            let rr = compile_str_parts(module, f, &**rest, acc2, env);
            proof {
                assert(translated_str(
                    rr,
                    *p,
                    accv,
                    *old(module),
                    *old(f),
                    old(env)@,
                    *module,
                    *f,
                    env@,
                )) by {
                    assert forall|data: Seq<u64>|
                        corresponds(
                            rr,
                            #[trigger] eval_str(
                                *p,
                                accv,
                                state_env(*old(module), *old(f), old(env)@, data),
                                data,
                            ),
                            *module,
                            *f,
                            env@,
                            data,
                        ) by {
                        assert(corresponds(
                            rr,
                            eval_str(
                                **rest,
                                acc2v,
                                state_env(*old(module), *old(f), old(env)@, data),
                                data,
                            ),
                            *module,
                            *f,
                            env@,
                            data,
                        ));
                    }
                }
            }
            rr
        },
        StrPart::Interpolation(e, _rest) => {
            let ri = compile_expression(module, f, &**e, env);
            proof {
                assert(translated_str(
                    ri,
                    *p,
                    acc@,
                    *old(module),
                    *old(f),
                    old(env)@,
                    *module,
                    *f,
                    env@,
                )) by {
                    assert forall|data: Seq<u64>|
                        corresponds(
                            ri,
                            #[trigger] eval_str(
                                *p,
                                acc@,
                                state_env(*old(module), *old(f), old(env)@, data),
                                data,
                            ),
                            *module,
                            *f,
                            env@,
                            data,
                        ) by {
                        assert(corresponds(
                            ri,
                            eval_expr(
                                **e,
                                state_env(*old(module), *old(f), old(env)@, data),
                                data,
                            ),
                            *module,
                            *f,
                            env@,
                            data,
                        ));
                    }
                }
            }
            ri
        },
    }
}

} // verus!
