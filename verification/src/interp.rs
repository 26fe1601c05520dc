//! A reference executor for finished functions: it computes exactly the
//! value the machine-state semantics of `sem` assigns, instruction by
//! instruction. Division by zero yields zero in this model, where native
//! generated code would trap instead.

use vstd::prelude::*;

use crate::ast::BinOpKind;
use crate::ir::{wf_func, wf_inst, IrFunction, Inst};
use crate::sem::{
    apply_op, exec_state, exec_step, lemma_state_dom, lemma_state_len, lemma_vals_index, s64,
    val_at,
};

verus! {

/// Whether the signed reading of `a` is below that of `b`.
fn s64_lt(a: u64, b: u64) -> (r: bool)
    ensures
        r == (s64(a) < s64(b)),
{
    let an = a >= 0x8000_0000_0000_0000;
    let bn = b >= 0x8000_0000_0000_0000;
    if an != bn {
        an
    } else {
        a < b
    }
}

/// The value a binary instruction computes, as `apply_op` defines it.
fn eval_binary(op: BinOpKind, a: u64, b: u64) -> (r: u64)
    ensures
        r == apply_op(op, a, b),
{
    match op {
        BinOpKind::Add => a.wrapping_add(b),
        BinOpKind::Sub => a.wrapping_sub(b),
        BinOpKind::Mul => a.wrapping_mul(b),
        BinOpKind::Div => if b == 0 {
            0
        } else {
            a / b
        },
        BinOpKind::Less => if s64_lt(a, b) {
            1
        } else {
            0
        },
        BinOpKind::LessOrEq => if s64_lt(b, a) {
            0
        } else {
            1
        },
        BinOpKind::More => if s64_lt(b, a) {
            1
        } else {
            0
        },
        BinOpKind::MoreOrEq => if s64_lt(a, b) {
            0
        } else {
            1
        },
        BinOpKind::Equal => if a == b {
            1
        } else {
            0
        },
        BinOpKind::NotEqual => if a != b {
            1
        } else {
            0
        },
        BinOpKind::And => a & b,
        BinOpKind::Or => a | b,
        BinOpKind::Unsupported => 0,
    }
}

/// Run a finished function against the given data object addresses and
/// return the value of its return instruction — exactly `val_at` of the
/// semantics.
pub fn run_function(f: &IrFunction, nvars: usize, data: &Vec<u64>) -> (r: u64)
    requires
        wf_func(*f, nvars as int, data@.len() as int),
        f.ret < f.insts@.len(),
    ensures
        r == val_at(f.insts@, f.ret as int, data@),
{
    let n = f.insts.len();
    let mut vals: Vec<u64> = Vec::new();
    let mut vars: Vec<Option<u64>> = Vec::new();
    let mut k: usize = 0;
    while k < nvars
        invariant
            vars@.len() == k,
            k <= nvars,
            forall|s: int| 0 <= s < k ==> vars@[s] is None,
        decreases nvars - k,
    {
        vars.push(None);
        k = k + 1;
    }
    proof {
        assert(exec_state(f.insts@, 0, data@).vars == Map::<int, u64>::empty());
        assert(exec_state(f.insts@, 0, data@).vars.dom() =~= Set::<int>::empty());
        assert(exec_state(f.insts@, 0, data@).vals == Seq::<u64>::empty());
    }
    for i in 0..n
        invariant
            n == f.insts@.len(),
            wf_func(*f, nvars as int, data@.len() as int),
            vars@.len() == nvars,
            vals@ == exec_state(f.insts@, i as nat, data@).vals,
            forall|s: int|
                0 <= s < nvars ==> #[trigger] vars@[s] == (if exec_state(
                    f.insts@,
                    i as nat,
                    data@,
                ).vars.dom().contains(s) {
                    Some(exec_state(f.insts@, i as nat, data@).vars[s])
                } else {
                    None::<u64>
                }),
    {
        proof {
            lemma_state_len(f.insts@, i as nat, data@);
            assert(wf_inst(f.insts@, i as int, nvars as int, data@.len() as int));
        }
        let ghost st = exec_state(f.insts@, i as nat, data@);
        let x: u64 = match f.insts[i] {
            Inst::Iconst(c) => c,
            Inst::F64const(bits) => bits,
            Inst::Binary(op, a, b) => {
                proof {
                    lemma_vals_index(f.insts@, i as nat, a as int, data@);
                    lemma_vals_index(f.insts@, i as nat, b as int, data@);
                }
                eval_binary(op, vals[a], vals[b])
            },
            Inst::UseVar(s) => {
                proof {
                    lemma_state_dom(f.insts@, i as nat, data@);
                }
                match vars[s] {
                    Some(x) => x,
                    None => 0,
                }
            },
            Inst::DefVar(s, v) => {
                let stored = vals[v];
                vars.set(s, Some(stored));
                0
            },
            Inst::SymbolAddr(d) => {
                if d < data.len() {
                    data[d]
                } else {
                    0
                }
            },
        };
        vals.push(x);
        proof {
            let st2 = exec_state(f.insts@, (i + 1) as nat, data@);
            assert(st2 == exec_step(st, f.insts@[i as int], data@));
            assert(vals@ =~= st2.vals);
        }
    }
    proof {
        lemma_state_len(f.insts@, n as nat, data@);
        lemma_vals_index(f.insts@, n as nat, f.ret as int, data@);
    }
    vals[f.ret]
}

} // verus!
