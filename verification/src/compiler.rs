//! The compilation session: the module under construction and the binding
//! environment, both living for the whole session and shared across every
//! function built in it.

use vstd::prelude::*;

use crate::ast::{Error, Expr};
use crate::env::{distinct_names, Env};
use crate::ir::{blobs_view, wf_finished, wf_module, IrFunction, IrModule};
use crate::sem::{eval_expr, state_env, val_at, EvalEnv, EvalStep};
use crate::translate::{compile_expression, corresponds};

verus! {

/// One compilation session.
pub struct Compiler {
    pub module: IrModule,
    pub env: Env,
}

/// The evaluation state a fresh function starts from in this session: the
/// declared names, no stored slots, the data objects emitted so far.
pub open spec fn session_env(c: Compiler) -> EvalEnv {
    EvalEnv { names: c.env@, vars: Map::empty(), blobs: blobs_view(c.module) }
}

impl Compiler {
    /// The session invariant: distinct names, and every finished function
    /// well-formed against the session's slots and data objects.
    pub open spec fn wf(&self) -> bool {
        distinct_names(self.env@) && wf_module(self.module, self.env@.len() as int)
    }

    /// A fresh session: nothing declared, nothing emitted.
    pub fn new() -> (c: Compiler)
        ensures
            c.wf(),
            c.env@.len() == 0,
            c.module.funcs@.len() == 0,
            c.module.data@.len() == 0,
    {
        Compiler { module: IrModule::new(), env: Env::new() }
    }

    /// Build the top-level function for `expr`: translate it into a fresh
    /// function whose return value is the expression's value. Fails with
    /// `NoReturnValue` when the expression produces no value, and with the
    /// evaluator's error when the translation fails; the returned function
    /// computes, for every assignment of data object addresses, exactly the
    /// value the evaluator gives the expression.
    pub fn compile(&mut self, expr: &Expr) -> (r: Result<IrFunction, Error>)
        requires
            old(self).wf(),
        ensures
            final(self).wf(),
            match r {
                Ok(mainf) => {
                    &&& wf_finished(
                        mainf,
                        final(self).env@.len() as int,
                        final(self).module.data@.len() as int,
                    )
                    &&& forall|data: Seq<u64>|
                        (#[trigger] eval_expr(*expr, session_env(*old(self)), data))
                            matches EvalStep::Val(x, _) && val_at(
                            mainf.insts@,
                            mainf.ret as int,
                            data,
                        ) == x
                },
                Err(e) => forall|data: Seq<u64>|
                    {
                        let step = #[trigger] eval_expr(*expr, session_env(*old(self)), data);
                        (step matches EvalStep::Fail(e2) && e2 == e) || (step is NoVal && e
                            == Error::NoReturnValue)
                    },
            },
    {
        let mut mainf = IrFunction::new();
        let ghost f0 = mainf;
        let rr = compile_expression(&mut self.module, &mut mainf, expr, &mut self.env);
        proof {
            assert forall|data: Seq<u64>|
                state_env(old(self).module, f0, old(self).env@, data) =~= session_env(
                    *old(self),
                ) by {}
        }
        match rr {
            Ok(Some(v)) => {
                proof {
                    let data0 = Seq::<u64>::empty();
                    assert(corresponds(
                        rr,
                        eval_expr(*expr, state_env(old(self).module, f0, old(self).env@, data0), data0),
                        self.module,
                        mainf,
                        self.env@,
                        data0,
                    ));
                    assert(v < mainf.insts@.len());
                }
                let ghost fpre = mainf;
                mainf.ret = v;
                proof {
                    assert forall|data: Seq<u64>|
                        (#[trigger] eval_expr(*expr, session_env(*old(self)), data))
                            matches EvalStep::Val(x, _) && val_at(
                            mainf.insts@,
                            mainf.ret as int,
                            data,
                        ) == x by {
                        let step = eval_expr(
                            *expr,
                            state_env(old(self).module, f0, old(self).env@, data),
                            data,
                        );
                        assert(corresponds(rr, step, self.module, fpre, self.env@, data));
                        assert(mainf.insts@ == fpre.insts@);
                    }
                }
                Ok(mainf)
            },
            Ok(None) => {
                proof {
                    assert forall|data: Seq<u64>|
                        {
                            let step = #[trigger] eval_expr(*expr, session_env(*old(self)), data);
                            (step matches EvalStep::Fail(e2) && e2 == Error::NoReturnValue) || (
                            step is NoVal && Error::NoReturnValue == Error::NoReturnValue)
                        } by {
                        let step = eval_expr(
                            *expr,
                            state_env(old(self).module, f0, old(self).env@, data),
                            data,
                        );
                        assert(corresponds(rr, step, self.module, mainf, self.env@, data));
                    }
                }
                Err(Error::NoReturnValue)
            },
            Err(e) => {
                proof {
                    assert forall|data: Seq<u64>|
                        {
                            let step = #[trigger] eval_expr(*expr, session_env(*old(self)), data);
                            (step matches EvalStep::Fail(e2) && e2 == e) || (step is NoVal && e
                                == Error::NoReturnValue)
                        } by {
                        let step = eval_expr(
                            *expr,
                            state_env(old(self).module, f0, old(self).env@, data),
                            data,
                        );
                        assert(corresponds(rr, step, self.module, mainf, self.env@, data));
                    }
                }
                Err(e)
            },
        }
    }
}

} // verus!
