//! The intermediate representation the translator builds.
//!
//! A function is a single basic block: one straight-line list of typed
//! instructions. Each instruction produces one 64-bit value, named by its
//! index in the list. `DefVar` stores a value into a binding slot; `UseVar`
//! reads the slot's current value. `SymbolAddr` materializes the address of
//! a constant data object of the module. The design never generates
//! branches, loops, or further blocks.

use vstd::prelude::*;

use crate::ast::BinOpKind;

verus! {

/// One instruction. Operands name earlier instructions of the same function
/// by index; values are never shared across function boundaries.
#[derive(Clone, Copy, PartialEq, Eq, Structural, Debug)]
pub enum Inst {
    /// Load a 64-bit integer constant (the literal's two's-complement bits).
    Iconst(u64),
    /// Load a 64-bit float constant, given as its bit pattern.
    F64const(u64),
    /// A binary operation over two earlier values.
    Binary(BinOpKind, usize, usize),
    /// Read the current value of a binding slot.
    UseVar(usize),
    /// Store an earlier value into a binding slot. Produces a zero value
    /// that nothing reads.
    DefVar(usize, usize),
    /// The address of the constant data object with the given index.
    SymbolAddr(usize),
}

/// One function under construction or finished: its instruction list and
/// the index of the instruction whose value it returns.
#[derive(Debug)]
pub struct IrFunction {
    pub insts: Vec<Inst>,
    pub ret: usize,
}

impl IrFunction {
    /// A fresh function with no instructions.
    pub fn new() -> (f: IrFunction)
        ensures
            f.insts@ =~= Seq::<Inst>::empty(),
            f.ret == 0,
    {
        IrFunction { insts: Vec::new(), ret: 0 }
    }
}

/// The module under construction: the finished lambda functions, in the
/// order they were finished, and the constant data objects, each the text of
/// one string literal. A data object's index is its symbol; objects are
/// never deduplicated, even for identical content.
pub struct IrModule {
    pub funcs: Vec<IrFunction>,
    pub data: Vec<String>,
}

impl IrModule {
    /// An empty module.
    pub fn new() -> (m: IrModule)
        ensures
            m.funcs@ =~= Seq::<IrFunction>::empty(),
            m.data@ =~= Seq::<String>::empty(),
    {
        IrModule { funcs: Vec::new(), data: Vec::new() }
    }
}

/// The text of each constant data object.
pub open spec fn blobs_view(m: IrModule) -> Seq<Seq<char>> {
    m.data@.map(|i: int, s: String| s@)
}

/// True when slot `s` is stored to somewhere in the first `n` instructions.
pub open spec fn defined_in(insts: Seq<Inst>, n: int, s: int) -> bool {
    exists|j: int|
        0 <= j < n && n <= insts.len() && ((#[trigger] insts[j]) matches Inst::DefVar(s2, _)
            && s2 == s)
}

/// Well-formedness of the instruction at index `idx`: operands name earlier
/// instructions, slots and data objects exist, a slot is read only after a
/// store to it, and the operator kind is a supported one.
pub open spec fn wf_inst(insts: Seq<Inst>, idx: int, nvars: int, ndata: int) -> bool {
    match insts[idx] {
        Inst::Iconst(_) => true,
        Inst::F64const(_) => true,
        Inst::Binary(op, a, b) => a < idx && b < idx && op != BinOpKind::Unsupported,
        Inst::UseVar(s) => s < nvars && defined_in(insts, idx, s as int),
        Inst::DefVar(s, v) => s < nvars && v < idx,
        Inst::SymbolAddr(d) => d < ndata,
    }
}

/// Well-formedness of a whole function against an environment of `nvars`
/// slots and a module of `ndata` data objects.
pub open spec fn wf_func(f: IrFunction, nvars: int, ndata: int) -> bool {
    forall|k: int| 0 <= k < f.insts@.len() ==> wf_inst(f.insts@, k, nvars, ndata)
}

/// A finished function also returns one of its own values.
pub open spec fn wf_finished(f: IrFunction, nvars: int, ndata: int) -> bool {
    wf_func(f, nvars, ndata) && f.ret < f.insts@.len()
}

/// Well-formedness of the whole module.
pub open spec fn wf_module(m: IrModule, nvars: int) -> bool {
    forall|k: int| 0 <= k < m.funcs@.len() ==> wf_finished(#[trigger] m.funcs@[k], nvars, m.data@.len() as int)
}

/// Well-formed instructions stay well-formed when the function is extended
/// and when more slots or data objects come to exist.
pub proof fn lemma_wf_extend(s1: Seq<Inst>, s2: Seq<Inst>, nv1: int, nd1: int, nv2: int, nd2: int)
    requires
        s1.is_prefix_of(s2),
        nv1 <= nv2,
        nd1 <= nd2,
        forall|k: int| 0 <= k < s1.len() ==> wf_inst(s1, k, nv1, nd1),
    ensures
        forall|k: int| 0 <= k < s1.len() ==> wf_inst(s2, k, nv2, nd2),
{
    assert forall|k: int| 0 <= k < s1.len() implies wf_inst(s2, k, nv2, nd2) by {
        assert(wf_inst(s1, k, nv1, nd1));
        assert(s2[k] == s1[k]);
        match s1[k] {
            Inst::UseVar(s) => {
                let j = choose|j: int|
                    0 <= j < k && k <= s1.len() && ((#[trigger] s1[j]) matches Inst::DefVar(s2x, _)
                        && s2x == s as int);
                assert(s2[j] == s1[j]);
                assert(defined_in(s2, k, s as int));
            },
            _ => {},
        }
    }
}

/// A well-formed module stays well-formed when slots or data objects are
/// added.
pub proof fn lemma_wf_module_extend(m1: IrModule, m2: IrModule, nv1: int, nv2: int)
    requires
        wf_module(m1, nv1),
        nv1 <= nv2,
        m1.funcs@ == m2.funcs@,
        m1.data@.is_prefix_of(m2.data@),
    ensures
        wf_module(m2, nv2),
{
    assert forall|k: int| 0 <= k < m2.funcs@.len() implies wf_finished(
        #[trigger] m2.funcs@[k],
        nv2,
        m2.data@.len() as int,
    ) by {
        assert(wf_finished(m1.funcs@[k], nv1, m1.data@.len() as int));
        let f = m2.funcs@[k];
        assert(f.insts@.subrange(0, f.insts@.len() as int) =~= f.insts@);
        lemma_wf_extend(
            f.insts@,
            f.insts@,
            nv1,
            m1.data@.len() as int,
            nv2,
            m2.data@.len() as int,
        );
    }
}

} // verus!
