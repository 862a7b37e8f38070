//! Which globals only ever hold integers, and which array registers only ever
//! hold booleans.
use vstd::prelude::*;
use std::collections::HashSet;
use crate::model::{MethodKind, OpCode, TraceOp, Value, ValueKind};

verus! {

broadcast use vstd::std_specs::hash::group_hash_axioms;

/// The constant at `idx` exists and is an integer.
pub open spec fn const_is_int(constants: Seq<Value>, idx: u32) -> bool {
    (idx as int) < constants.len() && constants[idx as int].kind == ValueKind::Int
}

/// The register whose integer status an instruction clears, for the
/// instructions that produce a value of some other kind.
pub open spec fn int_reset_dst(op: OpCode) -> Option<u8> {
    match op {
        OpCode::Equal { dst, .. }
        | OpCode::NotEqual { dst, .. }
        | OpCode::Greater { dst, .. }
        | OpCode::Less { dst, .. }
        | OpCode::GreaterEqual { dst, .. }
        | OpCode::LessEqual { dst, .. }
        | OpCode::And { dst, .. }
        | OpCode::Or { dst, .. }
        | OpCode::Not { dst, .. }
        | OpCode::Has { dst, .. }
        | OpCode::Input { dst, .. }
        | OpCode::TerminalExit { dst }
        | OpCode::TerminalRun { dst, .. }
        | OpCode::TerminalClear { dst }
        | OpCode::TerminalRaw { dst }
        | OpCode::TerminalNormal { dst }
        | OpCode::TerminalCursor { dst, .. }
        | OpCode::TerminalMove { dst, .. }
        | OpCode::TerminalWrite { dst, .. }
        | OpCode::InputKey { dst }
        | OpCode::InputKeyWait { dst }
        | OpCode::InputReady { dst }
        | OpCode::Call { dst, .. }
        | OpCode::SetName { src: dst }
        | OpCode::ArrayInit { dst, .. }
        | OpCode::BoolArrayInit { dst }
        | OpCode::SetInit { dst, .. }
        | OpCode::MapInit { dst, .. }
        | OpCode::TableInit { dst, .. }
        | OpCode::JsonParse { dst, .. }
        | OpCode::DateNow { dst }
        | OpCode::MethodCall { dst, .. }
        | OpCode::MethodCallCustom { dst, .. }
        | OpCode::SetUnion { dst, .. }
        | OpCode::SetIntersection { dst, .. }
        | OpCode::SetDifference { dst, .. }
        | OpCode::SetSymDifference { dst, .. }
        | OpCode::RandomChoice { dst, .. }
        | OpCode::IntConcat { dst, .. }
        | OpCode::SetRange { dst, .. }
        | OpCode::RandomFloat { dst, .. }
        | OpCode::StoreWrite { dst, .. }
        | OpCode::StoreRead { dst, .. }
        | OpCode::StoreAppend { dst, .. }
        | OpCode::StoreExists { dst, .. }
        | OpCode::StoreDelete { dst, .. }
        | OpCode::StoreList { dst, .. }
        | OpCode::StoreIsDir { dst, .. }
        | OpCode::StoreSize { dst, .. }
        | OpCode::StoreMkdir { dst, .. }
        | OpCode::StoreGlob { dst, .. }
        | OpCode::StoreZip { dst, .. }
        | OpCode::StoreUnzip { dst, .. }
        | OpCode::JsonBindLocal { dst, .. }
        | OpCode::JsonInjectLocal { table_reg: dst, .. }
        | OpCode::FiberCreate { dst, .. }
        | OpCode::YieldWithTarget { dst, .. }
        | OpCode::HttpCall { dst, .. }
        | OpCode::HttpRequest { dst, .. }
        | OpCode::HttpRespond { dst, .. }
        | OpCode::EnvGet { dst, .. }
        | OpCode::EnvArgs { dst }
        | OpCode::CryptoHash { dst, .. }
        | OpCode::CryptoVerify { dst, .. }
        | OpCode::CryptoToken { dst, .. }
        | OpCode::CastFloat { dst, .. }
        | OpCode::CastString { dst, .. }
        | OpCode::CastBool { dst, .. }
        | OpCode::Typeof { dst, .. }
        | OpCode::GetIndex { dst, .. }
        | OpCode::GetMember { dst, .. }
        | OpCode::RowGet { dst, .. }
        | OpCode::TableCloneSkeleton { dst, .. } => Some(dst),
        _ => None,
    }
}

fn int_reset_dst_exec(op: &OpCode) -> (d: Option<u8>)
    ensures
        d == int_reset_dst(*op),
{
    match *op {
        OpCode::Equal { dst, .. }
        | OpCode::NotEqual { dst, .. }
        | OpCode::Greater { dst, .. }
        | OpCode::Less { dst, .. }
        | OpCode::GreaterEqual { dst, .. }
        | OpCode::LessEqual { dst, .. }
        | OpCode::And { dst, .. }
        | OpCode::Or { dst, .. }
        | OpCode::Not { dst, .. }
        | OpCode::Has { dst, .. }
        | OpCode::Input { dst, .. }
        | OpCode::TerminalExit { dst }
        | OpCode::TerminalRun { dst, .. }
        | OpCode::TerminalClear { dst }
        | OpCode::TerminalRaw { dst }
        | OpCode::TerminalNormal { dst }
        | OpCode::TerminalCursor { dst, .. }
        | OpCode::TerminalMove { dst, .. }
        | OpCode::TerminalWrite { dst, .. }
        | OpCode::InputKey { dst }
        | OpCode::InputKeyWait { dst }
        | OpCode::InputReady { dst }
        | OpCode::Call { dst, .. }
        | OpCode::SetName { src: dst }
        | OpCode::ArrayInit { dst, .. }
        | OpCode::BoolArrayInit { dst }
        | OpCode::SetInit { dst, .. }
        | OpCode::MapInit { dst, .. }
        | OpCode::TableInit { dst, .. }
        | OpCode::JsonParse { dst, .. }
        | OpCode::DateNow { dst }
        | OpCode::MethodCall { dst, .. }
        | OpCode::MethodCallCustom { dst, .. }
        | OpCode::SetUnion { dst, .. }
        | OpCode::SetIntersection { dst, .. }
        | OpCode::SetDifference { dst, .. }
        | OpCode::SetSymDifference { dst, .. }
        | OpCode::RandomChoice { dst, .. }
        | OpCode::IntConcat { dst, .. }
        | OpCode::SetRange { dst, .. }
        | OpCode::RandomFloat { dst, .. }
        | OpCode::StoreWrite { dst, .. }
        | OpCode::StoreRead { dst, .. }
        | OpCode::StoreAppend { dst, .. }
        | OpCode::StoreExists { dst, .. }
        | OpCode::StoreDelete { dst, .. }
        | OpCode::StoreList { dst, .. }
        | OpCode::StoreIsDir { dst, .. }
        | OpCode::StoreSize { dst, .. }
        | OpCode::StoreMkdir { dst, .. }
        | OpCode::StoreGlob { dst, .. }
        | OpCode::StoreZip { dst, .. }
        | OpCode::StoreUnzip { dst, .. }
        | OpCode::JsonBindLocal { dst, .. }
        | OpCode::JsonInjectLocal { table_reg: dst, .. }
        | OpCode::FiberCreate { dst, .. }
        | OpCode::YieldWithTarget { dst, .. }
        | OpCode::HttpCall { dst, .. }
        | OpCode::HttpRequest { dst, .. }
        | OpCode::HttpRespond { dst, .. }
        | OpCode::EnvGet { dst, .. }
        | OpCode::EnvArgs { dst }
        | OpCode::CryptoHash { dst, .. }
        | OpCode::CryptoVerify { dst, .. }
        | OpCode::CryptoToken { dst, .. }
        | OpCode::CastFloat { dst, .. }
        | OpCode::CastString { dst, .. }
        | OpCode::CastBool { dst, .. }
        | OpCode::Typeof { dst, .. }
        | OpCode::GetIndex { dst, .. }
        | OpCode::GetMember { dst, .. }
        | OpCode::RowGet { dst, .. }
        | OpCode::TableCloneSkeleton { dst, .. } => Some(dst),
        _ => None,
    }
}

/// The state of the integer scan: which registers hold integers, which globals
/// are integers so far, and which globals have been seen holding something else.
pub type IntScan = (Seq<bool>, Set<u32>, Set<u32>);

/// Records a store of a value to global `idx`; `is_int` says whether it is an integer.
pub open spec fn int_store(st: IntScan, idx: u32, is_int: bool) -> IntScan {
    if is_int {
        if !st.2.contains(idx) {
            (st.0, st.1.insert(idx), st.2)
        } else {
            st
        }
    } else {
        (st.0, st.1.remove(idx), st.2.insert(idx))
    }
}

/// One instruction of the integer scan over bytecode.
pub open spec fn int_step(st: IntScan, op: OpCode, constants: Seq<Value>) -> IntScan {
    let regs = st.0;
    match op {
        OpCode::LoadConst { dst, idx } => (
            regs.update(dst as int, const_is_int(constants, idx)),
            st.1,
            st.2,
        ),
        OpCode::Move { dst, src } => (regs.update(dst as int, regs[src as int]), st.1, st.2),
        OpCode::Add { dst, src1, src2 }
        | OpCode::Sub { dst, src1, src2 }
        | OpCode::Mul { dst, src1, src2 }
        | OpCode::Div { dst, src1, src2 }
        | OpCode::Mod { dst, src1, src2 } => (
            regs.update(dst as int, regs[src1 as int] && regs[src2 as int]),
            st.1,
            st.2,
        ),
        OpCode::CastInt { dst, .. } => (regs.update(dst as int, true), st.1, st.2),
        OpCode::Neg { dst, src } => (regs.update(dst as int, regs[src as int]), st.1, st.2),
        OpCode::RandomInt { dst, .. } => (regs.update(dst as int, true), st.1, st.2),
        OpCode::IncLocal { reg } => (regs.update(reg as int, true), st.1, st.2),
        OpCode::SetVar { idx, src } => int_store(st, idx, regs[src as int]),
        OpCode::GetVar { dst, idx } => (regs.update(dst as int, st.1.contains(idx)), st.1, st.2),
        OpCode::IncVar { idx } => int_store(st, idx, true),
        _ => match int_reset_dst(op) {
            Some(d) => (regs.update(d as int, false), st.1, st.2),
            None => st,
        },
    }
}

/// The integer scan after `ops`, from no integer registers and no known globals.
pub open spec fn int_scan(ops: Seq<OpCode>, constants: Seq<Value>) -> IntScan
    decreases ops.len(),
{
    if ops.len() == 0 {
        (Seq::new(256, |i: int| false), Set::empty(), Set::empty())
    } else {
        int_step(int_scan(ops.drop_last(), constants), ops.last(), constants)
    }
}

/// One instruction of the integer scan over a trace.
pub open spec fn trace_int_step(st: IntScan, op: TraceOp) -> IntScan {
    let regs = st.0;
    match op {
        TraceOp::LoadConst { dst, val } => (
            regs.update(dst as int, val.kind == ValueKind::Int),
            st.1,
            st.2,
        ),
        TraceOp::Move { dst, src } => (regs.update(dst as int, regs[src as int]), st.1, st.2),
        TraceOp::AddInt { dst, .. }
        | TraceOp::SubInt { dst, .. }
        | TraceOp::MulInt { dst, .. }
        | TraceOp::ModInt { dst, .. }
        | TraceOp::DivInt { dst, .. }
        | TraceOp::PowInt { dst, .. }
        | TraceOp::IntConcat { dst, .. }
        | TraceOp::NegInt { dst, .. } => (regs.update(dst as int, true), st.1, st.2),
        TraceOp::IncLocal { reg } => (regs.update(reg as int, true), st.1, st.2),
        TraceOp::SetVar { idx, src } => int_store(st, idx, regs[src as int]),
        TraceOp::GetVar { dst, idx } => (regs.update(dst as int, st.1.contains(idx)), st.1, st.2),
        TraceOp::IncVar { g_idx } => int_store(st, g_idx, true),
        _ => st,
    }
}

/// The integer scan after a trace.
pub open spec fn trace_int_scan(ops: Seq<TraceOp>) -> IntScan
    decreases ops.len(),
{
    if ops.len() == 0 {
        (Seq::new(256, |i: int| false), Set::empty(), Set::empty())
    } else {
        trace_int_step(trace_int_scan(ops.drop_last()), ops.last())
    }
}

/// The exec state of an integer scan matches `st`.
pub open spec fn int_state_matches(
    regs: Seq<bool>,
    ints: Set<u32>,
    non_ints: Set<u32>,
    st: IntScan,
) -> bool {
    &&& regs.len() == 256
    &&& st.0.len() == 256
    &&& regs == st.0
    &&& ints == st.1
    &&& non_ints == st.2
}

fn store_global(ints: &mut HashSet<u32>, non_ints: &mut HashSet<u32>, idx: u32, is_int: bool)
    ensures
        (final(ints)@, final(non_ints)@) == ({
            let st = int_store((Seq::empty(), old(ints)@, old(non_ints)@), idx, is_int);
            (st.1, st.2)
        }),
{
    if is_int {
        if !non_ints.contains(&idx) {
            ints.insert(idx);
        }
    } else {
        ints.remove(&idx);
        non_ints.insert(idx);
    }
}

fn constant_is_int(constants: &[Value], idx: u32) -> (b: bool)
    ensures
        b == const_is_int(constants@, idx),
{
    if (idx as usize) < constants.len() {
        constants[idx as usize].is_int()
    } else {
        false
    }
}

/// The globals that every store in `bytecode` gives an integer: a global is
/// dropped for good once a store gives it anything else.
pub fn analyze_global_int_regs(bytecode: &[OpCode], constants: &[Value]) -> (global_ints: HashSet<u32>)
    ensures
        global_ints@ == int_scan(bytecode@, constants@).1,
{
    let mut regs = [false; 256];
    let mut ints: HashSet<u32> = HashSet::new();
    let mut non_ints: HashSet<u32> = HashSet::new();
    assert(regs@ =~= Seq::new(256, |i: int| false));
    let mut k: usize = 0;
    while k < bytecode.len()
        invariant
            k <= bytecode@.len(),
            int_state_matches(regs@, ints@, non_ints@, int_scan(bytecode@.take(k as int), constants@)),
        decreases bytecode@.len() - k,
    {
        assert(bytecode@.take(k as int + 1).drop_last() =~= bytecode@.take(k as int));
        let op = bytecode[k];
        match op {
            OpCode::LoadConst { dst, idx } => {
                regs[dst as usize] = constant_is_int(constants, idx);
            },
            OpCode::Move { dst, src } => {
                regs[dst as usize] = regs[src as usize];
            },
            OpCode::Add { dst, src1, src2 }
            | OpCode::Sub { dst, src1, src2 }
            | OpCode::Mul { dst, src1, src2 }
            | OpCode::Div { dst, src1, src2 }
            | OpCode::Mod { dst, src1, src2 } => {
                regs[dst as usize] = regs[src1 as usize] && regs[src2 as usize];
            },
            OpCode::CastInt { dst, .. } => {
                regs[dst as usize] = true;
            },
            OpCode::Neg { dst, src } => {
                regs[dst as usize] = regs[src as usize];
            },
            OpCode::RandomInt { dst, .. } => {
                regs[dst as usize] = true;
            },
            OpCode::IncLocal { reg } => {
                regs[reg as usize] = true;
            },
            OpCode::SetVar { idx, src } => {
                store_global(&mut ints, &mut non_ints, idx, regs[src as usize]);
            },
            OpCode::GetVar { dst, idx } => {
                regs[dst as usize] = ints.contains(&idx);
            },
            OpCode::IncVar { idx } => {
                store_global(&mut ints, &mut non_ints, idx, true);
            },
            _ => {
                if let Some(d) = int_reset_dst_exec(&op) {
                    regs[d as usize] = false;
                }
            },
        }
        k = k + 1;
    }
    assert(bytecode@.take(k as int) =~= bytecode@);
    ints
}

/// The globals that every store in a trace gives an integer: the globals that
/// the trace uses as integers only.
pub fn analyze_trace_global_ints(ops: &[TraceOp]) -> (global_ints: HashSet<u32>)
    ensures
        global_ints@ == trace_int_scan(ops@).1,
{
    let mut regs = [false; 256];
    let mut ints: HashSet<u32> = HashSet::new();
    let mut non_ints: HashSet<u32> = HashSet::new();
    assert(regs@ =~= Seq::new(256, |i: int| false));
    let mut k: usize = 0;
    while k < ops.len()
        invariant
            k <= ops@.len(),
            int_state_matches(regs@, ints@, non_ints@, trace_int_scan(ops@.take(k as int))),
        decreases ops@.len() - k,
    {
        assert(ops@.take(k as int + 1).drop_last() =~= ops@.take(k as int));
        match ops[k] {
            TraceOp::LoadConst { dst, val } => {
                regs[dst as usize] = val.is_int();
            },
            TraceOp::Move { dst, src } => {
                regs[dst as usize] = regs[src as usize];
            },
            TraceOp::AddInt { dst, .. }
            | TraceOp::SubInt { dst, .. }
            | TraceOp::MulInt { dst, .. }
            | TraceOp::ModInt { dst, .. }
            | TraceOp::DivInt { dst, .. }
            | TraceOp::PowInt { dst, .. }
            | TraceOp::IntConcat { dst, .. }
            | TraceOp::NegInt { dst, .. } => {
                regs[dst as usize] = true;
            },
            TraceOp::IncLocal { reg } => {
                regs[reg as usize] = true;
            },
            TraceOp::SetVar { idx, src } => {
                store_global(&mut ints, &mut non_ints, idx, regs[src as usize]);
            },
            TraceOp::GetVar { dst, idx } => {
                regs[dst as usize] = ints.contains(&idx);
            },
            TraceOp::IncVar { g_idx } => {
                store_global(&mut ints, &mut non_ints, g_idx, true);
            },
            _ => {},
        }
        k = k + 1;
    }
    assert(ops@.take(k as int) =~= ops@);
    ints
}

} // verus!

verus! {

/// Instruction `op` stores an integer to global `idx` under register state `regs`.
pub open spec fn stores_int(op: OpCode, regs: Seq<bool>, idx: u32) -> bool {
    match op {
        OpCode::SetVar { idx: i, src } => i == idx && regs[src as int],
        OpCode::IncVar { idx: i } => i == idx,
        _ => false,
    }
}

/// Trace instruction `op` stores an integer to global `idx` under register state `regs`.
pub open spec fn trace_stores_int(op: TraceOp, regs: Seq<bool>, idx: u32) -> bool {
    match op {
        TraceOp::SetVar { idx: i, src } => i == idx && regs[src as int],
        TraceOp::IncVar { g_idx } => g_idx == idx,
        _ => false,
    }
}

proof fn lemma_int_scan_shape(ops: Seq<OpCode>, constants: Seq<Value>)
    ensures
        int_scan(ops, constants).0.len() == 256,
        int_scan(ops, constants).1.disjoint(int_scan(ops, constants).2),
        forall|k: int|
            0 <= k <= ops.len() ==> #[trigger] int_scan(ops.take(k), constants).2.subset_of(
                int_scan(ops, constants).2,
            ),
        forall|g: u32|
            #[trigger] int_scan(ops, constants).1.contains(g) ==> exists|k: int|
                0 <= k < ops.len() && #[trigger] stores_int(
                    ops[k],
                    int_scan(ops.take(k), constants).0,
                    g,
                ),
    decreases ops.len(),
{
    if ops.len() > 0 {
        let prev = ops.drop_last();
        lemma_int_scan_shape(prev, constants);
        let n = ops.len() - 1;
        assert(ops.take(n) =~= prev);
        assert forall|k: int| 0 <= k <= ops.len() implies #[trigger] int_scan(ops.take(k), constants).2.subset_of(
            int_scan(ops, constants).2,
        ) by {
            if k < ops.len() {
                assert(ops.take(k) =~= prev.take(k));
                assert(int_scan(prev.take(k), constants).2.subset_of(int_scan(prev, constants).2));
            } else {
                assert(ops.take(k) =~= ops);
            }
        }
        assert forall|g: u32| #[trigger] int_scan(ops, constants).1.contains(g) implies exists|k: int|
            0 <= k < ops.len() && #[trigger] stores_int(ops[k], int_scan(ops.take(k), constants).0, g) by {
            if int_scan(prev, constants).1.contains(g) {
                let k = choose|k: int|
                    0 <= k < prev.len() && #[trigger] stores_int(
                        prev[k],
                        int_scan(prev.take(k), constants).0,
                        g,
                    );
                assert(ops.take(k) =~= prev.take(k));
                assert(stores_int(ops[k], int_scan(ops.take(k), constants).0, g));
            } else {
                assert(stores_int(ops[n], int_scan(ops.take(n), constants).0, g));
            }
        }
    }
}

/// Law: a global that any store of `bytecode` gives a value other than an
/// integer is not among the integer globals that `analyze_global_int_regs` reports.
pub proof fn law_global_ints_exclude_non_int_stores(
    bytecode: Seq<OpCode>,
    constants: Seq<Value>,
    k: int,
    idx: u32,
    src: u8,
)
    requires
        0 <= k < bytecode.len(),
        bytecode[k] == (OpCode::SetVar { idx, src }),
        !int_scan(bytecode.take(k), constants).0[src as int],
    ensures
        !int_scan(bytecode, constants).1.contains(idx),
{
    lemma_int_scan_shape(bytecode, constants);
    assert(bytecode.take(k + 1).drop_last() =~= bytecode.take(k));
    assert(int_scan(bytecode.take(k + 1), constants).2.contains(idx));
    assert(int_scan(bytecode.take(k + 1), constants).2.subset_of(int_scan(bytecode, constants).2));
}

/// Law: every global that `analyze_global_int_regs` reports is given an
/// integer by some store (a `SetVar` from an integer register, or an `IncVar`).
pub proof fn law_global_ints_are_stored_ints(bytecode: Seq<OpCode>, constants: Seq<Value>, idx: u32)
    requires
        int_scan(bytecode, constants).1.contains(idx),
    ensures
        exists|k: int|
            0 <= k < bytecode.len() && #[trigger] stores_int(
                bytecode[k],
                int_scan(bytecode.take(k), constants).0,
                idx,
            ),
{
    lemma_int_scan_shape(bytecode, constants);
}

proof fn lemma_trace_int_scan_shape(ops: Seq<TraceOp>)
    ensures
        trace_int_scan(ops).0.len() == 256,
        trace_int_scan(ops).1.disjoint(trace_int_scan(ops).2),
        forall|k: int|
            0 <= k <= ops.len() ==> #[trigger] trace_int_scan(ops.take(k)).2.subset_of(
                trace_int_scan(ops).2,
            ),
        forall|g: u32|
            #[trigger] trace_int_scan(ops).1.contains(g) ==> exists|k: int|
                0 <= k < ops.len() && #[trigger] trace_stores_int(
                    ops[k],
                    trace_int_scan(ops.take(k)).0,
                    g,
                ),
    decreases ops.len(),
{
    if ops.len() > 0 {
        let prev = ops.drop_last();
        lemma_trace_int_scan_shape(prev);
        let n = ops.len() - 1;
        assert(ops.take(n) =~= prev);
        assert forall|k: int| 0 <= k <= ops.len() implies #[trigger] trace_int_scan(ops.take(k)).2.subset_of(
            trace_int_scan(ops).2,
        ) by {
            if k < ops.len() {
                assert(ops.take(k) =~= prev.take(k));
                assert(trace_int_scan(prev.take(k)).2.subset_of(trace_int_scan(prev).2));
            } else {
                assert(ops.take(k) =~= ops);
            }
        }
        assert forall|g: u32| #[trigger] trace_int_scan(ops).1.contains(g) implies exists|k: int|
            0 <= k < ops.len() && #[trigger] trace_stores_int(ops[k], trace_int_scan(ops.take(k)).0, g) by {
            if trace_int_scan(prev).1.contains(g) {
                let k = choose|k: int|
                    0 <= k < prev.len() && #[trigger] trace_stores_int(
                        prev[k],
                        trace_int_scan(prev.take(k)).0,
                        g,
                    );
                assert(ops.take(k) =~= prev.take(k));
                assert(trace_stores_int(ops[k], trace_int_scan(ops.take(k)).0, g));
            } else {
                assert(trace_stores_int(ops[n], trace_int_scan(ops.take(n)).0, g));
            }
        }
    }
}

/// Law: a global that any store of a trace gives a value other than an integer
/// is not among the integer globals that `analyze_trace_global_ints` reports.
pub proof fn law_trace_global_ints_exclude_non_int_stores(ops: Seq<TraceOp>, k: int, idx: u32, src: u8)
    requires
        0 <= k < ops.len(),
        ops[k] == (TraceOp::SetVar { idx, src }),
        !trace_int_scan(ops.take(k)).0[src as int],
    ensures
        !trace_int_scan(ops).1.contains(idx),
{
    lemma_trace_int_scan_shape(ops);
    assert(ops.take(k + 1).drop_last() =~= ops.take(k));
    assert(trace_int_scan(ops.take(k + 1)).2.contains(idx));
    assert(trace_int_scan(ops.take(k + 1)).2.subset_of(trace_int_scan(ops).2));
}

/// Law: every global that `analyze_trace_global_ints` reports is given an
/// integer by some store of the trace.
pub proof fn law_trace_global_ints_are_stored_ints(ops: Seq<TraceOp>, idx: u32)
    requires
        trace_int_scan(ops).1.contains(idx),
    ensures
        exists|k: int|
            0 <= k < ops.len() && #[trigger] trace_stores_int(ops[k], trace_int_scan(ops.take(k)).0, idx),
{
    lemma_trace_int_scan_shape(ops);
}

} // verus!

verus! {

/// The constant at `idx` exists and is a boolean.
pub open spec fn const_is_bool(constants: Seq<Value>, idx: u32) -> bool {
    (idx as int) < constants.len() && constants[idx as int].kind == ValueKind::Bool
}

/// The state of the boolean-array scan: which registers hold boolean constants,
/// the array each register was last seen holding (by the register that built it),
/// the array each global was last given, the arrays built from booleans only,
/// and the arrays that have been given something else.
pub type BoolScan = (Seq<bool>, Seq<Option<u8>>, Map<u32, u8>, Set<u8>, Set<u8>);

/// The array that register `r` holds: the register that built it, or `r` itself
/// when unknown.
pub open spec fn origin_of(origins: Seq<Option<u8>>, r: u8) -> u8 {
    match origins[r as int] {
        Some(o) => o,
        None => r,
    }
}

/// Every register of the window `base .. base + count` holds a boolean constant.
pub open spec fn window_all_bool(regs: Seq<bool>, base: u8, count: u32) -> bool {
    forall|r: u8| #[trigger] crate::regset::reg_span(base as int, count as int).contains(r) ==> regs[r as int]
}

/// An instruction of the boolean-array scan stays within `u8` register arithmetic.
/// An `ArrayInit` whose window runs past register 255 overflows unless some
/// register of it before the end holds a non-boolean, which stops the check early.
pub open spec fn bool_op_safe(op: OpCode, regs: Seq<bool>) -> bool {
    match op {
        OpCode::ArrayInit { base, count, .. } => !(base >= 1 && count > 256 - base && forall|j: int|
            base <= j < 256 ==> #[trigger] regs[j]),
        OpCode::MethodCall { kind, base, arg_count, .. } => match kind {
            crate::model::MethodKind::Push => !(arg_count >= 1 && base == 255),
            crate::model::MethodKind::SetItem | crate::model::MethodKind::Update => !(arg_count >= 2
                && base >= 254),
            _ => true,
        },
        _ => true,
    }
}

/// One instruction of the boolean-array scan.
pub open spec fn bool_step(st: BoolScan, op: OpCode, constants: Seq<Value>) -> BoolScan {
    let (regs, origins, globals, bools, non_bools) = st;
    match op {
        OpCode::LoadConst { dst, idx } => (
            regs.update(dst as int, const_is_bool(constants, idx)),
            origins,
            globals,
            bools,
            non_bools,
        ),
        OpCode::ArrayInit { dst, base, count } => if window_all_bool(regs, base, count) {
            (regs, origins.update(dst as int, Some(dst)), globals, bools.insert(dst), non_bools)
        } else {
            (regs, origins.update(dst as int, Some(dst)), globals, bools, non_bools.insert(dst))
        },
        OpCode::BoolArrayInit { dst } => (
            regs,
            origins.update(dst as int, Some(dst)),
            globals,
            bools.insert(dst),
            non_bools,
        ),
        OpCode::MethodCall { kind, base, arg_count, .. } => match kind {
            crate::model::MethodKind::Push => if arg_count >= 1 && !regs[base + 1] {
                (regs, origins, globals, bools, non_bools.insert(origin_of(origins, base)))
            } else {
                st
            },
            crate::model::MethodKind::SetItem | crate::model::MethodKind::Update => if arg_count >= 2
                && !regs[base + 2] {
                (regs, origins, globals, bools, non_bools.insert(origin_of(origins, base)))
            } else {
                st
            },
            _ => st,
        },
        OpCode::SetIndex { container, src, .. } => if !regs[src as int] {
            (regs, origins, globals, bools, non_bools.insert(origin_of(origins, container)))
        } else {
            st
        },
        OpCode::Move { dst, src } => (
            regs.update(dst as int, regs[src as int]),
            origins.update(dst as int, origins[src as int]),
            globals,
            bools,
            non_bools,
        ),
        OpCode::GetVar { dst, idx } => (
            regs,
            origins.update(
                dst as int,
                if globals.contains_key(idx) {
                    Some(globals[idx])
                } else {
                    None
                },
            ),
            globals,
            bools,
            non_bools,
        ),
        OpCode::SetVar { idx, src } => (
            regs,
            origins,
            match origins[src as int] {
                Some(o) => globals.insert(idx, o),
                None => globals.remove(idx),
            },
            bools,
            non_bools,
        ),
        _ => st,
    }
}

/// The boolean-array scan after `ops`.
pub open spec fn bool_scan(ops: Seq<OpCode>, constants: Seq<Value>) -> BoolScan
    decreases ops.len(),
{
    if ops.len() == 0 {
        (Seq::new(256, |i: int| false), Seq::new(256, |i: int| None), Map::empty(), Set::empty(), Set::empty())
    } else {
        bool_step(bool_scan(ops.drop_last(), constants), ops.last(), constants)
    }
}

/// No instruction of `ops` overflows its register arithmetic during the scan.
pub open spec fn bool_scan_safe(ops: Seq<OpCode>, constants: Seq<Value>) -> bool {
    forall|k: int| 0 <= k < ops.len() ==> #[trigger] bool_op_safe(ops[k], bool_scan(ops.take(k), constants).0)
}

/// The arrays whose elements are booleans throughout: built from booleans only
/// and never given anything else.
pub open spec fn bool_arrays(ops: Seq<OpCode>, constants: Seq<Value>) -> Set<u8> {
    bool_scan(ops, constants).3.difference(bool_scan(ops, constants).4)
}

fn constant_is_bool(constants: &[Value], idx: u32) -> (b: bool)
    ensures
        b == const_is_bool(constants@, idx),
{
    if (idx as usize) < constants.len() {
        constants[idx as usize].is_bool()
    } else {
        false
    }
}

fn origin_exec(origins: &[Option<u8>; 256], r: u8) -> (o: u8)
    ensures
        o == origin_of(origins@, r),
{
    match origins[r as usize] {
        Some(o) => o,
        None => r,
    }
}

/// Whether every register of the window holds a boolean constant.
fn window_all_bool_exec(regs: &[bool; 256], base: u8, count: u32) -> (all: bool)
    requires
        !(base >= 1 && count > 256 - base && forall|j: int| base <= j < 256 ==> #[trigger] regs@[j]),
    ensures
        all == window_all_bool(regs@, base, count),
{
    let bound: u32 = if count < 256 { count } else { 256 };
    let mut i: u32 = 0;
    while i < bound
        invariant
            i <= bound,
            bound <= count,
            bound <= 256,
            count >= 256 ==> bound == 256,
            !(base >= 1 && count > 256 - base && forall|j: int| base <= j < 256 ==> #[trigger] regs@[j]),
            forall|j: int| 0 <= j < i ==> base + j <= 255 && #[trigger] regs@[base + j],
        decreases bound - i,
    {
        if base as u32 + i > 255 {
            assert forall|j: int| base <= j < 256 implies #[trigger] regs@[j] by {
                assert(regs@[base + (j - base)]);
            }
            assert(false);
        }
        let r: u8 = base + i as u8;
        if !regs[r as usize] {
            assert(crate::regset::span_slot(base as int, i as int) == r as int);
            assert(crate::regset::reg_span(base as int, count as int).contains(r));
            return false;
        }
        i = i + 1;
    }
    assert forall|r: u8| #[trigger] crate::regset::reg_span(base as int, count as int).contains(r)
        implies regs@[r as int] by {
        let j = choose|j: int| 0 <= j < count && r as int == crate::regset::span_slot(base as int, j);
        let jj = j % 256;
        assert(0 <= jj < bound);
        assert(regs@[base + jj]);
        assert(r as int == base + jj);
    }
    true
}

/// The array registers that only ever hold booleans: arrays built from boolean
/// constants (or as boolean arrays) that no push, set, update or index store
/// gives anything but a boolean constant.
pub fn analyze_bool_array_regs(bytecode: &[OpCode], constants: &[Value]) -> (bool_array: HashSet<u8>)
    requires
        bool_scan_safe(bytecode@, constants@),
    ensures
        bool_array@ == bool_arrays(bytecode@, constants@),
{
    let mut regs = [false; 256];
    let mut origins: [Option<u8>; 256] = [None; 256];
    let mut globals: std::collections::HashMap<u32, u8> = std::collections::HashMap::new();
    let mut bools = [false; 256];
    let mut non_bools = [false; 256];
    assert(regs@ =~= Seq::new(256, |i: int| false));
    assert(origins@ =~= Seq::new(256, |i: int| None));
    let mut k: usize = 0;
    while k < bytecode.len()
        invariant
            k <= bytecode@.len(),
            bool_scan_safe(bytecode@, constants@),
            ({
                let st = bool_scan(bytecode@.take(k as int), constants@);
                &&& st.0.len() == 256
                &&& st.1.len() == 256
                &&& regs@ == st.0
                &&& origins@ == st.1
                &&& globals@ == st.2
                &&& crate::regset::flagged(bools@) == st.3
                &&& crate::regset::flagged(non_bools@) == st.4
            }),
        decreases bytecode@.len() - k,
    {
        assert(bytecode@.take(k as int + 1).drop_last() =~= bytecode@.take(k as int));
        assert(bool_op_safe(bytecode@[k as int], bool_scan(bytecode@.take(k as int), constants@).0));
        let ghost old_bools = bools@;
        let ghost old_non = non_bools@;
        match bytecode[k] {
            OpCode::LoadConst { dst, idx } => {
                regs[dst as usize] = constant_is_bool(constants, idx);
            },
            OpCode::ArrayInit { dst, base, count } => {
                origins[dst as usize] = Some(dst);
                if window_all_bool_exec(&regs, base, count) {
                    bools[dst as usize] = true;
                } else {
                    non_bools[dst as usize] = true;
                }
            },
            OpCode::BoolArrayInit { dst } => {
                origins[dst as usize] = Some(dst);
                bools[dst as usize] = true;
            },
            OpCode::MethodCall { kind, base, arg_count, .. } => {
                match kind {
                    crate::model::MethodKind::Push => {
                        if arg_count >= 1 {
                            let arg_reg = base + 1;
                            if !regs[arg_reg as usize] {
                                let o = origin_exec(&origins, base);
                                non_bools[o as usize] = true;
                            }
                        }
                    },
                    crate::model::MethodKind::SetItem | crate::model::MethodKind::Update => {
                        if arg_count >= 2 {
                            let val_reg = base + 2;
                            if !regs[val_reg as usize] {
                                let o = origin_exec(&origins, base);
                                non_bools[o as usize] = true;
                            }
                        }
                    },
                    _ => {},
                }
            },
            OpCode::SetIndex { container, src, .. } => {
                if !regs[src as usize] {
                    let o = origin_exec(&origins, container);
                    non_bools[o as usize] = true;
                }
            },
            OpCode::Move { dst, src } => {
                regs[dst as usize] = regs[src as usize];
                origins[dst as usize] = origins[src as usize];
            },
            OpCode::GetVar { dst, idx } => {
                match globals.get(&idx) {
                    Some(o) => {
                        origins[dst as usize] = Some(*o);
                    },
                    None => {
                        origins[dst as usize] = None;
                    },
                }
            },
            OpCode::SetVar { idx, src } => {
                match origins[src as usize] {
                    Some(o) => {
                        globals.insert(idx, o);
                    },
                    None => {
                        globals.remove(&idx);
                    },
                }
            },
            _ => {},
        }
        proof {
            let st = bool_scan(bytecode@.take(k as int + 1), constants@);
            assert(crate::regset::flagged(bools@) =~= st.3);
            assert(crate::regset::flagged(non_bools@) =~= st.4);
        }
        k = k + 1;
    }
    assert(bytecode@.take(k as int) =~= bytecode@);
    let mut result = [false; 256];
    let mut r: usize = 0;
    while r < 256
        invariant
            r <= 256,
            forall|x: int| 0 <= x < r ==> result@[x] == (bools@[x] && !non_bools@[x]),
            forall|x: int| r <= x < 256 ==> !result@[x],
        decreases 256 - r,
    {
        result[r] = bools[r] && !non_bools[r];
        r = r + 1;
    }
    let set = crate::regset::flags_to_hash_set(&result);
    assert(set@ =~= bool_arrays(bytecode@, constants@));
    set
}

} // verus!

verus! {

/// Law: an arithmetic result is an integer exactly when both operands are; a
/// constant load gives an integer exactly when the constant is one; a global read
/// gives an integer exactly when the global is known to hold only integers; a
/// store of an integer keeps a global among the integer globals unless it was
/// ever given anything else, and a store of anything else drops it for good.
pub proof fn law_arithmetic_is_integer_only_from_integers(st: IntScan, d: u8, a: u8, b: u8, i: u32, kind: MethodKind, cs: Seq<Value>)
    ensures
        int_step(st, OpCode::Add { dst: d, src1: a, src2: b }, cs) == (st.0.update(d as int, st.0[a as int] && st.0[b as int]), st.1, st.2),
        int_step(st, OpCode::Sub { dst: d, src1: a, src2: b }, cs) == (st.0.update(d as int, st.0[a as int] && st.0[b as int]), st.1, st.2),
        int_step(st, OpCode::Mul { dst: d, src1: a, src2: b }, cs) == (st.0.update(d as int, st.0[a as int] && st.0[b as int]), st.1, st.2),
        int_step(st, OpCode::Div { dst: d, src1: a, src2: b }, cs) == (st.0.update(d as int, st.0[a as int] && st.0[b as int]), st.1, st.2),
        int_step(st, OpCode::Mod { dst: d, src1: a, src2: b }, cs) == (st.0.update(d as int, st.0[a as int] && st.0[b as int]), st.1, st.2),
        int_step(st, OpCode::LoadConst { dst: d, idx: i }, cs) == (st.0.update(d as int, (i as int) < cs.len() && cs[i as int].kind == ValueKind::Int), st.1, st.2),
        int_step(st, OpCode::GetVar { dst: d, idx: i }, cs) == (st.0.update(d as int, st.1.contains(i)), st.1, st.2),
        int_step(st, OpCode::SetVar { idx: i, src: a }, cs) == (if st.0[a as int] { (st.0, if st.2.contains(i) { st.1 } else { st.1.insert(i) }, st.2) } else { (st.0, st.1.remove(i), st.2.insert(i)) }),
        int_step(st, OpCode::IncVar { idx: i }, cs) == (st.0, if st.2.contains(i) { st.1 } else { st.1.insert(i) }, st.2),
{
}

/// Law: each other instruction that writes a register makes it an integer
/// (casts to integer, counters, random integers), copies its source's flag, or
/// makes it no integer; every other instruction changes nothing.
pub proof fn law_other_results_set_integer_flags_1(st: IntScan, d: u8, d2: u8, a: u8, b: u8, c: u8, e: u8, flag: bool, cs: Seq<Value>)
    ensures
        int_step(st, OpCode::Move { dst: d, src: d2 }, cs) == (st.0.update(d as int, st.0[d2 as int]), st.1, st.2),
        int_step(st, OpCode::CastInt { dst: d, src: a }, cs) == (st.0.update(d as int, true), st.1, st.2),
        int_step(st, OpCode::Neg { dst: d, src: d2 }, cs) == (st.0.update(d as int, st.0[d2 as int]), st.1, st.2),
        int_step(st, OpCode::RandomInt { dst: d, min: a, max: b, step: c, has_step: e }, cs) == (st.0.update(d as int, true), st.1, st.2),
        int_step(st, OpCode::IncLocal { reg: d }, cs) == (st.0.update(d as int, true), st.1, st.2),
        int_step(st, OpCode::Equal { dst: d, src1: a, src2: b }, cs) == (st.0.update(d as int, false), st.1, st.2),
        int_step(st, OpCode::NotEqual { dst: d, src1: a, src2: b }, cs) == (st.0.update(d as int, false), st.1, st.2),
        int_step(st, OpCode::Greater { dst: d, src1: a, src2: b }, cs) == (st.0.update(d as int, false), st.1, st.2),
        int_step(st, OpCode::Less { dst: d, src1: a, src2: b }, cs) == (st.0.update(d as int, false), st.1, st.2),
        int_step(st, OpCode::GreaterEqual { dst: d, src1: a, src2: b }, cs) == (st.0.update(d as int, false), st.1, st.2),
        int_step(st, OpCode::LessEqual { dst: d, src1: a, src2: b }, cs) == (st.0.update(d as int, false), st.1, st.2),
        int_step(st, OpCode::And { dst: d, src1: a, src2: b }, cs) == (st.0.update(d as int, false), st.1, st.2),
        int_step(st, OpCode::Or { dst: d, src1: a, src2: b }, cs) == (st.0.update(d as int, false), st.1, st.2),
        int_step(st, OpCode::Not { dst: d, src: a }, cs) == (st.0.update(d as int, false), st.1, st.2),
        int_step(st, OpCode::Has { dst: d, src1: a, src2: b }, cs) == (st.0.update(d as int, false), st.1, st.2),
        int_step(st, OpCode::Input { dst: d }, cs) == (st.0.update(d as int, false), st.1, st.2),
        int_step(st, OpCode::TerminalExit { dst: d }, cs) == (st.0.update(d as int, false), st.1, st.2),
        int_step(st, OpCode::TerminalRun { dst: d, cmd_src: a }, cs) == (st.0.update(d as int, false), st.1, st.2),
        int_step(st, OpCode::TerminalClear { dst: d }, cs) == (st.0.update(d as int, false), st.1, st.2),
        int_step(st, OpCode::TerminalRaw { dst: d }, cs) == (st.0.update(d as int, false), st.1, st.2),
        int_step(st, OpCode::TerminalNormal { dst: d }, cs) == (st.0.update(d as int, false), st.1, st.2),
        int_step(st, OpCode::TerminalCursor { dst: d, on: flag }, cs) == (st.0.update(d as int, false), st.1, st.2),
        int_step(st, OpCode::TerminalMove { dst: d, x_src: a, y_src: b }, cs) == (st.0.update(d as int, false), st.1, st.2),
        int_step(st, OpCode::TerminalWrite { dst: d, src: a }, cs) == (st.0.update(d as int, false), st.1, st.2),
{
}

/// Law: each other instruction that writes a register makes it an integer
/// (casts to integer, counters, random integers), copies its source's flag, or
/// makes it no integer; every other instruction changes nothing.
pub proof fn law_other_results_set_integer_flags_2(st: IntScan, d: u8, a: u8, b: u8, c: u8, e: u8, i: u32, j: u32, m: u32, kind: MethodKind, cs: Seq<Value>)
    ensures
        int_step(st, OpCode::InputKey { dst: d }, cs) == (st.0.update(d as int, false), st.1, st.2),
        int_step(st, OpCode::InputKeyWait { dst: d }, cs) == (st.0.update(d as int, false), st.1, st.2),
        int_step(st, OpCode::InputReady { dst: d }, cs) == (st.0.update(d as int, false), st.1, st.2),
        int_step(st, OpCode::Call { dst: d, func_idx: i, base: a, arg_count: b }, cs) == (st.0.update(d as int, false), st.1, st.2),
        int_step(st, OpCode::SetName { src: d }, cs) == (st.0.update(d as int, false), st.1, st.2),
        int_step(st, OpCode::ArrayInit { dst: d, base: a, count: i }, cs) == (st.0.update(d as int, false), st.1, st.2),
        int_step(st, OpCode::BoolArrayInit { dst: d }, cs) == (st.0.update(d as int, false), st.1, st.2),
        int_step(st, OpCode::SetInit { dst: d, base: a, count: i }, cs) == (st.0.update(d as int, false), st.1, st.2),
        int_step(st, OpCode::MapInit { dst: d, base: a, count: i }, cs) == (st.0.update(d as int, false), st.1, st.2),
        int_step(st, OpCode::TableInit { dst: d, skeleton_idx: i, base: a, row_count: j, col_count: m }, cs) == (st.0.update(d as int, false), st.1, st.2),
        int_step(st, OpCode::JsonParse { dst: d, src: a }, cs) == (st.0.update(d as int, false), st.1, st.2),
        int_step(st, OpCode::DateNow { dst: d }, cs) == (st.0.update(d as int, false), st.1, st.2),
        int_step(st, OpCode::MethodCall { dst: d, kind: kind, base: a, arg_count: b }, cs) == (st.0.update(d as int, false), st.1, st.2),
        int_step(st, OpCode::MethodCallCustom { dst: d, method_name_idx: i, base: a, arg_count: b }, cs) == (st.0.update(d as int, false), st.1, st.2),
        int_step(st, OpCode::SetUnion { dst: d, src1: a, src2: b }, cs) == (st.0.update(d as int, false), st.1, st.2),
        int_step(st, OpCode::SetIntersection { dst: d, src1: a, src2: b }, cs) == (st.0.update(d as int, false), st.1, st.2),
        int_step(st, OpCode::SetDifference { dst: d, src1: a, src2: b }, cs) == (st.0.update(d as int, false), st.1, st.2),
        int_step(st, OpCode::SetSymDifference { dst: d, src1: a, src2: b }, cs) == (st.0.update(d as int, false), st.1, st.2),
        int_step(st, OpCode::RandomChoice { dst: d, src: a }, cs) == (st.0.update(d as int, false), st.1, st.2),
        int_step(st, OpCode::IntConcat { dst: d, src1: a, src2: b }, cs) == (st.0.update(d as int, false), st.1, st.2),
        int_step(st, OpCode::SetRange { dst: d, start: a, end: b, step: c, has_step: e }, cs) == (st.0.update(d as int, false), st.1, st.2),
        int_step(st, OpCode::RandomFloat { dst: d, min: a, max: b, step: c, has_step: e }, cs) == (st.0.update(d as int, false), st.1, st.2),
        int_step(st, OpCode::StoreWrite { dst: d, base: a }, cs) == (st.0.update(d as int, false), st.1, st.2),
        int_step(st, OpCode::StoreRead { dst: d, base: a }, cs) == (st.0.update(d as int, false), st.1, st.2),
{
}

/// Law: each other instruction that writes a register makes it an integer
/// (casts to integer, counters, random integers), copies its source's flag, or
/// makes it no integer; every other instruction changes nothing.
pub proof fn law_other_results_set_integer_flags_3(st: IntScan, d: u8, a: u8, b: u8, c: u8, i: u32, cs: Seq<Value>)
    ensures
        int_step(st, OpCode::StoreAppend { dst: d, base: a }, cs) == (st.0.update(d as int, false), st.1, st.2),
        int_step(st, OpCode::StoreExists { dst: d, base: a }, cs) == (st.0.update(d as int, false), st.1, st.2),
        int_step(st, OpCode::StoreDelete { dst: d, base: a }, cs) == (st.0.update(d as int, false), st.1, st.2),
        int_step(st, OpCode::StoreList { dst: d, base: a }, cs) == (st.0.update(d as int, false), st.1, st.2),
        int_step(st, OpCode::StoreIsDir { dst: d, base: a }, cs) == (st.0.update(d as int, false), st.1, st.2),
        int_step(st, OpCode::StoreSize { dst: d, base: a }, cs) == (st.0.update(d as int, false), st.1, st.2),
        int_step(st, OpCode::StoreMkdir { dst: d, base: a }, cs) == (st.0.update(d as int, false), st.1, st.2),
        int_step(st, OpCode::StoreGlob { dst: d, base: a }, cs) == (st.0.update(d as int, false), st.1, st.2),
        int_step(st, OpCode::StoreZip { dst: d, base: a }, cs) == (st.0.update(d as int, false), st.1, st.2),
        int_step(st, OpCode::StoreUnzip { dst: d, base: a }, cs) == (st.0.update(d as int, false), st.1, st.2),
        int_step(st, OpCode::JsonBindLocal { dst: d, json_src: a, path_src: b }, cs) == (st.0.update(d as int, false), st.1, st.2),
        int_step(st, OpCode::JsonInjectLocal { table_reg: d, json_src: a, mapping_src: b }, cs) == (st.0.update(d as int, false), st.1, st.2),
        int_step(st, OpCode::FiberCreate { dst: d, func_idx: i, base: a, arg_count: b }, cs) == (st.0.update(d as int, false), st.1, st.2),
        int_step(st, OpCode::YieldWithTarget { dst: d, src: a }, cs) == (st.0.update(d as int, false), st.1, st.2),
        int_step(st, OpCode::HttpCall { dst: d, method_idx: i, url_src: a, body_src: b }, cs) == (st.0.update(d as int, false), st.1, st.2),
        int_step(st, OpCode::HttpRequest { dst: d, arg_src: a }, cs) == (st.0.update(d as int, false), st.1, st.2),
        int_step(st, OpCode::HttpRespond { dst: d, status_src: a, body_src: b, headers_src: c }, cs) == (st.0.update(d as int, false), st.1, st.2),
        int_step(st, OpCode::EnvGet { dst: d, src: a }, cs) == (st.0.update(d as int, false), st.1, st.2),
        int_step(st, OpCode::EnvArgs { dst: d }, cs) == (st.0.update(d as int, false), st.1, st.2),
        int_step(st, OpCode::CryptoHash { dst: d, pass_src: a, alg_src: b }, cs) == (st.0.update(d as int, false), st.1, st.2),
        int_step(st, OpCode::CryptoVerify { dst: d, pass_src: a, hash_src: b, alg_src: c }, cs) == (st.0.update(d as int, false), st.1, st.2),
        int_step(st, OpCode::CryptoToken { dst: d, len_src: a }, cs) == (st.0.update(d as int, false), st.1, st.2),
        int_step(st, OpCode::CastFloat { dst: d, src: a }, cs) == (st.0.update(d as int, false), st.1, st.2),
        int_step(st, OpCode::CastString { dst: d, src: a }, cs) == (st.0.update(d as int, false), st.1, st.2),
{
}

/// Law: each other instruction that writes a register makes it an integer
/// (casts to integer, counters, random integers), copies its source's flag, or
/// makes it no integer; every other instruction changes nothing.
pub proof fn law_other_results_set_integer_flags_4(st: IntScan, d: u8, a: u8, b: u8, c: u8, e: u8, i: u32, j: u32, cs: Seq<Value>)
    ensures
        int_step(st, OpCode::CastBool { dst: d, src: a }, cs) == (st.0.update(d as int, false), st.1, st.2),
        int_step(st, OpCode::Typeof { dst: d, src: a }, cs) == (st.0.update(d as int, false), st.1, st.2),
        int_step(st, OpCode::GetIndex { dst: d, container: a, index: b }, cs) == (st.0.update(d as int, false), st.1, st.2),
        int_step(st, OpCode::GetMember { dst: d, container: a, name_idx: i }, cs) == (st.0.update(d as int, false), st.1, st.2),
        int_step(st, OpCode::RowGet { dst: d, row_reg: a, col_idx: i }, cs) == (st.0.update(d as int, false), st.1, st.2),
        int_step(st, OpCode::TableCloneSkeleton { dst: d, src: a }, cs) == (st.0.update(d as int, false), st.1, st.2),
        int_step(st, OpCode::Pow { dst: a, src1: b, src2: c }, cs) == st,
        int_step(st, OpCode::DecVar { idx: i }, cs) == st,
        int_step(st, OpCode::DecLocal { reg: a }, cs) == st,
        int_step(st, OpCode::Jump { target: i }, cs) == st,
        int_step(st, OpCode::JumpIfFalse { src: a, target: i }, cs) == st,
        int_step(st, OpCode::JumpIfTrue { src: a, target: i }, cs) == st,
        int_step(st, OpCode::LoopNext { reg: a, limit_reg: b, target: i }, cs) == st,
        int_step(st, OpCode::LoopPrev { reg: a, limit_reg: b, target: i }, cs) == st,
        int_step(st, OpCode::IncLocalLoopNext { inc_reg: a, reg: b, limit_reg: c, target: i }, cs) == st,
        int_step(st, OpCode::DecLocalLoopPrev { dec_reg: a, reg: b, limit_reg: c, target: i }, cs) == st,
        int_step(st, OpCode::IncVarLoopNext { g_idx: i, reg: a, limit_reg: b, target: j }, cs) == st,
        int_step(st, OpCode::DecVarLoopPrev { g_idx: i, reg: a, limit_reg: b, target: j }, cs) == st,
        int_step(st, OpCode::ArrayLoopNext { idx_reg: a, size_reg: b, target: i }, cs) == st,
        int_step(st, OpCode::TableIter { tbl_reg: a, idx_reg: b, row_reg: c, limit_reg: e, target: i }, cs) == st,
        int_step(st, OpCode::Return { src: a }, cs) == st,
        int_step(st, OpCode::ReturnVoid, cs) == st,
        int_step(st, OpCode::Halt, cs) == st,
        int_step(st, OpCode::Wait { src: a }, cs) == st,
{
}

/// Law: each other instruction that writes a register makes it an integer
/// (casts to integer, counters, random integers), copies its source's flag, or
/// makes it no integer; every other instruction changes nothing.
pub proof fn law_other_results_set_integer_flags_5(st: IntScan, a: u8, b: u8, c: u8, e: u8, i: u32, kind: MethodKind, cs: Seq<Value>)
    ensures
        int_step(st, OpCode::Yield { src: a }, cs) == st,
        int_step(st, OpCode::YieldVoid, cs) == st,
        int_step(st, OpCode::HaltAlert { src: a }, cs) == st,
        int_step(st, OpCode::HaltError { src: a }, cs) == st,
        int_step(st, OpCode::HaltFatal { src: a }, cs) == st,
        int_step(st, OpCode::Print { src: a }, cs) == st,
        int_step(st, OpCode::MethodCallNamed { dst: a, kind: kind, base: b, arg_count: c, names_idx: i }, cs) == st,
        int_step(st, OpCode::MakeClosure { dst: a, capture_start: b, capture_count: c }, cs) == st,
        int_step(st, OpCode::TableBegin { dst: a }, cs) == st,
        int_step(st, OpCode::TableInitRow { tbl_dst: a, base: b, col_count: i }, cs) == st,
        int_step(st, OpCode::TablePushRow { tbl_reg: a, row_reg: b }, cs) == st,
        int_step(st, OpCode::SetIndex { container: a, index: b, src: c }, cs) == st,
        int_step(st, OpCode::SetMember { container: a, name_idx: i, src: b }, cs) == st,
        int_step(st, OpCode::StrAppendVar { var_idx: i, src: a }, cs) == st,
        int_step(st, OpCode::StrAppendLocal { local_idx: a, src: b }, cs) == st,
        int_step(st, OpCode::StrAppendElement { container: a, index: b, src: c }, cs) == st,
        int_step(st, OpCode::StrAppendMember { container: a, name_idx: i, src: b }, cs) == st,
        int_step(st, OpCode::PerfMs { dst: a }, cs) == st,
        int_step(st, OpCode::PerfUs { dst: a }, cs) == st,
        int_step(st, OpCode::PerfNs { dst: a }, cs) == st,
        int_step(st, OpCode::JsonFastGetPush { json_src: a, path_src: b, val_src: c }, cs) == st,
        int_step(st, OpCode::JsonBind { idx: i, json_src: a, path_src: b }, cs) == st,
        int_step(st, OpCode::JsonInject { table_idx: i, json_src: a, mapping_src: b }, cs) == st,
        int_step(st, OpCode::HttpServe { func_idx: i, port_src: a, host_src: b, workers_src: c, routes_src: e }, cs) == st,
{
}

/// Law: each other instruction that writes a register makes it an integer
/// (casts to integer, counters, random integers), copies its source's flag, or
/// makes it no integer; every other instruction changes nothing.
pub proof fn law_other_results_set_integer_flags_6(st: IntScan, a: u8, b: u8, c: u8, e: u8, i: u32, cs: Seq<Value>)
    ensures
        int_step(st, OpCode::DatabaseInit { dst: a, engine_src: b, path_src: c, tables_base_reg: e, table_count: i }, cs) == st,
{
}

/// Law: in a trace, integer operations give integers, a move copies its
/// source's flag, loads and global reads and stores behave as in a chunk, and
/// every other trace instruction changes nothing.
pub proof fn law_trace_integer_flags_1(st: IntScan, d: u8, d2: u8, a: u8, b: u8, i: u32, kind: MethodKind, val: Value)
    ensures
        trace_int_step(st, TraceOp::LoadConst { dst: d, val: val }) == (st.0.update(d as int, val.kind == ValueKind::Int), st.1, st.2),
        trace_int_step(st, TraceOp::GetVar { dst: d, idx: i }) == (st.0.update(d as int, st.1.contains(i)), st.1, st.2),
        trace_int_step(st, TraceOp::SetVar { idx: i, src: a }) == (if st.0[a as int] { (st.0, if st.2.contains(i) { st.1 } else { st.1.insert(i) }, st.2) } else { (st.0, st.1.remove(i), st.2.insert(i)) }),
        trace_int_step(st, TraceOp::IncVar { g_idx: i }) == (st.0, if st.2.contains(i) { st.1 } else { st.1.insert(i) }, st.2),
        trace_int_step(st, TraceOp::Move { dst: d, src: d2 }) == (st.0.update(d as int, st.0[d2 as int]), st.1, st.2),
        trace_int_step(st, TraceOp::AddInt { dst: d, src1: a, src2: b }) == (st.0.update(d as int, true), st.1, st.2),
        trace_int_step(st, TraceOp::SubInt { dst: d, src1: a, src2: b }) == (st.0.update(d as int, true), st.1, st.2),
        trace_int_step(st, TraceOp::MulInt { dst: d, src1: a, src2: b }) == (st.0.update(d as int, true), st.1, st.2),
        trace_int_step(st, TraceOp::ModInt { dst: d, src1: a, src2: b }) == (st.0.update(d as int, true), st.1, st.2),
        trace_int_step(st, TraceOp::DivInt { dst: d, src1: a, src2: b }) == (st.0.update(d as int, true), st.1, st.2),
        trace_int_step(st, TraceOp::PowInt { dst: d, src1: a, src2: b }) == (st.0.update(d as int, true), st.1, st.2),
        trace_int_step(st, TraceOp::IntConcat { dst: d, src1: a, src2: b }) == (st.0.update(d as int, true), st.1, st.2),
        trace_int_step(st, TraceOp::NegInt { dst: d, src: a }) == (st.0.update(d as int, true), st.1, st.2),
        trace_int_step(st, TraceOp::IncLocal { reg: d }) == (st.0.update(d as int, true), st.1, st.2),
        trace_int_step(st, TraceOp::ArrayGet { dst: a }) == st,
        trace_int_step(st, TraceOp::ArrayGetIndex { dst: a }) == st,
        trace_int_step(st, TraceOp::GetMember { dst: a }) == st,
        trace_int_step(st, TraceOp::JsonBindLocal { dst: a }) == st,
        trace_int_step(st, TraceOp::JsonBindLocalConst { dst: a }) == st,
        trace_int_step(st, TraceOp::JsonParse { dst: a }) == st,
        trace_int_step(st, TraceOp::FiberNext { dst: a }) == st,
        trace_int_step(st, TraceOp::Call { dst: a }) == st,
        trace_int_step(st, TraceOp::TableCloneSkeleton { dst: a }) == st,
        trace_int_step(st, TraceOp::RowGet { dst: a }) == st,
{
}

/// Law: in a trace, integer operations give integers, a move copies its
/// source's flag, loads and global reads and stores behave as in a chunk, and
/// every other trace instruction changes nothing.
pub proof fn law_trace_integer_flags_2(st: IntScan)
    ensures
        trace_int_step(st, TraceOp::Other) == st,
{
}

} // verus!
