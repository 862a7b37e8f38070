//! Which registers never hold a heap pointer anywhere in a chunk or a trace:
//! the greatest register set that the chunk's instructions cannot refute.
use vstd::prelude::*;
use std::collections::HashSet;
use crate::model::{MethodKind, OpCode, TraceOp, Value};
use crate::regset::flagged;

verus! {

broadcast use vstd::std_specs::hash::group_hash_axioms;

/// What one instruction says about pointer-free registers.
#[derive(Clone, Copy, Debug, PartialEq, Eq, Structural)]
pub enum NonPtrRule {
    /// The instruction may leave a pointer in this register.
    Clear(u8),
    /// The instruction copies `src` into `dst`: `dst` may hold a pointer if `src` may.
    Follow { dst: u8, src: u8 },
    /// The instruction says nothing about pointers.
    Keep,
}

/// The set `s` of pointer-free registers is consistent with `rule`.
pub open spec fn rule_holds(rule: NonPtrRule, s: Set<u8>) -> bool {
    match rule {
        NonPtrRule::Clear(d) => !s.contains(d),
        NonPtrRule::Follow { dst, src } => !s.contains(src) ==> !s.contains(dst),
        NonPtrRule::Keep => true,
    }
}

/// The set `s` is consistent with every rule.
pub open spec fn rules_hold(rules: Seq<NonPtrRule>, s: Set<u8>) -> bool {
    forall|k: int| 0 <= k < rules.len() ==> #[trigger] rule_holds(rules[k], s)
}

/// The register an instruction may leave a heap value in, whatever the registers held.
pub open spec fn heap_dst(op: OpCode) -> Option<u8> {
    match op {
        OpCode::Input { dst, .. }
        | OpCode::TerminalExit { dst }
        | OpCode::TerminalRun { dst, .. }
        | OpCode::TerminalClear { dst }
        | OpCode::TerminalRaw { dst }
        | OpCode::TerminalNormal { dst }
        | OpCode::TerminalCursor { dst, .. }
        | OpCode::TerminalMove { dst, .. }
        | OpCode::TerminalWrite { dst, .. }
        | OpCode::InputKey { dst }
        | OpCode::InputKeyWait { dst }
        | OpCode::InputReady { dst }
        | OpCode::Call { dst, .. }
        | OpCode::ArrayInit { dst, .. }
        | OpCode::BoolArrayInit { dst }
        | OpCode::SetInit { dst, .. }
        | OpCode::MapInit { dst, .. }
        | OpCode::TableInit { dst, .. }
        | OpCode::MethodCall { dst, .. }
        | OpCode::MethodCallCustom { dst, .. }
        | OpCode::GetIndex { dst, .. }
        | OpCode::GetMember { dst, .. }
        | OpCode::RowGet { dst, .. }
        | OpCode::JsonParse { dst, .. }
        | OpCode::DateNow { dst }
        | OpCode::JsonBindLocal { dst, .. }
        | OpCode::JsonInjectLocal { table_reg: dst, .. }
        | OpCode::FiberCreate { dst, .. }
        | OpCode::YieldWithTarget { dst, .. }
        | OpCode::HttpCall { dst, .. }
        | OpCode::HttpRequest { dst, .. }
        | OpCode::HttpRespond { dst, .. }
        | OpCode::EnvGet { dst, .. }
        | OpCode::EnvArgs { dst }
        | OpCode::CryptoHash { dst, .. }
        | OpCode::CryptoVerify { dst, .. }
        | OpCode::CryptoToken { dst, .. }
        | OpCode::RandomChoice { dst, .. }
        | OpCode::SetRange { dst, .. }
        | OpCode::StoreRead { dst, .. }
        | OpCode::StoreWrite { dst, .. }
        | OpCode::StoreAppend { dst, .. }
        | OpCode::StoreExists { dst, .. }
        | OpCode::StoreDelete { dst, .. }
        | OpCode::StoreList { dst, .. }
        | OpCode::StoreIsDir { dst, .. }
        | OpCode::StoreSize { dst, .. }
        | OpCode::StoreMkdir { dst, .. }
        | OpCode::StoreGlob { dst, .. }
        | OpCode::StoreZip { dst, .. }
        | OpCode::StoreUnzip { dst, .. }
        | OpCode::DatabaseInit { dst, .. }
        | OpCode::MethodCallNamed { dst, .. }
        | OpCode::MakeClosure { dst, .. }
        | OpCode::Typeof { dst, .. }
        | OpCode::TableCloneSkeleton { dst, .. } => Some(dst),
        OpCode::StrAppendLocal { local_idx, .. } => Some(local_idx),
        _ => None,
    }
}

/// The pointer rule of one bytecode instruction, given the integer globals and the constants.
pub open spec fn op_rule(op: OpCode, global_ints: Set<u32>, constants: Seq<Value>) -> NonPtrRule {
    match op {
        OpCode::GetVar { dst, idx } => if !global_ints.contains(idx) {
            NonPtrRule::Clear(dst)
        } else {
            NonPtrRule::Keep
        },
        OpCode::LoadConst { dst, idx } => if (idx as int) < constants.len() {
            if constants[idx as int].ptr {
                NonPtrRule::Clear(dst)
            } else {
                NonPtrRule::Keep
            }
        } else {
            NonPtrRule::Clear(dst)
        },
        OpCode::Move { dst, src } => NonPtrRule::Follow { dst, src },
        _ => match heap_dst(op) {
            Some(d) => NonPtrRule::Clear(d),
            None => NonPtrRule::Keep,
        },
    }
}

/// The pointer rule of one trace instruction, given the integer globals.
pub open spec fn trace_rule(op: TraceOp, global_ints: Set<u32>) -> NonPtrRule {
    match op {
        TraceOp::GetVar { dst, idx } => if !global_ints.contains(idx) {
            NonPtrRule::Clear(dst)
        } else {
            NonPtrRule::Keep
        },
        TraceOp::LoadConst { dst, val } => if val.ptr {
            NonPtrRule::Clear(dst)
        } else {
            NonPtrRule::Keep
        },
        TraceOp::Move { dst, src } => NonPtrRule::Follow { dst, src },
        TraceOp::ArrayGet { dst }
        | TraceOp::ArrayGetIndex { dst }
        | TraceOp::GetMember { dst }
        | TraceOp::JsonBindLocal { dst }
        | TraceOp::JsonBindLocalConst { dst }
        | TraceOp::JsonParse { dst }
        | TraceOp::FiberNext { dst }
        | TraceOp::Call { dst }
        | TraceOp::TableCloneSkeleton { dst }
        | TraceOp::RowGet { dst } => NonPtrRule::Clear(dst),
        _ => NonPtrRule::Keep,
    }
}

/// The rules of all instructions of `ops`.
pub open spec fn op_rules(ops: Seq<OpCode>, global_ints: Set<u32>, constants: Seq<Value>) -> Seq<NonPtrRule> {
    Seq::new(ops.len(), |k: int| op_rule(ops[k], global_ints, constants))
}

/// The rules of all instructions of a trace.
pub open spec fn trace_rules(ops: Seq<TraceOp>, global_ints: Set<u32>) -> Seq<NonPtrRule> {
    Seq::new(ops.len(), |k: int| trace_rule(ops[k], global_ints))
}

/// `r` is the greatest subset of `init` that is consistent with every rule.
pub open spec fn greatest_consistent(rules: Seq<NonPtrRule>, init: Set<u8>, r: Set<u8>) -> bool {
    &&& r.subset_of(init)
    &&& rules_hold(rules, r)
    &&& forall|s: Set<u8>| s.subset_of(init) && rules_hold(rules, s) ==> #[trigger] s.subset_of(r)
}

/// The number of set flags.
pub open spec fn count_set(flags: Seq<bool>) -> nat
    decreases flags.len(),
{
    if flags.len() == 0 {
        0
    } else {
        count_set(flags.drop_last()) + if flags.last() { 1nat } else { 0nat }
    }
}

proof fn lemma_count_clear(flags: Seq<bool>, i: int)
    requires
        0 <= i < flags.len(),
        flags[i],
    ensures
        count_set(flags.update(i, false)) + 1 == count_set(flags),
    decreases flags.len(),
{
    let u = flags.update(i, false);
    if i == flags.len() - 1 {
        assert(u.drop_last() =~= flags.drop_last());
    } else {
        assert(u.drop_last() =~= flags.drop_last().update(i, false));
        lemma_count_clear(flags.drop_last(), i);
    }
}

fn rule_of_op(op: &OpCode, global_ints: &HashSet<u32>, constants: &[Value]) -> (rule: NonPtrRule)
    ensures
        rule == op_rule(*op, global_ints@, constants@),
{
    match *op {
        OpCode::GetVar { dst, idx } => if !global_ints.contains(&idx) {
            NonPtrRule::Clear(dst)
        } else {
            NonPtrRule::Keep
        },
        OpCode::LoadConst { dst, idx } => if (idx as usize) < constants.len() {
            if constants[idx as usize].is_ptr() {
                NonPtrRule::Clear(dst)
            } else {
                NonPtrRule::Keep
            }
        } else {
            NonPtrRule::Clear(dst)
        },
        OpCode::Move { dst, src } => NonPtrRule::Follow { dst, src },
        OpCode::Input { dst, .. }
        | OpCode::TerminalExit { dst }
        | OpCode::TerminalRun { dst, .. }
        | OpCode::TerminalClear { dst }
        | OpCode::TerminalRaw { dst }
        | OpCode::TerminalNormal { dst }
        | OpCode::TerminalCursor { dst, .. }
        | OpCode::TerminalMove { dst, .. }
        | OpCode::TerminalWrite { dst, .. }
        | OpCode::InputKey { dst }
        | OpCode::InputKeyWait { dst }
        | OpCode::InputReady { dst }
        | OpCode::Call { dst, .. }
        | OpCode::ArrayInit { dst, .. }
        | OpCode::BoolArrayInit { dst }
        | OpCode::SetInit { dst, .. }
        | OpCode::MapInit { dst, .. }
        | OpCode::TableInit { dst, .. }
        | OpCode::MethodCall { dst, .. }
        | OpCode::MethodCallCustom { dst, .. }
        | OpCode::GetIndex { dst, .. }
        | OpCode::GetMember { dst, .. }
        | OpCode::RowGet { dst, .. }
        | OpCode::JsonParse { dst, .. }
        | OpCode::DateNow { dst }
        | OpCode::JsonBindLocal { dst, .. }
        | OpCode::JsonInjectLocal { table_reg: dst, .. }
        | OpCode::FiberCreate { dst, .. }
        | OpCode::YieldWithTarget { dst, .. }
        | OpCode::HttpCall { dst, .. }
        | OpCode::HttpRequest { dst, .. }
        | OpCode::HttpRespond { dst, .. }
        | OpCode::EnvGet { dst, .. }
        | OpCode::EnvArgs { dst }
        | OpCode::CryptoHash { dst, .. }
        | OpCode::CryptoVerify { dst, .. }
        | OpCode::CryptoToken { dst, .. }
        | OpCode::RandomChoice { dst, .. }
        | OpCode::SetRange { dst, .. }
        | OpCode::StoreRead { dst, .. }
        | OpCode::StoreWrite { dst, .. }
        | OpCode::StoreAppend { dst, .. }
        | OpCode::StoreExists { dst, .. }
        | OpCode::StoreDelete { dst, .. }
        | OpCode::StoreList { dst, .. }
        | OpCode::StoreIsDir { dst, .. }
        | OpCode::StoreSize { dst, .. }
        | OpCode::StoreMkdir { dst, .. }
        | OpCode::StoreGlob { dst, .. }
        | OpCode::StoreZip { dst, .. }
        | OpCode::StoreUnzip { dst, .. }
        | OpCode::DatabaseInit { dst, .. }
        | OpCode::MethodCallNamed { dst, .. }
        | OpCode::MakeClosure { dst, .. }
        | OpCode::Typeof { dst, .. }
        | OpCode::TableCloneSkeleton { dst, .. } => NonPtrRule::Clear(dst),
        OpCode::StrAppendLocal { local_idx, .. } => NonPtrRule::Clear(local_idx),
        _ => NonPtrRule::Keep,
    }
}

fn rule_of_trace_op(op: &TraceOp, global_ints: &HashSet<u32>) -> (rule: NonPtrRule)
    ensures
        rule == trace_rule(*op, global_ints@),
{
    match *op {
        TraceOp::GetVar { dst, idx } => if !global_ints.contains(&idx) {
            NonPtrRule::Clear(dst)
        } else {
            NonPtrRule::Keep
        },
        TraceOp::LoadConst { dst, val } => if val.is_ptr() {
            NonPtrRule::Clear(dst)
        } else {
            NonPtrRule::Keep
        },
        TraceOp::Move { dst, src } => NonPtrRule::Follow { dst, src },
        TraceOp::ArrayGet { dst }
        | TraceOp::ArrayGetIndex { dst }
        | TraceOp::GetMember { dst }
        | TraceOp::JsonBindLocal { dst }
        | TraceOp::JsonBindLocalConst { dst }
        | TraceOp::JsonParse { dst }
        | TraceOp::FiberNext { dst }
        | TraceOp::Call { dst }
        | TraceOp::TableCloneSkeleton { dst }
        | TraceOp::RowGet { dst } => NonPtrRule::Clear(dst),
        _ => NonPtrRule::Keep,
    }
}

/// Removes registers from `flags` until every rule holds, removing only what
/// the rules force; the result is the greatest consistent subset of the start.
fn refine_non_ptr(rules: &Vec<NonPtrRule>, flags: &mut [bool; 256])
    ensures
        greatest_consistent(rules@, flagged(old(flags)@), flagged(final(flags)@)),
{
    let ghost init = flagged(flags@);
    let mut changed = true;
    while changed
        invariant
            flags@.len() == 256,
            flagged(flags@).subset_of(init),
            forall|s: Set<u8>| s.subset_of(init) && rules_hold(rules@, s) ==> #[trigger] s.subset_of(
                flagged(flags@),
            ),
            !changed ==> rules_hold(rules@, flagged(flags@)),
        decreases count_set(flags@) + if changed { 1nat } else { 0nat },
    {
        changed = false;
        let ghost start = flags@;
        let mut k: usize = 0;
        while k < rules.len()
            invariant
                k <= rules@.len(),
                flags@.len() == 256,
                flagged(flags@).subset_of(init),
                forall|s: Set<u8>| s.subset_of(init) && rules_hold(rules@, s) ==> #[trigger] s.subset_of(
                    flagged(flags@),
                ),
                !changed ==> flags@ == start,
                !changed ==> forall|j: int| 0 <= j < k ==> #[trigger] rule_holds(rules@[j], flagged(flags@)),
                changed ==> count_set(flags@) < count_set(start),
            decreases rules@.len() - k,
        {
            let victim: Option<u8> = match rules[k] {
                NonPtrRule::Clear(d) => Some(d),
                NonPtrRule::Follow { dst, src } => if !flags[src as usize] {
                    Some(dst)
                } else {
                    None
                },
                NonPtrRule::Keep => None,
            };
            if let Some(d) = victim {
                if flags[d as usize] {
                    let ghost before = flags@;
                    proof {
                        lemma_count_clear(before, d as int);
                        assert forall|s: Set<u8>| s.subset_of(init) && rules_hold(rules@, s) implies #[trigger] s.subset_of(
                            flagged(before.update(d as int, false)),
                        ) by {
                            assert(rule_holds(rules@[k as int], s));
                            assert(s.subset_of(flagged(before)));
                        }
                    }
                    flags[d as usize] = false;
                    changed = true;
                }
            }
            k = k + 1;
        }
        proof {
            if !changed {
                assert forall|j: int| 0 <= j < rules@.len() implies #[trigger] rule_holds(rules@[j], flagged(flags@)) by {}
            }
        }
    }
}

/// The registers that no instruction of `bytecode` can leave a heap pointer in,
/// directly or by a copy: the greatest set of registers, the `arity` argument
/// registers excluded, that every instruction's pointer rule leaves consistent.
pub fn analyze_non_ptr_regs(
    bytecode: &[OpCode],
    arity: usize,
    global_ints: &HashSet<u32>,
    constants: &[Value],
) -> (non_ptr_regs: HashSet<u8>)
    ensures
        greatest_consistent(
            op_rules(bytecode@, global_ints@, constants@),
            Set::new(|r: u8| (r as int) >= arity),
            non_ptr_regs@,
        ),
{
    let mut rules: Vec<NonPtrRule> = Vec::new();
    let mut k: usize = 0;
    while k < bytecode.len()
        invariant
            k <= bytecode@.len(),
            rules@ =~= op_rules(bytecode@, global_ints@, constants@).take(k as int),
        decreases bytecode@.len() - k,
    {
        rules.push(rule_of_op(&bytecode[k], global_ints, constants));
        k = k + 1;
    }
    assert(rules@ =~= op_rules(bytecode@, global_ints@, constants@));
    let mut flags = [true; 256];
    let mut r: usize = 0;
    while r < 256
        invariant
            r <= 256,
            forall|x: int| 0 <= x < 256 ==> flags@[x] == (x >= r || x >= arity),
        decreases 256 - r,
    {
        if r < arity {
            flags[r] = false;
        }
        r = r + 1;
    }
    assert(flagged(flags@) =~= Set::new(|x: u8| (x as int) >= arity));
    refine_non_ptr(&rules, &mut flags);
    crate::regset::flags_to_hash_set(&flags)
}

/// The registers of a trace that never hold a heap pointer: the greatest set of
/// registers that every trace instruction's pointer rule leaves consistent.
pub fn analyze_trace_non_ptr_regs(ops: &[TraceOp], global_ints: &HashSet<u32>) -> (non_ptr: HashSet<u8>)
    ensures
        greatest_consistent(trace_rules(ops@, global_ints@), Set::full(), non_ptr@),
{
    let mut rules: Vec<NonPtrRule> = Vec::new();
    let mut k: usize = 0;
    while k < ops.len()
        invariant
            k <= ops@.len(),
            rules@ =~= trace_rules(ops@, global_ints@).take(k as int),
        decreases ops@.len() - k,
    {
        rules.push(rule_of_trace_op(&ops[k], global_ints));
        k = k + 1;
    }
    assert(rules@ =~= trace_rules(ops@, global_ints@));
    let mut flags = [true; 256];
    assert(flagged(flags@) =~= Set::full());
    refine_non_ptr(&rules, &mut flags);
    crate::regset::flags_to_hash_set(&flags)
}

} // verus!

verus! {

/// Law: each instruction that may leave a heap value in a register (a call, a
/// container, an element, member or row read, a runtime service's answer, ...)
/// rules that register out of the pointer-free set.
pub proof fn law_heap_results_are_never_pointer_free_1(d: u8, a: u8, b: u8, i: u32, j: u32, m: u32, kind: MethodKind, flag: bool, gi: Set<u32>, cs: Seq<Value>)
    ensures
        op_rule(OpCode::Input { dst: d }, gi, cs) == NonPtrRule::Clear(d),
        op_rule(OpCode::TerminalExit { dst: d }, gi, cs) == NonPtrRule::Clear(d),
        op_rule(OpCode::TerminalRun { dst: d, cmd_src: a }, gi, cs) == NonPtrRule::Clear(d),
        op_rule(OpCode::TerminalClear { dst: d }, gi, cs) == NonPtrRule::Clear(d),
        op_rule(OpCode::TerminalRaw { dst: d }, gi, cs) == NonPtrRule::Clear(d),
        op_rule(OpCode::TerminalNormal { dst: d }, gi, cs) == NonPtrRule::Clear(d),
        op_rule(OpCode::TerminalCursor { dst: d, on: flag }, gi, cs) == NonPtrRule::Clear(d),
        op_rule(OpCode::TerminalMove { dst: d, x_src: a, y_src: b }, gi, cs) == NonPtrRule::Clear(d),
        op_rule(OpCode::TerminalWrite { dst: d, src: a }, gi, cs) == NonPtrRule::Clear(d),
        op_rule(OpCode::InputKey { dst: d }, gi, cs) == NonPtrRule::Clear(d),
        op_rule(OpCode::InputKeyWait { dst: d }, gi, cs) == NonPtrRule::Clear(d),
        op_rule(OpCode::InputReady { dst: d }, gi, cs) == NonPtrRule::Clear(d),
        op_rule(OpCode::Call { dst: d, func_idx: i, base: a, arg_count: b }, gi, cs) == NonPtrRule::Clear(d),
        op_rule(OpCode::ArrayInit { dst: d, base: a, count: i }, gi, cs) == NonPtrRule::Clear(d),
        op_rule(OpCode::BoolArrayInit { dst: d }, gi, cs) == NonPtrRule::Clear(d),
        op_rule(OpCode::SetInit { dst: d, base: a, count: i }, gi, cs) == NonPtrRule::Clear(d),
        op_rule(OpCode::MapInit { dst: d, base: a, count: i }, gi, cs) == NonPtrRule::Clear(d),
        op_rule(OpCode::TableInit { dst: d, skeleton_idx: i, base: a, row_count: j, col_count: m }, gi, cs) == NonPtrRule::Clear(d),
        op_rule(OpCode::MethodCall { dst: d, kind: kind, base: a, arg_count: b }, gi, cs) == NonPtrRule::Clear(d),
        op_rule(OpCode::MethodCallCustom { dst: d, method_name_idx: i, base: a, arg_count: b }, gi, cs) == NonPtrRule::Clear(d),
        op_rule(OpCode::GetIndex { dst: d, container: a, index: b }, gi, cs) == NonPtrRule::Clear(d),
        op_rule(OpCode::GetMember { dst: d, container: a, name_idx: i }, gi, cs) == NonPtrRule::Clear(d),
        op_rule(OpCode::RowGet { dst: d, row_reg: a, col_idx: i }, gi, cs) == NonPtrRule::Clear(d),
        op_rule(OpCode::JsonParse { dst: d, src: a }, gi, cs) == NonPtrRule::Clear(d),
{
}

/// Law: each instruction that may leave a heap value in a register (a call, a
/// container, an element, member or row read, a runtime service's answer, ...)
/// rules that register out of the pointer-free set.
pub proof fn law_heap_results_are_never_pointer_free_2(d: u8, a: u8, b: u8, c: u8, e: u8, i: u32, gi: Set<u32>, cs: Seq<Value>)
    ensures
        op_rule(OpCode::DateNow { dst: d }, gi, cs) == NonPtrRule::Clear(d),
        op_rule(OpCode::JsonBindLocal { dst: d, json_src: a, path_src: b }, gi, cs) == NonPtrRule::Clear(d),
        op_rule(OpCode::JsonInjectLocal { table_reg: d, json_src: a, mapping_src: b }, gi, cs) == NonPtrRule::Clear(d),
        op_rule(OpCode::FiberCreate { dst: d, func_idx: i, base: a, arg_count: b }, gi, cs) == NonPtrRule::Clear(d),
        op_rule(OpCode::YieldWithTarget { dst: d, src: a }, gi, cs) == NonPtrRule::Clear(d),
        op_rule(OpCode::HttpCall { dst: d, method_idx: i, url_src: a, body_src: b }, gi, cs) == NonPtrRule::Clear(d),
        op_rule(OpCode::HttpRequest { dst: d, arg_src: a }, gi, cs) == NonPtrRule::Clear(d),
        op_rule(OpCode::HttpRespond { dst: d, status_src: a, body_src: b, headers_src: c }, gi, cs) == NonPtrRule::Clear(d),
        op_rule(OpCode::EnvGet { dst: d, src: a }, gi, cs) == NonPtrRule::Clear(d),
        op_rule(OpCode::EnvArgs { dst: d }, gi, cs) == NonPtrRule::Clear(d),
        op_rule(OpCode::CryptoHash { dst: d, pass_src: a, alg_src: b }, gi, cs) == NonPtrRule::Clear(d),
        op_rule(OpCode::CryptoVerify { dst: d, pass_src: a, hash_src: b, alg_src: c }, gi, cs) == NonPtrRule::Clear(d),
        op_rule(OpCode::CryptoToken { dst: d, len_src: a }, gi, cs) == NonPtrRule::Clear(d),
        op_rule(OpCode::RandomChoice { dst: d, src: a }, gi, cs) == NonPtrRule::Clear(d),
        op_rule(OpCode::SetRange { dst: d, start: a, end: b, step: c, has_step: e }, gi, cs) == NonPtrRule::Clear(d),
        op_rule(OpCode::StoreRead { dst: d, base: a }, gi, cs) == NonPtrRule::Clear(d),
        op_rule(OpCode::StoreWrite { dst: d, base: a }, gi, cs) == NonPtrRule::Clear(d),
        op_rule(OpCode::StoreAppend { dst: d, base: a }, gi, cs) == NonPtrRule::Clear(d),
        op_rule(OpCode::StoreExists { dst: d, base: a }, gi, cs) == NonPtrRule::Clear(d),
        op_rule(OpCode::StoreDelete { dst: d, base: a }, gi, cs) == NonPtrRule::Clear(d),
        op_rule(OpCode::StoreList { dst: d, base: a }, gi, cs) == NonPtrRule::Clear(d),
        op_rule(OpCode::StoreIsDir { dst: d, base: a }, gi, cs) == NonPtrRule::Clear(d),
        op_rule(OpCode::StoreSize { dst: d, base: a }, gi, cs) == NonPtrRule::Clear(d),
        op_rule(OpCode::StoreMkdir { dst: d, base: a }, gi, cs) == NonPtrRule::Clear(d),
{
}

/// Law: each instruction that may leave a heap value in a register (a call, a
/// container, an element, member or row read, a runtime service's answer, ...)
/// rules that register out of the pointer-free set.
pub proof fn law_heap_results_are_never_pointer_free_3(d: u8, a: u8, b: u8, c: u8, i: u32, kind: MethodKind, gi: Set<u32>, cs: Seq<Value>)
    ensures
        op_rule(OpCode::StoreGlob { dst: d, base: a }, gi, cs) == NonPtrRule::Clear(d),
        op_rule(OpCode::StoreZip { dst: d, base: a }, gi, cs) == NonPtrRule::Clear(d),
        op_rule(OpCode::StoreUnzip { dst: d, base: a }, gi, cs) == NonPtrRule::Clear(d),
        op_rule(OpCode::DatabaseInit { dst: d, engine_src: a, path_src: b, tables_base_reg: c, table_count: i }, gi, cs) == NonPtrRule::Clear(d),
        op_rule(OpCode::MethodCallNamed { dst: d, kind: kind, base: a, arg_count: b, names_idx: i }, gi, cs) == NonPtrRule::Clear(d),
        op_rule(OpCode::MakeClosure { dst: d, capture_start: a, capture_count: b }, gi, cs) == NonPtrRule::Clear(d),
        op_rule(OpCode::Typeof { dst: d, src: a }, gi, cs) == NonPtrRule::Clear(d),
        op_rule(OpCode::TableCloneSkeleton { dst: d, src: a }, gi, cs) == NonPtrRule::Clear(d),
        op_rule(OpCode::StrAppendLocal { local_idx: d, src: a }, gi, cs) == NonPtrRule::Clear(d),
{
}

/// Law: a move makes its destination follow its source; a constant load and a
/// global read rule their destination out unless the value is known to be no
/// pointer.
pub proof fn law_copies_and_loads_rule_by_their_source(d: u8, a: u8, i: u32, gi: Set<u32>, cs: Seq<Value>)
    ensures
        op_rule(OpCode::Move { dst: d, src: a }, gi, cs) == (NonPtrRule::Follow { dst: d, src: a }),
        op_rule(OpCode::LoadConst { dst: d, idx: i }, gi, cs) == (if (i as int) < cs.len() && !cs[i as int].ptr { NonPtrRule::Keep } else { NonPtrRule::Clear(d) }),
        op_rule(OpCode::GetVar { dst: d, idx: i }, gi, cs) == (if gi.contains(i) { NonPtrRule::Keep } else { NonPtrRule::Clear(d) }),
{
}

/// Law: every other instruction says nothing about pointers.
pub proof fn law_other_instructions_rule_nothing_1(a: u8, b: u8, c: u8, gi: Set<u32>, cs: Seq<Value>)
    ensures
        op_rule(OpCode::Add { dst: a, src1: b, src2: c }, gi, cs) == NonPtrRule::Keep,
        op_rule(OpCode::Sub { dst: a, src1: b, src2: c }, gi, cs) == NonPtrRule::Keep,
        op_rule(OpCode::Mul { dst: a, src1: b, src2: c }, gi, cs) == NonPtrRule::Keep,
        op_rule(OpCode::Div { dst: a, src1: b, src2: c }, gi, cs) == NonPtrRule::Keep,
        op_rule(OpCode::Mod { dst: a, src1: b, src2: c }, gi, cs) == NonPtrRule::Keep,
        op_rule(OpCode::Pow { dst: a, src1: b, src2: c }, gi, cs) == NonPtrRule::Keep,
        op_rule(OpCode::Equal { dst: a, src1: b, src2: c }, gi, cs) == NonPtrRule::Keep,
        op_rule(OpCode::NotEqual { dst: a, src1: b, src2: c }, gi, cs) == NonPtrRule::Keep,
        op_rule(OpCode::Greater { dst: a, src1: b, src2: c }, gi, cs) == NonPtrRule::Keep,
        op_rule(OpCode::Less { dst: a, src1: b, src2: c }, gi, cs) == NonPtrRule::Keep,
        op_rule(OpCode::GreaterEqual { dst: a, src1: b, src2: c }, gi, cs) == NonPtrRule::Keep,
        op_rule(OpCode::LessEqual { dst: a, src1: b, src2: c }, gi, cs) == NonPtrRule::Keep,
        op_rule(OpCode::And { dst: a, src1: b, src2: c }, gi, cs) == NonPtrRule::Keep,
        op_rule(OpCode::Or { dst: a, src1: b, src2: c }, gi, cs) == NonPtrRule::Keep,
        op_rule(OpCode::IntConcat { dst: a, src1: b, src2: c }, gi, cs) == NonPtrRule::Keep,
        op_rule(OpCode::Has { dst: a, src1: b, src2: c }, gi, cs) == NonPtrRule::Keep,
        op_rule(OpCode::SetUnion { dst: a, src1: b, src2: c }, gi, cs) == NonPtrRule::Keep,
        op_rule(OpCode::SetIntersection { dst: a, src1: b, src2: c }, gi, cs) == NonPtrRule::Keep,
        op_rule(OpCode::SetDifference { dst: a, src1: b, src2: c }, gi, cs) == NonPtrRule::Keep,
        op_rule(OpCode::SetSymDifference { dst: a, src1: b, src2: c }, gi, cs) == NonPtrRule::Keep,
        op_rule(OpCode::Not { dst: a, src: b }, gi, cs) == NonPtrRule::Keep,
        op_rule(OpCode::Neg { dst: a, src: b }, gi, cs) == NonPtrRule::Keep,
        op_rule(OpCode::CastInt { dst: a, src: b }, gi, cs) == NonPtrRule::Keep,
        op_rule(OpCode::CastFloat { dst: a, src: b }, gi, cs) == NonPtrRule::Keep,
{
}

/// Law: every other instruction says nothing about pointers.
pub proof fn law_other_instructions_rule_nothing_2(a: u8, b: u8, c: u8, e: u8, i: u32, j: u32, gi: Set<u32>, cs: Seq<Value>)
    ensures
        op_rule(OpCode::CastString { dst: a, src: b }, gi, cs) == NonPtrRule::Keep,
        op_rule(OpCode::CastBool { dst: a, src: b }, gi, cs) == NonPtrRule::Keep,
        op_rule(OpCode::SetVar { idx: i, src: a }, gi, cs) == NonPtrRule::Keep,
        op_rule(OpCode::IncVar { idx: i }, gi, cs) == NonPtrRule::Keep,
        op_rule(OpCode::DecVar { idx: i }, gi, cs) == NonPtrRule::Keep,
        op_rule(OpCode::IncLocal { reg: a }, gi, cs) == NonPtrRule::Keep,
        op_rule(OpCode::DecLocal { reg: a }, gi, cs) == NonPtrRule::Keep,
        op_rule(OpCode::Jump { target: i }, gi, cs) == NonPtrRule::Keep,
        op_rule(OpCode::JumpIfFalse { src: a, target: i }, gi, cs) == NonPtrRule::Keep,
        op_rule(OpCode::JumpIfTrue { src: a, target: i }, gi, cs) == NonPtrRule::Keep,
        op_rule(OpCode::LoopNext { reg: a, limit_reg: b, target: i }, gi, cs) == NonPtrRule::Keep,
        op_rule(OpCode::LoopPrev { reg: a, limit_reg: b, target: i }, gi, cs) == NonPtrRule::Keep,
        op_rule(OpCode::IncLocalLoopNext { inc_reg: a, reg: b, limit_reg: c, target: i }, gi, cs) == NonPtrRule::Keep,
        op_rule(OpCode::DecLocalLoopPrev { dec_reg: a, reg: b, limit_reg: c, target: i }, gi, cs) == NonPtrRule::Keep,
        op_rule(OpCode::IncVarLoopNext { g_idx: i, reg: a, limit_reg: b, target: j }, gi, cs) == NonPtrRule::Keep,
        op_rule(OpCode::DecVarLoopPrev { g_idx: i, reg: a, limit_reg: b, target: j }, gi, cs) == NonPtrRule::Keep,
        op_rule(OpCode::ArrayLoopNext { idx_reg: a, size_reg: b, target: i }, gi, cs) == NonPtrRule::Keep,
        op_rule(OpCode::TableIter { tbl_reg: a, idx_reg: b, row_reg: c, limit_reg: e, target: i }, gi, cs) == NonPtrRule::Keep,
        op_rule(OpCode::Return { src: a }, gi, cs) == NonPtrRule::Keep,
        op_rule(OpCode::ReturnVoid, gi, cs) == NonPtrRule::Keep,
        op_rule(OpCode::Halt, gi, cs) == NonPtrRule::Keep,
        op_rule(OpCode::Wait { src: a }, gi, cs) == NonPtrRule::Keep,
        op_rule(OpCode::Yield { src: a }, gi, cs) == NonPtrRule::Keep,
        op_rule(OpCode::YieldVoid, gi, cs) == NonPtrRule::Keep,
{
}

/// Law: every other instruction says nothing about pointers.
pub proof fn law_other_instructions_rule_nothing_3(a: u8, b: u8, c: u8, e: u8, x: u8, i: u32, gi: Set<u32>, cs: Seq<Value>)
    ensures
        op_rule(OpCode::HaltAlert { src: a }, gi, cs) == NonPtrRule::Keep,
        op_rule(OpCode::HaltError { src: a }, gi, cs) == NonPtrRule::Keep,
        op_rule(OpCode::HaltFatal { src: a }, gi, cs) == NonPtrRule::Keep,
        op_rule(OpCode::Print { src: a }, gi, cs) == NonPtrRule::Keep,
        op_rule(OpCode::TableBegin { dst: a }, gi, cs) == NonPtrRule::Keep,
        op_rule(OpCode::TableInitRow { tbl_dst: a, base: b, col_count: i }, gi, cs) == NonPtrRule::Keep,
        op_rule(OpCode::TablePushRow { tbl_reg: a, row_reg: b }, gi, cs) == NonPtrRule::Keep,
        op_rule(OpCode::SetIndex { container: a, index: b, src: c }, gi, cs) == NonPtrRule::Keep,
        op_rule(OpCode::SetMember { container: a, name_idx: i, src: b }, gi, cs) == NonPtrRule::Keep,
        op_rule(OpCode::SetName { src: a }, gi, cs) == NonPtrRule::Keep,
        op_rule(OpCode::StrAppendVar { var_idx: i, src: a }, gi, cs) == NonPtrRule::Keep,
        op_rule(OpCode::StrAppendElement { container: a, index: b, src: c }, gi, cs) == NonPtrRule::Keep,
        op_rule(OpCode::StrAppendMember { container: a, name_idx: i, src: b }, gi, cs) == NonPtrRule::Keep,
        op_rule(OpCode::RandomInt { dst: a, min: b, max: c, step: e, has_step: x }, gi, cs) == NonPtrRule::Keep,
        op_rule(OpCode::RandomFloat { dst: a, min: b, max: c, step: e, has_step: x }, gi, cs) == NonPtrRule::Keep,
        op_rule(OpCode::PerfMs { dst: a }, gi, cs) == NonPtrRule::Keep,
        op_rule(OpCode::PerfUs { dst: a }, gi, cs) == NonPtrRule::Keep,
        op_rule(OpCode::PerfNs { dst: a }, gi, cs) == NonPtrRule::Keep,
        op_rule(OpCode::JsonFastGetPush { json_src: a, path_src: b, val_src: c }, gi, cs) == NonPtrRule::Keep,
        op_rule(OpCode::JsonBind { idx: i, json_src: a, path_src: b }, gi, cs) == NonPtrRule::Keep,
        op_rule(OpCode::JsonInject { table_idx: i, json_src: a, mapping_src: b }, gi, cs) == NonPtrRule::Keep,
        op_rule(OpCode::HttpServe { func_idx: i, port_src: a, host_src: b, workers_src: c, routes_src: e }, gi, cs) == NonPtrRule::Keep,
{
}

/// Law: each trace instruction that may leave a heap value in a register rules
/// that register out of the pointer-free set.
pub proof fn law_trace_heap_results_are_never_pointer_free(d: u8, gi: Set<u32>)
    ensures
        trace_rule(TraceOp::ArrayGet { dst: d }, gi) == NonPtrRule::Clear(d),
        trace_rule(TraceOp::ArrayGetIndex { dst: d }, gi) == NonPtrRule::Clear(d),
        trace_rule(TraceOp::GetMember { dst: d }, gi) == NonPtrRule::Clear(d),
        trace_rule(TraceOp::JsonBindLocal { dst: d }, gi) == NonPtrRule::Clear(d),
        trace_rule(TraceOp::JsonBindLocalConst { dst: d }, gi) == NonPtrRule::Clear(d),
        trace_rule(TraceOp::JsonParse { dst: d }, gi) == NonPtrRule::Clear(d),
        trace_rule(TraceOp::FiberNext { dst: d }, gi) == NonPtrRule::Clear(d),
        trace_rule(TraceOp::Call { dst: d }, gi) == NonPtrRule::Clear(d),
        trace_rule(TraceOp::TableCloneSkeleton { dst: d }, gi) == NonPtrRule::Clear(d),
        trace_rule(TraceOp::RowGet { dst: d }, gi) == NonPtrRule::Clear(d),
{
}

/// Law: in a trace, a move makes its destination follow its source; a constant
/// load and a global read rule their destination out unless the value is known
/// to be no pointer; every other trace instruction says nothing.
pub proof fn law_trace_copies_and_loads_rule_by_their_source(d: u8, a: u8, b: u8, c: u8, i: u32, val: Value, gi: Set<u32>)
    ensures
        trace_rule(TraceOp::Move { dst: d, src: a }, gi) == (NonPtrRule::Follow { dst: d, src: a }),
        trace_rule(TraceOp::LoadConst { dst: d, val: val }, gi) == (if val.ptr { NonPtrRule::Clear(d) } else { NonPtrRule::Keep }),
        trace_rule(TraceOp::GetVar { dst: d, idx: i }, gi) == (if gi.contains(i) { NonPtrRule::Keep } else { NonPtrRule::Clear(d) }),
        trace_rule(TraceOp::AddInt { dst: a, src1: b, src2: c }, gi) == NonPtrRule::Keep,
        trace_rule(TraceOp::SubInt { dst: a, src1: b, src2: c }, gi) == NonPtrRule::Keep,
        trace_rule(TraceOp::MulInt { dst: a, src1: b, src2: c }, gi) == NonPtrRule::Keep,
        trace_rule(TraceOp::ModInt { dst: a, src1: b, src2: c }, gi) == NonPtrRule::Keep,
        trace_rule(TraceOp::DivInt { dst: a, src1: b, src2: c }, gi) == NonPtrRule::Keep,
        trace_rule(TraceOp::PowInt { dst: a, src1: b, src2: c }, gi) == NonPtrRule::Keep,
        trace_rule(TraceOp::IntConcat { dst: a, src1: b, src2: c }, gi) == NonPtrRule::Keep,
        trace_rule(TraceOp::NegInt { dst: a, src: b }, gi) == NonPtrRule::Keep,
        trace_rule(TraceOp::IncLocal { reg: a }, gi) == NonPtrRule::Keep,
        trace_rule(TraceOp::SetVar { idx: i, src: a }, gi) == NonPtrRule::Keep,
        trace_rule(TraceOp::IncVar { g_idx: i }, gi) == NonPtrRule::Keep,
        trace_rule(TraceOp::Other, gi) == NonPtrRule::Keep,
{
}

/// Law: a register that some instruction of the code may leave a heap value
/// in (its rule rules the register out) is never among the registers that the
/// analysis reports as pointer-free.
pub proof fn law_cleared_registers_are_not_reported(
    ops: Seq<OpCode>,
    gi: Set<u32>,
    cs: Seq<Value>,
    init: Set<u8>,
    r: Set<u8>,
    k: int,
    d: u8,
)
    requires
        greatest_consistent(op_rules(ops, gi, cs), init, r),
        0 <= k < ops.len(),
        op_rule(ops[k], gi, cs) == NonPtrRule::Clear(d),
    ensures
        !r.contains(d),
{
    assert(rule_holds(op_rules(ops, gi, cs)[k], r));
}

} // verus!
