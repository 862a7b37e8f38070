//! Which registers and which globals a stretch of bytecode touches.
use vstd::prelude::*;
use crate::model::OpCode;
use crate::regset::{reg_span, mark, mark_span, empty_flags, flags_to_sorted_vec};

verus! {

broadcast use vstd::std_specs::hash::group_hash_axioms;

/// A `TableInit` reads `row_count * col_count` registers; the product must fit
/// in a `u32`, as the instruction's arithmetic overflows otherwise.
pub open spec fn op_counts_fit(op: OpCode) -> bool {
    match op {
        OpCode::TableInit { row_count, col_count, .. } => row_count * col_count <= u32::MAX,
        _ => true,
    }
}

/// Every instruction's counts fit (see `op_counts_fit`).
pub open spec fn counts_fit(ops: Seq<OpCode>) -> bool {
    forall|i: int| 0 <= i < ops.len() ==> #[trigger] op_counts_fit(ops[i])
}

/// The local registers one instruction names.
pub open spec fn op_locals(op: OpCode) -> Set<u8> {
    match op {
        OpCode::Move { dst, src } => set![dst, src],
        OpCode::Add { dst, src1, src2 }
        | OpCode::Sub { dst, src1, src2 }
        | OpCode::Mul { dst, src1, src2 }
        | OpCode::Div { dst, src1, src2 }
        | OpCode::Mod { dst, src1, src2 }
        | OpCode::Pow { dst, src1, src2 }
        | OpCode::Equal { dst, src1, src2 }
        | OpCode::NotEqual { dst, src1, src2 }
        | OpCode::Greater { dst, src1, src2 }
        | OpCode::Less { dst, src1, src2 }
        | OpCode::GreaterEqual { dst, src1, src2 }
        | OpCode::LessEqual { dst, src1, src2 }
        | OpCode::And { dst, src1, src2 }
        | OpCode::Or { dst, src1, src2 }
        | OpCode::IntConcat { dst, src1, src2 }
        | OpCode::Has { dst, src1, src2 }
        | OpCode::SetUnion { dst, src1, src2 }
        | OpCode::SetIntersection { dst, src1, src2 }
        | OpCode::SetDifference { dst, src1, src2 }
        | OpCode::SetSymDifference { dst, src1, src2 } => set![dst, src1, src2],
        OpCode::LoadConst { dst, .. } | OpCode::GetVar { dst, .. } => set![dst],
        OpCode::Typeof { dst, src } => set![dst, src],
        OpCode::Not { dst, src }
        | OpCode::Neg { dst, src }
        | OpCode::CastInt { dst, src }
        | OpCode::CastFloat { dst, src }
        | OpCode::CastString { dst, src }
        | OpCode::CastBool { dst, src } => set![dst, src],
        OpCode::DateNow { dst } | OpCode::EnvArgs { dst } => set![dst],
        OpCode::JsonParse { dst, src } => set![dst, src],
        OpCode::JsonFastGetPush { json_src, path_src, val_src } => set![json_src, path_src, val_src],
        OpCode::JumpIfFalse { src, .. }
        | OpCode::JumpIfTrue { src, .. }
        | OpCode::Return { src }
        | OpCode::Wait { src }
        | OpCode::IncLocal { reg: src }
        | OpCode::Yield { src }
        | OpCode::YieldWithTarget { src, .. }
        | OpCode::HaltAlert { src }
        | OpCode::HaltError { src }
        | OpCode::HaltFatal { src }
        | OpCode::Print { src }
        | OpCode::StrAppendVar { src, .. } => set![src],
        OpCode::StrAppendLocal { local_idx, src } => set![local_idx, src],
        OpCode::LoopNext { reg, limit_reg, .. }
        | OpCode::IncVarLoopNext { reg, limit_reg, .. }
        | OpCode::ArrayLoopNext { idx_reg: reg, size_reg: limit_reg, .. } => set![reg, limit_reg],
        OpCode::IncLocalLoopNext { inc_reg, reg, limit_reg, .. } => set![inc_reg, reg, limit_reg],
        OpCode::Call { dst, base, arg_count, .. }
        | OpCode::FiberCreate { dst, base, arg_count, .. }
        | OpCode::MethodCall { dst, base, arg_count, .. }
        | OpCode::MethodCallNamed { dst, base, arg_count, .. }
        | OpCode::MethodCallCustom { dst, base, arg_count, .. } => set![dst, base].union(
            reg_span(base + 1, arg_count as int),
        ),
        OpCode::ArrayInit { dst, base, count }
        | OpCode::SetInit { dst, base, count }
        | OpCode::MapInit { dst, base, count } => set![dst].union(reg_span(base as int, count as int)),
        OpCode::BoolArrayInit { dst } => set![dst],
        OpCode::GetIndex { dst, container, index } => set![dst, container, index],
        OpCode::SetIndex { container, index, src }
        | OpCode::StrAppendElement { container, index, src } => set![container, index, src],
        OpCode::GetMember { dst, container, .. } => set![dst, container],
        OpCode::SetMember { container, src, .. }
        | OpCode::StrAppendMember { container, src, .. } => set![container, src],
        OpCode::TableIter { tbl_reg, idx_reg, row_reg, limit_reg, .. } => set![
            tbl_reg,
            idx_reg,
            row_reg,
            limit_reg
        ],
        OpCode::DatabaseInit { dst, engine_src, path_src, tables_base_reg, .. } => set![
            dst,
            engine_src,
            path_src,
            tables_base_reg
        ],
        OpCode::SetName { src } => set![src],
        OpCode::TableInit { dst, base, row_count, col_count, .. } => set![dst].union(
            reg_span(base as int, row_count * col_count),
        ),
        OpCode::RandomInt { dst, min, max, step, has_step }
        | OpCode::RandomFloat { dst, min, max, step, has_step } => if has_step != 0 {
            set![dst, min, max, step]
        } else {
            set![dst, min, max]
        },
        OpCode::StoreWrite { dst, base }
        | OpCode::StoreRead { dst, base }
        | OpCode::StoreAppend { dst, base }
        | OpCode::StoreExists { dst, base }
        | OpCode::StoreDelete { dst, base }
        | OpCode::StoreList { dst, base }
        | OpCode::StoreIsDir { dst, base }
        | OpCode::StoreSize { dst, base }
        | OpCode::StoreMkdir { dst, base }
        | OpCode::StoreGlob { dst, base }
        | OpCode::StoreZip { dst, base }
        | OpCode::StoreUnzip { dst, base } => set![dst, base],
        OpCode::JsonBind { json_src, path_src, .. } => set![json_src, path_src],
        OpCode::JsonBindLocal { dst, json_src, path_src } => set![dst, json_src, path_src],
        OpCode::JsonInject { json_src, mapping_src, .. } => set![json_src, mapping_src],
        OpCode::JsonInjectLocal { table_reg, json_src, mapping_src } => set![
            table_reg,
            json_src,
            mapping_src
        ],
        OpCode::PerfMs { dst } | OpCode::PerfUs { dst } | OpCode::PerfNs { dst } => set![dst],
        OpCode::HttpRequest { dst, arg_src } => set![dst, arg_src],
        OpCode::HttpRespond { dst, status_src, body_src, headers_src } => set![
            dst,
            status_src,
            body_src,
            headers_src
        ],
        OpCode::HttpServe { port_src, host_src, workers_src, routes_src, .. } => set![
            port_src,
            host_src,
            workers_src,
            routes_src
        ],
        OpCode::EnvGet { dst, src } => set![dst, src],
        OpCode::CryptoHash { dst, pass_src, alg_src } => set![dst, pass_src, alg_src],
        OpCode::CryptoVerify { dst, pass_src, hash_src, alg_src } => set![
            dst,
            pass_src,
            hash_src,
            alg_src
        ],
        OpCode::CryptoToken { dst, len_src } => set![dst, len_src],
        OpCode::DecLocal { reg } => set![reg],
        OpCode::LoopPrev { reg, limit_reg, .. } | OpCode::DecVarLoopPrev { reg, limit_reg, .. } => set![
            reg,
            limit_reg
        ],
        OpCode::DecLocalLoopPrev { dec_reg, reg, limit_reg, .. } => set![dec_reg, reg, limit_reg],
        OpCode::MakeClosure { dst, capture_start, capture_count } => set![dst].union(
            reg_span(capture_start as int, capture_count as int),
        ),
        OpCode::TerminalCursor { dst, .. } => set![dst],
        OpCode::TerminalMove { dst, x_src, y_src } => set![dst, x_src, y_src],
        OpCode::RowGet { dst, row_reg, .. } => set![dst, row_reg],
        OpCode::TablePushRow { tbl_reg, row_reg } => set![tbl_reg, row_reg],
        OpCode::TableCloneSkeleton { dst, src } => set![dst, src],
        OpCode::TableBegin { dst } => set![dst],
        OpCode::TableInitRow { tbl_dst, base, col_count } => set![tbl_dst].union(
            reg_span(base as int, col_count as int),
        ),
        _ => Set::empty(),
    }
}

/// The local registers that any instruction of `ops` names.
pub open spec fn locals_used(ops: Seq<OpCode>) -> Set<u8>
    decreases ops.len(),
{
    if ops.len() == 0 {
        Set::empty()
    } else {
        locals_used(ops.drop_last()).union(op_locals(ops.last()))
    }
}

fn mark2(flags: &mut [bool; 256], a: u8, b: u8)
    ensures
        final(flags)@ == old(flags)@.update(a as int, true).update(b as int, true),
{
    mark(flags, a);
    mark(flags, b);
}

fn mark3(flags: &mut [bool; 256], a: u8, b: u8, c: u8)
    ensures
        final(flags)@ == old(flags)@.update(a as int, true).update(b as int, true).update(
            c as int,
            true,
        ),
{
    mark(flags, a);
    mark(flags, b);
    mark(flags, c);
}

fn mark4(flags: &mut [bool; 256], a: u8, b: u8, c: u8, d: u8)
    ensures
        final(flags)@ == old(flags)@.update(a as int, true).update(b as int, true).update(
            c as int,
            true,
        ).update(d as int, true),
{
    mark(flags, a);
    mark(flags, b);
    mark(flags, c);
    mark(flags, d);
}

/// Sets the flag of every register that `op` names.
fn mark_op_locals(flags: &mut [bool; 256], op: &OpCode)
    requires
        op_counts_fit(*op),
    ensures
        forall|r: u8|
            #![trigger final(flags)@[r as int]]
            final(flags)@[r as int] == (old(flags)@[r as int] || op_locals(*op).contains(r)),
{
    match *op {
        OpCode::Move { dst, src } => mark2(flags, dst, src),
        OpCode::Add { dst, src1, src2 }
        | OpCode::Sub { dst, src1, src2 }
        | OpCode::Mul { dst, src1, src2 }
        | OpCode::Div { dst, src1, src2 }
        | OpCode::Mod { dst, src1, src2 }
        | OpCode::Pow { dst, src1, src2 }
        | OpCode::Equal { dst, src1, src2 }
        | OpCode::NotEqual { dst, src1, src2 }
        | OpCode::Greater { dst, src1, src2 }
        | OpCode::Less { dst, src1, src2 }
        | OpCode::GreaterEqual { dst, src1, src2 }
        | OpCode::LessEqual { dst, src1, src2 }
        | OpCode::And { dst, src1, src2 }
        | OpCode::Or { dst, src1, src2 }
        | OpCode::IntConcat { dst, src1, src2 }
        | OpCode::Has { dst, src1, src2 }
        | OpCode::SetUnion { dst, src1, src2 }
        | OpCode::SetIntersection { dst, src1, src2 }
        | OpCode::SetDifference { dst, src1, src2 }
        | OpCode::SetSymDifference { dst, src1, src2 } => mark3(flags, dst, src1, src2),
        OpCode::LoadConst { dst, .. } | OpCode::GetVar { dst, .. } => mark(flags, dst),
        OpCode::Typeof { dst, src } => mark2(flags, dst, src),
        OpCode::Not { dst, src }
        | OpCode::Neg { dst, src }
        | OpCode::CastInt { dst, src }
        | OpCode::CastFloat { dst, src }
        | OpCode::CastString { dst, src }
        | OpCode::CastBool { dst, src } => mark2(flags, dst, src),
        OpCode::DateNow { dst } | OpCode::EnvArgs { dst } => mark(flags, dst),
        OpCode::JsonParse { dst, src } => mark2(flags, dst, src),
        OpCode::JsonFastGetPush { json_src, path_src, val_src } => mark3(
            flags,
            json_src,
            path_src,
            val_src,
        ),
        OpCode::JumpIfFalse { src, .. }
        | OpCode::JumpIfTrue { src, .. }
        | OpCode::Return { src }
        | OpCode::Wait { src }
        | OpCode::IncLocal { reg: src }
        | OpCode::Yield { src }
        | OpCode::YieldWithTarget { src, .. }
        | OpCode::HaltAlert { src }
        | OpCode::HaltError { src }
        | OpCode::HaltFatal { src }
        | OpCode::Print { src }
        | OpCode::StrAppendVar { src, .. } => mark(flags, src),
        OpCode::StrAppendLocal { local_idx, src } => mark2(flags, local_idx, src),
        OpCode::LoopNext { reg, limit_reg, .. }
        | OpCode::IncVarLoopNext { reg, limit_reg, .. }
        | OpCode::ArrayLoopNext { idx_reg: reg, size_reg: limit_reg, .. } => mark2(
            flags,
            reg,
            limit_reg,
        ),
        OpCode::IncLocalLoopNext { inc_reg, reg, limit_reg, .. } => mark3(
            flags,
            inc_reg,
            reg,
            limit_reg,
        ),
        OpCode::Call { dst, base, arg_count, .. }
        | OpCode::FiberCreate { dst, base, arg_count, .. }
        | OpCode::MethodCall { dst, base, arg_count, .. }
        | OpCode::MethodCallNamed { dst, base, arg_count, .. }
        | OpCode::MethodCallCustom { dst, base, arg_count, .. } => {
            mark2(flags, dst, base);
            mark_span(flags, base as u64 + 1, arg_count as u64);
        },
        OpCode::ArrayInit { dst, base, count }
        | OpCode::SetInit { dst, base, count }
        | OpCode::MapInit { dst, base, count } => {
            mark(flags, dst);
            mark_span(flags, base as u64, count as u64);
        },
        OpCode::BoolArrayInit { dst } => mark(flags, dst),
        OpCode::GetIndex { dst, container, index } => mark3(flags, dst, container, index),
        OpCode::SetIndex { container, index, src }
        | OpCode::StrAppendElement { container, index, src } => mark3(flags, container, index, src),
        OpCode::GetMember { dst, container, .. } => mark2(flags, dst, container),
        OpCode::SetMember { container, src, .. }
        | OpCode::StrAppendMember { container, src, .. } => mark2(flags, container, src),
        OpCode::TableIter { tbl_reg, idx_reg, row_reg, limit_reg, .. } => mark4(
            flags,
            tbl_reg,
            idx_reg,
            row_reg,
            limit_reg,
        ),
        OpCode::DatabaseInit { dst, engine_src, path_src, tables_base_reg, .. } => mark4(
            flags,
            dst,
            engine_src,
            path_src,
            tables_base_reg,
        ),
        OpCode::SetName { src } => mark(flags, src),
        OpCode::TableInit { dst, base, row_count, col_count, .. } => {
            mark(flags, dst);
            let cells: u32 = row_count * col_count;
            mark_span(flags, base as u64, cells as u64);
        },
        OpCode::RandomInt { dst, min, max, step, has_step }
        | OpCode::RandomFloat { dst, min, max, step, has_step } => {
            mark3(flags, dst, min, max);
            if has_step != 0 {
                mark(flags, step);
            }
        },
        OpCode::StoreWrite { dst, base }
        | OpCode::StoreRead { dst, base }
        | OpCode::StoreAppend { dst, base }
        | OpCode::StoreExists { dst, base }
        | OpCode::StoreDelete { dst, base }
        | OpCode::StoreList { dst, base }
        | OpCode::StoreIsDir { dst, base }
        | OpCode::StoreSize { dst, base }
        | OpCode::StoreMkdir { dst, base }
        | OpCode::StoreGlob { dst, base }
        | OpCode::StoreZip { dst, base }
        | OpCode::StoreUnzip { dst, base } => mark2(flags, dst, base),
        OpCode::JsonBind { json_src, path_src, .. } => mark2(flags, json_src, path_src),
        OpCode::JsonBindLocal { dst, json_src, path_src } => mark3(flags, dst, json_src, path_src),
        OpCode::JsonInject { json_src, mapping_src, .. } => mark2(flags, json_src, mapping_src),
        OpCode::JsonInjectLocal { table_reg, json_src, mapping_src } => mark3(
            flags,
            table_reg,
            json_src,
            mapping_src,
        ),
        OpCode::PerfMs { dst } | OpCode::PerfUs { dst } | OpCode::PerfNs { dst } => mark(flags, dst),
        OpCode::HttpRequest { dst, arg_src } => mark2(flags, dst, arg_src),
        OpCode::HttpRespond { dst, status_src, body_src, headers_src } => mark4(
            flags,
            dst,
            status_src,
            body_src,
            headers_src,
        ),
        OpCode::HttpServe { port_src, host_src, workers_src, routes_src, .. } => mark4(
            flags,
            port_src,
            host_src,
            workers_src,
            routes_src,
        ),
        OpCode::EnvGet { dst, src } => mark2(flags, dst, src),
        OpCode::CryptoHash { dst, pass_src, alg_src } => mark3(flags, dst, pass_src, alg_src),
        OpCode::CryptoVerify { dst, pass_src, hash_src, alg_src } => mark4(
            flags,
            dst,
            pass_src,
            hash_src,
            alg_src,
        ),
        OpCode::CryptoToken { dst, len_src } => mark2(flags, dst, len_src),
        OpCode::DecLocal { reg } => mark(flags, reg),
        OpCode::LoopPrev { reg, limit_reg, .. } | OpCode::DecVarLoopPrev { reg, limit_reg, .. } => mark2(
            flags,
            reg,
            limit_reg,
        ),
        OpCode::DecLocalLoopPrev { dec_reg, reg, limit_reg, .. } => mark3(
            flags,
            dec_reg,
            reg,
            limit_reg,
        ),
        OpCode::MakeClosure { dst, capture_start, capture_count } => {
            mark(flags, dst);
            mark_span(flags, capture_start as u64, capture_count as u64);
        },
        OpCode::TerminalCursor { dst, .. } => mark(flags, dst),
        OpCode::TerminalMove { dst, x_src, y_src } => mark3(flags, dst, x_src, y_src),
        OpCode::RowGet { dst, row_reg, .. } => mark2(flags, dst, row_reg),
        OpCode::TablePushRow { tbl_reg, row_reg } => mark2(flags, tbl_reg, row_reg),
        OpCode::TableCloneSkeleton { dst, src } => mark2(flags, dst, src),
        OpCode::TableBegin { dst } => mark(flags, dst),
        OpCode::TableInitRow { tbl_dst, base, col_count } => {
            mark(flags, tbl_dst);
            mark_span(flags, base as u64, col_count as u64);
        },
        _ => {},
    }
}

} // verus!

verus! {

/// The registers that any of the first `i` instructions names, after those instructions.
proof fn lemma_locals_used_step(ops: Seq<OpCode>, i: int)
    requires
        0 <= i < ops.len(),
    ensures
        locals_used(ops.take(i + 1)) == locals_used(ops.take(i)).union(op_locals(ops[i])),
{
    assert(ops.take(i + 1).drop_last() =~= ops.take(i));
}

/// The local registers that `bytecode` names, once each, in ascending order.
pub fn analyze_locals_iter(bytecode: &[OpCode]) -> (used: Vec<u8>)
    requires
        counts_fit(bytecode@),
    ensures
        forall|i: int, j: int| 0 <= i < j < used@.len() ==> used@[i] < used@[j],
        forall|r: u8| used@.contains(r) <==> locals_used(bytecode@).contains(r),
{
    let mut flags = empty_flags();
    let mut k: usize = 0;
    while k < bytecode.len()
        invariant
            k <= bytecode@.len(),
            counts_fit(bytecode@),
            forall|r: u8| #![trigger flags@[r as int]] flags@[r as int] == locals_used(bytecode@.take(k as int)).contains(r),
        decreases bytecode@.len() - k,
    {
        proof {
            lemma_locals_used_step(bytecode@, k as int);
        }
        assert(op_counts_fit(bytecode@[k as int]));
        mark_op_locals(&mut flags, &bytecode[k]);
        k = k + 1;
    }
    assert(bytecode@.take(k as int) =~= bytecode@);
    flags_to_sorted_vec(&flags)
}

/// The local registers that a chunk's bytecode names, once each, in ascending order.
pub fn analyze_chunk_locals(bytecode: &[OpCode]) -> (used: Vec<u8>)
    requires
        counts_fit(bytecode@),
    ensures
        forall|i: int, j: int| 0 <= i < j < used@.len() ==> used@[i] < used@[j],
        forall|r: u8| used@.contains(r) <==> locals_used(bytecode@).contains(r),
{
    analyze_locals_iter(bytecode)
}

/// The local registers that a trace names, given the trace as the bytecode
/// instructions its operations stand for; once each, in ascending order.
/// The trace is taken in that form because turning a recorded trace operation
/// into its bytecode instruction is the work of the VM that records traces,
/// not of this library; on the same instructions the answer is that of
/// `analyze_chunk_locals`.
pub fn analyze_trace_locals(trace_ops: &[OpCode]) -> (used: Vec<u8>)
    requires
        counts_fit(trace_ops@),
    ensures
        forall|i: int, j: int| 0 <= i < j < used@.len() ==> used@[i] < used@[j],
        forall|r: u8| used@.contains(r) <==> locals_used(trace_ops@).contains(r),
{
    analyze_locals_iter(trace_ops)
}

/// The global variable that one instruction names, if any.
pub open spec fn op_global(op: OpCode) -> Option<u32> {
    match op {
        OpCode::GetVar { idx, .. }
        | OpCode::SetVar { idx, .. }
        | OpCode::IncVar { idx }
        | OpCode::JsonBind { idx, .. }
        | OpCode::JsonInject { table_idx: idx, .. }
        | OpCode::IncVarLoopNext { g_idx: idx, .. } => Some(idx),
        _ => None,
    }
}

/// The globals that `ops` names, each once, in the order of first mention.
pub open spec fn globals_used(ops: Seq<OpCode>) -> Seq<u32>
    decreases ops.len(),
{
    if ops.len() == 0 {
        Seq::empty()
    } else {
        let before = globals_used(ops.drop_last());
        match op_global(ops.last()) {
            Some(g) => if before.contains(g) {
                before
            } else {
                before.push(g)
            },
            None => before,
        }
    }
}

fn op_global_exec(op: &OpCode) -> (g: Option<u32>)
    ensures
        g == op_global(*op),
{
    match *op {
        OpCode::GetVar { idx, .. }
        | OpCode::SetVar { idx, .. }
        | OpCode::IncVar { idx }
        | OpCode::JsonBind { idx, .. }
        | OpCode::JsonInject { table_idx: idx, .. }
        | OpCode::IncVarLoopNext { g_idx: idx, .. } => Some(idx),
        _ => None,
    }
}

/// The globals that `bytecode` names, each once, in the order of first mention.
pub fn analyze_globals_iter(bytecode: &[OpCode]) -> (used: Vec<u32>)
    ensures
        used@ == globals_used(bytecode@),
{
    let mut seen: std::collections::HashSet<u32> = std::collections::HashSet::new();
    let mut used: Vec<u32> = Vec::new();
    let mut k: usize = 0;
    while k < bytecode.len()
        invariant
            k <= bytecode@.len(),
            used@ == globals_used(bytecode@.take(k as int)),
            seen@ == used@.to_set(),
        decreases bytecode@.len() - k,
    {
        assert(bytecode@.take(k as int + 1).drop_last() =~= bytecode@.take(k as int));
        assert(bytecode@.take(k as int + 1).last() == bytecode@[k as int]);
        match op_global_exec(&bytecode[k]) {
            Some(g) => {
                if seen.insert(g) {
                    assert(!used@.contains(g));
                    proof {
                        used@.lemma_push_to_set_commute(g);
                    }
                    used.push(g);
                    assert(used@.to_set() =~= seen@);
                } else {
                    assert(used@.to_set().contains(g));
                }
            },
            None => {},
        }
        k = k + 1;
    }
    assert(bytecode@.take(k as int) =~= bytecode@);
    used
}

/// The globals that a chunk's bytecode names, each once, in the order of first mention.
pub fn analyze_chunk_globals(bytecode: &[OpCode]) -> (used: Vec<u32>)
    ensures
        used@ == globals_used(bytecode@),
{
    analyze_globals_iter(bytecode)
}

/// The globals that a trace names, given the trace as the bytecode instructions
/// its operations stand for; each once, in the order of first mention. The
/// trace is taken in that form because turning a recorded trace operation into
/// its bytecode instruction is the work of the VM that records traces, not of
/// this library; on the same instructions the answer is that of
/// `analyze_chunk_globals`.
pub fn analyze_trace_globals(trace_ops: &[OpCode]) -> (used: Vec<u32>)
    ensures
        used@ == globals_used(trace_ops@),
{
    analyze_globals_iter(trace_ops)
}

/// The registers named by two pieces of code run one after the other are
/// those named by either piece.
pub proof fn law_locals_of_concatenation(a: Seq<OpCode>, b: Seq<OpCode>)
    ensures
        locals_used(a + b) == locals_used(a).union(locals_used(b)),
    decreases b.len(),
{
    if b.len() == 0 {
        assert(a + b =~= a);
        assert(locals_used(a).union(Set::empty()) =~= locals_used(a));
    } else {
        assert((a + b).drop_last() =~= a + b.drop_last());
        assert((a + b).last() == b.last());
        law_locals_of_concatenation(a, b.drop_last());
        assert(locals_used(a + b) =~= locals_used(a).union(locals_used(b)));
    }
}

/// The globals named by two pieces of code run one after the other are
/// those named by either piece.
pub proof fn law_globals_of_concatenation(a: Seq<OpCode>, b: Seq<OpCode>)
    ensures
        globals_used(a + b).to_set() == globals_used(a).to_set().union(globals_used(b).to_set()),
    decreases b.len(),
{
    if b.len() == 0 {
        assert(a + b =~= a);
        assert(globals_used(a).to_set().union(Seq::<u32>::empty().to_set()) =~= globals_used(a).to_set());
    } else {
        let c = a + b;
        assert(c.drop_last() =~= a + b.drop_last());
        assert(c.last() == b.last());
        law_globals_of_concatenation(a, b.drop_last());
        lemma_globals_step_set(c);
        lemma_globals_step_set(b);
        assert(globals_used(c).to_set() =~= globals_used(a).to_set().union(globals_used(b).to_set()));
    }
}

/// Adding one instruction adds its global, if it names one, to the set.
proof fn lemma_globals_step_set(ops: Seq<OpCode>)
    requires
        ops.len() > 0,
    ensures
        globals_used(ops).to_set() == match op_global(ops.last()) {
            Some(g) => globals_used(ops.drop_last()).to_set().insert(g),
            None => globals_used(ops.drop_last()).to_set(),
        },
{
    let before = globals_used(ops.drop_last());
    match op_global(ops.last()) {
        Some(g) => {
            if before.contains(g) {
                assert(before.to_set().insert(g) =~= before.to_set());
            } else {
                assert forall|x: u32| before.push(g).to_set().contains(x) <==> before.to_set().insert(g).contains(x) by {
                    if before.push(g).contains(x) {
                        let k = choose|k: int| 0 <= k < before.push(g).len() && before.push(g)[k] == x;
                        if k < before.len() {
                            assert(before[k] == x);
                        }
                    }
                    if before.contains(x) {
                        let k = choose|k: int| 0 <= k < before.len() && before[k] == x;
                        assert(before.push(g)[k] == x);
                    }
                    assert(before.push(g)[before.len() as int] == g);
                }
                assert(before.push(g).to_set() =~= before.to_set().insert(g));
            }
        },
        None => {},
    }
}

} // verus!
