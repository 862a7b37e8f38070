//! Which local registers a chunk reads before anything in it writes them.
use vstd::prelude::*;
use crate::model::{MethodKind, OpCode};
use crate::regset::{reg_span, span_slot, mark, empty_flags, flags_to_sorted_vec};

verus! {

/// The register arithmetic of an instruction stays within `u8`: the argument
/// window of a call and the element window of a collection initialiser end at
/// or before register 255.
pub open spec fn op_windows_fit(op: OpCode) -> bool {
    match op {
        OpCode::Call { base, arg_count, .. }
        | OpCode::FiberCreate { base, arg_count, .. }
        | OpCode::MethodCall { base, arg_count, .. }
        | OpCode::MethodCallNamed { base, arg_count, .. }
        | OpCode::MethodCallCustom { base, arg_count, .. } => arg_count == 0 || base + arg_count <= 255,
        OpCode::ArrayInit { base, count, .. }
        | OpCode::SetInit { base, count, .. }
        | OpCode::MapInit { base, count, .. } => count == 0 || base + (if count > 256 { 255 } else { count - 1 }) <= 255,
        _ => true,
    }
}

/// Every instruction's register windows fit (see `op_windows_fit`).
pub open spec fn windows_fit(ops: Seq<OpCode>) -> bool {
    forall|i: int| 0 <= i < ops.len() ==> #[trigger] op_windows_fit(ops[i])
}

/// What one instruction does to locals, in order: the registers it reads first,
/// the registers it then writes, and the registers it reads after those writes.
pub open spec fn op_init_use(op: OpCode) -> (Set<u8>, Set<u8>, Set<u8>) {
    match op {
        OpCode::Move { dst, src } => (set![src], set![dst], Set::empty()),
        OpCode::LoadConst { dst, .. } => (Set::empty(), set![dst], Set::empty()),
        OpCode::Add { dst, src1, src2 }
        | OpCode::Sub { dst, src1, src2 }
        | OpCode::Mul { dst, src1, src2 }
        | OpCode::Div { dst, src1, src2 }
        | OpCode::Mod { dst, src1, src2 }
        | OpCode::Pow { dst, src1, src2 }
        | OpCode::Equal { dst, src1, src2 }
        | OpCode::NotEqual { dst, src1, src2 }
        | OpCode::Greater { dst, src1, src2 }
        | OpCode::Less { dst, src1, src2 }
        | OpCode::GreaterEqual { dst, src1, src2 }
        | OpCode::LessEqual { dst, src1, src2 }
        | OpCode::And { dst, src1, src2 }
        | OpCode::Or { dst, src1, src2 }
        | OpCode::IntConcat { dst, src1, src2 }
        | OpCode::Has { dst, src1, src2 }
        | OpCode::SetUnion { dst, src1, src2 }
        | OpCode::SetIntersection { dst, src1, src2 }
        | OpCode::SetDifference { dst, src1, src2 }
        | OpCode::SetSymDifference { dst, src1, src2 } => (set![src1, src2], set![dst], Set::empty()),
        OpCode::Not { dst, src }
        | OpCode::Neg { dst, src }
        | OpCode::CastInt { dst, src }
        | OpCode::CastFloat { dst, src }
        | OpCode::CastString { dst, src }
        | OpCode::CastBool { dst, src }
        | OpCode::EnvGet { dst, src } => (set![src], set![dst], Set::empty()),
        OpCode::GetVar { dst, .. }
        | OpCode::DateNow { dst }
        | OpCode::EnvArgs { dst }
        | OpCode::InputKeyWait { dst } => (Set::empty(), set![dst], Set::empty()),
        OpCode::Typeof { dst, src } => (set![src], set![dst], Set::empty()),
        OpCode::JsonParse { dst, src } => (set![src], set![dst], Set::empty()),
        OpCode::JsonFastGetPush { json_src, path_src, val_src } => (
            set![json_src, path_src, val_src],
            Set::empty(),
            Set::empty(),
        ),
        OpCode::HttpCall { dst, url_src, body_src, .. } => (
            set![url_src, body_src],
            set![dst],
            Set::empty(),
        ),
        OpCode::JumpIfFalse { src, .. }
        | OpCode::JumpIfTrue { src, .. }
        | OpCode::Return { src }
        | OpCode::Wait { src }
        | OpCode::Yield { src }
        | OpCode::HaltAlert { src }
        | OpCode::HaltError { src }
        | OpCode::HaltFatal { src }
        | OpCode::Print { src }
        | OpCode::StrAppendVar { src, .. } => (set![src], Set::empty(), Set::empty()),
        OpCode::StrAppendLocal { local_idx, src } => (
            set![local_idx, src],
            set![local_idx],
            Set::empty(),
        ),
        OpCode::IncLocal { reg } => (set![reg], set![reg], Set::empty()),
        OpCode::LoopNext { reg, limit_reg, .. }
        | OpCode::IncVarLoopNext { reg, limit_reg, .. }
        | OpCode::ArrayLoopNext { idx_reg: reg, size_reg: limit_reg, .. } => (
            set![reg, limit_reg],
            Set::empty(),
            Set::empty(),
        ),
        OpCode::IncLocalLoopNext { inc_reg, reg, limit_reg, .. } => (
            set![inc_reg],
            set![inc_reg],
            set![reg, limit_reg],
        ),
        OpCode::Call { dst, base, arg_count, .. }
        | OpCode::FiberCreate { dst, base, arg_count, .. }
        | OpCode::MethodCall { dst, base, arg_count, .. }
        | OpCode::MethodCallNamed { dst, base, arg_count, .. }
        | OpCode::MethodCallCustom { dst, base, arg_count, .. } => (
            set![base].union(reg_span(base + 1, arg_count as int)),
            set![dst],
            Set::empty(),
        ),
        OpCode::ArrayInit { dst, base, count }
        | OpCode::SetInit { dst, base, count }
        | OpCode::MapInit { dst, base, count } => (
            reg_span(base as int, count as int),
            set![dst],
            Set::empty(),
        ),
        OpCode::BoolArrayInit { dst } => (Set::empty(), set![dst], Set::empty()),
        OpCode::GetIndex { dst, container, index } => (
            set![container, index],
            set![dst],
            Set::empty(),
        ),
        OpCode::SetIndex { container, index, src }
        | OpCode::StrAppendElement { container, index, src } => (
            set![container, index, src],
            Set::empty(),
            Set::empty(),
        ),
        OpCode::GetMember { dst, container, .. } => (set![container], set![dst], Set::empty()),
        OpCode::SetMember { container, src, .. }
        | OpCode::StrAppendMember { container, src, .. } => (
            set![container, src],
            Set::empty(),
            Set::empty(),
        ),
        OpCode::TableIter { tbl_reg, idx_reg, row_reg, limit_reg, .. } => (
            set![tbl_reg, idx_reg],
            set![row_reg, limit_reg],
            Set::empty(),
        ),
        OpCode::TerminalWrite { dst, src } => (set![src], set![dst], Set::empty()),
        _ => (Set::empty(), Set::empty(), Set::empty()),
    }
}

/// The registers written so far and the registers found read before any write,
/// after one more instruction.
pub open spec fn init_step(st: (Set<u8>, Set<u8>), op: OpCode) -> (Set<u8>, Set<u8>) {
    let (before, writes, after) = op_init_use(op);
    (
        st.0.union(writes),
        st.1.union(before.difference(st.0)).union(after.difference(st.0.union(writes))),
    )
}

/// The registers written and the registers read before any write, after `ops`,
/// when the first `arity` registers hold the arguments.
pub open spec fn init_scan(ops: Seq<OpCode>, arity: u8) -> (Set<u8>, Set<u8>)
    decreases ops.len(),
{
    if ops.len() == 0 {
        (Set::new(|r: u8| r < arity), Set::empty())
    } else {
        init_step(init_scan(ops.drop_last(), arity), ops.last())
    }
}

fn note_read(written: &[bool; 256], needs: &mut [bool; 256], r: u8)
    ensures
        forall|x: u8|
            #![trigger final(needs)@[x as int]]
            final(needs)@[x as int] == (old(needs)@[x as int] || (x == r && !written@[x as int])),
{
    if !written[r as usize] {
        mark(needs, r);
    }
}

fn note_read_span(written: &[bool; 256], needs: &mut [bool; 256], start: u64, len: u64)
    requires
        len == 0 || start + (if len > 256 { 255 } else { len - 1 }) <= 255,
    ensures
        forall|x: u8|
            #![trigger final(needs)@[x as int]]
            final(needs)@[x as int] == (old(needs)@[x as int] || (reg_span(start as int, len as int).contains(x)
                && !written@[x as int])),
{
    let bound: u64 = if len < 256 { len } else { 256 };
    let mut i: u64 = 0;
    while i < bound
        invariant
            i <= bound,
            bound <= len,
            bound <= 256,
            len >= 256 ==> bound == 256,
            len == 0 || start + (if len > 256 { 255 } else { len - 1 }) <= 255,
            forall|x: u8|
                #![trigger needs@[x as int]]
                needs@[x as int] == (old(needs)@[x as int] || (reg_span(start as int, i as int).contains(x)
                    && !written@[x as int])),
        decreases bound - i,
    {
        let r: u8 = ((start + i) % 256) as u8;
        proof {
            assert forall|x: u8| reg_span(start as int, (i + 1) as int).contains(x)
                == (reg_span(start as int, i as int).contains(x) || x == r) by {
                if reg_span(start as int, (i + 1) as int).contains(x) {
                    let j = choose|j: int| 0 <= j < i + 1 && x as int == crate::regset::span_slot(start as int, j);
                    if j < i {
                        assert(reg_span(start as int, i as int).contains(x));
                    }
                }
                if x == r {
                    assert(x as int == crate::regset::span_slot(start as int, i as int));
                }
                if reg_span(start as int, i as int).contains(x) {
                    let j = choose|j: int| 0 <= j < i && x as int == crate::regset::span_slot(start as int, j);
                    assert(0 <= j < i + 1);
                }
            }
        }
        note_read(written, needs, r);
        i = i + 1;
    }
    proof {
        if len > 256 {
            assert forall|x: u8| reg_span(start as int, len as int).contains(x)
                implies reg_span(start as int, 256).contains(x) by {
                let j: int = if (x as int) >= (start as int) % 256 { x as int - (start as int) % 256 } else {
                    x as int + 256 - (start as int) % 256
                };
                assert(0 <= j < 256);
                assert(x as int == crate::regset::span_slot(start as int, j));
            }
            assert forall|x: u8| reg_span(start as int, 256).contains(x)
                implies reg_span(start as int, len as int).contains(x) by {
                let j = choose|j: int| 0 <= j < 256 && x as int == crate::regset::span_slot(start as int, j);
                assert(0 <= j < len);
            }
        }
    }
}

/// Applies one instruction to the written and read-before-written flags.
fn scan_op_init(written: &mut [bool; 256], needs: &mut [bool; 256], op: &OpCode)
    requires
        op_windows_fit(*op),
    ensures
        forall|x: u8|
            #![trigger final(written)@[x as int]]
            final(written)@[x as int] == (old(written)@[x as int] || op_init_use(*op).1.contains(x)),
        forall|x: u8|
            #![trigger final(needs)@[x as int]]
            final(needs)@[x as int] == (old(needs)@[x as int] || (op_init_use(*op).0.contains(x)
                && !old(written)@[x as int]) || (op_init_use(*op).2.contains(x) && !old(
                written,
            )@[x as int] && !op_init_use(*op).1.contains(x))),
{
    match *op {
        OpCode::Move { dst, src } => {
            note_read(written, needs, src);
            mark(written, dst);
        },
        OpCode::LoadConst { dst, .. } => mark(written, dst),
        OpCode::Add { dst, src1, src2 }
        | OpCode::Sub { dst, src1, src2 }
        | OpCode::Mul { dst, src1, src2 }
        | OpCode::Div { dst, src1, src2 }
        | OpCode::Mod { dst, src1, src2 }
        | OpCode::Pow { dst, src1, src2 }
        | OpCode::Equal { dst, src1, src2 }
        | OpCode::NotEqual { dst, src1, src2 }
        | OpCode::Greater { dst, src1, src2 }
        | OpCode::Less { dst, src1, src2 }
        | OpCode::GreaterEqual { dst, src1, src2 }
        | OpCode::LessEqual { dst, src1, src2 }
        | OpCode::And { dst, src1, src2 }
        | OpCode::Or { dst, src1, src2 }
        | OpCode::IntConcat { dst, src1, src2 }
        | OpCode::Has { dst, src1, src2 }
        | OpCode::SetUnion { dst, src1, src2 }
        | OpCode::SetIntersection { dst, src1, src2 }
        | OpCode::SetDifference { dst, src1, src2 }
        | OpCode::SetSymDifference { dst, src1, src2 } => {
            note_read(written, needs, src1);
            note_read(written, needs, src2);
            mark(written, dst);
        },
        OpCode::Not { dst, src }
        | OpCode::Neg { dst, src }
        | OpCode::CastInt { dst, src }
        | OpCode::CastFloat { dst, src }
        | OpCode::CastString { dst, src }
        | OpCode::CastBool { dst, src }
        | OpCode::EnvGet { dst, src } => {
            note_read(written, needs, src);
            mark(written, dst);
        },
        OpCode::GetVar { dst, .. }
        | OpCode::DateNow { dst }
        | OpCode::EnvArgs { dst }
        | OpCode::InputKeyWait { dst } => mark(written, dst),
        OpCode::Typeof { dst, src } | OpCode::JsonParse { dst, src } => {
            note_read(written, needs, src);
            mark(written, dst);
        },
        OpCode::JsonFastGetPush { json_src, path_src, val_src } => {
            note_read(written, needs, json_src);
            note_read(written, needs, path_src);
            note_read(written, needs, val_src);
        },
        OpCode::HttpCall { dst, url_src, body_src, .. } => {
            note_read(written, needs, url_src);
            note_read(written, needs, body_src);
            mark(written, dst);
        },
        OpCode::JumpIfFalse { src, .. }
        | OpCode::JumpIfTrue { src, .. }
        | OpCode::Return { src }
        | OpCode::Wait { src }
        | OpCode::Yield { src }
        | OpCode::HaltAlert { src }
        | OpCode::HaltError { src }
        | OpCode::HaltFatal { src }
        | OpCode::Print { src }
        | OpCode::StrAppendVar { src, .. } => note_read(written, needs, src),
        OpCode::StrAppendLocal { local_idx, src } => {
            note_read(written, needs, local_idx);
            note_read(written, needs, src);
            mark(written, local_idx);
        },
        OpCode::IncLocal { reg } => {
            note_read(written, needs, reg);
            mark(written, reg);
        },
        OpCode::LoopNext { reg, limit_reg, .. }
        | OpCode::IncVarLoopNext { reg, limit_reg, .. }
        | OpCode::ArrayLoopNext { idx_reg: reg, size_reg: limit_reg, .. } => {
            note_read(written, needs, reg);
            note_read(written, needs, limit_reg);
        },
        OpCode::IncLocalLoopNext { inc_reg, reg, limit_reg, .. } => {
            note_read(written, needs, inc_reg);
            mark(written, inc_reg);
            note_read(written, needs, reg);
            note_read(written, needs, limit_reg);
        },
        OpCode::Call { dst, base, arg_count, .. }
        | OpCode::FiberCreate { dst, base, arg_count, .. }
        | OpCode::MethodCall { dst, base, arg_count, .. }
        | OpCode::MethodCallNamed { dst, base, arg_count, .. }
        | OpCode::MethodCallCustom { dst, base, arg_count, .. } => {
            note_read(written, needs, base);
            note_read_span(written, needs, base as u64 + 1, arg_count as u64);
            mark(written, dst);
        },
        OpCode::ArrayInit { dst, base, count }
        | OpCode::SetInit { dst, base, count }
        | OpCode::MapInit { dst, base, count } => {
            note_read_span(written, needs, base as u64, count as u64);
            mark(written, dst);
        },
        OpCode::BoolArrayInit { dst } => mark(written, dst),
        OpCode::GetIndex { dst, container, index } => {
            note_read(written, needs, container);
            note_read(written, needs, index);
            mark(written, dst);
        },
        OpCode::SetIndex { container, index, src }
        | OpCode::StrAppendElement { container, index, src } => {
            note_read(written, needs, container);
            note_read(written, needs, index);
            note_read(written, needs, src);
        },
        OpCode::GetMember { dst, container, .. } => {
            note_read(written, needs, container);
            mark(written, dst);
        },
        OpCode::SetMember { container, src, .. }
        | OpCode::StrAppendMember { container, src, .. } => {
            note_read(written, needs, container);
            note_read(written, needs, src);
        },
        OpCode::TableIter { tbl_reg, idx_reg, row_reg, limit_reg, .. } => {
            note_read(written, needs, tbl_reg);
            note_read(written, needs, idx_reg);
            mark(written, row_reg);
            mark(written, limit_reg);
        },
        OpCode::TerminalWrite { dst, src } => {
            note_read(written, needs, src);
            mark(written, dst);
        },
        _ => {},
    }
}

/// The local registers that `bytecode` reads before anything in it writes them,
/// the first `arity` registers counting as written by the caller; in ascending order.
pub fn analyze_chunk_locals_init(bytecode: &[OpCode], arity: u8) -> (needs_init: Vec<u8>)
    requires
        windows_fit(bytecode@),
    ensures
        forall|i: int, j: int| 0 <= i < j < needs_init@.len() ==> needs_init@[i] < needs_init@[j],
        forall|r: u8| needs_init@.contains(r) <==> init_scan(bytecode@, arity).1.contains(r),
{
    let mut written = empty_flags();
    let mut needs = empty_flags();
    let mut a: u8 = 0;
    while a < arity
        invariant
            a <= arity,
            forall|x: u8| #![trigger written@[x as int]] written@[x as int] == (x < a),
            forall|x: u8| #![trigger needs@[x as int]] !needs@[x as int],
        decreases arity - a,
    {
        mark(&mut written, a);
        a = a + 1;
    }
    let mut k: usize = 0;
    while k < bytecode.len()
        invariant
            k <= bytecode@.len(),
            windows_fit(bytecode@),
            forall|x: u8| #![trigger written@[x as int]]
                written@[x as int] == init_scan(bytecode@.take(k as int), arity).0.contains(x),
            forall|x: u8| #![trigger needs@[x as int]]
                needs@[x as int] == init_scan(bytecode@.take(k as int), arity).1.contains(x),
        decreases bytecode@.len() - k,
    {
        assert(bytecode@.take(k as int + 1).drop_last() =~= bytecode@.take(k as int));
        assert(op_windows_fit(bytecode@[k as int]));
        scan_op_init(&mut written, &mut needs, &bytecode[k]);
        k = k + 1;
    }
    assert(bytecode@.take(k as int) =~= bytecode@);
    flags_to_sorted_vec(&needs)
}

} // verus!

verus! {

/// Law: the registers each instruction reads before it writes, the registers it
/// writes, and the registers it reads after writing (an element read reads the
/// container and the index, then writes its destination; a loop step reads its
/// counter and limit; ...).
pub proof fn law_instruction_reads_and_writes_1(d: u8, d2: u8, d3: u8, i: u32)
    ensures
        op_init_use(OpCode::Move { dst: d2, src: d }) == (set![d], set![d2], Set::<u8>::empty()),
        op_init_use(OpCode::LoadConst { dst: d, idx: i }) == (Set::<u8>::empty(), set![d], Set::<u8>::empty()),
        op_init_use(OpCode::Add { dst: d3, src1: d, src2: d2 }) == (set![d, d2], set![d3], Set::<u8>::empty()),
        op_init_use(OpCode::Sub { dst: d3, src1: d, src2: d2 }) == (set![d, d2], set![d3], Set::<u8>::empty()),
        op_init_use(OpCode::Mul { dst: d3, src1: d, src2: d2 }) == (set![d, d2], set![d3], Set::<u8>::empty()),
        op_init_use(OpCode::Div { dst: d3, src1: d, src2: d2 }) == (set![d, d2], set![d3], Set::<u8>::empty()),
        op_init_use(OpCode::Mod { dst: d3, src1: d, src2: d2 }) == (set![d, d2], set![d3], Set::<u8>::empty()),
        op_init_use(OpCode::Pow { dst: d3, src1: d, src2: d2 }) == (set![d, d2], set![d3], Set::<u8>::empty()),
        op_init_use(OpCode::Equal { dst: d3, src1: d, src2: d2 }) == (set![d, d2], set![d3], Set::<u8>::empty()),
        op_init_use(OpCode::NotEqual { dst: d3, src1: d, src2: d2 }) == (set![d, d2], set![d3], Set::<u8>::empty()),
        op_init_use(OpCode::Greater { dst: d3, src1: d, src2: d2 }) == (set![d, d2], set![d3], Set::<u8>::empty()),
        op_init_use(OpCode::Less { dst: d3, src1: d, src2: d2 }) == (set![d, d2], set![d3], Set::<u8>::empty()),
        op_init_use(OpCode::GreaterEqual { dst: d3, src1: d, src2: d2 }) == (set![d, d2], set![d3], Set::<u8>::empty()),
        op_init_use(OpCode::LessEqual { dst: d3, src1: d, src2: d2 }) == (set![d, d2], set![d3], Set::<u8>::empty()),
        op_init_use(OpCode::And { dst: d3, src1: d, src2: d2 }) == (set![d, d2], set![d3], Set::<u8>::empty()),
        op_init_use(OpCode::Or { dst: d3, src1: d, src2: d2 }) == (set![d, d2], set![d3], Set::<u8>::empty()),
        op_init_use(OpCode::IntConcat { dst: d3, src1: d, src2: d2 }) == (set![d, d2], set![d3], Set::<u8>::empty()),
        op_init_use(OpCode::Has { dst: d3, src1: d, src2: d2 }) == (set![d, d2], set![d3], Set::<u8>::empty()),
        op_init_use(OpCode::SetUnion { dst: d3, src1: d, src2: d2 }) == (set![d, d2], set![d3], Set::<u8>::empty()),
        op_init_use(OpCode::SetIntersection { dst: d3, src1: d, src2: d2 }) == (set![d, d2], set![d3], Set::<u8>::empty()),
        op_init_use(OpCode::SetDifference { dst: d3, src1: d, src2: d2 }) == (set![d, d2], set![d3], Set::<u8>::empty()),
        op_init_use(OpCode::SetSymDifference { dst: d3, src1: d, src2: d2 }) == (set![d, d2], set![d3], Set::<u8>::empty()),
        op_init_use(OpCode::Not { dst: d2, src: d }) == (set![d], set![d2], Set::<u8>::empty()),
        op_init_use(OpCode::Neg { dst: d2, src: d }) == (set![d], set![d2], Set::<u8>::empty()),
{
}

/// Law: the registers each instruction reads before it writes, the registers it
/// writes, and the registers it reads after writing (an element read reads the
/// container and the index, then writes its destination; a loop step reads its
/// counter and limit; ...).
pub proof fn law_instruction_reads_and_writes_2(d: u8, d2: u8, d3: u8, i: u32)
    ensures
        op_init_use(OpCode::CastInt { dst: d2, src: d }) == (set![d], set![d2], Set::<u8>::empty()),
        op_init_use(OpCode::CastFloat { dst: d2, src: d }) == (set![d], set![d2], Set::<u8>::empty()),
        op_init_use(OpCode::CastString { dst: d2, src: d }) == (set![d], set![d2], Set::<u8>::empty()),
        op_init_use(OpCode::CastBool { dst: d2, src: d }) == (set![d], set![d2], Set::<u8>::empty()),
        op_init_use(OpCode::EnvGet { dst: d2, src: d }) == (set![d], set![d2], Set::<u8>::empty()),
        op_init_use(OpCode::GetVar { dst: d, idx: i }) == (Set::<u8>::empty(), set![d], Set::<u8>::empty()),
        op_init_use(OpCode::DateNow { dst: d }) == (Set::<u8>::empty(), set![d], Set::<u8>::empty()),
        op_init_use(OpCode::EnvArgs { dst: d }) == (Set::<u8>::empty(), set![d], Set::<u8>::empty()),
        op_init_use(OpCode::InputKeyWait { dst: d }) == (Set::<u8>::empty(), set![d], Set::<u8>::empty()),
        op_init_use(OpCode::Typeof { dst: d2, src: d }) == (set![d], set![d2], Set::<u8>::empty()),
        op_init_use(OpCode::JsonParse { dst: d2, src: d }) == (set![d], set![d2], Set::<u8>::empty()),
        op_init_use(OpCode::JsonFastGetPush { json_src: d, path_src: d2, val_src: d3 }) == (set![d, d2, d3], Set::<u8>::empty(), Set::<u8>::empty()),
        op_init_use(OpCode::HttpCall { dst: d3, method_idx: i, url_src: d, body_src: d2 }) == (set![d, d2], set![d3], Set::<u8>::empty()),
        op_init_use(OpCode::JumpIfFalse { src: d, target: i }) == (set![d], Set::<u8>::empty(), Set::<u8>::empty()),
        op_init_use(OpCode::JumpIfTrue { src: d, target: i }) == (set![d], Set::<u8>::empty(), Set::<u8>::empty()),
        op_init_use(OpCode::Return { src: d }) == (set![d], Set::<u8>::empty(), Set::<u8>::empty()),
        op_init_use(OpCode::Wait { src: d }) == (set![d], Set::<u8>::empty(), Set::<u8>::empty()),
        op_init_use(OpCode::Yield { src: d }) == (set![d], Set::<u8>::empty(), Set::<u8>::empty()),
        op_init_use(OpCode::HaltAlert { src: d }) == (set![d], Set::<u8>::empty(), Set::<u8>::empty()),
        op_init_use(OpCode::HaltError { src: d }) == (set![d], Set::<u8>::empty(), Set::<u8>::empty()),
        op_init_use(OpCode::HaltFatal { src: d }) == (set![d], Set::<u8>::empty(), Set::<u8>::empty()),
        op_init_use(OpCode::Print { src: d }) == (set![d], Set::<u8>::empty(), Set::<u8>::empty()),
        op_init_use(OpCode::StrAppendVar { var_idx: i, src: d }) == (set![d], Set::<u8>::empty(), Set::<u8>::empty()),
        op_init_use(OpCode::StrAppendLocal { local_idx: d, src: d2 }) == (set![d, d2], set![d], Set::<u8>::empty()),
{
}

/// Law: the registers each instruction reads before it writes, the registers it
/// writes, and the registers it reads after writing (an element read reads the
/// container and the index, then writes its destination; a loop step reads its
/// counter and limit; ...).
pub proof fn law_instruction_reads_and_writes_3(d: u8, d2: u8, d3: u8, d4: u8, i: u32, j: u32)
    ensures
        op_init_use(OpCode::IncLocal { reg: d }) == (set![d], set![d], Set::<u8>::empty()),
        op_init_use(OpCode::LoopNext { reg: d, limit_reg: d2, target: i }) == (set![d, d2], Set::<u8>::empty(), Set::<u8>::empty()),
        op_init_use(OpCode::IncVarLoopNext { g_idx: i, reg: d, limit_reg: d2, target: j }) == (set![d, d2], Set::<u8>::empty(), Set::<u8>::empty()),
        op_init_use(OpCode::ArrayLoopNext { idx_reg: d, size_reg: d2, target: i }) == (set![d, d2], Set::<u8>::empty(), Set::<u8>::empty()),
        op_init_use(OpCode::IncLocalLoopNext { inc_reg: d, reg: d2, limit_reg: d3, target: i }) == (set![d], set![d], set![d2, d3]),
        op_init_use(OpCode::BoolArrayInit { dst: d }) == (Set::<u8>::empty(), set![d], Set::<u8>::empty()),
        op_init_use(OpCode::GetIndex { dst: d3, container: d, index: d2 }) == (set![d, d2], set![d3], Set::<u8>::empty()),
        op_init_use(OpCode::SetIndex { container: d, index: d2, src: d3 }) == (set![d, d2, d3], Set::<u8>::empty(), Set::<u8>::empty()),
        op_init_use(OpCode::StrAppendElement { container: d, index: d2, src: d3 }) == (set![d, d2, d3], Set::<u8>::empty(), Set::<u8>::empty()),
        op_init_use(OpCode::GetMember { dst: d2, container: d, name_idx: i }) == (set![d], set![d2], Set::<u8>::empty()),
        op_init_use(OpCode::SetMember { container: d, name_idx: i, src: d2 }) == (set![d, d2], Set::<u8>::empty(), Set::<u8>::empty()),
        op_init_use(OpCode::StrAppendMember { container: d, name_idx: i, src: d2 }) == (set![d, d2], Set::<u8>::empty(), Set::<u8>::empty()),
        op_init_use(OpCode::TableIter { tbl_reg: d, idx_reg: d2, row_reg: d3, limit_reg: d4, target: i }) == (set![d, d2], set![d3, d4], Set::<u8>::empty()),
        op_init_use(OpCode::TerminalWrite { dst: d2, src: d }) == (set![d], set![d2], Set::<u8>::empty()),
{
}

/// Law: every other instruction reads and writes no register that needs to be
/// initialised.
pub proof fn law_other_instructions_touch_no_register_1(a: u8, b: u8, c: u8, e: u8, x: u8, i: u32, j: u32, m: u32)
    ensures
        op_init_use(OpCode::SetVar { idx: i, src: a }) == (Set::<u8>::empty(), Set::<u8>::empty(), Set::<u8>::empty()),
        op_init_use(OpCode::IncVar { idx: i }) == (Set::<u8>::empty(), Set::<u8>::empty(), Set::<u8>::empty()),
        op_init_use(OpCode::DecVar { idx: i }) == (Set::<u8>::empty(), Set::<u8>::empty(), Set::<u8>::empty()),
        op_init_use(OpCode::DecLocal { reg: a }) == (Set::<u8>::empty(), Set::<u8>::empty(), Set::<u8>::empty()),
        op_init_use(OpCode::Jump { target: i }) == (Set::<u8>::empty(), Set::<u8>::empty(), Set::<u8>::empty()),
        op_init_use(OpCode::LoopPrev { reg: a, limit_reg: b, target: i }) == (Set::<u8>::empty(), Set::<u8>::empty(), Set::<u8>::empty()),
        op_init_use(OpCode::DecLocalLoopPrev { dec_reg: a, reg: b, limit_reg: c, target: i }) == (Set::<u8>::empty(), Set::<u8>::empty(), Set::<u8>::empty()),
        op_init_use(OpCode::DecVarLoopPrev { g_idx: i, reg: a, limit_reg: b, target: j }) == (Set::<u8>::empty(), Set::<u8>::empty(), Set::<u8>::empty()),
        op_init_use(OpCode::ReturnVoid) == (Set::<u8>::empty(), Set::<u8>::empty(), Set::<u8>::empty()),
        op_init_use(OpCode::Halt) == (Set::<u8>::empty(), Set::<u8>::empty(), Set::<u8>::empty()),
        op_init_use(OpCode::YieldVoid) == (Set::<u8>::empty(), Set::<u8>::empty(), Set::<u8>::empty()),
        op_init_use(OpCode::YieldWithTarget { dst: a, src: b }) == (Set::<u8>::empty(), Set::<u8>::empty(), Set::<u8>::empty()),
        op_init_use(OpCode::Input { dst: a }) == (Set::<u8>::empty(), Set::<u8>::empty(), Set::<u8>::empty()),
        op_init_use(OpCode::MakeClosure { dst: a, capture_start: b, capture_count: c }) == (Set::<u8>::empty(), Set::<u8>::empty(), Set::<u8>::empty()),
        op_init_use(OpCode::SetRange { dst: a, start: b, end: c, step: e, has_step: x }) == (Set::<u8>::empty(), Set::<u8>::empty(), Set::<u8>::empty()),
        op_init_use(OpCode::TableInit { dst: a, skeleton_idx: i, base: b, row_count: j, col_count: m }) == (Set::<u8>::empty(), Set::<u8>::empty(), Set::<u8>::empty()),
        op_init_use(OpCode::TableBegin { dst: a }) == (Set::<u8>::empty(), Set::<u8>::empty(), Set::<u8>::empty()),
        op_init_use(OpCode::TableInitRow { tbl_dst: a, base: b, col_count: i }) == (Set::<u8>::empty(), Set::<u8>::empty(), Set::<u8>::empty()),
        op_init_use(OpCode::TablePushRow { tbl_reg: a, row_reg: b }) == (Set::<u8>::empty(), Set::<u8>::empty(), Set::<u8>::empty()),
        op_init_use(OpCode::TableCloneSkeleton { dst: a, src: b }) == (Set::<u8>::empty(), Set::<u8>::empty(), Set::<u8>::empty()),
        op_init_use(OpCode::RowGet { dst: a, row_reg: b, col_idx: i }) == (Set::<u8>::empty(), Set::<u8>::empty(), Set::<u8>::empty()),
        op_init_use(OpCode::SetName { src: a }) == (Set::<u8>::empty(), Set::<u8>::empty(), Set::<u8>::empty()),
        op_init_use(OpCode::RandomInt { dst: a, min: b, max: c, step: e, has_step: x }) == (Set::<u8>::empty(), Set::<u8>::empty(), Set::<u8>::empty()),
        op_init_use(OpCode::RandomFloat { dst: a, min: b, max: c, step: e, has_step: x }) == (Set::<u8>::empty(), Set::<u8>::empty(), Set::<u8>::empty()),
{
}

/// Law: every other instruction reads and writes no register that needs to be
/// initialised.
pub proof fn law_other_instructions_touch_no_register_2(a: u8, b: u8, c: u8, e: u8, i: u32)
    ensures
        op_init_use(OpCode::RandomChoice { dst: a, src: b }) == (Set::<u8>::empty(), Set::<u8>::empty(), Set::<u8>::empty()),
        op_init_use(OpCode::PerfMs { dst: a }) == (Set::<u8>::empty(), Set::<u8>::empty(), Set::<u8>::empty()),
        op_init_use(OpCode::PerfUs { dst: a }) == (Set::<u8>::empty(), Set::<u8>::empty(), Set::<u8>::empty()),
        op_init_use(OpCode::PerfNs { dst: a }) == (Set::<u8>::empty(), Set::<u8>::empty(), Set::<u8>::empty()),
        op_init_use(OpCode::JsonBind { idx: i, json_src: a, path_src: b }) == (Set::<u8>::empty(), Set::<u8>::empty(), Set::<u8>::empty()),
        op_init_use(OpCode::JsonBindLocal { dst: a, json_src: b, path_src: c }) == (Set::<u8>::empty(), Set::<u8>::empty(), Set::<u8>::empty()),
        op_init_use(OpCode::JsonInject { table_idx: i, json_src: a, mapping_src: b }) == (Set::<u8>::empty(), Set::<u8>::empty(), Set::<u8>::empty()),
        op_init_use(OpCode::JsonInjectLocal { table_reg: a, json_src: b, mapping_src: c }) == (Set::<u8>::empty(), Set::<u8>::empty(), Set::<u8>::empty()),
        op_init_use(OpCode::HttpRequest { dst: a, arg_src: b }) == (Set::<u8>::empty(), Set::<u8>::empty(), Set::<u8>::empty()),
        op_init_use(OpCode::HttpRespond { dst: a, status_src: b, body_src: c, headers_src: e }) == (Set::<u8>::empty(), Set::<u8>::empty(), Set::<u8>::empty()),
        op_init_use(OpCode::HttpServe { func_idx: i, port_src: a, host_src: b, workers_src: c, routes_src: e }) == (Set::<u8>::empty(), Set::<u8>::empty(), Set::<u8>::empty()),
        op_init_use(OpCode::CryptoHash { dst: a, pass_src: b, alg_src: c }) == (Set::<u8>::empty(), Set::<u8>::empty(), Set::<u8>::empty()),
        op_init_use(OpCode::CryptoVerify { dst: a, pass_src: b, hash_src: c, alg_src: e }) == (Set::<u8>::empty(), Set::<u8>::empty(), Set::<u8>::empty()),
        op_init_use(OpCode::CryptoToken { dst: a, len_src: b }) == (Set::<u8>::empty(), Set::<u8>::empty(), Set::<u8>::empty()),
        op_init_use(OpCode::DatabaseInit { dst: a, engine_src: b, path_src: c, tables_base_reg: e, table_count: i }) == (Set::<u8>::empty(), Set::<u8>::empty(), Set::<u8>::empty()),
        op_init_use(OpCode::StoreWrite { dst: a, base: b }) == (Set::<u8>::empty(), Set::<u8>::empty(), Set::<u8>::empty()),
        op_init_use(OpCode::StoreRead { dst: a, base: b }) == (Set::<u8>::empty(), Set::<u8>::empty(), Set::<u8>::empty()),
        op_init_use(OpCode::StoreAppend { dst: a, base: b }) == (Set::<u8>::empty(), Set::<u8>::empty(), Set::<u8>::empty()),
        op_init_use(OpCode::StoreExists { dst: a, base: b }) == (Set::<u8>::empty(), Set::<u8>::empty(), Set::<u8>::empty()),
        op_init_use(OpCode::StoreDelete { dst: a, base: b }) == (Set::<u8>::empty(), Set::<u8>::empty(), Set::<u8>::empty()),
        op_init_use(OpCode::StoreList { dst: a, base: b }) == (Set::<u8>::empty(), Set::<u8>::empty(), Set::<u8>::empty()),
        op_init_use(OpCode::StoreIsDir { dst: a, base: b }) == (Set::<u8>::empty(), Set::<u8>::empty(), Set::<u8>::empty()),
        op_init_use(OpCode::StoreSize { dst: a, base: b }) == (Set::<u8>::empty(), Set::<u8>::empty(), Set::<u8>::empty()),
        op_init_use(OpCode::StoreMkdir { dst: a, base: b }) == (Set::<u8>::empty(), Set::<u8>::empty(), Set::<u8>::empty()),
{
}

/// Law: every other instruction reads and writes no register that needs to be
/// initialised.
pub proof fn law_other_instructions_touch_no_register_3(a: u8, b: u8, c: u8, flag: bool)
    ensures
        op_init_use(OpCode::StoreGlob { dst: a, base: b }) == (Set::<u8>::empty(), Set::<u8>::empty(), Set::<u8>::empty()),
        op_init_use(OpCode::StoreZip { dst: a, base: b }) == (Set::<u8>::empty(), Set::<u8>::empty(), Set::<u8>::empty()),
        op_init_use(OpCode::StoreUnzip { dst: a, base: b }) == (Set::<u8>::empty(), Set::<u8>::empty(), Set::<u8>::empty()),
        op_init_use(OpCode::TerminalExit { dst: a }) == (Set::<u8>::empty(), Set::<u8>::empty(), Set::<u8>::empty()),
        op_init_use(OpCode::TerminalRun { dst: a, cmd_src: b }) == (Set::<u8>::empty(), Set::<u8>::empty(), Set::<u8>::empty()),
        op_init_use(OpCode::TerminalClear { dst: a }) == (Set::<u8>::empty(), Set::<u8>::empty(), Set::<u8>::empty()),
        op_init_use(OpCode::TerminalRaw { dst: a }) == (Set::<u8>::empty(), Set::<u8>::empty(), Set::<u8>::empty()),
        op_init_use(OpCode::TerminalNormal { dst: a }) == (Set::<u8>::empty(), Set::<u8>::empty(), Set::<u8>::empty()),
        op_init_use(OpCode::TerminalCursor { dst: a, on: flag }) == (Set::<u8>::empty(), Set::<u8>::empty(), Set::<u8>::empty()),
        op_init_use(OpCode::TerminalMove { dst: a, x_src: b, y_src: c }) == (Set::<u8>::empty(), Set::<u8>::empty(), Set::<u8>::empty()),
        op_init_use(OpCode::InputKey { dst: a }) == (Set::<u8>::empty(), Set::<u8>::empty(), Set::<u8>::empty()),
        op_init_use(OpCode::InputReady { dst: a }) == (Set::<u8>::empty(), Set::<u8>::empty(), Set::<u8>::empty()),
{
}

/// Law: a call reads its base register and the argument registers after it,
/// then writes its destination (for a window that does not wrap).
pub proof fn law_call_reads_its_window(d: u8, a: u8, b: u8, i: u32, r: u8)
    requires
        a + b <= 255,
    ensures
        op_init_use(OpCode::Call { dst: d, func_idx: i, base: a, arg_count: b }).0.contains(r) <==> a <= r <= a + b,
        op_init_use(OpCode::Call { dst: d, func_idx: i, base: a, arg_count: b }).1 == set![d],
        op_init_use(OpCode::Call { dst: d, func_idx: i, base: a, arg_count: b }).2 == Set::<u8>::empty(),
{
    let reads = op_init_use(OpCode::Call { dst: d, func_idx: i, base: a, arg_count: b }).0;
    if a < r && r <= a + b {
        assert(span_slot(a + 1, r - a - 1) == r as int);
        assert(reg_span(a + 1, b as int).contains(r));
    }
    if reads.contains(r) && r != a {
        let k = choose|k: int| 0 <= k < b && r as int == #[trigger] span_slot(a + 1, k);
        assert(r as int == a + 1 + k);
    }
}

/// Law: an array, set or map built from a window of registers reads that
/// window, then writes its destination (for a window that does not wrap).
pub proof fn law_init_reads_its_window(d: u8, a: u8, n: u32, r: u8)
    requires
        a + n <= 256,
    ensures
        op_init_use(OpCode::ArrayInit { dst: d, base: a, count: n }).0.contains(r) <==> a <= r < a + n,
        op_init_use(OpCode::ArrayInit { dst: d, base: a, count: n }).1 == set![d],
        op_init_use(OpCode::SetInit { dst: d, base: a, count: n }).0 == op_init_use(
            OpCode::ArrayInit { dst: d, base: a, count: n },
        ).0,
        op_init_use(OpCode::MapInit { dst: d, base: a, count: n }).0 == op_init_use(
            OpCode::ArrayInit { dst: d, base: a, count: n },
        ).0,
{
    let reads = op_init_use(OpCode::ArrayInit { dst: d, base: a, count: n }).0;
    if a <= r < a + n {
        assert(span_slot(a as int, r - a) == r as int);
        assert(reads.contains(r));
    }
    if reads.contains(r) {
        let k = choose|k: int| 0 <= k < n && r as int == #[trigger] span_slot(a as int, k);
        assert(r as int == a + k);
    }
}

/// Law: a register that an instruction reads before writing, that is not an
/// argument and that no earlier instruction writes, is reported as needing
/// initialisation.
pub proof fn law_unwritten_reads_need_init(ops: Seq<OpCode>, arity: u8, k: int, r: u8)
    requires
        0 <= k < ops.len(),
        op_init_use(ops[k]).0.contains(r),
        !init_scan(ops.take(k), arity).0.contains(r),
    ensures
        init_scan(ops, arity).1.contains(r),
    decreases ops.len() - k,
{
    lemma_needs_grow(ops, arity, k + 1);
    assert(ops.take(k + 1).drop_last() =~= ops.take(k));
}

proof fn lemma_needs_grow(ops: Seq<OpCode>, arity: u8, j: int)
    requires
        0 <= j <= ops.len(),
    ensures
        init_scan(ops.take(j), arity).1.subset_of(init_scan(ops, arity).1),
    decreases ops.len() - j,
{
    if j < ops.len() {
        lemma_needs_grow(ops, arity, j + 1);
        assert(ops.take(j + 1).drop_last() =~= ops.take(j));
    } else {
        assert(ops.take(j) =~= ops);
    }
}

} // verus!
