//! Which registers may hold a heap pointer at the start of each instruction:
//! the least solution of the pointer dataflow over the chunk's control flow.
use vstd::prelude::*;
use std::collections::{HashSet, VecDeque};
use crate::model::{MethodKind, OpCode, Value};
use crate::nonptr::count_set;

verus! {

broadcast use vstd::std_specs::hash::group_hash_axioms;

/// Bit `reg % 64` of word `reg / 64`: whether `reg` may hold a pointer in `st`.
pub open spec fn ptr_bit(st: [u64; 4], reg: u8) -> bool {
    (st[(reg / 64) as int] >> ((reg % 64) as u64)) & 1u64 == 1u64
}

/// The registers whose bit is set in `st`.
pub open spec fn bits_of(st: [u64; 4]) -> Set<u8> {
    Set::new(|r: u8| ptr_bit(st, r))
}

proof fn lemma_bit_test(w: u64, k: u64)
    by (bit_vector)
    requires
        k < 64,
    ensures
        ((w & (1u64 << k)) != 0) == (((w >> k) & 1u64) == 1u64),
{
}

proof fn lemma_bit_or(w: u64, k: u64, j: u64)
    by (bit_vector)
    requires
        k < 64,
        j < 64,
    ensures
        ((((w | (1u64 << k)) >> j) & 1u64) == 1u64) == (j == k || (((w >> j) & 1u64) == 1u64)),
{
}

proof fn lemma_bit_and_not(w: u64, k: u64, j: u64)
    by (bit_vector)
    requires
        k < 64,
        j < 64,
    ensures
        ((((w & !(1u64 << k)) >> j) & 1u64) == 1u64) == (j != k && (((w >> j) & 1u64) == 1u64)),
{
}

/// Whether `reg` may hold a pointer in `st`.
pub fn get_ptr_bit(st: &[u64; 4], reg: u8) -> (b: bool)
    ensures
        b == ptr_bit(*st, reg),
{
    proof {
        lemma_bit_test(st[(reg / 64) as int], (reg % 64) as u64);
    }
    (st[(reg / 64) as usize] & (1u64 << (reg % 64))) != 0
}

/// Records whether `reg` may hold a pointer; the other registers keep their bits.
pub fn set_ptr_bit(st: &mut [u64; 4], reg: u8, val: bool)
    ensures
        forall|r: u8|
            #![trigger ptr_bit(*final(st), r)]
            ptr_bit(*final(st), r) == if r == reg {
                val
            } else {
                ptr_bit(*old(st), r)
            },
{
    let i: usize = (reg / 64) as usize;
    let mask: u64 = 1u64 << (reg % 64);
    let word = st[i];
    if val {
        st[i] = word | mask;
    } else {
        st[i] = word & !mask;
    }
    proof {
        assert forall|r: u8| #![trigger ptr_bit(*st, r)] ptr_bit(*st, r) == if r == reg {
            val
        } else {
            ptr_bit(*old(st), r)
        } by {
            if r / 64 == reg / 64 {
                if val {
                    lemma_bit_or(word, (reg % 64) as u64, (r % 64) as u64);
                } else {
                    lemma_bit_and_not(word, (reg % 64) as u64, (r % 64) as u64);
                }
            }
        }
    }
}

/// `s` with `r` added when `b` holds and removed otherwise.
pub open spec fn assign(s: Set<u8>, r: u8, b: bool) -> Set<u8> {
    if b {
        s.insert(r)
    } else {
        s.remove(r)
    }
}

fn assign_bit(st: &mut [u64; 4], reg: u8, val: bool)
    ensures
        bits_of(*final(st)) == assign(bits_of(*old(st)), reg, val),
{
    set_ptr_bit(st, reg, val);
    assert(bits_of(*st) =~= assign(bits_of(*old(st)), reg, val));
}

/// The register an instruction leaves a scalar (non-pointer) in.
pub open spec fn scalar_write(op: OpCode) -> Option<u8> {
    match op {
        OpCode::Add { dst, .. }
        | OpCode::Sub { dst, .. }
        | OpCode::Mul { dst, .. }
        | OpCode::Div { dst, .. }
        | OpCode::Mod { dst, .. }
        | OpCode::Pow { dst, .. }
        | OpCode::Equal { dst, .. }
        | OpCode::NotEqual { dst, .. }
        | OpCode::Greater { dst, .. }
        | OpCode::Less { dst, .. }
        | OpCode::GreaterEqual { dst, .. }
        | OpCode::LessEqual { dst, .. }
        | OpCode::And { dst, .. }
        | OpCode::Or { dst, .. }
        | OpCode::Not { dst, .. }
        | OpCode::Has { dst, .. }
        | OpCode::Neg { dst, .. }
        | OpCode::CastInt { dst, .. }
        | OpCode::CastFloat { dst, .. }
        | OpCode::CastBool { dst, .. }
        | OpCode::RandomInt { dst, .. } => Some(dst),
        OpCode::IncLocal { reg }
        | OpCode::DecLocal { reg }
        | OpCode::IncLocalLoopNext { inc_reg: reg, .. }
        | OpCode::DecLocalLoopPrev { dec_reg: reg, .. } => Some(reg),
        OpCode::LoopNext { reg, .. } | OpCode::LoopPrev { reg, .. } => Some(reg),
        OpCode::IncVarLoopNext { reg, .. } | OpCode::DecVarLoopPrev { reg, .. } => Some(reg),
        OpCode::ArrayLoopNext { idx_reg, .. } => Some(idx_reg),
        _ => None,
    }
}

/// The register an instruction may leave a heap pointer in.
pub open spec fn heap_write(op: OpCode) -> Option<u8> {
    match op {
        OpCode::Input { dst, .. }
        | OpCode::TerminalExit { dst }
        | OpCode::TerminalRun { dst, .. }
        | OpCode::TerminalClear { dst }
        | OpCode::TerminalRaw { dst }
        | OpCode::TerminalNormal { dst }
        | OpCode::TerminalCursor { dst, .. }
        | OpCode::TerminalMove { dst, .. }
        | OpCode::TerminalWrite { dst, .. }
        | OpCode::InputKey { dst }
        | OpCode::InputKeyWait { dst }
        | OpCode::InputReady { dst }
        | OpCode::Call { dst, .. }
        | OpCode::SetName { src: dst }
        | OpCode::EnvGet { dst, .. }
        | OpCode::EnvArgs { dst }
        | OpCode::CryptoHash { dst, .. }
        | OpCode::CryptoVerify { dst, .. }
        | OpCode::CryptoToken { dst, .. }
        | OpCode::CastString { dst, .. }
        | OpCode::ArrayInit { dst, .. }
        | OpCode::BoolArrayInit { dst }
        | OpCode::SetInit { dst, .. }
        | OpCode::MapInit { dst, .. }
        | OpCode::TableInit { dst, .. }
        | OpCode::MethodCall { dst, .. }
        | OpCode::MethodCallCustom { dst, .. }
        | OpCode::SetUnion { dst, .. }
        | OpCode::SetIntersection { dst, .. }
        | OpCode::SetDifference { dst, .. }
        | OpCode::SetSymDifference { dst, .. }
        | OpCode::RandomChoice { dst, .. }
        | OpCode::IntConcat { dst, .. }
        | OpCode::SetRange { dst, .. }
        | OpCode::RandomFloat { dst, .. }
        | OpCode::StoreWrite { dst, .. }
        | OpCode::StoreRead { dst, .. }
        | OpCode::StoreAppend { dst, .. }
        | OpCode::StoreExists { dst, .. }
        | OpCode::StoreDelete { dst, .. }
        | OpCode::StoreList { dst, .. }
        | OpCode::StoreIsDir { dst, .. }
        | OpCode::StoreSize { dst, .. }
        | OpCode::StoreMkdir { dst, .. }
        | OpCode::StoreGlob { dst, .. }
        | OpCode::StoreZip { dst, .. }
        | OpCode::StoreUnzip { dst, .. }
        | OpCode::JsonParse { dst, .. }
        | OpCode::DateNow { dst }
        | OpCode::JsonBindLocal { dst, .. }
        | OpCode::JsonInjectLocal { table_reg: dst, .. }
        | OpCode::FiberCreate { dst, .. }
        | OpCode::YieldWithTarget { dst, .. }
        | OpCode::HttpCall { dst, .. }
        | OpCode::HttpRequest { dst, .. }
        | OpCode::HttpRespond { dst, .. }
        | OpCode::DatabaseInit { dst, .. }
        | OpCode::MethodCallNamed { dst, .. }
        | OpCode::MakeClosure { dst, .. }
        | OpCode::Typeof { dst, .. }
        | OpCode::GetIndex { dst, .. }
        | OpCode::GetMember { dst, .. }
        | OpCode::RowGet { dst, .. }
        | OpCode::TableCloneSkeleton { dst, .. } => Some(dst),
        OpCode::StrAppendLocal { local_idx, .. } => Some(local_idx),
        _ => None,
    }
}

/// The registers that may hold a pointer after `op`, from those before it.
pub open spec fn ptr_transfer(op: OpCode, s: Set<u8>, global_ints: Set<u32>, constants: Seq<Value>) -> Set<u8> {
    match op {
        OpCode::Move { dst, src } => assign(s, dst, s.contains(src)),
        OpCode::LoadConst { dst, idx } => assign(
            s,
            dst,
            if (idx as int) < constants.len() {
                constants[idx as int].ptr
            } else {
                true
            },
        ),
        OpCode::GetVar { dst, idx } => assign(s, dst, !global_ints.contains(idx)),
        OpCode::TableIter { idx_reg, row_reg, .. } => assign(assign(s, idx_reg, false), row_reg, true),
        _ => match scalar_write(op) {
            Some(d) => assign(s, d, false),
            None => match heap_write(op) {
                Some(d) => assign(s, d, true),
                None => s,
            },
        },
    }
}

/// The instructions that control may reach next from instruction `ip`.
pub open spec fn ptr_succs(op: OpCode, ip: int) -> Seq<int> {
    match op {
        OpCode::Jump { target } => seq![target as int],
        OpCode::JumpIfFalse { target, .. } | OpCode::JumpIfTrue { target, .. } => seq![target as int, ip + 1],
        OpCode::LoopNext { target, .. }
        | OpCode::LoopPrev { target, .. }
        | OpCode::IncLocalLoopNext { target, .. }
        | OpCode::DecLocalLoopPrev { target, .. }
        | OpCode::IncVarLoopNext { target, .. }
        | OpCode::DecVarLoopPrev { target, .. }
        | OpCode::ArrayLoopNext { target, .. }
        | OpCode::TableIter { target, .. } => seq![target as int, ip + 1],
        OpCode::Return { .. } | OpCode::ReturnVoid | OpCode::Halt => seq![],
        _ => seq![ip + 1],
    }
}

/// `v` holds the entry, where there is one, and every successor within the
/// chunk of each instruction that it holds.
pub open spec fn reach_closed(ops: Seq<OpCode>, v: Set<int>) -> bool {
    &&& ops.len() > 0 ==> v.contains(0)
    &&& forall|ip: int, j: int|
        #![trigger v.contains(ip), ptr_succs(ops[ip], ip)[j]]
        v.contains(ip) && 0 <= ip < ops.len() && 0 <= j < ptr_succs(ops[ip], ip).len() && 0
            <= ptr_succs(ops[ip], ip)[j] < ops.len() ==> v.contains(ptr_succs(ops[ip], ip)[j])
}

/// Control can reach instruction `ip` from the entry: it lies in every set
/// that holds the entry and is closed under successors.
pub open spec fn reachable(ops: Seq<OpCode>, ip: int) -> bool {
    forall|v: Set<int>| #[trigger] reach_closed(ops, v) ==> v.contains(ip)
}

/// The entry is reachable, and so is each successor of a reachable instruction.
proof fn lemma_reach_step(ops: Seq<OpCode>, ip: int, j: int)
    requires
        0 <= ip < ops.len(),
        reachable(ops, ip),
        0 <= j < ptr_succs(ops[ip], ip).len(),
        0 <= ptr_succs(ops[ip], ip)[j] < ops.len(),
    ensures
        reachable(ops, ptr_succs(ops[ip], ip)[j]),
{
    assert forall|v: Set<int>| #[trigger] reach_closed(ops, v) implies v.contains(ptr_succs(ops[ip], ip)[j]) by {
        assert(v.contains(ip));
    }
}

/// Instruction `ip`'s constraint holds where control can reach it: what may
/// hold a pointer after it may hold one at each of its successors within the
/// chunk.
pub open spec fn ptr_node_ok(
    ops: Seq<OpCode>,
    global_ints: Set<u32>,
    constants: Seq<Value>,
    s: Seq<Set<u8>>,
    ip: int,
) -> bool {
    reachable(ops, ip) ==> forall|j: int|
        #![trigger ptr_succs(ops[ip], ip)[j]]
        0 <= j < ptr_succs(ops[ip], ip).len() && 0 <= ptr_succs(ops[ip], ip)[j] < ops.len()
            ==> ptr_transfer(ops[ip], s[ip], global_ints, constants).subset_of(
            s[ptr_succs(ops[ip], ip)[j]],
        )
}

/// Every successor within the chunk of instruction `q` has been seen.
pub open spec fn succs_seen(ops: Seq<OpCode>, seen: Seq<bool>, q: int) -> bool {
    forall|j: int|
        #![trigger ptr_succs(ops[q], q)[j]]
        0 <= j < ptr_succs(ops[q], q).len() && 0 <= ptr_succs(ops[q], q)[j] < ops.len() ==> seen[ptr_succs(
            ops[q],
            q,
        )[j]]
}

/// `s` assigns every instruction a register set that all constraints respect.
pub open spec fn ptr_solution(ops: Seq<OpCode>, global_ints: Set<u32>, constants: Seq<Value>, s: Seq<Set<u8>>) -> bool {
    &&& s.len() == ops.len()
    &&& forall|ip: int| 0 <= ip < ops.len() ==> #[trigger] ptr_node_ok(ops, global_ints, constants, s, ip)
}

/// `a` is below `b` at every instruction.
pub open spec fn pointwise_subset(a: Seq<Set<u8>>, b: Seq<Set<u8>>) -> bool {
    forall|ip: int| 0 <= ip < a.len() ==> #[trigger] a[ip].subset_of(b[ip])
}

/// The register sets that the bit words stand for.
pub open spec fn ptr_view(state: Seq<[u64; 4]>) -> Seq<Set<u8>> {
    Seq::new(state.len(), |ip: int| bits_of(state[ip]))
}

proof fn lemma_transfer_monotone(op: OpCode, a: Set<u8>, b: Set<u8>, global_ints: Set<u32>, constants: Seq<Value>)
    requires
        a.subset_of(b),
    ensures
        ptr_transfer(op, a, global_ints, constants).subset_of(ptr_transfer(op, b, global_ints, constants)),
{
}

/// The 256 flags of a word set.
pub open spec fn bit_seq(w: [u64; 4]) -> Seq<bool> {
    Seq::new(256, |r: int| ptr_bit(w, r as u8))
}

/// The number of set bits in all words.
pub open spec fn total_bits(state: Seq<[u64; 4]>) -> nat
    decreases state.len(),
{
    if state.len() == 0 {
        0
    } else {
        total_bits(state.drop_last()) + count_set(bit_seq(state.last()))
    }
}

proof fn lemma_count_bound(flags: Seq<bool>)
    ensures
        count_set(flags) <= flags.len(),
    decreases flags.len(),
{
    if flags.len() > 0 {
        lemma_count_bound(flags.drop_last());
    }
}

proof fn lemma_count_mark(flags: Seq<bool>, i: int)
    requires
        0 <= i < flags.len(),
        !flags[i],
    ensures
        count_set(flags.update(i, true)) == count_set(flags) + 1,
    decreases flags.len(),
{
    let u = flags.update(i, true);
    if i == flags.len() - 1 {
        assert(u.drop_last() =~= flags.drop_last());
    } else {
        assert(u.drop_last() =~= flags.drop_last().update(i, true));
        lemma_count_mark(flags.drop_last(), i);
    }
}

proof fn lemma_total_bound(state: Seq<[u64; 4]>)
    ensures
        total_bits(state) <= 256 * state.len(),
    decreases state.len(),
{
    if state.len() > 0 {
        lemma_total_bound(state.drop_last());
        lemma_count_bound(bit_seq(state.last()));
    }
}

proof fn lemma_total_update(state: Seq<[u64; 4]>, i: int, w: [u64; 4])
    requires
        0 <= i < state.len(),
    ensures
        total_bits(state.update(i, w)) + count_set(bit_seq(state[i])) == total_bits(state) + count_set(
            bit_seq(w),
        ),
    decreases state.len(),
{
    let u = state.update(i, w);
    if i == state.len() - 1 {
        assert(u.drop_last() =~= state.drop_last());
    } else {
        assert(u.drop_last() =~= state.drop_last().update(i, w));
        lemma_total_update(state.drop_last(), i, w);
    }
}

/// Adds the bits of `next` to `w`; says whether any bit was new.
fn merge_bits(w: &mut [u64; 4], next: &[u64; 4]) -> (changed: bool)
    ensures
        bits_of(*final(w)) == bits_of(*old(w)).union(bits_of(*next)),
        changed == !bits_of(*next).subset_of(bits_of(*old(w))),
        changed ==> count_set(bit_seq(*final(w))) > count_set(bit_seq(*old(w))),
        !changed ==> *final(w) == *old(w),
{
    let ghost orig = *w;
    let mut changed = false;
    let mut r: u16 = 0;
    while r < 256
        invariant
            r <= 256,
            bits_of(*w) == bits_of(orig).union(bits_of(*next).filter(|x: u8| (x as int) < r)),
            changed == exists|x: u8| (x as int) < r && ptr_bit(*next, x) && !ptr_bit(orig, x),
            changed ==> count_set(bit_seq(*w)) > count_set(bit_seq(orig)),
            count_set(bit_seq(*w)) >= count_set(bit_seq(orig)),
            !changed ==> *w == orig,
        decreases 256 - r,
    {
        let reg: u8 = r as u8;
        let in_next = get_ptr_bit(next, reg);
        let in_w = get_ptr_bit(w, reg);
        let ghost before = *w;
        assert(bits_of(before).contains(reg) == in_w);
        assert(bits_of(*next).contains(reg) == in_next);
        if in_next && !in_w {
            set_ptr_bit(w, reg, true);
            proof {
                assert(bit_seq(*w) =~= bit_seq(before).update(reg as int, true));
                lemma_count_mark(bit_seq(before), reg as int);
                assert(!ptr_bit(orig, reg));
            }
            changed = true;
        }
        proof {
            assert forall|x: u8| bits_of(*w).contains(x) == (bits_of(orig).contains(x) || (bits_of(
                *next,
            ).contains(x) && (x as int) < r + 1)) by {
                assert(bits_of(before).contains(x) == (bits_of(orig).contains(x) || (bits_of(
                    *next,
                ).filter(|y: u8| (y as int) < r).contains(x))));
                if x == reg {
                } else {
                    assert(ptr_bit(*w, x) == ptr_bit(before, x));
                }
            }
            assert(bits_of(*w) =~= bits_of(orig).union(bits_of(*next).filter(|x: u8| (x as int) < r + 1)));
        }
        r = r + 1;
    }
    proof {
        assert(bits_of(*next).filter(|x: u8| (x as int) < 256) =~= bits_of(*next));
        if !changed {
            assert(bits_of(*next).subset_of(bits_of(orig)));
        } else {
            let x = choose|x: u8| (x as int) < r && ptr_bit(*next, x) && !ptr_bit(orig, x);
            assert(bits_of(*next).contains(x));
        }
    }
    changed
}

} // verus!

verus! {

fn scalar_write_exec(op: &OpCode) -> (d: Option<u8>)
    ensures
        d == scalar_write(*op),
{
    match *op {
        OpCode::Add { dst, .. }
        | OpCode::Sub { dst, .. }
        | OpCode::Mul { dst, .. }
        | OpCode::Div { dst, .. }
        | OpCode::Mod { dst, .. }
        | OpCode::Pow { dst, .. }
        | OpCode::Equal { dst, .. }
        | OpCode::NotEqual { dst, .. }
        | OpCode::Greater { dst, .. }
        | OpCode::Less { dst, .. }
        | OpCode::GreaterEqual { dst, .. }
        | OpCode::LessEqual { dst, .. }
        | OpCode::And { dst, .. }
        | OpCode::Or { dst, .. }
        | OpCode::Not { dst, .. }
        | OpCode::Has { dst, .. }
        | OpCode::Neg { dst, .. }
        | OpCode::CastInt { dst, .. }
        | OpCode::CastFloat { dst, .. }
        | OpCode::CastBool { dst, .. }
        | OpCode::RandomInt { dst, .. } => Some(dst),
        OpCode::IncLocal { reg }
        | OpCode::DecLocal { reg }
        | OpCode::IncLocalLoopNext { inc_reg: reg, .. }
        | OpCode::DecLocalLoopPrev { dec_reg: reg, .. } => Some(reg),
        OpCode::LoopNext { reg, .. } | OpCode::LoopPrev { reg, .. } => Some(reg),
        OpCode::IncVarLoopNext { reg, .. } | OpCode::DecVarLoopPrev { reg, .. } => Some(reg),
        OpCode::ArrayLoopNext { idx_reg, .. } => Some(idx_reg),
        _ => None,
    }
}

fn heap_write_exec(op: &OpCode) -> (d: Option<u8>)
    ensures
        d == heap_write(*op),
{
    match *op {
        OpCode::Input { dst, .. }
        | OpCode::TerminalExit { dst }
        | OpCode::TerminalRun { dst, .. }
        | OpCode::TerminalClear { dst }
        | OpCode::TerminalRaw { dst }
        | OpCode::TerminalNormal { dst }
        | OpCode::TerminalCursor { dst, .. }
        | OpCode::TerminalMove { dst, .. }
        | OpCode::TerminalWrite { dst, .. }
        | OpCode::InputKey { dst }
        | OpCode::InputKeyWait { dst }
        | OpCode::InputReady { dst }
        | OpCode::Call { dst, .. }
        | OpCode::SetName { src: dst }
        | OpCode::EnvGet { dst, .. }
        | OpCode::EnvArgs { dst }
        | OpCode::CryptoHash { dst, .. }
        | OpCode::CryptoVerify { dst, .. }
        | OpCode::CryptoToken { dst, .. }
        | OpCode::CastString { dst, .. }
        | OpCode::ArrayInit { dst, .. }
        | OpCode::BoolArrayInit { dst }
        | OpCode::SetInit { dst, .. }
        | OpCode::MapInit { dst, .. }
        | OpCode::TableInit { dst, .. }
        | OpCode::MethodCall { dst, .. }
        | OpCode::MethodCallCustom { dst, .. }
        | OpCode::SetUnion { dst, .. }
        | OpCode::SetIntersection { dst, .. }
        | OpCode::SetDifference { dst, .. }
        | OpCode::SetSymDifference { dst, .. }
        | OpCode::RandomChoice { dst, .. }
        | OpCode::IntConcat { dst, .. }
        | OpCode::SetRange { dst, .. }
        | OpCode::RandomFloat { dst, .. }
        | OpCode::StoreWrite { dst, .. }
        | OpCode::StoreRead { dst, .. }
        | OpCode::StoreAppend { dst, .. }
        | OpCode::StoreExists { dst, .. }
        | OpCode::StoreDelete { dst, .. }
        | OpCode::StoreList { dst, .. }
        | OpCode::StoreIsDir { dst, .. }
        | OpCode::StoreSize { dst, .. }
        | OpCode::StoreMkdir { dst, .. }
        | OpCode::StoreGlob { dst, .. }
        | OpCode::StoreZip { dst, .. }
        | OpCode::StoreUnzip { dst, .. }
        | OpCode::JsonParse { dst, .. }
        | OpCode::DateNow { dst }
        | OpCode::JsonBindLocal { dst, .. }
        | OpCode::JsonInjectLocal { table_reg: dst, .. }
        | OpCode::FiberCreate { dst, .. }
        | OpCode::YieldWithTarget { dst, .. }
        | OpCode::HttpCall { dst, .. }
        | OpCode::HttpRequest { dst, .. }
        | OpCode::HttpRespond { dst, .. }
        | OpCode::DatabaseInit { dst, .. }
        | OpCode::MethodCallNamed { dst, .. }
        | OpCode::MakeClosure { dst, .. }
        | OpCode::Typeof { dst, .. }
        | OpCode::GetIndex { dst, .. }
        | OpCode::GetMember { dst, .. }
        | OpCode::RowGet { dst, .. }
        | OpCode::TableCloneSkeleton { dst, .. } => Some(dst),
        OpCode::StrAppendLocal { local_idx, .. } => Some(local_idx),
        _ => None,
    }
}

/// Applies one instruction's effect on pointer-holding registers.
fn transfer_bits(op: &OpCode, st: &mut [u64; 4], global_ints: &HashSet<u32>, constants: &[Value])
    ensures
        bits_of(*final(st)) == ptr_transfer(*op, bits_of(*old(st)), global_ints@, constants@),
{
    match *op {
        OpCode::Move { dst, src } => {
            let val = get_ptr_bit(st, src);
            assign_bit(st, dst, val);
        },
        OpCode::LoadConst { dst, idx } => {
            let is_ptr = if (idx as usize) < constants.len() {
                constants[idx as usize].is_ptr()
            } else {
                true
            };
            assign_bit(st, dst, is_ptr);
        },
        OpCode::GetVar { dst, idx } => {
            let is_ptr = !global_ints.contains(&idx);
            assign_bit(st, dst, is_ptr);
        },
        OpCode::TableIter { idx_reg, row_reg, .. } => {
            assign_bit(st, idx_reg, false);
            assign_bit(st, row_reg, true);
        },
        _ => {
            match scalar_write_exec(op) {
                Some(d) => assign_bit(st, d, false),
                None => match heap_write_exec(op) {
                    Some(d) => assign_bit(st, d, true),
                    None => {},
                },
            }
        },
    }
}

/// The successors of instruction `ip`, in the order the dataflow visits them.
fn successors(op: &OpCode, ip: usize) -> (succs: Vec<usize>)
    requires
        ip < usize::MAX,
    ensures
        succs@.len() == ptr_succs(*op, ip as int).len(),
        forall|j: int| 0 <= j < succs@.len() ==> succs@[j] as int == ptr_succs(*op, ip as int)[j],
{
    let mut succs: Vec<usize> = Vec::new();
    match *op {
        OpCode::Jump { target } => {
            succs.push(target as usize);
        },
        OpCode::JumpIfFalse { target, .. } | OpCode::JumpIfTrue { target, .. } => {
            succs.push(target as usize);
            succs.push(ip + 1);
        },
        OpCode::LoopNext { target, .. }
        | OpCode::LoopPrev { target, .. }
        | OpCode::IncLocalLoopNext { target, .. }
        | OpCode::DecLocalLoopPrev { target, .. }
        | OpCode::IncVarLoopNext { target, .. }
        | OpCode::DecVarLoopPrev { target, .. }
        | OpCode::ArrayLoopNext { target, .. }
        | OpCode::TableIter { target, .. } => {
            succs.push(target as usize);
            succs.push(ip + 1);
        },
        OpCode::Return { .. } | OpCode::ReturnVoid | OpCode::Halt => {},
        _ => {
            succs.push(ip + 1);
        },
    }
    succs
}

/// For every instruction, the registers that may hold a heap pointer when it
/// starts, along every control-flow path from the entry: the least
/// assignment that respects the constraint of every reachable instruction,
/// computed by a worklist that visits each reachable instruction at least
/// once and again whenever its set grows.
pub fn analyze_maybe_ptr_regs(bytecode: &[OpCode], global_ints: &HashSet<u32>, constants: &[Value]) -> (state: Vec<[u64; 4]>)
    ensures
        state@.len() == bytecode@.len(),
        ptr_solution(bytecode@, global_ints@, constants@, ptr_view(state@)),
        forall|s: Seq<Set<u8>>|
            #[trigger] ptr_solution(bytecode@, global_ints@, constants@, s) ==> pointwise_subset(
                ptr_view(state@),
                s,
            ),
{
    let n = bytecode.len();
    let ghost ops = bytecode@;
    let ghost gi = global_ints@;
    let ghost cs = constants@;
    let mut state: Vec<[u64; 4]> = vec![[0u64; 4]; n];
    let mut in_queue: Vec<bool> = vec![false; n];
    let mut seen: Vec<bool> = vec![false; n];
    let mut queue: VecDeque<usize> = VecDeque::new();
    proof {
        assert forall|ip: int| 0 <= ip < n implies bits_of(#[trigger] state@[ip]).is_empty() by {
            assert forall|r: u8| !bits_of(state@[ip]).contains(r) by {
                assert(state@[ip][(r / 64) as int] == 0u64);
                assert((0u64 >> ((r % 64) as u64)) & 1u64 == 0u64) by (bit_vector);
            }
            assert(bits_of(state@[ip]) =~= Set::empty());
        }
        assert forall|s: Seq<Set<u8>>| #[trigger] ptr_solution(ops, gi, cs, s) implies pointwise_subset(
            ptr_view(state@),
            s,
        ) by {
            assert forall|q: int| 0 <= q < n implies #[trigger] ptr_view(state@)[q].subset_of(s[q]) by {
                assert(ptr_view(state@)[q] == bits_of(state@[q]));
            }
        }
    }
    if n > 0 {
        queue.push_back(0);
        in_queue.set(0, true);
        seen.set(0, true);
    }
    proof {
        assert forall|q: int| 0 <= q < n implies (#[trigger] in_queue@[q] <==> queue@.contains(q as usize)) by {
            if q == 0 {
                assert(queue@[0] == 0usize);
            }
        }
        assert forall|q: int| 0 <= q < n && #[trigger] seen@[q] implies reachable(ops, q) by {
            assert(q == 0);
        }
    }
    while queue.len() > 0
        invariant
            n == bytecode@.len(),
            ops == bytecode@,
            gi == global_ints@,
            cs == constants@,
            state@.len() == n,
            in_queue@.len() == n,
            seen@.len() == n,
            queue@.no_duplicates(),
            forall|i: int| 0 <= i < queue@.len() ==> #[trigger] queue@[i] < n,
            forall|q: int| 0 <= q < n ==> (#[trigger] in_queue@[q] <==> queue@.contains(q as usize)),
            forall|q: int| 0 <= q < n && #[trigger] in_queue@[q] ==> seen@[q],
            forall|q: int| 0 <= q < n && #[trigger] seen@[q] ==> reachable(ops, q),
            forall|q: int|
                0 <= q < n && #[trigger] seen@[q] && !in_queue@[q] ==> succs_seen(ops, seen@, q)
                    && ptr_node_ok(ops, gi, cs, ptr_view(state@), q),
            n > 0 ==> seen@[0],
            forall|s: Seq<Set<u8>>|
                #[trigger] ptr_solution(ops, gi, cs, s) ==> pointwise_subset(ptr_view(state@), s),
        decreases 256 * n - total_bits(state@), n - count_set(seen@), queue@.len(),
    {
        proof {
            lemma_total_bound(state@);
            lemma_count_bound(seen@);
        }
        let ghost total_before = total_bits(state@);
        let ghost seen_before = count_set(seen@);
        let ghost queue_before = queue@;
        let ip = queue.pop_front().unwrap();
        assert(queue_before.contains(ip)) by {
            assert(queue_before[0] == ip);
        }
        proof {
            assert(!queue@.contains(ip)) by {
                if queue@.contains(ip) {
                    let i = choose|i: int| 0 <= i < queue@.len() && queue@[i] == ip;
                    assert(queue_before[i + 1] == ip);
                    assert(queue_before[0] == ip);
                }
            }
        }
        assert(in_queue@[ip as int]);
        assert(seen@[ip as int]);
        let ghost seen_at_pop = seen@;
        in_queue.set(ip, false);
        proof {
            assert forall|q: int| 0 <= q < n implies (#[trigger] in_queue@[q] <==> queue@.contains(q as usize)) by {
                if q != ip as int {
                    if queue_before.contains(q as usize) {
                        let i = choose|i: int| 0 <= i < queue_before.len() && queue_before[i] == q as usize;
                        assert(i != 0);
                        assert(queue@[i - 1] == q as usize);
                    }
                    if queue@.contains(q as usize) {
                        let i = choose|i: int| 0 <= i < queue@.len() && queue@[i] == q as usize;
                        assert(queue_before[i + 1] == q as usize);
                    }
                }
            }
        }
        let op = bytecode[ip];
        let mut next = state[ip];
        let ghost at_pop = state@;
        transfer_bits(&op, &mut next, global_ints, constants);
        let succs = successors(&op, ip);
        let mut j: usize = 0;
        while j < succs.len()
            invariant
                n == bytecode@.len(),
                ops == bytecode@,
                gi == global_ints@,
                cs == constants@,
                ip < n,
                at_pop.len() == n,
                op == ops[ip as int],
                reachable(ops, ip as int),
                seen@[ip as int],
                bits_of(next) == ptr_transfer(op, bits_of(at_pop[ip as int]), gi, cs),
                succs@.len() == ptr_succs(op, ip as int).len(),
                forall|k: int| 0 <= k < succs@.len() ==> succs@[k] as int == ptr_succs(op, ip as int)[k],
                j <= succs@.len(),
                state@.len() == n,
                in_queue@.len() == n,
                seen@.len() == n,
                queue@.no_duplicates(),
                forall|i: int| 0 <= i < queue@.len() ==> #[trigger] queue@[i] < n,
                forall|q: int| 0 <= q < n ==> (#[trigger] in_queue@[q] <==> queue@.contains(q as usize)),
                forall|q: int| 0 <= q < n && #[trigger] in_queue@[q] ==> seen@[q],
                forall|q: int| 0 <= q < n && #[trigger] seen@[q] ==> reachable(ops, q),
                forall|q: int| 0 <= q < n && #[trigger] seen_at_pop[q] ==> seen@[q],
                forall|q: int|
                    0 <= q < n && q != ip && #[trigger] seen@[q] && !in_queue@[q] ==> succs_seen(ops, seen@, q)
                        && ptr_node_ok(ops, gi, cs, ptr_view(state@), q),
                n > 0 ==> seen@[0],
                in_queue@[ip as int] || state@[ip as int] == at_pop[ip as int],
                forall|k: int|
                    0 <= k < j && 0 <= #[trigger] ptr_succs(op, ip as int)[k] < n ==> bits_of(next).subset_of(
                        bits_of(state@[ptr_succs(op, ip as int)[k]]),
                    ) && seen@[ptr_succs(op, ip as int)[k]],
                pointwise_subset(ptr_view(at_pop), ptr_view(state@)),
                forall|s: Seq<Set<u8>>|
                    #[trigger] ptr_solution(ops, gi, cs, s) ==> pointwise_subset(ptr_view(state@), s),
                total_bits(state@) >= total_before,
                count_set(seen@) >= seen_before,
                state@ != at_pop ==> total_bits(state@) > total_before,
                queue@.len() <= queue_before.len() - 1 || total_bits(state@) > total_before || count_set(seen@)
                    > seen_before,
            decreases succs@.len() - j,
        {
            let succ = succs[j];
            if succ < n {
                proof {
                    lemma_reach_step(ops, ip as int, j as int);
                }
                let ghost before = state@;
                let ghost seen_before_step = seen@;
                let mut w = state[succ];
                let changed = merge_bits(&mut w, &next);
                state.set(succ, w);
                let was_seen = seen[succ];
                if !was_seen {
                    seen.set(succ, true);
                    proof {
                        lemma_count_mark(seen_before_step, succ as int);
                    }
                }
                proof {
                    lemma_total_update(before, succ as int, w);
                    if !changed {
                        assert(state@ =~= before);
                    }
                    assert(ptr_view(state@)[succ as int] == bits_of(before[succ as int]).union(bits_of(next)));
                    assert forall|s: Seq<Set<u8>>| #[trigger] ptr_solution(ops, gi, cs, s) implies pointwise_subset(
                        ptr_view(state@),
                        s,
                    ) by {
                        assert(pointwise_subset(ptr_view(before), s));
                        assert(ptr_view(at_pop)[ip as int].subset_of(ptr_view(before)[ip as int]));
                        assert(ptr_view(before)[ip as int].subset_of(s[ip as int]));
                        assert(ptr_node_ok(ops, gi, cs, s, ip as int));
                        assert(bits_of(at_pop[ip as int]).subset_of(s[ip as int]));
                        lemma_transfer_monotone(op, bits_of(at_pop[ip as int]), s[ip as int], gi, cs);
                        assert(ptr_succs(op, ip as int)[j as int] == succ as int);
                        assert(bits_of(next).subset_of(s[succ as int]));
                        assert forall|q: int| 0 <= q < n implies #[trigger] ptr_view(state@)[q].subset_of(s[q]) by {
                            assert(ptr_view(before)[q].subset_of(s[q]));
                            if q != succ {
                                assert(ptr_view(state@)[q] == ptr_view(before)[q]);
                            }
                        }
                    }
                    assert(pointwise_subset(ptr_view(at_pop), ptr_view(state@))) by {
                        assert forall|q: int| 0 <= q < n implies #[trigger] ptr_view(at_pop)[q].subset_of(
                            ptr_view(state@)[q],
                        ) by {
                            assert(ptr_view(at_pop)[q].subset_of(ptr_view(before)[q]));
                        }
                    }
                }
                if (changed || !was_seen) && !in_queue[succ] {
                    let ghost qb = queue@;
                    queue.push_back(succ);
                    in_queue.set(succ, true);
                    proof {
                        assert forall|q: int| 0 <= q < n implies (#[trigger] in_queue@[q] <==> queue@.contains(q as usize)) by {
                            if queue@.contains(q as usize) {
                                let i = choose|i: int| 0 <= i < queue@.len() && queue@[i] == q as usize;
                                if i < qb.len() {
                                    assert(qb.contains(q as usize));
                                }
                            }
                            if q != succ && qb.contains(q as usize) {
                                let i = choose|i: int| 0 <= i < qb.len() && qb[i] == q as usize;
                                assert(queue@[i] == q as usize);
                            }
                            if q == succ {
                                assert(queue@[qb.len() as int] == succ);
                            }
                        }
                    }
                }
                proof {
                    assert forall|q: int|
                        0 <= q < n && q != ip && #[trigger] seen@[q] && !in_queue@[q] implies succs_seen(ops, seen@, q)
                            && ptr_node_ok(ops, gi, cs, ptr_view(state@), q) by {
                        if q == succ {
                            assert(was_seen);
                            assert(!changed);
                            assert(state@ =~= before);
                            assert(seen_before_step[q]);
                        } else {
                            assert(seen_before_step[q]);
                        }
                        assert(succs_seen(ops, seen_before_step, q));
                        assert(ptr_node_ok(ops, gi, cs, ptr_view(before), q));
                        assert forall|k: int|
                            #![trigger ptr_succs(ops[q], q)[k]]
                            0 <= k < ptr_succs(ops[q], q).len() && 0 <= ptr_succs(ops[q], q)[k] < ops.len()
                            implies seen@[ptr_succs(ops[q], q)[k]] by {
                            assert(seen_before_step[ptr_succs(ops[q], q)[k]]);
                        }
                        if q != succ && reachable(ops, q) {
                            assert(ptr_view(state@)[q] == ptr_view(before)[q]);
                            assert forall|k: int|
                                #![trigger ptr_succs(ops[q], q)[k]]
                                0 <= k < ptr_succs(ops[q], q).len() && 0 <= ptr_succs(ops[q], q)[k] < ops.len()
                                implies ptr_transfer(ops[q], ptr_view(state@)[q], gi, cs).subset_of(
                                ptr_view(state@)[ptr_succs(ops[q], q)[k]],
                            ) by {
                                let t = ptr_succs(ops[q], q)[k];
                                assert(ptr_view(before)[t].subset_of(ptr_view(state@)[t]));
                            }
                        }
                    }
                    if (succ as int) != (ip as int) {
                        assert(state@[ip as int] == before[ip as int]);
                    } else if !in_queue@[ip as int] {
                        assert(!changed);
                    }
                    assert forall|k: int|
                        0 <= k < j + 1 && 0 <= #[trigger] ptr_succs(op, ip as int)[k] < n implies bits_of(
                        next,
                    ).subset_of(bits_of(state@[ptr_succs(op, ip as int)[k]])) && seen@[ptr_succs(op, ip as int)[k]] by {
                        let t = ptr_succs(op, ip as int)[k];
                        if k < j {
                            assert(bits_of(before[t]).subset_of(bits_of(state@[t])));
                            assert(seen_before_step[t]);
                        } else {
                            assert(t == succ as int);
                        }
                    }
                    assert forall|q: int| 0 <= q < n && #[trigger] seen@[q] implies reachable(ops, q) by {
                        if q != succ {
                            assert(seen_before_step[q]);
                        }
                    }
                    assert forall|q: int| 0 <= q < n && #[trigger] seen_at_pop[q] implies seen@[q] by {
                        assert(seen_before_step[q]);
                    }
                }
            } else {
                proof {
                    assert forall|k: int|
                        0 <= k < j + 1 && 0 <= #[trigger] ptr_succs(op, ip as int)[k] < n implies bits_of(
                        next,
                    ).subset_of(bits_of(state@[ptr_succs(op, ip as int)[k]])) && seen@[ptr_succs(op, ip as int)[k]] by {
                        if k == j {
                            assert(ptr_succs(op, ip as int)[k] == succ as int);
                        }
                    }
                }
            }
            j = j + 1;
        }
        proof {
            lemma_total_bound(state@);
            lemma_count_bound(seen@);
            if !in_queue@[ip as int] {
                assert(ptr_view(state@)[ip as int] == bits_of(at_pop[ip as int]));
                assert(succs_seen(ops, seen@, ip as int));
                assert(ptr_node_ok(ops, gi, cs, ptr_view(state@), ip as int));
            }
        }
    }
    proof {
        let v = Set::new(|q: int| 0 <= q < n && seen@[q]);
        assert(reach_closed(ops, v)) by {
            assert forall|ip: int, j: int|
                #![trigger v.contains(ip), ptr_succs(ops[ip], ip)[j]]
                v.contains(ip) && 0 <= ip < ops.len() && 0 <= j < ptr_succs(ops[ip], ip).len() && 0
                    <= ptr_succs(ops[ip], ip)[j] < ops.len() implies v.contains(ptr_succs(ops[ip], ip)[j]) by {
                assert(!in_queue@[ip]);
                assert(succs_seen(ops, seen@, ip));
            }
        }
        assert forall|q: int| 0 <= q < n implies #[trigger] ptr_node_ok(ops, gi, cs, ptr_view(state@), q) by {
            if reachable(ops, q) {
                assert(v.contains(q));
                assert(!in_queue@[q]);
            }
        }
    }
    state
}

} // verus!

verus! {

/// Law: each instruction whose result may be a heap value (a call, a container, a
/// string, an element or member read, a runtime service's answer, ...) leaves its
/// destination among the registers that may hold a pointer, and changes no other.
pub proof fn law_heap_results_may_hold_pointers_1(s: Set<u8>, d: u8, a: u8, b: u8, c: u8, i: u32, flag: bool, gi: Set<u32>, cs: Seq<Value>)
    ensures
        ptr_transfer(OpCode::Input { dst: d }, s, gi, cs) == s.insert(d),
        ptr_transfer(OpCode::TerminalExit { dst: d }, s, gi, cs) == s.insert(d),
        ptr_transfer(OpCode::TerminalRun { dst: d, cmd_src: a }, s, gi, cs) == s.insert(d),
        ptr_transfer(OpCode::TerminalClear { dst: d }, s, gi, cs) == s.insert(d),
        ptr_transfer(OpCode::TerminalRaw { dst: d }, s, gi, cs) == s.insert(d),
        ptr_transfer(OpCode::TerminalNormal { dst: d }, s, gi, cs) == s.insert(d),
        ptr_transfer(OpCode::TerminalCursor { dst: d, on: flag }, s, gi, cs) == s.insert(d),
        ptr_transfer(OpCode::TerminalMove { dst: d, x_src: a, y_src: b }, s, gi, cs) == s.insert(d),
        ptr_transfer(OpCode::TerminalWrite { dst: d, src: a }, s, gi, cs) == s.insert(d),
        ptr_transfer(OpCode::InputKey { dst: d }, s, gi, cs) == s.insert(d),
        ptr_transfer(OpCode::InputKeyWait { dst: d }, s, gi, cs) == s.insert(d),
        ptr_transfer(OpCode::InputReady { dst: d }, s, gi, cs) == s.insert(d),
        ptr_transfer(OpCode::Call { dst: d, func_idx: i, base: a, arg_count: b }, s, gi, cs) == s.insert(d),
        ptr_transfer(OpCode::SetName { src: d }, s, gi, cs) == s.insert(d),
        ptr_transfer(OpCode::EnvGet { dst: d, src: a }, s, gi, cs) == s.insert(d),
        ptr_transfer(OpCode::EnvArgs { dst: d }, s, gi, cs) == s.insert(d),
        ptr_transfer(OpCode::CryptoHash { dst: d, pass_src: a, alg_src: b }, s, gi, cs) == s.insert(d),
        ptr_transfer(OpCode::CryptoVerify { dst: d, pass_src: a, hash_src: b, alg_src: c }, s, gi, cs) == s.insert(d),
        ptr_transfer(OpCode::CryptoToken { dst: d, len_src: a }, s, gi, cs) == s.insert(d),
        ptr_transfer(OpCode::CastString { dst: d, src: a }, s, gi, cs) == s.insert(d),
        ptr_transfer(OpCode::ArrayInit { dst: d, base: a, count: i }, s, gi, cs) == s.insert(d),
        ptr_transfer(OpCode::BoolArrayInit { dst: d }, s, gi, cs) == s.insert(d),
        ptr_transfer(OpCode::SetInit { dst: d, base: a, count: i }, s, gi, cs) == s.insert(d),
        ptr_transfer(OpCode::MapInit { dst: d, base: a, count: i }, s, gi, cs) == s.insert(d),
{
}

/// Law: each instruction whose result may be a heap value (a call, a container, a
/// string, an element or member read, a runtime service's answer, ...) leaves its
/// destination among the registers that may hold a pointer, and changes no other.
pub proof fn law_heap_results_may_hold_pointers_2(s: Set<u8>, d: u8, a: u8, b: u8, c: u8, e: u8, i: u32, j: u32, m: u32, kind: MethodKind, gi: Set<u32>, cs: Seq<Value>)
    ensures
        ptr_transfer(OpCode::TableInit { dst: d, skeleton_idx: i, base: a, row_count: j, col_count: m }, s, gi, cs) == s.insert(d),
        ptr_transfer(OpCode::MethodCall { dst: d, kind: kind, base: a, arg_count: b }, s, gi, cs) == s.insert(d),
        ptr_transfer(OpCode::MethodCallCustom { dst: d, method_name_idx: i, base: a, arg_count: b }, s, gi, cs) == s.insert(d),
        ptr_transfer(OpCode::SetUnion { dst: d, src1: a, src2: b }, s, gi, cs) == s.insert(d),
        ptr_transfer(OpCode::SetIntersection { dst: d, src1: a, src2: b }, s, gi, cs) == s.insert(d),
        ptr_transfer(OpCode::SetDifference { dst: d, src1: a, src2: b }, s, gi, cs) == s.insert(d),
        ptr_transfer(OpCode::SetSymDifference { dst: d, src1: a, src2: b }, s, gi, cs) == s.insert(d),
        ptr_transfer(OpCode::RandomChoice { dst: d, src: a }, s, gi, cs) == s.insert(d),
        ptr_transfer(OpCode::IntConcat { dst: d, src1: a, src2: b }, s, gi, cs) == s.insert(d),
        ptr_transfer(OpCode::SetRange { dst: d, start: a, end: b, step: c, has_step: e }, s, gi, cs) == s.insert(d),
        ptr_transfer(OpCode::RandomFloat { dst: d, min: a, max: b, step: c, has_step: e }, s, gi, cs) == s.insert(d),
        ptr_transfer(OpCode::StoreWrite { dst: d, base: a }, s, gi, cs) == s.insert(d),
        ptr_transfer(OpCode::StoreRead { dst: d, base: a }, s, gi, cs) == s.insert(d),
        ptr_transfer(OpCode::StoreAppend { dst: d, base: a }, s, gi, cs) == s.insert(d),
        ptr_transfer(OpCode::StoreExists { dst: d, base: a }, s, gi, cs) == s.insert(d),
        ptr_transfer(OpCode::StoreDelete { dst: d, base: a }, s, gi, cs) == s.insert(d),
        ptr_transfer(OpCode::StoreList { dst: d, base: a }, s, gi, cs) == s.insert(d),
        ptr_transfer(OpCode::StoreIsDir { dst: d, base: a }, s, gi, cs) == s.insert(d),
        ptr_transfer(OpCode::StoreSize { dst: d, base: a }, s, gi, cs) == s.insert(d),
        ptr_transfer(OpCode::StoreMkdir { dst: d, base: a }, s, gi, cs) == s.insert(d),
        ptr_transfer(OpCode::StoreGlob { dst: d, base: a }, s, gi, cs) == s.insert(d),
        ptr_transfer(OpCode::StoreZip { dst: d, base: a }, s, gi, cs) == s.insert(d),
        ptr_transfer(OpCode::StoreUnzip { dst: d, base: a }, s, gi, cs) == s.insert(d),
        ptr_transfer(OpCode::JsonParse { dst: d, src: a }, s, gi, cs) == s.insert(d),
{
}

/// Law: each instruction whose result may be a heap value (a call, a container, a
/// string, an element or member read, a runtime service's answer, ...) leaves its
/// destination among the registers that may hold a pointer, and changes no other.
pub proof fn law_heap_results_may_hold_pointers_3(s: Set<u8>, d: u8, a: u8, b: u8, c: u8, i: u32, kind: MethodKind, gi: Set<u32>, cs: Seq<Value>)
    ensures
        ptr_transfer(OpCode::DateNow { dst: d }, s, gi, cs) == s.insert(d),
        ptr_transfer(OpCode::JsonBindLocal { dst: d, json_src: a, path_src: b }, s, gi, cs) == s.insert(d),
        ptr_transfer(OpCode::JsonInjectLocal { table_reg: d, json_src: a, mapping_src: b }, s, gi, cs) == s.insert(d),
        ptr_transfer(OpCode::FiberCreate { dst: d, func_idx: i, base: a, arg_count: b }, s, gi, cs) == s.insert(d),
        ptr_transfer(OpCode::YieldWithTarget { dst: d, src: a }, s, gi, cs) == s.insert(d),
        ptr_transfer(OpCode::HttpCall { dst: d, method_idx: i, url_src: a, body_src: b }, s, gi, cs) == s.insert(d),
        ptr_transfer(OpCode::HttpRequest { dst: d, arg_src: a }, s, gi, cs) == s.insert(d),
        ptr_transfer(OpCode::HttpRespond { dst: d, status_src: a, body_src: b, headers_src: c }, s, gi, cs) == s.insert(d),
        ptr_transfer(OpCode::DatabaseInit { dst: d, engine_src: a, path_src: b, tables_base_reg: c, table_count: i }, s, gi, cs) == s.insert(d),
        ptr_transfer(OpCode::MethodCallNamed { dst: d, kind: kind, base: a, arg_count: b, names_idx: i }, s, gi, cs) == s.insert(d),
        ptr_transfer(OpCode::MakeClosure { dst: d, capture_start: a, capture_count: b }, s, gi, cs) == s.insert(d),
        ptr_transfer(OpCode::Typeof { dst: d, src: a }, s, gi, cs) == s.insert(d),
        ptr_transfer(OpCode::GetIndex { dst: d, container: a, index: b }, s, gi, cs) == s.insert(d),
        ptr_transfer(OpCode::GetMember { dst: d, container: a, name_idx: i }, s, gi, cs) == s.insert(d),
        ptr_transfer(OpCode::RowGet { dst: d, row_reg: a, col_idx: i }, s, gi, cs) == s.insert(d),
        ptr_transfer(OpCode::TableCloneSkeleton { dst: d, src: a }, s, gi, cs) == s.insert(d),
        ptr_transfer(OpCode::StrAppendLocal { local_idx: d, src: a }, s, gi, cs) == s.insert(d),
{
}

/// Law: each instruction whose result is a number or a boolean (arithmetic,
/// comparison, logic, casts to scalars, loop counters) takes its destination out of
/// the registers that may hold a pointer, and changes no other.
pub proof fn law_scalar_results_hold_no_pointer_1(s: Set<u8>, d: u8, a: u8, b: u8, c: u8, e: u8, i: u32, gi: Set<u32>, cs: Seq<Value>)
    ensures
        ptr_transfer(OpCode::Add { dst: d, src1: a, src2: b }, s, gi, cs) == s.remove(d),
        ptr_transfer(OpCode::Sub { dst: d, src1: a, src2: b }, s, gi, cs) == s.remove(d),
        ptr_transfer(OpCode::Mul { dst: d, src1: a, src2: b }, s, gi, cs) == s.remove(d),
        ptr_transfer(OpCode::Div { dst: d, src1: a, src2: b }, s, gi, cs) == s.remove(d),
        ptr_transfer(OpCode::Mod { dst: d, src1: a, src2: b }, s, gi, cs) == s.remove(d),
        ptr_transfer(OpCode::Pow { dst: d, src1: a, src2: b }, s, gi, cs) == s.remove(d),
        ptr_transfer(OpCode::Equal { dst: d, src1: a, src2: b }, s, gi, cs) == s.remove(d),
        ptr_transfer(OpCode::NotEqual { dst: d, src1: a, src2: b }, s, gi, cs) == s.remove(d),
        ptr_transfer(OpCode::Greater { dst: d, src1: a, src2: b }, s, gi, cs) == s.remove(d),
        ptr_transfer(OpCode::Less { dst: d, src1: a, src2: b }, s, gi, cs) == s.remove(d),
        ptr_transfer(OpCode::GreaterEqual { dst: d, src1: a, src2: b }, s, gi, cs) == s.remove(d),
        ptr_transfer(OpCode::LessEqual { dst: d, src1: a, src2: b }, s, gi, cs) == s.remove(d),
        ptr_transfer(OpCode::And { dst: d, src1: a, src2: b }, s, gi, cs) == s.remove(d),
        ptr_transfer(OpCode::Or { dst: d, src1: a, src2: b }, s, gi, cs) == s.remove(d),
        ptr_transfer(OpCode::Not { dst: d, src: a }, s, gi, cs) == s.remove(d),
        ptr_transfer(OpCode::Has { dst: d, src1: a, src2: b }, s, gi, cs) == s.remove(d),
        ptr_transfer(OpCode::Neg { dst: d, src: a }, s, gi, cs) == s.remove(d),
        ptr_transfer(OpCode::CastInt { dst: d, src: a }, s, gi, cs) == s.remove(d),
        ptr_transfer(OpCode::CastFloat { dst: d, src: a }, s, gi, cs) == s.remove(d),
        ptr_transfer(OpCode::CastBool { dst: d, src: a }, s, gi, cs) == s.remove(d),
        ptr_transfer(OpCode::RandomInt { dst: d, min: a, max: b, step: c, has_step: e }, s, gi, cs) == s.remove(d),
        ptr_transfer(OpCode::IncLocal { reg: d }, s, gi, cs) == s.remove(d),
        ptr_transfer(OpCode::DecLocal { reg: d }, s, gi, cs) == s.remove(d),
        ptr_transfer(OpCode::IncLocalLoopNext { inc_reg: d, reg: a, limit_reg: b, target: i }, s, gi, cs) == s.remove(d),
{
}

/// Law: each instruction whose result is a number or a boolean (arithmetic,
/// comparison, logic, casts to scalars, loop counters) takes its destination out of
/// the registers that may hold a pointer, and changes no other.
pub proof fn law_scalar_results_hold_no_pointer_2(s: Set<u8>, d: u8, a: u8, b: u8, i: u32, j: u32, gi: Set<u32>, cs: Seq<Value>)
    ensures
        ptr_transfer(OpCode::DecLocalLoopPrev { dec_reg: d, reg: a, limit_reg: b, target: i }, s, gi, cs) == s.remove(d),
        ptr_transfer(OpCode::LoopNext { reg: d, limit_reg: a, target: i }, s, gi, cs) == s.remove(d),
        ptr_transfer(OpCode::LoopPrev { reg: d, limit_reg: a, target: i }, s, gi, cs) == s.remove(d),
        ptr_transfer(OpCode::IncVarLoopNext { g_idx: i, reg: d, limit_reg: a, target: j }, s, gi, cs) == s.remove(d),
        ptr_transfer(OpCode::DecVarLoopPrev { g_idx: i, reg: d, limit_reg: a, target: j }, s, gi, cs) == s.remove(d),
        ptr_transfer(OpCode::ArrayLoopNext { idx_reg: d, size_reg: a, target: i }, s, gi, cs) == s.remove(d),
{
}

/// Law: a move copies whether its source may hold a pointer; a constant load
/// may leave a pointer unless the constant exists and is not one; a global read
/// may leave a pointer unless the global only holds integers.
pub proof fn law_copies_and_loads_follow_their_source(s: Set<u8>, d: u8, a: u8, i: u32, gi: Set<u32>, cs: Seq<Value>)
    ensures
        ptr_transfer(OpCode::Move { dst: d, src: a }, s, gi, cs) == (if s.contains(a) { s.insert(d) } else { s.remove(d) }),
        ptr_transfer(OpCode::LoadConst { dst: d, idx: i }, s, gi, cs) == (if (i as int) < cs.len() && !cs[i as int].ptr { s.remove(d) } else { s.insert(d) }),
        ptr_transfer(OpCode::GetVar { dst: d, idx: i }, s, gi, cs) == (if gi.contains(i) { s.remove(d) } else { s.insert(d) }),
{
}

/// Law: the table iteration makes its index a scalar and its row a possible
/// pointer; every instruction that writes no register changes nothing.
pub proof fn law_other_instructions_keep_pointer_sets_1(s: Set<u8>, d: u8, d2: u8, a: u8, b: u8, c: u8, i: u32, gi: Set<u32>, cs: Seq<Value>)
    ensures
        ptr_transfer(OpCode::IncVar { idx: i }, s, gi, cs) == s,
        ptr_transfer(OpCode::DecVar { idx: i }, s, gi, cs) == s,
        ptr_transfer(OpCode::TableIter { tbl_reg: a, idx_reg: d, row_reg: d2, limit_reg: b, target: i }, s, gi, cs) == s.remove(d).insert(d2),
        ptr_transfer(OpCode::SetVar { idx: i, src: a }, s, gi, cs) == s,
        ptr_transfer(OpCode::Jump { target: i }, s, gi, cs) == s,
        ptr_transfer(OpCode::JumpIfFalse { src: a, target: i }, s, gi, cs) == s,
        ptr_transfer(OpCode::JumpIfTrue { src: a, target: i }, s, gi, cs) == s,
        ptr_transfer(OpCode::Return { src: a }, s, gi, cs) == s,
        ptr_transfer(OpCode::ReturnVoid, s, gi, cs) == s,
        ptr_transfer(OpCode::Halt, s, gi, cs) == s,
        ptr_transfer(OpCode::Wait { src: a }, s, gi, cs) == s,
        ptr_transfer(OpCode::Yield { src: a }, s, gi, cs) == s,
        ptr_transfer(OpCode::YieldVoid, s, gi, cs) == s,
        ptr_transfer(OpCode::HaltAlert { src: a }, s, gi, cs) == s,
        ptr_transfer(OpCode::HaltError { src: a }, s, gi, cs) == s,
        ptr_transfer(OpCode::HaltFatal { src: a }, s, gi, cs) == s,
        ptr_transfer(OpCode::Print { src: a }, s, gi, cs) == s,
        ptr_transfer(OpCode::TableBegin { dst: a }, s, gi, cs) == s,
        ptr_transfer(OpCode::TableInitRow { tbl_dst: a, base: b, col_count: i }, s, gi, cs) == s,
        ptr_transfer(OpCode::TablePushRow { tbl_reg: a, row_reg: b }, s, gi, cs) == s,
        ptr_transfer(OpCode::SetIndex { container: a, index: b, src: c }, s, gi, cs) == s,
        ptr_transfer(OpCode::SetMember { container: a, name_idx: i, src: b }, s, gi, cs) == s,
        ptr_transfer(OpCode::StrAppendVar { var_idx: i, src: a }, s, gi, cs) == s,
        ptr_transfer(OpCode::StrAppendElement { container: a, index: b, src: c }, s, gi, cs) == s,
{
}

/// Law: the table iteration makes its index a scalar and its row a possible
/// pointer; every instruction that writes no register changes nothing.
pub proof fn law_other_instructions_keep_pointer_sets_2(s: Set<u8>, a: u8, b: u8, c: u8, e: u8, i: u32, gi: Set<u32>, cs: Seq<Value>)
    ensures
        ptr_transfer(OpCode::StrAppendMember { container: a, name_idx: i, src: b }, s, gi, cs) == s,
        ptr_transfer(OpCode::PerfMs { dst: a }, s, gi, cs) == s,
        ptr_transfer(OpCode::PerfUs { dst: a }, s, gi, cs) == s,
        ptr_transfer(OpCode::PerfNs { dst: a }, s, gi, cs) == s,
        ptr_transfer(OpCode::JsonFastGetPush { json_src: a, path_src: b, val_src: c }, s, gi, cs) == s,
        ptr_transfer(OpCode::JsonBind { idx: i, json_src: a, path_src: b }, s, gi, cs) == s,
        ptr_transfer(OpCode::JsonInject { table_idx: i, json_src: a, mapping_src: b }, s, gi, cs) == s,
        ptr_transfer(OpCode::HttpServe { func_idx: i, port_src: a, host_src: b, workers_src: c, routes_src: e }, s, gi, cs) == s,
{
}

} // verus!
