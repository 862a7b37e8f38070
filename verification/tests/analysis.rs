use std::collections::HashSet;
use xcx::init::analyze_chunk_locals_init;
use xcx::ints::{analyze_bool_array_regs, analyze_global_int_regs, analyze_trace_global_ints};
use xcx::locals::{
    analyze_chunk_globals, analyze_chunk_locals, analyze_globals_iter, analyze_locals_iter,
    analyze_trace_globals, analyze_trace_locals,
};
use xcx::maybeptr::{analyze_maybe_ptr_regs, get_ptr_bit, set_ptr_bit};
use xcx::model::{MethodKind, OpCode, TraceOp, TypeTag, Value, ValueKind};
use xcx::nonptr::{analyze_non_ptr_regs, analyze_trace_non_ptr_regs};
use xcx::types::{analyze_chunk_types, infer_param_types};

fn int_const() -> Value {
    Value { kind: ValueKind::Int, ptr: false }
}

fn bool_const() -> Value {
    Value { kind: ValueKind::Bool, ptr: false }
}

fn string_const() -> Value {
    Value { kind: ValueKind::String, ptr: true }
}

fn sorted<T: Ord + Clone>(v: &[T]) -> Vec<T> {
    let mut w = v.to_vec();
    w.sort();
    w
}

#[test]
fn locals_are_every_register_named_in_ascending_order() {
    let code = [
        OpCode::LoadConst { dst: 0, idx: 0 },
        OpCode::Add { dst: 5, src1: 0, src2: 3 },
        OpCode::Return { src: 5 },
    ];
    assert_eq!(analyze_chunk_locals(&code), vec![0, 3, 5]);
    assert_eq!(analyze_locals_iter(&code), vec![0, 3, 5]);
    assert_eq!(analyze_trace_locals(&code), vec![0, 3, 5]);
}

#[test]
fn locals_cover_call_arguments_and_table_rows() {
    let code = [
        OpCode::Call { dst: 1, func_idx: 0, base: 4, arg_count: 2 },
        OpCode::TableInitRow { tbl_dst: 10, base: 20, col_count: 2 },
    ];
    let used = analyze_chunk_locals(&code);
    for r in [1u8, 4, 5, 6, 10, 20, 21] {
        assert!(used.contains(&r), "register {} missing", r);
    }
    assert!(!used.contains(&7));
    assert!(!used.contains(&22));
}

#[test]
fn locals_of_empty_code_are_none() {
    assert_eq!(analyze_chunk_locals(&[]), Vec::<u8>::new());
}

#[test]
fn globals_are_every_global_named_once() {
    let code = [
        OpCode::GetVar { dst: 0, idx: 7 },
        OpCode::SetVar { idx: 2, src: 0 },
        OpCode::IncVar { idx: 7 },
        OpCode::IncVarLoopNext { g_idx: 9, reg: 1, limit_reg: 2, target: 0 },
    ];
    assert_eq!(sorted(&analyze_chunk_globals(&code)), vec![2, 7, 9]);
    assert_eq!(sorted(&analyze_globals_iter(&code)), vec![2, 7, 9]);
    assert_eq!(sorted(&analyze_trace_globals(&code)), vec![2, 7, 9]);
}

#[test]
fn locals_init_lists_registers_read_before_written() {
    let code = [
        OpCode::Add { dst: 2, src1: 0, src2: 1 },
        OpCode::Move { dst: 3, src: 2 },
        OpCode::Return { src: 4 },
    ];
    assert_eq!(analyze_chunk_locals_init(&code, 1), vec![1, 4]);
    assert_eq!(analyze_chunk_locals_init(&code, 2), vec![4]);
}

#[test]
fn locals_init_counts_a_write_after_the_read() {
    let code = [OpCode::IncLocal { reg: 3 }, OpCode::Print { src: 3 }];
    assert_eq!(analyze_chunk_locals_init(&code, 0), vec![3]);
}

#[test]
fn global_ints_keep_only_integer_stores() {
    let constants = [int_const(), string_const()];
    let code = [
        OpCode::LoadConst { dst: 0, idx: 0 },
        OpCode::SetVar { idx: 1, src: 0 },
        OpCode::LoadConst { dst: 1, idx: 1 },
        OpCode::SetVar { idx: 2, src: 1 },
        OpCode::IncVar { idx: 3 },
    ];
    let ints = analyze_global_int_regs(&code, &constants);
    let want: HashSet<u32> = [1u32, 3].into_iter().collect();
    assert_eq!(ints, want);
}

#[test]
fn global_ints_drop_a_global_for_good_after_a_non_integer_store() {
    let constants = [int_const(), string_const()];
    let code = [
        OpCode::LoadConst { dst: 1, idx: 1 },
        OpCode::SetVar { idx: 4, src: 1 },
        OpCode::LoadConst { dst: 0, idx: 0 },
        OpCode::SetVar { idx: 4, src: 0 },
        OpCode::IncVar { idx: 4 },
    ];
    assert!(analyze_global_int_regs(&code, &constants).is_empty());
}

#[test]
fn global_ints_follow_arithmetic_and_reads() {
    let constants = [int_const()];
    let code = [
        OpCode::LoadConst { dst: 0, idx: 0 },
        OpCode::LoadConst { dst: 1, idx: 0 },
        OpCode::Mul { dst: 2, src1: 0, src2: 1 },
        OpCode::SetVar { idx: 8, src: 2 },
        OpCode::GetVar { dst: 3, idx: 8 },
        OpCode::SetVar { idx: 9, src: 3 },
        OpCode::Equal { dst: 3, src1: 0, src2: 1 },
        OpCode::SetVar { idx: 10, src: 3 },
        OpCode::LoadConst { dst: 5, idx: 7 },
        OpCode::SetVar { idx: 11, src: 5 },
    ];
    let want: HashSet<u32> = [8u32, 9].into_iter().collect();
    assert_eq!(analyze_global_int_regs(&code, &constants), want);
}

#[test]
fn trace_global_ints_follow_integer_operations() {
    let code = [
        TraceOp::LoadConst { dst: 0, val: int_const() },
        TraceOp::SetVar { idx: 4, src: 0 },
        TraceOp::GetVar { dst: 1, idx: 4 },
        TraceOp::SetVar { idx: 5, src: 1 },
        TraceOp::LoadConst { dst: 2, val: string_const() },
        TraceOp::SetVar { idx: 6, src: 2 },
        TraceOp::AddInt { dst: 3, src1: 2, src2: 2 },
        TraceOp::SetVar { idx: 7, src: 3 },
        TraceOp::Other,
    ];
    let want: HashSet<u32> = [4u32, 5, 7].into_iter().collect();
    assert_eq!(analyze_trace_global_ints(&code), want);
}

#[test]
fn non_ptr_regs_drop_arguments_and_pointer_writes() {
    let constants = [string_const()];
    let code = [
        OpCode::LoadConst { dst: 2, idx: 0 },
        OpCode::Move { dst: 3, src: 2 },
        OpCode::GetVar { dst: 4, idx: 9 },
        OpCode::Move { dst: 5, src: 0 },
        OpCode::GetVar { dst: 6, idx: 1 },
    ];
    let ints: HashSet<u32> = [1u32].into_iter().collect();
    let regs = analyze_non_ptr_regs(&code, 1, &ints, &constants);
    assert_eq!(regs.len(), 251);
    for r in [0u8, 2, 3, 4, 5] {
        assert!(!regs.contains(&r));
    }
    assert!(regs.contains(&1));
    assert!(regs.contains(&6));
    assert!(regs.contains(&255));
}

#[test]
fn non_ptr_regs_reach_a_fixed_point_through_moves() {
    // The move into 7 comes before the write that makes 8 a pointer.
    let code = [OpCode::Move { dst: 7, src: 8 }, OpCode::Call { dst: 8, func_idx: 0, base: 0, arg_count: 0 }];
    let regs = analyze_non_ptr_regs(&code, 0, &HashSet::new(), &[]);
    assert!(!regs.contains(&7));
    assert!(!regs.contains(&8));
    assert_eq!(regs.len(), 254);
}

#[test]
fn trace_non_ptr_regs_drop_pointer_writes() {
    let code = [
        TraceOp::LoadConst { dst: 1, val: string_const() },
        TraceOp::Move { dst: 2, src: 1 },
        TraceOp::Call { dst: 3 },
        TraceOp::GetVar { dst: 4, idx: 1 },
        TraceOp::GetVar { dst: 5, idx: 2 },
    ];
    let ints: HashSet<u32> = [1u32].into_iter().collect();
    let regs = analyze_trace_non_ptr_regs(&code, &ints);
    assert_eq!(regs.len(), 252);
    for r in [1u8, 2, 3, 5] {
        assert!(!regs.contains(&r));
    }
    assert!(regs.contains(&4));
    assert!(regs.contains(&0));
}

#[test]
fn ptr_bits_set_and_read_back() {
    let mut st = [0u64; 4];
    set_ptr_bit(&mut st, 70, true);
    assert!(get_ptr_bit(&st, 70));
    assert!(!get_ptr_bit(&st, 71));
    assert_eq!(st, [0, 1u64 << 6, 0, 0]);
    set_ptr_bit(&mut st, 255, true);
    assert_eq!(st[3], 1u64 << 63);
    set_ptr_bit(&mut st, 70, false);
    assert_eq!(st, [0, 0, 0, 1u64 << 63]);
}

#[test]
fn maybe_ptr_follows_straight_line_code() {
    let constants = [int_const(), string_const()];
    let code = [
        OpCode::LoadConst { dst: 0, idx: 1 },
        OpCode::LoadConst { dst: 1, idx: 0 },
        OpCode::Move { dst: 2, src: 0 },
        OpCode::Return { src: 2 },
    ];
    let st = analyze_maybe_ptr_regs(&code, &HashSet::new(), &constants);
    assert_eq!(st, vec![[0, 0, 0, 0], [1, 0, 0, 0], [1, 0, 0, 0], [5, 0, 0, 0]]);
}

#[test]
fn maybe_ptr_joins_along_branches() {
    // 0: r1 = call; 1: if !r0 goto 4; 2: r1 = r2 + r3; 3: goto 1; 4: return r1
    let code = [
        OpCode::Call { dst: 1, func_idx: 0, base: 5, arg_count: 0 },
        OpCode::JumpIfFalse { src: 0, target: 4 },
        OpCode::Add { dst: 1, src1: 2, src2: 3 },
        OpCode::Jump { target: 1 },
        OpCode::Return { src: 1 },
    ];
    let st = analyze_maybe_ptr_regs(&code, &HashSet::new(), &[]);
    assert_eq!(st[0], [0, 0, 0, 0]);
    assert_eq!(st[1], [2, 0, 0, 0]);
    assert_eq!(st[2], [2, 0, 0, 0]);
    // Nothing that may be a pointer reaches the jump back.
    assert_eq!(st[3], [0, 0, 0, 0]);
    assert_eq!(st[4], [2, 0, 0, 0]);
}

#[test]
fn maybe_ptr_of_a_global_depends_on_the_integer_globals() {
    let code = [OpCode::GetVar { dst: 1, idx: 4 }, OpCode::GetVar { dst: 0, idx: 3 }, OpCode::ReturnVoid];
    let ints: HashSet<u32> = [3u32].into_iter().collect();
    let st = analyze_maybe_ptr_regs(&code, &ints, &[]);
    assert_eq!(st[1], [2, 0, 0, 0]);
    assert_eq!(st[2], [2, 0, 0, 0]);
}

#[test]
fn maybe_ptr_reaches_past_instructions_that_start_with_no_pointers() {
    let code = [
        OpCode::CastInt { dst: 2, src: 0 },
        OpCode::CastString { dst: 1, src: 0 },
        OpCode::Return { src: 1 },
    ];
    let st = analyze_maybe_ptr_regs(&code, &HashSet::new(), &[]);
    assert_eq!(st.len(), 3);
    assert_eq!(st[0], [0, 0, 0, 0]);
    assert_eq!(st[1], [0, 0, 0, 0]);
    assert_eq!(st[2], [2, 0, 0, 0]);
}

#[test]
fn maybe_ptr_ignores_unreachable_code() {
    // 0: return; 1: r3 = call (never reached)
    let code = [OpCode::ReturnVoid, OpCode::Call { dst: 3, func_idx: 0, base: 0, arg_count: 0 }, OpCode::Halt];
    let st = analyze_maybe_ptr_regs(&code, &HashSet::new(), &[]);
    assert_eq!(st, vec![[0u64; 4], [0u64; 4], [0u64; 4]]);
}

#[test]
fn maybe_ptr_of_scalar_code_is_empty() {
    let code = [OpCode::Add { dst: 1, src1: 2, src2: 3 }, OpCode::Return { src: 1 }];
    let st = analyze_maybe_ptr_regs(&code, &HashSet::new(), &[]);
    assert_eq!(st, vec![[0u64; 4], [0u64; 4]]);
}

#[test]
fn bool_arrays_are_built_from_booleans_and_kept_so() {
    let constants = [bool_const(), int_const()];
    let code = [
        OpCode::LoadConst { dst: 1, idx: 0 },
        OpCode::LoadConst { dst: 2, idx: 0 },
        OpCode::ArrayInit { dst: 0, base: 1, count: 2 },
        OpCode::LoadConst { dst: 3, idx: 0 },
        OpCode::ArrayInit { dst: 4, base: 3, count: 1 },
        OpCode::LoadConst { dst: 6, idx: 1 },
        OpCode::SetIndex { container: 4, index: 5, src: 6 },
        OpCode::ArrayInit { dst: 7, base: 5, count: 2 },
    ];
    let want: HashSet<u8> = [0u8].into_iter().collect();
    assert_eq!(analyze_bool_array_regs(&code, &constants), want);
}

#[test]
fn bool_arrays_follow_moves_and_globals() {
    let constants = [bool_const(), int_const()];
    let code = [
        OpCode::BoolArrayInit { dst: 0 },
        OpCode::SetVar { idx: 5, src: 0 },
        OpCode::GetVar { dst: 9, idx: 5 },
        OpCode::LoadConst { dst: 11, idx: 1 },
        OpCode::MethodCall { dst: 12, kind: MethodKind::Push, base: 10, arg_count: 1 },
        OpCode::Move { dst: 10, src: 9 },
        OpCode::MethodCall { dst: 12, kind: MethodKind::Push, base: 10, arg_count: 1 },
    ];
    assert!(analyze_bool_array_regs(&code, &constants).is_empty());
}

#[test]
fn param_types_come_from_first_use() {
    let code = [
        OpCode::Less { dst: 3, src1: 0, src2: 2 },
        OpCode::JumpIfFalse { src: 1, target: 0 },
        OpCode::Add { dst: 4, src1: 1, src2: 1 },
    ];
    let types = infer_param_types(&code, 2, &[]);
    assert_eq!(types[0], TypeTag::Int);
    assert_eq!(types[1], TypeTag::Bool);
    assert_eq!(types[2], TypeTag::Unknown);
    let types3 = infer_param_types(&code, 3, &[]);
    assert_eq!(types3[2], TypeTag::Int);
}

#[test]
fn chunk_types_follow_straight_line_code() {
    let constants = [int_const()];
    let code = [
        OpCode::LoadConst { dst: 0, idx: 0 },
        OpCode::LoadConst { dst: 1, idx: 0 },
        OpCode::Add { dst: 2, src1: 0, src2: 1 },
        OpCode::Return { src: 2 },
    ];
    let (types, uses_heap) = analyze_chunk_types(&code, &constants, None, 0, 0, &HashSet::new());
    assert_eq!(types.len(), 4);
    assert_eq!(types[0][0], TypeTag::Unknown);
    assert_eq!(types[1][0], TypeTag::Int);
    assert_eq!(types[2][1], TypeTag::Int);
    assert_eq!(types[3][2], TypeTag::Int);
    assert!(!uses_heap);
}

#[test]
fn chunk_types_flag_heap_values() {
    let constants = [string_const()];
    let code = [OpCode::LoadConst { dst: 0, idx: 0 }, OpCode::ReturnVoid];
    let (types, uses_heap) = analyze_chunk_types(&code, &constants, None, 0, 0, &HashSet::new());
    assert_eq!(types[1][0], TypeTag::String);
    assert!(uses_heap);
}

#[test]
fn chunk_types_forget_what_paths_disagree_on() {
    // 0: r0 = int; 1: if !r5 goto 3; 2: r0 = string; 3: return r0
    let constants = [int_const(), string_const()];
    let code = [
        OpCode::LoadConst { dst: 0, idx: 0 },
        OpCode::JumpIfFalse { src: 5, target: 3 },
        OpCode::LoadConst { dst: 0, idx: 1 },
        OpCode::Return { src: 0 },
    ];
    let (types, _) = analyze_chunk_types(&code, &constants, None, 0, 0, &HashSet::new());
    assert_eq!(types[2][0], TypeTag::Int);
    assert_eq!(types[3][0], TypeTag::Unknown);
}

#[test]
fn chunk_types_start_from_given_types_and_hints() {
    let mut init = [TypeTag::Unknown; 256];
    init[7] = TypeTag::Float;
    let hints: HashSet<u8> = [3u8].into_iter().collect();
    let code = [
        OpCode::ArrayInit { dst: 3, base: 0, count: 0 },
        OpCode::ArrayInit { dst: 4, base: 0, count: 0 },
        OpCode::Halt,
    ];
    let (types, uses_heap) = analyze_chunk_types(&code, &[], Some(&init), 0, 0, &hints);
    assert_eq!(types[0][7], TypeTag::Float);
    assert_eq!(types[1][3], TypeTag::BoolArray);
    assert_eq!(types[2][4], TypeTag::Array);
    assert!(uses_heap);
}

#[test]
fn jump_targets_and_exits() {
    assert_eq!(OpCode::Jump { target: 4 }.jump_target(), Some(4));
    assert_eq!(OpCode::TableIter { tbl_reg: 0, idx_reg: 1, row_reg: 2, limit_reg: 3, target: 9 }.jump_target(), Some(9));
    assert_eq!(OpCode::Halt.jump_target(), None);
    assert!(OpCode::Jump { target: 0 }.is_unconditional_jump());
    assert!(!OpCode::JumpIfTrue { src: 0, target: 0 }.is_unconditional_jump());
    assert!(OpCode::ReturnVoid.is_return());
    assert!(OpCode::Return { src: 1 }.is_return());
    assert!(OpCode::Halt.is_halt());
    assert!(int_const().is_int());
    assert!(bool_const().is_bool());
    assert!(string_const().is_ptr());
}

#[test]
fn locals_and_globals_of_joined_code_are_the_union() {
    let a = [OpCode::Move { dst: 1, src: 2 }, OpCode::GetVar { dst: 3, idx: 8 }];
    let b = [OpCode::Add { dst: 9, src1: 1, src2: 4 }, OpCode::SetVar { idx: 6, src: 9 }, OpCode::IncVar { idx: 8 }];
    let ab: Vec<OpCode> = a.iter().chain(b.iter()).cloned().collect();
    let mut union: Vec<u8> = analyze_chunk_locals(&a);
    for r in analyze_chunk_locals(&b) {
        if !union.contains(&r) {
            union.push(r);
        }
    }
    union.sort();
    assert_eq!(analyze_chunk_locals(&ab), union);
    assert_eq!(analyze_chunk_locals(&ab), vec![1, 2, 3, 4, 9]);
    assert_eq!(analyze_chunk_globals(&ab), vec![8, 6]);
    // The trace analyses give the same answers on the same instructions.
    assert_eq!(analyze_trace_locals(&ab), analyze_chunk_locals(&ab));
    assert_eq!(analyze_trace_globals(&ab), analyze_chunk_globals(&ab));
}

#[test]
fn chunk_types_keep_a_global_read_made_before_the_global_changes() {
    // 0: r1 = int; 1: g5 = r1; 2: r0 = g5; 3: r2 = string; 4: g5 = r2; 5: return
    let constants = [int_const(), string_const()];
    let code = [
        OpCode::LoadConst { dst: 1, idx: 0 },
        OpCode::SetVar { idx: 5, src: 1 },
        OpCode::GetVar { dst: 0, idx: 5 },
        OpCode::LoadConst { dst: 2, idx: 1 },
        OpCode::SetVar { idx: 5, src: 2 },
        OpCode::ReturnVoid,
    ];
    let (types, _) = analyze_chunk_types(&code, &constants, None, 0, 0, &HashSet::new());
    // The read saw the global as an integer, and it is not read again.
    assert_eq!(types[3][0], TypeTag::Int);
    assert_eq!(types[5][2], TypeTag::String);
}

#[test]
fn chunk_types_keep_the_entry_without_a_way_back_to_it() {
    let mut init = [TypeTag::Unknown; 256];
    init[0] = TypeTag::String;
    let code = [OpCode::CastInt { dst: 0, src: 0 }, OpCode::ReturnVoid];
    let (types, _) = analyze_chunk_types(&code, &[], Some(&init), 0, 0, &HashSet::new());
    assert_eq!(types[0], init);
    // With a jump back to the entry, the entry forgets what the paths disagree on.
    let looped = [OpCode::CastInt { dst: 0, src: 0 }, OpCode::Jump { target: 0 }];
    let (types, _) = analyze_chunk_types(&looped, &[], Some(&init), 0, 0, &HashSet::new());
    assert_eq!(types[0][0], TypeTag::Unknown);
}

#[test]
fn chunk_types_of_unreached_code_are_unknown() {
    let constants = [int_const()];
    let code = [OpCode::ReturnVoid, OpCode::LoadConst { dst: 0, idx: 0 }, OpCode::Halt];
    let (types, _) = analyze_chunk_types(&code, &constants, None, 0, 0, &HashSet::new());
    assert_eq!(types[1], [TypeTag::Unknown; 256]);
    assert_eq!(types[2], [TypeTag::Unknown; 256]);
}
