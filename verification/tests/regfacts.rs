use std::collections::HashSet;
use xcx::maybeptr::set_ptr_bit;
use xcx::model::TypeTag;
use xcx::regfacts::{RegFacts, SpillTag};

fn types_with(r: usize, t: TypeTag) -> [TypeTag; 256] {
    let mut a = [TypeTag::Unknown; 256];
    a[r] = t;
    a
}

#[test]
fn fresh_facts_know_nothing() {
    let f = RegFacts::new(3, 8);
    assert_eq!(f.current_ip, 3);
    assert_eq!(f.get_reg_type(0), TypeTag::Unknown);
    assert_eq!(f.get_def_reg_type(0), TypeTag::Unknown);
    assert!(!f.reg_is_never_ptr(0));
    assert!(!f.global_is_int(0));
    // A register never written needs no reference dropped.
    assert!(f.should_skip_dec_ref(9));
}

#[test]
fn types_follow_the_current_instruction() {
    let mut f = RegFacts::new(1, 8);
    f.set_reg_types_per_ip(vec![types_with(2, TypeTag::String), types_with(2, TypeTag::Int), types_with(2, TypeTag::Array)]);
    assert_eq!(f.reg_types[2], TypeTag::Int);
    assert_eq!(f.get_reg_type(2), TypeTag::Int);
    assert!(f.is_known_non_ptr(2));
    assert_eq!(f.get_def_reg_type(2), TypeTag::Array);
    f.update_current_reg_types(0);
    assert_eq!(f.get_reg_type(2), TypeTag::String);
    assert_eq!(f.get_def_reg_type(2), TypeTag::Int);
    f.update_current_reg_types(7);
    assert_eq!(f.current_ip, 7);
    assert_eq!(f.get_reg_type(2), TypeTag::String);
    assert_eq!(f.get_def_reg_type(2), TypeTag::Unknown);
}

#[test]
fn known_types_come_before_the_analysis() {
    let mut f = RegFacts::new(0, 8);
    f.set_reg_types_per_ip(vec![types_with(4, TypeTag::Float), types_with(4, TypeTag::Json)]);
    assert_eq!(f.get_reg_type(4), TypeTag::Float);
    f.define_local(4);
    assert!(f.defined_locals[4]);
    assert_eq!(f.known_types[4], TypeTag::Json);
    assert_eq!(f.get_reg_type(4), TypeTag::Json);
}

#[test]
fn never_ptr_needs_no_heap_type_anywhere() {
    let mut f = RegFacts::new(0, 8);
    f.set_reg_types_per_ip(vec![types_with(5, TypeTag::Int), types_with(5, TypeTag::Bool)]);
    assert!(f.reg_is_never_ptr(5));
    // Unknown counts as never a pointer.
    assert!(f.reg_is_never_ptr(6));
    assert!(f.reg_is_never_ptr(300));
    f.set_reg_types_per_ip(vec![types_with(5, TypeTag::Int), types_with(5, TypeTag::String)]);
    assert!(!f.reg_is_never_ptr(5));
    assert!(f.reg_is_never_ptr(4));
}

#[test]
fn dec_ref_is_kept_only_where_a_pointer_may_be() {
    let mut f = RegFacts::new(0, 8);
    let mut heap = [TypeTag::Unknown; 256];
    heap[1] = TypeTag::Array;
    heap[2] = TypeTag::Array;
    heap[3] = TypeTag::Array;
    f.set_reg_types_per_ip(vec![[TypeTag::Unknown; 256], heap]);
    f.define_local(1);
    f.define_local(2);
    f.define_local(3);
    f.define_local(4);
    assert!(!f.should_skip_dec_ref(1));
    // Register 4 is never given a heap type.
    assert!(f.should_skip_dec_ref(4));
    let non_ptr: HashSet<u8> = [2u8].into_iter().collect();
    f.set_non_ptr_regs(non_ptr);
    assert!(f.should_skip_dec_ref(2));
    assert!(!f.should_skip_dec_ref(1));
    let mut bits = [0u64; 4];
    set_ptr_bit(&mut bits, 1, true);
    f.set_may_contain_ptr(vec![bits]);
    assert!(!f.should_skip_dec_ref(1));
    assert!(f.should_skip_dec_ref(3));
    f.update_current_reg_types(1);
    // No pointer facts past the last instruction, and the current types say Array.
    assert!(!f.should_skip_dec_ref(3));
    let ints: HashSet<u32> = [7u32].into_iter().collect();
    f.set_global_int_regs(ints);
    assert!(f.global_is_int(7));
    assert!(!f.global_is_int(8));
}

#[test]
fn preload_takes_registers_read_before_written_within_the_slots() {
    let mut f = RegFacts::new(0, 4);
    let needs: HashSet<u8> = [1u8, 3, 6].into_iter().collect();
    let loaded = f.preload_locals(&[0, 1, 3, 6], &needs);
    assert_eq!(loaded, vec![1, 3]);
    assert!(f.defined_locals[1] && f.defined_locals[3]);
    assert!(!f.defined_locals[0] && !f.defined_locals[6]);
    assert_eq!(f.used_registers, [0b1010, 0, 0, 0]);
    assert_eq!(f.dirty_registers, [0, 0, 0, 0]);
}

#[test]
fn spill_stores_back_written_registers_with_their_tags() {
    let mut f = RegFacts::new(0, 8);
    let mut at1 = [TypeTag::Unknown; 256];
    at1[1] = TypeTag::Int;
    at1[2] = TypeTag::Float;
    at1[3] = TypeTag::String;
    f.set_reg_types_per_ip(vec![[TypeTag::Unknown; 256], at1]);
    f.define_local(1);
    f.define_local(2);
    f.define_local(3);
    f.define_local(5);
    f.reload_local(7);
    f.define_local(9);
    let (spilled, globals) = f.spill_all();
    assert!(globals.is_empty());
    assert_eq!(
        spilled,
        vec![(1, SpillTag::Int), (2, SpillTag::Float), (3, SpillTag::Keep), (5, SpillTag::Keep), (7, SpillTag::Keep)]
    );
    assert_eq!(f.dirty_registers, [0, 0, 0, 0]);
    assert!(f.spill_all().0.is_empty());
    // The known type of a reloaded register is a string.
    assert_eq!(f.known_types[7], TypeTag::String);
}

#[test]
fn cleanup_drops_references_only_where_a_pointer_may_be() {
    let mut f = RegFacts::new(0, 8);
    let mut at0 = [TypeTag::Unknown; 256];
    at0[2] = TypeTag::String;
    at0[4] = TypeTag::Array;
    let mut at1 = [TypeTag::Unknown; 256];
    at1[1] = TypeTag::Int;
    at1[2] = TypeTag::Array;
    f.set_reg_types_per_ip(vec![at0, at1]);
    f.define_local(1);
    f.define_local(2);
    f.define_local(4);
    f.define_local(5);
    f.define_local(12);
    assert!(f.cleanup_regs(None).is_empty());
    f.set_uses_heap(true);
    // Registers 1 and 5 are never given a heap type; 12 lies beyond the slots.
    assert_eq!(f.cleanup_regs(None), vec![2, 4]);
    assert_eq!(f.cleanup_regs(Some(2)), vec![4]);
    f.update_current_reg_types(1);
    assert_eq!(f.cleanup_regs(None), vec![2, 4]);
}

#[test]
fn cached_globals_are_loaded_once_and_stored_back() {
    let mut f = RegFacts::new(0, 8);
    let ints: HashSet<u32> = [4u32].into_iter().collect();
    f.set_global_int_regs(ints);
    assert_eq!(f.preload_globals(&[4, 9, 4]), vec![4, 9]);
    assert!(f.ensure_global_var(2));
    assert!(!f.ensure_global_var(9));
    assert_eq!(f.reload_globals(), vec![4, 9, 2]);
    f.define_local(1);
    let (locals, globals) = f.spill_all();
    assert_eq!(locals, vec![(1, SpillTag::Keep)]);
    assert_eq!(globals, vec![(4, true), (9, false), (2, false)]);
    // Globals are stored back at every spill; registers only while dirty.
    let (locals, globals) = f.spill_all();
    assert!(locals.is_empty());
    assert_eq!(globals.len(), 3);
}

#[test]
fn unowned_receivers_are_cleared_by_a_write() {
    let mut f = RegFacts::new(0, 8);
    f.mark_unowned_recv(3);
    assert!(f.unowned_recv_regs[3]);
    assert!(!f.unowned_recv_regs[4]);
    f.define_local(3);
    assert!(!f.unowned_recv_regs[3]);
}
