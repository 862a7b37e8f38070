//! What the code generator knows about the registers of the code it is
//! compiling: the types that the analyses found at each instruction, the
//! globals that only hold integers, the registers that never hold a pointer,
//! and which registers have been written. From these it decides, among other
//! things, whether the old value of a register must lose a reference.
use vstd::prelude::*;
use std::collections::HashSet;
use crate::model::TypeTag;
use crate::maybeptr::{ptr_bit, bits_of, get_ptr_bit, set_ptr_bit};

verus! {

/// A type whose values are never heap pointers.
pub open spec fn is_scalar(t: TypeTag) -> bool {
    t == TypeTag::Int || t == TypeTag::Float || t == TypeTag::Bool
}

/// A type that is never a heap pointer type: a scalar, or not known to be
/// anything else.
pub open spec fn never_heap(t: TypeTag) -> bool {
    is_scalar(t) || t == TypeTag::Unknown
}

/// The register index that the per-register tables are read at: `r`, or the
/// last register where `r` lies beyond.
pub open spec fn clamp_reg(r: usize) -> int {
    if r < 255 {
        r as int
    } else {
        255
    }
}

/// The register facts of one compilation.
pub struct RegFacts {
    /// The instruction that compilation starts at.
    pub start_ip: usize,
    /// The register types that the type analysis found before each instruction.
    pub reg_types_per_ip: Vec<[TypeTag; 256]>,
    /// The register types at the current instruction.
    pub reg_types: [TypeTag; 256],
    /// The register types known at the current point of the generated code.
    pub known_types: [TypeTag; 256],
    /// The instruction being compiled.
    pub current_ip: usize,
    /// The globals that only ever hold integers.
    pub global_int_regs: HashSet<u32>,
    /// The registers that never hold a pointer.
    pub non_ptr_regs: HashSet<u8>,
    /// For each instruction, the registers that may hold a pointer there.
    pub may_contain_ptr: Vec<[u64; 4]>,
    /// The registers that the generated code has written.
    pub defined_locals: [bool; 256],
    /// The number of register slots of the code being compiled.
    pub max_locals: usize,
    /// The registers that the generated code has touched (one bit each).
    pub used_registers: [u64; 4],
    /// The registers whose values are not yet stored back (one bit each).
    pub dirty_registers: [u64; 4],
    /// Whether the code may hold heap values at all.
    pub uses_heap: bool,
    /// The globals that the generated code holds in variables of its own, in
    /// the order they were first used; each is stored back when the code
    /// spills and loaded again after a call.
    pub cached_globals: Vec<u32>,
    /// The registers that hold a copy of a global taken without a reference
    /// of their own, for a method call on it; the call must not drop one.
    pub unowned_recv_regs: [bool; 256],
}

/// `a` and `b` cache the same globals.
pub open spec fn same_cache(a: RegFacts, b: RegFacts) -> bool {
    &&& a.cached_globals@ == b.cached_globals@
}

/// `a` and `b` hold the same analysis results and stand at the same instruction.
pub open spec fn same_analysis(a: RegFacts, b: RegFacts) -> bool {
    &&& a.start_ip == b.start_ip
    &&& a.reg_types_per_ip@ == b.reg_types_per_ip@
    &&& a.reg_types == b.reg_types
    &&& a.current_ip == b.current_ip
    &&& a.global_int_regs@ == b.global_int_regs@
    &&& a.non_ptr_regs@ == b.non_ptr_regs@
    &&& a.may_contain_ptr@ == b.may_contain_ptr@
}

/// `a` and `b` agree on what the generated code has done to the registers.
pub open spec fn same_slots(a: RegFacts, b: RegFacts) -> bool {
    &&& a.known_types == b.known_types
    &&& a.defined_locals == b.defined_locals
    &&& a.max_locals == b.max_locals
    &&& a.used_registers == b.used_registers
    &&& a.dirty_registers == b.dirty_registers
    &&& a.uses_heap == b.uses_heap
    &&& a.cached_globals@ == b.cached_globals@
    &&& a.unowned_recv_regs == b.unowned_recv_regs
}

/// How a spilled register's tag is written: fixed by its known scalar type,
/// or kept as the register holds it.
#[derive(Clone, Copy, Debug, PartialEq, Eq, Structural)]
pub enum SpillTag {
    Int,
    Bool,
    Float,
    Keep,
}

/// The tag that a register of type `t` is stored back with.
pub open spec fn spill_tag(t: TypeTag) -> SpillTag {
    if t == TypeTag::Int {
        SpillTag::Int
    } else if t == TypeTag::Bool {
        SpillTag::Bool
    } else if t == TypeTag::Float {
        SpillTag::Float
    } else {
        SpillTag::Keep
    }
}

/// The type of register `r` here: the known type, or the analysis's type at
/// the current instruction where nothing is known.
pub open spec fn reg_type(f: RegFacts, r: int) -> TypeTag {
    if f.known_types@[r] != TypeTag::Unknown {
        f.known_types@[r]
    } else {
        f.reg_types@[r]
    }
}

/// Register `r` is never given a heap type (only Int, Float, Bool or
/// Unknown) before any instruction that the analysis typed, and there is at
/// least one.
pub open spec fn never_ptr(f: RegFacts, r: int) -> bool {
    f.reg_types_per_ip@.len() > 0 && forall|ip: int|
        0 <= ip < f.reg_types_per_ip@.len() ==> never_heap(#[trigger] f.reg_types_per_ip@[ip]@[r])
}

/// Of the registers `regs`, those to load before the code runs, in order:
/// within the slots, and read before they are written.
pub open spec fn load_list(regs: Seq<u8>, max_locals: usize, needs_init: Set<u8>) -> Seq<u8>
    decreases regs.len(),
{
    if regs.len() == 0 {
        Seq::empty()
    } else {
        let rest = load_list(regs.drop_last(), max_locals, needs_init);
        let r = regs.last();
        if (r as int) < max_locals && needs_init.contains(r) {
            rest.push(r)
        } else {
            rest
        }
    }
}

/// Of the registers below `n`, in ascending order, those stored back by a
/// spill, each with its tag: not yet stored back, and within the slots.
pub open spec fn spill_list(f: RegFacts, n: int) -> Seq<(u8, SpillTag)>
    decreases n,
{
    if n <= 0 {
        Seq::empty()
    } else {
        let rest = spill_list(f, n - 1);
        let r = (n - 1) as u8;
        if ptr_bit(f.dirty_registers, r) && n - 1 < f.max_locals {
            rest.push((r, spill_tag(reg_type(f, n - 1))))
        } else {
            rest
        }
    }
}

/// Of the registers below `n`, in ascending order, those whose value loses a
/// reference at the end: touched, within the slots, not `skip`, written, and
/// possibly a pointer by the analyses.
pub open spec fn cleanup_list(f: RegFacts, skip: Option<u8>, n: int) -> Seq<u8>
    decreases n,
{
    if n <= 0 {
        Seq::empty()
    } else {
        let rest = cleanup_list(f, skip, n - 1);
        let r = (n - 1) as u8;
        if ptr_bit(f.used_registers, r) && n - 1 < f.max_locals && skip != Some(r)
            && f.defined_locals@[n - 1] && !is_scalar(f.reg_types@[n - 1]) && !never_ptr(f, n - 1) {
            rest.push(r)
        } else {
            rest
        }
    }
}

/// Of the globals `gs`, in order, those not cached before: not in `cached`
/// and not earlier in `gs`.
pub open spec fn new_globals(cached: Seq<u32>, gs: Seq<u32>) -> Seq<u32>
    decreases gs.len(),
{
    if gs.len() == 0 {
        Seq::empty()
    } else {
        let before = new_globals(cached, gs.drop_last());
        let g = gs.last();
        if (cached + before).contains(g) {
            before
        } else {
            before.push(g)
        }
    }
}

/// The first `i` cached globals, each with whether it only holds integers.
pub open spec fn global_spills_upto(f: RegFacts, i: int) -> Seq<(u32, bool)> {
    Seq::new(i as nat, |k: int| (f.cached_globals@[k], f.global_int_regs@.contains(f.cached_globals@[k])))
}

/// Every cached global, in order, with whether it only holds integers.
pub open spec fn global_spills(f: RegFacts) -> Seq<(u32, bool)> {
    global_spills_upto(f, f.cached_globals@.len() as int)
}

impl RegFacts {
    /// The facts at the start of a compilation that begins at `start_ip`:
    /// nothing known, nothing written.
    pub fn new(start_ip: usize, max_locals: usize) -> (f: RegFacts)
        ensures
            f.max_locals == max_locals,
            f.used_registers@ == seq![0u64, 0u64, 0u64, 0u64],
            f.dirty_registers@ == seq![0u64, 0u64, 0u64, 0u64],
            !f.uses_heap,
            f.start_ip == start_ip,
            f.current_ip == start_ip,
            f.reg_types_per_ip@.len() == 0,
            forall|r: int| 0 <= r < 256 ==> #[trigger] f.reg_types@[r] == TypeTag::Unknown,
            forall|r: int| 0 <= r < 256 ==> #[trigger] f.known_types@[r] == TypeTag::Unknown,
            f.global_int_regs@ == Set::<u32>::empty(),
            f.non_ptr_regs@ == Set::<u8>::empty(),
            f.may_contain_ptr@.len() == 0,
            forall|r: int| 0 <= r < 256 ==> !#[trigger] f.defined_locals@[r],
            f.cached_globals@.len() == 0,
            forall|r: int| 0 <= r < 256 ==> !#[trigger] f.unowned_recv_regs@[r],
    {
        let f = RegFacts {
            start_ip,
            reg_types_per_ip: Vec::new(),
            reg_types: [TypeTag::Unknown; 256],
            known_types: [TypeTag::Unknown; 256],
            current_ip: start_ip,
            global_int_regs: HashSet::new(),
            non_ptr_regs: HashSet::new(),
            may_contain_ptr: Vec::new(),
            defined_locals: [false; 256],
            max_locals,
            used_registers: [0u64; 4],
            dirty_registers: [0u64; 4],
            uses_heap: false,
            cached_globals: Vec::new(),
            unowned_recv_regs: [false; 256],
        };
        assert(f.used_registers@ =~= seq![0u64, 0u64, 0u64, 0u64]);
        assert(f.dirty_registers@ =~= seq![0u64, 0u64, 0u64, 0u64]);
        f
    }

    /// Takes the per-instruction register types; the current types become
    /// those at the start instruction, where there is one.
    pub fn set_reg_types_per_ip(&mut self, types: Vec<[TypeTag; 256]>)
        ensures
            final(self).reg_types_per_ip@ == types@,
            final(self).reg_types == (if old(self).start_ip < types@.len() {
                types@[old(self).start_ip as int]
            } else {
                old(self).reg_types
            }),
            final(self).start_ip == old(self).start_ip,
            final(self).current_ip == old(self).current_ip,
            final(self).global_int_regs@ == old(self).global_int_regs@,
            final(self).non_ptr_regs@ == old(self).non_ptr_regs@,
            final(self).may_contain_ptr@ == old(self).may_contain_ptr@,
            same_slots(*final(self), *old(self)),
    {
        self.reg_types_per_ip = types;
        if self.start_ip < self.reg_types_per_ip.len() {
            self.reg_types = self.reg_types_per_ip[self.start_ip];
        }
    }

    /// Moves to instruction `ip`; where the analysis has types for it, they
    /// become both the current and the known types.
    pub fn update_current_reg_types(&mut self, ip: usize)
        ensures
            final(self).current_ip == ip,
            ip < old(self).reg_types_per_ip@.len() ==> final(self).reg_types
                == old(self).reg_types_per_ip@[ip as int] && final(self).known_types
                == old(self).reg_types_per_ip@[ip as int],
            ip >= old(self).reg_types_per_ip@.len() ==> final(self).reg_types == old(self).reg_types
                && final(self).known_types == old(self).known_types,
            final(self).start_ip == old(self).start_ip,
            final(self).reg_types_per_ip@ == old(self).reg_types_per_ip@,
            final(self).global_int_regs@ == old(self).global_int_regs@,
            final(self).non_ptr_regs@ == old(self).non_ptr_regs@,
            final(self).may_contain_ptr@ == old(self).may_contain_ptr@,
            final(self).defined_locals == old(self).defined_locals,
            final(self).max_locals == old(self).max_locals,
            final(self).used_registers == old(self).used_registers,
            final(self).dirty_registers == old(self).dirty_registers,
            final(self).uses_heap == old(self).uses_heap,
            same_cache(*final(self), *old(self)),
            final(self).unowned_recv_regs == old(self).unowned_recv_regs,
    {
        self.current_ip = ip;
        if ip < self.reg_types_per_ip.len() {
            self.reg_types = self.reg_types_per_ip[ip];
            self.known_types = self.reg_types_per_ip[ip];
        }
    }

    /// Takes the globals that only ever hold integers.
    pub fn set_global_int_regs(&mut self, ints: HashSet<u32>)
        ensures
            final(self).global_int_regs@ == ints@,
            same_slots(*final(self), *old(self)),
            final(self).start_ip == old(self).start_ip,
            final(self).reg_types_per_ip@ == old(self).reg_types_per_ip@,
            final(self).reg_types == old(self).reg_types,
            final(self).current_ip == old(self).current_ip,
            final(self).non_ptr_regs@ == old(self).non_ptr_regs@,
            final(self).may_contain_ptr@ == old(self).may_contain_ptr@,
    {
        self.global_int_regs = ints;
    }

    /// Takes the registers that never hold a pointer.
    pub fn set_non_ptr_regs(&mut self, regs: HashSet<u8>)
        ensures
            final(self).non_ptr_regs@ == regs@,
            same_slots(*final(self), *old(self)),
            final(self).start_ip == old(self).start_ip,
            final(self).reg_types_per_ip@ == old(self).reg_types_per_ip@,
            final(self).reg_types == old(self).reg_types,
            final(self).current_ip == old(self).current_ip,
            final(self).global_int_regs@ == old(self).global_int_regs@,
            final(self).may_contain_ptr@ == old(self).may_contain_ptr@,
    {
        self.non_ptr_regs = regs;
    }

    /// Takes, for each instruction, the registers that may hold a pointer.
    pub fn set_may_contain_ptr(&mut self, mcp: Vec<[u64; 4]>)
        ensures
            final(self).may_contain_ptr@ == mcp@,
            same_slots(*final(self), *old(self)),
            final(self).start_ip == old(self).start_ip,
            final(self).reg_types_per_ip@ == old(self).reg_types_per_ip@,
            final(self).reg_types == old(self).reg_types,
            final(self).current_ip == old(self).current_ip,
            final(self).global_int_regs@ == old(self).global_int_regs@,
            final(self).non_ptr_regs@ == old(self).non_ptr_regs@,
    {
        self.may_contain_ptr = mcp;
    }

    /// Whether global `idx` only ever holds integers.
    pub fn global_is_int(&self, idx: u32) -> (b: bool)
        ensures
            b == self.global_int_regs@.contains(idx),
    {
        self.global_int_regs.contains(&idx)
    }

    /// The type of register `r` here: the known type, or the analysis's type
    /// at the current instruction where nothing is known.
    pub fn get_reg_type(&self, r: usize) -> (t: TypeTag)
        requires
            r < 256,
        ensures
            t == (if self.known_types@[r as int] != TypeTag::Unknown {
                self.known_types@[r as int]
            } else {
                self.reg_types@[r as int]
            }),
    {
        let ty = self.known_types[r];
        if ty != TypeTag::Unknown {
            ty
        } else {
            self.reg_types[r]
        }
    }

    /// The type that register `r` has once the current instruction has written
    /// it: the analysis's type before the next instruction, unknown where
    /// there is none.
    pub fn get_def_reg_type(&self, r: usize) -> (t: TypeTag)
        requires
            self.current_ip < usize::MAX,
        ensures
            t == (if self.current_ip + 1 < self.reg_types_per_ip@.len() {
                self.reg_types_per_ip@[self.current_ip + 1]@[clamp_reg(r)]
            } else {
                TypeTag::Unknown
            }),
    {
        let next_ip = self.current_ip + 1;
        if self.reg_types_per_ip.len() == 0 {
            TypeTag::Unknown
        } else if next_ip < self.reg_types_per_ip.len() {
            let i = if r < 255 { r } else { 255 };
            self.reg_types_per_ip[next_ip][i]
        } else {
            TypeTag::Unknown
        }
    }

    /// Records that the generated code has written register `reg`: it is
    /// touched, not yet stored back, written, owns its value, and its known
    /// type becomes the one it has after the current instruction.
    pub fn define_local(&mut self, reg: u8)
        requires
            old(self).current_ip < usize::MAX,
        ensures
            final(self).defined_locals@ == old(self).defined_locals@.update(reg as int, true),
            final(self).known_types@ == old(self).known_types@.update(
                reg as int,
                if old(self).current_ip + 1 < old(self).reg_types_per_ip@.len() {
                    old(self).reg_types_per_ip@[old(self).current_ip + 1]@[reg as int]
                } else {
                    TypeTag::Unknown
                },
            ),
            bits_of(final(self).used_registers) == bits_of(old(self).used_registers).insert(reg),
            bits_of(final(self).dirty_registers) == bits_of(old(self).dirty_registers).insert(reg),
            final(self).unowned_recv_regs@ == old(self).unowned_recv_regs@.update(reg as int, false),
            same_analysis(*final(self), *old(self)),
            same_cache(*final(self), *old(self)),
            final(self).max_locals == old(self).max_locals,
            final(self).uses_heap == old(self).uses_heap,
    {
        let r = reg as usize;
        set_ptr_bit(&mut self.used_registers, reg, true);
        set_ptr_bit(&mut self.dirty_registers, reg, true);
        assert(bits_of(self.used_registers) =~= bits_of(old(self).used_registers).insert(reg));
        assert(bits_of(self.dirty_registers) =~= bits_of(old(self).dirty_registers).insert(reg));
        self.defined_locals[r] = true;
        self.unowned_recv_regs[r] = false;
        let ty = self.get_def_reg_type(r);
        self.known_types[r] = ty;
    }

    /// Records that register `reg` was loaded again from memory after a call
    /// that may have changed it: touched, not yet stored back, written, and
    /// known to hold a string.
    pub fn reload_local(&mut self, reg: u8)
        ensures
            final(self).defined_locals@ == old(self).defined_locals@.update(reg as int, true),
            final(self).known_types@ == old(self).known_types@.update(reg as int, TypeTag::String),
            bits_of(final(self).used_registers) == bits_of(old(self).used_registers).insert(reg),
            bits_of(final(self).dirty_registers) == bits_of(old(self).dirty_registers).insert(reg),
            same_analysis(*final(self), *old(self)),
            same_cache(*final(self), *old(self)),
            final(self).unowned_recv_regs == old(self).unowned_recv_regs,
            final(self).max_locals == old(self).max_locals,
            final(self).uses_heap == old(self).uses_heap,
    {
        let r = reg as usize;
        set_ptr_bit(&mut self.used_registers, reg, true);
        set_ptr_bit(&mut self.dirty_registers, reg, true);
        assert(bits_of(self.used_registers) =~= bits_of(old(self).used_registers).insert(reg));
        assert(bits_of(self.dirty_registers) =~= bits_of(old(self).dirty_registers).insert(reg));
        self.defined_locals[r] = true;
        self.known_types[r] = TypeTag::String;
    }

    /// Records whether the code may hold heap values.
    pub fn set_uses_heap(&mut self, uses_heap: bool)
        ensures
            final(self).uses_heap == uses_heap,
            same_analysis(*final(self), *old(self)),
            final(self).known_types == old(self).known_types,
            final(self).defined_locals == old(self).defined_locals,
            final(self).max_locals == old(self).max_locals,
            final(self).used_registers == old(self).used_registers,
            final(self).dirty_registers == old(self).dirty_registers,
            same_cache(*final(self), *old(self)),
            final(self).unowned_recv_regs == old(self).unowned_recv_regs,
    {
        self.uses_heap = uses_heap;
    }

    /// Whether register `r` holds a scalar at the current instruction.
    pub fn is_known_non_ptr(&self, r: usize) -> (b: bool)
        ensures
            b == is_scalar(self.reg_types@[clamp_reg(r)]),
    {
        let i = if r < 255 { r } else { 255 };
        let t = self.reg_types[i];
        t == TypeTag::Int || t == TypeTag::Float || t == TypeTag::Bool
    }

    /// Whether register `r` is never given a heap type (only Int, Float, Bool
    /// or Unknown) before any instruction that the analysis typed (and there
    /// is at least one).
    pub fn reg_is_never_ptr(&self, r: usize) -> (b: bool)
        ensures
            b == (self.reg_types_per_ip@.len() > 0 && forall|ip: int|
                0 <= ip < self.reg_types_per_ip@.len() ==> never_heap(
                    #[trigger] self.reg_types_per_ip@[ip]@[clamp_reg(r)],
                )),
    {
        let i = if r < 255 { r } else { 255 };
        if self.reg_types_per_ip.len() == 0 {
            return false;
        }
        let mut ip: usize = 0;
        while ip < self.reg_types_per_ip.len()
            invariant
                0 <= i < 256,
                i == clamp_reg(r),
                ip <= self.reg_types_per_ip@.len(),
                forall|j: int| 0 <= j < ip ==> never_heap(#[trigger] self.reg_types_per_ip@[j]@[i as int]),
            decreases self.reg_types_per_ip@.len() - ip,
        {
            let t = self.reg_types_per_ip[ip][i];
            if !(t == TypeTag::Int || t == TypeTag::Float || t == TypeTag::Bool || t == TypeTag::Unknown) {
                return false;
            }
            ip = ip + 1;
        }
        true
    }

    /// Whether the generated code may leave the old value of register `reg`
    /// alone instead of dropping a reference to it: the register was never
    /// written, or one of the analyses shows it cannot hold a pointer here.
    pub fn should_skip_dec_ref(&self, reg: u8) -> (b: bool)
        ensures
            b == (!self.defined_locals@[reg as int] || is_scalar(self.reg_types@[reg as int])
                || (self.reg_types_per_ip@.len() > 0 && forall|ip: int|
                0 <= ip < self.reg_types_per_ip@.len() ==> never_heap(
                    #[trigger] self.reg_types_per_ip@[ip]@[reg as int],
                )) || self.non_ptr_regs@.contains(reg) || (self.current_ip
                < self.may_contain_ptr@.len() && !ptr_bit(
                self.may_contain_ptr@[self.current_ip as int],
                reg,
            ))),
    {
        let r = reg as usize;
        if !self.defined_locals[r] {
            return true;
        }
        self.is_known_non_ptr(r) || self.reg_is_never_ptr(r) || self.non_ptr_regs.contains(&reg) || (
        self.current_ip < self.may_contain_ptr.len() && !get_ptr_bit(
            &self.may_contain_ptr[self.current_ip],
            reg,
        ))
    }
    /// The kind of tag that register `r` is stored back with.
    fn spill_tag_of(&self, r: usize) -> (t: SpillTag)
        requires
            r < 256,
        ensures
            t == spill_tag(reg_type(*self, r as int)),
    {
        let ty = self.get_reg_type(r);
        if ty == TypeTag::Int {
            SpillTag::Int
        } else if ty == TypeTag::Bool {
            SpillTag::Bool
        } else if ty == TypeTag::Float {
            SpillTag::Float
        } else {
            SpillTag::Keep
        }
    }

    /// Loads the registers of `locals_to_load` that are within the slots and
    /// read before they are written: each becomes touched and written. Gives
    /// them back in order.
    pub fn preload_locals(&mut self, locals_to_load: &[u8], needs_init: &HashSet<u8>) -> (loaded: Vec<u8>)
        ensures
            loaded@ == load_list(locals_to_load@, old(self).max_locals, needs_init@),
            bits_of(final(self).used_registers) == bits_of(old(self).used_registers).union(
                loaded@.to_set(),
            ),
            forall|r: int|
                0 <= r < 256 ==> #[trigger] final(self).defined_locals@[r] == (old(self).defined_locals@[r]
                    || loaded@.contains(r as u8)),
            same_analysis(*final(self), *old(self)),
            final(self).known_types == old(self).known_types,
            final(self).max_locals == old(self).max_locals,
            final(self).dirty_registers == old(self).dirty_registers,
            final(self).uses_heap == old(self).uses_heap,
            same_cache(*final(self), *old(self)),
            final(self).unowned_recv_regs == old(self).unowned_recv_regs,
    {
        let mut loaded: Vec<u8> = Vec::new();
        let mut i: usize = 0;
        while i < locals_to_load.len()
            invariant
                i <= locals_to_load@.len(),
                loaded@ == load_list(locals_to_load@.take(i as int), old(self).max_locals, needs_init@),
                bits_of(self.used_registers) == bits_of(old(self).used_registers).union(loaded@.to_set()),
                forall|r: int|
                    0 <= r < 256 ==> #[trigger] self.defined_locals@[r] == (old(self).defined_locals@[r]
                        || loaded@.contains(r as u8)),
                same_analysis(*self, *old(self)),
                self.known_types == old(self).known_types,
                self.max_locals == old(self).max_locals,
                self.dirty_registers == old(self).dirty_registers,
                self.uses_heap == old(self).uses_heap,
                same_cache(*self, *old(self)),
                self.unowned_recv_regs == old(self).unowned_recv_regs,
            decreases locals_to_load@.len() - i,
        {
            let reg = locals_to_load[i];
            proof {
                assert(locals_to_load@.take(i + 1).drop_last() =~= locals_to_load@.take(i as int));
            }
            if (reg as usize) < self.max_locals && needs_init.contains(&reg) {
                let ghost before = loaded@;
                let ghost prev_used = self.used_registers;
                set_ptr_bit(&mut self.used_registers, reg, true);
                self.defined_locals[reg as usize] = true;
                loaded.push(reg);
                proof {
                    assert(loaded@ == before.push(reg));
                    assert forall|x: u8| #[trigger] loaded@.to_set().contains(x) <==> before.to_set().insert(reg).contains(x) by {
                        if loaded@.contains(x) {
                            let k = choose|k: int| 0 <= k < loaded@.len() && loaded@[k] == x;
                            if k < before.len() {
                                assert(before[k] == x);
                                assert(before.contains(x));
                            }
                        }
                        if before.contains(x) {
                            let k = choose|k: int| 0 <= k < before.len() && before[k] == x;
                            assert(loaded@[k] == x);
                        }
                        assert(loaded@[before.len() as int] == reg);
                    }
                    assert(loaded@.to_set() =~= before.to_set().insert(reg));
                    assert(bits_of(self.used_registers) =~= bits_of(prev_used).insert(reg));
                    assert(bits_of(self.used_registers) =~= bits_of(old(self).used_registers).union(loaded@.to_set()));
                    assert forall|r: int| 0 <= r < 256 implies #[trigger] self.defined_locals@[r] == (old(self).defined_locals@[r]
                        || loaded@.contains(r as u8)) by {
                        if r == reg as int {
                            assert(loaded@[before.len() as int] == reg);
                        } else {
                            assert(loaded@.to_set().contains(r as u8) == before.to_set().contains(r as u8));
                        }
                    }
                }
            }
            i = i + 1;
        }
        assert(locals_to_load@.take(i as int) =~= locals_to_load@);
        loaded
    }

    /// The registers to store back, in ascending order, each with how its tag
    /// is written, and the cached globals to store back (see
    /// `spill_globals`); afterwards no register is left to store back.
    pub fn spill_all(&mut self) -> (spilled: (Vec<(u8, SpillTag)>, Vec<(u32, bool)>))
        ensures
            spilled.0@ == spill_list(*old(self), 256),
            spilled.1@ == global_spills(*old(self)),
            final(self).dirty_registers@ == seq![0u64, 0u64, 0u64, 0u64],
            same_analysis(*final(self), *old(self)),
            same_cache(*final(self), *old(self)),
            final(self).unowned_recv_regs == old(self).unowned_recv_regs,
            final(self).known_types == old(self).known_types,
            final(self).defined_locals == old(self).defined_locals,
            final(self).max_locals == old(self).max_locals,
            final(self).used_registers == old(self).used_registers,
            final(self).uses_heap == old(self).uses_heap,
    {
        let mut spilled: Vec<(u8, SpillTag)> = Vec::new();
        let mut r: usize = 0;
        while r < 256
            invariant
                r <= 256,
                spilled@ == spill_list(*self, r as int),
            decreases 256 - r,
        {
            if get_ptr_bit(&self.dirty_registers, r as u8) && r < self.max_locals {
                let t = self.spill_tag_of(r);
                spilled.push((r as u8, t));
            }
            r = r + 1;
        }
        let globals = self.spill_globals();
        self.dirty_registers = [0u64; 4];
        assert(self.dirty_registers@ =~= seq![0u64, 0u64, 0u64, 0u64]);
        (spilled, globals)
    }

    /// Starts caching global `idx` where it is not cached yet; says whether it
    /// was new, in which case the generated code loads it from memory.
    pub fn ensure_global_var(&mut self, idx: u32) -> (loaded: bool)
        ensures
            loaded == !old(self).cached_globals@.contains(idx),
            final(self).cached_globals@ == (if loaded {
                old(self).cached_globals@.push(idx)
            } else {
                old(self).cached_globals@
            }),
            same_analysis(*final(self), *old(self)),
            final(self).known_types == old(self).known_types,
            final(self).defined_locals == old(self).defined_locals,
            final(self).max_locals == old(self).max_locals,
            final(self).used_registers == old(self).used_registers,
            final(self).dirty_registers == old(self).dirty_registers,
            final(self).uses_heap == old(self).uses_heap,
            final(self).unowned_recv_regs == old(self).unowned_recv_regs,
    {
        let mut i: usize = 0;
        while i < self.cached_globals.len()
            invariant
                i <= self.cached_globals@.len(),
                forall|k: int| 0 <= k < i ==> self.cached_globals@[k] != idx,
            decreases self.cached_globals@.len() - i,
        {
            if self.cached_globals[i] == idx {
                assert(self.cached_globals@[i as int] == idx);
                return false;
            }
            i = i + 1;
        }
        self.cached_globals.push(idx);
        true
    }

    /// Caches each of `globals` in turn; gives back those that were new, in
    /// order, which the generated code loads from memory.
    pub fn preload_globals(&mut self, globals: &[u32]) -> (loaded: Vec<u32>)
        ensures
            final(self).cached_globals@ == old(self).cached_globals@ + loaded@,
            loaded@ == new_globals(old(self).cached_globals@, globals@),
            same_analysis(*final(self), *old(self)),
            final(self).known_types == old(self).known_types,
            final(self).defined_locals == old(self).defined_locals,
            final(self).max_locals == old(self).max_locals,
            final(self).used_registers == old(self).used_registers,
            final(self).dirty_registers == old(self).dirty_registers,
            final(self).uses_heap == old(self).uses_heap,
            final(self).unowned_recv_regs == old(self).unowned_recv_regs,
    {
        let mut loaded: Vec<u32> = Vec::new();
        let mut i: usize = 0;
        while i < globals.len()
            invariant
                i <= globals@.len(),
                self.cached_globals@ == old(self).cached_globals@ + loaded@,
                loaded@ == new_globals(old(self).cached_globals@, globals@.take(i as int)),
                same_analysis(*self, *old(self)),
                self.known_types == old(self).known_types,
                self.defined_locals == old(self).defined_locals,
                self.max_locals == old(self).max_locals,
                self.used_registers == old(self).used_registers,
                self.dirty_registers == old(self).dirty_registers,
                self.uses_heap == old(self).uses_heap,
                self.unowned_recv_regs == old(self).unowned_recv_regs,
            decreases globals@.len() - i,
        {
            let g = globals[i];
            proof {
                assert(globals@.take(i + 1).drop_last() =~= globals@.take(i as int));
            }
            if self.ensure_global_var(g) {
                loaded.push(g);
                assert(self.cached_globals@ =~= old(self).cached_globals@ + loaded@);
            }
            i = i + 1;
        }
        assert(globals@.take(i as int) =~= globals@);
        loaded
    }

    /// The cached globals to store back, in the order they were cached, each
    /// with whether its tag is written as an integer's (a global that only
    /// ever holds integers).
    pub fn spill_globals(&self) -> (stores: Vec<(u32, bool)>)
        ensures
            stores@ == global_spills(*self),
    {
        let mut stores: Vec<(u32, bool)> = Vec::new();
        let mut i: usize = 0;
        while i < self.cached_globals.len()
            invariant
                i <= self.cached_globals@.len(),
                stores@ == global_spills_upto(*self, i as int),
            decreases self.cached_globals@.len() - i,
        {
            let g = self.cached_globals[i];
            let is_int = self.global_int_regs.contains(&g);
            stores.push((g, is_int));
            i = i + 1;
        }
        stores
    }

    /// The cached globals that the generated code loads again from memory
    /// after a call that may have changed them, in the order they were cached.
    pub fn reload_globals(&self) -> (globals: Vec<u32>)
        ensures
            globals@ == self.cached_globals@,
    {
        let mut globals: Vec<u32> = Vec::new();
        let mut i: usize = 0;
        while i < self.cached_globals.len()
            invariant
                i <= self.cached_globals@.len(),
                globals@ == self.cached_globals@.take(i as int),
            decreases self.cached_globals@.len() - i,
        {
            globals.push(self.cached_globals[i]);
            assert(self.cached_globals@.take(i + 1) =~= self.cached_globals@.take(i as int).push(self.cached_globals@[i as int]));
            i = i + 1;
        }
        assert(self.cached_globals@.take(i as int) =~= self.cached_globals@);
        globals
    }

    /// Records that register `reg` holds a copy of a global taken without a
    /// reference of its own, for a method call on it.
    pub fn mark_unowned_recv(&mut self, reg: u8)
        ensures
            final(self).unowned_recv_regs@ == old(self).unowned_recv_regs@.update(reg as int, true),
            same_analysis(*final(self), *old(self)),
            same_cache(*final(self), *old(self)),
            final(self).known_types == old(self).known_types,
            final(self).defined_locals == old(self).defined_locals,
            final(self).max_locals == old(self).max_locals,
            final(self).used_registers == old(self).used_registers,
            final(self).dirty_registers == old(self).dirty_registers,
            final(self).uses_heap == old(self).uses_heap,
    {
        self.unowned_recv_regs[reg as usize] = true;
    }

    /// The registers whose value loses a reference when the code leaves, in
    /// ascending order; none when the code holds no heap values.
    pub fn cleanup_regs(&self, skip: Option<u8>) -> (regs: Vec<u8>)
        ensures
            regs@ == (if self.uses_heap {
                cleanup_list(*self, skip, 256)
            } else {
                Seq::empty()
            }),
    {
        let mut regs: Vec<u8> = Vec::new();
        if !self.uses_heap {
            return regs;
        }
        let mut r: usize = 0;
        while r < 256
            invariant
                r <= 256,
                self.uses_heap,
                regs@ == cleanup_list(*self, skip, r as int),
            decreases 256 - r,
        {
            let reg = r as u8;
            let skipped = match skip {
                Some(s) => s == reg,
                None => false,
            };
            if get_ptr_bit(&self.used_registers, reg) && r < self.max_locals && !skipped
                && self.defined_locals[r] && !self.is_known_non_ptr(r) && !self.reg_is_never_ptr(r) {
                regs.push(reg);
            }
            r = r + 1;
        }
        regs
    }
}

} // verus!
