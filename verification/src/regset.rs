//! Register sets held as 256 flags, and the register windows that call and
//! initialiser instructions read.
use vstd::prelude::*;
use std::collections::HashSet;

verus! {

broadcast use vstd::std_specs::hash::group_hash_axioms;

/// The registers whose flag is set.
pub open spec fn flagged(flags: Seq<bool>) -> Set<u8> {
    Set::new(|r: u8| flags[r as int])
}

/// The register that lies `i` places after `start`, counting modulo 256.
pub open spec fn span_slot(start: int, i: int) -> int {
    (start + i) % 256
}

/// The registers `start, start + 1, ..., start + len - 1`, each taken modulo 256.
pub open spec fn reg_span(start: int, len: int) -> Set<u8> {
    Set::new(|r: u8| exists|i: int| 0 <= i < len && r as int == #[trigger] span_slot(start, i))
}

/// A fresh set of 256 cleared flags.
pub fn empty_flags() -> (flags: [bool; 256])
    ensures
        forall|r: int| 0 <= r < 256 ==> !flags@[r],
{
    [false; 256]
}

/// Sets the flag of register `r`.
pub fn mark(flags: &mut [bool; 256], r: u8)
    ensures
        final(flags)@ == old(flags)@.update(r as int, true),
{
    flags[r as usize] = true;
}

/// Sets the flags of the registers `start + i` (modulo 256) for every `i < len`.
pub fn mark_span(flags: &mut [bool; 256], start: u64, len: u64)
    requires
        start <= 256,
    ensures
        forall|r: u8|
            #![trigger final(flags)@[r as int]]
            final(flags)@[r as int] == (old(flags)@[r as int] || reg_span(start as int, len as int).contains(r)),
{
    let bound: u64 = if len < 256 { len } else { 256 };
    let mut i: u64 = 0;
    while i < bound
        invariant
            start <= 256,
            i <= bound,
            bound <= len,
            bound <= 256,
            len >= 256 ==> bound == 256,
            forall|r: u8|
                #![trigger flags@[r as int]]
                flags@[r as int] == (old(flags)@[r as int] || reg_span(start as int, i as int).contains(r)),
        decreases bound - i,
    {
        let r: u8 = ((start + i) % 256) as u8;
        proof {
            assert forall|x: u8| reg_span(start as int, (i + 1) as int).contains(x)
                == (reg_span(start as int, i as int).contains(x) || x == r) by {
                if reg_span(start as int, (i + 1) as int).contains(x) {
                    let j = choose|j: int| 0 <= j < i + 1 && x as int == span_slot(start as int, j);
                    if j < i {
                        assert(reg_span(start as int, i as int).contains(x));
                    }
                }
                if x == r {
                    assert(x as int == span_slot(start as int, i as int));
                }
                if reg_span(start as int, i as int).contains(x) {
                    let j = choose|j: int| 0 <= j < i && x as int == span_slot(start as int, j);
                    assert(0 <= j < i + 1);
                }
            }
        }
        flags[r as usize] = true;
        i = i + 1;
    }
    proof {
        if len > 256 {
            assert forall|x: u8| reg_span(start as int, len as int).contains(x)
                implies reg_span(start as int, 256).contains(x) by {
                let j: int = if (x as int) >= (start as int) % 256 { x as int - (start as int) % 256 } else {
                    x as int + 256 - (start as int) % 256
                };
                assert(0 <= j < 256);
                assert(x as int == span_slot(start as int, j));
            }
            assert forall|x: u8| reg_span(start as int, 256).contains(x)
                implies reg_span(start as int, len as int).contains(x) by {
                let j = choose|j: int| 0 <= j < 256 && x as int == span_slot(start as int, j);
                assert(0 <= j < len);
            }
        }
    }
}

/// The flagged registers in ascending order.
pub fn flags_to_sorted_vec(flags: &[bool; 256]) -> (v: Vec<u8>)
    ensures
        forall|i: int, j: int| 0 <= i < j < v@.len() ==> v@[i] < v@[j],
        forall|r: u8| v@.contains(r) <==> flags@[r as int],
{
    let mut v: Vec<u8> = Vec::new();
    let mut r: usize = 0;
    while r < 256
        invariant
            r <= 256,
            forall|i: int, j: int| 0 <= i < j < v@.len() ==> v@[i] < v@[j],
            forall|i: int| 0 <= i < v@.len() ==> v@[i] < r,
            forall|x: u8| (x as int) < r ==> (v@.contains(x) <==> flags@[x as int]),
            forall|x: u8| (x as int) >= r ==> !v@.contains(x),
        decreases 256 - r,
    {
        let flag = flags[r];
        assert(flag == flags@[r as int]);
        if flag {
            let ghost old_v = v@;
            v.push(r as u8);
            proof {
                assert forall|x: u8| #![trigger v@.contains(x)] v@.contains(x) <==> (old_v.contains(x) || x == r as u8) by {
                    if v@.contains(x) {
                        let k = choose|k: int| 0 <= k < v@.len() && v@[k] == x;
                        if k < old_v.len() {
                            assert(old_v[k] == x);
                        }
                    }
                    if old_v.contains(x) {
                        let k = choose|k: int| 0 <= k < old_v.len() && old_v[k] == x;
                        assert(v@[k] == x);
                    }
                    if x == r as u8 {
                        assert(v@[old_v.len() as int] == x);
                    }
                }
            }
        } else {
            assert(!v@.contains(r as u8));
        }
        assert forall|x: u8| (x as int) < r + 1 implies (v@.contains(x) <==> flags@[x as int]) by {
            if (x as int) == r {
                assert(x == r as u8);
            }
        }
        r = r + 1;
    }
    v
}

/// The flagged registers as a hash set.
pub fn flags_to_hash_set(flags: &[bool; 256]) -> (s: HashSet<u8>)
    ensures
        s@ == flagged(flags@),
{
    let mut s: HashSet<u8> = HashSet::new();
    let mut r: usize = 0;
    while r < 256
        invariant
            r <= 256,
            forall|x: u8| s@.contains(x) <==> ((x as int) < r && flags@[x as int]),
        decreases 256 - r,
    {
        if flags[r] {
            s.insert(r as u8);
        }
        r = r + 1;
    }
    assert(s@ =~= flagged(flags@));
    s
}

} // verus!
