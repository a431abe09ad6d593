//! Which parent a branch value belongs to.
//!
//! The game evaluates a pair's affinity as a total and, per parent, a branch
//! value; the two parents may come in either order from one call to the next.
//! The overlay keeps "Parent 1" and "Parent 2" attached to the same parent
//! objects (identified by their addresses) across calls.
use vstd::prelude::*;

verus! {

/// The four displayed slots: branch value 1, branch value 2, and the parent
/// address shown in slot 1 and slot 2 (`usize::MAX` when a slot is empty).
pub type Slots = (i32, i32, usize, usize);

/// A parent address that denotes a parent: neither null nor the empty marker.
pub open spec fn ptr_set(p: usize) -> bool {
    p != 0 && p != usize::MAX
}

#[derive(Clone, Copy, Debug, PartialEq, Eq)]
pub enum ParentSlot {
    One,
    Two,
}

/// No parent shown, no value shown.
pub open spec fn empty_slots() -> Slots {
    (-1i32, -1i32, usize::MAX, usize::MAX)
}

/// The slot in which a parent address was shown last time, if any.
pub open spec fn spec_slot_of(p: usize, lp1: usize, lp2: usize) -> Option<ParentSlot> {
    if ptr_set(p) && p == lp1 {
        Some(ParentSlot::One)
    } else if ptr_set(p) && p == lp2 {
        Some(ParentSlot::Two)
    } else {
        None
    }
}

/// Slots filled in the order of the call's arguments.
pub open spec fn spec_call_order(p1: usize, p2: usize, va: i32, vb: i32) -> Slots {
    (
        if ptr_set(p1) { va } else { -1i32 },
        if ptr_set(p2) { vb } else { -1i32 },
        if ptr_set(p1) { p1 } else { usize::MAX },
        if ptr_set(p2) { p2 } else { usize::MAX },
    )
}

/// A value and its parent put into one slot.
pub open spec fn put(slot: ParentSlot, val: i32, ptr: usize, s: Slots) -> Slots {
    match slot {
        ParentSlot::One => (val, s.1, ptr, s.3),
        ParentSlot::Two => (s.0, val, s.2, ptr),
    }
}

/// A parent not seen before goes opposite the other parent's slot, or else
/// into the first empty slot.
pub open spec fn spec_place_new(ptr: usize, val: i32, other: Option<ParentSlot>, s: Slots) -> Slots {
    match other {
        Some(ParentSlot::One) => put(ParentSlot::Two, val, ptr, s),
        Some(ParentSlot::Two) => put(ParentSlot::One, val, ptr, s),
        None => if !ptr_set(s.2) {
            put(ParentSlot::One, val, ptr, s)
        } else if !ptr_set(s.3) {
            put(ParentSlot::Two, val, ptr, s)
        } else {
            s
        },
    }
}

/// The slots for a call with parents `p1`, `p2` and branch values `va`, `vb`,
/// given the parents `lp1`, `lp2` shown before: a parent seen before keeps its
/// slot, a new one takes the remaining slot; when nothing was shown before,
/// or no parent is recognised while one is new, the call's order is used.
pub open spec fn assigned(p1: usize, p2: usize, va: i32, vb: i32, lp1: usize, lp2: usize) -> Slots {
    let a = spec_slot_of(p1, lp1, lp2);
    let b = spec_slot_of(p2, lp1, lp2);
    let a_new = ptr_set(p1) && a is None;
    let b_new = ptr_set(p2) && b is None;
    if !ptr_set(lp1) && !ptr_set(lp2) {
        spec_call_order(p1, p2, va, vb)
    } else if (a_new && b_new) || (a_new && !ptr_set(p2)) || (b_new && !ptr_set(p1)) {
        spec_call_order(p1, p2, va, vb)
    } else {
        let s1 = match a {
            Some(x) => put(x, va, p1, empty_slots()),
            None => empty_slots(),
        };
        let s2 = match b {
            Some(x) => put(x, vb, p2, s1),
            None => s1,
        };
        let s3 = if a_new {
            spec_place_new(p1, va, b, s2)
        } else {
            s2
        };
        if b_new {
            spec_place_new(p2, vb, a, s3)
        } else {
            s3
        }
    }
}

/// Whether an address denotes a parent.
pub fn parent_ptr_set(p: usize) -> (r: bool)
    ensures
        r == ptr_set(p),
{
    p != 0 && p != usize::MAX
}

/// The slot in which the parent was shown last time, if any.
pub fn slot_of(p: usize, lp1: usize, lp2: usize) -> (r: Option<ParentSlot>)
    ensures
        r == spec_slot_of(p, lp1, lp2),
{
    if parent_ptr_set(p) && p == lp1 {
        Some(ParentSlot::One)
    } else if parent_ptr_set(p) && p == lp2 {
        Some(ParentSlot::Two)
    } else {
        None
    }
}

/// The slots filled in the call's argument order.
pub fn call_order(p1: usize, p2: usize, va: i32, vb: i32) -> (r: Slots)
    ensures
        r == spec_call_order(p1, p2, va, vb),
{
    (
        if parent_ptr_set(p1) {
            va
        } else {
            -1
        },
        if parent_ptr_set(p2) {
            vb
        } else {
            -1
        },
        if parent_ptr_set(p1) {
            p1
        } else {
            usize::MAX
        },
        if parent_ptr_set(p2) {
            p2
        } else {
            usize::MAX
        },
    )
}

/// Puts a value and its parent into one slot.
pub fn set_slot(
    slot: ParentSlot,
    val: i32,
    ptr: usize,
    s1: &mut i32,
    s2: &mut i32,
    op1: &mut usize,
    op2: &mut usize,
)
    ensures
        (*final(s1), *final(s2), *final(op1), *final(op2)) == put(
            slot,
            val,
            ptr,
            (*old(s1), *old(s2), *old(op1), *old(op2)),
        ),
{
    match slot {
        ParentSlot::One => {
            *s1 = val;
            *op1 = ptr;
        },
        ParentSlot::Two => {
            *s2 = val;
            *op2 = ptr;
        },
    }
}

/// Places a parent not seen before: opposite `other`, or in the first empty slot.
pub fn place_new(
    ptr: usize,
    val: i32,
    other: Option<ParentSlot>,
    s1: &mut i32,
    s2: &mut i32,
    op1: &mut usize,
    op2: &mut usize,
)
    ensures
        (*final(s1), *final(s2), *final(op1), *final(op2)) == spec_place_new(
            ptr,
            val,
            other,
            (*old(s1), *old(s2), *old(op1), *old(op2)),
        ),
{
    match other {
        Some(ParentSlot::One) => set_slot(ParentSlot::Two, val, ptr, s1, s2, op1, op2),
        Some(ParentSlot::Two) => set_slot(ParentSlot::One, val, ptr, s1, s2, op1, op2),
        None => {
            if !parent_ptr_set(*op1) {
                set_slot(ParentSlot::One, val, ptr, s1, s2, op1, op2)
            } else if !parent_ptr_set(*op2) {
                set_slot(ParentSlot::Two, val, ptr, s1, s2, op1, op2)
            }
        },
    }
}

/// Assigns the branch values of a call to the slots, keeping each parent seen
/// before in the slot it was shown in.
pub fn assign_by_identity(p1: usize, p2: usize, va: i32, vb: i32, lp1: usize, lp2: usize) -> (r:
    Slots)
    ensures
        r == assigned(p1, p2, va, vb, lp1, lp2),
{
    if !parent_ptr_set(lp1) && !parent_ptr_set(lp2) {
        return call_order(p1, p2, va, vb);
    }
    let a_slot = slot_of(p1, lp1, lp2);
    let b_slot = slot_of(p2, lp1, lp2);
    let a_new = parent_ptr_set(p1) && a_slot.is_none();
    let b_new = parent_ptr_set(p2) && b_slot.is_none();
    if (a_new && b_new) || (a_new && !parent_ptr_set(p2)) || (b_new && !parent_ptr_set(p1)) {
        return call_order(p1, p2, va, vb);
    }
    let mut s1: i32 = -1;
    let mut s2: i32 = -1;
    let mut op1: usize = usize::MAX;
    let mut op2: usize = usize::MAX;
    if let Some(s) = a_slot {
        set_slot(s, va, p1, &mut s1, &mut s2, &mut op1, &mut op2);
    }
    if let Some(s) = b_slot {
        set_slot(s, vb, p2, &mut s1, &mut s2, &mut op1, &mut op2);
    }
    if a_new {
        place_new(p1, va, b_slot, &mut s1, &mut s2, &mut op1, &mut op2);
    }
    if b_new {
        place_new(p2, vb, a_slot, &mut s1, &mut s2, &mut op1, &mut op2);
    }
    (s1, s2, op1, op2)
}

/// A slot is either empty (no parent, value -1) or shows one of the call's
/// parents together with that parent's own branch value.
pub open spec fn slot_sound(v: i32, op: usize, p1: usize, p2: usize, va: i32, vb: i32) -> bool {
    ||| (op == usize::MAX && v == -1i32)
    ||| (ptr_set(op) && op == p1 && v == va)
    ||| (ptr_set(op) && op == p2 && v == vb)
}

/// Fresh start: with no parent shown before, the slots follow the call's order.
pub proof fn lemma_fresh_start_uses_call_order(
    p1: usize,
    p2: usize,
    va: i32,
    vb: i32,
    lp1: usize,
    lp2: usize,
)
    requires
        !ptr_set(lp1),
        !ptr_set(lp2),
    ensures
        assigned(p1, p2, va, vb, lp1, lp2) == spec_call_order(p1, p2, va, vb),
{
}

/// Every slot either is empty or shows one of the call's parents with that
/// parent's branch value: a value is never shown under the other parent.
pub proof fn lemma_values_follow_parents(
    p1: usize,
    p2: usize,
    va: i32,
    vb: i32,
    lp1: usize,
    lp2: usize,
)
    ensures
        ({
            let r = assigned(p1, p2, va, vb, lp1, lp2);
            slot_sound(r.0, r.2, p1, p2, va, vb) && slot_sound(r.1, r.3, p1, p2, va, vb)
        }),
{
}

/// Every parent of the call is shown in one of the two slots.
pub proof fn lemma_parents_shown(p1: usize, p2: usize, va: i32, vb: i32, lp1: usize, lp2: usize)
    ensures
        ({
            let r = assigned(p1, p2, va, vb, lp1, lp2);
            &&& ptr_set(p1) ==> (r.2 == p1 || r.3 == p1)
            &&& ptr_set(p2) ==> (r.2 == p2 || r.3 == p2)
        }),
{
}

/// A parent shown before keeps its slot, whatever its position in the call
/// (for two distinct parents).
pub proof fn lemma_known_parent_keeps_slot(
    p1: usize,
    p2: usize,
    va: i32,
    vb: i32,
    lp1: usize,
    lp2: usize,
)
    requires
        p1 != p2,
    ensures
        ({
            let r = assigned(p1, p2, va, vb, lp1, lp2);
            &&& (ptr_set(p1) && p1 == lp1) ==> (r.2 == p1 && r.0 == va)
            &&& (ptr_set(p1) && p1 == lp2 && p1 != lp1) ==> (r.3 == p1 && r.1 == va)
            &&& (ptr_set(p2) && p2 == lp1) ==> (r.2 == p2 && r.0 == vb)
            &&& (ptr_set(p2) && p2 == lp2 && p2 != lp1) ==> (r.3 == p2 && r.1 == vb)
        }),
{
}

/// The game passing the same two parents in swapped order leaves the display
/// unchanged: each branch value stays under its parent.
pub proof fn lemma_swapped_call_keeps_display(p1: usize, p2: usize, va: i32, vb: i32)
    requires
        ptr_set(p1),
        ptr_set(p2),
        p1 != p2,
    ensures
        assigned(p2, p1, vb, va, p1, p2) == (va, vb, p1, p2),
        assigned(p1, p2, va, vb, p1, p2) == (va, vb, p1, p2),
{
}

/// With nothing shown before, the slots keep the call's argument order,
/// whatever the addresses: slot 1 gets the first parent and its value, slot 2
/// the second; a missing parent leaves its slot empty.
pub proof fn lemma_fresh_start_keeps_argument_order(
    p1: usize,
    p2: usize,
    va: i32,
    vb: i32,
    lp1: usize,
    lp2: usize,
)
    requires
        lp1 == 0 || lp1 == usize::MAX,
        lp2 == 0 || lp2 == usize::MAX,
    ensures
        (p1 != 0 && p1 != usize::MAX && p2 != 0 && p2 != usize::MAX) ==> assigned(
            p1,
            p2,
            va,
            vb,
            lp1,
            lp2,
        ) == (va, vb, p1, p2),
        (p1 != 0 && p1 != usize::MAX && (p2 == 0 || p2 == usize::MAX)) ==> assigned(
            p1,
            p2,
            va,
            vb,
            lp1,
            lp2,
        ) == (va, -1i32, p1, usize::MAX),
        ((p1 == 0 || p1 == usize::MAX) && p2 != 0 && p2 != usize::MAX) ==> assigned(
            p1,
            p2,
            va,
            vb,
            lp1,
            lp2,
        ) == (-1i32, vb, usize::MAX, p2),
{
}

} // verus!
