//! Laws of the machine, stated over the abstract model and proved once and
//! for all. Each law speaks about `spec_step` or the heap operations that the
//! executable machine is verified against.

use vstd::prelude::*;

use crate::model::{fault_at, spec_decode, spec_step, Effect, FaultKind, Instr, Outcome, State};

verus! {

/// Well-formedness is an invariant of execution; in particular array 0 —
/// the running program — exists for the machine's whole lifetime.
pub proof fn lemma_step_preserves_wf(pre: State)
    requires
        pre.wf(),
    ensures
        (spec_step(pre) matches Outcome::Step { post, eff } ==> post.wf()
            && post.heap.contains_key(0u32)),
{
    if pre.fetch_ok() {
        crate::model::lemma_decode_wf(pre.cur_instr());
    }
}

/// A program holding a single Halt platter stops at the very first step:
/// the effect is Halted (in particular no Output effect is ever produced),
/// and registers, heap, free list and pending input keep their initial
/// values.
pub proof fn lemma_halt_program(prog: Seq<u32>)
    requires
        prog.len() == 1,
        spec_decode(prog[0]) is Halt,
    ensures
        ({
            let pre = State::initial(prog);
            spec_step(pre) matches Outcome::Step { post, eff } && eff == Effect::Halted
                && post.halted && post.regs == pre.regs && post.heap == pre.heap && post.free
                == pre.free && post.pending == pre.pending && post.finger == 1usize
        }),
{
    let pre = State::initial(prog);
    assert(pre.heap[0u32] == prog);
}

/// Orthography: for any register selector below 8 and any 25-bit literal,
/// executing the encoded platter writes exactly the literal into exactly
/// that register; every other register and all other machine state except
/// the finger stay as they were.
pub proof fn lemma_orthography(pre: State, r: u32, v: u32)
    requires
        pre.wf(),
        pre.fetch_ok(),
        r < 8,
        v < 0x200_0000,
        pre.cur_instr() == (13u32 << 28) | (r << 25) | v,
    ensures
        spec_step(pre) matches Outcome::Step { post, eff } && eff == Effect::Proceed
            && post.regs[r as int] == v && (forall|i: int|
            0 <= i < 8 && i != r as int ==> post.regs[i] == pre.regs[i]) && post.heap == pre.heap
            && post.free == pre.free && post.pending == pre.pending && post.halted == pre.halted
            && post.finger == pre.finger + 1,
{
    assert(((13u32 << 28) | (r << 25) | v) >> 28 == 13u32) by (bit_vector)
        requires
            r < 8u32,
            v < 0x200_0000u32,
    ;
    assert((((13u32 << 28) | (r << 25) | v) >> 25) & 0x7 == r) by (bit_vector)
        requires
            r < 8u32,
            v < 0x200_0000u32,
    ;
    assert(((13u32 << 28) | (r << 25) | v) & 0x1FF_FFFF == v) by (bit_vector)
        requires
            r < 8u32,
            v < 0x200_0000u32,
    ;
}

/// Division faults exactly when the divisor register reads zero, whatever
/// the dividend holds.
pub proof fn lemma_div_by_zero_faults(pre: State, a: usize, b: usize, c: usize)
    requires
        pre.wf(),
        pre.fetch_ok(),
        spec_decode(pre.cur_instr()) == (Instr::Div { a, b, c }),
        pre.regs[c as int] == 0,
    ensures
        spec_step(pre) == fault_at(FaultKind::Arith, pre.finger, 5u32),
{
}

/// Allocating, abandoning the fresh array, then allocating again with no
/// allocation in between hands out the identical id: the free list is
/// last-in, first-out. (A heap of fewer than 2^32 live arrays keeps the
/// count-based fallback id from truncating to 0.)
pub proof fn lemma_alloc_abandon_alloc(s: State, size: u32)
    requires
        s.wf(),
        s.heap.dom().len() < 0x1_0000_0000,
    ensures
        ({
            let id = s.alloc_id();
            let s1 = s.allocated(size);
            &&& s1.abandon_ok(id)
            &&& s1.abandoned(id).alloc_id() == id
        }),
{
    let id = s.alloc_id();
    if s.free.len() == 0 {
        if s.heap.dom().len() == 0 {
            s.heap.dom().lemma_len0_is_empty();
        }
        assert(s.heap.dom().len() >= 1);
    }
    assert(id != 0);
    let s1 = s.allocated(size);
    assert(s1.heap.contains_key(id));
    let s2 = s1.abandoned(id);
    assert(s2.free.last() == id);
}

/// Abandoning id 0 never succeeds, whatever the heap holds.
pub proof fn lemma_abandon_zero_never_ok(s: State)
    ensures
        !s.abandon_ok(0u32),
{
}

/// An Abandonment instruction whose register reads 0 faults as a protocol
/// violation, independent of the heap's contents.
pub proof fn lemma_abandon_zero_faults(pre: State, c: usize)
    requires
        pre.wf(),
        pre.fetch_ok(),
        spec_decode(pre.cur_instr()) == (Instr::Abandon { c }),
        pre.regs[c as int] == 0,
    ensures
        spec_step(pre) == fault_at(FaultKind::Protocol, pre.finger, 9u32),
{
}

/// No offset at or past an array's length is ever readable or writable; in
/// particular a zero-length array admits no offset at all. An unknown id is
/// just as unreadable.
pub proof fn lemma_offset_out_of_bounds(s: State, id: u32, offset: u32)
    requires
        s.heap.contains_key(id) ==> offset >= s.heap[id].len(),
    ensures
        !s.index_ok(id, offset),
{
}

/// An ArrayIndex instruction on an unknown id or an out-of-bounds offset
/// faults and changes nothing.
pub proof fn lemma_index_fault(pre: State, a: usize, b: usize, c: usize)
    requires
        pre.wf(),
        pre.fetch_ok(),
        spec_decode(pre.cur_instr()) == (Instr::ArrayIndex { a, b, c }),
        !pre.index_ok(pre.regs[b as int], pre.regs[c as int]),
    ensures
        spec_step(pre) == fault_at(FaultKind::Bounds, pre.finger, 1u32),
{
}

/// An ArrayAmendment instruction on an unknown id or an out-of-bounds offset
/// faults and changes nothing.
pub proof fn lemma_amend_fault(pre: State, a: usize, b: usize, c: usize)
    requires
        pre.wf(),
        pre.fetch_ok(),
        spec_decode(pre.cur_instr()) == (Instr::ArrayAmend { a, b, c }),
        !pre.index_ok(pre.regs[a as int], pre.regs[b as int]),
    ensures
        spec_step(pre) == fault_at(FaultKind::Bounds, pre.finger, 2u32),
{
}

/// LoadProgram from a nonzero live source id installs a copy: the running
/// program equals the source at load time, the finger lands exactly on the
/// target register's value, and any later amendment of the source leaves the
/// running program untouched.
pub proof fn lemma_load_program(pre: State, b: usize, c: usize)
    requires
        pre.wf(),
        pre.fetch_ok(),
        spec_decode(pre.cur_instr()) == (Instr::LoadProgram { b, c }),
        pre.regs[b as int] != 0,
        pre.heap.contains_key(pre.regs[b as int]),
    ensures
        (spec_step(pre) matches Outcome::Step { post, eff } && eff == Effect::Proceed
            && post.heap[0u32] == pre.heap[pre.regs[b as int]] && post.finger == pre.regs[c as int]
            && (forall|off: u32, val: u32|
            (#[trigger] post.amended(pre.regs[b as int], off, val)).heap[0u32] == post.heap[0u32])),
{
}

/// Output emits exactly the selected register's value as one byte when that
/// value is at most 255, and faults as a protocol violation on any larger
/// value.
pub proof fn lemma_output(pre: State, c: usize)
    requires
        pre.wf(),
        pre.fetch_ok(),
        spec_decode(pre.cur_instr()) == (Instr::Output { c }),
    ensures
        pre.regs[c as int] <= 255 ==> spec_step(pre) == (Outcome::Step {
            post: State { finger: (pre.finger + 1) as usize, ..pre },
            eff: Effect::Output { byte: pre.regs[c as int] as u8 },
        }),
        pre.regs[c as int] <= 255 ==> pre.regs[c as int] as u8 == pre.regs[c as int],
        pre.regs[c as int] > 255 ==> spec_step(pre) == fault_at(
            FaultKind::Protocol,
            pre.finger,
            10u32,
        ),
{
}

} // verus!
