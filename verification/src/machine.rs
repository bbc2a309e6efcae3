//! The executable machine. Every operation is verified against the abstract
//! transition model: the machine's view is a `model::State`, and each method
//! says in its contract which state it moves to.

use vstd::prelude::*;

use crate::model::{
    lemma_decode_wf, lemma_wrap_add_agrees, lemma_wrap_mul_agrees, spec_decode, spec_step, Effect,
    Fault, FaultKind, Instr, Outcome, State,
};
use std::collections::HashMap;

verus! {

/// The heap as the model sees it: each live array as the sequence of words
/// it holds.
pub open spec fn heap_view(m: Map<u32, Vec<u32>>) -> Map<u32, Seq<u32>> {
    Map::new(|id: u32| m.dom().contains(id), |id: u32| m[id]@)
}

proof fn lemma_heap_view_dom(m: Map<u32, Vec<u32>>)
    ensures
        heap_view(m).dom() == m.dom(),
{
    assert(heap_view(m).dom() =~= m.dom());
}

proof fn lemma_heap_view_insert(m: Map<u32, Vec<u32>>, id: u32, v: Vec<u32>)
    ensures
        heap_view(m.insert(id, v)) == heap_view(m).insert(id, v@),
{
    assert(heap_view(m.insert(id, v)) =~= heap_view(m).insert(id, v@));
}

proof fn lemma_heap_view_remove(m: Map<u32, Vec<u32>>, id: u32)
    ensures
        heap_view(m.remove(id)) == heap_view(m).remove(id),
{
    assert(heap_view(m.remove(id)) =~= heap_view(m).remove(id));
}

/// The virtual machine: eight 32-bit registers, the array heap (id 0 holds
/// the running program), the LIFO list of freed ids, the execution finger,
/// the register waiting for an input byte after a NeedInput effect, and the
/// halt flag.
pub struct UniversalMachine {
    regs: Vec<u32>,
    arrays: HashMap<u32, Vec<u32>>,
    free_ids: Vec<u32>,
    finger: usize,
    pending: Option<usize>,
    halted: bool,
}

impl View for UniversalMachine {
    type V = State;

    closed spec fn view(&self) -> State {
        State {
            regs: self.regs@,
            heap: heap_view(self.arrays@),
            free: self.free_ids@,
            finger: self.finger,
            pending: self.pending,
            halted: self.halted,
        }
    }
}

impl UniversalMachine {
    /// Builds a machine over the given word sequence: it becomes array 0 and
    /// the running program, the registers are zeroed, the finger is at 0.
    pub fn new(program: Vec<u32>) -> (m: Self)
        ensures
            m@ == State::initial(program@),
            m@.wf(),
    {
        let ghost p = program@;
        proof {
            vstd::std_specs::vec::axiom_spec_len(&program);
        }
        let mut regs: Vec<u32> = Vec::new();
        regs.push(0);
        regs.push(0);
        regs.push(0);
        regs.push(0);
        regs.push(0);
        regs.push(0);
        regs.push(0);
        regs.push(0);
        let mut arrays: HashMap<u32, Vec<u32>> = HashMap::new();
        arrays.insert(0, program);
        let m = UniversalMachine {
            regs,
            arrays,
            free_ids: Vec::new(),
            finger: 0,
            pending: None,
            halted: false,
        };
        proof {
            assert(m.regs@ =~= Seq::new(8, |i: int| 0u32));
            assert(heap_view(m.arrays@) =~= Map::empty().insert(0u32, p));
            assert(m@ =~= State::initial(p));
            lemma_heap_view_dom(m.arrays@);
        }
        m
    }

    /// Reads register `r`.
    pub fn reg(&self, r: usize) -> (v: u32)
        requires
            self@.wf(),
            r < 8,
        ensures
            v == self@.regs[r as int],
    {
        self.regs[r]
    }

    /// True once the Halt operator has run.
    pub fn is_halted(&self) -> (b: bool)
        ensures
            b == self@.halted,
    {
        self.halted
    }

    /// The execution finger: the index in array 0 of the next fetch.
    pub fn finger(&self) -> (f: usize)
        ensures
            f == self@.finger,
    {
        self.finger
    }

    /// True between a NeedInput effect and the `provide_input` answering it.
    pub fn awaiting_input(&self) -> (b: bool)
        ensures
            b == (self@.pending is Some),
    {
        self.pending.is_some()
    }

    /// Creates a zero-filled array of `size` words and returns its id: the
    /// most recently freed id when one is available, else the count of live
    /// arrays truncated to 32 bits.
    pub fn allocate(&mut self, size: u32) -> (id: u32)
        requires
            old(self)@.wf(),
        ensures
            final(self)@.wf(),
            id == old(self)@.alloc_id(),
            final(self)@ == old(self)@.allocated(size),
    {
        proof {
            lemma_heap_view_dom(self.arrays@);
        }
        let id = match self.free_ids.pop() {
            Some(top) => top,
            None => #[verifier::truncate] (self.arrays.len() as u32),
        };
        let mut arr: Vec<u32> = Vec::new();
        let mut i: u32 = 0;
        while i < size
            invariant
                i <= size,
                arr@.len() == i as int,
                forall|j: int| 0 <= j < i as int ==> arr@[j] == 0u32,
            decreases size - i,
        {
            arr.push(0);
            i = i + 1;
        }
        proof {
            assert(arr@ =~= Seq::new(size as nat, |j: int| 0u32));
        }
        let ghost m0 = self.arrays@;
        let ghost av = arr;
        self.arrays.insert(id, arr);
        proof {
            lemma_heap_view_insert(m0, id, av);
            assert(self@ =~= old(self)@.allocated(size));
        }
        id
    }

    /// Frees the array under `id` and pushes the id onto the free list.
    /// Faults on id 0 (a protocol violation) and on an unknown id (a bounds
    /// violation), leaving the machine untouched.
    pub fn abandon(&mut self, id: u32) -> (r: Result<(), FaultKind>)
        requires
            old(self)@.wf(),
        ensures
            final(self)@.wf(),
            old(self)@.abandon_ok(id) ==> r == Ok::<(), FaultKind>(()) && final(self)@ == old(
                self,
            )@.abandoned(id),
            id == 0 ==> r == Err::<(), FaultKind>(FaultKind::Protocol) && final(self)@ == old(
                self,
            )@,
            id != 0 && !old(self)@.heap.contains_key(id) ==> r == Err::<(), FaultKind>(
                FaultKind::Bounds,
            ) && final(self)@ == old(self)@,
    {
        proof {
            lemma_heap_view_dom(self.arrays@);
        }
        if id == 0 {
            return Err(FaultKind::Protocol);
        }
        let ghost m0 = self.arrays@;
        match self.arrays.remove(&id) {
            None => {
                proof {
                    assert(self.arrays@ =~= m0);
                }
                Err(FaultKind::Bounds)
            },
            Some(_) => {
                self.free_ids.push(id);
                proof {
                    lemma_heap_view_remove(m0, id);
                    assert(self@ =~= old(self)@.abandoned(id));
                }
                Ok(())
            },
        }
    }

    /// Reads the word at `offset` of array `id`; faults on an unknown id or
    /// an offset at or past the array's end.
    pub fn array_index(&self, id: u32, offset: u32) -> (r: Result<u32, FaultKind>)
        ensures
            self@.index_ok(id, offset) ==> r == Ok::<u32, FaultKind>(
                self@.heap[id][offset as int],
            ),
            !self@.index_ok(id, offset) ==> r == Err::<u32, FaultKind>(FaultKind::Bounds),
    {
        proof {
            lemma_heap_view_dom(self.arrays@);
        }
        match self.arrays.get(&id) {
            None => Err(FaultKind::Bounds),
            Some(arr) => {
                if (offset as usize) < arr.len() {
                    Ok(arr[offset as usize])
                } else {
                    Err(FaultKind::Bounds)
                }
            },
        }
    }

    /// Writes `value` at `offset` of array `id`, with the same presence and
    /// bounds checks as `array_index`; a fault leaves the machine untouched.
    pub fn array_amend(&mut self, id: u32, offset: u32, value: u32) -> (r: Result<(), FaultKind>)
        requires
            old(self)@.wf(),
        ensures
            final(self)@.wf(),
            old(self)@.index_ok(id, offset) ==> r == Ok::<(), FaultKind>(()) && final(self)@ == old(
                self,
            )@.amended(id, offset, value),
            !old(self)@.index_ok(id, offset) ==> r == Err::<(), FaultKind>(FaultKind::Bounds)
                && final(self)@ == old(self)@,
    {
        proof {
            lemma_heap_view_dom(self.arrays@);
        }
        let ok = match self.arrays.get(&id) {
            None => false,
            Some(arr) => (offset as usize) < arr.len(),
        };
        if !ok {
            return Err(FaultKind::Bounds);
        }
        let ghost m0 = self.arrays@;
        let mut arr = match self.arrays.remove(&id) {
            Some(arr) => arr,
            None => {
                proof {
                    assert(false);
                }
                Vec::new()
            },
        };
        arr[offset as usize] = value;
        let ghost av = arr;
        self.arrays.insert(id, arr);
        proof {
            lemma_heap_view_remove(m0, id);
            lemma_heap_view_insert(m0.remove(id), id, av);
            assert(self@.heap =~= old(self)@.amended(id, offset, value).heap);
            assert(self@ =~= old(self)@.amended(id, offset, value));
        }
        Ok(())
    }

    /// Runs exactly one fetch-decode-execute step, the machine's sole
    /// transition: the platter under the finger in array 0 is decoded and
    /// executed as `spec_step` says. On success the returned effect tells
    /// the host what to do; a fault is returned with the machine untouched.
    pub fn step(&mut self) -> (r: Result<Effect, Fault>)
        requires
            old(self)@.wf(),
            !old(self)@.halted,
            old(self)@.pending is None,
        ensures
            final(self)@.wf(),
            match spec_step(old(self)@) {
                Outcome::Step { post, eff } => r == Ok::<Effect, Fault>(eff) && final(self)@
                    == post,
                Outcome::Faulted { fault } => r == Err::<Effect, Fault>(fault) && final(self)@
                    == old(self)@,
            },
    {
        let ghost pre = self@;
        proof {
            lemma_heap_view_dom(self.arrays@);
        }
        let finger = self.finger;
        let prog = match self.arrays.get(&0) {
            Some(p) => p,
            None => {
                proof {
                    assert(false);
                }
                return Err(Fault { kind: FaultKind::Protocol, finger, operator: None });
            },
        };
        if finger >= prog.len() {
            return Err(Fault { kind: FaultKind::Protocol, finger, operator: None });
        }
        let instr = prog[finger];
        proof {
            assert(pre.heap[0u32] == prog@);
        }
        let next_finger = finger + 1;
        let opcode = instr >> 28;
        let d = decode(instr);
        match d {
            Instr::CondMove { a, b, c } => {
                if self.regs[c] != 0 {
                    let v = self.regs[b];
                    self.regs[a] = v;
                }
                self.finger = next_finger;
                Ok(Effect::Proceed)
            },
            Instr::ArrayIndex { a, b, c } => {
                let id = self.regs[b];
                let off = self.regs[c];
                match self.array_index(id, off) {
                    Ok(v) => {
                        self.regs[a] = v;
                        self.finger = next_finger;
                        Ok(Effect::Proceed)
                    },
                    Err(kind) => Err(Fault { kind, finger, operator: Some(opcode) }),
                }
            },
            Instr::ArrayAmend { a, b, c } => {
                let id = self.regs[a];
                let off = self.regs[b];
                let val = self.regs[c];
                match self.array_amend(id, off, val) {
                    Ok(()) => {
                        self.finger = next_finger;
                        Ok(Effect::Proceed)
                    },
                    Err(kind) => Err(Fault { kind, finger, operator: Some(opcode) }),
                }
            },
            Instr::Add { a, b, c } => {
                let x = self.regs[b];
                let y = self.regs[c];
                proof {
                    lemma_wrap_add_agrees(x, y);
                }
                self.regs[a] = x.wrapping_add(y);
                self.finger = next_finger;
                Ok(Effect::Proceed)
            },
            Instr::Mul { a, b, c } => {
                let x = self.regs[b];
                let y = self.regs[c];
                proof {
                    lemma_wrap_mul_agrees(x, y);
                }
                self.regs[a] = x.wrapping_mul(y);
                self.finger = next_finger;
                Ok(Effect::Proceed)
            },
            Instr::Div { a, b, c } => {
                let y = self.regs[c];
                if y == 0 {
                    return Err(Fault { kind: FaultKind::Arith, finger, operator: Some(opcode) });
                }
                let x = self.regs[b];
                self.regs[a] = x / y;
                self.finger = next_finger;
                Ok(Effect::Proceed)
            },
            Instr::NotAnd { a, b, c } => {
                let x = self.regs[b];
                let y = self.regs[c];
                self.regs[a] = !(x & y);
                self.finger = next_finger;
                Ok(Effect::Proceed)
            },
            Instr::Halt => {
                self.halted = true;
                self.finger = next_finger;
                Ok(Effect::Halted)
            },
            Instr::Alloc { b, c } => {
                let size = self.regs[c];
                let id = self.allocate(size);
                self.regs[b] = id;
                self.finger = next_finger;
                Ok(Effect::Proceed)
            },
            Instr::Abandon { c } => {
                let id = self.regs[c];
                match self.abandon(id) {
                    Ok(()) => {
                        self.finger = next_finger;
                        Ok(Effect::Proceed)
                    },
                    Err(kind) => Err(Fault { kind, finger, operator: Some(opcode) }),
                }
            },
            Instr::Output { c } => {
                let v = self.regs[c];
                if v > 255 {
                    return Err(Fault { kind: FaultKind::Protocol, finger, operator: Some(opcode) });
                }
                self.finger = next_finger;
                Ok(Effect::Output { byte: v as u8 })
            },
            Instr::Input { c } => {
                self.pending = Some(c);
                self.finger = next_finger;
                Ok(Effect::NeedInput)
            },
            Instr::LoadProgram { b, c } => {
                let src = self.regs[b];
                if src != 0 {
                    let ghost m0 = self.arrays@;
                    let copied = match self.arrays.get(&src) {
                        None => {
                            return Err(
                                Fault { kind: FaultKind::Bounds, finger, operator: Some(opcode) },
                            );
                        },
                        Some(arr) => arr.clone(),
                    };
                    proof {
                        assert(copied@ =~= pre.heap[src]);
                    }
                    let ghost cv = copied;
                    self.arrays.insert(0, copied);
                    proof {
                        lemma_heap_view_insert(m0, 0u32, cv);
                    }
                }
                let target = self.regs[c];
                self.finger = target as usize;
                Ok(Effect::Proceed)
            },
            Instr::Ortho { a, value } => {
                self.regs[a] = value;
                self.finger = next_finger;
                Ok(Effect::Proceed)
            },
            Instr::Invalid { op } => Err(Fault { kind: FaultKind::Decode, finger, operator: Some(op) }),
        }
    }

    /// Answers the NeedInput effect of the previous step: stores the byte
    /// read from the input stream into the waiting register, or the all-ones
    /// word when the stream has ended.
    pub fn provide_input(&mut self, byte: Option<u8>)
        requires
            old(self)@.wf(),
            old(self)@.pending is Some,
        ensures
            final(self)@.wf(),
            final(self)@ == old(self)@.feed(byte),
    {
        let r = match self.pending {
            Some(r) => r,
            None => {
                proof {
                    assert(false);
                }
                0
            },
        };
        let v: u32 = match byte {
            Some(b) => b as u32,
            None => 0xFFFF_FFFF,
        };
        self.regs[r] = v;
        self.pending = None;
    }
}

/// Decodes one platter into its operator's instruction form.
pub fn decode(instr: u32) -> (d: Instr)
    ensures
        d == spec_decode(instr),
        d.wf(),
{
    proof {
        lemma_decode_wf(instr);
    }
    let op = instr >> 28;
    let a = ((instr >> 6) & 0x7) as usize;
    let b = ((instr >> 3) & 0x7) as usize;
    let c = (instr & 0x7) as usize;
    match op {
        0 => Instr::CondMove { a, b, c },
        1 => Instr::ArrayIndex { a, b, c },
        2 => Instr::ArrayAmend { a, b, c },
        3 => Instr::Add { a, b, c },
        4 => Instr::Mul { a, b, c },
        5 => Instr::Div { a, b, c },
        6 => Instr::NotAnd { a, b, c },
        7 => Instr::Halt,
        8 => Instr::Alloc { b, c },
        9 => Instr::Abandon { c },
        10 => Instr::Output { c },
        11 => Instr::Input { c },
        12 => Instr::LoadProgram { b, c },
        13 => Instr::Ortho { a: ((instr >> 25) & 0x7) as usize, value: instr & 0x1FF_FFFF },
        _ => Instr::Invalid { op },
    }
}

} // verus!
