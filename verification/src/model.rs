//! Mathematical model of the machine: the abstract state, the instruction
//! decoder, and the one-step transition function that every executable
//! operation is verified against.

use vstd::prelude::*;

verus! {

/// Every way a running program can go wrong.
#[derive(Clone, Copy, Debug, PartialEq, Eq)]
pub enum FaultKind {
    /// The operator field of the fetched platter is not in 0..=13.
    Decode,
    /// A reference to an unknown array id, or an offset at or past the end
    /// of an array.
    Bounds,
    /// Division with a divisor of zero.
    Arith,
    /// An output value above 255, abandonment of array 0, or the execution
    /// finger standing at or past the end of the program at a fetch.
    Protocol,
}

/// A structured fault: its kind, the finger at which the faulting fetch
/// happened, and the operator field of the fetched platter (`None` when the
/// fetch itself failed, so that no platter was decoded).
#[derive(Clone, Copy, Debug, PartialEq, Eq)]
pub struct Fault {
    pub kind: FaultKind,
    pub finger: usize,
    pub operator: Option<u32>,
}

/// What one successful step asks of the host.
#[derive(Clone, Copy, Debug, PartialEq, Eq)]
pub enum Effect {
    /// The instruction is done; fetch the next one.
    Proceed,
    /// The Halt operator ran: the machine is stopped for good.
    Halted,
    /// Emit exactly this byte on the output stream.
    Output { byte: u8 },
    /// Read one byte from the input stream and hand it to `provide_input`
    /// before the next step.
    NeedInput,
}

/// A decoded platter. Register selectors are 3-bit fields, so every selector
/// is below 8; the Orthography literal is a 25-bit value.
#[derive(Clone, Copy, Debug, PartialEq, Eq)]
pub enum Instr {
    CondMove { a: usize, b: usize, c: usize },
    ArrayIndex { a: usize, b: usize, c: usize },
    ArrayAmend { a: usize, b: usize, c: usize },
    Add { a: usize, b: usize, c: usize },
    Mul { a: usize, b: usize, c: usize },
    Div { a: usize, b: usize, c: usize },
    NotAnd { a: usize, b: usize, c: usize },
    Halt,
    Alloc { b: usize, c: usize },
    Abandon { c: usize },
    Output { c: usize },
    Input { c: usize },
    LoadProgram { b: usize, c: usize },
    Ortho { a: usize, value: u32 },
    Invalid { op: u32 },
}

/// The abstract machine state: eight registers, the id-addressed array heap
/// (id 0 is the running program), the LIFO free-id list, the execution
/// finger, the register waiting for an input byte (if any), and whether the
/// Halt operator has run.
#[verifier::ext_equal]
pub ghost struct State {
    pub regs: Seq<u32>,
    pub heap: Map<u32, Seq<u32>>,
    pub free: Seq<u32>,
    pub finger: usize,
    pub pending: Option<usize>,
    pub halted: bool,
}

/// Addition wrapping modulo 2^32.
pub open spec fn wrap_add(x: u32, y: u32) -> u32 {
    ((x + y) % 0x1_0000_0000) as u32
}

/// Multiplication wrapping modulo 2^32.
pub open spec fn wrap_mul(x: u32, y: u32) -> u32 {
    ((x * y) % 0x1_0000_0000) as u32
}

/// Unsigned integer division, truncating toward zero.
pub open spec fn u32_div(x: u32, y: u32) -> u32
    recommends
        y != 0,
{
    x / y
}

/// `wrap_add` agrees with the standard library's wrapping addition.
pub proof fn lemma_wrap_add_agrees(x: u32, y: u32)
    ensures
        wrap_add(x, y) == vstd::wrapping::u32_specs::wrapping_add(x, y),
{
    if x + y <= u32::MAX {
        vstd::arithmetic::div_mod::lemma_small_mod((x + y) as nat, 0x1_0000_0000nat);
    } else {
        vstd::arithmetic::div_mod::lemma_mod_multiples_vanish(
            1,
            x + y - 0x1_0000_0000,
            0x1_0000_0000,
        );
        vstd::arithmetic::div_mod::lemma_small_mod(
            (x + y - 0x1_0000_0000) as nat,
            0x1_0000_0000nat,
        );
    }
}

/// `wrap_mul` agrees with the standard library's wrapping multiplication.
pub proof fn lemma_wrap_mul_agrees(x: u32, y: u32)
    ensures
        wrap_mul(x, y) == vstd::wrapping::u32_specs::wrapping_mul(x, y),
{
    assert(x * y == (x as nat * y as nat) as int);
}

/// The word an Input instruction stores: the byte read, or all ones at end
/// of stream.
pub open spec fn input_word(byte: Option<u8>) -> u32 {
    match byte {
        Some(b) => b as u32,
        None => 0xFFFF_FFFFu32,
    }
}

/// Decodes one platter. The operator is bits 31..28. Operators 0..=12 take
/// three 3-bit register selectors in the low bits; Orthography (13) takes a
/// selector in bits 27..25 and a 25-bit literal.
pub open spec fn spec_decode(instr: u32) -> Instr {
    let op = instr >> 28;
    let a = ((instr >> 6) & 0x7) as usize;
    let b = ((instr >> 3) & 0x7) as usize;
    let c = (instr & 0x7) as usize;
    if op == 0 {
        Instr::CondMove { a, b, c }
    } else if op == 1 {
        Instr::ArrayIndex { a, b, c }
    } else if op == 2 {
        Instr::ArrayAmend { a, b, c }
    } else if op == 3 {
        Instr::Add { a, b, c }
    } else if op == 4 {
        Instr::Mul { a, b, c }
    } else if op == 5 {
        Instr::Div { a, b, c }
    } else if op == 6 {
        Instr::NotAnd { a, b, c }
    } else if op == 7 {
        Instr::Halt
    } else if op == 8 {
        Instr::Alloc { b, c }
    } else if op == 9 {
        Instr::Abandon { c }
    } else if op == 10 {
        Instr::Output { c }
    } else if op == 11 {
        Instr::Input { c }
    } else if op == 12 {
        Instr::LoadProgram { b, c }
    } else if op == 13 {
        Instr::Ortho { a: ((instr >> 25) & 0x7) as usize, value: instr & 0x1FF_FFFF }
    } else {
        Instr::Invalid { op }
    }
}

impl Instr {
    /// Every register selector a decoded platter carries is below 8, an
    /// Orthography literal is below 2^25, and an invalid operator is above 13.
    pub open spec fn wf(self) -> bool {
        match self {
            Instr::CondMove { a, b, c } => a < 8 && b < 8 && c < 8,
            Instr::ArrayIndex { a, b, c } => a < 8 && b < 8 && c < 8,
            Instr::ArrayAmend { a, b, c } => a < 8 && b < 8 && c < 8,
            Instr::Add { a, b, c } => a < 8 && b < 8 && c < 8,
            Instr::Mul { a, b, c } => a < 8 && b < 8 && c < 8,
            Instr::Div { a, b, c } => a < 8 && b < 8 && c < 8,
            Instr::NotAnd { a, b, c } => a < 8 && b < 8 && c < 8,
            Instr::Halt => true,
            Instr::Alloc { b, c } => b < 8 && c < 8,
            Instr::Abandon { c } => c < 8,
            Instr::Output { c } => c < 8,
            Instr::Input { c } => c < 8,
            Instr::LoadProgram { b, c } => b < 8 && c < 8,
            Instr::Ortho { a, value } => a < 8 && value < 0x200_0000,
            Instr::Invalid { op } => op > 13,
        }
    }
}

/// Decoding any platter yields a well-formed instruction.
pub proof fn lemma_decode_wf(instr: u32)
    ensures
        spec_decode(instr).wf(),
{
    assert(((instr >> 6) & 0x7) < 8) by (bit_vector);
    assert(((instr >> 3) & 0x7) < 8) by (bit_vector);
    assert((instr & 0x7) < 8) by (bit_vector);
    assert(((instr >> 25) & 0x7) < 8) by (bit_vector);
    assert((instr & 0x1FF_FFFF) < 0x200_0000) by (bit_vector);
}

impl State {
    /// Structural soundness of a machine state: eight registers, a finite
    /// heap holding array 0, every array short enough to exist in memory,
    /// id 0 never on the free list, and any pending input register below 8.
    pub open spec fn wf(self) -> bool {
        &&& self.regs.len() == 8
        &&& self.heap.dom().finite()
        &&& self.heap.contains_key(0u32)
        &&& forall|id: u32| #[trigger] self.heap.contains_key(id) ==> self.heap[id].len() <= usize::MAX
        &&& forall|i: int| 0 <= i < self.free.len() ==> self.free[i] != 0u32
        &&& match self.pending {
            Some(r) => r < 8,
            None => true,
        }
    }

    /// The state a freshly constructed machine is in: the program is array 0,
    /// all registers are zero, nothing has been freed, the finger is at 0.
    pub open spec fn initial(prog: Seq<u32>) -> State {
        State {
            regs: Seq::new(8, |i: int| 0u32),
            heap: Map::empty().insert(0u32, prog),
            free: Seq::empty(),
            finger: 0usize,
            pending: None,
            halted: false,
        }
    }

    /// A fetch succeeds exactly when the finger is inside the program.
    pub open spec fn fetch_ok(self) -> bool {
        self.finger < self.heap[0u32].len()
    }

    /// The platter under the finger: the next instruction to execute.
    pub open spec fn cur_instr(self) -> u32
        recommends
            self.fetch_ok(),
    {
        self.heap[0u32][self.finger as int]
    }

    /// The id the allocator hands out next: the most recently freed id when
    /// one is available, else the count of live arrays truncated to 32 bits.
    pub open spec fn alloc_id(self) -> u32 {
        if self.free.len() > 0 {
            self.free.last()
        } else {
            self.heap.dom().len() as u32
        }
    }

    /// The state after allocating a zero-filled array of `size` words under
    /// the id `alloc_id` picks.
    pub open spec fn allocated(self, size: u32) -> State {
        State {
            heap: self.heap.insert(self.alloc_id(), Seq::new(size as nat, |i: int| 0u32)),
            free: if self.free.len() > 0 {
                self.free.drop_last()
            } else {
                self.free
            },
            ..self
        }
    }

    /// Abandonment succeeds exactly on a live id other than 0.
    pub open spec fn abandon_ok(self, id: u32) -> bool {
        id != 0 && self.heap.contains_key(id)
    }

    /// The state after abandoning `id`: the array is gone and the id sits on
    /// top of the free list.
    pub open spec fn abandoned(self, id: u32) -> State {
        State { heap: self.heap.remove(id), free: self.free.push(id), ..self }
    }

    /// Indexing and amendment succeed exactly on a live id with the offset
    /// inside the array.
    pub open spec fn index_ok(self, id: u32, offset: u32) -> bool {
        self.heap.contains_key(id) && offset < self.heap[id].len()
    }

    /// The state after writing `value` at `offset` of array `id`.
    pub open spec fn amended(self, id: u32, offset: u32, value: u32) -> State {
        State { heap: self.heap.insert(id, self.heap[id].update(offset as int, value)), ..self }
    }

    /// The state after the host answers an Input instruction: the waiting
    /// register takes the byte read, or all ones at end of stream.
    pub open spec fn feed(self, byte: Option<u8>) -> State {
        match self.pending {
            Some(r) => State {
                regs: self.regs.update(r as int, input_word(byte)),
                pending: None,
                ..self
            },
            None => self,
        }
    }
}

/// The outcome of one step: a successor state with an effect for the host,
/// or an unrecoverable fault.
pub ghost enum Outcome {
    Step { post: State, eff: Effect },
    Faulted { fault: Fault },
}

/// A fault raised by a decoded platter whose operator field is `opcode`.
pub open spec fn fault_at(kind: FaultKind, finger: usize, opcode: u32) -> Outcome {
    Outcome::Faulted { fault: Fault { kind, finger, operator: Some(opcode) } }
}

/// One fetch-decode-execute step over the abstract state. The platter at the
/// finger in array 0 is fetched (a finger at or past the end of the program
/// is a protocol fault), the finger moves past it, and the operator runs;
/// every fault leaves the state as it was.
pub open spec fn spec_step(pre: State) -> Outcome {
    let prog = pre.heap[0u32];
    if pre.finger >= prog.len() {
        Outcome::Faulted {
            fault: Fault { kind: FaultKind::Protocol, finger: pre.finger, operator: None },
        }
    } else {
        let instr = prog[pre.finger as int];
        let opcode = instr >> 28;
        let bumped = State { finger: (pre.finger + 1) as usize, ..pre };
        match spec_decode(instr) {
            Instr::CondMove { a, b, c } => Outcome::Step {
                post: if pre.regs[c as int] != 0 {
                    State { regs: pre.regs.update(a as int, pre.regs[b as int]), ..bumped }
                } else {
                    bumped
                },
                eff: Effect::Proceed,
            },
            Instr::ArrayIndex { a, b, c } => {
                let id = pre.regs[b as int];
                let off = pre.regs[c as int];
                if pre.index_ok(id, off) {
                    Outcome::Step {
                        post: State {
                            regs: pre.regs.update(a as int, pre.heap[id][off as int]),
                            ..bumped
                        },
                        eff: Effect::Proceed,
                    }
                } else {
                    fault_at(FaultKind::Bounds, pre.finger, opcode)
                }
            },
            Instr::ArrayAmend { a, b, c } => {
                let id = pre.regs[a as int];
                let off = pre.regs[b as int];
                if pre.index_ok(id, off) {
                    Outcome::Step {
                        post: State {
                            finger: bumped.finger,
                            ..pre.amended(id, off, pre.regs[c as int])
                        },
                        eff: Effect::Proceed,
                    }
                } else {
                    fault_at(FaultKind::Bounds, pre.finger, opcode)
                }
            },
            Instr::Add { a, b, c } => Outcome::Step {
                post: State {
                    regs: pre.regs.update(a as int, wrap_add(pre.regs[b as int], pre.regs[c as int])),
                    ..bumped
                },
                eff: Effect::Proceed,
            },
            Instr::Mul { a, b, c } => Outcome::Step {
                post: State {
                    regs: pre.regs.update(a as int, wrap_mul(pre.regs[b as int], pre.regs[c as int])),
                    ..bumped
                },
                eff: Effect::Proceed,
            },
            Instr::Div { a, b, c } => {
                if pre.regs[c as int] == 0 {
                    fault_at(FaultKind::Arith, pre.finger, opcode)
                } else {
                    Outcome::Step {
                        post: State {
                            regs: pre.regs.update(
                                a as int,
                                u32_div(pre.regs[b as int], pre.regs[c as int]),
                            ),
                            ..bumped
                        },
                        eff: Effect::Proceed,
                    }
                }
            },
            Instr::NotAnd { a, b, c } => Outcome::Step {
                post: State {
                    regs: pre.regs.update(a as int, !(pre.regs[b as int] & pre.regs[c as int])),
                    ..bumped
                },
                eff: Effect::Proceed,
            },
            Instr::Halt => Outcome::Step {
                post: State { halted: true, ..bumped },
                eff: Effect::Halted,
            },
            Instr::Alloc { b, c } => Outcome::Step {
                post: State {
                    regs: pre.regs.update(b as int, pre.alloc_id()),
                    finger: bumped.finger,
                    ..pre.allocated(pre.regs[c as int])
                },
                eff: Effect::Proceed,
            },
            Instr::Abandon { c } => {
                let id = pre.regs[c as int];
                if id == 0 {
                    fault_at(FaultKind::Protocol, pre.finger, opcode)
                } else if !pre.heap.contains_key(id) {
                    fault_at(FaultKind::Bounds, pre.finger, opcode)
                } else {
                    Outcome::Step {
                        post: State { finger: bumped.finger, ..pre.abandoned(id) },
                        eff: Effect::Proceed,
                    }
                }
            },
            Instr::Output { c } => {
                let v = pre.regs[c as int];
                if v > 255 {
                    fault_at(FaultKind::Protocol, pre.finger, opcode)
                } else {
                    Outcome::Step { post: bumped, eff: Effect::Output { byte: v as u8 } }
                }
            },
            Instr::Input { c } => Outcome::Step {
                post: State { pending: Some(c), ..bumped },
                eff: Effect::NeedInput,
            },
            Instr::LoadProgram { b, c } => {
                let src = pre.regs[b as int];
                let target = pre.regs[c as int] as usize;
                if src == 0 {
                    Outcome::Step { post: State { finger: target, ..pre }, eff: Effect::Proceed }
                } else if !pre.heap.contains_key(src) {
                    fault_at(FaultKind::Bounds, pre.finger, opcode)
                } else {
                    Outcome::Step {
                        post: State {
                            heap: pre.heap.insert(0u32, pre.heap[src]),
                            finger: target,
                            ..pre
                        },
                        eff: Effect::Proceed,
                    }
                }
            },
            Instr::Ortho { a, value } => Outcome::Step {
                post: State { regs: pre.regs.update(a as int, value), ..bumped },
                eff: Effect::Proceed,
            },
            Instr::Invalid { op } => fault_at(FaultKind::Decode, pre.finger, op),
        }
    }
}

} // verus!
