use um::machine::UniversalMachine;
use um::model::{Effect, Fault, FaultKind};

/// Encodes an operator with the three register selectors of the low bits.
fn enc(op: u32, a: u32, b: u32, c: u32) -> u32 {
    (op << 28) | (a << 6) | (b << 3) | c
}

/// Encodes the Orthography operator: selector in bits 27..25, 25-bit literal.
fn ortho(a: u32, v: u32) -> u32 {
    (13u32 << 28) | (a << 25) | v
}

/// Steps the machine until Halt or a fault, collecting emitted bytes.
/// Panics if the program asks for input.
fn run_collect(m: &mut UniversalMachine) -> Result<Vec<u8>, Fault> {
    let mut out: Vec<u8> = Vec::new();
    loop {
        if m.is_halted() {
            return Ok(out);
        }
        match m.step() {
            Ok(Effect::Proceed) => {}
            Ok(Effect::Halted) => return Ok(out),
            Ok(Effect::Output { byte }) => out.push(byte),
            Ok(Effect::NeedInput) => panic!("program asked for input"),
            Err(f) => return Err(f),
        }
    }
}

#[test]
fn halt_program_stops_immediately() {
    let mut m = UniversalMachine::new(vec![enc(7, 0, 0, 0)]);
    assert!(!m.is_halted());
    assert_eq!(m.step(), Ok(Effect::Halted));
    assert!(m.is_halted());
    assert_eq!(m.finger(), 1);
    for r in 0..8 {
        assert_eq!(m.reg(r), 0);
    }
}

#[test]
fn orthography_sets_exactly_one_register() {
    let mut m = UniversalMachine::new(vec![ortho(3, 12345), enc(7, 0, 0, 0)]);
    assert_eq!(m.step(), Ok(Effect::Proceed));
    for r in 0..8 {
        assert_eq!(m.reg(r), if r == 3 { 12345 } else { 0 });
    }
}

#[test]
fn orthography_takes_largest_literal() {
    let mut m = UniversalMachine::new(vec![ortho(0, 0x1FF_FFFF)]);
    assert_eq!(m.step(), Ok(Effect::Proceed));
    assert_eq!(m.reg(0), 0x1FF_FFFF);
}

#[test]
fn addition_wraps_modulo_2_to_32() {
    // reg1 <- 0xFFFFFFFF (end-of-input sentinel), reg2 <- 1, reg0 <- reg1 + reg2
    let mut m = UniversalMachine::new(vec![
        enc(11, 0, 0, 1),
        ortho(2, 1),
        enc(3, 0, 1, 2),
        enc(7, 0, 0, 0),
    ]);
    assert_eq!(m.step(), Ok(Effect::NeedInput));
    assert!(m.awaiting_input());
    m.provide_input(None);
    assert_eq!(m.reg(1), 0xFFFF_FFFF);
    assert_eq!(m.step(), Ok(Effect::Proceed));
    assert_eq!(m.step(), Ok(Effect::Proceed));
    assert_eq!(m.reg(0), 0);
    assert_eq!(m.step(), Ok(Effect::Halted));
}

#[test]
fn multiplication_wraps_modulo_2_to_32() {
    // reg3 <- 2^24 * 128 = 0x80000000, then reg5 <- reg3 * 2 = 0
    let mut m = UniversalMachine::new(vec![
        ortho(1, 1 << 24),
        ortho(2, 128),
        enc(4, 3, 1, 2),
        ortho(4, 2),
        enc(4, 5, 3, 4),
        enc(7, 0, 0, 0),
    ]);
    for _ in 0..5 {
        assert_eq!(m.step(), Ok(Effect::Proceed));
    }
    assert_eq!(m.reg(3), 0x8000_0000);
    assert_eq!(m.reg(5), 0);
}

#[test]
fn division_truncates_toward_zero() {
    let mut m = UniversalMachine::new(vec![ortho(1, 7), ortho(2, 2), enc(5, 3, 1, 2)]);
    assert_eq!(m.step(), Ok(Effect::Proceed));
    assert_eq!(m.step(), Ok(Effect::Proceed));
    assert_eq!(m.step(), Ok(Effect::Proceed));
    assert_eq!(m.reg(3), 3);
}

#[test]
fn division_by_zero_faults() {
    // reg2 is zero-initialized: the divisor register reads 0.
    let mut m = UniversalMachine::new(vec![ortho(1, 7), enc(5, 3, 1, 2)]);
    assert_eq!(m.step(), Ok(Effect::Proceed));
    let f = m.step().unwrap_err();
    assert_eq!(f.kind, FaultKind::Arith);
    assert_eq!(f.finger, 1);
    assert_eq!(f.operator, Some(5));
    // the fault left the machine untouched
    assert_eq!(m.finger(), 1);
    assert!(!m.is_halted());
}

#[test]
fn notand_computes_bitwise_nand() {
    let mut m = UniversalMachine::new(vec![enc(6, 2, 0, 1), enc(6, 3, 2, 2)]);
    assert_eq!(m.step(), Ok(Effect::Proceed));
    assert_eq!(m.reg(2), 0xFFFF_FFFF);
    assert_eq!(m.step(), Ok(Effect::Proceed));
    assert_eq!(m.reg(3), 0);
}

#[test]
fn conditional_move_obeys_its_condition() {
    let mut m = UniversalMachine::new(vec![
        ortho(2, 9),
        enc(0, 1, 2, 0), // reg0 == 0: no move
        ortho(3, 1),
        enc(0, 1, 2, 3), // reg3 != 0: move
    ]);
    assert_eq!(m.step(), Ok(Effect::Proceed));
    assert_eq!(m.step(), Ok(Effect::Proceed));
    assert_eq!(m.reg(1), 0);
    assert_eq!(m.step(), Ok(Effect::Proceed));
    assert_eq!(m.step(), Ok(Effect::Proceed));
    assert_eq!(m.reg(1), 9);
}

#[test]
fn alloc_abandon_alloc_reuses_the_identical_id() {
    let mut m = UniversalMachine::new(vec![enc(7, 0, 0, 0)]);
    let id = m.allocate(5);
    assert_eq!(id, 1);
    assert_eq!(m.abandon(id), Ok(()));
    assert_eq!(m.allocate(3), id);
    // with the free list empty again, the fallback counts live arrays
    assert_eq!(m.allocate(2), 2);
}

#[test]
fn allocator_counts_live_arrays_when_no_id_is_free() {
    let mut m = UniversalMachine::new(vec![enc(7, 0, 0, 0)]);
    assert_eq!(m.allocate(1), 1);
    assert_eq!(m.allocate(1), 2);
    assert_eq!(m.allocate(1), 3);
}

#[test]
fn abandoning_id_zero_always_faults() {
    let mut m = UniversalMachine::new(vec![enc(7, 0, 0, 0)]);
    assert_eq!(m.abandon(0), Err(FaultKind::Protocol));
    m.allocate(4);
    assert_eq!(m.abandon(0), Err(FaultKind::Protocol));
}

#[test]
fn abandoning_an_unknown_id_faults() {
    let mut m = UniversalMachine::new(vec![enc(7, 0, 0, 0)]);
    assert_eq!(m.abandon(7), Err(FaultKind::Bounds));
}

#[test]
fn abandon_instruction_on_id_zero_faults() {
    // reg1 stays 0: Abandonment targets array 0
    let mut m = UniversalMachine::new(vec![enc(9, 0, 0, 1)]);
    let f = m.step().unwrap_err();
    assert_eq!(f.kind, FaultKind::Protocol);
    assert_eq!(f.operator, Some(9));
}

#[test]
fn any_offset_at_or_past_length_faults() {
    let mut m = UniversalMachine::new(vec![enc(7, 0, 0, 0)]);
    let empty = m.allocate(0);
    assert_eq!(m.array_index(empty, 0), Err(FaultKind::Bounds));
    assert_eq!(m.array_amend(empty, 0, 9), Err(FaultKind::Bounds));
    let three = m.allocate(3);
    assert_eq!(m.array_index(three, 3), Err(FaultKind::Bounds));
    assert_eq!(m.array_index(three, 2), Ok(0));
    assert_eq!(m.array_amend(three, 2, 9), Ok(()));
    assert_eq!(m.array_index(three, 2), Ok(9));
    assert_eq!(m.array_index(42, 0), Err(FaultKind::Bounds));
}

#[test]
fn allocated_arrays_are_zero_filled() {
    let mut m = UniversalMachine::new(vec![enc(7, 0, 0, 0)]);
    let id = m.allocate(4);
    for off in 0..4 {
        assert_eq!(m.array_index(id, off), Ok(0));
    }
}

#[test]
fn load_program_installs_an_independent_copy() {
    // reg1 <- 1, then LoadProgram from array reg1 with target finger reg0 (= 0)
    let mut m = UniversalMachine::new(vec![ortho(1, 1), enc(12, 0, 1, 0)]);
    let src = m.allocate(2);
    assert_eq!(src, 1);
    assert_eq!(m.array_amend(src, 0, enc(7, 0, 0, 0)), Ok(()));
    assert_eq!(m.step(), Ok(Effect::Proceed));
    assert_eq!(m.step(), Ok(Effect::Proceed));
    // the finger equals the target register's value exactly
    assert_eq!(m.finger(), 0);
    // mutating the source afterwards must not alter the running program
    assert_eq!(m.array_amend(src, 0, ortho(5, 99)), Ok(()));
    assert_eq!(m.step(), Ok(Effect::Halted));
    assert_eq!(m.reg(5), 0);
}

#[test]
fn load_program_from_id_zero_only_moves_the_finger() {
    let mut m = UniversalMachine::new(vec![
        ortho(1, 3),
        enc(12, 0, 0, 1), // reg0 == 0: no copy; finger <- reg1 == 3
        ortho(6, 77),     // skipped
        enc(7, 0, 0, 0),
    ]);
    assert_eq!(m.step(), Ok(Effect::Proceed));
    assert_eq!(m.step(), Ok(Effect::Proceed));
    assert_eq!(m.finger(), 3);
    assert_eq!(m.step(), Ok(Effect::Halted));
    assert_eq!(m.reg(6), 0);
}

#[test]
fn load_program_from_unknown_id_faults() {
    let mut m = UniversalMachine::new(vec![ortho(1, 5), enc(12, 0, 1, 0)]);
    assert_eq!(m.step(), Ok(Effect::Proceed));
    let f = m.step().unwrap_err();
    assert_eq!(f.kind, FaultKind::Bounds);
    assert_eq!(f.operator, Some(12));
}

#[test]
fn output_emits_exactly_the_byte() {
    let mut m = UniversalMachine::new(vec![ortho(1, 65), enc(10, 0, 0, 1), enc(7, 0, 0, 0)]);
    assert_eq!(m.step(), Ok(Effect::Proceed));
    assert_eq!(m.step(), Ok(Effect::Output { byte: 65 }));
    assert_eq!(m.step(), Ok(Effect::Halted));
}

#[test]
fn output_of_256_faults() {
    let mut m = UniversalMachine::new(vec![ortho(1, 256), enc(10, 0, 0, 1)]);
    assert_eq!(m.step(), Ok(Effect::Proceed));
    let f = m.step().unwrap_err();
    assert_eq!(f.kind, FaultKind::Protocol);
    assert_eq!(f.finger, 1);
    assert_eq!(f.operator, Some(10));
}

#[test]
fn input_stores_the_byte_read() {
    let mut m = UniversalMachine::new(vec![enc(11, 0, 0, 1), enc(7, 0, 0, 0)]);
    assert_eq!(m.step(), Ok(Effect::NeedInput));
    assert!(m.awaiting_input());
    m.provide_input(Some(7));
    assert!(!m.awaiting_input());
    assert_eq!(m.reg(1), 7);
    assert_eq!(m.step(), Ok(Effect::Halted));
}

#[test]
fn input_at_end_of_stream_stores_all_ones() {
    let mut m = UniversalMachine::new(vec![enc(11, 0, 0, 2)]);
    assert_eq!(m.step(), Ok(Effect::NeedInput));
    m.provide_input(None);
    assert_eq!(m.reg(2), 0xFFFF_FFFF);
}

#[test]
fn invalid_operator_faults_as_decode() {
    let mut m = UniversalMachine::new(vec![14u32 << 28]);
    let f = m.step().unwrap_err();
    assert_eq!(f.kind, FaultKind::Decode);
    assert_eq!(f.finger, 0);
    assert_eq!(f.operator, Some(14));
}

#[test]
fn finger_past_the_end_faults() {
    let mut m = UniversalMachine::new(vec![ortho(1, 1)]);
    assert_eq!(m.step(), Ok(Effect::Proceed));
    let f = m.step().unwrap_err();
    assert_eq!(f.kind, FaultKind::Protocol);
    assert_eq!(f.finger, 1);
    assert_eq!(f.operator, None);
}

#[test]
fn end_to_end_emits_the_letter_a() {
    // allocate one word, write 65 into it, read it back, output it
    let mut m = UniversalMachine::new(vec![
        ortho(1, 1),      // reg1 <- 1 (size)
        enc(8, 0, 2, 1),  // reg2 <- allocate(reg1)
        ortho(4, 65),     // reg4 <- 65
        enc(2, 2, 0, 4),  // heap[reg2][reg0] <- reg4
        enc(1, 5, 2, 0),  // reg5 <- heap[reg2][reg0]
        enc(10, 0, 0, 5), // output reg5
        enc(7, 0, 0, 0),
    ]);
    assert_eq!(run_collect(&mut m), Ok(vec![0x41]));
    assert!(m.is_halted());
}
