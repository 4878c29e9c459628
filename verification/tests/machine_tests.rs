use um::command::Command;
use um::io::ScriptedIo;
use um::machine::{Fault, UniversalMachine};

fn scroll(words: &[u32]) -> Vec<u8> {
    let mut bytes = Vec::new();
    for w in words {
        bytes.extend_from_slice(&w.to_be_bytes());
    }
    bytes
}

fn boot(words: &[u32]) -> UniversalMachine {
    UniversalMachine::new(&scroll(words)).expect("scroll length is a multiple of 4")
}

fn run_to_end(words: &[u32], input: Vec<u8>) -> (UniversalMachine, ScriptedIo) {
    let mut m = boot(words);
    let mut io = ScriptedIo::new(input);
    m.run(&mut io, None);
    (m, io)
}

#[test]
fn halt_only_scroll() {
    let (m, io) = run_to_end(&[0x7000_0000], Vec::new());
    assert!(m.is_halted);
    assert_eq!(m.fault, None);
    assert!(io.output.is_empty());
}

#[test]
fn hello_via_orthography_and_output() {
    let mut words = Vec::new();
    for ch in [b'H', b'e', b'l', b'l', b'o'] {
        words.push(Command::StoreConst { dst: 0, val: ch as u32 }.encode());
        words.push(Command::Output { src: 0 }.encode());
    }
    words.push(Command::Halt.encode());
    let (m, io) = run_to_end(&words, Vec::new());
    assert!(m.is_halted);
    assert_eq!(m.fault, None);
    assert_eq!(io.output, b"Hello".to_vec());
}

#[test]
fn self_modifying_jump() {
    // At ip 0, write 4 into R1; at ip 1, Load Program with array register
    // R0 (holding 0) and offset register R1: the machine must jump to
    // index 4 without copying and without post-incrementing.  The two
    // platters in between would fault if ever fetched.
    let words = [
        Command::StoreConst { dst: 1, val: 4 }.encode(),
        Command::LoadProg { arr: 0, offset: 1 }.encode(),
        0xF000_0000,
        0xF000_0000,
        Command::Halt.encode(),
    ];
    let (m, io) = run_to_end(&words, Vec::new());
    assert!(m.is_halted);
    assert_eq!(m.fault, None);
    assert!(io.output.is_empty());
}

#[test]
fn allocation_round_trip() {
    // Allocate an array of length 10, store 0xDEADBEEF at offset 0, read
    // it back, and output the low byte.
    let words = [
        Command::StoreConst { dst: 2, val: 10 }.encode(),
        Command::Alloc { dst: 3, size: 2 }.encode(),
        // Build 0xDEADBEEF in R0.
        Command::StoreConst { dst: 0, val: 0xDE }.encode(),
        Command::StoreConst { dst: 1, val: 0x100_0000 }.encode(),
        Command::Mul { dst: 0, op1: 0, op2: 1 }.encode(),
        Command::StoreConst { dst: 1, val: 0xADBEEF }.encode(),
        Command::Add { dst: 0, op1: 0, op2: 1 }.encode(),
        // A[0] <- R0; R5 <- A[0].
        Command::ArrStore { src: 0, arr: 3, offset: 4 }.encode(),
        Command::ArrLoad { dst: 5, arr: 3, offset: 4 }.encode(),
        // Mask the low byte: R7 <- R5 AND 0xFF via two NANDs.
        Command::StoreConst { dst: 6, val: 0xFF }.encode(),
        Command::NotAnd { dst: 7, op1: 5, op2: 6 }.encode(),
        Command::NotAnd { dst: 7, op1: 7, op2: 7 }.encode(),
        Command::Output { src: 7 }.encode(),
        Command::Halt.encode(),
    ];
    let (m, io) = run_to_end(&words, Vec::new());
    assert!(m.is_halted);
    assert_eq!(m.fault, None);
    assert_eq!(m.registers.regs[5], 0xDEAD_BEEF);
    assert_eq!(io.output, vec![0xEF]);
}

#[test]
fn deep_copy_of_program() {
    // Allocate array A of length 2, write a Halt platter at A[0] and a
    // junk platter at A[1], then Load Program from A at offset 0.
    let words = [
        Command::StoreConst { dst: 2, val: 2 }.encode(),
        Command::Alloc { dst: 3, size: 2 }.encode(),
        // Build the Halt platter 0x70000000 in R0.
        Command::StoreConst { dst: 0, val: 0x70 }.encode(),
        Command::StoreConst { dst: 1, val: 0x100_0000 }.encode(),
        Command::Mul { dst: 0, op1: 0, op2: 1 }.encode(),
        Command::ArrStore { src: 0, arr: 3, offset: 4 }.encode(),
        Command::StoreConst { dst: 5, val: 1 }.encode(),
        Command::StoreConst { dst: 6, val: 0x12_3456 }.encode(),
        Command::ArrStore { src: 6, arr: 3, offset: 5 }.encode(),
        Command::LoadProg { arr: 3, offset: 7 }.encode(),
    ];
    let (mut m, _io) = run_to_end(&words, Vec::new());
    assert!(m.is_halted);
    assert_eq!(m.fault, None);
    let id = m.registers.regs[3];
    assert_ne!(id, 0);
    // Array 0 now holds the copy.
    assert_eq!(m.arrays[&0], vec![0x7000_0000, 0x12_3456]);
    // The source is still live, with the same contents.
    assert_eq!(m.arrays[&id], vec![0x7000_0000, 0x12_3456]);
    // The copy is deep: writing through one identifier leaves the other
    // array unchanged.
    m.arrays.get_mut(&0).unwrap()[1] = 0;
    assert_eq!(m.arrays[&id][1], 0x12_3456);
}

#[test]
fn divide_by_zero_faults() {
    let words = [
        Command::StoreConst { dst: 0, val: 1 }.encode(),
        Command::StoreConst { dst: 1, val: 0 }.encode(),
        Command::Div { dst: 2, op1: 0, op2: 1 }.encode(),
        Command::Halt.encode(),
    ];
    let (m, _io) = run_to_end(&words, Vec::new());
    assert_eq!(m.fault, Some(Fault::DivideByZero));
    assert!(!m.is_halted);
}

#[test]
fn add_wraps_around() {
    // R0 <- NAND(R0, R0) = 0xFFFFFFFF, then R2 <- R0 + 1.
    let words = [
        Command::NotAnd { dst: 0, op1: 0, op2: 0 }.encode(),
        Command::StoreConst { dst: 1, val: 1 }.encode(),
        Command::Add { dst: 2, op1: 0, op2: 1 }.encode(),
        Command::Halt.encode(),
    ];
    let (m, _io) = run_to_end(&words, Vec::new());
    assert!(m.is_halted);
    assert_eq!(m.registers.regs[0], 0xFFFF_FFFF);
    assert_eq!(m.registers.regs[2], 0);
}

#[test]
fn mul_wraps_around() {
    // R0 <- 0x1000000 * 0x80 = 0x80000000, then R2 <- R0 * 2 = 0.
    let words = [
        Command::StoreConst { dst: 0, val: 0x100_0000 }.encode(),
        Command::StoreConst { dst: 1, val: 0x80 }.encode(),
        Command::Mul { dst: 0, op1: 0, op2: 1 }.encode(),
        Command::StoreConst { dst: 1, val: 2 }.encode(),
        Command::Mul { dst: 2, op1: 0, op2: 1 }.encode(),
        Command::Halt.encode(),
    ];
    let (m, _io) = run_to_end(&words, Vec::new());
    assert!(m.is_halted);
    assert_eq!(m.registers.regs[0], 0x8000_0000);
    assert_eq!(m.registers.regs[2], 0);
}

#[test]
fn allocation_of_size_zero() {
    // The allocation succeeds and returns a usable identifier whose
    // array has length 0; any index into it is a fault.
    let words = [
        Command::StoreConst { dst: 2, val: 0 }.encode(),
        Command::Alloc { dst: 3, size: 2 }.encode(),
        Command::ArrLoad { dst: 5, arr: 3, offset: 4 }.encode(),
        Command::Halt.encode(),
    ];
    let (m, _io) = run_to_end(&words, Vec::new());
    assert_eq!(m.fault, Some(Fault::OffsetOutOfBounds));
    assert!(!m.is_halted);
    let id = m.registers.regs[3];
    assert_ne!(id, 0);
    assert_eq!(m.arrays[&id].len(), 0);
}

#[test]
fn input_at_end_of_stream() {
    let words = [
        Command::Input { dst: 0 }.encode(),
        Command::Halt.encode(),
    ];
    let (m, _io) = run_to_end(&words, Vec::new());
    assert!(m.is_halted);
    assert_eq!(m.registers.regs[0], 0xFFFF_FFFF);
}

#[test]
fn input_bytes_then_sticky_end_of_stream() {
    let words = [
        Command::Input { dst: 0 }.encode(),
        Command::Output { src: 0 }.encode(),
        Command::Input { dst: 1 }.encode(),
        Command::Input { dst: 2 }.encode(),
        Command::Halt.encode(),
    ];
    let (m, io) = run_to_end(&words, vec![65]);
    assert!(m.is_halted);
    assert_eq!(io.output, vec![65]);
    assert_eq!(m.registers.regs[1], 0xFFFF_FFFF);
    assert_eq!(m.registers.regs[2], 0xFFFF_FFFF);
}

#[test]
fn orthography_maximal_immediate() {
    let words = [
        Command::StoreConst { dst: 1, val: 0x1FF_FFFF }.encode(),
        Command::Halt.encode(),
    ];
    let (m, _io) = run_to_end(&words, Vec::new());
    assert!(m.is_halted);
    assert_eq!(m.registers.regs[1], 0x01FF_FFFF);
}

#[test]
fn conditional_move_fires_only_on_nonzero() {
    let words = [
        Command::StoreConst { dst: 1, val: 7 }.encode(),
        // R2 is 0: no move.
        Command::CondMove { dst: 0, src: 1, cnd: 2 }.encode(),
        Command::StoreConst { dst: 2, val: 1 }.encode(),
        // R2 is 1: move.
        Command::CondMove { dst: 0, src: 1, cnd: 2 }.encode(),
        Command::Halt.encode(),
    ];
    let (m, _io) = run_to_end(&words, Vec::new());
    assert!(m.is_halted);
    assert_eq!(m.registers.regs[0], 7);
}

#[test]
fn output_above_255_faults() {
    let words = [
        Command::NotAnd { dst: 0, op1: 0, op2: 0 }.encode(),
        Command::Output { src: 0 }.encode(),
        Command::Halt.encode(),
    ];
    let (m, io) = run_to_end(&words, Vec::new());
    assert_eq!(m.fault, Some(Fault::OutputTooLarge));
    assert!(!m.is_halted);
    assert!(io.output.is_empty());
}

#[test]
fn abandonment_of_array_zero_faults() {
    let words = [
        Command::Free { arr: 0 }.encode(),
        Command::Halt.encode(),
    ];
    let (m, _io) = run_to_end(&words, Vec::new());
    assert_eq!(m.fault, Some(Fault::FreeOfArrayZero));
    assert!(!m.is_halted);
}

#[test]
fn abandonment_of_unknown_array_faults() {
    let words = [
        Command::StoreConst { dst: 1, val: 42 }.encode(),
        Command::Free { arr: 1 }.encode(),
        Command::Halt.encode(),
    ];
    let (m, _io) = run_to_end(&words, Vec::new());
    assert_eq!(m.fault, Some(Fault::UnknownArray));
}

#[test]
fn abandoned_array_is_gone() {
    let words = [
        Command::StoreConst { dst: 2, val: 3 }.encode(),
        Command::Alloc { dst: 3, size: 2 }.encode(),
        Command::Free { arr: 3 }.encode(),
        Command::ArrLoad { dst: 5, arr: 3, offset: 4 }.encode(),
        Command::Halt.encode(),
    ];
    let (m, _io) = run_to_end(&words, Vec::new());
    assert_eq!(m.fault, Some(Fault::UnknownArray));
    let id = m.registers.regs[3];
    assert!(m.arrays.get(&id).is_none());
}

#[test]
fn index_into_unknown_array_faults() {
    let words = [
        Command::StoreConst { dst: 1, val: 9 }.encode(),
        Command::ArrLoad { dst: 0, arr: 1, offset: 2 }.encode(),
        Command::Halt.encode(),
    ];
    let (m, _io) = run_to_end(&words, Vec::new());
    assert_eq!(m.fault, Some(Fault::UnknownArray));
}

#[test]
fn undefined_opcode_faults() {
    let (m, _io) = run_to_end(&[0xF000_0000], Vec::new());
    assert_eq!(m.fault, Some(Fault::UndefinedOpcode));
    assert!(!m.is_halted);
}

#[test]
fn running_off_the_program_faults() {
    let words = [Command::StoreConst { dst: 0, val: 1 }.encode()];
    let (m, _io) = run_to_end(&words, Vec::new());
    assert_eq!(m.fault, Some(Fault::IpOutOfBounds));
    assert!(!m.is_halted);
}

#[test]
fn scroll_length_must_be_multiple_of_four() {
    assert!(UniversalMachine::new(&[1, 2, 3]).is_none());
    assert!(UniversalMachine::new(&[1, 2, 3, 4, 5]).is_none());
    assert!(UniversalMachine::new(&[]).is_some());
}

#[test]
fn bounded_run_preserves_state_and_resumes() {
    let mut words = Vec::new();
    for ch in [b'H', b'e', b'l', b'l', b'o'] {
        words.push(Command::StoreConst { dst: 0, val: ch as u32 }.encode());
        words.push(Command::Output { src: 0 }.encode());
    }
    words.push(Command::Halt.encode());
    let mut m = boot(&words);
    let mut io = ScriptedIo::new(Vec::new());
    m.run(&mut io, Some(3));
    assert!(!m.is_halted);
    assert_eq!(m.fault, None);
    assert_eq!(io.output, b"H".to_vec());
    assert_eq!(m.ip, 3);
    m.run(&mut io, None);
    assert!(m.is_halted);
    assert_eq!(io.output, b"Hello".to_vec());
}

#[test]
fn fresh_machine_is_zeroed() {
    let m = boot(&[0x7000_0000]);
    assert_eq!(m.registers.regs, [0; 8]);
    assert_eq!(m.ip, 0);
    assert_eq!(m.next_array_id, 1);
    assert!(!m.is_halted);
    assert_eq!(m.fault, None);
    assert_eq!(m.arrays[&0], vec![0x7000_0000]);
}

#[test]
fn loader_reads_big_endian_words() {
    let m = UniversalMachine::new(&[0x12, 0x34, 0x56, 0x78, 0xAA, 0xBB, 0xCC, 0xDD]).unwrap();
    assert_eq!(m.arrays[&0], vec![0x1234_5678, 0xAABB_CCDD]);
}

#[test]
fn addition_and_multiplication_commute_with_identities() {
    let words = [
        Command::StoreConst { dst: 0, val: 5 }.encode(),
        Command::StoreConst { dst: 1, val: 9 }.encode(),
        Command::Add { dst: 2, op1: 0, op2: 1 }.encode(),
        Command::Add { dst: 3, op1: 1, op2: 0 }.encode(),
        Command::Mul { dst: 4, op1: 0, op2: 1 }.encode(),
        Command::Mul { dst: 5, op1: 1, op2: 0 }.encode(),
        // R7 holds 0: adding it to R0 is the identity.
        Command::Add { dst: 6, op1: 0, op2: 7 }.encode(),
        // R7 <- 1, then multiplying R0 by it is the identity.
        Command::StoreConst { dst: 7, val: 1 }.encode(),
        Command::Mul { dst: 7, op1: 0, op2: 7 }.encode(),
        Command::Halt.encode(),
    ];
    let (m, _io) = run_to_end(&words, Vec::new());
    assert!(m.is_halted);
    assert_eq!(m.registers.regs[2], 14);
    assert_eq!(m.registers.regs[3], 14);
    assert_eq!(m.registers.regs[4], 45);
    assert_eq!(m.registers.regs[5], 45);
    assert_eq!(m.registers.regs[6], 5);
    assert_eq!(m.registers.regs[7], 5);
}

#[test]
fn nand_gives_not_and_or() {
    let words = [
        Command::StoreConst { dst: 0, val: 0xAA }.encode(),
        Command::StoreConst { dst: 1, val: 0x0F }.encode(),
        // R2 <- NAND(R0, R0) = NOT R0.
        Command::NotAnd { dst: 2, op1: 0, op2: 0 }.encode(),
        // R5 <- NAND(NAND(R0,R0), NAND(R1,R1)) = R0 OR R1.
        Command::NotAnd { dst: 3, op1: 0, op2: 0 }.encode(),
        Command::NotAnd { dst: 4, op1: 1, op2: 1 }.encode(),
        Command::NotAnd { dst: 5, op1: 3, op2: 4 }.encode(),
        Command::Halt.encode(),
    ];
    let (m, _io) = run_to_end(&words, Vec::new());
    assert!(m.is_halted);
    assert_eq!(m.registers.regs[2], 0xFFFF_FF55);
    assert_eq!(m.registers.regs[5], 0xAF);
}

#[test]
fn division_by_one_and_of_zero() {
    let words = [
        Command::StoreConst { dst: 0, val: 17 }.encode(),
        Command::StoreConst { dst: 1, val: 1 }.encode(),
        Command::Div { dst: 2, op1: 0, op2: 1 }.encode(),
        Command::StoreConst { dst: 3, val: 5 }.encode(),
        // R4 holds 0.
        Command::Div { dst: 5, op1: 4, op2: 3 }.encode(),
        Command::Halt.encode(),
    ];
    let (m, _io) = run_to_end(&words, Vec::new());
    assert!(m.is_halted);
    assert_eq!(m.registers.regs[2], 17);
    assert_eq!(m.registers.regs[5], 0);
}

#[test]
fn unsigned_division_truncates() {
    let words = [
        Command::StoreConst { dst: 0, val: 7 }.encode(),
        Command::StoreConst { dst: 1, val: 2 }.encode(),
        Command::Div { dst: 2, op1: 0, op2: 1 }.encode(),
        Command::Halt.encode(),
    ];
    let (m, _io) = run_to_end(&words, Vec::new());
    assert_eq!(m.registers.regs[2], 3);
}

#[test]
fn lenient_output_masks_the_low_byte() {
    let words = [
        Command::StoreConst { dst: 0, val: 0x1FF }.encode(),
        Command::Output { src: 0 }.encode(),
        Command::Halt.encode(),
    ];
    let mut m = boot(&words);
    m.strict_output = false;
    let mut io = ScriptedIo::new(Vec::new());
    m.run(&mut io, None);
    assert!(m.is_halted);
    assert_eq!(m.fault, None);
    assert_eq!(io.output, vec![0xFF]);
}

#[test]
fn allocation_identifiers_are_fresh_and_distinct() {
    let words = [
        Command::StoreConst { dst: 2, val: 1 }.encode(),
        Command::Alloc { dst: 3, size: 2 }.encode(),
        Command::Alloc { dst: 4, size: 2 }.encode(),
        Command::Halt.encode(),
    ];
    let (m, _io) = run_to_end(&words, Vec::new());
    assert!(m.is_halted);
    let a = m.registers.regs[3];
    let b = m.registers.regs[4];
    assert_ne!(a, 0);
    assert_ne!(b, 0);
    assert_ne!(a, b);
    assert!(m.arrays.contains_key(&a));
    assert!(m.arrays.contains_key(&b));
}
