use vt_vm_dyn::cpu::{Cpu, OpCode};
use vt_vm_dyn::memory::{Addressable, Memory, MEMORY_SIZE};
use vt_vm_dyn::program::Program;

fn after(op: OpCode, cpu: Cpu) -> Cpu {
    let mut cpu = cpu;
    cpu.execute(op);
    cpu
}

#[test]
fn cpu_new_sets_every_register() {
    let cpu = Cpu::new(-5, 6, 7, true);
    assert_eq!((cpu.acc, cpu.lc, cpu.pc, cpu.halt), (-5, 6, 7, true));
    assert_eq!(Cpu::default(), Cpu::new(0, 0, 0, false));
}

#[test]
fn every_instruction_does_what_the_table_says() {
    let cpu = Cpu::new(10, 4, 20, false);
    assert_eq!(after(OpCode::HALT, cpu), Cpu::new(10, 4, 21, true));
    assert_eq!(after(OpCode::CLRA, cpu), Cpu::new(0, 4, 21, false));
    assert_eq!(after(OpCode::INC3A, cpu), Cpu::new(13, 4, 21, false));
    assert_eq!(after(OpCode::DECA, cpu), Cpu::new(9, 4, 21, false));
    assert_eq!(after(OpCode::SETL, cpu), Cpu::new(10, 10, 21, false));
    assert_eq!(after(OpCode::BACK7, cpu), Cpu::new(10, 3, 14, false));
}

#[test]
fn back7_jumps_only_while_the_counter_stays_positive() {
    assert_eq!(after(OpCode::BACK7, Cpu::new(0, 2, 9, false)), Cpu::new(0, 1, 3, false));
    assert_eq!(after(OpCode::BACK7, Cpu::new(0, 1, 9, false)), Cpu::new(0, 0, 10, false));
    assert_eq!(after(OpCode::BACK7, Cpu::new(0, 0, 9, false)), Cpu::new(0, -1, 10, false));
    assert_eq!(after(OpCode::BACK7, Cpu::new(0, -7, 9, false)), Cpu::new(0, -8, 10, false));
}

#[test]
fn every_step_moves_the_program_counter_by_one_or_back_by_six() {
    let ops = [
        OpCode::HALT,
        OpCode::CLRA,
        OpCode::INC3A,
        OpCode::DECA,
        OpCode::SETL,
        OpCode::BACK7,
    ];
    for op in ops {
        for lc in [-3, 0, 1, 2, 100] {
            let before = Cpu::new(5, lc, 50, false);
            let next = after(op, before);
            let jumped = op == OpCode::BACK7 && next.lc > 0;
            assert_eq!(next.pc, if jumped { 44 } else { 51 });
            assert_eq!(next.halt, op == OpCode::HALT);
        }
    }
}

#[test]
fn accumulator_wraps_as_a_signed_word() {
    assert_eq!(after(OpCode::INC3A, Cpu::new(i32::MAX, 0, 0, false)).acc, i32::MIN + 2);
    assert_eq!(after(OpCode::INC3A, Cpu::new(i32::MAX - 3, 0, 0, false)).acc, i32::MAX);
    assert_eq!(after(OpCode::DECA, Cpu::new(i32::MIN, 0, 0, false)).acc, i32::MAX);
}

#[test]
fn loop_counter_wraps_as_a_signed_word() {
    let next = after(OpCode::BACK7, Cpu::new(0, i32::MIN, 10, false));
    assert_eq!(next, Cpu::new(0, i32::MAX, 4, false));
}

#[test]
fn program_counter_wraps_as_an_unsigned_word() {
    assert_eq!(after(OpCode::CLRA, Cpu::new(1, 0, u32::MAX, false)).pc, 0);
    assert_eq!(after(OpCode::BACK7, Cpu::new(0, 5, 2, false)).pc, u32::MAX - 3);
    assert_eq!(after(OpCode::BACK7, Cpu::new(0, 5, 6, false)).pc, 0);
}

#[test]
fn opcodes_decode_from_their_bytes_only() {
    assert_eq!(OpCode::try_from(0u8), Ok(OpCode::HALT));
    assert_eq!(OpCode::try_from(1u8), Ok(OpCode::CLRA));
    assert_eq!(OpCode::try_from(2u8), Ok(OpCode::INC3A));
    assert_eq!(OpCode::try_from(3u8), Ok(OpCode::DECA));
    assert_eq!(OpCode::try_from(4u8), Ok(OpCode::SETL));
    assert_eq!(OpCode::try_from(5u8), Ok(OpCode::BACK7));
    for byte in 6u8..=255 {
        assert_eq!(OpCode::try_from(byte), Err(()));
    }
}

#[test]
fn opcodes_encode_to_the_bytes_they_decode_from() {
    for byte in 0u8..=5 {
        let op = OpCode::try_from(byte).unwrap();
        assert_eq!(op.to_byte(), byte);
        assert_eq!(op as u8, byte);
    }
}

#[test]
fn fresh_memory_is_zeroed() {
    let memory = Memory::default();
    assert_eq!(MEMORY_SIZE, 65536);
    assert_eq!(memory.read(0), 0);
    assert_eq!(memory.read(12345), 0);
    assert_eq!(memory.read(MEMORY_SIZE - 1), 0);
}

#[test]
fn write_changes_one_byte() {
    let mut memory = Memory::new();
    memory.write(7, 200);
    memory.write(MEMORY_SIZE - 1, 9);
    assert_eq!(memory.read(6), 0);
    assert_eq!(memory.read(7), 200);
    assert_eq!(memory.read(8), 0);
    assert_eq!(memory.read(MEMORY_SIZE - 1), 9);
    memory.write(7, 1);
    assert_eq!(memory.read(7), 1);
}

#[test]
fn write_chunk_keeps_what_lies_behind_it() {
    let mut memory = Memory::new();
    assert_eq!(memory.write_chunk(vec![1, 2, 3, 4, 5]), Ok(()));
    assert_eq!(memory.write_chunk(vec![9, 8]), Ok(()));
    let head: Vec<u8> = (0..7).map(|address| memory.read(address)).collect();
    assert_eq!(head, vec![9, 8, 3, 4, 5, 0, 0]);
    assert_eq!(memory.write_chunk(vec![]), Ok(()));
    assert_eq!(memory.read(0), 9);
}

#[test]
fn write_chunk_takes_a_chunk_of_full_size() {
    let mut memory = Memory::new();
    assert_eq!(memory.write_chunk(vec![7; MEMORY_SIZE]), Ok(()));
    assert_eq!(memory.read(0), 7);
    assert_eq!(memory.read(MEMORY_SIZE - 1), 7);
}

#[test]
fn write_chunk_refuses_a_chunk_larger_than_memory() {
    let mut memory = Memory::new();
    memory.write(0, 42);
    assert_eq!(
        memory.write_chunk(vec![7; MEMORY_SIZE + 1]),
        Err(String::from("Chunk size is larger than maximum memory (65536 bytes)"))
    );
    assert_eq!(memory.read(0), 42);
    assert_eq!(memory.read(1), 0);
}

#[test]
fn program_new_keeps_its_parts() {
    let program = Program::new(vec![2, 0], -4, 9);
    assert_eq!(program.data, vec![2, 0]);
    assert_eq!(program.initial_acc, -4);
    assert_eq!(program.initial_lc, 9);
}
