use vt_vm_dyn::cpu::{Cpu, OpCode};
use vt_vm_dyn::error::EmulationError;
use vt_vm_dyn::program::Program;
use vt_vm_dyn::{new_code_cache, Dispatch, EmulationEngine};

fn loaded(bytes: Vec<u8>, acc: i32, lc: i32) -> EmulationEngine {
    let mut vm = EmulationEngine::new();
    vm.load_program(Program::new(bytes, acc, lc)).unwrap();
    vm
}

#[test]
fn interpret_stops_after_halt() {
    let mut vm = loaded(vec![1, 3, 3, 0], 10, 0);
    let block = vm.interpret().unwrap();
    assert_eq!(block, vec![OpCode::CLRA, OpCode::DECA, OpCode::DECA, OpCode::HALT]);
    assert_eq!(vm.cpu, Cpu::new(-2, 0, 4, true));
}

#[test]
fn interpret_stops_after_back7() {
    let mut vm = loaded(vec![2, 2, 2, 2, 2, 2, 5, 5, 0], 0, 2);
    let block = vm.interpret().unwrap();
    assert_eq!(block.len(), 7);
    assert_eq!(block[6], OpCode::BACK7);
    assert_eq!(vm.cpu, Cpu::new(18, 1, 0, false));
    let block = vm.interpret().unwrap();
    assert_eq!(block.len(), 7);
    assert_eq!(vm.cpu, Cpu::new(36, 0, 7, false));
    assert_eq!(vm.interpret().unwrap(), vec![OpCode::BACK7]);
    assert_eq!(vm.cpu, Cpu::new(36, -1, 8, false));
    assert_eq!(vm.interpret().unwrap(), vec![OpCode::HALT]);
    assert_eq!(vm.cpu, Cpu::new(36, -1, 9, true));
}

#[test]
fn interpret_reports_the_byte_it_cannot_decode() {
    let mut vm = loaded(vec![3, 255], 0, 0);
    assert_eq!(vm.interpret(), Err(EmulationError::UnknownOpcode { pc: 1, byte: 255 }));
    assert_eq!(vm.cpu, Cpu::new(-1, 0, 1, false));
}

#[test]
fn interpret_reports_a_program_counter_outside_memory() {
    let mut vm = loaded(vec![0], 0, 0);
    vm.cpu.pc = 65536;
    assert_eq!(vm.interpret(), Err(EmulationError::PcOutOfBounds { pc: 65536 }));
    assert_eq!(vm.cpu, Cpu::new(0, 0, 65536, false));
}

#[test]
fn step_enters_a_block_then_translates_it() {
    let mut vm = loaded(vec![2, 2, 2, 2, 2, 2, 5, 5, 0], 0, 3);
    let mut cache = new_code_cache(32).unwrap();
    assert_eq!(vm.step(&mut cache, 1), Ok(Dispatch::Installed));
    assert_eq!(vm.cpu, Cpu::new(18, 2, 0, false));
    assert_eq!(vm.step(&mut cache, 1), Ok(Dispatch::Translated));
    assert_eq!(vm.cpu, Cpu::new(36, 1, 0, false));
    assert_eq!(vm.step(&mut cache, 1), Ok(Dispatch::Translated));
    assert_eq!(vm.cpu, Cpu::new(54, 0, 7, false));
    assert_eq!(vm.step(&mut cache, 1), Ok(Dispatch::Installed));
    assert_eq!(vm.cpu, Cpu::new(54, -1, 8, false));
    assert_eq!(vm.step(&mut cache, 1), Ok(Dispatch::Installed));
    assert_eq!(vm.cpu, Cpu::new(54, -1, 9, true));
}

#[test]
fn step_interprets_until_the_block_is_due() {
    let mut vm = loaded(vec![2, 2, 2, 2, 2, 2, 5, 0], 0, 5);
    let mut cache = new_code_cache(4).unwrap();
    assert_eq!(vm.step(&mut cache, 3), Ok(Dispatch::Installed));
    assert_eq!(vm.step(&mut cache, 3), Ok(Dispatch::Interpreted));
    assert_eq!(vm.step(&mut cache, 3), Ok(Dispatch::Interpreted));
    assert_eq!(vm.step(&mut cache, 3), Ok(Dispatch::Translated));
    assert_eq!(vm.cpu, Cpu::new(72, 1, 0, false));
    // Once translated, a block stays translated whatever the threshold.
    assert_eq!(vm.step(&mut cache, u64::MAX), Ok(Dispatch::Translated));
    assert_eq!(vm.cpu, Cpu::new(90, 0, 7, false));
}

#[test]
fn step_with_threshold_zero_translates_on_the_first_hit() {
    let mut vm = loaded(vec![2, 2, 2, 2, 2, 2, 5, 0], 0, 2);
    let mut cache = new_code_cache(1).unwrap();
    assert_eq!(vm.step(&mut cache, 0), Ok(Dispatch::Installed));
    assert_eq!(vm.step(&mut cache, 0), Ok(Dispatch::Translated));
    assert_eq!(vm.cpu, Cpu::new(36, 0, 7, false));
}

#[test]
fn step_reports_an_error_and_enters_nothing() {
    let mut vm = loaded(vec![2, 7], 0, 0);
    let mut cache = new_code_cache(2).unwrap();
    assert_eq!(vm.step(&mut cache, 1), Err(EmulationError::UnknownOpcode { pc: 1, byte: 7 }));
    vm.cpu.pc = 0;
    assert_eq!(vm.step(&mut cache, 1), Err(EmulationError::UnknownOpcode { pc: 1, byte: 7 }));
}

#[test]
fn small_cache_forgets_blocks() {
    // Three blocks take turns in a cache with room for one.
    let mut vm = loaded(vec![2, 5, 3, 5, 0], 0, 0);
    let mut cache = new_code_cache(1).unwrap();
    assert_eq!(vm.step(&mut cache, 1), Ok(Dispatch::Installed));
    assert_eq!(vm.step(&mut cache, 1), Ok(Dispatch::Installed));
    vm.cpu.pc = 0;
    assert_eq!(vm.step(&mut cache, 1), Ok(Dispatch::Installed));
    assert_eq!(vm.cpu, Cpu::new(5, -3, 2, false));
}

#[test]
fn block_that_the_cache_has_forgotten_is_entered_again() {
    // Every byte is a block of its own: a BACK7 whose counter is spent.
    let mut vm = loaded(vec![5; 8], 0, 0);
    let mut cache = new_code_cache(2).unwrap();
    for pc in 0..5 {
        vm.cpu.pc = pc;
        assert_eq!(vm.step(&mut cache, 1), Ok(Dispatch::Installed));
    }
    // The addresses 1 and 2 are evicted and remembered; 3 and 4 are held.
    vm.cpu.pc = 4;
    assert_eq!(vm.step(&mut cache, 1), Ok(Dispatch::Translated));
    vm.cpu.pc = 1;
    assert_eq!(vm.step(&mut cache, 1), Ok(Dispatch::Installed));
    vm.cpu.pc = 1;
    assert_eq!(vm.step(&mut cache, 1), Ok(Dispatch::Translated));
    vm.cpu.pc = 2;
    assert_eq!(vm.step(&mut cache, 1), Ok(Dispatch::Installed));
    assert_eq!(vm.cpu, Cpu::new(0, -9, 3, false));
}

#[test]
fn remembered_block_returns_to_a_full_cache() {
    // Five blocks pass through a cache of two. The cache then holds the
    // last two and remembers the two before them; the older of those
    // returns.
    let mut vm = loaded(vec![5; 8], 0, 0);
    let mut cache = new_code_cache(2).unwrap();
    for pc in 0..5 {
        vm.cpu.pc = pc;
        assert_eq!(vm.step(&mut cache, 1), Ok(Dispatch::Installed));
    }
    vm.cpu.pc = 1;
    assert_eq!(vm.step(&mut cache, 1), Ok(Dispatch::Installed));
    vm.cpu.pc = 1;
    assert_eq!(vm.step(&mut cache, 1), Ok(Dispatch::Translated));
    assert_eq!(vm.cpu, Cpu::new(0, -7, 2, false));
}

#[test]
fn many_blocks_in_a_small_cache() {
    // 200 blocks of one CLRA and one spent BACK7 each, visited three times.
    let mut bytes = Vec::new();
    for _ in 0..200 {
        bytes.push(1);
        bytes.push(5);
    }
    for cache_size in [1usize, 2, 3, 7, 32] {
        let mut vm = loaded(bytes.clone(), 0, 0);
        let mut cache = new_code_cache(cache_size).unwrap();
        for round in 0..3 {
            for block in 0..200u32 {
                vm.cpu.pc = 2 * block;
                assert!(vm.step(&mut cache, 1).is_ok());
                assert_eq!(vm.cpu.pc, 2 * block + 2);
                assert_eq!(vm.cpu.lc, -(round * 200 + block as i32 + 1));
            }
        }
    }
}

#[test]
fn cache_larger_than_memory_is_made_with_the_size_of_memory() {
    assert!(new_code_cache(65537).is_ok());
    assert!(new_code_cache(usize::MAX).is_ok());
    let mut vm = loaded(vec![2, 0], 0, 0);
    assert_eq!(vm.main_loop_with(usize::MAX, 1, 10), Ok(true));
    assert_eq!(vm.cpu, Cpu::new(3, 0, 2, true));
}

#[test]
fn code_cache_needs_room() {
    assert!(matches!(new_code_cache(0), Err(EmulationError::InvalidCacheSize)));
    assert!(new_code_cache(1).is_ok());
}

#[test]
fn debug_state_shows_the_next_eight_bytes() {
    let mut vm = loaded(vec![4, 2, 2, 2, 2, 2, 2, 2, 5, 5, 0], 0, 2);
    assert_eq!(vm.debug_state(), vec![4, 2, 2, 2, 2, 2, 2, 2]);
    vm.cpu.pc = 8;
    assert_eq!(vm.debug_state(), vec![5, 5, 0, 0, 0, 0, 0, 0]);
    vm.cpu.pc = 65530;
    assert_eq!(vm.debug_state(), vec![0, 0, 0, 0, 0, 0]);
    vm.cpu.pc = 65536;
    assert_eq!(vm.debug_state(), Vec::<u8>::new());
    vm.cpu.pc = 4000000000;
    assert_eq!(vm.debug_state(), Vec::<u8>::new());
}
