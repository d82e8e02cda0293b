use vt_vm_dyn::cpu::{Cpu, OpCode};
use vt_vm_dyn::ir::{Block, BlockLabel, Inst, IrFunction, Operand, Terminator};
use vt_vm_dyn::lowering::FunctionContext;
use vt_vm_dyn::program::Program;
use vt_vm_dyn::translation::{TranslationContext, TranslatorEngine};
use vt_vm_dyn::EmulationEngine;

fn translate(ops: &[OpCode]) -> IrFunction {
    let mut engine = TranslatorEngine::new();
    assert_eq!(engine.compile_dynamic_basic_block(ops.to_vec()), Ok(()));
    engine.translation_block.unwrap().fun
}

fn interpreted(ops: &[OpCode], cpu: Cpu) -> Cpu {
    let mut cpu = cpu;
    for op in ops {
        cpu.execute(*op);
    }
    cpu
}

fn block(label: BlockLabel, insts: Vec<Inst>, term: Terminator) -> Block {
    Block { label, insts, term }
}

fn entry_block() -> Block {
    block(
        BlockLabel::Entry,
        vec![
            Inst::Param { dst: 0 },
            Inst::FieldAddr { dst: 1, base: 0, index: 0 },
            Inst::FieldAddr { dst: 2, base: 0, index: 1 },
            Inst::FieldAddr { dst: 3, base: 0, index: 2 },
            Inst::FieldAddr { dst: 4, base: 0, index: 3 },
        ],
        Terminator::Br { target: 1 },
    )
}

#[test]
fn prologue_binds_the_fields_in_their_order() {
    let mut engine = TranslatorEngine::new();
    engine.setup_prologue();
    assert_eq!(
        engine.fun_context,
        Some(FunctionContext { cpu_ptr: 0, acc_ptr: 1, lc_ptr: 2, pc_ptr: 3, halt_ptr: 4 })
    );
    assert_eq!(engine.next_value, 5);
    assert_eq!(
        engine.module.blocks,
        vec![entry_block(), block(BlockLabel::Start, vec![], Terminator::Open)]
    );
}

#[test]
fn field_indices_address_the_registers() {
    // One function per field: it overwrites the field with a fixed value.
    let stores = [
        (0, Operand::Int(11), Cpu::new(11, 2, 3, false)),
        (1, Operand::Int(12), Cpu::new(1, 12, 3, false)),
        (2, Operand::Uint(13), Cpu::new(1, 2, 13, false)),
        (3, Operand::Bit(true), Cpu::new(1, 2, 3, true)),
    ];
    for (index, value, expected) in stores {
        let function = IrFunction {
            blocks: vec![block(
                BlockLabel::Entry,
                vec![
                    Inst::Param { dst: 0 },
                    Inst::FieldAddr { dst: 1, base: 0, index },
                    Inst::Store { ptr: 1, value },
                ],
                Terminator::Ret,
            )],
        };
        assert_eq!(function.execute(Cpu::new(1, 2, 3, false)), Some(expected));
    }
}

#[test]
fn halt_is_translated_to_a_store_and_an_increment() {
    let function = translate(&[OpCode::HALT]);
    assert_eq!(
        function.blocks,
        vec![
            entry_block(),
            block(
                BlockLabel::Start,
                vec![
                    Inst::Store { ptr: 4, value: Operand::Bit(true) },
                    Inst::Load { dst: 5, ptr: 3 },
                    Inst::Add { dst: 6, lhs: Operand::Value(5), rhs: Operand::Uint(1) },
                    Inst::Store { ptr: 3, value: Operand::Value(6) },
                ],
                Terminator::Ret,
            ),
        ]
    );
}

#[test]
fn straight_line_instructions_share_one_block() {
    let function = translate(&[OpCode::CLRA, OpCode::INC3A, OpCode::DECA, OpCode::SETL]);
    assert_eq!(function.blocks.len(), 2);
    assert_eq!(
        function.blocks[1].insts,
        vec![
            // CLRA
            Inst::Store { ptr: 1, value: Operand::Int(0) },
            Inst::Load { dst: 5, ptr: 3 },
            Inst::Add { dst: 6, lhs: Operand::Value(5), rhs: Operand::Uint(1) },
            Inst::Store { ptr: 3, value: Operand::Value(6) },
            // INC3A
            Inst::Load { dst: 7, ptr: 1 },
            Inst::Add { dst: 8, lhs: Operand::Value(7), rhs: Operand::Int(3) },
            Inst::Store { ptr: 1, value: Operand::Value(8) },
            Inst::Load { dst: 9, ptr: 3 },
            Inst::Add { dst: 10, lhs: Operand::Value(9), rhs: Operand::Uint(1) },
            Inst::Store { ptr: 3, value: Operand::Value(10) },
            // DECA
            Inst::Load { dst: 11, ptr: 1 },
            Inst::Sub { dst: 12, lhs: Operand::Value(11), rhs: Operand::Int(1) },
            Inst::Store { ptr: 1, value: Operand::Value(12) },
            Inst::Load { dst: 13, ptr: 3 },
            Inst::Add { dst: 14, lhs: Operand::Value(13), rhs: Operand::Uint(1) },
            Inst::Store { ptr: 3, value: Operand::Value(14) },
            // SETL
            Inst::Load { dst: 15, ptr: 1 },
            Inst::Store { ptr: 2, value: Operand::Value(15) },
            Inst::Load { dst: 16, ptr: 3 },
            Inst::Add { dst: 17, lhs: Operand::Value(16), rhs: Operand::Uint(1) },
            Inst::Store { ptr: 3, value: Operand::Value(17) },
        ]
    );
    assert_eq!(function.blocks[1].term, Terminator::Ret);
}

#[test]
fn back7_is_translated_to_a_branch_and_a_merge() {
    let function = translate(&[OpCode::BACK7]);
    assert_eq!(
        function.blocks,
        vec![
            entry_block(),
            block(
                BlockLabel::Start,
                vec![
                    Inst::Load { dst: 5, ptr: 2 },
                    Inst::Sub { dst: 6, lhs: Operand::Value(5), rhs: Operand::Int(1) },
                    Inst::Store { ptr: 2, value: Operand::Value(6) },
                    Inst::Load { dst: 7, ptr: 3 },
                    Inst::GreaterThan { dst: 8, lhs: Operand::Value(6), rhs: Operand::Int(0) },
                ],
                Terminator::CondBr { cond: 8, then_block: 2, else_block: 3 },
            ),
            block(
                BlockLabel::IfThen,
                vec![Inst::Sub { dst: 9, lhs: Operand::Value(7), rhs: Operand::Uint(6) }],
                Terminator::Br { target: 4 },
            ),
            block(
                BlockLabel::IfElse,
                vec![Inst::Add { dst: 10, lhs: Operand::Value(7), rhs: Operand::Uint(1) }],
                Terminator::Br { target: 4 },
            ),
            block(
                BlockLabel::IfCont,
                vec![
                    Inst::Phi {
                        dst: 11,
                        first_block: 2,
                        first: Operand::Value(9),
                        second_block: 3,
                        second: Operand::Value(10),
                    },
                    Inst::Store { ptr: 3, value: Operand::Value(11) },
                ],
                Terminator::Ret,
            ),
        ]
    );
}

#[test]
fn translation_does_what_the_interpreter_does() {
    let blocks: Vec<Vec<OpCode>> = vec![
        vec![OpCode::HALT],
        vec![OpCode::BACK7],
        vec![OpCode::CLRA, OpCode::DECA, OpCode::DECA, OpCode::HALT],
        vec![OpCode::INC3A, OpCode::SETL, OpCode::HALT],
        vec![
            OpCode::INC3A,
            OpCode::INC3A,
            OpCode::INC3A,
            OpCode::INC3A,
            OpCode::INC3A,
            OpCode::INC3A,
            OpCode::BACK7,
        ],
        vec![OpCode::SETL, OpCode::DECA, OpCode::BACK7],
    ];
    let states = [
        Cpu::new(0, 0, 0, false),
        Cpu::new(0, 2, 6, false),
        Cpu::new(7, 1, 100, false),
        Cpu::new(-9, -3, 65535, false),
        Cpu::new(i32::MAX, i32::MIN, u32::MAX, false),
        Cpu::new(i32::MIN, i32::MAX, 3, true),
    ];
    for ops in &blocks {
        let function = translate(ops);
        assert!(function.verify());
        for cpu in states {
            assert_eq!(function.execute(cpu), Some(interpreted(ops, cpu)));
        }
    }
}

#[test]
fn translation_of_a_block_in_memory_matches_interpreting_it() {
    let bytes = vec![4, 2, 2, 2, 2, 2, 2, 2, 5, 5, 0];
    let mut vm = EmulationEngine::new();
    vm.load_program(Program::new(bytes, 0, 2)).unwrap();
    let before = vm.cpu;
    let dbb = vm.interpret().unwrap();
    let mut record = TranslationContext::new(dbb);
    assert_eq!(record.compile_dynamic_basic_block(), Ok(()));
    let mut cpu = before;
    record.execute(&mut cpu);
    assert_eq!(cpu, vm.cpu);
    assert_eq!(cpu, Cpu::new(21, -1, 9, false));
}

#[test]
fn translation_accepts_sequences_that_are_no_blocks() {
    // An empty sequence, and one with a BACK7 in the middle.
    assert_eq!(translate(&[]).execute(Cpu::new(1, 2, 3, false)), Some(Cpu::new(1, 2, 3, false)));
    let ops = [OpCode::INC3A, OpCode::BACK7, OpCode::DECA, OpCode::BACK7, OpCode::HALT];
    let function = translate(&ops);
    assert_eq!(function.blocks.len(), 8);
    for lc in [-1, 0, 1, 2, 3] {
        let cpu = Cpu::new(5, lc, 40, false);
        assert_eq!(function.execute(cpu), Some(interpreted(&ops, cpu)));
    }
}

#[test]
fn compiling_again_replaces_the_translation() {
    let mut engine = TranslatorEngine::new();
    engine.compile_dynamic_basic_block(vec![OpCode::INC3A, OpCode::HALT]).unwrap();
    let mut cpu = Cpu::new(0, 0, 0, false);
    engine.execute(&mut cpu);
    assert_eq!(cpu, Cpu::new(3, 0, 2, true));
    engine.compile_dynamic_basic_block(vec![OpCode::DECA, OpCode::HALT]).unwrap();
    let mut cpu = Cpu::new(0, 0, 0, false);
    engine.execute(&mut cpu);
    assert_eq!(cpu, Cpu::new(-1, 0, 2, true));
    assert!(engine.module.blocks.is_empty());
}

#[test]
fn record_counts_hits_and_says_when_translation_is_due() {
    let mut record = TranslationContext::new(vec![OpCode::HALT]);
    assert_eq!(record.executions, 0);
    assert!(!record.has_compiled());
    assert!(!record.record_hit(2));
    assert_eq!(record.executions, 1);
    assert!(record.record_hit(2));
    assert_eq!(record.executions, 2);
    record.compile_dynamic_basic_block().unwrap();
    assert!(record.has_compiled());
    assert!(!record.record_hit(2));
    assert_eq!(record.executions, 3);
}

#[test]
fn record_count_stops_at_its_largest_value() {
    let mut record = TranslationContext::new(vec![OpCode::HALT]);
    record.executions = u64::MAX - 1;
    assert!(record.record_hit(u64::MAX));
    assert_eq!(record.executions, u64::MAX);
    assert!(record.record_hit(u64::MAX));
    assert_eq!(record.executions, u64::MAX);
}

#[test]
fn verify_refuses_incomplete_functions() {
    assert!(!IrFunction { blocks: vec![] }.verify());
    let open = IrFunction { blocks: vec![block(BlockLabel::Entry, vec![], Terminator::Open)] };
    assert!(!open.verify());
    let backward = IrFunction {
        blocks: vec![
            block(BlockLabel::Entry, vec![], Terminator::Br { target: 1 }),
            block(BlockLabel::Start, vec![], Terminator::Br { target: 0 }),
        ],
    };
    assert!(!backward.verify());
    let missing = IrFunction {
        blocks: vec![block(
            BlockLabel::Entry,
            vec![],
            Terminator::CondBr { cond: 0, then_block: 1, else_block: 2 },
        )],
    };
    assert!(!missing.verify());
    let complete = IrFunction {
        blocks: vec![
            block(BlockLabel::Entry, vec![], Terminator::Br { target: 1 }),
            block(BlockLabel::Start, vec![], Terminator::Ret),
        ],
    };
    assert!(complete.verify());
}

#[test]
fn execute_gives_nothing_where_an_instruction_has_no_meaning() {
    let cpu = Cpu::new(1, 2, 3, false);
    let run = |insts: Vec<Inst>| {
        IrFunction { blocks: vec![block(BlockLabel::Entry, insts, Terminator::Ret)] }.execute(cpu)
    };
    // A load through a value that was never defined.
    assert_eq!(run(vec![Inst::Load { dst: 1, ptr: 0 }]), None);
    // A field index beyond the record.
    assert_eq!(run(vec![Inst::Param { dst: 0 }, Inst::FieldAddr { dst: 1, base: 0, index: 4 }]), None);
    // A signed word stored to the program counter.
    assert_eq!(
        run(vec![
            Inst::Param { dst: 0 },
            Inst::FieldAddr { dst: 1, base: 0, index: 2 },
            Inst::Store { ptr: 1, value: Operand::Int(5) },
        ]),
        None
    );
    // Words of different signedness added.
    assert_eq!(run(vec![Inst::Add { dst: 0, lhs: Operand::Int(1), rhs: Operand::Uint(1) }]), None);
    // A merge in a block that control did not reach from either side.
    assert_eq!(
        run(vec![Inst::Phi {
            dst: 0,
            first_block: 1,
            first: Operand::Int(1),
            second_block: 2,
            second: Operand::Int(2),
        }]),
        None
    );
    // A function that never returns.
    let open = IrFunction { blocks: vec![block(BlockLabel::Entry, vec![], Terminator::Open)] };
    assert_eq!(open.execute(cpu), None);
    assert_eq!(IrFunction { blocks: vec![] }.execute(cpu), None);
    // And one instruction that has a meaning.
    assert_eq!(run(vec![Inst::Param { dst: 0 }]), Some(cpu));
}

#[test]
fn arithmetic_of_the_representation_wraps() {
    let function = IrFunction {
        blocks: vec![block(
            BlockLabel::Entry,
            vec![
                Inst::Param { dst: 0 },
                Inst::FieldAddr { dst: 1, base: 0, index: 0 },
                Inst::FieldAddr { dst: 2, base: 0, index: 2 },
                Inst::Add { dst: 3, lhs: Operand::Int(i32::MAX), rhs: Operand::Int(1) },
                Inst::Store { ptr: 1, value: Operand::Value(3) },
                Inst::Sub { dst: 4, lhs: Operand::Uint(2), rhs: Operand::Uint(6) },
                Inst::Store { ptr: 2, value: Operand::Value(4) },
            ],
            Terminator::Ret,
        )],
    };
    assert_eq!(
        function.execute(Cpu::new(0, 0, 0, false)),
        Some(Cpu::new(i32::MIN, 0, 4294967292, false))
    );
}
