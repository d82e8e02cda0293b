//! Translation of dynamic basic blocks into the intermediate representation.

use vstd::prelude::*;
use crate::block::apply_ops;
use crate::cpu::{Cpu, OpCode};
use crate::error::CompileError;
use crate::ir::{
    closed_block, Block, BlockLabel, Inst, IrFunction, Operand, Terminator, ACC_FIELD, HALT_FIELD,
    LC_FIELD, PC_FIELD,
};
use crate::lowering::{
    back7_insts, draft_append, draft_back7, draft_epilogue, draft_op, draft_op_valid, draft_ops,
    draft_ops_size, draft_prologue, draft_prologue_correct, draft_valid, increase_pc_insts,
    lowering, lowering_is_correct, prologue_context, prologue_insts, Draft, FunctionContext,
};

verus! {

/// A translated block: the function that the instructions `ops` were
/// translated into.
pub struct TranslationBlock {
    pub fun: IrFunction,
    pub ops: Ghost<Seq<OpCode>>,
}

impl TranslationBlock {
    /// Whether the function is the translation of the instructions.
    pub open spec fn wf(&self) -> bool {
        &&& 7 * self.ops@.len() + 5 <= usize::MAX
        &&& self.fun@ == lowering(self.ops@)
    }

    /// Runs the translated block on the registers: they change as executing
    /// the instructions changes them.
    pub fn execute(&self, cpu: &mut Cpu)
        requires
            self.wf(),
        ensures
            *final(cpu) == apply_ops(self.ops@, *old(cpu)),
    {
        proof {
            lowering_is_correct(self.ops@, *cpu);
        }
        match self.fun.execute(*cpu) {
            Some(after) => {
                *cpu = after;
            },
            None => {},
        }
    }
}

/// What the code cache keeps for the block at one address: the block, the
/// number of times it was met again, and its translation once it has one.
pub struct TranslationContext {
    /// The instructions of the block.
    pub dbb: Vec<OpCode>,
    /// How often the block was found in the cache.
    pub executions: u64,
    /// The engine that translates the block and keeps the translation.
    pub translator: TranslatorEngine,
}

impl TranslationContext {
    /// Whether the record is sound: its block is short enough to be
    /// translated, and its translation, if it has one, is that of its block.
    pub open spec fn wf(&self) -> bool {
        &&& 7 * self.dbb@.len() + 5 <= usize::MAX
        &&& self.translator.translation_block matches Some(block) ==> block.wf() && block.ops@
            == self.dbb@
    }

    /// Whether the block has a translation.
    pub open spec fn compiled(&self) -> bool {
        self.translator.translation_block is Some
    }

    /// A record for a block met for the first time.
    pub fn new(dbb: Vec<OpCode>) -> (record: Self)
        requires
            7 * dbb@.len() + 5 <= usize::MAX,
        ensures
            record.wf(),
            record.dbb@ == dbb@,
            record.executions == 0,
            !record.compiled(),
    {
        Self { dbb, executions: 0, translator: TranslatorEngine::new() }
    }

    /// Whether the block has a translation.
    pub fn has_compiled(&self) -> (b: bool)
        ensures
            b == self.compiled(),
    {
        self.translator.translation_block.is_some()
    }

    /// Counts one more meeting with the block and says whether the block is
    /// now due for translation: it has been met `max_executions` times or
    /// more and has no translation yet. The count stops at the largest
    /// number it can hold.
    pub fn record_hit(&mut self, max_executions: u64) -> (due: bool)
        ensures
            final(self).executions == if old(self).executions < u64::MAX {
                (old(self).executions + 1) as u64
            } else {
                u64::MAX
            },
            final(self).dbb == old(self).dbb,
            final(self).translator == old(self).translator,
            due == (final(self).executions >= max_executions && !old(self).compiled()),
    {
        if self.executions < u64::MAX {
            self.executions = self.executions + 1;
        }
        self.executions >= max_executions && !self.has_compiled()
    }

    /// Translates the block of the record.
    pub fn compile_dynamic_basic_block(&mut self) -> (r: Result<(), CompileError>)
        requires
            old(self).wf(),
        ensures
            r is Ok,
            final(self).wf(),
            final(self).compiled(),
            final(self).dbb == old(self).dbb,
            final(self).executions == old(self).executions,
    {
        let dbb = self.dbb.clone();
        assert(dbb@ =~= self.dbb@);
        self.translator.compile_dynamic_basic_block(dbb)
    }

    /// Runs the translation of the block on the registers.
    pub fn execute(&self, cpu: &mut Cpu)
        requires
            self.wf(),
            self.compiled(),
        ensures
            *final(cpu) == apply_ops(self.dbb@, *old(cpu)),
    {
        self.translator.execute(cpu);
    }
}

/// Builds the function that a block is translated into, instruction by
/// instruction, and keeps the last translation made.
pub struct TranslatorEngine {
    /// The function under construction.
    pub module: IrFunction,
    /// The number of the next value to define.
    pub next_value: usize,
    /// The addresses bound by the prologue.
    pub fun_context: Option<FunctionContext>,
    /// The last translation made.
    pub translation_block: Option<TranslationBlock>,
}

impl TranslatorEngine {
    /// The shape of the function under construction.
    pub open spec fn draft(&self) -> Draft {
        Draft { blocks: self.module@, next_value: self.next_value }
    }

    /// The context that the prologue has bound.
    pub open spec fn context(&self) -> FunctionContext {
        self.fun_context->Some_0
    }

    /// Whether a function is under construction: the prologue has bound the
    /// context, the last block is open, and every block before it is closed.
    pub open spec fn building(&self) -> bool {
        self.fun_context is Some && draft_valid(self.draft(), self.context())
    }

    /// An engine that has translated nothing yet.
    pub fn new() -> (engine: Self)
        ensures
            engine.module@.len() == 0,
            engine.next_value == 0,
            engine.fun_context is None,
            engine.translation_block is None,
    {
        Self {
            module: IrFunction { blocks: Vec::new() },
            next_value: 0,
            fun_context: None,
            translation_block: None,
        }
    }

    /// Runs the last translation made on the registers.
    pub fn execute(&self, cpu: &mut Cpu)
        requires
            self.translation_block matches Some(block) && block.wf(),
        ensures
            *final(cpu) == apply_ops(self.translation_block->Some_0.ops@, *old(cpu)),
    {
        match &self.translation_block {
            Some(block) => block.execute(cpu),
            None => {},
        }
    }

    /// Adds one instruction at the end of the open block.
    fn emit(&mut self, inst: Inst)
        requires
            old(self).module@.len() > 0,
        ensures
            final(self).module@ == draft_append(old(self).draft(), seq![inst], 0).blocks,
            final(self).next_value == old(self).next_value,
            final(self).fun_context == old(self).fun_context,
            final(self).translation_block == old(self).translation_block,
    {
        let ghost before = self.module;
        let mut block = self.module.blocks.pop().unwrap();
        block.insts.push(inst);
        self.module.blocks.push(block);
        proof {
            let expected = draft_append(old(self).draft(), seq![inst], 0).blocks;
            assert(self.module@.len() == expected.len());
            assert forall|i: int| 0 <= i < expected.len() implies self.module@[i]
                =~~= expected[i] by {
                if i < expected.len() - 1 {
                    assert(self.module.blocks@[i] == before.blocks@[i]);
                }
            }
            assert(self.module@ =~~= expected);
        }
    }

    /// Emits `PC := PC + 1`, in unsigned arithmetic.
    pub fn build_increase_program_counter(&mut self)
        requires
            old(self).building(),
            old(self).next_value + 2 <= usize::MAX,
        ensures
            final(self).building(),
            final(self).draft() == draft_append(
                old(self).draft(),
                increase_pc_insts(old(self).context(), old(self).next_value),
                2,
            ),
            final(self).fun_context == old(self).fun_context,
            final(self).translation_block == old(self).translation_block,
    {
        let ctx = self.fun_context.unwrap();
        let old_pc = self.next_value;
        let inc_pc = old_pc + 1;
        self.emit(Inst::Load { dst: old_pc, ptr: ctx.pc_ptr });
        self.emit(Inst::Add { dst: inc_pc, lhs: Operand::Value(old_pc), rhs: Operand::Uint(1) });
        self.emit(Inst::Store { ptr: ctx.pc_ptr, value: Operand::Value(inc_pc) });
        self.next_value = old_pc + 2;
        proof {
            let expected = draft_append(old(self).draft(), increase_pc_insts(ctx, old_pc), 2);
            assert(self.module@.last().insts =~= expected.blocks.last().insts);
            assert(self.draft() =~~= expected);
            appended_valid(old(self).draft(), self.draft(), ctx);
        }
    }

    /// Emits `HALT := true; PC := PC + 1`.
    pub fn halt(&mut self)
        requires
            old(self).building(),
            old(self).next_value + 2 <= usize::MAX,
        ensures
            final(self).building(),
            final(self).draft() == draft_op(old(self).draft(), old(self).context(), OpCode::HALT),
            final(self).fun_context == old(self).fun_context,
            final(self).translation_block == old(self).translation_block,
    {
        let ctx = self.fun_context.unwrap();
        self.emit(Inst::Store { ptr: ctx.halt_ptr, value: Operand::Bit(true) });
        proof {
            appended_valid(old(self).draft(), self.draft(), ctx);
        }
        self.build_increase_program_counter();
        proof {
            let expected = draft_op(old(self).draft(), ctx, OpCode::HALT);
            assert(self.module@.last().insts =~= expected.blocks.last().insts);
            assert(self.draft() =~~= expected);
        }
    }

    /// Emits `ACC := 0; PC := PC + 1`.
    pub fn clra(&mut self)
        requires
            old(self).building(),
            old(self).next_value + 2 <= usize::MAX,
        ensures
            final(self).building(),
            final(self).draft() == draft_op(old(self).draft(), old(self).context(), OpCode::CLRA),
            final(self).fun_context == old(self).fun_context,
            final(self).translation_block == old(self).translation_block,
    {
        let ctx = self.fun_context.unwrap();
        self.emit(Inst::Store { ptr: ctx.acc_ptr, value: Operand::Int(0) });
        proof {
            appended_valid(old(self).draft(), self.draft(), ctx);
        }
        self.build_increase_program_counter();
        proof {
            let expected = draft_op(old(self).draft(), ctx, OpCode::CLRA);
            assert(self.module@.last().insts =~= expected.blocks.last().insts);
            assert(self.draft() =~~= expected);
        }
    }

    /// Emits `ACC := ACC + 3; PC := PC + 1`, the sum in signed arithmetic
    /// that wraps.
    pub fn inc3a(&mut self)
        requires
            old(self).building(),
            old(self).next_value + 4 <= usize::MAX,
        ensures
            final(self).building(),
            final(self).draft() == draft_op(
                old(self).draft(),
                old(self).context(),
                OpCode::INC3A,
            ),
            final(self).fun_context == old(self).fun_context,
            final(self).translation_block == old(self).translation_block,
    {
        let ctx = self.fun_context.unwrap();
        let old_acc = self.next_value;
        let new_acc = old_acc + 1;
        self.emit(Inst::Load { dst: old_acc, ptr: ctx.acc_ptr });
        self.emit(Inst::Add { dst: new_acc, lhs: Operand::Value(old_acc), rhs: Operand::Int(3) });
        self.emit(Inst::Store { ptr: ctx.acc_ptr, value: Operand::Value(new_acc) });
        self.next_value = old_acc + 2;
        proof {
            appended_valid(old(self).draft(), self.draft(), ctx);
        }
        self.build_increase_program_counter();
        proof {
            let expected = draft_op(old(self).draft(), ctx, OpCode::INC3A);
            assert(self.module@.last().insts =~= expected.blocks.last().insts);
            assert(self.draft() =~~= expected);
        }
    }

    /// Emits `ACC := ACC - 1; PC := PC + 1`, the difference in signed
    /// arithmetic that wraps.
    pub fn deca(&mut self)
        requires
            old(self).building(),
            old(self).next_value + 4 <= usize::MAX,
        ensures
            final(self).building(),
            final(self).draft() == draft_op(old(self).draft(), old(self).context(), OpCode::DECA),
            final(self).fun_context == old(self).fun_context,
            final(self).translation_block == old(self).translation_block,
    {
        let ctx = self.fun_context.unwrap();
        let old_acc = self.next_value;
        let new_acc = old_acc + 1;
        self.emit(Inst::Load { dst: old_acc, ptr: ctx.acc_ptr });
        self.emit(Inst::Sub { dst: new_acc, lhs: Operand::Value(old_acc), rhs: Operand::Int(1) });
        self.emit(Inst::Store { ptr: ctx.acc_ptr, value: Operand::Value(new_acc) });
        self.next_value = old_acc + 2;
        proof {
            appended_valid(old(self).draft(), self.draft(), ctx);
        }
        self.build_increase_program_counter();
        proof {
            let expected = draft_op(old(self).draft(), ctx, OpCode::DECA);
            assert(self.module@.last().insts =~= expected.blocks.last().insts);
            assert(self.draft() =~~= expected);
        }
    }

    /// Emits `LC := ACC; PC := PC + 1`.
    pub fn setl(&mut self)
        requires
            old(self).building(),
            old(self).next_value + 3 <= usize::MAX,
        ensures
            final(self).building(),
            final(self).draft() == draft_op(old(self).draft(), old(self).context(), OpCode::SETL),
            final(self).fun_context == old(self).fun_context,
            final(self).translation_block == old(self).translation_block,
    {
        let ctx = self.fun_context.unwrap();
        let acc_val = self.next_value;
        self.emit(Inst::Load { dst: acc_val, ptr: ctx.acc_ptr });
        self.emit(Inst::Store { ptr: ctx.lc_ptr, value: Operand::Value(acc_val) });
        self.next_value = acc_val + 1;
        proof {
            appended_valid(old(self).draft(), self.draft(), ctx);
        }
        self.build_increase_program_counter();
        proof {
            let expected = draft_op(old(self).draft(), ctx, OpCode::SETL);
            assert(self.module@.last().insts =~= expected.blocks.last().insts);
            assert(self.draft() =~~= expected);
        }
    }

    /// Emits `LC := LC - 1; if LC > 0 then PC := PC - 6 else PC := PC + 1`.
    ///
    /// The open block ends with the test of the new loop counter and a
    /// conditional branch. Three blocks follow it: one computes `PC - 6`,
    /// one computes `PC + 1`, and the third, which is left open, merges the
    /// two and stores the result.
    pub fn back7(&mut self)
        requires
            old(self).building(),
            old(self).next_value + 7 <= usize::MAX,
            old(self).module@.len() + 3 <= usize::MAX,
        ensures
            final(self).building(),
            final(self).draft() == draft_op(
                old(self).draft(),
                old(self).context(),
                OpCode::BACK7,
            ),
            final(self).fun_context == old(self).fun_context,
            final(self).translation_block == old(self).translation_block,
    {
        let ctx = self.fun_context.unwrap();
        let lc_val = self.next_value;
        let dec_lc = lc_val + 1;
        let pc_val = lc_val + 2;
        let positive = lc_val + 3;
        let dec_pc = lc_val + 4;
        let inc_pc = lc_val + 5;
        let merged = lc_val + 6;
        self.emit(Inst::Load { dst: lc_val, ptr: ctx.lc_ptr });
        self.emit(Inst::Sub { dst: dec_lc, lhs: Operand::Value(lc_val), rhs: Operand::Int(1) });
        self.emit(Inst::Store { ptr: ctx.lc_ptr, value: Operand::Value(dec_lc) });
        self.emit(Inst::Load { dst: pc_val, ptr: ctx.pc_ptr });
        self.emit(
            Inst::GreaterThan { dst: positive, lhs: Operand::Value(dec_lc), rhs: Operand::Int(0) },
        );
        let ghost mid = self.module;
        let current = self.module.blocks.len() - 1;
        let then_block = current + 1;
        let else_block = current + 2;
        let cont_block = current + 3;

        let mut block = self.module.blocks.pop().unwrap();
        block.term = Terminator::CondBr { cond: positive, then_block, else_block };
        self.module.blocks.push(block);

        let mut then_insts: Vec<Inst> = Vec::new();
        then_insts.push(
            Inst::Sub { dst: dec_pc, lhs: Operand::Value(pc_val), rhs: Operand::Uint(6) },
        );
        self.module.blocks.push(
            Block {
                label: BlockLabel::IfThen,
                insts: then_insts,
                term: Terminator::Br { target: cont_block },
            },
        );

        let mut else_insts: Vec<Inst> = Vec::new();
        else_insts.push(
            Inst::Add { dst: inc_pc, lhs: Operand::Value(pc_val), rhs: Operand::Uint(1) },
        );
        self.module.blocks.push(
            Block {
                label: BlockLabel::IfElse,
                insts: else_insts,
                term: Terminator::Br { target: cont_block },
            },
        );

        let mut cont_insts: Vec<Inst> = Vec::new();
        cont_insts.push(
            Inst::Phi {
                dst: merged,
                first_block: then_block,
                first: Operand::Value(dec_pc),
                second_block: else_block,
                second: Operand::Value(inc_pc),
            },
        );
        cont_insts.push(Inst::Store { ptr: ctx.pc_ptr, value: Operand::Value(merged) });
        self.module.blocks.push(
            Block { label: BlockLabel::IfCont, insts: cont_insts, term: Terminator::Open },
        );
        self.next_value = lc_val + 7;

        proof {
            let expected = draft_back7(old(self).draft(), ctx);
            assert(mid@.last().insts =~= old(self).module@.last().insts + back7_insts(
                ctx,
                lc_val,
            ));
            assert(self.module@.len() == expected.blocks.len());
            assert forall|i: int| 0 <= i < expected.blocks.len() implies self.module@[i]
                =~~= expected.blocks[i] by {
                if i < current {
                    assert(self.module.blocks@[i] == mid.blocks@[i]);
                    assert(mid@[i] == old(self).module@[i]);
                }
            }
            assert(self.draft() =~~= expected);
            draft_op_valid(old(self).draft(), ctx, OpCode::BACK7);
        }
    }

    /// Starts a new function: an entry block that takes the address of the
    /// register record and derives from it the addresses of the fields at
    /// the indices 0, 1, 2 and 3, and then branches to the block that will
    /// hold the translated instructions.
    pub fn setup_prologue(&mut self)
        ensures
            final(self).building(),
            final(self).draft() == draft_prologue(),
            final(self).fun_context == Some(prologue_context()),
            final(self).translation_block == old(self).translation_block,
    {
        let ctx = FunctionContext { cpu_ptr: 0, acc_ptr: 1, lc_ptr: 2, pc_ptr: 3, halt_ptr: 4 };
        let mut entry: Vec<Inst> = Vec::new();
        entry.push(Inst::Param { dst: ctx.cpu_ptr });
        entry.push(Inst::FieldAddr { dst: ctx.acc_ptr, base: ctx.cpu_ptr, index: ACC_FIELD });
        entry.push(Inst::FieldAddr { dst: ctx.lc_ptr, base: ctx.cpu_ptr, index: LC_FIELD });
        entry.push(Inst::FieldAddr { dst: ctx.pc_ptr, base: ctx.cpu_ptr, index: PC_FIELD });
        entry.push(Inst::FieldAddr { dst: ctx.halt_ptr, base: ctx.cpu_ptr, index: HALT_FIELD });
        let mut blocks: Vec<Block> = Vec::new();
        blocks.push(
            Block { label: BlockLabel::Entry, insts: entry, term: Terminator::Br { target: 1 } },
        );
        blocks.push(
            Block { label: BlockLabel::Start, insts: Vec::new(), term: Terminator::Open },
        );
        self.module.blocks = blocks;
        self.next_value = 5;
        self.fun_context = Some(ctx);
        proof {
            assert(self.module@[0].insts =~= prologue_insts());
            assert(self.module@[1].insts =~= Seq::<Inst>::empty());
            assert(self.draft() =~~= draft_prologue());
            draft_prologue_correct(Cpu { acc: 0, lc: 0, pc: 0, halt: false });
        }
    }

    /// Ends the function: the open block returns.
    pub fn setup_epilogue(&mut self)
        requires
            old(self).building(),
        ensures
            final(self).module@ == draft_epilogue(old(self).draft()),
            final(self).next_value == old(self).next_value,
            final(self).fun_context == old(self).fun_context,
            final(self).translation_block == old(self).translation_block,
    {
        let ghost before = self.module;
        let mut block = self.module.blocks.pop().unwrap();
        block.term = Terminator::Ret;
        self.module.blocks.push(block);
        proof {
            let expected = draft_epilogue(old(self).draft());
            assert(self.module@.len() == expected.len());
            assert forall|i: int| 0 <= i < expected.len() implies self.module@[i]
                =~~= expected[i] by {
                if i < expected.len() - 1 {
                    assert(self.module.blocks@[i] == before.blocks@[i]);
                }
            }
            assert(self.module@ =~~= expected);
        }
    }

    /// Translates a block: prologue, the instructions in order, epilogue.
    /// The function made is checked and then kept as the engine's
    /// translation.
    ///
    /// Each instruction takes up to seven value numbers and up to three
    /// blocks, which have to fit the machine word.
    pub fn compile_dynamic_basic_block(&mut self, dbb: Vec<OpCode>) -> (r: Result<
        (),
        CompileError,
    >)
        requires
            7 * dbb@.len() + 5 <= usize::MAX,
        ensures
            r is Ok,
            final(self).translation_block matches Some(block) && block.wf() && block.ops@ == dbb@,
            final(self).module@.len() == 0,
            final(self).next_value == 0,
            final(self).fun_context is None,
    {
        self.setup_prologue();
        let ghost ctx = prologue_context();
        let mut i: usize = 0;
        proof {
            assert(dbb@.take(0) =~= Seq::<OpCode>::empty());
        }
        while i < dbb.len()
            invariant
                i <= dbb@.len(),
                7 * dbb@.len() + 5 <= usize::MAX,
                ctx == prologue_context(),
                self.building(),
                self.fun_context == Some(ctx),
                self.draft() == draft_ops(dbb@.take(i as int)),
            decreases dbb@.len() - i,
        {
            let op = dbb[i];
            proof {
                draft_ops_size(dbb@.take(i as int));
            }
            match op {
                OpCode::HALT => self.halt(),
                OpCode::CLRA => self.clra(),
                OpCode::INC3A => self.inc3a(),
                OpCode::DECA => self.deca(),
                OpCode::SETL => self.setl(),
                OpCode::BACK7 => self.back7(),
            }
            proof {
                assert(dbb@.take(i + 1).drop_last() =~= dbb@.take(i as int));
                assert(dbb@.take(i + 1).last() == op);
            }
            i += 1;
        }
        proof {
            assert(dbb@.take(i as int) =~= dbb@);
        }
        self.setup_epilogue();
        proof {
            lowering_is_correct(dbb@, Cpu { acc: 0, lc: 0, pc: 0, halt: false });
        }
        if !self.module.verify() {
            return Err(CompileError::IRVerificationFailed);
        }
        let mut fun = IrFunction { blocks: Vec::new() };
        core::mem::swap(&mut self.module, &mut fun);
        self.fun_context = None;
        self.next_value = 0;
        self.translation_block = Some(TranslationBlock { fun, ops: Ghost(dbb@) });
        Ok(())
    }
}

/// Adding instructions to the open block of a draft that can be built on
/// gives one that can be built on.
proof fn appended_valid(before: Draft, after: Draft, ctx: FunctionContext)
    requires
        draft_valid(before, ctx),
        before.next_value <= after.next_value,
        after.blocks.len() == before.blocks.len(),
        forall|i: int| 0 <= i < before.blocks.len() - 1 ==> after.blocks[i] == before.blocks[i],
        after.blocks.last().term == Terminator::Open,
    ensures
        draft_valid(after, ctx),
{
    assert forall|b: int| 0 <= b < after.blocks.len() - 1 implies closed_block(after.blocks, b) by {
        assert(closed_block(before.blocks, b));
    }
}

} // verus!
