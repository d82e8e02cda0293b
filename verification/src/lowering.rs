//! What translating a block emits, and why the emitted code does what the
//! block does.
//!
//! `lowering` gives the function that a sequence of instructions is
//! translated into; `lowering_is_correct` shows that calling it changes the
//! registers as executing the instructions does.

use vstd::prelude::*;
use crate::block::{apply_ops, interpret_block, scan_block, scan_block_shape};
use crate::cpu::{Cpu, OpCode};
use crate::ir::{
    closed_block, entry_state, eval_inst, eval_insts, eval_insts_concat, last_block, leave_block,
    run, run_from, run_from_extended, value_of, well_formed, BlockLabel, BlockView, Inst, Operand,
    Outcome, State, Terminator, Value, ACC_FIELD, HALT_FIELD, LC_FIELD, PC_FIELD,
};

verus! {

/// The values of the function under construction that hold the addresses of
/// the register record and of its four fields.
#[derive(Clone, Copy, Debug, PartialEq, Eq, Structural)]
pub struct FunctionContext {
    pub cpu_ptr: usize,
    pub acc_ptr: usize,
    pub lc_ptr: usize,
    pub pc_ptr: usize,
    pub halt_ptr: usize,
}

/// The context that the prologue binds: the register record is value 0 and
/// its fields, in their order, are the values 1 to 4.
pub open spec fn prologue_context() -> FunctionContext {
    FunctionContext { cpu_ptr: 0, acc_ptr: 1, lc_ptr: 2, pc_ptr: 3, halt_ptr: 4 }
}

/// The instructions of the entry block: the parameter, and the addresses of
/// the fields at the indices 0, 1, 2 and 3.
pub open spec fn prologue_insts() -> Seq<Inst> {
    seq![
        Inst::Param { dst: 0 },
        Inst::FieldAddr { dst: 1, base: 0, index: ACC_FIELD },
        Inst::FieldAddr { dst: 2, base: 0, index: LC_FIELD },
        Inst::FieldAddr { dst: 3, base: 0, index: PC_FIELD },
        Inst::FieldAddr { dst: 4, base: 0, index: HALT_FIELD },
    ]
}

/// The instructions of `PC := PC + 1`, defining values from `n` on.
pub open spec fn increase_pc_insts(ctx: FunctionContext, n: usize) -> Seq<Inst> {
    seq![
        Inst::Load { dst: n, ptr: ctx.pc_ptr },
        Inst::Add { dst: (n + 1) as usize, lhs: Operand::Value(n), rhs: Operand::Uint(1) },
        Inst::Store { ptr: ctx.pc_ptr, value: Operand::Value((n + 1) as usize) },
    ]
}

/// The instructions of `HALT`, defining values from `n` on.
pub open spec fn halt_insts(ctx: FunctionContext, n: usize) -> Seq<Inst> {
    seq![Inst::Store { ptr: ctx.halt_ptr, value: Operand::Bit(true) }] + increase_pc_insts(ctx, n)
}

/// The instructions of `CLRA`, defining values from `n` on.
pub open spec fn clra_insts(ctx: FunctionContext, n: usize) -> Seq<Inst> {
    seq![Inst::Store { ptr: ctx.acc_ptr, value: Operand::Int(0) }] + increase_pc_insts(ctx, n)
}

/// The instructions of `INC3A`, defining values from `n` on.
pub open spec fn inc3a_insts(ctx: FunctionContext, n: usize) -> Seq<Inst> {
    seq![
        Inst::Load { dst: n, ptr: ctx.acc_ptr },
        Inst::Add { dst: (n + 1) as usize, lhs: Operand::Value(n), rhs: Operand::Int(3) },
        Inst::Store { ptr: ctx.acc_ptr, value: Operand::Value((n + 1) as usize) },
    ] + increase_pc_insts(ctx, (n + 2) as usize)
}

/// The instructions of `DECA`, defining values from `n` on.
pub open spec fn deca_insts(ctx: FunctionContext, n: usize) -> Seq<Inst> {
    seq![
        Inst::Load { dst: n, ptr: ctx.acc_ptr },
        Inst::Sub { dst: (n + 1) as usize, lhs: Operand::Value(n), rhs: Operand::Int(1) },
        Inst::Store { ptr: ctx.acc_ptr, value: Operand::Value((n + 1) as usize) },
    ] + increase_pc_insts(ctx, (n + 2) as usize)
}

/// The instructions of `SETL`, defining values from `n` on.
pub open spec fn setl_insts(ctx: FunctionContext, n: usize) -> Seq<Inst> {
    seq![
        Inst::Load { dst: n, ptr: ctx.acc_ptr },
        Inst::Store { ptr: ctx.lc_ptr, value: Operand::Value(n) },
    ] + increase_pc_insts(ctx, (n + 1) as usize)
}

/// The instructions with which `BACK7` ends the open block, defining values
/// from `n` on: the loop counter is decremented and stored, the program
/// counter is read, and the new loop counter is tested for being positive.
pub open spec fn back7_insts(ctx: FunctionContext, n: usize) -> Seq<Inst> {
    seq![
        Inst::Load { dst: n, ptr: ctx.lc_ptr },
        Inst::Sub { dst: (n + 1) as usize, lhs: Operand::Value(n), rhs: Operand::Int(1) },
        Inst::Store { ptr: ctx.lc_ptr, value: Operand::Value((n + 1) as usize) },
        Inst::Load { dst: (n + 2) as usize, ptr: ctx.pc_ptr },
        Inst::GreaterThan {
            dst: (n + 3) as usize,
            lhs: Operand::Value((n + 1) as usize),
            rhs: Operand::Int(0),
        },
    ]
}

/// The shape of a function under construction: its blocks, and the number
/// of the next value to define.
#[verifier::ext_equal]
pub struct Draft {
    pub blocks: Seq<BlockView>,
    pub next_value: usize,
}

/// The draft that the prologue makes: the entry block, which binds the
/// context and branches on, and an empty open block.
pub open spec fn draft_prologue() -> Draft {
    Draft {
        blocks: seq![
            BlockView {
                label: BlockLabel::Entry,
                insts: prologue_insts(),
                term: Terminator::Br { target: 1 },
            },
            BlockView { label: BlockLabel::Start, insts: Seq::empty(), term: Terminator::Open },
        ],
        next_value: 5,
    }
}

/// The draft with `insts`, which define `values` values, added to its last
/// block.
pub open spec fn draft_append(d: Draft, insts: Seq<Inst>, values: int) -> Draft {
    let last = d.blocks.last();
    Draft {
        blocks: d.blocks.update(
            d.blocks.len() - 1,
            BlockView { insts: last.insts + insts, ..last },
        ),
        next_value: (d.next_value + values) as usize,
    }
}

/// The draft after a `BACK7`: the last block gets `back7_insts` and a
/// conditional branch on the test, and three blocks follow: the one that
/// computes `PC - 6`, the one that computes `PC + 1`, and the open one that
/// merges the two and stores the program counter.
pub open spec fn draft_back7(d: Draft, ctx: FunctionContext) -> Draft {
    let n = d.next_value;
    let current = d.blocks.len() - 1;
    let last = d.blocks.last();
    Draft {
        blocks: d.blocks.update(
            current,
            BlockView {
                insts: last.insts + back7_insts(ctx, n),
                term: Terminator::CondBr {
                    cond: (n + 3) as usize,
                    then_block: (current + 1) as usize,
                    else_block: (current + 2) as usize,
                },
                ..last
            },
        ).push(
            BlockView {
                label: BlockLabel::IfThen,
                insts: seq![
                    Inst::Sub {
                        dst: (n + 4) as usize,
                        lhs: Operand::Value((n + 2) as usize),
                        rhs: Operand::Uint(6),
                    },
                ],
                term: Terminator::Br { target: (current + 3) as usize },
            },
        ).push(
            BlockView {
                label: BlockLabel::IfElse,
                insts: seq![
                    Inst::Add {
                        dst: (n + 5) as usize,
                        lhs: Operand::Value((n + 2) as usize),
                        rhs: Operand::Uint(1),
                    },
                ],
                term: Terminator::Br { target: (current + 3) as usize },
            },
        ).push(
            BlockView {
                label: BlockLabel::IfCont,
                insts: seq![
                    Inst::Phi {
                        dst: (n + 6) as usize,
                        first_block: (current + 1) as usize,
                        first: Operand::Value((n + 4) as usize),
                        second_block: (current + 2) as usize,
                        second: Operand::Value((n + 5) as usize),
                    },
                    Inst::Store { ptr: ctx.pc_ptr, value: Operand::Value((n + 6) as usize) },
                ],
                term: Terminator::Open,
            },
        ),
        next_value: (n + 7) as usize,
    }
}

/// The code of an instruction other than `BACK7`, defining values from `n`
/// on.
pub open spec fn op_insts(ctx: FunctionContext, n: usize, op: OpCode) -> Seq<Inst> {
    match op {
        OpCode::HALT => halt_insts(ctx, n),
        OpCode::CLRA => clra_insts(ctx, n),
        OpCode::INC3A => inc3a_insts(ctx, n),
        OpCode::DECA => deca_insts(ctx, n),
        _ => setl_insts(ctx, n),
    }
}

/// The number of values that the code of an instruction defines.
pub open spec fn op_values(op: OpCode) -> int {
    match op {
        OpCode::HALT => 2,
        OpCode::CLRA => 2,
        OpCode::INC3A => 4,
        OpCode::DECA => 4,
        OpCode::SETL => 3,
        OpCode::BACK7 => 7,
    }
}

/// The draft after one more instruction of the machine: `BACK7` adds
/// blocks, every other instruction adds its code to the open block.
pub open spec fn draft_op(d: Draft, ctx: FunctionContext, op: OpCode) -> Draft {
    if op == OpCode::BACK7 {
        draft_back7(d, ctx)
    } else {
        draft_append(d, op_insts(ctx, d.next_value, op), op_values(op))
    }
}

/// The draft after the prologue and the instructions `ops`.
pub open spec fn draft_ops(ops: Seq<OpCode>) -> Draft
    decreases ops.len(),
{
    if ops.len() == 0 {
        draft_prologue()
    } else {
        draft_op(draft_ops(ops.drop_last()), prologue_context(), ops.last())
    }
}

/// The blocks of the draft after the epilogue: the last block returns.
pub open spec fn draft_epilogue(d: Draft) -> Seq<BlockView> {
    d.blocks.update(d.blocks.len() - 1, BlockView { term: Terminator::Ret, ..d.blocks.last() })
}

/// The function that the instructions `ops` are translated into: prologue,
/// the code of each instruction in order, epilogue.
pub open spec fn lowering(ops: Seq<OpCode>) -> Seq<BlockView> {
    draft_epilogue(draft_ops(ops))
}

/// Whether a draft can be built on: its last block is open, every block
/// before it is closed, and the values of the context have been numbered.
pub open spec fn draft_valid(d: Draft, ctx: FunctionContext) -> bool {
    &&& 0 < d.blocks.len() <= usize::MAX
    &&& d.blocks.last().term == Terminator::Open
    &&& forall|b: int| 0 <= b < d.blocks.len() - 1 ==> closed_block(d.blocks, b)
    &&& ctx.cpu_ptr < d.next_value
    &&& ctx.acc_ptr < d.next_value
    &&& ctx.lc_ptr < d.next_value
    &&& ctx.pc_ptr < d.next_value
    &&& ctx.halt_ptr < d.next_value
}

/// The state in which control reaches the end of the last block, which is
/// open, when the function is called on `cpu`: the point where the next
/// instruction will be added.
pub open spec fn reach(blocks: Seq<BlockView>, cpu: Cpu) -> Option<State> {
    match run_from(blocks, 0, entry_state(cpu)) {
        Some(Outcome::Open { block, state }) => if block == last_block(blocks) {
            Some(state)
        } else {
            None
        },
        _ => None,
    }
}

/// Whether, in `st`, the values of the context hold the addresses of the
/// fields: the accumulator at index 0, the loop counter at 1, the program
/// counter at 2 and the halt flag at 3.
pub open spec fn bound(ctx: FunctionContext, st: State) -> bool {
    &&& value_of(st.env, ctx.cpu_ptr) == Some(Value::CpuPtr)
    &&& value_of(st.env, ctx.acc_ptr) == Some(Value::FieldPtr(ACC_FIELD))
    &&& value_of(st.env, ctx.lc_ptr) == Some(Value::FieldPtr(LC_FIELD))
    &&& value_of(st.env, ctx.pc_ptr) == Some(Value::FieldPtr(PC_FIELD))
    &&& value_of(st.env, ctx.halt_ptr) == Some(Value::FieldPtr(HALT_FIELD))
}

/// Whether the function, called on `cpu`, arrives at its open end with the
/// registers `after` and the context bound.
pub open spec fn arrives(blocks: Seq<BlockView>, ctx: FunctionContext, cpu: Cpu, after: Cpu) -> bool {
    reach(blocks, cpu) matches Some(st) && st.cpu == after && bound(ctx, st)
}

/// Each instruction takes at most seven values and three blocks.
pub proof fn draft_ops_size(ops: Seq<OpCode>)
    requires
        7 * ops.len() + 5 <= usize::MAX,
    ensures
        draft_ops(ops).next_value <= 5 + 7 * ops.len(),
        2 <= draft_ops(ops).blocks.len() <= 2 + 3 * ops.len(),
    decreases ops.len(),
{
    if ops.len() > 0 {
        draft_ops_size(ops.drop_last());
    }
}

/// Running one instruction.
proof fn eval_one(a: Inst, st: State)
    ensures
        eval_insts(seq![a], st) == eval_inst(a, st),
{
    reveal_with_fuel(eval_insts, 2);
    assert(seq![a].drop_first().len() == 0);
}

/// Running two instructions.
proof fn eval_two(a: Inst, b: Inst, st: State)
    ensures
        eval_insts(seq![a, b], st) == match eval_inst(a, st) {
            Some(s1) => eval_inst(b, s1),
            None => None,
        },
{
    let all = seq![a, b];
    assert(all.drop_first() =~= seq![b]);
    match eval_inst(a, st) {
        Some(s1) => eval_one(b, s1),
        None => {},
    }
}

/// Running three instructions.
proof fn eval_three(a: Inst, b: Inst, c: Inst, st: State)
    ensures
        eval_insts(seq![a, b, c], st) == match eval_inst(a, st) {
            Some(s1) => match eval_inst(b, s1) {
                Some(s2) => eval_inst(c, s2),
                None => None,
            },
            None => None,
        },
{
    let all = seq![a, b, c];
    assert(all.drop_first() =~= seq![b, c]);
    match eval_inst(a, st) {
        Some(s1) => eval_two(b, c, s1),
        None => {},
    }
}

/// The code of `PC := PC + 1` advances the program counter and keeps the
/// context bound.
proof fn increase_pc_effect(ctx: FunctionContext, n: usize, st: State)
    requires
        bound(ctx, st),
        ctx.cpu_ptr < n,
        ctx.acc_ptr < n,
        ctx.lc_ptr < n,
        ctx.pc_ptr < n,
        ctx.halt_ptr < n,
        n + 2 <= usize::MAX,
    ensures
        eval_insts(increase_pc_insts(ctx, n), st) matches Some(end) && end.cpu == (Cpu {
            pc: st.cpu.pc.wrapping_add(1),
            ..st.cpu
        }) && bound(ctx, end) && end.pred == st.pred,
{
    let insts = increase_pc_insts(ctx, n);
    eval_three(insts[0], insts[1], insts[2], st);
    assert(insts =~= seq![insts[0], insts[1], insts[2]]);
}

/// The code of an instruction other than `BACK7` does to the registers
/// what the instruction does, and keeps the context bound.
pub proof fn op_insts_effect(ctx: FunctionContext, n: usize, op: OpCode, st: State)
    requires
        op != OpCode::BACK7,
        bound(ctx, st),
        ctx.cpu_ptr < n,
        ctx.acc_ptr < n,
        ctx.lc_ptr < n,
        ctx.pc_ptr < n,
        ctx.halt_ptr < n,
        n + 4 <= usize::MAX,
    ensures
        eval_insts(op_insts(ctx, n, op), st) matches Some(end) && end.cpu == op.apply(st.cpu)
            && bound(ctx, end) && end.pred == st.pred,
{
    match op {
        OpCode::HALT => {
            let first = Inst::Store { ptr: ctx.halt_ptr, value: Operand::Bit(true) };
            eval_insts_concat(seq![first], increase_pc_insts(ctx, n), st);
            eval_one(first, st);
            increase_pc_effect(ctx, n, eval_inst(first, st)->Some_0);
        },
        OpCode::CLRA => {
            let first = Inst::Store { ptr: ctx.acc_ptr, value: Operand::Int(0) };
            eval_insts_concat(seq![first], increase_pc_insts(ctx, n), st);
            eval_one(first, st);
            increase_pc_effect(ctx, n, eval_inst(first, st)->Some_0);
        },
        OpCode::INC3A => {
            let a = Inst::Load { dst: n, ptr: ctx.acc_ptr };
            let b = Inst::Add {
                dst: (n + 1) as usize,
                lhs: Operand::Value(n),
                rhs: Operand::Int(3),
            };
            let c = Inst::Store { ptr: ctx.acc_ptr, value: Operand::Value((n + 1) as usize) };
            eval_insts_concat(seq![a, b, c], increase_pc_insts(ctx, (n + 2) as usize), st);
            eval_three(a, b, c, st);
            increase_pc_effect(ctx, (n + 2) as usize, eval_insts(seq![a, b, c], st)->Some_0);
        },
        OpCode::DECA => {
            let a = Inst::Load { dst: n, ptr: ctx.acc_ptr };
            let b = Inst::Sub {
                dst: (n + 1) as usize,
                lhs: Operand::Value(n),
                rhs: Operand::Int(1),
            };
            let c = Inst::Store { ptr: ctx.acc_ptr, value: Operand::Value((n + 1) as usize) };
            eval_insts_concat(seq![a, b, c], increase_pc_insts(ctx, (n + 2) as usize), st);
            eval_three(a, b, c, st);
            increase_pc_effect(ctx, (n + 2) as usize, eval_insts(seq![a, b, c], st)->Some_0);
        },
        _ => {
            let a = Inst::Load { dst: n, ptr: ctx.acc_ptr };
            let b = Inst::Store { ptr: ctx.lc_ptr, value: Operand::Value(n) };
            eval_insts_concat(seq![a, b], increase_pc_insts(ctx, (n + 1) as usize), st);
            eval_two(a, b, st);
            increase_pc_effect(ctx, (n + 1) as usize, eval_insts(seq![a, b], st)->Some_0);
        },
    }
}

/// The code with which `BACK7` ends the open block decrements the loop
/// counter and leaves, as values, the program counter and whether the new
/// loop counter is positive.
proof fn back7_insts_effect(ctx: FunctionContext, n: usize, st: State)
    requires
        bound(ctx, st),
        ctx.cpu_ptr < n,
        ctx.acc_ptr < n,
        ctx.lc_ptr < n,
        ctx.pc_ptr < n,
        ctx.halt_ptr < n,
        n + 7 <= usize::MAX,
    ensures
        eval_insts(back7_insts(ctx, n), st) matches Some(end) && end.cpu == (Cpu {
            lc: st.cpu.lc.wrapping_sub(1),
            ..st.cpu
        }) && bound(ctx, end) && value_of(end.env, (n + 2) as usize) == Some(
            Value::Uint(st.cpu.pc),
        ) && value_of(end.env, (n + 3) as usize) == Some(
            Value::Bit(st.cpu.lc.wrapping_sub(1) > 0),
        ),
{
    let insts = back7_insts(ctx, n);
    let head = seq![insts[0], insts[1], insts[2]];
    let tail = seq![insts[3], insts[4]];
    assert(insts =~= head + tail);
    eval_insts_concat(head, tail, st);
    eval_three(insts[0], insts[1], insts[2], st);
    eval_two(insts[3], insts[4], eval_insts(head, st)->Some_0);
}

/// The three blocks that follow the test of a `BACK7` do the rest of it:
/// leaving the block `current` by its conditional branch ends, open, in the
/// block that merges the two sides, with the program counter set.
proof fn back7_tail(
    d: Draft,
    ctx: FunctionContext,
    blocks: Seq<BlockView>,
    current: usize,
    n: usize,
    at_test: State,
    before: Cpu,
)
    requires
        d.blocks.len() == current + 1,
        d.next_value == n,
        current + 3 <= usize::MAX,
        n + 7 <= usize::MAX,
        blocks == draft_back7(d, ctx).blocks,
        bound(ctx, at_test),
        ctx.cpu_ptr < n,
        ctx.acc_ptr < n,
        ctx.lc_ptr < n,
        ctx.pc_ptr < n,
        ctx.halt_ptr < n,
        at_test.cpu == (Cpu { lc: before.lc.wrapping_sub(1), ..before }),
        value_of(at_test.env, (n + 2) as usize) == Some(Value::Uint(before.pc)),
        value_of(at_test.env, (n + 3) as usize) == Some(
            Value::Bit(before.lc.wrapping_sub(1) > 0),
        ),
    ensures
        leave_block(blocks, current, at_test) matches Some(Outcome::Open { block, state })
            && block == last_block(blocks) && state.cpu == OpCode::BACK7.apply(before) && bound(
            ctx,
            state,
        ),
{
    reveal_with_fuel(run_from, 3);
    reveal_with_fuel(leave_block, 3);
    let taken = before.lc.wrapping_sub(1) > 0;
    let side = if taken {
        (current + 1) as usize
    } else {
        (current + 2) as usize
    };
    let entered = State { pred: current, ..at_test };
    assert(leave_block(blocks, current, at_test) == run_from(blocks, side, entered));
    let side_insts = blocks[side as int].insts;
    eval_one(side_insts[0], entered);
    assert(side_insts =~= seq![side_insts[0]]);
    let on_side = eval_inst(side_insts[0], entered)->Some_0;
    let joined = State { pred: side, ..on_side };
    assert(run_from(blocks, side, entered) == run_from(blocks, (current + 3) as usize, joined));
    let cont_insts = blocks[current + 3].insts;
    eval_two(cont_insts[0], cont_insts[1], joined);
    assert(cont_insts =~= seq![cont_insts[0], cont_insts[1]]);
}

/// Adding instructions to the open block: the function arrives at its open
/// end as before and then runs the new instructions.
pub proof fn draft_append_reach(d: Draft, insts: Seq<Inst>, values: int, cpu: Cpu)
    requires
        0 < d.blocks.len() <= usize::MAX,
        d.blocks.last().term == Terminator::Open,
        reach(d.blocks, cpu) is Some,
    ensures
        reach(draft_append(d, insts, values).blocks, cpu) == eval_insts(
            insts,
            reach(d.blocks, cpu)->Some_0,
        ),
{
    let g = draft_append(d, insts, values).blocks;
    let st = reach(d.blocks, cpu)->Some_0;
    run_from_extended(d.blocks, g, insts, 0, entry_state(cpu), st);
}

/// Building on a draft that can be built on gives one that can be built on.
pub proof fn draft_op_valid(d: Draft, ctx: FunctionContext, op: OpCode)
    requires
        draft_valid(d, ctx),
        d.next_value + 7 <= usize::MAX,
        d.blocks.len() + 3 <= usize::MAX,
    ensures
        draft_valid(draft_op(d, ctx, op), ctx),
        d.next_value <= draft_op(d, ctx, op).next_value <= d.next_value + 7,
        d.blocks.len() <= draft_op(d, ctx, op).blocks.len() <= d.blocks.len() + 3,
{
    let after = draft_op(d, ctx, op);
    assert forall|b: int| 0 <= b < after.blocks.len() - 1 implies closed_block(
        after.blocks,
        b,
    ) by {
        if b < d.blocks.len() - 1 {
            assert(closed_block(d.blocks, b));
            assert(after.blocks[b] == d.blocks[b]);
        }
    }
}

/// Building on by one instruction of the machine: the function now does that
/// instruction in addition, and keeps the context bound.
pub proof fn draft_op_correct(d: Draft, ctx: FunctionContext, op: OpCode, cpu: Cpu, after: Cpu)
    requires
        draft_valid(d, ctx),
        d.next_value + 7 <= usize::MAX,
        d.blocks.len() + 3 <= usize::MAX,
        arrives(d.blocks, ctx, cpu, after),
    ensures
        arrives(draft_op(d, ctx, op).blocks, ctx, cpu, op.apply(after)),
{
    let st = reach(d.blocks, cpu)->Some_0;
    let n = d.next_value;
    if op == OpCode::BACK7 {
        let g = draft_back7(d, ctx).blocks;
        let current = last_block(d.blocks);
        run_from_extended(d.blocks, g, back7_insts(ctx, n), 0, entry_state(cpu), st);
        back7_insts_effect(ctx, n, st);
        let at_test = eval_insts(back7_insts(ctx, n), st)->Some_0;
        back7_tail(d, ctx, g, current, n, at_test, st.cpu);
    } else {
        draft_append_reach(d, op_insts(ctx, n, op), op_values(op), cpu);
        op_insts_effect(ctx, n, op, st);
    }
}

/// The prologue arrives at its open block with the registers untouched and
/// the context bound.
pub proof fn draft_prologue_correct(cpu: Cpu)
    ensures
        draft_valid(draft_prologue(), prologue_context()),
        arrives(draft_prologue().blocks, prologue_context(), cpu, cpu),
{
    reveal_with_fuel(run_from, 3);
    reveal_with_fuel(leave_block, 3);
    let blocks = draft_prologue().blocks;
    let insts = prologue_insts();
    let head = seq![insts[0], insts[1], insts[2]];
    let tail = seq![insts[3], insts[4]];
    assert(insts =~= head + tail);
    let s0 = entry_state(cpu);
    eval_insts_concat(head, tail, s0);
    eval_three(insts[0], insts[1], insts[2], s0);
    eval_two(insts[3], insts[4], eval_insts(head, s0)->Some_0);
    let bound_state = eval_insts(insts, s0)->Some_0;
    assert(eval_insts(blocks[1].insts, State { pred: 0, ..bound_state }) == Some(
        State { pred: 0, ..bound_state },
    ));
}

/// The draft of a sequence of instructions can be built on and does the
/// instructions in order.
pub proof fn draft_ops_correct(ops: Seq<OpCode>, cpu: Cpu)
    requires
        7 * ops.len() + 5 <= usize::MAX,
    ensures
        draft_valid(draft_ops(ops), prologue_context()),
        arrives(draft_ops(ops).blocks, prologue_context(), cpu, apply_ops(ops, cpu)),
    decreases ops.len(),
{
    if ops.len() == 0 {
        draft_prologue_correct(cpu);
    } else {
        let before = draft_ops(ops.drop_last());
        draft_ops_correct(ops.drop_last(), cpu);
        draft_ops_size(ops.drop_last());
        draft_op_valid(before, prologue_context(), ops.last());
        draft_op_correct(
            before,
            prologue_context(),
            ops.last(),
            cpu,
            apply_ops(ops.drop_last(), cpu),
        );
    }
}

/// The translation of a sequence of instructions is a complete function,
/// and calling it leaves the registers as executing the instructions in
/// order leaves them.
pub proof fn lowering_is_correct(ops: Seq<OpCode>, cpu: Cpu)
    requires
        7 * ops.len() + 5 <= usize::MAX,
    ensures
        well_formed(lowering(ops)),
        run(lowering(ops), cpu) == Some(apply_ops(ops, cpu)),
{
    let d = draft_ops(ops);
    let f = lowering(ops);
    draft_ops_correct(ops, cpu);
    let st = reach(d.blocks, cpu)->Some_0;
    assert(f[d.blocks.len() - 1].insts =~= d.blocks.last().insts + Seq::<Inst>::empty());
    run_from_extended(d.blocks, f, Seq::empty(), 0, entry_state(cpu), st);
    assert forall|b: int| 0 <= b < f.len() implies closed_block(f, b) by {
        if b < f.len() - 1 {
            assert(closed_block(d.blocks, b));
            assert(f[b] == d.blocks[b]);
        }
    }
}

/// The translation of the block at the program counter leaves the
/// registers as interpreting that block leaves them.
pub proof fn translation_agrees_with_interpreter(mem: Seq<u8>, cpu: Cpu)
    requires
        scan_block(mem, cpu.pc).fault is None,
    ensures
        run(lowering(scan_block(mem, cpu.pc).ops), cpu) == Some(interpret_block(mem, cpu).cpu),
{
    scan_block_shape(mem, cpu.pc);
    lowering_is_correct(scan_block(mem, cpu.pc).ops, cpu);
}

} // verus!
