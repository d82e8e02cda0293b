//! The intermediate representation that blocks are translated into: a
//! function over the register record, made of basic blocks of instructions
//! in static single assignment form, with explicit branches between them.
//!
//! The representation is independent of any target. Its meaning is given
//! here by `run`; `IrFunction::execute` evaluates it.

use vstd::prelude::*;
use std::collections::HashMap;
use crate::cpu::Cpu;

verus! {

/// The number of fields of the register record: accumulator, loop counter,
/// program counter and halt flag, at the indices 0, 1, 2 and 3.
pub const FIELD_COUNT: usize = 4;

/// The index of the accumulator in the register record.
pub const ACC_FIELD: usize = 0;

/// The index of the loop counter in the register record.
pub const LC_FIELD: usize = 1;

/// The index of the program counter in the register record.
pub const PC_FIELD: usize = 2;

/// The index of the halt flag in the register record.
pub const HALT_FIELD: usize = 3;

/// What a value of the representation holds.
#[derive(Clone, Copy, Debug, PartialEq, Eq, Structural)]
pub enum Value {
    /// The address of the register record.
    CpuPtr,
    /// The address of the field of the register record with this index.
    FieldPtr(usize),
    /// A 32-bit word read as a signed number.
    Int(i32),
    /// A 32-bit word read as an unsigned number.
    Uint(u32),
    /// One bit.
    Bit(bool),
}

/// What an instruction computes with: an earlier value, by its number, or a
/// constant.
#[derive(Clone, Copy, Debug, PartialEq, Eq, Structural)]
pub enum Operand {
    Value(usize),
    Int(i32),
    Uint(u32),
    Bit(bool),
}

/// An instruction inside a block. `dst` is the number of the value that the
/// instruction defines.
#[derive(Clone, Copy, Debug, PartialEq, Eq, Structural)]
pub enum Inst {
    /// The function's parameter: the address of the register record.
    Param { dst: usize },
    /// The address of field `index` of the record at `base`.
    FieldAddr { dst: usize, base: usize, index: usize },
    /// The content of the field at `ptr`.
    Load { dst: usize, ptr: usize },
    /// Writes `value` to the field at `ptr`.
    Store { ptr: usize, value: Operand },
    /// The wrapping sum of two words of the same signedness.
    Add { dst: usize, lhs: Operand, rhs: Operand },
    /// The wrapping difference of two words of the same signedness.
    Sub { dst: usize, lhs: Operand, rhs: Operand },
    /// Whether the signed word `lhs` is greater than the signed word `rhs`.
    GreaterThan { dst: usize, lhs: Operand, rhs: Operand },
    /// `first` where control came from `first_block`, `second` where it came
    /// from `second_block`.
    Phi { dst: usize, first_block: usize, first: Operand, second_block: usize, second: Operand },
}

/// How control leaves a block.
#[derive(Clone, Copy, Debug, PartialEq, Eq, Structural)]
pub enum Terminator {
    /// The block is still being built and has no terminator yet.
    Open,
    /// Return from the function.
    Ret,
    /// Go on with the block `target`.
    Br { target: usize },
    /// Go on with `then_block` where the bit `cond` is set, else with
    /// `else_block`.
    CondBr { cond: usize, then_block: usize, else_block: usize },
}

/// The names of the blocks that a translation is made of.
#[derive(Clone, Copy, Debug, PartialEq, Eq, Structural)]
pub enum BlockLabel {
    /// The block that binds the addresses of the registers.
    Entry,
    /// The block that holds the translated instructions.
    Start,
    /// The side of a `BACK7` that jumps back.
    IfThen,
    /// The side of a `BACK7` that falls through.
    IfElse,
    /// Where the two sides of a `BACK7` meet.
    IfCont,
}

/// A basic block: instructions, then a terminator.
#[derive(Clone, Debug, PartialEq, Eq)]
pub struct Block {
    pub label: BlockLabel,
    pub insts: Vec<Inst>,
    pub term: Terminator,
}

/// A function `void(cpu*)`. Execution starts at block 0.
#[derive(Clone, Debug, PartialEq, Eq)]
pub struct IrFunction {
    pub blocks: Vec<Block>,
}

/// What a basic block holds: the model of `Block` that contracts speak of.
#[verifier::ext_equal]
pub struct BlockView {
    pub label: BlockLabel,
    pub insts: Seq<Inst>,
    pub term: Terminator,
}

impl View for Block {
    type V = BlockView;

    open spec fn view(&self) -> BlockView {
        BlockView { label: self.label, insts: self.insts@, term: self.term }
    }
}

impl View for IrFunction {
    type V = Seq<BlockView>;

    open spec fn view(&self) -> Seq<BlockView> {
        Seq::new(self.blocks@.len(), |i: int| self.blocks@[i]@)
    }
}

/// The state of an execution inside a function.
pub struct State {
    /// The values defined so far.
    pub env: Map<usize, Value>,
    /// The registers.
    pub cpu: Cpu,
    /// The block that control came from.
    pub pred: usize,
}

/// How far an execution got.
pub enum Outcome {
    /// The function returned and left the registers so.
    Returned(Cpu),
    /// Control reached the end of `block`, which has no terminator yet.
    Open { block: usize, state: State },
}

/// The content of the field with the given index.
pub open spec fn read_field(cpu: Cpu, index: usize) -> Option<Value> {
    if index == ACC_FIELD {
        Some(Value::Int(cpu.acc))
    } else if index == LC_FIELD {
        Some(Value::Int(cpu.lc))
    } else if index == PC_FIELD {
        Some(Value::Uint(cpu.pc))
    } else if index == HALT_FIELD {
        Some(Value::Bit(cpu.halt))
    } else {
        None
    }
}

/// The registers after writing `value` to the field with the given index.
/// Accumulator and loop counter take signed words, the program counter an
/// unsigned word, the halt flag a bit.
pub open spec fn write_field(cpu: Cpu, index: usize, value: Value) -> Option<Cpu> {
    match value {
        Value::Int(v) => if index == ACC_FIELD {
            Some(Cpu { acc: v, ..cpu })
        } else if index == LC_FIELD {
            Some(Cpu { lc: v, ..cpu })
        } else {
            None
        },
        Value::Uint(v) => if index == PC_FIELD {
            Some(Cpu { pc: v, ..cpu })
        } else {
            None
        },
        Value::Bit(v) => if index == HALT_FIELD {
            Some(Cpu { halt: v, ..cpu })
        } else {
            None
        },
        _ => None,
    }
}

/// The value with the given number, if it is defined.
pub open spec fn value_of(env: Map<usize, Value>, id: usize) -> Option<Value> {
    if env.contains_key(id) {
        Some(env[id])
    } else {
        None
    }
}

/// What an operand stands for.
pub open spec fn operand_value(env: Map<usize, Value>, operand: Operand) -> Option<Value> {
    match operand {
        Operand::Value(id) => value_of(env, id),
        Operand::Int(v) => Some(Value::Int(v)),
        Operand::Uint(v) => Some(Value::Uint(v)),
        Operand::Bit(v) => Some(Value::Bit(v)),
    }
}

/// The state after defining the value `dst`.
pub open spec fn define(st: State, dst: usize, value: Option<Value>) -> Option<State> {
    match value {
        Some(v) => Some(State { env: st.env.insert(dst, v), ..st }),
        None => None,
    }
}

/// The sum of two words, or the difference where `subtract` is set.
pub open spec fn arith(subtract: bool, lhs: Option<Value>, rhs: Option<Value>) -> Option<Value> {
    match (lhs, rhs) {
        (Some(Value::Int(a)), Some(Value::Int(b))) => Some(
            Value::Int(
                if subtract {
                    a.wrapping_sub(b)
                } else {
                    a.wrapping_add(b)
                },
            ),
        ),
        (Some(Value::Uint(a)), Some(Value::Uint(b))) => Some(
            Value::Uint(
                if subtract {
                    a.wrapping_sub(b)
                } else {
                    a.wrapping_add(b)
                },
            ),
        ),
        _ => None,
    }
}

/// Whether one signed word is greater than another.
pub open spec fn greater_than(lhs: Option<Value>, rhs: Option<Value>) -> Option<Value> {
    match (lhs, rhs) {
        (Some(Value::Int(a)), Some(Value::Int(b))) => Some(Value::Bit(a > b)),
        _ => None,
    }
}

/// The state after one instruction, or `None` where the instruction has no
/// meaning in `st`.
pub open spec fn eval_inst(inst: Inst, st: State) -> Option<State> {
    match inst {
        Inst::Param { dst } => define(st, dst, Some(Value::CpuPtr)),
        Inst::FieldAddr { dst, base, index } => if value_of(st.env, base) == Some(Value::CpuPtr)
            && index < FIELD_COUNT {
            define(st, dst, Some(Value::FieldPtr(index)))
        } else {
            None
        },
        Inst::Load { dst, ptr } => match value_of(st.env, ptr) {
            Some(Value::FieldPtr(index)) => define(st, dst, read_field(st.cpu, index)),
            _ => None,
        },
        Inst::Store { ptr, value } => match (value_of(st.env, ptr), operand_value(st.env, value)) {
            (Some(Value::FieldPtr(index)), Some(v)) => match write_field(st.cpu, index, v) {
                Some(cpu) => Some(State { cpu, ..st }),
                None => None,
            },
            _ => None,
        },
        Inst::Add { dst, lhs, rhs } => define(
            st,
            dst,
            arith(false, operand_value(st.env, lhs), operand_value(st.env, rhs)),
        ),
        Inst::Sub { dst, lhs, rhs } => define(
            st,
            dst,
            arith(true, operand_value(st.env, lhs), operand_value(st.env, rhs)),
        ),
        Inst::GreaterThan { dst, lhs, rhs } => define(
            st,
            dst,
            greater_than(operand_value(st.env, lhs), operand_value(st.env, rhs)),
        ),
        Inst::Phi { dst, first_block, first, second_block, second } => if st.pred == first_block {
            define(st, dst, operand_value(st.env, first))
        } else if st.pred == second_block {
            define(st, dst, operand_value(st.env, second))
        } else {
            None
        },
    }
}

/// The state after a sequence of instructions.
pub open spec fn eval_insts(insts: Seq<Inst>, st: State) -> Option<State>
    decreases insts.len(),
{
    if insts.len() == 0 {
        Some(st)
    } else {
        match eval_inst(insts[0], st) {
            Some(next) => eval_insts(insts.drop_first(), next),
            None => None,
        }
    }
}

/// Entering block `b` in state `st`: its instructions, then `leave_block`.
pub open spec fn run_from(blocks: Seq<BlockView>, b: usize, st: State) -> Option<Outcome>
    decreases blocks.len() - b, 1int,
{
    if b >= blocks.len() {
        None
    } else {
        match eval_insts(blocks[b as int].insts, st) {
            Some(end) => leave_block(blocks, b, end),
            None => None,
        }
    }
}

/// Leaving block `b` by its terminator. Branches lead forward only.
pub open spec fn leave_block(blocks: Seq<BlockView>, b: usize, st: State) -> Option<Outcome>
    decreases blocks.len() - b, 0int,
{
    if b >= blocks.len() {
        None
    } else {
        match blocks[b as int].term {
            Terminator::Open => Some(Outcome::Open { block: b, state: st }),
            Terminator::Ret => Some(Outcome::Returned(st.cpu)),
            Terminator::Br { target } => if b < target < blocks.len() {
                run_from(blocks, target, State { pred: b, ..st })
            } else {
                None
            },
            Terminator::CondBr { cond, then_block, else_block } => match value_of(st.env, cond) {
                Some(Value::Bit(bit)) => {
                    let target = if bit {
                        then_block
                    } else {
                        else_block
                    };
                    if b < target < blocks.len() {
                        run_from(blocks, target, State { pred: b, ..st })
                    } else {
                        None
                    }
                },
                _ => None,
            },
        }
    }
}

/// The state in which a call of the function starts.
pub open spec fn entry_state(cpu: Cpu) -> State {
    State { env: Map::empty(), cpu, pred: 0 }
}

/// The registers after a call of the function on `cpu`, or `None` where the
/// call has no meaning or does not come to a return.
pub open spec fn run(blocks: Seq<BlockView>, cpu: Cpu) -> Option<Cpu> {
    match run_from(blocks, 0, entry_state(cpu)) {
        Some(Outcome::Returned(after)) => Some(after),
        _ => None,
    }
}

/// Whether the function is complete: it has a block, every block has a
/// terminator, and every branch leads forward to a block of the function.
pub open spec fn well_formed(blocks: Seq<BlockView>) -> bool {
    &&& blocks.len() > 0
    &&& forall|b: int| 0 <= b < blocks.len() ==> closed_block(blocks, b)
}

/// Whether block `b` has a terminator whose branches lead forward to blocks
/// of the function.
pub open spec fn closed_block(blocks: Seq<BlockView>, b: int) -> bool {
    match (#[trigger] blocks[b]).term {
        Terminator::Open => false,
        Terminator::Ret => true,
        Terminator::Br { target } => b < target < blocks.len(),
        Terminator::CondBr { cond, then_block, else_block } => b < then_block < blocks.len() && b
            < else_block < blocks.len(),
    }
}

/// The value with the given number in an evaluator's table.
fn lookup(env: &HashMap<usize, Value>, id: usize) -> (r: Option<Value>)
    ensures
        r == value_of(env@, id),
{
    match env.get(&id) {
        Some(value) => Some(*value),
        None => None,
    }
}

/// What an operand stands for in an evaluator's table.
fn operand(env: &HashMap<usize, Value>, source: Operand) -> (r: Option<Value>)
    ensures
        r == operand_value(env@, source),
{
    match source {
        Operand::Value(id) => lookup(env, id),
        Operand::Int(v) => Some(Value::Int(v)),
        Operand::Uint(v) => Some(Value::Uint(v)),
        Operand::Bit(v) => Some(Value::Bit(v)),
    }
}

/// Reads a field of the register record.
fn load_field(cpu: &Cpu, index: usize) -> (r: Option<Value>)
    ensures
        r == read_field(*cpu, index),
{
    if index == ACC_FIELD {
        Some(Value::Int(cpu.acc))
    } else if index == LC_FIELD {
        Some(Value::Int(cpu.lc))
    } else if index == PC_FIELD {
        Some(Value::Uint(cpu.pc))
    } else if index == HALT_FIELD {
        Some(Value::Bit(cpu.halt))
    } else {
        None
    }
}

/// Writes a field of the register record. Returns whether the field takes
/// such a value; where it does not, nothing is written.
fn store_field(cpu: &mut Cpu, index: usize, value: Value) -> (ok: bool)
    ensures
        match write_field(*old(cpu), index, value) {
            Some(after) => ok && *final(cpu) == after,
            None => !ok && *final(cpu) == *old(cpu),
        },
{
    match value {
        Value::Int(v) => {
            if index == ACC_FIELD {
                cpu.acc = v;
                true
            } else if index == LC_FIELD {
                cpu.lc = v;
                true
            } else {
                false
            }
        },
        Value::Uint(v) => {
            if index == PC_FIELD {
                cpu.pc = v;
                true
            } else {
                false
            }
        },
        Value::Bit(v) => {
            if index == HALT_FIELD {
                cpu.halt = v;
                true
            } else {
                false
            }
        },
        _ => false,
    }
}

/// The sum or difference of two words.
fn compute(subtract: bool, lhs: Option<Value>, rhs: Option<Value>) -> (r: Option<Value>)
    ensures
        r == arith(subtract, lhs, rhs),
{
    match (lhs, rhs) {
        (Some(Value::Int(a)), Some(Value::Int(b))) => {
            if subtract {
                Some(Value::Int(a.wrapping_sub(b)))
            } else {
                Some(Value::Int(a.wrapping_add(b)))
            }
        },
        (Some(Value::Uint(a)), Some(Value::Uint(b))) => {
            if subtract {
                Some(Value::Uint(a.wrapping_sub(b)))
            } else {
                Some(Value::Uint(a.wrapping_add(b)))
            }
        },
        _ => None,
    }
}

/// Whether one signed word is greater than another.
fn test_greater(lhs: Option<Value>, rhs: Option<Value>) -> (r: Option<Value>)
    ensures
        r == greater_than(lhs, rhs),
{
    match (lhs, rhs) {
        (Some(Value::Int(a)), Some(Value::Int(b))) => Some(Value::Bit(a > b)),
        _ => None,
    }
}

/// Enters the value `dst` in an evaluator's table. Returns whether there is
/// a value to enter.
fn bind(env: &mut HashMap<usize, Value>, dst: usize, value: Option<Value>) -> (ok: bool)
    ensures
        match value {
            Some(v) => ok && final(env)@ == old(env)@.insert(dst, v),
            None => !ok && final(env)@ == old(env)@,
        },
{
    match value {
        Some(v) => {
            env.insert(dst, v);
            true
        },
        None => false,
    }
}

/// Evaluates one instruction. Returns whether it has a meaning in the state
/// given; where it has none, the state is left as it was.
fn execute_inst(inst: Inst, env: &mut HashMap<usize, Value>, cpu: &mut Cpu, pred: usize) -> (ok:
    bool)
    ensures
        match eval_inst(inst, State { env: old(env)@, cpu: *old(cpu), pred }) {
            Some(after) => ok && final(env)@ == after.env && *final(cpu) == after.cpu && after.pred
                == pred,
            None => !ok && final(env)@ == old(env)@ && *final(cpu) == *old(cpu),
        },
{
    match inst {
        Inst::Param { dst } => bind(env, dst, Some(Value::CpuPtr)),
        Inst::FieldAddr { dst, base, index } => {
            match lookup(env, base) {
                Some(Value::CpuPtr) => {
                    if index < FIELD_COUNT {
                        bind(env, dst, Some(Value::FieldPtr(index)))
                    } else {
                        false
                    }
                },
                _ => false,
            }
        },
        Inst::Load { dst, ptr } => {
            match lookup(env, ptr) {
                Some(Value::FieldPtr(index)) => {
                    let value = load_field(cpu, index);
                    bind(env, dst, value)
                },
                _ => false,
            }
        },
        Inst::Store { ptr, value } => {
            match (lookup(env, ptr), operand(env, value)) {
                (Some(Value::FieldPtr(index)), Some(v)) => store_field(cpu, index, v),
                _ => false,
            }
        },
        Inst::Add { dst, lhs, rhs } => {
            let value = compute(false, operand(env, lhs), operand(env, rhs));
            bind(env, dst, value)
        },
        Inst::Sub { dst, lhs, rhs } => {
            let value = compute(true, operand(env, lhs), operand(env, rhs));
            bind(env, dst, value)
        },
        Inst::GreaterThan { dst, lhs, rhs } => {
            let value = test_greater(operand(env, lhs), operand(env, rhs));
            bind(env, dst, value)
        },
        Inst::Phi { dst, first_block, first, second_block, second } => {
            if pred == first_block {
                let value = operand(env, first);
                bind(env, dst, value)
            } else if pred == second_block {
                let value = operand(env, second);
                bind(env, dst, value)
            } else {
                false
            }
        },
    }
}

impl IrFunction {
    /// Calls the function on `cpu` and returns the registers that it leaves,
    /// or `None` where the call has no meaning.
    pub fn execute(&self, cpu: Cpu) -> (r: Option<Cpu>)
        ensures
            r == run(self@, cpu),
    {
        let mut env: HashMap<usize, Value> = HashMap::new();
        let mut cur = cpu;
        let mut b: usize = 0;
        let mut pred: usize = 0;
        loop
            invariant
                run_from(self@, b, State { env: env@, cpu: cur, pred }) == run_from(
                    self@,
                    0,
                    entry_state(cpu),
                ),
            decreases self.blocks@.len() - b,
        {
            if b >= self.blocks.len() {
                return None;
            }
            let block = &self.blocks[b];
            let ghost entered = State { env: env@, cpu: cur, pred };
            let mut i: usize = 0;
            proof {
                assert(block.insts@.skip(0) =~= block.insts@);
            }
            while i < block.insts.len()
                invariant
                    i <= block.insts@.len(),
                    b < self.blocks@.len(),
                    *block == self.blocks@[b as int],
                    run_from(self@, b, entered) == run_from(self@, 0, entry_state(cpu)),
                    eval_insts(block.insts@, entered) == eval_insts(
                        block.insts@.skip(i as int),
                        State { env: env@, cpu: cur, pred },
                    ),
                decreases block.insts@.len() - i,
            {
                proof {
                    assert(block.insts@.skip(i as int)[0] == block.insts@[i as int]);
                    assert(block.insts@.skip(i as int).drop_first() =~= block.insts@.skip(i + 1));
                }
                if !execute_inst(block.insts[i], &mut env, &mut cur, pred) {
                    return None;
                }
                i += 1;
            }
            proof {
                assert(block.insts@.skip(i as int).len() == 0);
            }
            match block.term {
                Terminator::Open => {
                    return None;
                },
                Terminator::Ret => {
                    return Some(cur);
                },
                Terminator::Br { target } => {
                    if b < target && target < self.blocks.len() {
                        pred = b;
                        b = target;
                    } else {
                        return None;
                    }
                },
                Terminator::CondBr { cond, then_block, else_block } => {
                    match lookup(&env, cond) {
                        Some(Value::Bit(bit)) => {
                            let target = if bit {
                                then_block
                            } else {
                                else_block
                            };
                            if b < target && target < self.blocks.len() {
                                pred = b;
                                b = target;
                            } else {
                                return None;
                            }
                        },
                        _ => {
                            return None;
                        },
                    }
                },
            }
        }
    }

    /// Whether the function is complete: every block has a terminator and
    /// every branch leads forward to a block of the function.
    pub fn verify(&self) -> (ok: bool)
        ensures
            ok == well_formed(self@),
    {
        if self.blocks.len() == 0 {
            return false;
        }
        let mut b: usize = 0;
        while b < self.blocks.len()
            invariant
                b <= self.blocks@.len(),
                forall|k: int| 0 <= k < b ==> closed_block(self@, k),
            decreases self.blocks@.len() - b,
        {
            let ok = match self.blocks[b].term {
                Terminator::Open => false,
                Terminator::Ret => true,
                Terminator::Br { target } => b < target && target < self.blocks.len(),
                Terminator::CondBr { cond, then_block, else_block } => b < then_block && then_block
                    < self.blocks.len() && b < else_block && else_block < self.blocks.len(),
            };
            if !ok {
                assert(!closed_block(self@, b as int));
                return false;
            }
            b += 1;
        }
        true
    }
}

/// The fields of the register record lie at the indices 0 to 3 in the order
/// accumulator, loop counter, program counter, halt flag; there is no field
/// at any other index.
pub proof fn field_layout(cpu: Cpu, index: usize)
    ensures
        read_field(cpu, 0) == Some(Value::Int(cpu.acc)),
        read_field(cpu, 1) == Some(Value::Int(cpu.lc)),
        read_field(cpu, 2) == Some(Value::Uint(cpu.pc)),
        read_field(cpu, 3) == Some(Value::Bit(cpu.halt)),
        index >= FIELD_COUNT ==> read_field(cpu, index) is None,
        forall|v: Value| index >= FIELD_COUNT ==> write_field(cpu, index, v) is None,
        forall|v: i32| write_field(cpu, 0, Value::Int(v)) == Some(Cpu { acc: v, ..cpu }),
        forall|v: i32| write_field(cpu, 1, Value::Int(v)) == Some(Cpu { lc: v, ..cpu }),
        forall|v: u32| write_field(cpu, 2, Value::Uint(v)) == Some(Cpu { pc: v, ..cpu }),
        forall|v: bool| write_field(cpu, 3, Value::Bit(v)) == Some(Cpu { halt: v, ..cpu }),
{
}

/// The index of the last block of a function that has one.
pub open spec fn last_block(blocks: Seq<BlockView>) -> usize {
    (blocks.len() - 1) as usize
}

/// Instructions run one after the other: running `a + b` is running `a`,
/// then `b`.
pub proof fn eval_insts_concat(a: Seq<Inst>, b: Seq<Inst>, st: State)
    ensures
        eval_insts(a + b, st) == match eval_insts(a, st) {
            Some(mid) => eval_insts(b, mid),
            None => None,
        },
    decreases a.len(),
{
    if a.len() == 0 {
        assert(a + b =~= b);
    } else {
        assert((a + b)[0] == a[0]);
        assert((a + b).drop_first() =~= a.drop_first() + b);
        match eval_inst(a[0], st) {
            Some(next) => {
                eval_insts_concat(a.drop_first(), b, next);
            },
            None => {},
        }
    }
}

/// Building on: let `g` be `f` with instructions `extra` added to its last
/// block, which was open, with any terminator for that block and any blocks
/// after it. Where an execution of `f` reached the end of that open block,
/// the same execution of `g` goes on from there with `extra` and the
/// terminator.
pub proof fn run_from_extended(
    f: Seq<BlockView>,
    g: Seq<BlockView>,
    extra: Seq<Inst>,
    b: usize,
    st: State,
    reached: State,
)
    requires
        0 < f.len() <= usize::MAX,
        f.len() <= g.len(),
        forall|i: int| 0 <= i < f.len() - 1 ==> g[i] == f[i],
        f.last().term == Terminator::Open,
        g[f.len() - 1].insts == f.last().insts + extra,
        run_from(f, b, st) == Some(Outcome::Open { block: last_block(f), state: reached }),
    ensures
        run_from(g, b, st) == match eval_insts(extra, reached) {
            Some(end) => leave_block(g, last_block(f), end),
            None => None,
        },
    decreases f.len() - b,
{
    let last = last_block(f);
    if b == last {
        eval_insts_concat(f.last().insts, extra, st);
    } else {
        assert(g[b as int] == f[b as int]);
        let end = eval_insts(f[b as int].insts, st)->Some_0;
        match f[b as int].term {
            Terminator::Br { target } => {
                run_from_extended(f, g, extra, target, State { pred: b, ..end }, reached);
            },
            Terminator::CondBr { cond, then_block, else_block } => {
                let bit = value_of(end.env, cond)->Some_0->Bit_0;
                let target = if bit {
                    then_block
                } else {
                    else_block
                };
                run_from_extended(f, g, extra, target, State { pred: b, ..end }, reached);
            },
            _ => {},
        }
    }
}

} // verus!
