//! Dynamic basic blocks: what a block is, what running one does to the
//! registers, and what running a program block by block does.

use vstd::prelude::*;
use crate::cpu::{Cpu, OpCode};
use crate::error::EmulationError;
use crate::memory::MEMORY_SIZE;

verus! {

/// The instruction at `pc`, or why there is none.
pub open spec fn fetch(mem: Seq<u8>, pc: u32) -> Result<OpCode, EmulationError> {
    if pc >= mem.len() || pc >= MEMORY_SIZE {
        Err(EmulationError::PcOutOfBounds { pc })
    } else {
        match OpCode::decode(mem[pc as int]) {
            Some(op) => Ok(op),
            None => Err(EmulationError::UnknownOpcode { pc, byte: mem[pc as int] }),
        }
    }
}

/// The instructions met from some address on, and the error that stopped
/// the walk if one did.
pub struct Scan {
    pub ops: Seq<OpCode>,
    pub fault: Option<EmulationError>,
}

/// The block that starts at `pc`: the instructions from `pc` up to and
/// including the first `HALT` or `BACK7`. Where a byte on the way encodes no
/// instruction, or the end of memory comes first, the walk stops there with
/// the instructions before it and the error.
pub open spec fn scan_block(mem: Seq<u8>, pc: u32) -> Scan
    decreases MEMORY_SIZE - pc,
{
    match fetch(mem, pc) {
        Err(e) => Scan { ops: Seq::empty(), fault: Some(e) },
        Ok(op) => if op.is_terminal() {
            Scan { ops: seq![op], fault: None }
        } else {
            let rest = scan_block(mem, (pc + 1) as u32);
            Scan { ops: seq![op] + rest.ops, fault: rest.fault }
        },
    }
}

/// The registers after executing `ops` in order, starting from `cpu`.
pub open spec fn apply_ops(ops: Seq<OpCode>, cpu: Cpu) -> Cpu
    decreases ops.len(),
{
    if ops.len() == 0 {
        cpu
    } else {
        ops.last().apply(apply_ops(ops.drop_last(), cpu))
    }
}

/// Whether `ops` has the shape of a dynamic basic block: it is not empty,
/// its last instruction is `HALT` or `BACK7`, and no earlier one is.
pub open spec fn is_dbb(ops: Seq<OpCode>) -> bool {
    &&& ops.len() > 0
    &&& ops.last().is_terminal()
    &&& forall|i: int| 0 <= i < ops.len() - 1 ==> !(#[trigger] ops[i]).is_terminal()
}

/// What interpreting one block does.
pub struct BlockRun {
    /// The instructions executed.
    pub ops: Seq<OpCode>,
    /// The registers afterwards.
    pub cpu: Cpu,
    /// The error that ended the block, if it did not end with `HALT` or
    /// `BACK7`.
    pub fault: Option<EmulationError>,
}

/// Interpreting the block at the program counter of `cpu`.
pub open spec fn interpret_block(mem: Seq<u8>, cpu: Cpu) -> BlockRun {
    let scan = scan_block(mem, cpu.pc);
    BlockRun { ops: scan.ops, cpu: apply_ops(scan.ops, cpu), fault: scan.fault }
}

/// Where a run of blocks stands.
pub struct Run {
    /// The registers reached.
    pub cpu: Cpu,
    /// The error that stopped the run, if one did.
    pub fault: Option<EmulationError>,
}

/// Interpreting block after block from `cpu`, until the machine halts, an
/// error stops it, or `fuel` blocks have run.
pub open spec fn run_blocks(mem: Seq<u8>, cpu: Cpu, fuel: nat) -> Run
    decreases fuel,
{
    if cpu.halt || fuel == 0 {
        Run { cpu, fault: None }
    } else {
        let block = interpret_block(mem, cpu);
        if block.fault is Some {
            Run { cpu: block.cpu, fault: block.fault }
        } else {
            run_blocks(mem, block.cpu, (fuel - 1) as nat)
        }
    }
}

/// Executing one more instruction after `ops`.
pub proof fn apply_ops_push(ops: Seq<OpCode>, op: OpCode, cpu: Cpu)
    ensures
        apply_ops(ops.push(op), cpu) == op.apply(apply_ops(ops, cpu)),
{
    assert(ops.push(op).drop_last() =~= ops);
}

/// A walk that ends without an error has found a dynamic basic block, and
/// one that ends with an error has found no instruction that ends a block.
pub proof fn scan_block_shape(mem: Seq<u8>, pc: u32)
    ensures
        scan_block(mem, pc).fault is None ==> is_dbb(scan_block(mem, pc).ops),
        scan_block(mem, pc).fault is Some ==> forall|i: int|
            0 <= i < scan_block(mem, pc).ops.len() ==> !(#[trigger] scan_block(
                mem,
                pc,
            ).ops[i]).is_terminal(),
        pc + scan_block(mem, pc).ops.len() <= MEMORY_SIZE || scan_block(mem, pc).ops.len() == 0,
    decreases MEMORY_SIZE - pc,
{
    match fetch(mem, pc) {
        Err(e) => {},
        Ok(op) => {
            if !op.is_terminal() {
                scan_block_shape(mem, (pc + 1) as u32);
                let rest = scan_block(mem, (pc + 1) as u32);
                let all = scan_block(mem, pc).ops;
                assert(all == seq![op] + rest.ops);
                assert forall|i: int| 0 <= i < all.len() - 1 implies !(#[trigger] all[i]).is_terminal() by {
                    if i > 0 {
                        assert(all[i] == rest.ops[i - 1]);
                    }
                }
                if rest.fault is Some {
                    assert forall|i: int| 0 <= i < all.len() implies !(#[trigger] all[i]).is_terminal() by {
                        if i > 0 {
                            assert(all[i] == rest.ops[i - 1]);
                        }
                    }
                } else {
                    assert(all.last() == rest.ops.last());
                }
            }
        },
    }
}

/// A run that has halted, or that an error has stopped, is not changed by
/// more fuel: where interpreting block after block comes to a halt, every
/// longer run ends in the same registers.
pub proof fn run_blocks_is_stable(mem: Seq<u8>, cpu: Cpu, fuel: nat, more: nat)
    requires
        run_blocks(mem, cpu, fuel).cpu.halt || run_blocks(mem, cpu, fuel).fault is Some,
        fuel <= more,
    ensures
        run_blocks(mem, cpu, more) == run_blocks(mem, cpu, fuel),
    decreases fuel,
{
    if cpu.halt {
    } else if fuel == 0 {
    } else {
        let block = interpret_block(mem, cpu);
        if block.fault is None {
            run_blocks_is_stable(mem, block.cpu, (fuel - 1) as nat, (more - 1) as nat);
        }
    }
}

} // verus!
