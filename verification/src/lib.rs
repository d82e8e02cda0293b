//! An emulator for a small register machine that translates the blocks it
//! runs often.

pub mod block;
pub mod code_cache;
pub mod cpu;
pub mod error;
pub mod ir;
pub mod lowering;
pub mod memory;
pub mod program;
pub mod translation;

use vstd::prelude::*;
use crate::block::{
    apply_ops, apply_ops_push, fetch, interpret_block, run_blocks, scan_block, scan_block_shape,
};
use crate::code_cache::{
    cache_entries, cache_get_mut, cache_new, cache_put, cache_remove, no_entries, CodeCache,
};
use crate::translation::TranslationContext;
use crate::cpu::{Cpu, OpCode};
use crate::error::EmulationError;
use crate::memory::{Addressable, Memory, MEMORY_SIZE};
use crate::program::Program;

verus! {

/// The number of blocks that the code cache of `main_loop` holds.
pub const CACHE_SIZE: usize = 32;

/// The number of times that `main_loop` has to find a block in the code
/// cache before it translates the block.
pub const MAX_EXECUTIONS: u64 = 1;

/// Whether every record of the cache is sound and holds the block that
/// starts at its address in `mem`.
pub open spec fn cache_matches(cache: CodeCache, mem: Seq<u8>) -> bool {
    forall|pc: u32| #[trigger]
        cache_entries(cache).contains_key(pc) ==> {
            &&& cache_entries(cache)[pc].wf()
            &&& scan_block(mem, pc).fault is None
            &&& cache_entries(cache)[pc].dbb@ == scan_block(mem, pc).ops
        }
}

/// How a step of the driver ran its block.
#[derive(Clone, Copy, Debug, PartialEq, Eq, Structural)]
pub enum Dispatch {
    /// The block was not in the cache: it was interpreted and entered.
    Installed,
    /// The block was in the cache without a translation and not yet due for
    /// one: it was interpreted.
    Interpreted,
    /// The block was in the cache and was run in its translation.
    Translated,
}

/// How a step runs the block at `pc`, given what the cache holds.
pub open spec fn dispatch_of(
    entries: Map<u32, TranslationContext>,
    pc: u32,
    max_executions: u64,
) -> Dispatch {
    if !entries.contains_key(pc) {
        Dispatch::Installed
    } else if entries[pc].compiled() || entries[pc].executions + 1 >= max_executions {
        Dispatch::Translated
    } else {
        Dispatch::Interpreted
    }
}

/// What the record of the block at `pc` holds after a step that ran the
/// block as `dispatch` says: a block that was entered has the count 0 and no
/// translation; a block that was found has its count raised by one, up to
/// the largest count there is, and has a translation exactly if it was run
/// in one.
pub open spec fn record_after(
    entries: Map<u32, TranslationContext>,
    pc: u32,
    dispatch: Dispatch,
    record: TranslationContext,
) -> bool {
    if dispatch == Dispatch::Installed {
        record.executions == 0 && !record.compiled()
    } else {
        &&& record.dbb == entries[pc].dbb
        &&& record.executions == if entries[pc].executions < u64::MAX {
            (entries[pc].executions + 1) as u64
        } else {
            u64::MAX
        }
        &&& record.compiled() == (dispatch == Dispatch::Translated)
    }
}

/// An empty code cache for up to `size` blocks. There is no cache of size 0.
///
/// There are no more blocks than addresses, so a cache never needs more
/// room than `MEMORY_SIZE` entries: a larger `size` gives a cache of that
/// size.
pub fn new_code_cache(size: usize) -> (r: Result<CodeCache, EmulationError>)
    ensures
        size == 0 <==> r == Err::<CodeCache, _>(EmulationError::InvalidCacheSize),
        size > 0 <==> r is Ok,
        r matches Ok(cache) ==> cache_entries(cache) == no_entries() && forall|mem: Seq<u8>|
            cache_matches(cache, mem),
{
    let room = if size > MEMORY_SIZE {
        MEMORY_SIZE
    } else {
        size
    };
    match cache_new(room) {
        Ok(cache) => Ok(cache),
        Err(_) => Err(EmulationError::InvalidCacheSize),
    }
}

/// The machine: its registers and its memory.
pub struct EmulationEngine {
    pub cpu: Cpu,
    pub memory: Memory,
}

impl EmulationEngine {
    /// The bytes of the machine's memory.
    pub open spec fn memory(&self) -> Seq<u8> {
        self.memory@
    }

    /// Whether the machine's memory has its full size. Every operation of
    /// the machine keeps it.
    pub open spec fn wf(&self) -> bool {
        self.memory().len() == MEMORY_SIZE
    }

    /// A machine with zeroed registers and zeroed memory.
    pub fn new() -> (engine: Self)
        ensures
            engine.wf(),
            engine.cpu == (Cpu { acc: 0, lc: 0, pc: 0, halt: false }),
            engine.memory() == Seq::new(MEMORY_SIZE as nat, |i: int| 0u8),
    {
        Self { cpu: Cpu::default(), memory: Memory::default() }
    }

    /// Loads a program: its image goes to memory from address 0 on, the
    /// accumulator and the loop counter take their initial values, and the
    /// machine is ready to run from address 0.
    ///
    /// An image larger than memory is refused, and the machine stays as it
    /// was.
    pub fn load_program(&mut self, program: Program) -> (r: Result<(), EmulationError>)
        requires
            old(self).wf(),
        ensures
            final(self).wf(),
            program.data@.len() <= MEMORY_SIZE ==> r is Ok,
            r is Ok ==> {
                &&& final(self).cpu == (Cpu {
                    acc: program.initial_acc,
                    lc: program.initial_lc,
                    pc: 0,
                    halt: false,
                })
                &&& final(self).memory() == program.data@ + old(self).memory().subrange(
                    program.data@.len() as int,
                    MEMORY_SIZE as int,
                )
            },
            program.data@.len() > MEMORY_SIZE ==> r == Err::<(), _>(EmulationError::LoadTooLarge),
            r is Err ==> final(self).cpu == old(self).cpu && final(self).memory() == old(
                self,
            ).memory(),
    {
        match self.memory.write_chunk(program.data) {
            Ok(()) => {
                self.cpu.acc = program.initial_acc;
                self.cpu.lc = program.initial_lc;
                self.cpu.pc = 0;
                self.cpu.halt = false;
                Ok(())
            },
            Err(_) => Err(EmulationError::LoadTooLarge),
        }
    }

    /// The bytes that a trace of the machine shows: the eight from the
    /// program counter on, or as many of them as lie in memory.
    pub fn debug_state(&self) -> (window: Vec<u8>)
        requires
            self.wf(),
        ensures
            self.cpu.pc <= MEMORY_SIZE ==> window@ == self.memory().subrange(
                self.cpu.pc as int,
                if self.cpu.pc + 8 <= MEMORY_SIZE {
                    self.cpu.pc + 8
                } else {
                    MEMORY_SIZE as int
                },
            ),
            self.cpu.pc > MEMORY_SIZE ==> window@.len() == 0,
    {
        let mut window: Vec<u8> = Vec::new();
        let start: usize = self.cpu.pc as usize;
        let mut offset: usize = 0;
        while offset < 8 && start < MEMORY_SIZE && start + offset < MEMORY_SIZE
            invariant
                self.wf(),
                start == self.cpu.pc,
                offset <= 8,
                start <= MEMORY_SIZE ==> start + offset <= MEMORY_SIZE,
                start > MEMORY_SIZE ==> offset == 0,
                window@.len() == offset,
                forall|i: int| 0 <= i < offset ==> window@[i] == self.memory()[start + i],
            decreases 8 - offset,
        {
            window.push(self.memory.read(start + offset));
            offset += 1;
        }
        proof {
            if start <= MEMORY_SIZE {
                assert(window@ =~= self.memory().subrange(start as int, start + offset));
            }
        }
        window
    }

    /// Interprets the block at the program counter: executes instruction
    /// after instruction up to and including the first `HALT` or `BACK7`,
    /// and returns the instructions executed.
    ///
    /// A byte that encodes no instruction, or a program counter outside
    /// memory, ends the run with an error; the registers then show the
    /// instructions executed before it.
    pub fn interpret(&mut self) -> (r: Result<Vec<OpCode>, EmulationError>)
        requires
            old(self).wf(),
            !old(self).cpu.halt,
        ensures
            final(self).wf(),
            final(self).memory() == old(self).memory(),
            ({
                let run = interpret_block(old(self).memory(), old(self).cpu);
                &&& final(self).cpu == run.cpu
                &&& match r {
                    Ok(dbb) => run.fault is None && dbb@ == run.ops,
                    Err(e) => run.fault == Some(e),
                }
            }),
    {
        let mut dynamic_block: Vec<OpCode> = Vec::new();
        let ghost mem = self.memory();
        let ghost start = self.cpu;
        loop
            invariant
                self.wf(),
                mem == old(self).memory(),
                start == old(self).cpu,
                self.memory() == mem,
                self.cpu == apply_ops(dynamic_block@, start),
                scan_block(mem, start.pc).ops == dynamic_block@ + scan_block(mem, self.cpu.pc).ops,
                scan_block(mem, start.pc).fault == scan_block(mem, self.cpu.pc).fault,
            decreases MEMORY_SIZE - self.cpu.pc,
        {
            let pc = self.cpu.pc;
            if pc as usize >= MEMORY_SIZE {
                proof {
                    assert(dynamic_block@ + Seq::<OpCode>::empty() =~= dynamic_block@);
                }
                return Err(EmulationError::PcOutOfBounds { pc });
            }
            let byte = self.memory.read(pc as usize);
            let instr = match OpCode::try_from(byte) {
                Ok(instr) => instr,
                Err(_) => {
                    proof {
                        assert(dynamic_block@ + Seq::<OpCode>::empty() =~= dynamic_block@);
                    }
                    return Err(EmulationError::UnknownOpcode { pc, byte });
                },
            };
            proof {
                assert(fetch(mem, pc) == Ok::<_, EmulationError>(instr));
                apply_ops_push(dynamic_block@, instr, start);
                if instr.is_terminal() {
                    assert(dynamic_block@ + seq![instr] =~= dynamic_block@.push(instr));
                } else {
                    let rest = scan_block(mem, (pc + 1) as u32);
                    assert(dynamic_block@ + (seq![instr] + rest.ops) =~= dynamic_block@.push(instr)
                        + rest.ops);
                }
            }
            dynamic_block.push(instr);
            self.cpu.execute(instr);
            match instr {
                OpCode::HALT => {
                    return Ok(dynamic_block);
                },
                OpCode::BACK7 => {
                    return Ok(dynamic_block);
                },
                _ => {},
            }
        }
    }

    /// Runs the machine until it halts, an error stops it, or `fuel` blocks
    /// have run, with a code cache of `CACHE_SIZE` entries that translates a
    /// block when it is found in the cache for the `MAX_EXECUTIONS`-th time.
    /// Returns whether the machine has halted.
    ///
    /// The registers end as if every block had been interpreted.
    pub fn main_loop(&mut self, fuel: u64) -> (r: Result<bool, EmulationError>)
        requires
            old(self).wf(),
        ensures
            final(self).wf(),
            final(self).memory() == old(self).memory(),
            final(self).cpu == run_blocks(old(self).memory(), old(self).cpu, fuel as nat).cpu,
            r == match run_blocks(old(self).memory(), old(self).cpu, fuel as nat).fault {
                Some(e) => Err::<bool, _>(e),
                None => Ok(final(self).cpu.halt),
            },
    {
        self.main_loop_with(CACHE_SIZE, MAX_EXECUTIONS, fuel)
    }

    /// Runs the machine as `main_loop` does, with a code cache of
    /// `cache_size` entries that translates a block when it is found in the
    /// cache for the `max_executions`-th time.
    ///
    /// Neither the size of the cache, nor what the cache evicts, nor the
    /// number of executions before translation changes the registers that
    /// the run ends with. A cache of size 0 cannot be made: the run is
    /// refused and the machine stays as it was.
    pub fn main_loop_with(&mut self, cache_size: usize, max_executions: u64, fuel: u64) -> (r:
        Result<bool, EmulationError>)
        requires
            old(self).wf(),
        ensures
            final(self).wf(),
            final(self).memory() == old(self).memory(),
            cache_size == 0 ==> r == Err::<bool, _>(EmulationError::InvalidCacheSize)
                && final(self).cpu == old(self).cpu,
            cache_size > 0 ==> final(self).cpu == run_blocks(
                old(self).memory(),
                old(self).cpu,
                fuel as nat,
            ).cpu,
            cache_size > 0 ==> r == match run_blocks(
                old(self).memory(),
                old(self).cpu,
                fuel as nat,
            ).fault {
                Some(e) => Err::<bool, _>(e),
                None => Ok(final(self).cpu.halt),
            },
    {
        let mut code_cache = match new_code_cache(cache_size) {
            Ok(cache) => cache,
            Err(e) => {
                return Err(e);
            },
        };
        let ghost mem = self.memory();
        let ghost goal = run_blocks(mem, self.cpu, fuel as nat);
        let mut remaining = fuel;
        while !self.cpu.halt && remaining > 0
            invariant
                self.wf(),
                self.memory() == mem,
                mem == old(self).memory(),
                goal == run_blocks(mem, old(self).cpu, fuel as nat),
                cache_size > 0,
                cache_matches(code_cache, mem),
                run_blocks(mem, self.cpu, remaining as nat) == goal,
            decreases remaining,
        {
            match self.step(&mut code_cache, max_executions) {
                Ok(_) => {},
                Err(e) => {
                    return Err(e);
                },
            }
            remaining = remaining - 1;
        }
        Ok(self.cpu.halt)
    }

    /// Runs the block at the program counter, by way of the code cache.
    ///
    /// A block that the cache does not hold is interpreted and entered with
    /// a count of 0. A block that it holds is counted; it is translated if
    /// it is now due, that is, if it has been counted `max_executions` times
    /// or more and has no translation; then it is run in its translation if
    /// it has one and interpreted if it has none. The result says which of
    /// these happened.
    ///
    /// Whichever happened, the registers end as if the block had been
    /// interpreted. An error of the interpreter ends the step and leaves the
    /// cache without a new entry.
    pub fn step(&mut self, code_cache: &mut CodeCache, max_executions: u64) -> (r: Result<
        Dispatch,
        EmulationError,
    >)
        requires
            old(self).wf(),
            !old(self).cpu.halt,
            cache_matches(*old(code_cache), old(self).memory()),
        ensures
            final(self).wf(),
            final(self).memory() == old(self).memory(),
            cache_matches(*final(code_cache), old(self).memory()),
            final(self).cpu == interpret_block(old(self).memory(), old(self).cpu).cpu,
            match r {
                Ok(dispatch) => {
                    &&& interpret_block(old(self).memory(), old(self).cpu).fault is None
                    &&& dispatch == dispatch_of(
                        cache_entries(*old(code_cache)),
                        old(self).cpu.pc,
                        max_executions,
                    )
                    &&& cache_entries(*final(code_cache)).contains_key(old(self).cpu.pc)
                    &&& record_after(
                        cache_entries(*old(code_cache)),
                        old(self).cpu.pc,
                        dispatch,
                        cache_entries(*final(code_cache))[old(self).cpu.pc],
                    )
                },
                Err(e) => {
                    &&& interpret_block(old(self).memory(), old(self).cpu).fault == Some(e)
                    &&& cache_entries(*final(code_cache)) == cache_entries(*old(code_cache))
                },
            },
            forall|k: u32|
                k != old(self).cpu.pc && #[trigger] cache_entries(*final(code_cache)).contains_key(
                    k,
                ) ==> cache_entries(*old(code_cache)).contains_key(k) && cache_entries(
                    *final(code_cache),
                )[k] == cache_entries(*old(code_cache))[k],
    {
        let pc = self.cpu.pc;
        proof {
            scan_block_shape(self.memory(), pc);
        }
        match cache_get_mut(code_cache, &pc) {
            Some(tbb) => {
                if tbb.record_hit(max_executions) {
                    match tbb.compile_dynamic_basic_block() {
                        Ok(_) => {},
                        Err(_) => {},
                    }
                }
                if tbb.has_compiled() {
                    tbb.execute(&mut self.cpu);
                    Ok(Dispatch::Translated)
                } else {
                    match self.interpret() {
                        Ok(_) => Ok(Dispatch::Interpreted),
                        Err(e) => Err(e),
                    }
                }
            },
            None => {
                let dbb = match self.interpret() {
                    Ok(dbb) => dbb,
                    Err(e) => {
                        return Err(e);
                    },
                };
                let tbb = TranslationContext::new(dbb);
                // The cache may remember the address from an eviction; it
                // has to forget it before the address can be entered anew.
                cache_remove(code_cache, &pc);
                cache_put(code_cache, pc, tbb);
                Ok(Dispatch::Installed)
            },
        }
    }
}

impl Default for EmulationEngine {
    fn default() -> (engine: Self)
        ensures
            engine.wf(),
            engine.cpu == (Cpu { acc: 0, lc: 0, pc: 0, halt: false }),
            engine.memory() == Seq::new(MEMORY_SIZE as nat, |i: int| 0u8),
    {
        EmulationEngine::new()
    }
}

} // verus!
