//! The register file of the emulated machine and its six-instruction set.

use vstd::prelude::*;
use vstd::std_specs::convert::TryFromSpecImpl;

verus! {

/// The four registers of the machine.
///
/// Translated code addresses the registers by position, so the order of the
/// fields is part of the machine's definition: accumulator, loop counter,
/// program counter, halt flag.
#[derive(Clone, Copy, Debug, PartialEq, Eq, Structural)]
pub struct Cpu {
    /// The accumulator register.
    pub acc: i32,
    /// The loop counter register.
    pub lc: i32,
    /// The program counter register.
    pub pc: u32,
    /// Set once the machine has executed `HALT`.
    pub halt: bool,
}

impl Cpu {
    pub fn new(acc: i32, lc: i32, pc: u32, halt: bool) -> (cpu: Self)
        ensures
            cpu == (Cpu { acc, lc, pc, halt }),
    {
        Self { acc, lc, pc, halt }
    }

    /// Executes one instruction on the registers.
    pub fn execute(&mut self, op: OpCode)
        ensures
            *final(self) == op.apply(*old(self)),
    {
        match op {
            OpCode::HALT => {
                self.halt = true;
                self.pc = self.pc.wrapping_add(1);
            },
            OpCode::CLRA => {
                self.acc = 0;
                self.pc = self.pc.wrapping_add(1);
            },
            OpCode::INC3A => {
                self.acc = self.acc.wrapping_add(3);
                self.pc = self.pc.wrapping_add(1);
            },
            OpCode::DECA => {
                self.acc = self.acc.wrapping_sub(1);
                self.pc = self.pc.wrapping_add(1);
            },
            OpCode::SETL => {
                self.lc = self.acc;
                self.pc = self.pc.wrapping_add(1);
            },
            OpCode::BACK7 => {
                self.lc = self.lc.wrapping_sub(1);
                if self.lc > 0 {
                    self.pc = self.pc.wrapping_sub(6);
                } else {
                    self.pc = self.pc.wrapping_add(1);
                }
            },
        }
    }
}

impl Default for Cpu {
    fn default() -> (cpu: Self)
        ensures
            cpu == (Cpu { acc: 0, lc: 0, pc: 0, halt: false }),
    {
        Self { acc: 0, lc: 0, pc: 0, halt: false }
    }
}

/// The instruction set. The variants are declared in the order of their
/// byte encodings, `HALT` being byte 0 and `BACK7` byte 5.
#[derive(Clone, Copy, Debug, PartialEq, Eq, Structural)]
pub enum OpCode {
    /// Stop the machine.
    HALT,
    /// Clear the accumulator.
    CLRA,
    /// Add three to the accumulator.
    INC3A,
    /// Subtract one from the accumulator.
    DECA,
    /// Copy the accumulator into the loop counter.
    SETL,
    /// Decrement the loop counter and, while it stays positive, jump back
    /// over the six preceding instructions.
    BACK7,
}

impl OpCode {
    /// The byte that encodes this instruction.
    pub open spec fn code(self) -> u8 {
        match self {
            OpCode::HALT => 0,
            OpCode::CLRA => 1,
            OpCode::INC3A => 2,
            OpCode::DECA => 3,
            OpCode::SETL => 4,
            OpCode::BACK7 => 5,
        }
    }

    /// The instruction that a byte encodes, if any.
    pub open spec fn decode(byte: u8) -> Option<OpCode> {
        if byte == 0 {
            Some(OpCode::HALT)
        } else if byte == 1 {
            Some(OpCode::CLRA)
        } else if byte == 2 {
            Some(OpCode::INC3A)
        } else if byte == 3 {
            Some(OpCode::DECA)
        } else if byte == 4 {
            Some(OpCode::SETL)
        } else if byte == 5 {
            Some(OpCode::BACK7)
        } else {
            None
        }
    }

    /// Whether this instruction ends a basic block.
    pub open spec fn is_terminal(self) -> bool {
        self == OpCode::HALT || self == OpCode::BACK7
    }

    /// The registers after executing this instruction on `cpu`.
    ///
    /// Accumulator and loop counter wrap as signed 32-bit values, the
    /// program counter wraps as an unsigned 32-bit value.
    pub open spec fn apply(self, cpu: Cpu) -> Cpu {
        match self {
            OpCode::HALT => Cpu { halt: true, pc: cpu.pc.wrapping_add(1), ..cpu },
            OpCode::CLRA => Cpu { acc: 0, pc: cpu.pc.wrapping_add(1), ..cpu },
            OpCode::INC3A => Cpu {
                acc: cpu.acc.wrapping_add(3),
                pc: cpu.pc.wrapping_add(1),
                ..cpu
            },
            OpCode::DECA => Cpu {
                acc: cpu.acc.wrapping_sub(1),
                pc: cpu.pc.wrapping_add(1),
                ..cpu
            },
            OpCode::SETL => Cpu { lc: cpu.acc, pc: cpu.pc.wrapping_add(1), ..cpu },
            OpCode::BACK7 => {
                let lc = cpu.lc.wrapping_sub(1);
                Cpu {
                    lc,
                    pc: if lc > 0 {
                        cpu.pc.wrapping_sub(6)
                    } else {
                        cpu.pc.wrapping_add(1)
                    },
                    ..cpu
                }
            },
        }
    }

    /// The byte encoding of this instruction.
    pub fn to_byte(self) -> (byte: u8)
        ensures
            byte == self.code(),
    {
        match self {
            OpCode::HALT => 0,
            OpCode::CLRA => 1,
            OpCode::INC3A => 2,
            OpCode::DECA => 3,
            OpCode::SETL => 4,
            OpCode::BACK7 => 5,
        }
    }
}

impl TryFrom<u8> for OpCode {
    type Error = ();

    fn try_from(v: u8) -> (r: Result<Self, Self::Error>) {
        if v == 0 {
            Ok(OpCode::HALT)
        } else if v == 1 {
            Ok(OpCode::CLRA)
        } else if v == 2 {
            Ok(OpCode::INC3A)
        } else if v == 3 {
            Ok(OpCode::DECA)
        } else if v == 4 {
            Ok(OpCode::SETL)
        } else if v == 5 {
            Ok(OpCode::BACK7)
        } else {
            Err(())
        }
    }
}

impl TryFromSpecImpl<u8> for OpCode {
    open spec fn obeys_try_from_spec() -> bool {
        true
    }

    open spec fn try_from_spec(v: u8) -> Result<Self, ()> {
        match OpCode::decode(v) {
            Some(op) => Ok(op),
            None => Err(()),
        }
    }
}

/// Decoding inverts encoding, and only the six encodings decode.
pub proof fn decode_inverts_code(op: OpCode, byte: u8)
    ensures
        OpCode::decode(op.code()) == Some(op),
        OpCode::decode(byte) == Some(op) <==> byte == op.code(),
        OpCode::decode(byte) is None <==> byte > 5,
{
}

/// Every instruction either advances the program counter by one or, for a
/// `BACK7` that leaves the loop counter positive, moves it back by six; and
/// only `HALT` sets the halt flag.
pub proof fn step_moves_pc(op: OpCode, cpu: Cpu)
    ensures
        ({
            let next = op.apply(cpu);
            ||| next.pc == cpu.pc.wrapping_add(1)
            ||| (op == OpCode::BACK7 && next.lc == cpu.lc.wrapping_sub(1) && next.lc > 0 && next.pc
                == cpu.pc.wrapping_sub(6))
        }),
        op.apply(cpu).halt <==> (cpu.halt || op == OpCode::HALT),
        op == OpCode::BACK7 && cpu.lc.wrapping_sub(1) <= 0 ==> op.apply(cpu).pc
            == cpu.pc.wrapping_add(1),
{
}

} // verus!
