//! A program image with the initial values of its registers.

use vstd::prelude::*;

verus! {

/// The bytes of a program and the values that the accumulator and the loop
/// counter hold when it starts.
pub struct Program {
    pub data: Vec<u8>,
    pub initial_acc: i32,
    pub initial_lc: i32,
}

impl Program {
    pub fn new(data: Vec<u8>, initial_acc: i32, initial_lc: i32) -> (program: Self)
        ensures
            program.data@ == data@,
            program.initial_acc == initial_acc,
            program.initial_lc == initial_lc,
    {
        Self { data, initial_acc, initial_lc }
    }
}

} // verus!
