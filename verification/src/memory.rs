//! The machine's byte memory.

use vstd::prelude::*;

verus! {

/// The number of bytes of memory: 64 KiB.
pub const MEMORY_SIZE: usize = 65536;

/// A store of cells that is read and written by address.
pub trait Addressable<T> {
    /// The cells, in address order.
    spec fn cells(&self) -> Seq<T>;

    /// The cell at `address`.
    fn read(&self, address: usize) -> (value: T)
        requires
            address < self.cells().len(),
        ensures
            value == self.cells()[address as int],
    ;

    /// Replaces the cell at `address`.
    fn write(&mut self, address: usize, value: T)
        requires
            address < old(self).cells().len(),
        ensures
            final(self).cells() == old(self).cells().update(address as int, value),
    ;

    /// Copies `chunk` to the cells from address 0 on and leaves the cells
    /// behind it as they were. A chunk longer than the store is refused and
    /// changes nothing.
    fn write_chunk(&mut self, chunk: Vec<T>) -> (r: Result<(), String>)
        ensures
            r is Ok <==> chunk@.len() <= old(self).cells().len(),
            r is Ok ==> final(self).cells() == chunk@ + old(self).cells().subrange(
                chunk@.len() as int,
                old(self).cells().len() as int,
            ),
            r is Err ==> final(self).cells() == old(self).cells(),
    ;
}

/// 64 KiB of bytes, all zero when made.
pub struct Memory {
    data: Vec<u8>,
}

impl Memory {
    /// The bytes of the memory, in address order.
    pub closed spec fn view(&self) -> Seq<u8> {
        self.data@
    }

    /// Whether the memory has the size that it is made with. Reading and
    /// writing keep it.
    pub open spec fn wf(&self) -> bool {
        self@.len() == MEMORY_SIZE
    }

    /// A zeroed memory.
    pub fn new() -> (memory: Self)
        ensures
            memory.wf(),
            memory@ == Seq::new(MEMORY_SIZE as nat, |i: int| 0u8),
    {
        let data = vec![0u8; MEMORY_SIZE];
        assert(data@ =~= Seq::new(MEMORY_SIZE as nat, |i: int| 0u8));
        Memory { data }
    }

    /// The text of the error for a chunk that does not fit.
    pub open spec fn chunk_too_large() -> Seq<char> {
        "Chunk size is larger than maximum memory (65536 bytes)"@
    }
}

impl Default for Memory {
    fn default() -> (memory: Self)
        ensures
            memory.wf(),
            memory@ == Seq::new(MEMORY_SIZE as nat, |i: int| 0u8),
    {
        Memory::new()
    }
}

impl Addressable<u8> for Memory {
    open spec fn cells(&self) -> Seq<u8> {
        self@
    }

    fn read(&self, address: usize) -> (value: u8) {
        self.data[address]
    }

    fn write(&mut self, address: usize, value: u8) {
        self.data.set(address, value);
    }

    fn write_chunk(&mut self, chunk: Vec<u8>) -> (r: Result<(), String>)
        ensures
            r is Err ==> r->Err_0@ == Memory::chunk_too_large(),
    {
        if chunk.len() > self.data.len() {
            return Err("Chunk size is larger than maximum memory (65536 bytes)".to_string());
        }
        let ghost before = self.data@;
        let mut index: usize = 0;
        while index < chunk.len()
            invariant
                index <= chunk@.len() <= before.len(),
                self.data@.len() == before.len(),
                forall|i: int| 0 <= i < index ==> self.data@[i] == chunk@[i],
                forall|i: int| index <= i < before.len() ==> self.data@[i] == before[i],
            decreases chunk@.len() - index,
        {
            self.data.set(index, chunk[index]);
            index += 1;
        }
        assert(self.data@ =~= chunk@ + before.subrange(chunk@.len() as int, before.len() as int));
        Ok(())
    }
}

} // verus!
