//! Storage kept in memory.
//!
//! It serves as a stand-in for a flash device and shows that the contract
//! of [`Flasher`] can be met: the implementation below is verified against
//! it.

use vstd::prelude::*;
use crate::{Flasher, ReadError, WriteError, region, stored};

verus! {

/// Byte-addressed storage in memory. Address 0 is the first byte.
///
/// Writes and reads succeed exactly when they stay inside the storage;
/// an empty write is refused with `NoData`.
pub struct RamFlasher {
    cells: Vec<u8>,
    dirty: bool,
}

impl RamFlasher {
    /// Storage of `size` bytes, all zero.
    pub fn new(size: usize) -> (ram: Self)
        ensures
            ram.contents() == Seq::new(size as nat, |i: int| 0u8),
            ram.committed(),
    {
        let cells: Vec<u8> = vec![0u8; size];
        RamFlasher { cells, dirty: false }
    }

    /// Storage that holds `cells`.
    pub fn with_contents(cells: Vec<u8>) -> (ram: Self)
        ensures
            ram.contents() == cells@,
            ram.committed(),
    {
        RamFlasher { cells, dirty: false }
    }

    /// The number of bytes of storage.
    pub fn size(&self) -> (size: usize)
        ensures
            size == self.contents().len(),
    {
        self.cells.len()
    }

    /// The bytes held.
    pub fn bytes(&self) -> (bytes: &[u8])
        ensures
            bytes@ == self.contents(),
    {
        self.cells.as_slice()
    }

    /// Whether a write has been accepted since the last flush.
    pub fn has_uncommitted_writes(&self) -> (dirty: bool)
        ensures
            dirty == !self.committed(),
    {
        self.dirty
    }
}

impl Flasher for RamFlasher {
    closed spec fn contents(&self) -> Seq<u8> {
        self.cells@
    }

    closed spec fn committed(&self) -> bool {
        !self.dirty
    }

    open spec fn delivers(&self) -> bool {
        true
    }

    fn write(&mut self, destination: usize, data: &[u8]) -> (result: Result<(), WriteError>)
        ensures
            result is Ok <==> destination + data@.len() <= old(self).contents().len(),
            result is Err ==> final(self).contents() == old(self).contents(),
            result is Err ==> final(self).committed() == old(self).committed(),
    {
        if data.len() == 0 {
            return Err(WriteError::NoData);
        }
        if destination > self.cells.len() || data.len() > self.cells.len() - destination {
            return Err(WriteError::AddressOutOfRange);
        }
        let ghost before = self.cells@;
        let mut i: usize = 0;
        while i < data.len()
            invariant
                i <= data@.len(),
                destination + data@.len() <= before.len() <= usize::MAX,
                self.cells@ == stored(before, destination as int, data@.take(i as int)),
            decreases data@.len() - i,
        {
            self.cells[destination + i] = data[i];
            i = i + 1;
        }
        self.dirty = true;
        Ok(())
    }

    fn read(&self, source_address: usize, destination: &mut [u8]) -> (result: Result<
        usize,
        ReadError,
    >)
        ensures
            result is Ok <==> source_address + old(destination)@.len() <= self.contents().len(),
            result matches Ok(count) ==> count == old(destination)@.len(),
            result matches Err(error) ==> (error is AddressOutOfRange <==> source_address
                > self.contents().len()),
    {
        if source_address > self.cells.len() {
            return Err(ReadError::AddressOutOfRange);
        }
        if destination.len() > self.cells.len() - source_address {
            return Err(ReadError::EndAddressOutOfRange);
        }
        let count: usize = destination.len();
        let mut i: usize = 0;
        while i < count
            invariant
                i <= count,
                count == destination@.len(),
                source_address + count <= self.cells@.len() <= usize::MAX,
                destination@.take(i as int) == region(
                    self.cells@,
                    source_address as int,
                    i as int,
                ),
            decreases count - i,
        {
            let ghost filled = destination@.take(i as int);
            destination[i] = self.cells[source_address + i];
            assert(destination@.take(i + 1) == filled.push(self.cells@[source_address + i]));
            i = i + 1;
        }
        Ok(count)
    }

    fn flush(&mut self) {
        self.dirty = false;
    }
}

} // verus!
