//! Core of a firmware bootloader for flash-based targets.
//!
//! On every boot the core decides whether to install a pending update,
//! launch the installed application, or receive a new image over a serial
//! link. Storage is reached only through the [`Flasher`] trait; the serial
//! link is reduced to the bytes that arrive and the bytes to send back.

use vstd::prelude::*;

pub mod boot;
pub mod crc;
pub mod descriptor;
pub mod image_installer;
pub mod image_launcher;
pub mod image_receiver;
pub mod ram;
pub mod session;

pub use crate::boot::{muload_main, BootAction};
pub use crate::descriptor::{bin_info, update_info, UpdateEncoding};

verus! {

/// Reasons storage can refuse a write.
#[derive(Debug, PartialEq, Eq, Clone, Copy)]
pub enum WriteError {
    NoData,
    AddressOutOfRange,
}

/// Reasons storage can fail a read.
#[derive(Debug, PartialEq, Eq, Clone, Copy)]
pub enum ReadError {
    AddressOutOfRange,
    EndAddressOutOfRange,
    ReadFailed,
}

/// The `len` bytes of `mem` that start at address `start`.
pub open spec fn region(mem: Seq<u8>, start: int, len: int) -> Seq<u8> {
    Seq::new(len as nat, |i: int| mem[start + i])
}

/// Whether the range `[start, start + len)` lies inside `mem`. The empty
/// range lies inside every memory.
pub open spec fn in_range(mem: Seq<u8>, start: int, len: int) -> bool {
    len == 0 || (0 <= start && 0 < len && start + len <= mem.len())
}

/// `mem` after `data` has been stored at address `at`.
pub open spec fn stored(mem: Seq<u8>, at: int, data: Seq<u8>) -> Seq<u8> {
    Seq::new(
        mem.len(),
        |i: int|
            if at <= i < at + data.len() {
                data[i - at]
            } else {
                mem[i]
            },
    )
}

/// Whether `after` is `before` but for the `len` bytes from address `at`:
/// the same size, and the same byte at every address outside that range.
pub open spec fn kept_outside(after: Seq<u8>, before: Seq<u8>, at: int, len: int) -> bool {
    &&& after.len() == before.len()
    &&& forall|i: int|
        0 <= i < before.len() && !(at <= i < at + len) ==> #[trigger] after[i] == before[i]
}

/// The largest chunk that is read from storage in one operation.
pub const CHUNK_SIZE: usize = 64;

/// The most bytes that are written to storage in one operation.
pub const MAX_WRITE_SIZE: usize = 128;

/// Storage: random-access non-volatile memory.
///
/// An implementation stands for a byte-addressed memory, `contents()`.
/// Every operation may fail; the contracts say what a success means and
/// what a failure may have touched. When an operation succeeds is promised
/// of no storage but one that vouches for itself, `delivers()`. The
/// preconditions bound what the core asks of storage: it never reads more
/// than `CHUNK_SIZE` bytes nor writes more than `MAX_WRITE_SIZE` bytes at
/// a time, and never asks for nothing.
pub trait Flasher {
    /// The bytes the storage holds, indexed by address. A verified
    /// implementation defines it; one written in plain Rust has no way to
    /// and keeps this placeholder.
    open spec fn contents(&self) -> Seq<u8> {
        Seq::empty()
    }

    /// Whether every write accepted so far has reached the medium. Like
    /// `contents`, it is defined by verified implementations only.
    open spec fn committed(&self) -> bool {
        true
    }

    /// Whether this storage vouches for itself: every read and every write
    /// that stays inside `contents()` succeeds in full, and goes on doing
    /// so. Only an implementation that proves it can say so; of any other,
    /// and so of all storage written in plain Rust, this is `false` and
    /// nothing is promised.
    open spec fn delivers(&self) -> bool {
        false
    }

    /// Stores `data` at `destination`. Whatever the outcome, no byte
    /// outside the range handed over is changed. After a success the range
    /// holds `data`; after a failure it may hold anything.
    fn write(&mut self, destination: usize, data: &[u8]) -> (result: Result<(), WriteError>)
        requires
            0 < data@.len() <= MAX_WRITE_SIZE,
        ensures
            kept_outside(
                final(self).contents(),
                old(self).contents(),
                destination as int,
                data@.len() as int,
            ),
            result is Ok ==> {
                &&& destination + data@.len() <= old(self).contents().len()
                &&& final(self).contents() == stored(
                    old(self).contents(),
                    destination as int,
                    data@,
                )
            },
            final(self).delivers() == old(self).delivers(),
            old(self).delivers() && destination + data@.len() <= old(self).contents().len()
                ==> result is Ok,
    ;

    /// Reads up to `destination.len()` bytes from `source_address` and
    /// returns how many it delivered, at the front of `destination`.
    fn read(&self, source_address: usize, destination: &mut [u8]) -> (result: Result<
        usize,
        ReadError,
    >)
        requires
            0 < old(destination)@.len() <= CHUNK_SIZE,
        ensures
            final(destination)@.len() == old(destination)@.len(),
            result matches Ok(count) ==> {
                &&& count <= old(destination)@.len()
                &&& source_address + count <= self.contents().len()
                &&& final(destination)@.take(count as int) == region(
                    self.contents(),
                    source_address as int,
                    count as int,
                )
            },
            self.delivers() && source_address + old(destination)@.len() <= self.contents().len()
                ==> result == Ok::<usize, ReadError>(old(destination)@.len() as usize),
    ;

    /// Commits buffered writes to the medium. The contents as seen by
    /// `read` stay the same.
    fn flush(&mut self)
        ensures
            final(self).contents() == old(self).contents(),
            final(self).committed(),
            final(self).delivers() == old(self).delivers(),
    ;
}

/// What a read of `wanted` bytes is taken to have delivered. `None`
/// means that the chunk failed: the read failed, delivered nothing, or
/// claims more than was asked for.
pub open spec fn chunk_len_spec(outcome: Result<usize, ReadError>, wanted: usize) -> Option<usize> {
    match outcome {
        Ok(count) => if 0 < count <= wanted {
            Some(count)
        } else {
            None
        },
        Err(_) => None,
    }
}

/// Decides how much of a freshly read chunk to use; see [`chunk_len_spec`].
pub fn chunk_len(outcome: &Result<usize, ReadError>, wanted: usize) -> (taken: Option<usize>)
    ensures
        taken == chunk_len_spec(*outcome, wanted),
{
    match outcome {
        Ok(count) => {
            if *count == 0 || *count > wanted {
                None
            } else {
                Some(*count)
            }
        },
        Err(_) => None,
    }
}

/// How many bytes are asked for when `remaining` bytes of a range are still
/// missing: all of them, but no more than `CHUNK_SIZE`.
pub open spec fn chunk_request(remaining: usize) -> usize {
    if remaining < CHUNK_SIZE {
        remaining
    } else {
        CHUNK_SIZE
    }
}

/// Reads the next chunk of a range of which `remaining` bytes are still
/// missing: asks storage for `remaining` bytes from `address`, but for no
/// more than `CHUNK_SIZE`, and returns how many bytes at the front of
/// `buffer` count, or `None` if the chunk failed.
pub(crate) fn read_chunk<T>(
    flasher: &T,
    address: usize,
    remaining: usize,
    buffer: &mut [u8; 64],
) -> (taken: Option<usize>) where T: Flasher
    requires
        remaining > 0,
    ensures
        taken matches Some(count) ==> {
            &&& 0 < count <= remaining
            &&& count <= CHUNK_SIZE
            &&& address + count <= flasher.contents().len()
            &&& final(buffer)@.take(count as int) == region(
                flasher.contents(),
                address as int,
                count as int,
            )
        },
        flasher.delivers() && address + chunk_request(remaining) <= flasher.contents().len()
            ==> taken == Some(chunk_request(remaining)),
{
    let wanted: usize = if remaining < CHUNK_SIZE {
        remaining
    } else {
        CHUNK_SIZE
    };
    let (window, _) = buffer.split_at_mut(wanted);
    let outcome = flasher.read(address, window);
    chunk_len(&outcome, wanted)
}

} // verus!
