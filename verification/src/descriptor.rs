//! The two records that describe images: a pending update and the
//! installed application.
//!
//! In storage a record is a packed byte image: the five magic bytes, the
//! version byte, then the numeric fields as 32-bit big-endian numbers in
//! the order of the struct's fields.

use vstd::prelude::*;
use crate::{Flasher, ReadError, region};
use crate::crc::image_matches;
use crate::image_receiver::{be32, be32_bytes, lemma_be32_round_trip, usize_from_packet};

verus! {

/// How the payload of an update is encoded. Only `Raw` payloads can be
/// installed; `LZMA` is reserved.
#[derive(Debug, PartialEq, Eq, Clone, Copy)]
pub enum UpdateEncoding {
    Raw,
    LZMA,
}

/// The bytes of an update record in storage.
pub const UPDATE_INFO_SIZE: usize = 22;

/// The bytes of an application record in storage.
pub const BIN_INFO_SIZE: usize = 18;

/// The record version this core understands.
pub const STRUCT_VERSION: u8 = 1;

/// The magic of an update record, `"MUUPD"`.
pub open spec fn update_magic() -> Seq<u8> {
    seq![0x4Du8, 0x55u8, 0x55u8, 0x50u8, 0x44u8]
}

/// The magic of an application record, `"MUBIN"`.
pub open spec fn bin_magic() -> Seq<u8> {
    seq![0x4Du8, 0x55u8, 0x42u8, 0x49u8, 0x4Eu8]
}

/// Describes the installed application.
#[allow(non_camel_case_types)]
#[derive(Debug, Clone, Copy)]
pub struct bin_info {
    pub magic: [u8; 5],
    pub struct_ver: u8,
    pub app_start: usize,
    pub app_len: usize,
    pub checksum: usize,
}

/// Describes a pending update: where its payload is staged, where it is to
/// be installed, and the CRC-32 of the payload.
#[allow(non_camel_case_types)]
#[derive(Debug, Clone, Copy)]
pub struct update_info {
    pub magic: [u8; 5],
    pub struct_ver: u8,
    pub update_start: usize,
    pub update_len: usize,
    pub target_adress: usize,
    pub checksum: usize,
}

/// Whether `value` fits a 32-bit field of a record.
pub open spec fn fits_field(value: usize) -> bool {
    value <= 0xFFFF_FFFF
}

/// The four bytes of `value`, most significant byte first.
fn be32_array(value: u32) -> (bytes: [u8; 4])
    ensures
        bytes@ == be32_bytes(value as int),
{
    let b0: u8 = (value >> 24) as u8;
    let b1: u8 = ((value >> 16) & 0xFF) as u8;
    let b2: u8 = ((value >> 8) & 0xFF) as u8;
    let b3: u8 = (value & 0xFF) as u8;
    assert(b0 == value / 0x100_0000 % 0x100 && b1 == value / 0x1_0000 % 0x100 && b2 == value
        / 0x100 % 0x100 && b3 == value % 0x100) by (bit_vector)
        requires
            b0 == (value >> 24) as u8,
            b1 == ((value >> 16) & 0xFF) as u8,
            b2 == ((value >> 8) & 0xFF) as u8,
            b3 == (value & 0xFF) as u8,
    ;
    let bytes = [b0, b1, b2, b3];
    bytes
}

impl update_info {
    /// Whether every numeric field fits the 32 bits a record has for it.
    pub open spec fn fits_record(&self) -> bool {
        &&& fits_field(self.update_start)
        &&& fits_field(self.update_len)
        &&& fits_field(self.target_adress)
        &&& fits_field(self.checksum)
    }

    /// The record's byte image.
    pub open spec fn record(&self) -> Seq<u8> {
        self.magic@ + seq![self.struct_ver] + be32_bytes(self.update_start as int) + be32_bytes(
            self.update_len as int,
        ) + be32_bytes(self.target_adress as int) + be32_bytes(self.checksum as int)
    }

    /// The record that the first 22 bytes of `bytes` spell.
    pub open spec fn parse(bytes: Seq<u8>) -> update_info {
        update_info {
            magic: [bytes[0], bytes[1], bytes[2], bytes[3], bytes[4]],
            struct_ver: bytes[5],
            update_start: be32(bytes, 6) as usize,
            update_len: be32(bytes, 10) as usize,
            target_adress: be32(bytes, 14) as usize,
            checksum: be32(bytes, 18) as usize,
        }
    }

    /// The update that a 22-byte image header announces. The fields are
    /// those of `parse`, but the magic is taken for granted: whatever the
    /// first five bytes are, the result carries `"MUUPD"`.
    pub open spec fn from_header(bytes: Seq<u8>) -> update_info {
        update_info { magic: [0x4Du8, 0x55u8, 0x55u8, 0x50u8, 0x44u8], ..update_info::parse(bytes) }
    }

    /// Whether the staging range of `mem` holds a payload with the
    /// recorded checksum.
    pub open spec fn staged_in(&self, mem: Seq<u8>) -> bool {
        image_matches(mem, self.update_start as int, self.update_len as int, self.checksum as int)
    }

    /// Whether this describes an update that may be installed from `mem`:
    /// magic and version are right and the staged payload has the
    /// recorded checksum.
    pub open spec fn valid_in(&self, mem: Seq<u8>) -> bool {
        &&& self.magic@ == update_magic()
        &&& self.struct_ver == STRUCT_VERSION
        &&& self.staged_in(mem)
    }

    /// Whether this update is valid in `mem` and its staging range ends at
    /// an address: what the installer asks of an update.
    pub open spec fn installable_in(&self, mem: Seq<u8>) -> bool {
        self.valid_in(mem) && self.update_start + self.update_len <= usize::MAX
    }

    /// Whether the target range of `mem` holds an image with the recorded
    /// checksum.
    pub open spec fn installed_in(&self, mem: Seq<u8>) -> bool {
        image_matches(mem, self.target_adress as int, self.update_len as int, self.checksum as int)
    }

    /// Decodes the record at the front of `bytes`; `None` if there are
    /// fewer than 22 bytes.
    pub fn from_bytes(bytes: &[u8]) -> (decoded: Option<update_info>)
        ensures
            decoded is Some <==> bytes@.len() >= UPDATE_INFO_SIZE,
            decoded matches Some(info) ==> info == update_info::parse(bytes@),
    {
        if bytes.len() < UPDATE_INFO_SIZE {
            None
        } else {
            Some(update_info::decode(bytes))
        }
    }

    /// Decodes the record at the front of `bytes`.
    fn decode(bytes: &[u8]) -> (info: update_info)
        requires
            bytes@.len() >= UPDATE_INFO_SIZE,
        ensures
            info == update_info::parse(bytes@),
    {
        update_info {
            magic: [bytes[0], bytes[1], bytes[2], bytes[3], bytes[4]],
            struct_ver: bytes[5],
            update_start: usize_from_packet(bytes, 6),
            update_len: usize_from_packet(bytes, 10),
            target_adress: usize_from_packet(bytes, 14),
            checksum: usize_from_packet(bytes, 18),
        }
    }

    /// What a read of the record's 22 bytes comes to: the record that
    /// `bytes` spell if the read delivered all of them, `ReadFailed` if it
    /// delivered another number of bytes, and the read's own error if it
    /// failed.
    pub open spec fn from_read_spec(outcome: Result<usize, ReadError>, bytes: Seq<u8>) -> Result<
        update_info,
        ReadError,
    > {
        match outcome {
            Ok(count) => if count == UPDATE_INFO_SIZE {
                Ok(update_info::parse(bytes))
            } else {
                Err(ReadError::ReadFailed)
            },
            Err(error) => Err(error),
        }
    }

    /// Turns the outcome of a read into `buffer` into a record; see
    /// [`from_read_spec`](Self::from_read_spec).
    pub fn from_read(outcome: Result<usize, ReadError>, buffer: &[u8; 22]) -> (loaded: Result<
        update_info,
        ReadError,
    >)
        ensures
            loaded == update_info::from_read_spec(outcome, buffer@),
    {
        match outcome {
            Ok(count) => {
                if count == UPDATE_INFO_SIZE {
                    Ok(update_info::decode(buffer.as_slice()))
                } else {
                    Err(ReadError::ReadFailed)
                }
            },
            Err(error) => Err(error),
        }
    }

    /// Encodes the record; `None` if a field does not fit its 32 bits.
    pub fn to_bytes(&self) -> (encoded: Option<[u8; 22]>)
        ensures
            encoded is Some <==> self.fits_record(),
            encoded matches Some(bytes) ==> bytes@ == self.record(),
    {
        if self.update_start > 0xFFFF_FFFF || self.update_len > 0xFFFF_FFFF || self.target_adress
            > 0xFFFF_FFFF || self.checksum > 0xFFFF_FFFF {
            return None;
        }
        let start = be32_array(self.update_start as u32);
        let len = be32_array(self.update_len as u32);
        let target = be32_array(self.target_adress as u32);
        let sum = be32_array(self.checksum as u32);
        let bytes: [u8; 22] = [
            self.magic[0],
            self.magic[1],
            self.magic[2],
            self.magic[3],
            self.magic[4],
            self.struct_ver,
            start[0],
            start[1],
            start[2],
            start[3],
            len[0],
            len[1],
            len[2],
            len[3],
            target[0],
            target[1],
            target[2],
            target[3],
            sum[0],
            sum[1],
            sum[2],
            sum[3],
        ];
        Some(bytes)
    }

    /// Decoding an encoded record gives the record back.
    pub proof fn lemma_record_round_trip(&self)
        requires
            self.fits_record(),
        ensures
            self.record().len() == UPDATE_INFO_SIZE,
            update_info::parse(self.record()) == *self,
    {
        lemma_be32_round_trip(self.update_start as int);
        lemma_be32_round_trip(self.update_len as int);
        lemma_be32_round_trip(self.target_adress as int);
        lemma_be32_round_trip(self.checksum as int);
        assert(update_info::parse(self.record()).magic =~= self.magic);
    }
}

impl bin_info {
    /// The record that the first 18 bytes of `bytes` spell.
    pub open spec fn parse(bytes: Seq<u8>) -> bin_info {
        bin_info {
            magic: [bytes[0], bytes[1], bytes[2], bytes[3], bytes[4]],
            struct_ver: bytes[5],
            app_start: be32(bytes, 6) as usize,
            app_len: be32(bytes, 10) as usize,
            checksum: be32(bytes, 14) as usize,
        }
    }

    /// Whether this describes an application that may be launched from
    /// `mem`: magic and version are right and the image has the recorded
    /// checksum.
    pub open spec fn valid_in(&self, mem: Seq<u8>) -> bool {
        &&& self.magic@ == bin_magic()
        &&& self.struct_ver == STRUCT_VERSION
        &&& image_matches(mem, self.app_start as int, self.app_len as int, self.checksum as int)
    }

    /// Whether this application is valid in `mem` and its image ends at an
    /// address: what the launcher asks of an application.
    pub open spec fn launchable_in(&self, mem: Seq<u8>) -> bool {
        self.valid_in(mem) && self.app_start + self.app_len <= usize::MAX
    }

    /// Decodes the record at the front of `bytes`; `None` if there are
    /// fewer than 18 bytes.
    pub fn from_bytes(bytes: &[u8]) -> (decoded: Option<bin_info>)
        ensures
            decoded is Some <==> bytes@.len() >= BIN_INFO_SIZE,
            decoded matches Some(info) ==> info == bin_info::parse(bytes@),
    {
        if bytes.len() < BIN_INFO_SIZE {
            None
        } else {
            Some(bin_info::decode(bytes))
        }
    }

    /// What a read of the record's 18 bytes comes to: the record that
    /// `bytes` spell if the read delivered all of them, `ReadFailed` if it
    /// delivered another number of bytes, and the read's own error if it
    /// failed.
    pub open spec fn from_read_spec(outcome: Result<usize, ReadError>, bytes: Seq<u8>) -> Result<
        bin_info,
        ReadError,
    > {
        match outcome {
            Ok(count) => if count == BIN_INFO_SIZE {
                Ok(bin_info::parse(bytes))
            } else {
                Err(ReadError::ReadFailed)
            },
            Err(error) => Err(error),
        }
    }

    /// Turns the outcome of a read into `buffer` into a record; see
    /// [`from_read_spec`](Self::from_read_spec).
    pub fn from_read(outcome: Result<usize, ReadError>, buffer: &[u8; 18]) -> (loaded: Result<
        bin_info,
        ReadError,
    >)
        ensures
            loaded == bin_info::from_read_spec(outcome, buffer@),
    {
        match outcome {
            Ok(count) => {
                if count == BIN_INFO_SIZE {
                    Ok(bin_info::decode(buffer.as_slice()))
                } else {
                    Err(ReadError::ReadFailed)
                }
            },
            Err(error) => Err(error),
        }
    }

    /// Decodes the record at the front of `bytes`.
    fn decode(bytes: &[u8]) -> (info: bin_info)
        requires
            bytes@.len() >= BIN_INFO_SIZE,
        ensures
            info == bin_info::parse(bytes@),
    {
        bin_info {
            magic: [bytes[0], bytes[1], bytes[2], bytes[3], bytes[4]],
            struct_ver: bytes[5],
            app_start: usize_from_packet(bytes, 6),
            app_len: usize_from_packet(bytes, 10),
            checksum: usize_from_packet(bytes, 14),
        }
    }
}

/// Reads the update record stored at `address`.
///
/// The record is fetched with a single read of 22 bytes, and
/// [`update_info::from_read`] says what each outcome of that read comes
/// to. Whether the read succeeds is for storage to decide; on storage that
/// delivers, it does whenever the record lies inside storage.
pub fn load_update_info<T>(address: usize, flasher: &T) -> (loaded: Result<
    update_info,
    ReadError,
>) where T: Flasher
    ensures
        loaded matches Ok(info) ==> {
            &&& address + UPDATE_INFO_SIZE <= flasher.contents().len()
            &&& info == update_info::parse(
                region(flasher.contents(), address as int, UPDATE_INFO_SIZE as int),
            )
        },
        flasher.delivers() && address + UPDATE_INFO_SIZE <= flasher.contents().len()
            ==> loaded is Ok,
{
    let mut buf: [u8; 22] = [0u8; 22];
    let outcome = flasher.read(address, &mut buf);
    update_info::from_read(outcome, &buf)
}

/// Reads the application record stored at `address`.
///
/// The record is fetched with a single read of 18 bytes, and
/// [`bin_info::from_read`] says what each outcome of that read comes to.
/// Whether the read succeeds is for storage to decide; on storage that
/// delivers, it does whenever the record lies inside storage.
pub fn load_bin_info<T>(address: usize, flasher: &T) -> (loaded: Result<bin_info, ReadError>) where
    T: Flasher,

    ensures
        loaded matches Ok(info) ==> {
            &&& address + BIN_INFO_SIZE <= flasher.contents().len()
            &&& info == bin_info::parse(
                region(flasher.contents(), address as int, BIN_INFO_SIZE as int),
            )
        },
        flasher.delivers() && address + BIN_INFO_SIZE <= flasher.contents().len()
            ==> loaded is Ok,
{
    let mut buf: [u8; 18] = [0u8; 18];
    let outcome = flasher.read(address, &mut buf);
    bin_info::from_read(outcome, &buf)
}

} // verus!
