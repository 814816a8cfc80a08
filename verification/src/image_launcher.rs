//! Validating the installed application before it is launched.

use vstd::prelude::*;
use crate::{Flasher, region};
use crate::crc::{check_crc, lemma_detects_changed_byte, lemma_empty_image};
use crate::descriptor::{bin_info, bin_magic, STRUCT_VERSION};

verus! {

/// Whether `magic` spells `"MUBIN"`.
fn is_bin_magic(magic: &[u8; 5]) -> (yes: bool)
    ensures
        yes == (magic@ == bin_magic()),
{
    let yes = magic[0] == 0x4D && magic[1] == 0x55 && magic[2] == 0x42 && magic[3] == 0x49
        && magic[4] == 0x4E;
    proof {
        if yes {
            assert(magic@ =~= bin_magic());
        }
    }
    yes
}

/// Decides whether `data` describes an application that may be launched.
///
/// A `true` result means that magic and version are right and that the
/// image was read in full and has the recorded checksum. Wrong magic or
/// version is refused without reading storage. The check cannot promise
/// `true` for a valid application, because any read may fail; for an empty
/// image nothing is read and the verdict is exact, and so it is on storage
/// that delivers.
pub fn check_binary<T>(data: &bin_info, flasher: &T) -> (ok: bool) where T: Flasher
    ensures
        ok ==> data.launchable_in(flasher.contents()),
        data.app_len == 0 ==> ok == data.valid_in(flasher.contents()),
        flasher.delivers() ==> ok == data.launchable_in(flasher.contents()),
{
    if !is_bin_magic(&data.magic) {
        return false;
    }
    if data.struct_ver != STRUCT_VERSION {
        return false;
    }
    proof {
        lemma_empty_image(flasher.contents(), data.app_start as int, data.checksum as int);
    }
    check_crc(data.app_start, data.app_len, data.checksum, flasher)
}

/// An application whose image has one byte changed is no longer valid.
pub proof fn lemma_changed_image_is_refused(
    data: bin_info,
    mem: Seq<u8>,
    changed: Seq<u8>,
    at: int,
)
    requires
        data.valid_in(mem),
        changed.len() == mem.len(),
        data.app_start <= at < data.app_start + data.app_len,
        changed[at] != mem[at],
        forall|i: int| 0 <= i < mem.len() && i != at ==> changed[i] == mem[i],
    ensures
        !data.valid_in(changed),
{
    let start = data.app_start as int;
    let len = data.app_len as int;
    lemma_detects_changed_byte(region(mem, start, len), region(changed, start, len), at - start);
}

} // verus!
