//! Validating a pending update and installing it.

use vstd::prelude::*;
use crate::{Flasher, region, in_range, kept_outside, stored, read_chunk};
use crate::crc::{check_crc, lemma_detects_changed_byte, lemma_empty_image};
use crate::descriptor::{update_info, update_magic, STRUCT_VERSION};

verus! {

/// Whether the `len` bytes from `a` and the `len` bytes from `b` share no
/// address.
pub open spec fn ranges_apart(a: int, b: int, len: int) -> bool {
    a + len <= b || b + len <= a
}

/// Whether a copy of `len` bytes from `start` to `target`, made front to
/// back, reads every byte before it may be written over: the target begins
/// at or before the source, or after its end.
pub open spec fn copies_forward(start: int, target: int, len: int) -> bool {
    target <= start || start + len <= target
}

/// Whether the staging range and the target range of `data` both lie
/// inside `mem` and end at an address: what a copy needs, beside storage
/// that takes it.
pub open spec fn can_copy(data: update_info, mem: Seq<u8>) -> bool {
    &&& in_range(mem, data.update_start as int, data.update_len as int)
    &&& in_range(mem, data.target_adress as int, data.update_len as int)
    &&& data.update_start + data.update_len <= usize::MAX
    &&& data.target_adress + data.update_len <= usize::MAX
}

/// Whether `magic` spells `"MUUPD"`.
fn is_update_magic(magic: &[u8; 5]) -> (yes: bool)
    ensures
        yes == (magic@ == update_magic()),
{
    let yes = magic[0] == 0x4D && magic[1] == 0x55 && magic[2] == 0x55 && magic[3] == 0x50
        && magic[4] == 0x44;
    proof {
        if yes {
            assert(magic@ =~= update_magic());
        }
    }
    yes
}

/// Decides whether `data` describes an update that may be installed.
///
/// A `true` result means that magic and version are right and that the
/// staged payload was read in full and has the recorded checksum. Wrong
/// magic or version is refused without reading storage. The check cannot
/// promise `true` for a valid update, because any read may fail; for an
/// empty payload nothing is read and the verdict is exact, and so it is
/// on storage that delivers.
pub fn check_update<T>(data: &update_info, flasher: &T) -> (ok: bool) where T: Flasher
    ensures
        ok ==> data.installable_in(flasher.contents()),
        data.update_len == 0 ==> ok == data.valid_in(flasher.contents()),
        flasher.delivers() ==> ok == data.installable_in(flasher.contents()),
{
    if !is_update_magic(&data.magic) {
        return false;
    }
    if data.struct_ver != STRUCT_VERSION {
        return false;
    }
    proof {
        lemma_empty_image(flasher.contents(), data.update_start as int, data.checksum as int);
    }
    check_crc(data.update_start, data.update_len, data.checksum, flasher)
}

/// Copies the staged payload of `data` towards its target, in chunks of at
/// most `CHUNK_SIZE` bytes, and returns how many bytes were transferred.
///
/// Each chunk is read from the staging range, never past its end, and the
/// bytes that the read delivered are written at the same offset of the
/// target range. The copy is given up at the first chunk that fails to be
/// read or written, and is not begun if the end of either range exceeds
/// `usize::MAX`; the result is then smaller than `data.update_len`, and
/// nothing is known about the target range. Whatever happens, no byte
/// outside the target range is changed, and the bytes counted as
/// transferred lie inside storage at both ends.
///
/// A copy that ran to its end has put the staged payload at the target,
/// unless the target begins inside the staging range (see
/// [`copies_forward`]); and it has changed nothing at all when the target
/// already held the payload. On storage that delivers, the copy runs to
/// its end whenever both ranges lie inside storage.
pub fn copy_update<T>(data: &update_info, flasher: &mut T) -> (copied: usize) where T: Flasher
    ensures
        copied <= data.update_len,
        ({
            let before = old(flasher).contents();
            let after = final(flasher).contents();
            let start = data.update_start as int;
            let target = data.target_adress as int;
            let len = data.update_len as int;
            let complete = copied == data.update_len;
            &&& kept_outside(after, before, target, len)
            &&& len == 0 ==> after == before
            &&& start + len > usize::MAX || target + len > usize::MAX ==> copied == 0 && after
                == before
            &&& in_range(before, start, copied as int) && in_range(before, target, copied as int)
            &&& complete && copies_forward(start, target, len) ==> after == stored(
                before,
                target,
                region(before, start, len),
            )
            &&& complete && region(before, target, len) == region(before, start, len) ==> after
                == before
            &&& old(flasher).delivers() && can_copy(*data, before) ==> complete
        }),
        final(flasher).delivers() == old(flasher).delivers(),
{
    let start = data.update_start;
    let target = data.target_adress;
    let len = data.update_len;
    if start > usize::MAX - len || target > usize::MAX - len {
        return 0;
    }
    let ghost mem0 = flasher.contents();
    let ghost payload = region(mem0, start as int, len as int);
    let ghost forward = copies_forward(start as int, target as int, len as int);
    let ghost same = region(mem0, target as int, len as int) == payload;
    let mut remaining: usize = len;
    let mut offset: usize = 0;
    let mut given_up: bool = false;
    while remaining > 0 && !given_up
        invariant
            offset + remaining == len,
            start + len <= usize::MAX,
            target + len <= usize::MAX,
            mem0 == old(flasher).contents(),
            payload == region(mem0, start as int, len as int),
            forward == copies_forward(start as int, target as int, len as int),
            same == (region(mem0, target as int, len as int) == payload),
            given_up ==> remaining > 0,
            flasher.delivers() == old(flasher).delivers(),
            old(flasher).delivers() && can_copy(*data, mem0) ==> !given_up,
            start == data.update_start,
            target == data.target_adress,
            len == data.update_len,
            kept_outside(flasher.contents(), mem0, target as int, len as int),
            in_range(mem0, start as int, offset as int),
            in_range(mem0, target as int, offset as int),
            !given_up && forward ==> flasher.contents() == stored(
                mem0,
                target as int,
                payload.take(offset as int),
            ),
            !given_up && same ==> flasher.contents() == mem0,
        decreases remaining + (if given_up { 0int } else { 1int }),
    {
        let mut buff: [u8; 64] = [0u8; 64];
        match read_chunk(flasher, start + offset, remaining, &mut buff) {
            Some(taken) => {
                let chunk = vstd::slice::slice_subrange(buff.as_slice(), 0, taken);
                match flasher.write(target + offset, chunk) {
                    Ok(()) => {
                        proof {
                            if same {
                                assert forall|i: int| 0 <= i < taken implies chunk@[i]
                                    == mem0[target + offset + i] by {
                                    assert(payload[offset + i] == region(
                                        mem0,
                                        target as int,
                                        len as int,
                                    )[offset + i]);
                                }
                            }
                        }
                        remaining = remaining - taken;
                        offset = offset + taken;
                    },
                    Err(_) => {
                        given_up = true;
                    },
                }
            },
            None => {
                given_up = true;
            },
        }
    }
    offset
}

/// Installs the update that `data` describes and reports whether the
/// installed image verifies.
///
/// The payload is copied to the target (see [`copy_update`]), storage is
/// flushed whether or not the copy ran to its end, and the target range is
/// then verified against the recorded checksum. The result is the verdict
/// of that verification: `true` means that the target range now holds an
/// image with the recorded checksum. After `false` the target may hold
/// anything. Either way, no byte outside the target range is changed, and
/// what was written has been committed. Nothing is written for an empty
/// payload or when the end of either range exceeds `usize::MAX`.
///
/// On storage that delivers, the installation is exact. The verdict is
/// `true` if and only if the target range ends up with the recorded
/// checksum. If both ranges lie inside storage, the target ends up
/// holding the staged payload (unless it begins inside the staging range),
/// and an installation onto a target that already holds the payload
/// changes nothing: installing twice is installing once.
pub fn install_binary<T>(data: &update_info, flasher: &mut T) -> (ok: bool) where T: Flasher
    ensures
        ok ==> data.installed_in(final(flasher).contents()),
        final(flasher).committed(),
        kept_outside(
            final(flasher).contents(),
            old(flasher).contents(),
            data.target_adress as int,
            data.update_len as int,
        ),
        data.update_len == 0 || data.update_start + data.update_len > usize::MAX
            || data.target_adress + data.update_len > usize::MAX ==> final(flasher).contents()
            == old(flasher).contents(),
        data.update_len == 0 ==> ok == (data.checksum == 0),
        data.target_adress + data.update_len > usize::MAX ==> !ok,
        final(flasher).delivers() == old(flasher).delivers(),
        old(flasher).delivers() ==> ok == (data.installed_in(final(flasher).contents())
            && data.target_adress + data.update_len <= usize::MAX),
        ({
            let before = old(flasher).contents();
            let after = final(flasher).contents();
            let start = data.update_start as int;
            let target = data.target_adress as int;
            let len = data.update_len as int;
            let sure = old(flasher).delivers() && can_copy(*data, before);
            &&& sure && copies_forward(start, target, len) ==> after == stored(
                before,
                target,
                region(before, start, len),
            )
            &&& sure && region(before, target, len) == region(before, start, len) ==> after
                == before
        }),
{
    let _ = copy_update(data, flasher);
    flasher.flush();
    check_crc(data.target_adress, data.update_len, data.checksum, flasher)
}

/// Installing is idempotent. Once the payload has been copied to a target
/// apart from the staging range, the target holds the payload, so that a
/// second copy stores what is already there; and the installed image of a
/// valid update verifies.
pub proof fn lemma_install_is_idempotent(data: update_info, mem: Seq<u8>)
    requires
        ranges_apart(
            data.update_start as int,
            data.target_adress as int,
            data.update_len as int,
        ),
        in_range(mem, data.update_start as int, data.update_len as int),
        in_range(mem, data.target_adress as int, data.update_len as int),
    ensures
        ({
            let start = data.update_start as int;
            let target = data.target_adress as int;
            let len = data.update_len as int;
            let once = stored(mem, target, region(mem, start, len));
            &&& region(once, target, len) == region(once, start, len)
            &&& stored(once, target, region(once, start, len)) == once
            &&& data.valid_in(mem) ==> data.valid_in(once) && data.installed_in(once)
        }),
{
    let start = data.update_start as int;
    let target = data.target_adress as int;
    let len = data.update_len as int;
    let payload = region(mem, start, len);
    let once = stored(mem, target, payload);
    assert(region(once, start, len) == payload);
    assert(region(once, target, len) == payload);
}

/// An update whose staged payload has one byte changed is no longer
/// valid.
pub proof fn lemma_changed_payload_is_refused(
    data: update_info,
    mem: Seq<u8>,
    changed: Seq<u8>,
    at: int,
)
    requires
        data.valid_in(mem),
        changed.len() == mem.len(),
        data.update_start <= at < data.update_start + data.update_len,
        changed[at] != mem[at],
        forall|i: int| 0 <= i < mem.len() && i != at ==> changed[i] == mem[i],
    ensures
        !data.valid_in(changed),
{
    let start = data.update_start as int;
    let len = data.update_len as int;
    lemma_detects_changed_byte(region(mem, start, len), region(changed, start, len), at - start);
}

} // verus!
