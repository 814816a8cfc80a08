//! The boot sequence: install a pending update, then pick what to run.
//!
//! The sequence only decides. Transferring control to the application,
//! halting, and running a reception session are left to the caller, which
//! is told what to do by a [`BootAction`].

use vstd::prelude::*;
use crate::{Flasher, kept_outside, region, stored};
use crate::descriptor::{
    bin_info, load_bin_info, load_update_info, update_info, BIN_INFO_SIZE, UPDATE_INFO_SIZE,
};
use crate::image_installer::{can_copy, check_update, copies_forward, install_binary};
use crate::image_launcher::check_binary;

verus! {

/// What to do at the end of the boot sequence.
#[derive(Debug, Clone, Copy)]
pub enum BootAction {
    /// Transfer control to the application that this record describes.
    Launch(bin_info),
    /// There is no image that can be trusted: stop, write nothing more and
    /// run nothing.
    Halt,
    /// There is no application record: stay and receive a new image.
    Receive,
}

/// What became of the pending update.
#[derive(Debug, Clone, Copy)]
pub enum UpdateOutcome {
    /// No update record could be read, or the one read is not valid.
    /// Storage was not written.
    NotPending,
    /// A valid update was installed and the installed image verifies.
    Installed,
    /// A valid update was found, but its installation did not verify. The
    /// target range may hold anything.
    Failed,
}

/// What is known of the installed application.
#[derive(Debug, Clone, Copy)]
pub enum AppOutcome {
    /// No application record could be read.
    Unreadable,
    /// A record was read, but it does not describe a valid application.
    Invalid,
    /// The record describes a valid application.
    Valid(bin_info),
}

/// The update record that `mem` holds at `address`.
pub open spec fn update_at(mem: Seq<u8>, address: int) -> update_info {
    update_info::parse(region(mem, address, UPDATE_INFO_SIZE as int))
}

/// The application record that `mem` holds at `address`.
pub open spec fn app_at(mem: Seq<u8>, address: int) -> bin_info {
    bin_info::parse(region(mem, address, BIN_INFO_SIZE as int))
}

/// Whether `mem` holds, at `address`, the record of a valid update.
pub open spec fn update_pending(mem: Seq<u8>, address: int) -> bool {
    &&& address + UPDATE_INFO_SIZE <= mem.len()
    &&& update_at(mem, address).valid_in(mem)
}

/// Whether `mem` holds, at `address`, the record of a valid application.
pub open spec fn app_present(mem: Seq<u8>, address: int) -> bool {
    &&& address + BIN_INFO_SIZE <= mem.len()
    &&& app_at(mem, address).valid_in(mem)
}

/// Whether `mem` holds, at `address`, the record of an update that the
/// installer takes: a valid one whose staging range ends at an address.
pub open spec fn update_due(mem: Seq<u8>, address: int) -> bool {
    &&& address + UPDATE_INFO_SIZE <= mem.len()
    &&& update_at(mem, address).installable_in(mem)
}

/// What the first stage comes to on storage that delivers, where `before`
/// and `after` are the contents it finds and leaves: nothing to do unless
/// an update is due, and then an installation that is as good as the image
/// it leaves at the target.
pub open spec fn update_outcome_spec(before: Seq<u8>, after: Seq<u8>, address: int)
    -> UpdateOutcome {
    let update = update_at(before, address);
    if !update_due(before, address) {
        UpdateOutcome::NotPending
    } else if update.installed_in(after) && update.target_adress + update.update_len
        <= usize::MAX {
        UpdateOutcome::Installed
    } else {
        UpdateOutcome::Failed
    }
}

/// What the second stage comes to on storage that delivers: the record is
/// unreadable only if it does not lie inside storage, and the application
/// is valid if the launcher takes it.
pub open spec fn app_outcome_spec(mem: Seq<u8>, address: int) -> AppOutcome {
    if address + BIN_INFO_SIZE > mem.len() {
        AppOutcome::Unreadable
    } else if app_at(mem, address).launchable_in(mem) {
        AppOutcome::Valid(app_at(mem, address))
    } else {
        AppOutcome::Invalid
    }
}

/// A committed update is found at the next boot.
///
/// Once the record of an update with the right magic and version, whose
/// payload is staged, has been stored at `address`, away from the payload,
/// storage holds a valid pending update at `address`.
pub proof fn lemma_committed_update_is_pending(info: update_info, mem: Seq<u8>, address: int)
    requires
        info.fits_record(),
        info.valid_in(mem),
        0 <= address,
        address + UPDATE_INFO_SIZE <= mem.len(),
        address + UPDATE_INFO_SIZE <= info.update_start || info.update_start + info.update_len
            <= address,
    ensures
        update_at(stored(mem, address, info.record()), address) == info,
        update_pending(stored(mem, address, info.record()), address),
{
    let after = stored(mem, address, info.record());
    info.lemma_record_round_trip();
    assert(region(after, info.update_start as int, info.update_len as int) == region(
        mem,
        info.update_start as int,
        info.update_len as int,
    ));
}

/// The decision of the boot sequence, given what its two stages found.
///
/// After a failed installation the device halts, whatever the application
/// looks like. Otherwise a valid application is launched, an invalid one
/// halts the device, and a missing record leads to reception.
pub open spec fn decide_spec(update: UpdateOutcome, app: AppOutcome) -> BootAction {
    match update {
        UpdateOutcome::Failed => BootAction::Halt,
        _ => match app {
            AppOutcome::Valid(info) => BootAction::Launch(info),
            AppOutcome::Invalid => BootAction::Halt,
            AppOutcome::Unreadable => BootAction::Receive,
        },
    }
}

/// Decides what to do; see [`decide_spec`].
pub fn decide(update: UpdateOutcome, app: AppOutcome) -> (action: BootAction)
    ensures
        action == decide_spec(update, app),
{
    match update {
        UpdateOutcome::Failed => BootAction::Halt,
        _ => match app {
            AppOutcome::Valid(info) => BootAction::Launch(info),
            AppOutcome::Invalid => BootAction::Halt,
            AppOutcome::Unreadable => BootAction::Receive,
        },
    }
}

/// First stage: installs the update whose record is at
/// `update_info_address`, if there is a valid one.
///
/// Storage is written only if the record read describes a valid update
/// that is due ([`update_due`]), and then only inside the target range of
/// that update. An installation
/// is reported as `Installed` only if the installed image verifies. On
/// storage that delivers, the outcome is that of [`update_outcome_spec`],
/// and a due update whose ranges lie inside storage ends up at its target.
pub fn apply_update<T>(update_info_address: usize, flasher: &mut T) -> (outcome: UpdateOutcome) where
    T: Flasher,

    ensures
        ({
            let before = old(flasher).contents();
            let after = final(flasher).contents();
            let update = update_at(before, update_info_address as int);
            &&& outcome is NotPending ==> after == before
            &&& outcome is NotPending ==> final(flasher).committed() == old(flasher).committed()
            &&& !update_due(before, update_info_address as int) ==> outcome is NotPending
            &&& outcome is Installed ==> update.installed_in(after)
            &&& !(outcome is NotPending) ==> final(flasher).committed()
            &&& kept_outside(after, before, update.target_adress as int, update.update_len as int)
            &&& old(flasher).delivers() ==> outcome == update_outcome_spec(
                before,
                after,
                update_info_address as int,
            )
            &&& old(flasher).delivers() && update_due(before, update_info_address as int)
                && can_copy(update, before) && copies_forward(
                update.update_start as int,
                update.target_adress as int,
                update.update_len as int,
            ) ==> after == stored(
                before,
                update.target_adress as int,
                region(before, update.update_start as int, update.update_len as int),
            )
        }),
        final(flasher).delivers() == old(flasher).delivers(),
{
    match load_update_info(update_info_address, flasher) {
        Ok(info) => {
            if check_update(&info, flasher) {
                if install_binary(&info, flasher) {
                    UpdateOutcome::Installed
                } else {
                    UpdateOutcome::Failed
                }
            } else {
                UpdateOutcome::NotPending
            }
        },
        Err(_) => UpdateOutcome::NotPending,
    }
}

/// Second stage: reads the application record at `bin_info_address` and
/// validates the application it describes. On storage that delivers, the
/// outcome is that of [`app_outcome_spec`].
pub fn examine_app<T>(bin_info_address: usize, flasher: &T) -> (outcome: AppOutcome) where
    T: Flasher,

    ensures
        outcome matches AppOutcome::Valid(info) ==> {
            &&& app_present(flasher.contents(), bin_info_address as int)
            &&& info == app_at(flasher.contents(), bin_info_address as int)
            &&& info.launchable_in(flasher.contents())
        },
        outcome is Invalid ==> bin_info_address + BIN_INFO_SIZE <= flasher.contents().len(),
        flasher.delivers() ==> outcome == app_outcome_spec(
            flasher.contents(),
            bin_info_address as int,
        ),
{
    match load_bin_info(bin_info_address, flasher) {
        Ok(info) => {
            if check_binary(&info, flasher) {
                AppOutcome::Valid(info)
            } else {
                AppOutcome::Invalid
            }
        },
        Err(_) => AppOutcome::Unreadable,
    }
}

/// Runs the boot sequence and returns what to do next.
///
/// A pending valid update is installed first; if that installation does
/// not verify, the result is `Halt` and the application record is not even
/// read. Otherwise the application record decides: `Launch` for a valid
/// application, `Halt` for an invalid one, `Receive` if no record could be
/// read.
///
/// Whatever storage does, an application is launched only if its record
/// and image are valid in storage as the sequence leaves it; the device
/// halts only after the installation of an update that was due
/// ([`update_due`]), or over an application record that storage holds;
/// storage is written only if an update was due, and then only inside the
/// target range of that update; and what was written has been committed.
///
/// On storage that delivers, the sequence is exact: the action is
/// [`decide_spec`] of what the two stages come to
/// ([`update_outcome_spec`], [`app_outcome_spec`]), and a due update whose
/// ranges lie inside storage ends up at its target.
pub fn muload_main<T>(
    update_info_address: usize,
    bin_info_address: usize,
    flasher: &mut T,
) -> (action: BootAction) where T: Flasher
    ensures
        ({
            let before = old(flasher).contents();
            let after = final(flasher).contents();
            let update = update_at(before, update_info_address as int);
            let pending = update_due(before, update_info_address as int);
            &&& action matches BootAction::Launch(info) ==> {
                &&& app_present(after, bin_info_address as int)
                &&& info == app_at(after, bin_info_address as int)
                &&& info.launchable_in(after)
            }
            &&& action is Halt ==> pending || bin_info_address + BIN_INFO_SIZE <= after.len()
            &&& !pending ==> after == before
            &&& !pending ==> final(flasher).committed() == old(flasher).committed()
            &&& action is Halt || after == before || update.installed_in(after)
            &&& after == before || final(flasher).committed()
            &&& kept_outside(after, before, update.target_adress as int, update.update_len as int)
            &&& old(flasher).delivers() ==> action == decide_spec(
                update_outcome_spec(before, after, update_info_address as int),
                app_outcome_spec(after, bin_info_address as int),
            )
            &&& old(flasher).delivers() && pending ==> final(flasher).committed()
            &&& old(flasher).delivers() && update_due(before, update_info_address as int)
                && can_copy(update, before) && copies_forward(
                update.update_start as int,
                update.target_adress as int,
                update.update_len as int,
            ) ==> after == stored(
                before,
                update.target_adress as int,
                region(before, update.update_start as int, update.update_len as int),
            )
        }),
        final(flasher).delivers() == old(flasher).delivers(),
{
    let update = apply_update(update_info_address, flasher);
    match update {
        UpdateOutcome::Failed => BootAction::Halt,
        _ => {
            let app = examine_app(bin_info_address, flasher);
            decide(update, app)
        },
    }
}

} // verus!
