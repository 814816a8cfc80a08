use muload::boot::{apply_update, decide, examine_app, AppOutcome, UpdateOutcome};
use muload::{bin_info, muload_main, BootAction, Flasher, ReadError, WriteError};

struct FakeFlasher {
    memory: [u8; 0x8000],
    flush_called: bool,
    /// Reads that touch this range fail.
    unreadable: Option<(usize, usize)>,
    /// How many more writes succeed.
    writes_left: usize,
    writes: usize,
}

impl FakeFlasher {
    fn new() -> Self {
        Self {
            memory: [0x00; 0x8000],
            flush_called: false,
            unreadable: None,
            writes_left: usize::MAX,
            writes: 0,
        }
    }
}

impl Flasher for FakeFlasher {
    fn write(&mut self, destination: usize, data: &[u8]) -> Result<(), WriteError> {
        if data.is_empty() {
            return Err(WriteError::NoData);
        }
        if destination >= self.memory.len() || data.len() > self.memory.len() - destination {
            return Err(WriteError::AddressOutOfRange);
        }
        if self.writes_left == 0 {
            return Err(WriteError::AddressOutOfRange);
        }
        self.writes_left -= 1;
        self.writes += 1;
        for (index, byte) in data.iter().enumerate() {
            self.memory[destination + index] = *byte;
        }
        Ok(())
    }

    fn read(&self, source_address: usize, destination: &mut [u8]) -> Result<usize, ReadError> {
        if source_address >= self.memory.len() {
            return Err(ReadError::AddressOutOfRange);
        }
        if destination.len() > self.memory.len() - source_address {
            return Err(ReadError::EndAddressOutOfRange);
        }
        if let Some((from, to)) = self.unreadable {
            if source_address < to && from < source_address + destination.len() {
                return Err(ReadError::ReadFailed);
            }
        }
        for index in 0..destination.len() {
            destination[index] = self.memory[source_address + index];
        }
        Ok(destination.len())
    }

    fn flush(&mut self) {
        self.flush_called = true;
    }
}

const UPDATE_INFO_ADDRESS: usize = 0x0100;
const BIN_INFO_ADDRESS: usize = 0x0200;
const STAGED: [u8; 5] = [0xAA, 0xBB, 0xCC, 0xDD, 0x11];
const STAGED_CRC: u32 = 0xF055_4D35;

fn put(flasher: &mut FakeFlasher, address: usize, data: &[u8]) {
    flasher.memory[address..address + data.len()].copy_from_slice(data);
}

fn update_record(magic: &[u8; 5], version: u8, start: u32, len: u32, target: u32, crc: u32) -> Vec<u8> {
    let mut bytes = magic.to_vec();
    bytes.push(version);
    bytes.extend_from_slice(&start.to_be_bytes());
    bytes.extend_from_slice(&len.to_be_bytes());
    bytes.extend_from_slice(&target.to_be_bytes());
    bytes.extend_from_slice(&crc.to_be_bytes());
    bytes
}

fn bin_record(magic: &[u8; 5], version: u8, start: u32, len: u32, crc: u32) -> Vec<u8> {
    let mut bytes = magic.to_vec();
    bytes.push(version);
    bytes.extend_from_slice(&start.to_be_bytes());
    bytes.extend_from_slice(&len.to_be_bytes());
    bytes.extend_from_slice(&crc.to_be_bytes());
    bytes
}

/// Storage with a valid application of five bytes at 0x4000.
fn with_application() -> FakeFlasher {
    let mut fl = FakeFlasher::new();
    put(&mut fl, 0x4000, &STAGED);
    put(&mut fl, BIN_INFO_ADDRESS, &bin_record(b"MUBIN", 1, 0x4000, 5, STAGED_CRC));
    fl
}

fn launched(action: BootAction) -> bin_info {
    match action {
        BootAction::Launch(info) => info,
        other => panic!("expected a launch, got {:?}", other),
    }
}

#[test]
fn launches_the_application_when_no_update_is_pending() {
    let mut fl = with_application();
    fl.unreadable = Some((UPDATE_INFO_ADDRESS, UPDATE_INFO_ADDRESS + 22));
    let info = launched(muload_main(UPDATE_INFO_ADDRESS, BIN_INFO_ADDRESS, &mut fl));
    assert_eq!(info.magic, *b"MUBIN");
    assert_eq!(info.struct_ver, 1);
    assert_eq!(info.app_start, 0x4000);
    assert_eq!(info.app_len, 5);
    assert_eq!(info.checksum, STAGED_CRC as usize);
    assert_eq!(fl.writes, 0);
    assert!(!fl.flush_called);
}

#[test]
fn launches_the_application_when_the_update_record_is_blank() {
    let mut fl = with_application();
    let info = launched(muload_main(UPDATE_INFO_ADDRESS, BIN_INFO_ADDRESS, &mut fl));
    assert_eq!(info.app_start, 0x4000);
    assert_eq!(fl.writes, 0);
}

#[test]
fn installs_a_valid_update_before_launching() {
    let mut fl = FakeFlasher::new();
    put(&mut fl, 0x1000, &STAGED);
    put(&mut fl, UPDATE_INFO_ADDRESS, &update_record(b"MUUPD", 1, 0x1000, 5, 0x4000, STAGED_CRC));
    put(&mut fl, BIN_INFO_ADDRESS, &bin_record(b"MUBIN", 1, 0x4000, 5, STAGED_CRC));

    // Before the installation the application range is blank.
    assert!(matches!(examine_app(BIN_INFO_ADDRESS, &fl), AppOutcome::Invalid));

    let info = launched(muload_main(UPDATE_INFO_ADDRESS, BIN_INFO_ADDRESS, &mut fl));
    assert_eq!(&fl.memory[0x4000..0x4005], &STAGED);
    assert!(fl.flush_called);
    assert_eq!(info.app_start, 0x4000);
}

#[test]
fn update_with_wrong_magic_is_never_installed() {
    let mut fl = with_application();
    put(&mut fl, 0x1000, &[1, 2, 3, 4, 5]);
    let crc = muload::crc::checksum_of(&[1, 2, 3, 4, 5]);
    put(&mut fl, UPDATE_INFO_ADDRESS, &update_record(b"MMMMM", 1, 0x1000, 5, 0x4000, crc));
    let before = fl.memory;
    assert!(matches!(apply_update(UPDATE_INFO_ADDRESS, &mut fl), UpdateOutcome::NotPending));
    let info = launched(muload_main(UPDATE_INFO_ADDRESS, BIN_INFO_ADDRESS, &mut fl));
    assert_eq!(info.app_start, 0x4000);
    assert_eq!(fl.writes, 0);
    assert!(!fl.flush_called);
    assert!(fl.memory == before);
}

#[test]
fn update_with_wrong_checksum_is_never_installed() {
    let mut fl = with_application();
    put(&mut fl, 0x1000, &STAGED);
    // The checksum of a hundred zero bytes, not that of the staged bytes.
    put(&mut fl, UPDATE_INFO_ADDRESS, &update_record(b"MUUPD", 1, 0x1000, 5, 0x4000, 0x9988_C6CA));
    launched(muload_main(UPDATE_INFO_ADDRESS, BIN_INFO_ADDRESS, &mut fl));
    assert_eq!(fl.writes, 0);
    assert!(!fl.flush_called);
}

#[test]
fn receives_when_the_application_record_cannot_be_read() {
    let mut fl = with_application();
    fl.unreadable = Some((BIN_INFO_ADDRESS, BIN_INFO_ADDRESS + 18));
    assert!(matches!(
        muload_main(UPDATE_INFO_ADDRESS, BIN_INFO_ADDRESS, &mut fl),
        BootAction::Receive
    ));
    assert!(matches!(examine_app(BIN_INFO_ADDRESS, &fl), AppOutcome::Unreadable));
    // A record address outside storage cannot be read either.
    let mut fl = with_application();
    assert!(matches!(muload_main(UPDATE_INFO_ADDRESS, 0x7FF0, &mut fl), BootAction::Receive));
    assert!(matches!(muload_main(UPDATE_INFO_ADDRESS, usize::MAX, &mut fl), BootAction::Receive));
}

#[test]
fn halts_when_the_application_is_not_valid() {
    let mut fl = with_application();
    fl.memory[0x4002] ^= 0x01;
    assert!(matches!(
        muload_main(UPDATE_INFO_ADDRESS, BIN_INFO_ADDRESS, &mut fl),
        BootAction::Halt
    ));
    // A blank record is readable and not valid.
    let mut blank = FakeFlasher::new();
    assert!(matches!(
        muload_main(UPDATE_INFO_ADDRESS, BIN_INFO_ADDRESS, &mut blank),
        BootAction::Halt
    ));
}

#[test]
fn halts_when_the_installation_does_not_verify() {
    let mut fl = with_application();
    let image: Vec<u8> = (0..100u32).map(|i| (i + 3) as u8).collect();
    put(&mut fl, 0x1000, &image);
    let crc = muload::crc::checksum_of(&image);
    put(&mut fl, UPDATE_INFO_ADDRESS, &update_record(b"MUUPD", 1, 0x1000, 100, 0x4000, crc));
    fl.writes_left = 1;
    assert!(matches!(
        muload_main(UPDATE_INFO_ADDRESS, BIN_INFO_ADDRESS, &mut fl),
        BootAction::Halt
    ));
    assert!(fl.flush_called);
    assert_eq!(fl.writes, 1);

    let mut again = with_application();
    put(&mut again, 0x1000, &image);
    put(&mut again, UPDATE_INFO_ADDRESS, &update_record(b"MUUPD", 1, 0x1000, 100, 0x4000, crc));
    again.writes_left = 0;
    assert!(matches!(apply_update(UPDATE_INFO_ADDRESS, &mut again), UpdateOutcome::Failed));
}

#[test]
fn apply_update_reports_an_installation() {
    let mut fl = FakeFlasher::new();
    put(&mut fl, 0x1000, &STAGED);
    put(&mut fl, UPDATE_INFO_ADDRESS, &update_record(b"MUUPD", 1, 0x1000, 5, 0x4000, STAGED_CRC));
    assert!(matches!(apply_update(UPDATE_INFO_ADDRESS, &mut fl), UpdateOutcome::Installed));
    assert_eq!(&fl.memory[0x4000..0x4005], &STAGED);
    // The record stays, so the next boot installs again, with the same
    // result.
    let after_first = fl.memory;
    assert!(matches!(apply_update(UPDATE_INFO_ADDRESS, &mut fl), UpdateOutcome::Installed));
    assert!(fl.memory == after_first);
}

#[test]
fn decide_follows_the_table() {
    let app = bin_info {
        magic: *b"MUBIN",
        struct_ver: 1,
        app_start: 0x4000,
        app_len: 5,
        checksum: 1,
    };
    for update in [UpdateOutcome::NotPending, UpdateOutcome::Installed] {
        assert!(matches!(decide(update, AppOutcome::Unreadable), BootAction::Receive));
        assert!(matches!(decide(update, AppOutcome::Invalid), BootAction::Halt));
        match decide(update, AppOutcome::Valid(app)) {
            BootAction::Launch(info) => assert_eq!(info.app_start, 0x4000),
            other => panic!("expected a launch, got {:?}", other),
        }
    }
    assert!(matches!(decide(UpdateOutcome::Failed, AppOutcome::Unreadable), BootAction::Halt));
    assert!(matches!(decide(UpdateOutcome::Failed, AppOutcome::Invalid), BootAction::Halt));
    assert!(matches!(decide(UpdateOutcome::Failed, AppOutcome::Valid(app)), BootAction::Halt));
}
