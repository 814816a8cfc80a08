use muload::boot::UpdateOutcome;
use muload::image_receiver::{ImageReceiver, ACK, DATA, END, ETX, INIT, STX};
use muload::ram::RamFlasher;
use muload::{muload_main, BootAction, Flasher, ReadError, WriteError};

#[test]
fn new_storage_is_blank_and_committed() {
    let ram = RamFlasher::new(16);
    assert_eq!(ram.size(), 16);
    assert_eq!(ram.bytes(), &[0u8; 16]);
    assert!(!ram.has_uncommitted_writes());
    assert_eq!(RamFlasher::new(0).size(), 0);
}

#[test]
fn write_stores_the_bytes_and_nothing_else() {
    let mut ram = RamFlasher::with_contents(vec![9; 8]);
    assert_eq!(ram.write(2, &[1, 2, 3]), Ok(()));
    assert_eq!(ram.bytes(), &[9, 9, 1, 2, 3, 9, 9, 9]);
    assert!(ram.has_uncommitted_writes());
    ram.flush();
    assert!(!ram.has_uncommitted_writes());
    assert_eq!(ram.bytes(), &[9, 9, 1, 2, 3, 9, 9, 9]);
    assert_eq!(ram.write(5, &[7, 7, 7]), Ok(()));
    assert_eq!(ram.bytes(), &[9, 9, 1, 2, 3, 7, 7, 7]);
}

#[test]
fn write_outside_storage_is_refused_and_changes_nothing() {
    let mut ram = RamFlasher::with_contents(vec![9; 8]);
    assert_eq!(ram.write(6, &[1, 2, 3]), Err(WriteError::AddressOutOfRange));
    assert_eq!(ram.write(8, &[1]), Err(WriteError::AddressOutOfRange));
    assert_eq!(ram.write(usize::MAX, &[1]), Err(WriteError::AddressOutOfRange));
    assert_eq!(ram.write(0, &[]), Err(WriteError::NoData));
    assert_eq!(ram.write(100, &[]), Err(WriteError::NoData));
    assert_eq!(ram.bytes(), &[9; 8]);
    assert!(!ram.has_uncommitted_writes());
}

#[test]
fn read_delivers_the_whole_buffer_or_fails() {
    let ram = RamFlasher::with_contents(vec![10, 11, 12, 13, 14]);
    let mut buf = [0u8; 3];
    assert_eq!(ram.read(1, &mut buf), Ok(3));
    assert_eq!(buf, [11, 12, 13]);
    assert_eq!(ram.read(2, &mut buf), Ok(3));
    assert_eq!(buf, [12, 13, 14]);
    assert_eq!(ram.read(3, &mut buf), Err(ReadError::EndAddressOutOfRange));
    assert_eq!(ram.read(5, &mut buf), Err(ReadError::EndAddressOutOfRange));
    assert_eq!(ram.read(6, &mut buf), Err(ReadError::AddressOutOfRange));
    assert_eq!(ram.read(usize::MAX, &mut buf), Err(ReadError::AddressOutOfRange));
    assert_eq!(buf, [12, 13, 14]);
}

fn framed(kind: u8, payload: &[u8]) -> Vec<u8> {
    let mut bytes = vec![STX, kind];
    bytes.extend_from_slice(payload);
    bytes.push(ETX);
    let bcc = bytes[1..].iter().fold(0u8, |acc, b| acc ^ b);
    bytes.push(bcc);
    bytes
}

/// A device's whole life in memory: it boots without an application,
/// receives an image, boots again and installs it, and then launches it.
#[test]
fn received_image_is_installed_and_launched_on_the_next_boots() {
    const UPDATE_INFO: usize = 0x100;
    const BIN_INFO: usize = 0x200;
    let image: Vec<u8> = (0..256u32).map(|i| (i * 11 + 2) as u8).collect();
    let crc = muload::crc::checksum_of(&image);

    // Storage whose last 32 bytes cannot hold an application record: the
    // record address is chosen past the end.
    let mut ram = RamFlasher::new(0x3000);
    assert!(matches!(muload_main(UPDATE_INFO, 0x2FF0, &mut ram), BootAction::Receive));

    let mut header = b"MUUPD\x01".to_vec();
    header.extend_from_slice(&0x1000u32.to_be_bytes());
    header.extend_from_slice(&256u32.to_be_bytes());
    header.extend_from_slice(&0x2000u32.to_be_bytes());
    header.extend_from_slice(&crc.to_be_bytes());
    let mut stream = framed(INIT, &header);
    stream.extend(framed(DATA, &image[..128]));
    stream.extend(framed(DATA, &image[128..]));
    stream.extend(framed(END, &[]));

    let mut receiver = ImageReceiver::new();
    let mut replies = Vec::new();
    for byte in &stream {
        if let Some(reply) = receiver.handle_byte(*byte, &mut ram) {
            replies.push(reply);
        }
    }
    assert_eq!(replies, vec![ACK; 4]);
    assert!(receiver.is_done());
    assert!(!ram.has_uncommitted_writes());
    assert!(receiver.commit(UPDATE_INFO, &mut ram));
    assert_eq!(&ram.bytes()[0x1000..0x1100], &image[..]);
    assert_eq!(&ram.bytes()[UPDATE_INFO..UPDATE_INFO + 22], &header[..]);

    // The tool that built the image also provides its application record.
    let mut record = b"MUBIN\x01".to_vec();
    record.extend_from_slice(&0x2000u32.to_be_bytes());
    record.extend_from_slice(&256u32.to_be_bytes());
    record.extend_from_slice(&crc.to_be_bytes());
    for (i, chunk) in record.chunks(128).enumerate() {
        ram.write(BIN_INFO + 128 * i, chunk).unwrap();
    }
    ram.flush();

    assert!(matches!(
        muload::boot::apply_update(UPDATE_INFO, &mut ram),
        UpdateOutcome::Installed
    ));
    assert_eq!(&ram.bytes()[0x2000..0x2100], &image[..]);
    assert!(!ram.has_uncommitted_writes());
    match muload_main(UPDATE_INFO, BIN_INFO, &mut ram) {
        BootAction::Launch(app) => {
            assert_eq!(app.app_start, 0x2000);
            assert_eq!(app.app_len, 256);
            assert_eq!(app.checksum, crc as usize);
        }
        other => panic!("expected a launch, got {:?}", other),
    }
}

#[test]
fn installing_twice_on_memory_storage_is_installing_once() {
    let image: Vec<u8> = (0..300u32).map(|i| (i * 17 + 5) as u8).collect();
    let mut cells = vec![0u8; 0x1000];
    cells[0x100..0x100 + 300].copy_from_slice(&image);
    let mut ram = RamFlasher::with_contents(cells);
    let info = muload::update_info {
        magic: *b"MUUPD",
        struct_ver: 1,
        update_start: 0x100,
        update_len: 300,
        target_adress: 0x800,
        checksum: muload::crc::checksum_of(&image) as usize,
    };
    assert!(muload::image_installer::check_update(&info, &ram));
    assert!(muload::image_installer::install_binary(&info, &mut ram));
    let once = ram.bytes().to_vec();
    assert_eq!(&once[0x800..0x800 + 300], &image[..]);
    assert_eq!(&once[0x100..0x100 + 300], &image[..]);
    assert!(once[..0x100].iter().all(|b| *b == 0));
    assert!(once[0x800 + 300..].iter().all(|b| *b == 0));
    assert!(muload::image_installer::install_binary(&info, &mut ram));
    assert_eq!(ram.bytes(), &once[..]);
    assert!(!ram.has_uncommitted_writes());
}

#[test]
fn installation_past_the_end_of_memory_storage_touches_only_the_target() {
    let mut cells = vec![0x55u8; 0x200];
    for (i, cell) in cells[..0x100].iter_mut().enumerate() {
        *cell = i as u8;
    }
    let before = cells.clone();
    let mut ram = RamFlasher::with_contents(cells);
    let info = muload::update_info {
        magic: *b"MUUPD",
        struct_ver: 1,
        update_start: 0,
        update_len: 0x100,
        target_adress: 0x180,
        checksum: 0,
    };
    // The target range runs past the end: the copy stops at the chunk that
    // does not fit, and the installation does not verify.
    assert_eq!(muload::image_installer::copy_update(&info, &mut ram), 0x80);
    assert!(!muload::image_installer::install_binary(&info, &mut ram));
    assert_eq!(&ram.bytes()[..0x180], &before[..0x180]);
    assert_eq!(&ram.bytes()[0x180..], &before[..0x80]);
}

#[test]
fn session_on_memory_storage_is_answered_as_the_frames_deserve() {
    let mut ram = RamFlasher::new(0x400);
    let mut header = b"MUUPD\x01".to_vec();
    header.extend_from_slice(&0x380u32.to_be_bytes());
    header.extend_from_slice(&256u32.to_be_bytes());
    header.extend_from_slice(&0u32.to_be_bytes());
    header.extend_from_slice(&0u32.to_be_bytes());
    let mut stream = framed(INIT, &header);
    stream.extend(framed(DATA, &[1; 128]));
    // The second payload would end outside storage.
    stream.extend(framed(DATA, &[2; 128]));
    stream.extend(framed(END, &[]));
    let report = ImageReceiver::new().execute(0x10, &stream, &mut ram);
    assert_eq!(report.replies, vec![ACK, ACK, muload::image_receiver::NAK, ACK]);
    assert!(report.finished);
    assert!(!report.committed);
    assert_eq!(&ram.bytes()[0x380..0x400], &[1; 128]);
    assert!(ram.bytes()[..0x380].iter().all(|b| *b == 0));
}
