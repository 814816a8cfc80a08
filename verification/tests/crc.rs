use muload::crc::{check_crc, checksum_of, fold_byte, fold_bytes};
use muload::ram::RamFlasher;
use muload::{chunk_len, Flasher, ReadError, WriteError};

/// Storage of 32 KiB that delivers at most `step`
/// bytes per read and fails every read that touches `broken_at`.
struct FakeFlasher {
    memory: Vec<u8>,
    step: usize,
    broken_at: Option<usize>,
}

impl FakeFlasher {
    fn new() -> Self {
        FakeFlasher { memory: vec![0; 0x8000], step: usize::MAX, broken_at: None }
    }
}

impl Flasher for FakeFlasher {
    fn write(&mut self, destination: usize, data: &[u8]) -> Result<(), WriteError> {
        for (index, byte) in data.iter().enumerate() {
            self.memory[destination + index] = *byte;
        }
        Ok(())
    }

    fn read(&self, source_address: usize, destination: &mut [u8]) -> Result<usize, ReadError> {
        let count = destination.len().min(self.step);
        if source_address >= self.memory.len() {
            return Err(ReadError::AddressOutOfRange);
        }
        if source_address + count > self.memory.len() {
            return Err(ReadError::EndAddressOutOfRange);
        }
        if let Some(bad) = self.broken_at {
            if source_address <= bad && bad < source_address + count {
                return Err(ReadError::ReadFailed);
            }
        }
        for index in 0..count {
            destination[index] = self.memory[source_address + index];
        }
        Ok(count)
    }

    fn flush(&mut self) {}
}

fn copy_to_flasher(flasher: &mut FakeFlasher, data: &[u8]) {
    for (index, byte) in data.iter().enumerate() {
        flasher.memory[index] = *byte;
    }
}

/// Table-driven CRC-32, written independently of the library.
fn reference_crc32(bytes: &[u8]) -> u32 {
    let mut table = [0u32; 256];
    for n in 0..256u32 {
        let mut c = n;
        for _ in 0..8 {
            c = if c & 1 != 0 { 0xEDB8_8320 ^ (c >> 1) } else { c >> 1 };
        }
        table[n as usize] = c;
    }
    let mut crc = 0xFFFF_FFFFu32;
    for b in bytes {
        crc = table[((crc ^ (*b as u32)) & 0xFF) as usize] ^ (crc >> 8);
    }
    crc ^ 0xFFFF_FFFF
}

#[test]
fn can_calc_crc() {
    let mut fl = FakeFlasher::new();
    copy_to_flasher(&mut fl, &[0xAA, 0xBB, 0xCC, 0xDD, 0xEE, 0xFF, 0x11, 0x22]);
    assert!(true == check_crc(0, 8, 0x65133A42, &mut fl))
}

#[test]
fn crc_of_check_string() {
    assert_eq!(checksum_of(b"123456789"), 0xCBF4_3926);
    assert_eq!(checksum_of(&[]), 0);
    assert_eq!(checksum_of(&[0u8; 100]), 0x9988_C6CA);
}

#[test]
fn fold_byte_matches_known_register() {
    // One zero byte from the initial register.
    assert_eq!(fold_byte(0xFFFF_FFFF, 0x00) ^ 0xFFFF_FFFF, 0xD202_EF8D);
    assert_eq!(fold_bytes(0xFFFF_FFFF, &[0x00]) ^ 0xFFFF_FFFF, 0xD202_EF8D);
}

#[test]
fn folding_in_chunks_gives_the_same_register() {
    let data: Vec<u8> = (0..200u32).map(|i| (i * 7 + 3) as u8).collect();
    let whole = fold_bytes(0xFFFF_FFFF, &data);
    for cut in 0..data.len() {
        let head = fold_bytes(0xFFFF_FFFF, &data[..cut]);
        assert_eq!(fold_bytes(head, &data[cut..]), whole);
    }
}

#[test]
fn check_crc_agrees_with_reference_for_every_chunk_size() {
    let data: Vec<u8> = (0..300u32).map(|i| (i * 31 + 5) as u8).collect();
    for step in [1usize, 2, 3, 7, 63, 64, 65, 1000] {
        let mut fl = FakeFlasher::new();
        fl.step = step;
        for (i, b) in data.iter().enumerate() {
            fl.memory[0x100 + i] = *b;
        }
        for len in [0usize, 1, 5, 63, 64, 65, 128, 129, 300] {
            let expected = reference_crc32(&data[..len]) as usize;
            assert!(check_crc(0x100, len, expected, &fl));
            assert!(!check_crc(0x100, len, expected ^ 1, &fl));
        }
    }
}

#[test]
fn check_crc_fails_when_a_read_fails() {
    let mut fl = FakeFlasher::new();
    let expected = reference_crc32(&[0u8; 200]) as usize;
    assert!(check_crc(0, 200, expected, &fl));
    fl.broken_at = Some(150);
    assert!(!check_crc(0, 200, expected, &fl));
    // A range that ends before the broken byte is still readable in
    // chunks that stop short of it.
    fl.step = 1;
    let short = reference_crc32(&[0u8; 150]) as usize;
    assert!(check_crc(0, 150, short, &fl));
}

#[test]
fn check_crc_fails_past_the_end_of_storage() {
    let fl = FakeFlasher::new();
    assert!(!check_crc(0x7FFF, 2, 0, &fl));
    assert!(!check_crc(usize::MAX, 2, 0, &fl));
    assert!(!check_crc(usize::MAX - 1, usize::MAX, 0, &fl));
}

#[test]
fn check_crc_of_empty_range_reads_nothing() {
    let mut fl = FakeFlasher::new();
    fl.broken_at = Some(0);
    assert!(check_crc(0, 0, 0, &fl));
    assert!(check_crc(usize::MAX, 0, 0, &fl));
    assert!(!check_crc(0, 0, 1, &fl));
}

#[test]
fn check_crc_rejects_a_checksum_wider_than_32_bits() {
    let fl = FakeFlasher::new();
    if usize::BITS > 32 {
        let wide = (1usize << 32) | 0x9988_C6CA;
        assert!(!check_crc(0, 100, wide, &fl));
    }
    assert!(check_crc(0, 100, 0x9988_C6CA, &fl));
}

#[test]
fn chunk_len_decides_how_much_of_a_read_counts() {
    assert_eq!(chunk_len(&Ok(64), 64), Some(64));
    assert_eq!(chunk_len(&Ok(36), 36), Some(36));
    assert_eq!(chunk_len(&Ok(1), 36), Some(1));
    assert_eq!(chunk_len(&Ok(0), 36), None);
    assert_eq!(chunk_len(&Ok(37), 36), None);
    assert_eq!(chunk_len(&Ok(65), 64), None);
    assert_eq!(chunk_len(&Err(ReadError::ReadFailed), 64), None);
    assert_eq!(chunk_len(&Err(ReadError::AddressOutOfRange), 1), None);
}

/// Storage that keeps a log of the reads it is asked for.
struct LoggingFlasher {
    memory: Vec<u8>,
    reads: std::cell::RefCell<Vec<(usize, usize)>>,
}

impl Flasher for LoggingFlasher {
    fn write(&mut self, _destination: usize, _data: &[u8]) -> Result<(), WriteError> {
        Err(WriteError::AddressOutOfRange)
    }

    fn read(&self, source_address: usize, destination: &mut [u8]) -> Result<usize, ReadError> {
        self.reads.borrow_mut().push((source_address, destination.len()));
        if source_address + destination.len() > self.memory.len() {
            return Err(ReadError::EndAddressOutOfRange);
        }
        destination.copy_from_slice(
            &self.memory[source_address..source_address + destination.len()],
        );
        Ok(destination.len())
    }

    fn flush(&mut self) {}
}

#[test]
fn check_crc_asks_for_at_most_64_bytes_and_never_past_the_range() {
    let data: Vec<u8> = (0..150u32).map(|i| (i ^ 0x5A) as u8).collect();
    let fl = LoggingFlasher { memory: data.clone(), reads: Default::default() };
    assert!(check_crc(0, 150, reference_crc32(&data) as usize, &fl));
    assert_eq!(*fl.reads.borrow(), vec![(0, 64), (64, 64), (128, 22)]);

    fl.reads.borrow_mut().clear();
    assert!(check_crc(100, 50, reference_crc32(&data[100..]) as usize, &fl));
    assert_eq!(*fl.reads.borrow(), vec![(100, 50)]);

    fl.reads.borrow_mut().clear();
    assert!(!check_crc(100, 51, 0, &fl));
    assert_eq!(*fl.reads.borrow(), vec![(100, 51)]);
}

#[test]
fn check_crc_on_memory_storage() {
    let data: Vec<u8> = (0..1000u32).map(|i| (i * i) as u8).collect();
    let ram = RamFlasher::with_contents(data.clone());
    for (start, len) in [(0usize, 1000usize), (0, 0), (999, 1), (1000, 0), (936, 64), (1, 998)] {
        let expected = reference_crc32(&data[start..start + len]) as usize;
        assert!(check_crc(start, len, expected, &ram));
        assert!(!check_crc(start, len, expected + 1, &ram));
    }
    assert!(!check_crc(0, 1001, 0, &ram));
    assert!(!check_crc(1000, 1, 0, &ram));
}
