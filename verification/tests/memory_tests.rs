use vm_core::field::Felt;
use vm_core::memory::{address_key, Memory, MemoryImage, MemoryLogEntry, INITIAL_TIMESTAMP};

fn felts(values: &[u32]) -> Vec<Felt> {
    values.iter().map(|&v| Felt::from_u32(v)).collect()
}

fn values_of(cells: &[Felt]) -> Vec<u32> {
    cells.iter().map(|c| c.as_u32()).collect()
}

#[test]
fn test_write_read() {
    let mut memory = Memory::new();
    let address_space = 1;

    memory.write(address_space, 0, &felts(&[1, 2, 3, 4]));

    let (_, data) = memory.read(address_space, 0, 2);
    assert_eq!(data, felts(&[1, 2]));

    memory.write(address_space, 2, &felts(&[100]));

    let (_, data) = memory.read(address_space, 0, 4);
    assert_eq!(data, felts(&[1, 2, 100, 4]));
}

#[test]
fn test_read_after_write_roundtrip() {
    let mut memory = Memory::new();
    let written = felts(&[7, 11, 13, 17]);
    memory.write(3, 40, &written);
    let (_, data) = memory.read(3, 40, 4);
    assert_eq!(data, written);
}

#[test]
fn test_unwritten_cells_read_zero() {
    let mut memory = Memory::new();
    let (_, data) = memory.read(5, 1000, 8);
    assert_eq!(values_of(&data), vec![0; 8]);
    assert_eq!(memory.get(9, 12345).as_u32(), 0);
}

#[test]
fn test_power_of_two_enforcement() {
    let mut memory = Memory::new();
    for &len in &[0usize, 3, 5, 6, 7] {
        assert!(memory.try_read(1, 0, len).is_none(), "length {} must be rejected", len);
        assert!(memory.try_write(1, 0, &felts(&vec![0; len])).is_none());
    }
    // the rejected calls leave no trace
    assert_eq!(memory.timestamp(), INITIAL_TIMESTAMP + 1);
    assert_eq!(memory.log_len(), 0);
    for &len in &[1usize, 2, 4, 8] {
        assert!(memory.try_read(1, 0, len).is_some());
    }
}

#[test]
fn test_address_space_zero_returns_pointer() {
    let mut memory = Memory::new();
    // a prior write elsewhere changes nothing about the immediate space
    memory.write(1, 99, &felts(&[42]));
    let (_, data) = memory.read(0, 99, 1);
    assert_eq!(values_of(&data), vec![99]);
    // batched reads from address space 0 are rejected
    assert!(memory.try_read(0, 4, 2).is_none());
    assert!(memory.try_read(0, 4, 1).is_some());
}

#[test]
fn test_timestamp_monotonicity() {
    let mut memory = Memory::new();
    assert_eq!(memory.timestamp(), INITIAL_TIMESTAMP + 1);
    let k = 5;
    memory.write(1, 0, &felts(&[1]));
    memory.read(1, 0, 1);
    memory.write(2, 8, &felts(&[2, 3]));
    memory.read(2, 8, 2);
    memory.read(0, 7, 1);
    assert_eq!(memory.timestamp(), INITIAL_TIMESTAMP + 1 + k);
    assert_eq!(memory.log_len(), k as usize);

    let before = memory.log_len();
    memory.increment_timestamp_by(10);
    assert_eq!(memory.timestamp(), INITIAL_TIMESTAMP + 1 + k + 10);
    assert_eq!(memory.log_len(), before + 1);
    match memory.log().last().unwrap() {
        MemoryLogEntry::IncrementTimestampBy(d) => assert_eq!(*d, 10),
        other => panic!("expected an increment entry, got {:?}", other),
    }
}

#[test]
fn test_partial_overwrite_mixes_values() {
    let mut memory = Memory::new();
    memory.write(1, 0, &felts(&[10, 20, 30, 40]));
    memory.write(1, 2, &felts(&[31, 41]));
    let (_, data) = memory.read(1, 0, 4);
    assert_eq!(values_of(&data), vec![10, 20, 31, 41]);
}

#[test]
fn test_write_returns_previous_values() {
    let mut memory = Memory::new();
    memory.write(1, 4, &felts(&[1, 2]));
    let (_, prev) = memory.write(1, 4, &felts(&[8, 9]));
    assert_eq!(values_of(&prev), vec![1, 2]);
    let (_, prev2) = memory.write(1, 6, &felts(&[5]));
    assert_eq!(values_of(&prev2), vec![0]);
}

#[test]
fn test_from_image_keeps_cells_and_resets_log() {
    let mut memory = Memory::new();
    memory.write(2, 16, &felts(&[9, 8, 7, 6]));
    let image: MemoryImage = memory.into_image();
    assert_eq!(image.get(address_key(2, 17)).unwrap().as_u32(), 8);
    assert!(image.get(address_key(2, 20)).is_none());
    let mut resumed = Memory::from_image(image);
    assert_eq!(resumed.timestamp(), INITIAL_TIMESTAMP + 1);
    assert_eq!(resumed.log_len(), 0);
    let (_, data) = resumed.read(2, 16, 4);
    assert_eq!(values_of(&data), vec![9, 8, 7, 6]);
}
