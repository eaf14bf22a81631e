use ntfs_volume::file_record::{
    apply_fixup, decode_file_record, FileRecord, FileRecordHeader, FileReference,
};
use ntfs_volume::master_file_table::attribute::{Attribute, AttributeHeader};
use ntfs_volume::FormatError;

const END: [u8; 4] = [0xFF, 0xFF, 0xFF, 0xFF];

fn resident(type_code: u32, id: u16, data: &[u8]) -> Vec<u8> {
    let length = (0x18 + data.len() + 7) / 8 * 8;
    let mut bytes = vec![0u8; length];
    bytes[0x00..0x04].copy_from_slice(&type_code.to_le_bytes());
    bytes[0x04..0x08].copy_from_slice(&(length as u32).to_le_bytes());
    bytes[0x0A..0x0C].copy_from_slice(&0x18u16.to_le_bytes());
    bytes[0x0E..0x10].copy_from_slice(&id.to_le_bytes());
    bytes[0x10..0x14].copy_from_slice(&(data.len() as u32).to_le_bytes());
    bytes[0x14..0x16].copy_from_slice(&0x18u16.to_le_bytes());
    bytes[0x18..0x18 + data.len()].copy_from_slice(data);
    bytes
}

/// A record as it stands in memory before it is written: header, update
/// sequence with room for `size / 512` words, attributes.
fn plain_record(size: usize, usa_offset: usize, attributes: &[u8]) -> Vec<u8> {
    let sectors = size / 512;
    let first = (usa_offset + 2 * (sectors + 1) + 7) / 8 * 8;
    let mut record = vec![0u8; size];
    record[0..4].copy_from_slice(b"FILE");
    record[0x04..0x06].copy_from_slice(&(usa_offset as u16).to_le_bytes());
    record[0x06..0x08].copy_from_slice(&((sectors + 1) as u16).to_le_bytes());
    record[0x08..0x10].copy_from_slice(&0x0102_0304_0506_0708u64.to_le_bytes());
    record[0x10..0x12].copy_from_slice(&7u16.to_le_bytes());
    record[0x12..0x14].copy_from_slice(&2u16.to_le_bytes());
    record[0x14..0x16].copy_from_slice(&(first as u16).to_le_bytes());
    record[0x16..0x18].copy_from_slice(&0x0003u16.to_le_bytes());
    record[0x18..0x1C].copy_from_slice(&((first + attributes.len()) as u32).to_le_bytes());
    record[0x1C..0x20].copy_from_slice(&(size as u32).to_le_bytes());
    record[0x20..0x28].copy_from_slice(&0x0009_0000_0000_0123u64.to_le_bytes());
    record[0x28..0x2A].copy_from_slice(&5u16.to_le_bytes());
    if usa_offset >= 0x30 {
        record[0x2C..0x30].copy_from_slice(&42u32.to_le_bytes());
    }
    record[first..first + attributes.len()].copy_from_slice(attributes);
    record
}

/// What writing does to a record: the tail of each sector goes to the
/// update sequence, and the update sequence number takes its place.
fn stamp(record: &mut [u8], usn: [u8; 2]) {
    let usa_offset = u16::from_le_bytes([record[4], record[5]]) as usize;
    record[usa_offset..usa_offset + 2].copy_from_slice(&usn);
    for k in 0..record.len() / 512 {
        let tail = 512 * k + 510;
        let kept = usa_offset + 2 * (k + 1);
        record[kept] = record[tail];
        record[kept + 1] = record[tail + 1];
        record[tail] = usn[0];
        record[tail + 1] = usn[1];
    }
}

fn long_attributes() -> Vec<u8> {
    let mut attributes = resident(0x10, 0, &(0u8..48).collect::<Vec<u8>>());
    attributes.extend(resident(0x30, 1, &(0..70).map(|i| (3 * i) as u8).collect::<Vec<u8>>()));
    attributes.extend(resident(0x80, 2, &(0..600).map(|i| (i % 251) as u8 + 1).collect::<Vec<u8>>()));
    attributes.extend(END);
    attributes
}

#[test]
fn written_record_decodes_to_what_was_written() {
    let attributes = long_attributes();
    let mut record = plain_record(1024, 0x30, &attributes);
    stamp(&mut record, [0x5A, 0xA5]);
    let decoded = decode_file_record(&record).unwrap();
    assert_eq!(
        decoded.header,
        FileRecordHeader {
            logfile_sequence_number: 0x0102_0304_0506_0708,
            sequence_number: 7,
            hard_link_count: 2,
            flags: 3,
            real_size: 0x38 + attributes.len() as u32,
            allocated_size: 1024,
            base_file_reference: FileReference { entry: 0x123, sequence: 9 },
            next_attribute_id: 5,
            record_number: Some(42),
        }
    );
    assert!(decoded.terminated);
    assert_eq!(decoded.attributes.len(), 3);
    assert_eq!(
        decoded.attributes[2],
        Attribute::Resident {
            header: AttributeHeader { type_code: 0x80, name: None, flags: 0, attribute_id: 2 },
            data: (0..600).map(|i| (i % 251) as u8 + 1).collect(),
        }
    );
    assert!(decoded.header.is_in_use());
    assert!(decoded.header.is_directory());
    assert!(!decoded.header.is_base());
}

#[test]
fn fixup_restores_the_tails_and_nothing_else() {
    for sectors in [1usize, 2, 4, 8] {
        let size = 512 * sectors;
        let mut plain = plain_record(size, 0x30, &END);
        for (i, byte) in plain.iter_mut().enumerate().skip(0x60) {
            *byte = (i * 7 + 1) as u8;
        }
        let mut written = plain.clone();
        stamp(&mut written, [0x34, 0x12]);
        let copy = written.clone();
        let fixed = apply_fixup(&written).unwrap();
        assert_eq!(written, copy);
        assert_eq!(fixed.len(), size);
        let usa_offset = 0x30;
        for k in 0..sectors {
            assert_eq!(written[512 * k + 510..512 * k + 512], [0x34, 0x12]);
            assert_eq!(fixed[512 * k + 510..512 * k + 512], plain[512 * k + 510..512 * k + 512]);
            assert_eq!(
                fixed[512 * k + 510..512 * k + 512],
                written[usa_offset + 2 * (k + 1)..usa_offset + 2 * (k + 1) + 2]
            );
        }
        for i in 0..size {
            if i % 512 < 510 {
                assert_eq!(fixed[i], written[i]);
            }
        }
        plain[usa_offset..usa_offset + 2 * (sectors + 1)]
            .copy_from_slice(&written[usa_offset..usa_offset + 2 * (sectors + 1)]);
        assert_eq!(fixed, plain);
    }
}

#[test]
fn torn_sector_is_bad_fixup() {
    for sectors in [1usize, 2, 4, 8] {
        for torn in 0..sectors {
            for byte in 0..2 {
                let mut record = plain_record(512 * sectors, 0x30, &END);
                stamp(&mut record, [0x34, 0x12]);
                assert!(decode_file_record(&record).is_ok());
                record[512 * torn + 510 + byte] ^= 0x01;
                assert_eq!(apply_fixup(&record), Err(FormatError::BadFixup));
                assert_eq!(decode_file_record(&record), Err(FormatError::BadFixup));
            }
        }
    }
}

#[test]
fn update_sequence_of_the_wrong_length_is_bad_fixup() {
    let mut record = plain_record(1024, 0x30, &END);
    stamp(&mut record, [0x34, 0x12]);
    for words in [0u16, 1, 2, 4] {
        record[0x06..0x08].copy_from_slice(&words.to_le_bytes());
        assert_eq!(decode_file_record(&record), Err(FormatError::BadFixup));
    }
    record[0x06..0x08].copy_from_slice(&3u16.to_le_bytes());
    assert!(decode_file_record(&record).is_ok());
}

#[test]
fn update_sequence_that_reaches_a_tail_is_bad_fixup() {
    let mut record = plain_record(1024, 504, &[]);
    record[0x14..0x16].copy_from_slice(&0x38u16.to_le_bytes());
    record[0x18..0x1C].copy_from_slice(&0x38u32.to_le_bytes());
    stamp(&mut record, [0x34, 0x12]);
    assert!(apply_fixup(&record).is_ok());
    let mut record = plain_record(1024, 505, &[]);
    stamp(&mut record, [0x34, 0x12]);
    assert_eq!(apply_fixup(&record), Err(FormatError::BadFixup));
    assert_eq!(decode_file_record(&record), Err(FormatError::BadFixup));
}

#[test]
fn record_not_made_of_whole_sectors_is_truncated() {
    let mut record = plain_record(1024, 0x30, &END);
    stamp(&mut record, [0x34, 0x12]);
    assert_eq!(decode_file_record(&record[..1023]), Err(FormatError::Truncated));
    assert_eq!(decode_file_record(&record[..600]), Err(FormatError::Truncated));
    assert_eq!(decode_file_record(&record[..4]), Err(FormatError::Truncated));
    assert_eq!(decode_file_record(&record[..3]), Err(FormatError::Truncated));
    assert_eq!(decode_file_record(&[]), Err(FormatError::Truncated));
    assert_eq!(apply_fixup(&[]), Err(FormatError::Truncated));
    assert_eq!(apply_fixup(&record[..100]), Err(FormatError::Truncated));
}

#[test]
fn baad_record_is_corrupt() {
    let mut record = plain_record(1024, 0x30, &END);
    stamp(&mut record, [0x34, 0x12]);
    record[0..4].copy_from_slice(b"BAAD");
    assert_eq!(decode_file_record(&record), Err(FormatError::Corrupt));
    assert_eq!(decode_file_record(b"BAAD"), Err(FormatError::Corrupt));
    record[510] = 0;
    assert_eq!(decode_file_record(&record), Err(FormatError::Corrupt));
}

#[test]
fn other_magic_is_bad_magic() {
    let mut record = plain_record(1024, 0x30, &END);
    stamp(&mut record, [0x34, 0x12]);
    for magic in [b"INDX", b"file", b"FILF", b"\0\0\0\0", b"BAAE"] {
        record[0..4].copy_from_slice(magic);
        assert_eq!(decode_file_record(&record), Err(FormatError::BadMagic));
    }
    assert_eq!(decode_file_record(b"RCRD"), Err(FormatError::BadMagic));
}

#[test]
fn sizes_out_of_order_are_truncated() {
    let attributes = long_attributes();
    let mut record = plain_record(1024, 0x30, &attributes);
    record[0x1C..0x20].copy_from_slice(&1025u32.to_le_bytes());
    stamp(&mut record, [0x34, 0x12]);
    assert_eq!(decode_file_record(&record), Err(FormatError::Truncated));
    let mut record = plain_record(1024, 0x30, &attributes);
    record[0x1C..0x20].copy_from_slice(&0x100u32.to_le_bytes());
    stamp(&mut record, [0x34, 0x12]);
    assert_eq!(decode_file_record(&record), Err(FormatError::Truncated));
    let mut record = plain_record(1024, 0x30, &attributes);
    record[0x18..0x1C].copy_from_slice(&0x37u32.to_le_bytes());
    stamp(&mut record, [0x34, 0x12]);
    assert_eq!(decode_file_record(&record), Err(FormatError::Truncated));
}

#[test]
fn real_size_bounds_the_attributes() {
    let attributes = long_attributes();
    let mut record = plain_record(1024, 0x30, &attributes);
    record[0x18..0x1C].copy_from_slice(&(0x38 + attributes.len() as u32 - 4).to_le_bytes());
    stamp(&mut record, [0x34, 0x12]);
    let decoded = decode_file_record(&record).unwrap();
    assert_eq!(decoded.attributes.len(), 3);
    assert!(!decoded.terminated);
    let mut record = plain_record(1024, 0x30, &attributes);
    record[0x18..0x1C].copy_from_slice(&(0x38 + attributes.len() as u32 - 5).to_le_bytes());
    stamp(&mut record, [0x34, 0x12]);
    assert_eq!(decode_file_record(&record), Err(FormatError::Truncated));
    let mut record = plain_record(1024, 0x30, &attributes);
    record[0x18..0x1C].copy_from_slice(&0x38u32.to_le_bytes());
    stamp(&mut record, [0x34, 0x12]);
    let decoded = decode_file_record(&record).unwrap();
    assert_eq!(decoded.attributes.len(), 0);
    assert!(!decoded.terminated);
}

#[test]
fn attribute_across_a_sector_tail_gets_its_bytes_back() {
    let attributes = long_attributes();
    let mut record = plain_record(1024, 0x30, &attributes);
    assert_ne!(record[510], 0);
    let plain = record.clone();
    stamp(&mut record, [0x00, 0x00]);
    assert_ne!(record[510..512], plain[510..512]);
    let decoded = decode_file_record(&record).unwrap();
    match &decoded.attributes[2] {
        Attribute::Resident { data, .. } => {
            assert_eq!(data.len(), 600);
            assert_eq!(data[..], plain[0x38 + 72 + 96 + 0x18..0x38 + 72 + 96 + 0x18 + 600]);
        }
        Attribute::NonResident { .. } => panic!("the attribute is resident"),
    }
}

#[test]
fn short_header_layout_has_no_record_number() {
    let mut record = plain_record(1024, 0x2A, &END);
    stamp(&mut record, [0x34, 0x12]);
    let decoded = decode_file_record(&record).unwrap();
    assert_eq!(decoded.header.record_number, None);
    assert_eq!(decoded.attributes.len(), 0);
    assert!(decoded.terminated);
}

#[test]
fn base_record_has_a_null_base_reference() {
    let mut record = plain_record(1024, 0x30, &END);
    record[0x20..0x28].copy_from_slice(&0u64.to_le_bytes());
    record[0x16..0x18].copy_from_slice(&0x0001u16.to_le_bytes());
    stamp(&mut record, [0x34, 0x12]);
    let decoded = decode_file_record(&record).unwrap();
    assert!(decoded.header.is_base());
    assert!(decoded.header.is_in_use());
    assert!(!decoded.header.is_directory());
    assert!(decoded.header.base_file_reference.is_null());
}

#[test]
fn file_reference_packs_entry_and_sequence() {
    let reference = FileReference::from_raw(0xABCD_0123_4567_89AB);
    assert_eq!(reference, FileReference { entry: 0x0123_4567_89AB, sequence: 0xABCD });
    assert_eq!(reference.to_raw(), 0xABCD_0123_4567_89AB);
    assert_eq!(FileReference::from_raw(u64::MAX).to_raw(), u64::MAX);
    assert_eq!(FileReference::from_raw(0), FileReference { entry: 0, sequence: 0 });
    assert!(FileReference::from_raw(0).is_null());
    assert!(!FileReference::from_raw(1 << 48).is_null());
    assert_ne!(FileReference { entry: 5, sequence: 1 }, FileReference { entry: 5, sequence: 2 });
    assert_ne!(FileReference { entry: 5, sequence: 1 }, FileReference { entry: 6, sequence: 1 });
}

#[test]
fn reference_with_another_sequence_number_is_stale() {
    let mut record = plain_record(1024, 0x30, &END);
    stamp(&mut record, [0x34, 0x12]);
    let header = decode_file_record(&record).unwrap().header;
    assert_eq!(header.sequence_number, 7);
    assert!(!FileReference { entry: 42, sequence: 7 }.is_stale_for(&header));
    assert!(FileReference { entry: 42, sequence: 6 }.is_stale_for(&header));
}

#[test]
fn decoding_a_record_twice_gives_the_same() {
    let mut record = plain_record(2048, 0x30, &long_attributes());
    stamp(&mut record, [0x77, 0x01]);
    let copy = record.clone();
    let first: Result<FileRecord, FormatError> = decode_file_record(&record);
    let second = decode_file_record(&record);
    assert!(first.is_ok());
    assert_eq!(first, second);
    assert_eq!(record, copy);
    record[510] ^= 0xFF;
    let copy = record.clone();
    assert_eq!(decode_file_record(&record), decode_file_record(&record));
    assert_eq!(record, copy);
}
