use ntfs_volume::run_list::{absolute_lcns, decode_run_list, encode_run_list, DataRun};
use ntfs_volume::FormatError;

fn run(length: u64, offset: i64) -> DataRun {
    DataRun { length_in_clusters: length, cluster_offset: Some(offset), is_sparse: false }
}

fn hole(length: u64) -> DataRun {
    DataRun { length_in_clusters: length, cluster_offset: None, is_sparse: true }
}

#[test]
fn single_run_is_decoded() {
    let runs = decode_run_list(&[0x21, 0x18, 0x34, 0x56, 0x00]).unwrap();
    assert_eq!(runs, vec![run(0x18, 0x5634)]);
}

#[test]
fn empty_list_has_no_runs() {
    assert_eq!(decode_run_list(&[0x00]), Ok(vec![]));
    assert_eq!(decode_run_list(&[0x00, 0x21, 0x18]), Ok(vec![]));
}

#[test]
fn bytes_after_the_closing_zero_are_not_read() {
    let runs = decode_run_list(&[0x11, 0x05, 0x07, 0x00, 0xFF, 0xFF]).unwrap();
    assert_eq!(runs, vec![run(5, 7)]);
}

#[test]
fn fields_of_one_two_and_four_bytes_are_decoded() {
    let bytes = [
        0x11, 0x30, 0x20, // 0x30 clusters at +0x20
        0x22, 0x00, 0x01, 0x00, 0x10, // 0x100 clusters at +0x1000
        0x44, 0x78, 0x56, 0x34, 0x12, 0x00, 0x00, 0x00, 0x01, // at +0x01000000
        0x41, 0x01, 0xFF, 0xFF, 0xFF, 0x7F, // 1 cluster at +0x7FFFFFFF
        0x00,
    ];
    let runs = decode_run_list(&bytes).unwrap();
    assert_eq!(
        runs,
        vec![run(0x30, 0x20), run(0x100, 0x1000), run(0x1234_5678, 0x0100_0000), run(1, 0x7FFF_FFFF)]
    );
    assert_eq!(
        absolute_lcns(&runs),
        vec![Some(0x20), Some(0x1020), Some(0x0100_1020), Some(0x8100_101F)]
    );
}

#[test]
fn negative_offsets_are_sign_extended() {
    let bytes = [
        0x21, 0x10, 0x00, 0x02, // 16 clusters at +0x200
        0x11, 0x08, 0xF0, // 8 clusters at -16
        0x21, 0x04, 0x00, 0x80, // 4 clusters at -32768
        0x31, 0x02, 0xFF, 0xFF, 0xFF, // 2 clusters at -1
        0x00,
    ];
    let runs = decode_run_list(&bytes).unwrap();
    assert_eq!(runs, vec![run(16, 0x200), run(8, -16), run(4, -32768), run(2, -1)]);
    assert_eq!(
        absolute_lcns(&runs),
        vec![Some(0x200), Some(0x1F0), Some(0x1F0 - 32768), Some(0x1F0 - 32769)]
    );
}

#[test]
fn positive_offset_with_high_bit_needs_another_byte() {
    let runs = decode_run_list(&[0x21, 0x01, 0x80, 0x00, 0x00]).unwrap();
    assert_eq!(runs, vec![run(1, 128)]);
    let runs = decode_run_list(&[0x11, 0x01, 0x80, 0x00]).unwrap();
    assert_eq!(runs, vec![run(1, -128)]);
}

#[test]
fn sparse_run_has_no_offset() {
    let runs = decode_run_list(&[0x01, 0x40, 0x00]).unwrap();
    assert_eq!(runs, vec![hole(0x40)]);
    assert_eq!(absolute_lcns(&runs), vec![None]);
}

#[test]
fn sparse_run_in_the_middle_does_not_move_later_runs() {
    let with_hole = decode_run_list(&[
        0x11, 0x10, 0x64, // 16 clusters at 100
        0x01, 0x20, // 32 clusters of nothing
        0x11, 0x08, 0x32, // 8 clusters at +50
        0x11, 0x04, 0xF6, // 4 clusters at -10
        0x00,
    ])
    .unwrap();
    let without = decode_run_list(&[0x11, 0x10, 0x64, 0x11, 0x08, 0x32, 0x11, 0x04, 0xF6, 0x00]).unwrap();
    assert_eq!(with_hole, vec![run(16, 100), hole(32), run(8, 50), run(4, -10)]);
    assert_eq!(absolute_lcns(&with_hole), vec![Some(100), None, Some(150), Some(140)]);
    assert_eq!(absolute_lcns(&without), vec![Some(100), Some(150), Some(140)]);
}

#[test]
fn eight_byte_fields_are_decoded_in_full() {
    let mut bytes = vec![0x88];
    bytes.extend_from_slice(&u64::MAX.to_le_bytes());
    bytes.extend_from_slice(&i64::MIN.to_le_bytes());
    bytes.push(0x88);
    bytes.extend_from_slice(&1u64.to_le_bytes());
    bytes.extend_from_slice(&i64::MIN.to_le_bytes());
    bytes.push(0x00);
    let runs = decode_run_list(&bytes).unwrap();
    assert_eq!(runs, vec![run(u64::MAX, i64::MIN), run(1, i64::MIN)]);
    assert_eq!(
        absolute_lcns(&runs),
        vec![Some(i64::MIN as i128), Some(2 * (i64::MIN as i128))]
    );
}

#[test]
fn length_of_width_zero_is_zero() {
    let runs = decode_run_list(&[0x10, 0x05, 0x00]).unwrap();
    assert_eq!(runs, vec![run(0, 5)]);
}

#[test]
fn width_above_eight_is_invalid_run_header() {
    assert_eq!(decode_run_list(&[0x19, 0, 0, 0, 0, 0, 0, 0, 0, 0, 0, 0]), Err(FormatError::InvalidRunHeader));
    assert_eq!(decode_run_list(&[0x91, 0, 0, 0, 0, 0, 0, 0, 0, 0, 0, 0]), Err(FormatError::InvalidRunHeader));
    assert_eq!(decode_run_list(&[0xFF]), Err(FormatError::InvalidRunHeader));
    assert_eq!(decode_run_list(&[0x11, 0x01, 0x01, 0x0F, 0x00]), Err(FormatError::InvalidRunHeader));
}

#[test]
fn field_past_the_end_is_truncated() {
    assert_eq!(decode_run_list(&[0x21, 0x18, 0x34]), Err(FormatError::Truncated));
    assert_eq!(decode_run_list(&[0x21]), Err(FormatError::Truncated));
    assert_eq!(decode_run_list(&[0x88, 1, 2, 3, 4, 5, 6, 7, 8, 1, 2, 3, 4, 5, 6, 7]), Err(FormatError::Truncated));
}

#[test]
fn list_without_closing_zero_is_truncated() {
    assert_eq!(decode_run_list(&[]), Err(FormatError::Truncated));
    assert_eq!(decode_run_list(&[0x21, 0x18, 0x34, 0x56]), Err(FormatError::Truncated));
}

#[test]
fn encoded_runs_decode_to_themselves() {
    let runs = vec![
        run(0x30, 0x20),
        run(0x100, 0x1000),
        hole(7),
        run(0x1234_5678, -0x0100_0000),
        run(1, 0),
        run(0, -1),
        hole(0),
        run(u64::MAX, i64::MAX),
        run(0x1_0000_0000, i64::MIN),
        run(255, 127),
        run(256, 128),
        run(65535, -128),
        run(65536, -129),
    ];
    let bytes = encode_run_list(&runs);
    assert_eq!(decode_run_list(&bytes), Ok(runs.clone()));
    assert_eq!(absolute_lcns(&decode_run_list(&bytes).unwrap()), absolute_lcns(&runs));
}

#[test]
fn encoding_uses_the_least_widths() {
    assert_eq!(encode_run_list(&vec![]), vec![0x00]);
    assert_eq!(encode_run_list(&vec![run(0x18, 0x5634)]), vec![0x21, 0x18, 0x34, 0x56, 0x00]);
    assert_eq!(encode_run_list(&vec![hole(0x40)]), vec![0x01, 0x40, 0x00]);
    assert_eq!(encode_run_list(&vec![hole(0)]), vec![0x01, 0x00, 0x00]);
    assert_eq!(encode_run_list(&vec![run(8, -16)]), vec![0x11, 0x08, 0xF0, 0x00]);
    assert_eq!(encode_run_list(&vec![run(1, 128)]), vec![0x21, 0x01, 0x80, 0x00, 0x00]);
}

#[test]
fn decoding_a_run_list_twice_gives_the_same() {
    let bytes = vec![0x21, 0x10, 0x00, 0x02, 0x01, 0x05, 0x11, 0x08, 0xF0, 0x00];
    let copy = bytes.clone();
    assert_eq!(decode_run_list(&bytes), decode_run_list(&bytes));
    assert_eq!(bytes, copy);
}
