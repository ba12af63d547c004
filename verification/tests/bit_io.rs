use dolby_vision::bitvec_reader::BitVecReader;
use dolby_vision::bitvec_writer::BitVecWriter;
use dolby_vision::commands::{Command, Conflict};
use dolby_vision::crc32::{compute_crc32, compute_crc32_range};
use dolby_vision::error::RpuError;

#[test]
fn reads_bits_most_significant_first() {
    let mut reader = BitVecReader::new(&vec![0b1010_0000, 0xff]);
    assert_eq!(reader.get(), Ok(true));
    assert_eq!(reader.get(), Ok(false));
    assert!(!reader.is_aligned());
    assert_eq!(reader.get_n(6), Ok(0b10_0000));
    assert!(reader.is_aligned());
    assert_eq!(reader.byte_offset(), 1);
    assert_eq!(reader.available(), 8);
    assert_eq!(reader.get_n(8), Ok(255));
    assert_eq!(reader.get(), Err(RpuError::Truncated));
}

#[test]
fn a_failed_read_leaves_the_cursor() {
    let mut reader = BitVecReader::new(&vec![0b1100_0000]);
    assert_eq!(reader.get_n(3), Ok(0b110));
    assert_eq!(reader.get_n(6), Err(RpuError::Truncated));
    assert_eq!(reader.available(), 5);
    assert_eq!(reader.get_n(5), Ok(0));
}

#[test]
fn reads_32_bits_at_once() {
    let mut reader = BitVecReader::new(&vec![0xde, 0xad, 0xbe, 0xef]);
    assert_eq!(reader.get_n(32), Ok(0xdead_beef));
    assert_eq!(reader.get_n(0), Ok(0));
}

#[test]
fn reads_exp_golomb_codes() {
    // 1 | 010 | 011 | 00100 | 0001000
    let mut reader = BitVecReader::new(&vec![0b1010_0110, 0b0100_0001, 0b0000_0000]);
    assert_eq!(reader.get_ue(), Ok(0));
    assert_eq!(reader.get_ue(), Ok(1));
    assert_eq!(reader.get_ue(), Ok(2));
    assert_eq!(reader.get_ue(), Ok(3));
    assert_eq!(reader.get_ue(), Ok(7));
}

#[test]
fn exp_golomb_of_only_zeros_is_truncated() {
    let mut reader = BitVecReader::new(&vec![0, 0]);
    assert_eq!(reader.get_ue(), Err(RpuError::Truncated));
    assert_eq!(reader.available(), 16);
}

#[test]
fn exp_golomb_of_33_zeros_is_malformed() {
    let mut reader = BitVecReader::new(&vec![0, 0, 0, 0, 0b0100_0000, 0, 0, 0, 0]);
    assert_eq!(reader.get_ue(), Err(RpuError::MalformedExpGolomb));
}

#[test]
fn exp_golomb_of_32_zeros_is_read() {
    // 32 zeros, then 1 and 32 more bits: the value is 2^32 - 1 + 5
    let mut writer = BitVecWriter::new();
    writer.write_ue(0xffff_ffff + 5);
    assert_eq!(writer.len(), 65);
    let mut reader = BitVecReader::from_bits(writer.bits().clone());
    assert_eq!(reader.get_ue(), Ok(0xffff_ffff + 5));
    assert_eq!(reader.available(), 0);
}

#[test]
fn writes_exp_golomb_codes() {
    let mut writer = BitVecWriter::new();
    writer.write_ue(0);
    writer.write_ue(1);
    writer.write_ue(2);
    writer.write_ue(3);
    // 1 010 011 00100
    assert_eq!(writer.len(), 12);
    assert!(!writer.is_aligned());
    assert_eq!(writer.as_bytes(), vec![0b1010_0110, 0b0100_0000]);
}

#[test]
fn writes_the_lowest_bits_of_a_number() {
    let mut writer = BitVecWriter::new();
    writer.write_n(0xabc, 8);
    writer.write(true);
    writer.write_n(5, 3);
    writer.write_zeros(4);
    assert!(writer.is_aligned());
    assert_eq!(writer.as_bytes(), vec![0xbc, 0b1101_0000]);
}

#[test]
fn writes_the_greatest_exp_golomb_code() {
    let mut writer = BitVecWriter::new();
    writer.write_ue(u64::MAX);
    assert_eq!(writer.len(), 129);
    let bits = writer.bits();
    assert!(bits[..64].iter().all(|b| !*b));
    assert!(bits[64]);
    assert!(bits[65..].iter().all(|b| !*b));
}

#[test]
fn numbers_that_are_written_are_read_back() {
    let mut writer = BitVecWriter::new();
    for value in [0u64, 1, 2, 5, 31, 32, 1000, 65535, 1 << 20] {
        writer.write_ue(value);
        writer.write_n(value, 21);
    }
    let mut reader = BitVecReader::from_bits(writer.bits().clone());
    for value in [0u64, 1, 2, 5, 31, 32, 1000, 65535, 1 << 20] {
        assert_eq!(reader.get_ue(), Ok(value));
        assert_eq!(reader.get_n(21), Ok(value as u32));
    }
    assert_eq!(reader.available(), 0);
}

#[test]
fn bits_are_read_as_they_stand() {
    let mut reader = BitVecReader::new(&vec![0b1011_0000]);
    assert_eq!(reader.get_bits(4), Ok(vec![true, false, true, true]));
    assert_eq!(reader.get_bits(5), Err(RpuError::Truncated));
    assert_eq!(reader.get_bits(4), Ok(vec![false; 4]));
}

#[test]
fn crc32_of_the_check_string() {
    let data: Vec<u8> = "123456789".bytes().collect();
    assert_eq!(compute_crc32(&data), 0x0376_E6E7);
}

#[test]
fn crc32_of_nothing_is_the_start_value() {
    assert_eq!(compute_crc32(&vec![]), 0xFFFF_FFFF);
}

#[test]
fn crc32_of_a_range() {
    let data: Vec<u8> = "x123456789yz".bytes().collect();
    assert_eq!(compute_crc32_range(&data, 1, 10), 0x0376_E6E7);
}

#[test]
fn arguments_that_exclude_each_other_are_found() {
    let path = || Some("a".to_string());
    let generate = |json_file, xml, madvr_file| Command::Generate {
        json_file,
        rpu_out: None,
        hdr10plus_json: path(),
        xml,
        canvas_width: None,
        canvas_height: None,
        madvr_file,
        use_custom_targets: true,
    };
    assert_eq!(generate(path(), path(), path()).conflict(), Some(Conflict::JsonAndXml));
    assert_eq!(generate(path(), None, path()).conflict(), Some(Conflict::JsonAndMadvr));
    assert_eq!(generate(None, path(), path()).conflict(), None);
    assert_eq!(generate(path(), None, None).conflict(), None);
    let demux = |input, stdin| Command::Demux { input, stdin, bl_out: None, el_out: None, el_only: false };
    assert_eq!(demux(path(), path()).conflict(), Some(Conflict::InputAndStdin));
    assert_eq!(demux(path(), None).conflict(), None);
    assert_eq!(demux(None, None).conflict(), None);
    assert_eq!(
        Command::Convert { input: path(), stdin: path(), output: None, discard: false }.conflict(),
        Some(Conflict::InputAndStdin)
    );
    assert_eq!(
        Command::ExtractRpu { input: path(), stdin: path(), rpu_out: None }.conflict(),
        Some(Conflict::InputAndStdin)
    );
    assert_eq!(Command::Info { input: "a".to_string(), frame: None }.conflict(), None);
}
