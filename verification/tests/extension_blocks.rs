use dolby_vision::bitvec_reader::BitVecReader;
use dolby_vision::bitvec_writer::BitVecWriter;
use dolby_vision::blocks::{
    i13_code, i13_value, BlockInfo, BlockKind, ExtMetadataBlock, ExtMetadataBlockLevel1,
    ExtMetadataBlockLevel2, ExtMetadataBlockLevel3, ExtMetadataBlockLevel4, ExtMetadataBlockLevel5,
    ExtMetadataBlockLevel6, ExtMetadataBlockLevel8, ExtMetadataBlockLevel9,
    ReservedExtMetadataBlock,
};
use dolby_vision::error::RpuError;

fn written(block: &ExtMetadataBlock) -> Vec<bool> {
    let mut writer = BitVecWriter::new();
    block.write(&mut writer);
    writer.bits().clone()
}

fn read_back(block: &ExtMetadataBlock) -> ExtMetadataBlock {
    let mut reader = BitVecReader::from_bits(written(block));
    let parsed = ExtMetadataBlock::parse(&mut reader).unwrap();
    assert_eq!(reader.available(), 0);
    parsed
}

#[test]
fn the_levels_have_their_lengths() {
    let table = [
        (1u8, BlockKind::Level1, 5u64, 36u64),
        (2, BlockKind::Level2, 11, 85),
        (3, BlockKind::Level3, 2, 36),
        (4, BlockKind::Level4, 3, 24),
        (5, BlockKind::Level5, 7, 52),
        (6, BlockKind::Level6, 8, 64),
        (8, BlockKind::Level8, 10, 80),
        (9, BlockKind::Level9, 1, 8),
    ];
    for (level, kind, length, bits) in table {
        assert_eq!(BlockKind::of_level(level), kind);
        assert_eq!(kind.nominal_length(), length);
        assert_eq!(kind.payload_bits(), bits);
        assert!(kind.length_allowed(length));
        assert_eq!(kind.length_allowed(length + 1), level == 8);
        let widths: u64 = kind
            .layout_vec()
            .iter()
            .map(|f| match f {
                dolby_vision::fields::FieldKind::Bits(n) => *n as u64,
                dolby_vision::fields::FieldKind::Ue => 0,
            })
            .sum();
        assert_eq!(widths, bits);
    }
    assert_eq!(BlockKind::of_level(7), BlockKind::Reserved);
    assert_eq!(BlockKind::of_level(0), BlockKind::Reserved);
    assert_eq!(BlockKind::of_level(255), BlockKind::Reserved);
}

#[test]
fn level1_is_written_bit_by_bit() {
    let block = ExtMetadataBlock::Level1(ExtMetadataBlockLevel1::from_stats(1, 0xfff, 0x800));
    let mut writer = BitVecWriter::new();
    block.write(&mut writer);
    // ue(5) = 00110, level 00000001, 000000000001, 111111111111, 100000000000, 0000
    assert_eq!(writer.len(), 5 + 8 + 36 + 4);
    assert_eq!(
        writer.as_bytes(),
        vec![0b0011_0000, 0b0000_1000, 0b0000_0000, 0b1111_1111, 0b1111_1100, 0b0000_0000, 0b0000_0000]
    );
}

#[test]
fn every_level_is_read_back() {
    let blocks = vec![
        ExtMetadataBlock::Level1(ExtMetadataBlockLevel1::from_stats(7, 3079, 1200)),
        ExtMetadataBlock::Level2(ExtMetadataBlockLevel2::from_trims(2851, 1, 2, 3, 4, 4095, -7)),
        ExtMetadataBlock::Level3(ExtMetadataBlockLevel3::from_offsets(2048, 2049, 2047)),
        ExtMetadataBlock::Level4(ExtMetadataBlockLevel4 {
            block_info: BlockInfo::for_kind(BlockKind::Level4, 4),
            anchor_pq: 100,
            anchor_power: 200,
        }),
        ExtMetadataBlock::Level5(ExtMetadataBlockLevel5::from_offsets(0, 0, 275, 276)),
        ExtMetadataBlock::Level6(ExtMetadataBlockLevel6::from_levels(1000, 1, 1000, 400)),
        ExtMetadataBlock::Level8(ExtMetadataBlockLevel8::from_trims(3, 2048, 2048, 2048, 2048, 2048, 2048)),
        ExtMetadataBlock::Level9(ExtMetadataBlockLevel9::from_index(2)),
    ];
    for block in &blocks {
        assert_eq!(&read_back(block), block);
        assert_eq!(block.duplicate(), *block);
    }
}

#[test]
fn the_signed_weight_of_level2_has_13_bits() {
    assert_eq!(i13_code(-1), 0x1fff);
    assert_eq!(i13_code(-4096), 0x1000);
    assert_eq!(i13_code(4095), 0x0fff);
    assert_eq!(i13_value(0x1fff), -1);
    assert_eq!(i13_value(0x1000), -4096);
    assert_eq!(i13_value(0x0fff), 4095);
    for value in [-4096i16, -1, 0, 1, 2048, 4095] {
        assert_eq!(i13_value(i13_code(value)), value);
    }
}

#[test]
fn fields_are_cut_to_their_places() {
    let block = ExtMetadataBlock::Level5(ExtMetadataBlockLevel5::from_offsets(0x2001, 0, 0, 0xffff));
    let expected = ExtMetadataBlock::Level5(ExtMetadataBlockLevel5::from_offsets(1, 0, 0, 0x1fff));
    assert_eq!(read_back(&block), expected);
}

#[test]
fn a_reserved_block_is_kept_as_it_came() {
    // level 7, two bytes that are not zero
    let bits: Vec<bool> = [0u8, 1, 1, 0, 0, 0, 0, 0, 1, 1, 1]
        .iter()
        .map(|b| *b == 1)
        .chain([0xa5u8, 0x3c].iter().flat_map(|byte| (0..8).map(move |i| byte >> (7 - i) & 1 == 1)))
        .collect();
    let mut reader = BitVecReader::from_bits(bits.clone());
    let block = ExtMetadataBlock::parse(&mut reader).unwrap();
    match &block {
        ExtMetadataBlock::Reserved(b) => {
            assert_eq!(b.block_info.ext_block_level, 7);
            assert_eq!(b.block_info.ext_block_length, 2);
            assert_eq!(b.block_info.remaining.len(), 16);
        }
        _ => panic!("not reserved"),
    }
    assert_eq!(block.kind(), BlockKind::Reserved);
    assert_eq!(written(&block), bits);
}

#[test]
fn padding_of_a_known_level_is_written_as_zeros() {
    let mut block = ExtMetadataBlockLevel1::from_stats(1, 2, 3);
    block.block_info.remaining = vec![true, false, true, true];
    let parsed = read_back(&ExtMetadataBlock::Level1(block));
    assert_eq!(parsed, ExtMetadataBlock::Level1(ExtMetadataBlockLevel1::from_stats(1, 2, 3)));
}

#[test]
fn a_wrong_length_is_reported() {
    // ue(4) = 00101, level 1
    let bits: Vec<bool> = [0u8, 0, 1, 0, 1, 0, 0, 0, 0, 0, 0, 0, 1]
        .iter()
        .map(|b| *b == 1)
        .chain(std::iter::repeat(false).take(64))
        .collect();
    let mut reader = BitVecReader::from_bits(bits);
    assert_eq!(
        ExtMetadataBlock::parse(&mut reader),
        Err(RpuError::UnexpectedExtBlockLength { level: 1, got: 4, want: 5 })
    );
}

#[test]
fn a_short_level8_is_reported_and_a_long_one_is_read() {
    let mut writer = BitVecWriter::new();
    writer.write_ue(9);
    writer.write_n(8, 8);
    writer.write_zeros(100);
    let mut reader = BitVecReader::from_bits(writer.bits().clone());
    assert_eq!(
        ExtMetadataBlock::parse(&mut reader),
        Err(RpuError::UnexpectedExtBlockLength { level: 8, got: 9, want: 10 })
    );

    let mut long = ExtMetadataBlockLevel8::from_trims(1, 2, 3, 4, 5, 6, 7);
    long.block_info = BlockInfo::new(BlockKind::Level8, 8, 12);
    assert_eq!(long.block_info.remaining.len(), 16);
    let block = ExtMetadataBlock::Level8(long);
    assert_eq!(read_back(&block), block);
}

#[test]
fn a_block_that_ends_early_is_truncated() {
    let block = ExtMetadataBlock::Level6(ExtMetadataBlockLevel6::from_levels(1, 2, 3, 4));
    let mut bits = written(&block);
    bits.pop();
    let mut reader = BitVecReader::from_bits(bits);
    assert_eq!(ExtMetadataBlock::parse(&mut reader), Err(RpuError::Truncated));
    let mut empty = BitVecReader::from_bits(vec![]);
    assert_eq!(ExtMetadataBlock::parse(&mut empty), Err(RpuError::Truncated));
}

#[test]
fn level5_offsets_are_set_and_cropped() {
    let mut block = ExtMetadataBlockLevel5::from_offsets(1, 2, 3, 4);
    assert_eq!(block._get_offsets(), vec![1, 2, 3, 4]);
    block.set_offsets(10, 20, 30, 40);
    assert_eq!(block._get_offsets(), vec![10, 20, 30, 40]);
    block.crop();
    assert_eq!(block._get_offsets(), vec![0, 0, 0, 0]);
    assert_eq!(block.block_info, BlockInfo::for_kind(BlockKind::Level5, 5));
}

#[test]
fn a_reserved_block_can_be_made_by_hand() {
    let block = ExtMetadataBlock::Reserved(ReservedExtMetadataBlock {
        block_info: BlockInfo { ext_block_length: 1, ext_block_level: 200, remaining: vec![true; 8] },
    });
    assert_eq!(block.level(), 200);
    assert_eq!(read_back(&block), block);
}
