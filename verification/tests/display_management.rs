use dolby_vision::bitvec_reader::BitVecReader;
use dolby_vision::bitvec_writer::BitVecWriter;
use dolby_vision::block_order::sort_blocks;
use dolby_vision::blocks::{
    ExtMetadataBlock, ExtMetadataBlockLevel1, ExtMetadataBlockLevel2, ExtMetadataBlockLevel5,
    ExtMetadataBlockLevel6, ReservedExtMetadataBlock, BlockInfo,
};
use dolby_vision::error::{RpuError, ValidatedField};
use dolby_vision::generate::GenerateConfig;
use dolby_vision::vdr_dm_data::{i16_code, i16_value, header_layout_vec, VdrDmData};

fn written_at(data: &VdrDmData, position: usize) -> Vec<bool> {
    let mut writer = BitVecWriter::new();
    writer.write_zeros(position);
    data.write(&mut writer);
    writer.bits()[position..].to_vec()
}

fn read_at(bits: &[bool], position: usize) -> Result<VdrDmData, RpuError> {
    let mut all = vec![false; position];
    all.extend_from_slice(bits);
    let mut reader = BitVecReader::from_bits(all);
    assert_eq!(reader.get_bits(position).unwrap().len(), position);
    VdrDmData::vdr_dm_data_payload(&mut reader)
}

fn levels(data: &VdrDmData) -> Vec<u8> {
    data.ext_metadata_blocks.iter().map(|b| b.level()).collect()
}

fn sample() -> VdrDmData {
    let mut config = GenerateConfig::new();
    config.level6 = Some(ExtMetadataBlockLevel6::from_levels(1000, 1, 1000, 400));
    let mut data = VdrDmData::from_config(&config, 2081);
    data.ext_metadata_blocks.remove(0);
    data.ext_metadata_blocks.push(ExtMetadataBlock::Level1(ExtMetadataBlockLevel1::from_stats(0, 3079, 1000)));
    data.sort_extension_blocks();
    data
}

#[test]
fn the_header_has_36_fields() {
    assert_eq!(header_layout_vec().len(), 36);
    assert_eq!(sample().header_codes().len(), 36);
}

#[test]
fn signed_coefficients_have_16_bits() {
    assert_eq!(i16_code(-1540), 0x10000 - 1540);
    assert_eq!(i16_code(9574), 9574);
    for value in [i16::MIN, -5348, -1, 0, 1, 17610, i16::MAX] {
        assert_eq!(i16_value(i16_code(value)), value);
    }
}

#[test]
fn blocks_of_levels_1_5_6_are_read_in_order() {
    let data = sample();
    let bits = written_at(&data, 0);
    let parsed = read_at(&bits, 0).unwrap();
    assert_eq!(parsed.num_ext_blocks, 3);
    assert_eq!(levels(&parsed), vec![1, 5, 6]);
    assert_eq!(parsed, data);
}

#[test]
fn data_that_is_read_is_written_back() {
    for position in [0usize, 1, 3, 7, 8, 13] {
        let data = sample();
        let bits = written_at(&data, position);
        let parsed = read_at(&bits, position).unwrap();
        assert_eq!(written_at(&parsed, position), bits);
    }
}

#[test]
fn blocks_start_at_a_byte() {
    let data = sample();
    // the header with ue(3) at its end, and the blocks of levels 1, 5 and 6
    let header_bits = 517;
    let block_bits = (5 + 8 + 40) + (7 + 8 + 56) + (7 + 8 + 64);
    for position in 0..16usize {
        let bits = written_at(&data, position);
        let pad = (8 - (position + header_bits) % 8) % 8;
        assert_eq!(bits.len(), header_bits + pad + block_bits);
        assert!(bits[header_bits..header_bits + pad].iter().all(|b| !*b));
        assert_eq!(read_at(&bits, position).unwrap(), data);
    }
}

#[test]
fn without_blocks_nothing_follows_the_header() {
    let mut config = GenerateConfig::new();
    config.level6 = None;
    let mut data = VdrDmData::from_config(&config, 2081);
    data.ext_metadata_blocks.clear();
    data.num_ext_blocks = 0;
    let bits = written_at(&data, 5);
    // 3 + 9*16 + 3*32 + 9*16 + 16 + 16 + 16 + 32 + 5 + 2 + 2 + 2 + 12 + 12 + 10 + 1
    assert_eq!(bits.len(), 513);
    assert_eq!(read_at(&bits, 5).unwrap(), data);
}

#[test]
fn a_set_bit_before_the_blocks_is_refused() {
    let data = sample();
    let position = 0;
    let mut bits = written_at(&data, position);
    let header_bits = 3 + 9 * 16 + 3 * 32 + 9 * 16 + 16 + 16 + 16 + 32 + 5 + 2 + 2 + 2 + 12 + 12 + 10 + 5;
    assert_eq!(header_bits, 517);
    bits[header_bits + 1] = true;
    assert_eq!(read_at(&bits, position), Err(RpuError::AlignmentPaddingNonZero));
    // the same bits three bits further on start a block at that place
    assert_ne!(read_at(&bits, 3), Err(RpuError::AlignmentPaddingNonZero));
}

#[test]
fn data_that_ends_early_is_truncated() {
    let bits = written_at(&sample(), 0);
    for cut in [0usize, 10, 200, 520, bits.len() - 1] {
        assert_eq!(read_at(&bits[..cut], 0), Err(RpuError::Truncated));
    }
}

#[test]
fn only_the_source_level_changes() {
    let data = sample();
    let before = written_at(&data, 0);
    let mut changed = read_at(&before, 0).unwrap();
    changed.change_source_levels(None, Some(3696));
    assert_eq!(changed.source_max_pq, 3696);
    assert_eq!(changed.source_min_pq, data.source_min_pq);
    let after = written_at(&changed, 0);
    assert_eq!(after.len(), before.len());
    let at = 3 + 9 * 16 + 3 * 32 + 9 * 16 + 16 + 16 + 16 + 32 + 5 + 2 + 2 + 2 + 12;
    let differing: Vec<usize> = (0..before.len()).filter(|i| before[*i] != after[*i]).collect();
    assert!(!differing.is_empty());
    assert!(differing.iter().all(|i| at <= *i && *i < at + 12));
    let written_value = after[at..at + 12].iter().fold(0u16, |v, b| v * 2 + *b as u16);
    assert_eq!(written_value, 3696);
}

#[test]
fn source_levels_are_changed_one_by_one() {
    let mut data = sample();
    data.change_source_levels(Some(62), None);
    assert_eq!((data.source_min_pq, data.source_max_pq), (62, 3079));
    data.change_source_levels(None, None);
    assert_eq!((data.source_min_pq, data.source_max_pq), (62, 3079));
    data.change_source_levels(Some(7), Some(4095));
    assert_eq!((data.source_min_pq, data.source_max_pq), (7, 4095));
}

#[test]
fn profile_81_has_its_matrices() {
    let mut data = sample();
    data.ycc_to_rgb_coef0 = 1;
    data.rgb_to_lms_coef8 = -3;
    data.ycc_to_rgb_offset1 = 9;
    data.signal_color_space = 2;
    let blocks = data.ext_metadata_blocks.clone();
    data.p5_to_p81();
    assert_eq!(
        [
            data.ycc_to_rgb_coef0, data.ycc_to_rgb_coef1, data.ycc_to_rgb_coef2,
            data.ycc_to_rgb_coef3, data.ycc_to_rgb_coef4, data.ycc_to_rgb_coef5,
            data.ycc_to_rgb_coef6, data.ycc_to_rgb_coef7, data.ycc_to_rgb_coef8,
        ],
        [9574, 0, 13802, 9574, -1540, -5348, 9574, 17610, 0]
    );
    assert_eq!(
        [data.ycc_to_rgb_offset0, data.ycc_to_rgb_offset1, data.ycc_to_rgb_offset2],
        [16777216, 134217728, 134217728]
    );
    assert_eq!(
        [
            data.rgb_to_lms_coef0, data.rgb_to_lms_coef1, data.rgb_to_lms_coef2,
            data.rgb_to_lms_coef3, data.rgb_to_lms_coef4, data.rgb_to_lms_coef5,
            data.rgb_to_lms_coef6, data.rgb_to_lms_coef7, data.rgb_to_lms_coef8,
        ],
        [7222, 8771, 390, 2654, 12430, 1300, 0, 422, 15962]
    );
    assert_eq!(data.signal_color_space, 0);
    assert_eq!(data.ext_metadata_blocks, blocks);
    assert_eq!(data, sample());
}

#[test]
fn validation_names_the_first_field_that_fails() {
    let mut data = sample();
    assert_eq!(data.validate(), Ok(()));
    data.num_ext_blocks = 2;
    assert_eq!(data.validate(), Err(RpuError::ValidationFailed(ValidatedField::NumExtBlocks)));
    data.signal_eotf = 0;
    assert_eq!(data.validate(), Err(RpuError::ValidationFailed(ValidatedField::SignalEotf)));
    data.signal_eotf_param1 = 1;
    assert_eq!(data.validate(), Err(RpuError::ValidationFailed(ValidatedField::NumExtBlocks)));
    data.signal_eotf_param1 = 0;
    data.signal_bit_depth = 7;
    assert_eq!(data.validate(), Err(RpuError::ValidationFailed(ValidatedField::SignalBitDepth)));
    data.signal_bit_depth = 17;
    assert_eq!(data.validate(), Err(RpuError::ValidationFailed(ValidatedField::SignalBitDepth)));
    data.affected_dm_metadata_id = 16;
    assert_eq!(data.validate(), Err(RpuError::ValidationFailed(ValidatedField::AffectedDmMetadataId)));
    let mut edge = sample();
    edge.affected_dm_metadata_id = 15;
    edge.signal_bit_depth = 8;
    assert_eq!(edge.validate(), Ok(()));
    edge.signal_bit_depth = 16;
    assert_eq!(edge.validate(), Ok(()));
}

#[test]
fn generated_data_has_levels_2_5_and_6() {
    let mut config = GenerateConfig::new();
    config.level5 = Some(ExtMetadataBlockLevel5::from_offsets(1, 2, 3, 4));
    config.level6 = Some(ExtMetadataBlockLevel6::from_levels(4000, 50, 1000, 400));
    let data = VdrDmData::from_config(&config, 2851);
    assert_eq!(levels(&data), vec![2, 5, 6]);
    assert_eq!(data.num_ext_blocks, 3);
    assert_eq!(data.ext_metadata_blocks[0], ExtMetadataBlock::Level2(ExtMetadataBlockLevel2::from_target_max_pq(2851)));
    assert_eq!(data.ext_metadata_blocks[1], ExtMetadataBlock::Level5(ExtMetadataBlockLevel5::from_offsets(1, 2, 3, 4)));
    assert_eq!((data.source_min_pq, data.source_max_pq), (62, 3696));
    assert_eq!(data.signal_eotf, 65535);
    assert_eq!(data.signal_bit_depth, 12);
    assert_eq!(data.signal_full_range_flag, 1);
    assert_eq!(data.source_diagonal, 42);
    assert_eq!(data.scene_refresh_flag, 0);
    assert_eq!(data.validate(), Ok(()));
}

#[test]
fn source_levels_follow_the_mastering_display() {
    let cases = [
        (0u16, 1000u16, None, None, (0u16, 3079u16)),
        (1, 1000, None, None, (7, 3079)),
        (10, 4000, None, None, (7, 3696)),
        (50, 10000, None, None, (62, 4095)),
        (11, 1234, None, None, (0, 3079)),
        (50, 4000, Some(5), Some(100), (5, 100)),
        (50, 4000, Some(0), None, (62, 3696)),
    ];
    for (min, max, source_min, source_max, expected) in cases {
        let mut config = GenerateConfig::new();
        config.source_min_pq = source_min;
        config.source_max_pq = source_max;
        config.level6 = Some(ExtMetadataBlockLevel6::from_levels(max, min, 0, 0));
        let data = VdrDmData::from_config(&config, 2081);
        assert_eq!((data.source_min_pq, data.source_max_pq), expected);
    }
    let mut config = GenerateConfig::new();
    config.level6 = None;
    let data = VdrDmData::from_config(&config, 2081);
    assert_eq!((data.source_min_pq, data.source_max_pq), (0, 0));
    assert_eq!(levels(&data), vec![2, 5]);
    assert_eq!(data.ext_metadata_blocks[1], ExtMetadataBlock::Level5(ExtMetadataBlockLevel5::from_offsets(0, 0, 0, 0)));
}

#[test]
fn a_level5_block_is_added_in_its_place() {
    let mut data = sample();
    data.ext_metadata_blocks.remove(1);
    data.num_ext_blocks = 2;
    data.add_level5_metadata(1, 2, 3, 4);
    assert_eq!(levels(&data), vec![1, 5, 6]);
    assert_eq!(data.num_ext_blocks, 3);
    assert_eq!(data.ext_metadata_blocks[1], ExtMetadataBlock::Level5(ExtMetadataBlockLevel5::from_offsets(1, 2, 3, 4)));
}

#[test]
fn sorting_is_by_level_then_by_target_and_stable() {
    let reserved = |level: u8, mark: bool| {
        ExtMetadataBlock::Reserved(ReservedExtMetadataBlock {
            block_info: BlockInfo { ext_block_length: 1, ext_block_level: level, remaining: vec![mark; 8] },
        })
    };
    let l2 = |pq: u16, slope: u16| ExtMetadataBlock::Level2(ExtMetadataBlockLevel2::from_trims(pq, slope, 0, 0, 0, 0, 0));
    let mut blocks = vec![
        reserved(7, true),
        l2(3000, 1),
        ExtMetadataBlock::Level6(ExtMetadataBlockLevel6::from_levels(1, 2, 3, 4)),
        l2(2000, 2),
        reserved(7, false),
        l2(3000, 3),
        ExtMetadataBlock::Level1(ExtMetadataBlockLevel1::from_stats(1, 2, 3)),
        l2(2000, 4),
    ];
    let expected = vec![
        blocks[6].clone(),
        blocks[3].clone(),
        blocks[7].clone(),
        blocks[1].clone(),
        blocks[5].clone(),
        blocks[2].clone(),
        blocks[0].clone(),
        blocks[4].clone(),
    ];
    sort_blocks(&mut blocks);
    assert_eq!(blocks, expected);
    sort_blocks(&mut blocks);
    assert_eq!(blocks, expected);
    let mut none: Vec<ExtMetadataBlock> = vec![];
    sort_blocks(&mut none);
    assert!(none.is_empty());
}
