use dolby_vision::blocks::{
    BlockInfo, ExtMetadataBlock, ExtMetadataBlockLevel1, ExtMetadataBlockLevel5,
    ExtMetadataBlockLevel6, ReservedExtMetadataBlock,
};
use dolby_vision::coefficients::Coefficient;
use dolby_vision::crc32::compute_crc32_range;
use dolby_vision::error::{RpuError, ValidatedField};
use dolby_vision::generate::GenerateConfig;
use dolby_vision::rpu::DoviRpu;
use dolby_vision::rpu_edit::max_code;
use dolby_vision::rpu_header::RpuDataHeader;
use dolby_vision::rpu_mapping::{
    coefficient_count, MappingCurve, NlqParams, RpuDataMapping, RpuDataNlq,
};
use dolby_vision::vdr_dm_data::VdrDmData;

fn levels(rpu: &DoviRpu) -> Vec<u8> {
    rpu.vdr_dm_data.as_ref().unwrap().ext_metadata_blocks.iter().map(|b| b.level()).collect()
}

/// A profile 8 RPU with blocks of the levels 1, 5 and 6.
fn profile8() -> DoviRpu {
    let mut config = GenerateConfig::new();
    config.level5 = Some(ExtMetadataBlockLevel5::from_offsets(0, 0, 275, 276));
    config.level6 = Some(ExtMetadataBlockLevel6::from_levels(1000, 1, 1000, 400));
    let mut data = VdrDmData::from_config(&config, 2081);
    data.ext_metadata_blocks.remove(0);
    data.ext_metadata_blocks.push(ExtMetadataBlock::Level1(ExtMetadataBlockLevel1::from_stats(0, 3079, 1000)));
    data.sort_extension_blocks();
    DoviRpu::generated(data)
}

/// A profile 7 RPU: with an enhancement layer and a mapping of its own.
fn profile7() -> DoviRpu {
    let mut rpu = profile8();
    rpu.header.el_spatial_resampling_filter_flag = true;
    rpu.header.disable_residual_flag = false;
    rpu.header.nlq_method_idc = 0;
    rpu.header.num_pivots_minus_2 = [1, 0, 0];
    rpu.header.pred_pivot_value = vec![vec![0, 512, 1023], vec![0, 1023], vec![0, 1023]];
    let c = |integer: u64, fraction: u64| Coefficient { integer, fraction };
    rpu.mapping = Some(RpuDataMapping {
        curves: vec![
            vec![
                MappingCurve {
                    mapping_idc: 0,
                    order_minus1: 1,
                    linear_interp_flag: false,
                    coefficients: vec![c(0, 1), c(2, 3), c(4, 5)],
                },
                MappingCurve {
                    mapping_idc: 0,
                    order_minus1: 0,
                    linear_interp_flag: true,
                    coefficients: vec![c(1, 100), c(3, 200)],
                },
            ],
            vec![MappingCurve {
                mapping_idc: 1,
                order_minus1: 0,
                linear_interp_flag: false,
                coefficients: (0..8).map(|i| c(i, 8_000_000 + i)).collect(),
            }],
            vec![MappingCurve::identity()],
        ],
    });
    let params = NlqParams {
        nlq_offset: 512,
        hdr_in_max: c(1, 2),
        linear_deadzone_slope: c(3, 4),
        linear_deadzone_threshold: c(5, 6),
    };
    rpu.nlq = Some(RpuDataNlq { params: vec![params; 3] });
    rpu.dovi_profile = rpu.header.dovi_profile();
    rpu
}

#[test]
fn a_profile_8_rpu_is_read() {
    let bytes = profile8().write_rpu().unwrap();
    let rpu = DoviRpu::parse(&bytes).unwrap();
    assert_eq!(rpu.dovi_profile, 8);
    assert_eq!(levels(&rpu), vec![1, 5, 6]);
    assert_eq!(rpu.vdr_dm_data.as_ref().unwrap().num_ext_blocks, 3);
    assert!(rpu.nlq.is_none());
    assert!(!rpu.modified);
    assert_eq!(rpu.header.rpu_nal_prefix, 25);
    assert_eq!(rpu.header.rpu_type, 2);
    assert_eq!(rpu.header.vdr_rpu_profile, 1);
    assert_eq!(*bytes.last().unwrap(), 0x80);
    let crc = u32::from_be_bytes([
        bytes[bytes.len() - 5],
        bytes[bytes.len() - 4],
        bytes[bytes.len() - 3],
        bytes[bytes.len() - 2],
    ]);
    assert_eq!(crc, rpu.crc32);
    assert_eq!(crc, compute_crc32_range(&bytes, 1, bytes.len() - 5));
}

#[test]
fn an_rpu_that_is_read_is_written_back() {
    for made in [profile8(), profile7()] {
        let bytes = made.write_rpu().unwrap();
        let rpu = DoviRpu::parse(&bytes).unwrap();
        assert_eq!(rpu.write_rpu().unwrap(), bytes);
        let again = DoviRpu::parse(&rpu.write_rpu().unwrap()).unwrap();
        assert_eq!(again, rpu);
    }
}

#[test]
fn an_rpu_that_is_written_is_read_back() {
    for made in [profile8(), profile7()] {
        let bytes = made.write_rpu().unwrap();
        let rpu = DoviRpu::parse(&bytes).unwrap();
        assert_eq!(rpu.header, made.header);
        assert_eq!(rpu.mapping, made.mapping);
        assert_eq!(rpu.nlq, made.nlq);
        assert_eq!(rpu.vdr_dm_data, made.vdr_dm_data);
        assert_eq!(rpu.dovi_profile, made.dovi_profile);
    }
}

#[test]
fn profile_7_becomes_profile_81() {
    let bytes = profile7().write_rpu().unwrap();
    let mut rpu = DoviRpu::parse(&bytes).unwrap();
    assert_eq!(rpu.dovi_profile, 7);
    assert!(rpu.nlq.is_some());
    let blocks = rpu.vdr_dm_data.as_ref().unwrap().ext_metadata_blocks.clone();
    rpu.vdr_dm_data.as_mut().unwrap().ycc_to_rgb_coef0 = 1;
    rpu.vdr_dm_data.as_mut().unwrap().signal_color_space = 2;

    assert_eq!(rpu.convert_to_81(), Ok(()));
    assert!(rpu.modified);
    let converted = rpu.write_rpu().unwrap();
    let again = DoviRpu::parse(&converted).unwrap();

    assert_eq!(again.dovi_profile, 8);
    assert_eq!(again.header.vdr_rpu_profile, 1);
    assert!(again.nlq.is_none());
    assert!(again.header.disable_residual_flag);
    assert!(!again.header.el_spatial_resampling_filter_flag);
    assert_eq!(again.mapping, Some(RpuDataMapping::identity()));
    assert_eq!(again.header.num_pivots_minus_2, [0, 0, 0]);
    assert_eq!(again.header.pred_pivot_value, vec![vec![0, 1023]; 3]);
    let data = again.vdr_dm_data.as_ref().unwrap();
    assert_eq!(data.ext_metadata_blocks, blocks);
    assert_eq!(data.ycc_to_rgb_coef0, 9574);
    assert_eq!(data.ycc_to_rgb_coef4, -1540);
    assert_eq!(data.rgb_to_lms_coef8, 15962);
    assert_eq!(data.signal_color_space, 0);
    assert_eq!(again.crc32, compute_crc32_range(&converted, 1, converted.len() - 5));
    assert_eq!(again.header, rpu.header);
    assert_eq!(again.vdr_dm_data, rpu.vdr_dm_data);
}

#[test]
fn profile_5_becomes_profile_81() {
    let mut rpu = profile8();
    rpu.header.vdr_rpu_profile = 0;
    rpu.dovi_profile = rpu.header.dovi_profile();
    assert_eq!(rpu.dovi_profile, 5);
    let mapping = rpu.mapping.clone();
    assert_eq!(rpu.convert_to_81(), Ok(()));
    assert_eq!(rpu.dovi_profile, 8);
    assert_eq!(rpu.header.dovi_profile(), 8);
    assert_eq!(rpu.mapping, mapping);
}

#[test]
fn other_profiles_are_not_converted() {
    let mut rpu = profile8();
    rpu.modified = false;
    let before = rpu.clone();
    assert_eq!(rpu.convert_to_81(), Err(RpuError::InvalidProfile));
    assert_eq!(rpu, before);
}

#[test]
fn the_profile_follows_the_header() {
    let mut header = RpuDataHeader::generated();
    assert_eq!(header.dovi_profile(), 8);
    header.disable_residual_flag = false;
    assert!(header.has_nlq());
    assert_eq!(header.dovi_profile(), 7);
    header.vdr_rpu_profile = 0;
    assert_eq!(header.dovi_profile(), 4);
    header.disable_residual_flag = true;
    assert_eq!(header.dovi_profile(), 5);
    header.vdr_rpu_profile = 2;
    assert_eq!(header.dovi_profile(), 0);
    header.vdr_rpu_profile = 1;
    header.disable_residual_flag = false;
    header.rpu_format = 0x100;
    assert_eq!(header.dovi_profile(), 8);
}

#[test]
fn only_the_source_level_and_the_checksum_change() {
    let before = profile8().write_rpu().unwrap();
    let mut rpu = DoviRpu::parse(&before).unwrap();
    rpu.change_source_levels(None, Some(3696));
    assert!(rpu.modified);
    let after = rpu.write_rpu().unwrap();
    assert_eq!(after.len(), before.len());
    let differing: Vec<usize> = (0..before.len()).filter(|i| before[*i] != after[*i]).collect();
    let crc_at = before.len() - 5;
    let data_changes: Vec<usize> = differing.iter().copied().filter(|i| *i < crc_at).collect();
    assert!(!data_changes.is_empty());
    assert!(data_changes.len() <= 3);
    assert!(data_changes.last().unwrap() - data_changes[0] <= 2);
    assert!(differing.iter().any(|i| *i >= crc_at));
    assert_eq!(*after.last().unwrap(), 0x80);
    let again = DoviRpu::parse(&after).unwrap();
    assert_eq!(again.vdr_dm_data.as_ref().unwrap().source_max_pq, 3696);
    assert_eq!(again.vdr_dm_data.as_ref().unwrap().source_min_pq, 7);
}

#[test]
fn a_reserved_block_survives() {
    let mut made = profile8();
    {
        let data = made.vdr_dm_data.as_mut().unwrap();
        data.ext_metadata_blocks.push(ExtMetadataBlock::Reserved(ReservedExtMetadataBlock {
            block_info: BlockInfo {
                ext_block_length: 3,
                ext_block_level: 7,
                remaining: (0..24).map(|i| i % 3 == 0).collect(),
            },
        }));
        data.num_ext_blocks = 4;
    }
    let bytes = made.write_rpu().unwrap();
    let rpu = DoviRpu::parse(&bytes).unwrap();
    assert_eq!(levels(&rpu), vec![1, 5, 6, 7]);
    match &rpu.vdr_dm_data.as_ref().unwrap().ext_metadata_blocks[3] {
        ExtMetadataBlock::Reserved(b) => {
            assert_eq!(b.block_info.remaining, (0..24).map(|i| i % 3 == 0).collect::<Vec<bool>>())
        }
        _ => panic!("not reserved"),
    }
    assert_eq!(rpu.write_rpu().unwrap(), bytes);
}

#[test]
fn cropping_twice_is_cropping_once() {
    let mut rpu = profile8();
    rpu.modified = false;
    rpu.crop_l5();
    assert!(rpu.modified);
    let once = rpu.clone();
    assert_eq!(
        rpu.vdr_dm_data.as_ref().unwrap().ext_metadata_blocks[1],
        ExtMetadataBlock::Level5(ExtMetadataBlockLevel5::from_offsets(0, 0, 0, 0))
    );
    rpu.crop_l5();
    assert_eq!(rpu, once);
    assert_eq!(levels(&rpu), vec![1, 5, 6]);
}

#[test]
fn cropping_adds_a_level5_block_where_there_is_none() {
    let mut rpu = profile8();
    {
        let data = rpu.vdr_dm_data.as_mut().unwrap();
        data.ext_metadata_blocks.remove(1);
        data.num_ext_blocks = 2;
    }
    assert!(ExtMetadataBlockLevel5::get_mut(&mut rpu).is_none());
    rpu.crop_l5();
    assert_eq!(levels(&rpu), vec![1, 5, 6]);
    assert_eq!(rpu.vdr_dm_data.as_ref().unwrap().num_ext_blocks, 3);
    let once = rpu.clone();
    rpu.crop_l5();
    assert_eq!(rpu, once);
    assert!(DoviRpu::parse(&rpu.write_rpu().unwrap()).is_ok());
}

#[test]
fn level5_offsets_are_set() {
    let mut rpu = profile8();
    rpu.set_l5_offsets(10, 20, 30, 40);
    assert_eq!(
        rpu.vdr_dm_data.as_ref().unwrap().ext_metadata_blocks[1],
        ExtMetadataBlock::Level5(ExtMetadataBlockLevel5::from_offsets(10, 20, 30, 40))
    );
    let block = ExtMetadataBlockLevel5::get_mut(&mut rpu).unwrap();
    assert_eq!(block._get_offsets(), vec![10, 20, 30, 40]);
    block.set_offsets(1, 2, 3, 4);
    assert_eq!(
        rpu.vdr_dm_data.as_ref().unwrap().ext_metadata_blocks[1],
        ExtMetadataBlock::Level5(ExtMetadataBlockLevel5::from_offsets(1, 2, 3, 4))
    );
    let mut bare = profile8();
    bare.vdr_dm_data = None;
    assert!(ExtMetadataBlockLevel5::get_mut(&mut bare).is_none());
    bare.set_l5_offsets(1, 2, 3, 4);
    bare.crop_l5();
    assert!(bare.vdr_dm_data.is_none());
    assert!(bare.modified);
}

#[test]
fn the_mapping_is_removed() {
    let mut rpu = profile7();
    rpu.modified = false;
    rpu.remove_mapping();
    assert!(rpu.modified);
    assert_eq!(rpu.mapping, Some(RpuDataMapping::identity()));
    assert_eq!(rpu.header.num_pivots_minus_2, [0, 0, 0]);
    assert_eq!(rpu.header.pred_pivot_value, vec![vec![0, 1023]; 3]);
    assert!(rpu.nlq.is_some());
    assert_eq!(max_code(10), 1023);
    assert_eq!(max_code(0), 0);
    assert_eq!(max_code(32), 0xffff_ffff);
}

#[test]
fn curves_have_their_coefficients() {
    assert_eq!(coefficient_count(0, 0, true, false), 1);
    assert_eq!(coefficient_count(0, 0, true, true), 2);
    assert_eq!(coefficient_count(0, 0, false, true), 2);
    assert_eq!(coefficient_count(0, 1, false, false), 3);
    assert_eq!(coefficient_count(0, 1, true, false), 3);
    assert_eq!(coefficient_count(1, 0, false, false), 8);
    assert_eq!(coefficient_count(1, 2, false, false), 22);
    assert_eq!(coefficient_count(2, 0, false, false), 0);
    assert_eq!(Coefficient { integer: 0, fraction: 0 }.signed_integer(), 0);
    assert_eq!(Coefficient { integer: 1, fraction: 0 }.signed_integer(), 1);
    assert_eq!(Coefficient { integer: 2, fraction: 0 }.signed_integer(), -1);
    assert_eq!(Coefficient { integer: 3, fraction: 0 }.signed_integer(), 2);
    assert_eq!(Coefficient { integer: 4, fraction: 0 }.signed_integer(), -2);
}

#[test]
fn a_changed_rpu_is_validated_before_it_is_written() {
    let mut rpu = profile8();
    rpu.vdr_dm_data.as_mut().unwrap().signal_bit_depth = 20;
    assert_eq!(rpu.write_rpu(), Err(RpuError::ValidationFailed(ValidatedField::SignalBitDepth)));
    rpu.modified = false;
    assert!(rpu.write_rpu().is_ok());
}

#[test]
fn a_wrong_start_is_refused() {
    let bytes = profile8().write_rpu().unwrap();
    let mut wrong_prefix = bytes.clone();
    wrong_prefix[0] = 24;
    assert_eq!(DoviRpu::parse(&wrong_prefix), Err(RpuError::UnsupportedNalType));
    let mut wrong_type = bytes.clone();
    wrong_type[1] ^= 0b0000_0100;
    assert_eq!(DoviRpu::parse(&wrong_type), Err(RpuError::UnsupportedNalType));
}

#[test]
fn a_wrong_end_is_refused() {
    let bytes = profile8().write_rpu().unwrap();
    let n = bytes.len();

    let mut bad_crc = bytes.clone();
    bad_crc[n - 2] ^= 1;
    assert_eq!(DoviRpu::parse(&bad_crc), Err(RpuError::CrcMismatch));

    let mut bad_data = bytes.clone();
    bad_data[n - 7] ^= 1;
    assert_eq!(DoviRpu::parse(&bad_data), Err(RpuError::CrcMismatch));

    let mut bad_marker = bytes.clone();
    bad_marker[n - 1] = 0x81;
    assert_eq!(DoviRpu::parse(&bad_marker), Err(RpuError::MissingMarker));

    let mut longer = bytes.clone();
    longer.push(0x80);
    assert_eq!(DoviRpu::parse(&longer), Err(RpuError::MissingMarker));

    assert_eq!(DoviRpu::parse(&bytes[..n - 1].to_vec()), Err(RpuError::Truncated));
    assert_eq!(DoviRpu::parse(&bytes[..5].to_vec()), Err(RpuError::Truncated));
    assert_eq!(DoviRpu::parse(&vec![]), Err(RpuError::Truncated));
}

#[test]
fn a_wrong_coefficient_type_is_refused() {
    let mut made = profile8();
    made.header.coefficient_data_type = 2;
    made.modified = false;
    let bytes = made.write_rpu().unwrap();
    assert_eq!(
        DoviRpu::parse(&bytes),
        Err(RpuError::ValidationFailed(ValidatedField::CoefficientDataType))
    );
    let mut deep = profile8();
    deep.header.bl_bit_depth_minus8 = 25;
    deep.modified = false;
    assert_eq!(
        DoviRpu::parse(&deep.write_rpu().unwrap()),
        Err(RpuError::ValidationFailed(ValidatedField::BlBitDepth))
    );
    let mut deep_el = profile8();
    deep_el.header.el_bit_depth_minus8 = 25;
    deep_el.modified = false;
    assert_eq!(
        DoviRpu::parse(&deep_el.write_rpu().unwrap()),
        Err(RpuError::ValidationFailed(ValidatedField::ElBitDepth))
    );
    let mut fine = profile8();
    fine.header.coefficient_log2_denom = 33;
    fine.modified = false;
    assert_eq!(
        DoviRpu::parse(&fine.write_rpu().unwrap()),
        Err(RpuError::ValidationFailed(ValidatedField::CoefficientLog2Denom))
    );
}

#[test]
fn a_quantization_of_another_method_has_no_dead_zone() {
    let mut made = profile7();
    made.header.nlq_method_idc = 1;
    let zero = Coefficient { integer: 0, fraction: 0 };
    let params = NlqParams {
        nlq_offset: 1,
        hdr_in_max: Coefficient { integer: 7, fraction: 9 },
        linear_deadzone_slope: zero,
        linear_deadzone_threshold: zero,
    };
    made.nlq = Some(RpuDataNlq { params: vec![params; 3] });
    let bytes = made.write_rpu().unwrap();
    let shorter = profile7().write_rpu().unwrap();
    assert!(bytes.len() < shorter.len());
    let rpu = DoviRpu::parse(&bytes).unwrap();
    assert_eq!(rpu.nlq, made.nlq);
    assert_eq!(rpu.header.nlq_method_idc, 1);
    assert_eq!(rpu.dovi_profile, 7);
    assert_eq!(rpu.write_rpu().unwrap(), bytes);
}

#[test]
fn an_rpu_that_reuses_a_mapping_has_none() {
    let mut made = profile8();
    made.header.use_prev_vdr_rpu_flag = true;
    made.header.prev_vdr_rpu_id = 3;
    made.mapping = None;
    let bytes = made.write_rpu().unwrap();
    let rpu = DoviRpu::parse(&bytes).unwrap();
    assert!(rpu.mapping.is_none());
    assert_eq!(rpu.header.prev_vdr_rpu_id, 3);
    assert_eq!(rpu.write_rpu().unwrap(), bytes);
}

#[test]
fn coefficients_without_integer_parts_have_32_bits() {
    let mut made = profile8();
    made.header.coefficient_data_type = 1;
    made.mapping = Some(RpuDataMapping {
        curves: vec![
            vec![MappingCurve {
                mapping_idc: 0,
                order_minus1: 0,
                linear_interp_flag: false,
                coefficients: vec![
                    Coefficient { integer: 0, fraction: 0xdead_beef },
                    Coefficient { integer: 0, fraction: 1 },
                ],
            }],
            vec![MappingCurve::identity()],
            vec![MappingCurve::identity()],
        ],
    });
    let bytes = made.write_rpu().unwrap();
    let rpu = DoviRpu::parse(&bytes).unwrap();
    let first = &rpu.mapping.as_ref().unwrap().curves[0][0];
    assert_eq!(first.coefficients[0], Coefficient { integer: 0, fraction: 0xdead_beef });
    // the integer part of the identity is not written in this format
    assert_eq!(rpu.mapping.as_ref().unwrap().curves[1][0].coefficients[1], Coefficient { integer: 0, fraction: 0 });
    assert_eq!(rpu.write_rpu().unwrap(), bytes);
}

#[test]
fn an_rpu_without_pivots_for_three_components_is_not_well_formed() {
    let mut rpu = profile8();
    assert!(rpu.is_well_formed());
    rpu.header.pred_pivot_value.pop();
    assert!(!rpu.is_well_formed());
    let mut many = profile8();
    many.header.num_pivots_minus_2[1] = 0x2_0000_0000;
    assert!(!many.is_well_formed());
    many.header.num_pivots_minus_2[1] = 0x1_ffff_ffff;
    assert!(many.is_well_formed());
}

#[test]
fn the_only_target_of_a_conversion_is_profile_8() {
    let mut rpu = DoviRpu::parse(&profile7().write_rpu().unwrap()).unwrap();
    let before = rpu.clone();
    assert_eq!(rpu.convert_profile(7), Err(RpuError::InvalidProfile));
    assert_eq!(rpu.convert_profile(5), Err(RpuError::InvalidProfile));
    assert_eq!(rpu, before);
    assert_eq!(rpu.convert_profile(8), Ok(()));
    let mut same = before.clone();
    assert_eq!(same.convert_to_81(), Ok(()));
    assert_eq!(rpu, same);
    assert_eq!(rpu.dovi_profile, 8);
}
