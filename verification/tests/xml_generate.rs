use dolby_vision::bitvec_reader::BitVecReader;
use dolby_vision::blocks::{
    ExtMetadataBlock, ExtMetadataBlockLevel1, ExtMetadataBlockLevel2, ExtMetadataBlockLevel3,
    ExtMetadataBlockLevel5, ExtMetadataBlockLevel6, ExtMetadataBlockLevel8, ExtMetadataBlockLevel9,
};
use dolby_vision::error::{XmlError, XmlPath};
use dolby_vision::generate::{CmVersion, GenerateConfig, ShotFrameEdit, VideoShot};
use dolby_vision::generator::{announces, find_edit, merge_blocks};
use dolby_vision::rpu::DoviRpu;
use dolby_vision::text::{parse_unsigned, split, str_contains, str_eq};
use dolby_vision::vdr_dm_data::VdrDmData;
use dolby_vision::xml_numbers::{ask, clamp, Formula, NumberRequest};
use dolby_vision::xml_parser::{CmXmlParser, XmlParserOpts};
use dolby_vision::xml_tree::{NodeTest, XmlTree};

fn nits_to_pq(nits: u16) -> f64 {
    let (m1, m2) = (0.1593017578125f64, 78.84375f64);
    let (c1, c2, c3) = (0.8359375f64, 18.8515625f64, 18.6875f64);
    let y = nits as f64 / 10000.0;
    ((c1 + c2 * y.powf(m1)) / (1.0 + c3 * y.powf(m1))).powf(m2)
}

fn pq_code(nits: u16) -> i32 {
    (nits_to_pq(nits) * 4095.0).round() as u16 as i32
}

fn scaled(v: f32) -> i32 {
    ((v * 2048.0) + 2048.0).round() as u16 as i32
}

fn trims(v: &[f32]) -> Vec<i32> {
    let (lift, gain, gamma) = (v[0], v[1], v[2].clamp(-1.0, 1.0));
    vec![
        ((((gain + 2.0) * (1.0 - lift / 2.0) - 2.0) * 2048.0) + 2048.0).round() as u16 as i32,
        ((((gain + 2.0) * (lift / 2.0)) * 2048.0) + 2048.0).round() as u16 as i32,
        (((2.0 / (1.0 + gamma / 2.0) - 2.0) * 2048.0) + 2048.0).round() as u16 as i32,
        scaled(v[3]),
        scaled(v[4]),
        ((v[5] * 2048.0) + 2048.0).round() as i16 as i32,
    ]
}

fn offsets(canvas_ar: f32, image_ar: f32, cw: f32, ch: f32) -> Vec<i32> {
    let (mut left, mut right, mut top, mut bottom) = (0.0f32, 0.0f32, 0.0f32, 0.0f32);
    if (canvas_ar - image_ar).abs() < f32::EPSILON {
    } else if image_ar > canvas_ar {
        let image_h = (ch * (canvas_ar / image_ar)).round();
        let diff = ch - image_h;
        top = (diff / 2.0).trunc();
        bottom = diff - top;
    } else {
        let image_w = (cw * (image_ar / canvas_ar)).round();
        let diff = cw - image_w;
        left = (diff / 2.0).trunc();
        right = diff - left;
    }
    vec![left as u16 as i32, right as u16 as i32, top as u16 as i32, bottom as u16 as i32]
}

fn convert(request: &NumberRequest) -> Option<Vec<i32>> {
    let mut v: Vec<f32> = Vec::new();
    for text in &request.values {
        match text.parse::<f32>() {
            Ok(x) => v.push(x),
            Err(_) => return None,
        }
    }
    match request.formula {
        Formula::Level1 if v.len() == 3 => Some(v.iter().map(|x| (x * 4095.0).round() as u16 as i32).collect()),
        Formula::Level2 if v.len() == 6 => {
            let mut out = vec![pq_code(request.peak_nits)];
            out.extend(trims(&v));
            Some(out)
        }
        Formula::Level3 if v.len() == 3 => Some(v.iter().map(|x| scaled(*x)).collect()),
        Formula::Level5 if v.len() == 2 => Some(offsets(
            v[0],
            v[1],
            request.canvas_width as f32,
            request.canvas_height as f32,
        )),
        Formula::Level8 if v.len() == 6 => Some(trims(&v)),
        Formula::MinimumBrightness if v.len() == 1 => Some(vec![(v[0] * 10000.0) as u16 as i32]),
        _ => None,
    }
}

fn opts(width: Option<u16>, height: Option<u16>) -> XmlParserOpts {
    XmlParserOpts { canvas_width: width, canvas_height: height }
}

fn read(xml: &str, o: XmlParserOpts) -> Result<CmXmlParser, XmlError> {
    CmXmlParser::new(xml.to_string(), o, &convert)
}

const TWO_SHOTS: &str = r#"<?xml version="1.0" encoding="UTF-8"?>
<DolbyLabsMDF version="2.0.5">
  <Outputs>
    <Output>
      <CanvasAspectRatio>1.78</CanvasAspectRatio>
      <ImageAspectRatio>2.39</ImageAspectRatio>
      <Video>
        <Track>
          <Level6><MaxCLL>1000</MaxCLL><MaxFALL>400</MaxFALL></Level6>
          <MasteringDisplay><MinimumBrightness>0.005</MinimumBrightness><PeakBrightness>4000</PeakBrightness></MasteringDisplay>
          <TargetDisplays>
            <TargetDisplay><ID>1</ID><PeakBrightness>100</PeakBrightness></TargetDisplay>
            <TargetDisplay><ID>27</ID><PeakBrightness>600</PeakBrightness></TargetDisplay>
          </TargetDisplays>
          <Shots>
            <Shot>
              <UniqueID>b</UniqueID>
              <Record><In>24</In><Duration>24</Duration></Record>
            </Shot>
            <Shot>
              <UniqueID>a</UniqueID>
              <Record><In>0</In><Duration>24</Duration></Record>
            </Shot>
          </Shots>
        </Track>
      </Video>
    </Output>
  </Outputs>
</DolbyLabsMDF>"#;

const CM29: &str = r#"<DolbyLabsMDF version="2.0.5">
<Outputs><Output><Video><Track>
  <TargetDisplays>
    <TargetDisplay><ID>1</ID><PeakBrightness>100</PeakBrightness></TargetDisplay>
    <TargetDisplay><ID>27</ID><PeakBrightness>600</PeakBrightness></TargetDisplay>
  </TargetDisplays>
  <Shots>
    <Shot>
      <UniqueID>first</UniqueID>
      <Record><In>10</In><Duration>5</Duration></Record>
      <PluginNode>
        <DolbyEDR level="1"><ImageCharacter>0.0001,0.25,0.5</ImageCharacter></DolbyEDR>
        <DolbyEDR level="2"><TID>27</TID><Trim>9,9,9,0,0,0,0,0,0</Trim></DolbyEDR>
        <DolbyEDR level="2"><TID>1</TID><Trim>0,0,0,0.1,-0.2,0.3,0.5,-0.5,-2</Trim></DolbyEDR>
        <DolbyEDR level="3"><L1Offset>0,0.5,-0.25</L1Offset></DolbyEDR>
        <DolbyEDR level="8"><TID>1</TID><L8Trim>0,0,0,0,0,0</L8Trim></DolbyEDR>
        <DolbyEDR level="9"><SourceColorModel>2</SourceColorModel></DolbyEDR>
        <DolbyEDR level="4"><Other>1</Other></DolbyEDR>
        <Ignored level="1"><ImageCharacter>1,1,1</ImageCharacter></Ignored>
      </PluginNode>
      <Frame>
        <EditOffset>2</EditOffset>
        <PluginNode><DolbyEDR level="1"><ImageCharacter>0,1,1</ImageCharacter></DolbyEDR></PluginNode>
      </Frame>
    </Shot>
  </Shots>
</Track></Video></Output></Outputs>
</DolbyLabsMDF>"#;

const CM40: &str = r#"<DolbyLabsMDF version="5.1.0">
<Outputs><Output><Video><Track>
  <Level254><DMMode>0</DMMode><DMVersion>2</DMVersion><CMVersion>4 1</CMVersion></Level254>
  <TargetDisplays>
    <TargetDisplay><ID>1</ID><PeakBrightness>100</PeakBrightness></TargetDisplay>
    <TargetDisplay><ID>48</ID><PeakBrightness>1000</PeakBrightness></TargetDisplay>
  </TargetDisplays>
  <Shots>
    <Shot>
      <UniqueID>only</UniqueID>
      <Record><In>0</In><Duration>3</Duration></Record>
      <DVDynamicData>
        <Level1 level="1"><ImageCharacter>0 0.5 1</ImageCharacter></Level1>
        <Level5 level="5"><AspectRatios>1.78 2.39</AspectRatios></Level5>
        <Level8 level="8"><TID>48</TID><L8Trim>0 0 0 0 0 0</L8Trim></Level8>
        <Level9 level="9"><SourceColorModel>0</SourceColorModel></Level9>
      </DVDynamicData>
    </Shot>
  </Shots>
</Track></Video></Output></Outputs>
</DolbyLabsMDF>"#;

#[test]
fn two_shots_give_48_rpus() {
    let parser = read(TWO_SHOTS, opts(None, None)).unwrap();
    let mut config = parser.config;
    config.target_nits = 600;
    assert_eq!(config.length, 48);
    assert_eq!(config.shots.len(), 2);
    assert_eq!((config.shots[0].id.as_str(), config.shots[0].start), ("a", 0));
    assert_eq!((config.shots[1].id.as_str(), config.shots[1].start), ("b", 24));

    let target_max_pq = pq_code(config.target_nits) as u16;
    assert_eq!(target_max_pq, 2851);
    let payloads = config.generate_rpu_bytes(target_max_pq);
    assert_eq!(payloads.len(), 48);
    for (i, payload) in payloads.iter().enumerate() {
        let rpu = DoviRpu::parse(payload).unwrap();
        assert_eq!(rpu.dovi_profile, 8);
        let data = rpu.vdr_dm_data.unwrap();
        assert_eq!(data.scene_refresh_flag, (i == 0 || i == 24) as u64);
        let l2: Vec<&ExtMetadataBlock> =
            data.ext_metadata_blocks.iter().filter(|b| b.level() == 2).collect();
        assert_eq!(l2.len(), 1);
        assert_eq!(*l2[0], ExtMetadataBlock::Level2(ExtMetadataBlockLevel2::from_target_max_pq(2851)));
        assert_eq!(
            data.ext_metadata_blocks.iter().map(|b| b.level()).collect::<Vec<u8>>(),
            vec![2, 5, 6]
        );
    }
    assert_eq!(payloads[1], payloads[2]);
    assert_ne!(payloads[0], payloads[1]);
    assert_eq!(payloads[0], payloads[24]);
}

#[test]
fn aspect_ratios_give_the_active_area() {
    assert_eq!(offsets(1.78, 2.39, 3840.0, 2160.0), vec![0, 0, 275, 276]);
    assert_eq!(offsets(2.39, 1.78, 3840.0, 2160.0), vec![490, 490, 0, 0]);
    assert_eq!(offsets(1.78, 1.78, 3840.0, 2160.0), vec![0, 0, 0, 0]);
    let parser = read(TWO_SHOTS, opts(Some(3840), Some(2160))).unwrap();
    let expected = ExtMetadataBlockLevel5::from_offsets(0, 0, 275, 276);
    assert_eq!(parser.config.level5, Some(expected.clone()));
    let payloads = parser.config.generate_rpu_bytes(2081);
    assert_eq!(payloads.len(), 48);
    for payload in &payloads {
        let data = DoviRpu::parse(payload).unwrap().vdr_dm_data.unwrap();
        assert!(data.ext_metadata_blocks.contains(&ExtMetadataBlock::Level5(expected.clone())));
    }
}

#[test]
fn without_a_canvas_there_is_no_global_level5() {
    for o in [opts(None, None), opts(Some(3840), None), opts(None, Some(2160))] {
        let parser = read(TWO_SHOTS, o).unwrap();
        assert_eq!(parser.config.level5, None);
    }
    let bad = TWO_SHOTS.replace("<ImageAspectRatio>2.39</ImageAspectRatio>", "<ImageAspectRatio>wide</ImageAspectRatio>");
    assert_eq!(read(&bad, opts(Some(3840), Some(2160))).unwrap().config.level5, None);
    let absent = TWO_SHOTS.replace("<ImageAspectRatio>2.39</ImageAspectRatio>", "");
    assert_eq!(read(&absent, opts(Some(3840), Some(2160))).unwrap().config.level5, None);
}

#[test]
fn light_levels_are_read() {
    let parser = read(TWO_SHOTS, opts(None, None)).unwrap();
    assert_eq!(parser.config.level6, Some(ExtMetadataBlockLevel6::from_levels(4000, 50, 1000, 400)));
    assert_eq!(parser.cm_version, "2.0.5");
    assert_eq!(parser.separator, ',');
    assert!(!parser.is_cmv4());
    assert_eq!(parser.config.cm_version, CmVersion::V29);
    assert_eq!(parser.config.target_nits, 100);
    assert_eq!(parser.target_displays.len(), 2);
    assert_eq!((parser.target_displays[1].id.as_str(), parser.target_displays[1].peak_nits), ("27", 600));
    let data = VdrDmData::from_config(&parser.config, 2081);
    assert_eq!((data.source_min_pq, data.source_max_pq), (62, 3696));

    let bare = read(CM29, opts(None, None)).unwrap();
    assert_eq!(bare.config.level6, Some(ExtMetadataBlockLevel6::from_levels(0, 0, 0, 0)));
}

#[test]
fn the_trims_of_version_29_are_read() {
    let parser = read(CM29, opts(None, None)).unwrap();
    assert_eq!(parser.config.length, 5);
    let shot = &parser.config.shots[0];
    assert_eq!((shot.id.as_str(), shot.start, shot.duration), ("first", 10, 5));
    let expected = vec![
        ExtMetadataBlock::Level1(ExtMetadataBlockLevel1::from_stats(0, 2048, 1024)),
        ExtMetadataBlock::Level2(ExtMetadataBlockLevel2::from_trims(2851, 2048, 2048, 2048, 2048, 2048, 2048)),
        ExtMetadataBlock::Level2(ExtMetadataBlockLevel2::from_trims(2081, 1454, 2232, 1514, 3072, 1024, 0)),
        ExtMetadataBlock::Level3(ExtMetadataBlockLevel3::from_offsets(2048, 1536, 3072)),
    ];
    assert_eq!(shot.metadata_blocks, expected);
    assert!(shot.metadata_blocks.iter().all(|b| b.level() != 8 && b.level() != 9));
    assert_eq!(
        shot.frame_edits,
        vec![ShotFrameEdit {
            edit_offset: 2,
            metadata_blocks: vec![ExtMetadataBlock::Level1(ExtMetadataBlockLevel1::from_stats(0, 4095, 4095))],
        }]
    );
}

#[test]
fn the_neutral_trim_for_600_nits() {
    let request = NumberRequest {
        formula: Formula::Level2,
        values: vec!["0".to_string(); 6],
        peak_nits: 600,
        canvas_width: 0,
        canvas_height: 0,
    };
    let numbers = ask(&convert, &request).unwrap();
    assert_eq!(numbers, vec![2851, 2048, 2048, 2048, 2048, 2048, 2048]);
    let block = ExtMetadataBlockLevel2::from_numbers(&numbers);
    assert_eq!(block, ExtMetadataBlockLevel2::from_target_max_pq(2851));
    assert_eq!(block.block_info.ext_block_length, 11);
    assert_eq!(block.ms_weight, 2048);
}

#[test]
fn numbers_are_brought_into_range() {
    assert_eq!(clamp(-1, 4095), 0);
    assert_eq!(clamp(0, 4095), 0);
    assert_eq!(clamp(4095, 4095), 4095);
    assert_eq!(clamp(4096, 4095), 4095);
    assert_eq!(clamp(i32::MAX, 65535), 65535);
    assert_eq!(clamp(i32::MIN, 65535), 0);
    let block = ExtMetadataBlockLevel2::from_numbers(&vec![70000, 5000, -3, 4095, 4096, 0, -100]);
    assert_eq!(block, ExtMetadataBlockLevel2::from_trims(65535, 4095, 0, 4095, 4095, 0, 0));
    assert_eq!(
        ExtMetadataBlockLevel1::from_numbers(&vec![1, 2, 5000]),
        ExtMetadataBlockLevel1::from_stats(1, 4095, 2)
    );
    assert_eq!(
        ExtMetadataBlockLevel3::from_numbers(&vec![1, 2, 70000]),
        ExtMetadataBlockLevel3::from_offsets(1, 65535, 2)
    );
    assert_eq!(
        ExtMetadataBlockLevel5::from_numbers(&vec![1, -2, 8191, 8192]),
        ExtMetadataBlockLevel5::from_offsets(1, 0, 8191, 8191)
    );
    assert_eq!(
        ExtMetadataBlockLevel8::from_numbers(9, &vec![1, 2, 3, 4, 5, 4096]),
        ExtMetadataBlockLevel8::from_trims(9, 1, 2, 3, 4, 5, 4095)
    );
}

#[test]
fn an_answer_of_the_wrong_length_is_no_answer() {
    let request = NumberRequest {
        formula: Formula::Level1,
        values: vec!["0".to_string(); 3],
        peak_nits: 0,
        canvas_width: 0,
        canvas_height: 0,
    };
    assert_eq!(ask(&|_: &NumberRequest| Some(vec![1, 2]), &request), None);
    assert_eq!(ask(&|_: &NumberRequest| Some(vec![1, 2, 3]), &request), Some(vec![1, 2, 3]));
    assert_eq!(ask(&|_: &NumberRequest| None, &request), None);
    assert_eq!(Formula::Level2.answers(), 7);
    assert_eq!(Formula::Level5.answers(), 4);
    assert_eq!(Formula::Level8.answers(), 6);
    assert_eq!(Formula::MinimumBrightness.answers(), 1);
}

#[test]
fn the_trims_of_version_40_are_read() {
    let parser = read(CM40, opts(Some(3840), Some(2160))).unwrap();
    assert_eq!(parser.cm_version, "4.0.2");
    assert!(parser.is_cmv4());
    assert_eq!(parser.separator, ' ');
    assert_eq!(parser.config.cm_version, CmVersion::V40);
    let blocks = &parser.config.shots[0].metadata_blocks;
    assert_eq!(
        *blocks,
        vec![
            ExtMetadataBlock::Level1(ExtMetadataBlockLevel1::from_stats(0, 4095, 2048)),
            ExtMetadataBlock::Level5(ExtMetadataBlockLevel5::from_offsets(0, 0, 275, 276)),
            ExtMetadataBlock::Level8(ExtMetadataBlockLevel8::from_trims(48, 2048, 2048, 2048, 2048, 2048, 2048)),
            ExtMetadataBlock::Level9(ExtMetadataBlockLevel9::from_index(0)),
        ]
    );
    assert_eq!(blocks.iter().filter(|b| b.level() == 8).count(), 1);
    assert_eq!(blocks.iter().filter(|b| b.level() == 9).count(), 1);
    assert_eq!(parser.config.level5, None);
}

#[test]
fn a_level5_trim_needs_the_canvas() {
    assert!(matches!(read(CM40, opts(None, Some(2160))), Err(XmlError::XmlMissingCanvas)));
    assert!(matches!(read(CM40, opts(None, None)), Err(XmlError::XmlMissingCanvas)));
}

#[test]
fn the_version_is_looked_for_in_three_places() {
    let tree = |xml: &str| XmlTree::parse(xml).unwrap();
    let version = |xml: &str| CmXmlParser::parse_cm_version(&tree(xml));
    assert_eq!(version(r#"<DolbyLabsMDF version="2.0.5"/>"#).unwrap(), "2.0.5");
    assert_eq!(
        version(r#"<DolbyLabsMDF version="2.0.5"><Version>4.0.2</Version></DolbyLabsMDF>"#).unwrap(),
        "4.0.2"
    );
    assert_eq!(
        version(r#"<DolbyLabsMDF version="1"><Version>2.9</Version><a><Level254><CMVersion>4 1</CMVersion></Level254></a></DolbyLabsMDF>"#).unwrap(),
        "4.0.2"
    );
    assert_eq!(
        version(r#"<DolbyLabsMDF version="1"><Version>2.9</Version><Level254><CMVersion>2 9</CMVersion></Level254></DolbyLabsMDF>"#).unwrap(),
        "2.9"
    );
    assert_eq!(
        version(r#"<DolbyLabsMDF xmlns:x="urn:x" x:version="9" version="3"><Version/></DolbyLabsMDF>"#).unwrap(),
        "3"
    );
    assert!(matches!(version("<DolbyLabsMDF/>"), Err(XmlError::NoCmVersion)));
    assert!(matches!(
        version(r#"<DolbyLabsMDF xmlns:x="urn:x" x:version="9"/>"#),
        Err(XmlError::NoCmVersion)
    ));
    assert!(matches!(version("<Other version='1'/>"), Err(XmlError::XmlMissingNode(XmlPath::Root))));
    assert!(matches!(
        version("<DolbyLabsMDF version='1'><Level254/></DolbyLabsMDF>"),
        Err(XmlError::XmlMissingNode(XmlPath::CmVersion))
    ));
}

#[test]
fn what_has_to_be_there_is_missed() {
    let missing = |xml: &str| match read(xml, opts(None, None)) {
        Err(XmlError::XmlMissingNode(path)) => path,
        other => panic!("{:?}", other.map(|p| p.cm_version)),
    };
    assert_eq!(missing("<DolbyLabsMDF version='1'/>"), XmlPath::Output);
    assert_eq!(missing("<DolbyLabsMDF version='1'><Output/></DolbyLabsMDF>"), XmlPath::Video);
    assert_eq!(missing("<DolbyLabsMDF version='1'><Output><Video/></Output></DolbyLabsMDF>"), XmlPath::Shot);
    assert_eq!(missing(&TWO_SHOTS.replace("<UniqueID>a</UniqueID>", "")), XmlPath::UniqueId);
    assert_eq!(missing(&TWO_SHOTS.replace("<UniqueID>a</UniqueID>", "<UniqueID/>")), XmlPath::UniqueId);
    assert_eq!(missing(&TWO_SHOTS.replace("<In>0</In>", "")), XmlPath::RecordIn);
    assert_eq!(missing(&TWO_SHOTS.replace("<Duration>24</Duration></Record>\n            </Shot>\n          </Shots>", "</Record></Shot></Shots>")), XmlPath::RecordDuration);
    assert_eq!(missing(&TWO_SHOTS.replace("<Record><In>0</In><Duration>24</Duration></Record>", "")), XmlPath::Record);
    assert_eq!(missing(&TWO_SHOTS.replace("<ID>27</ID>", "")), XmlPath::TargetDisplayId);
    assert_eq!(missing(&TWO_SHOTS.replace("<ID>27</ID><PeakBrightness>600</PeakBrightness>", "<ID>27</ID>")), XmlPath::TargetDisplayPeak);
    assert_eq!(missing(&CM29.replace("<TID>27</TID>", "<TID>28</TID>")), XmlPath::TargetDisplay);
    assert_eq!(missing(&CM29.replace("<TID>27</TID>", "")), XmlPath::Tid);
    assert_eq!(missing(&CM29.replace("<Trim>9,9,9,0,0,0,0,0,0</Trim>", "")), XmlPath::Trim);
    assert_eq!(missing(&CM29.replace("<ImageCharacter>0.0001,0.25,0.5</ImageCharacter>", "")), XmlPath::ImageCharacter);
    assert_eq!(missing(&CM29.replace("<L1Offset>0,0.5,-0.25</L1Offset>", "")), XmlPath::L1Offset);
    assert_eq!(missing(&CM29.replace("<EditOffset>2</EditOffset>", "")), XmlPath::EditOffset);
    match read(&CM40.replace("<SourceColorModel>0</SourceColorModel>", ""), opts(Some(3840), Some(2160))) {
        Err(XmlError::XmlMissingNode(path)) => assert_eq!(path, XmlPath::SourceColorModel),
        other => panic!("{:?}", other.map(|p| p.cm_version)),
    }
}

#[test]
fn what_is_no_number_is_reported() {
    let bad = |xml: &str, o: XmlParserOpts| match read(xml, o) {
        Err(XmlError::XmlBadNumber(path, text)) => (path, text),
        other => panic!("{:?}", other.map(|p| p.cm_version)),
    };
    let none = opts(None, None);
    let canvas = opts(Some(3840), Some(2160));
    assert_eq!(bad(&TWO_SHOTS.replace("<In>0</In>", "<In>-1</In>"), none), (XmlPath::RecordIn, "-1".to_string()));
    assert_eq!(bad(&TWO_SHOTS.replace("<In>0</In>", "<In> 0</In>"), none), (XmlPath::RecordIn, " 0".to_string()));
    assert_eq!(bad(&TWO_SHOTS.replace("<MaxCLL>1000</MaxCLL>", "<MaxCLL>65536</MaxCLL>"), none), (XmlPath::MaxCll, "65536".to_string()));
    assert_eq!(bad(&TWO_SHOTS.replace("<MaxFALL>400</MaxFALL>", "<MaxFALL>4e2</MaxFALL>"), none), (XmlPath::MaxFall, "4e2".to_string()));
    assert_eq!(bad(&TWO_SHOTS.replace("0.005", "dark"), none), (XmlPath::MinimumBrightness, "dark".to_string()));
    assert_eq!(bad(&TWO_SHOTS.replace("<PeakBrightness>4000</PeakBrightness>", "<PeakBrightness>4000.0</PeakBrightness>"), none), (XmlPath::PeakBrightness, "4000.0".to_string()));
    assert_eq!(bad(&TWO_SHOTS.replace("<PeakBrightness>600</PeakBrightness>", "<PeakBrightness>x</PeakBrightness>"), none), (XmlPath::TargetDisplayPeak, "x".to_string()));
    assert_eq!(bad(&CM29.replace("0.0001,0.25,0.5", "0.0001,0.25"), none), (XmlPath::ImageCharacter, "0.0001,0.25".to_string()));
    assert_eq!(bad(&CM29.replace("0.0001,0.25,0.5", "0.0001 0.25 0.5"), none), (XmlPath::ImageCharacter, "0.0001 0.25 0.5".to_string()));
    assert_eq!(bad(&CM29.replace("0.0001,0.25,0.5", "0.0001,a,0.5"), none), (XmlPath::ImageCharacter, "0.0001,a,0.5".to_string()));
    assert_eq!(bad(&CM29.replace("9,9,9,0,0,0,0,0,0", "9,9,9,0,0,0,0,0"), none), (XmlPath::Trim, "9,9,9,0,0,0,0,0".to_string()));
    assert_eq!(bad(&CM29.replace("0,0.5,-0.25", "0,0.5,-0.25,"), none), (XmlPath::L1Offset, "0,0.5,-0.25,".to_string()));
    assert_eq!(bad(&CM29.replace("<EditOffset>2</EditOffset>", "<EditOffset>two</EditOffset>"), none), (XmlPath::EditOffset, "two".to_string()));
    assert_eq!(bad(&CM40.replace("1.78 2.39", "1.78"), canvas), (XmlPath::AspectRatios, "1.78".to_string()));
    assert_eq!(bad(&CM40.replace("<L8Trim>0 0 0 0 0 0</L8Trim>", "<L8Trim>0 0 0 0 0</L8Trim>"), canvas), (XmlPath::L8Trim, "0 0 0 0 0".to_string()));
    assert_eq!(bad(&CM40.replace("<SourceColorModel>0</SourceColorModel>", "<SourceColorModel>256</SourceColorModel>"), canvas), (XmlPath::SourceColorModel, "256".to_string()));
    assert_eq!(
        bad(&CM40.replace("<ID>48</ID>", "<ID>300</ID>").replace("<TID>48</TID>", "<TID>300</TID>"), canvas),
        (XmlPath::TargetDisplayId, "300".to_string())
    );
}

#[test]
fn what_is_no_document_is_refused() {
    assert!(matches!(read("", opts(None, None)), Err(XmlError::Malformed)));
    assert!(matches!(read("<a><b></a>", opts(None, None)), Err(XmlError::Malformed)));
    assert!(XmlTree::parse("not xml").is_none());
    assert_eq!(XmlPath::RecordIn.as_str(), "Output/Video/Shots/Shot/Record/In");
}

#[test]
fn the_last_of_two_displays_with_one_id_counts() {
    let xml = CM29.replace(
        "<TargetDisplay><ID>1</ID><PeakBrightness>100</PeakBrightness></TargetDisplay>",
        "<TargetDisplay><ID>27</ID><PeakBrightness>100</PeakBrightness></TargetDisplay>",
    );
    let xml = xml.replace("<DolbyEDR level=\"2\"><TID>1</TID><Trim>0,0,0,0.1,-0.2,0.3,0.5,-0.5,-2</Trim></DolbyEDR>", "");
    let xml = xml.replace("<DolbyEDR level=\"8\"><TID>1</TID><L8Trim>0,0,0,0,0,0</L8Trim></DolbyEDR>", "");
    let parser = read(&xml, opts(None, None)).unwrap();
    assert_eq!(
        parser.config.shots[0].metadata_blocks[1],
        ExtMetadataBlock::Level2(ExtMetadataBlockLevel2::from_target_max_pq(2851))
    );
    let found = CmXmlParser::find_target(&parser.target_displays, "27").unwrap();
    assert_eq!(found.peak_nits, 600);
    assert!(CmXmlParser::find_target(&parser.target_displays, "1").is_none());
}

#[test]
fn nodes_are_found_in_document_order() {
    let tree = XmlTree::parse(r#"<r a="1"><x><y k="v">t</y></x><y n:k="w" xmlns:n="urn:n"/><!-- c --><y>u</y></r>"#).unwrap();
    // root, r, x, y, text, y, comment, y, text
    assert_eq!(tree.nodes.len(), 9);
    assert!(tree.nodes[0].parent.is_none());
    assert_eq!(tree.nodes[1].parent, Some(0));
    assert!(tree.has_tag_name(1, "r"));
    assert!(!tree.has_tag_name(0, ""));
    assert!(!tree.has_tag_name(4, ""));
    assert_eq!(tree.find_descendant(0, &NodeTest::Tag("y")), Some(3));
    assert_eq!(tree.find_descendant(3, &NodeTest::Tag("y")), Some(3));
    assert_eq!(tree.find_descendant(4, &NodeTest::Tag("y")), None);
    assert_eq!(tree.find_descendant(2, &NodeTest::Tag("r")), None);
    assert_eq!(tree.find_child(1, &NodeTest::Tag("y")), Some(5));
    assert_eq!(tree.find_child(1, &NodeTest::Tag("z")), None);
    assert_eq!(tree.children(1, &NodeTest::Tag("y")), vec![5, 7]);
    assert_eq!(tree.descendants(1, &NodeTest::Tag("y")), vec![3, 5, 7]);
    assert_eq!(tree.descendants(2, &NodeTest::Tag("y")), vec![3]);
    assert_eq!(tree.children(1, &NodeTest::Attribute("k")), Vec::<usize>::new());
    assert_eq!(tree.descendants(0, &NodeTest::Attribute("k")), vec![3]);
    assert_eq!(tree.descendants(0, &NodeTest::TagWithAttribute("y", "k")), vec![3]);
    assert_eq!(tree.descendants(0, &NodeTest::TagWithAttribute("x", "k")), Vec::<usize>::new());
    assert_eq!(tree.attribute(3, "k").map(|s| s.as_str()), Some("v"));
    assert_eq!(tree.attribute(5, "k"), None);
    assert_eq!(tree.attribute(1, "a").map(|s| s.as_str()), Some("1"));
    assert_eq!(tree.text(3).map(|s| s.as_str()), Some("t"));
    assert_eq!(tree.text(2), None);
    assert_eq!(tree.text(6).map(|s| s.as_str()), Some(" c "));
    assert!(tree.in_subtree(1, 4));
    assert!(tree.in_subtree(2, 4));
    assert!(!tree.in_subtree(5, 4));
    assert!(tree.in_subtree(4, 4));
    assert!(!tree.in_subtree(2, 100));
    assert!(tree.is_child(1, 7));
    assert!(!tree.is_child(2, 7));
}

#[test]
fn texts_are_split_and_numbers_are_read() {
    assert_eq!(split("a,b,,c", ','), vec!["a", "b", "", "c"]);
    assert_eq!(split("", ','), vec![""]);
    assert_eq!(split(",", ','), vec!["", ""]);
    assert_eq!(split("0 0.5 1", ' '), vec!["0", "0.5", "1"]);
    assert_eq!(split("äö ü", ' '), vec!["äö", "ü"]);
    assert_eq!(parse_unsigned("0", 10), Some(0));
    assert_eq!(parse_unsigned("+7", 10), Some(7));
    assert_eq!(parse_unsigned("0010", 10), Some(10));
    assert_eq!(parse_unsigned("11", 10), None);
    assert_eq!(parse_unsigned("", 10), None);
    assert_eq!(parse_unsigned("+", 10), None);
    assert_eq!(parse_unsigned("-1", 10), None);
    assert_eq!(parse_unsigned("++1", 10), None);
    assert_eq!(parse_unsigned("1 ", 10), None);
    assert_eq!(parse_unsigned("18446744073709551615", u64::MAX), Some(u64::MAX));
    assert_eq!(parse_unsigned("18446744073709551616", u64::MAX), None);
    assert_eq!(parse_unsigned("65535", 65535), Some(65535));
    assert_eq!(parse_unsigned("65536", 65535), None);
    assert!(str_eq("4.0.2", "4.0.2"));
    assert!(!str_eq("4.0.2", "4.0.1"));
    assert!(!str_eq("4.0.2", "4.0"));
    assert!(str_contains("4 1", '4'));
    assert!(!str_contains("2 9", '4'));
}

fn shot(start: usize, duration: usize, blocks: Vec<ExtMetadataBlock>, edits: Vec<ShotFrameEdit>) -> VideoShot {
    VideoShot { id: format!("{}", start), start, duration, metadata_blocks: blocks, frame_edits: edits }
}

#[test]
fn a_frame_edit_replaces_the_blocks_of_its_levels_in_one_frame() {
    let l1 = |max: u16| ExtMetadataBlock::Level1(ExtMetadataBlockLevel1::from_stats(0, max, 0));
    let l5 = |top: u16| ExtMetadataBlock::Level5(ExtMetadataBlockLevel5::from_offsets(0, 0, top, top));
    let mut config = GenerateConfig::new();
    config.level5 = Some(ExtMetadataBlockLevel5::from_offsets(1, 1, 1, 1));
    config.shots = vec![
        shot(0, 3, vec![l1(100), l5(50)], vec![
            ShotFrameEdit { edit_offset: 1, metadata_blocks: vec![l1(200)] },
            ShotFrameEdit { edit_offset: 1, metadata_blocks: vec![l1(300)] },
            ShotFrameEdit { edit_offset: 7, metadata_blocks: vec![l1(400)] },
        ]),
        shot(3, 0, vec![], vec![]),
        shot(3, 1, vec![], vec![]),
    ];
    config.length = 4;
    let payloads = config.generate_rpu_bytes(2081);
    assert_eq!(payloads.len(), 4);
    let data: Vec<VdrDmData> =
        payloads.iter().map(|p| DoviRpu::parse(p).unwrap().vdr_dm_data.unwrap()).collect();
    let l2 = ExtMetadataBlock::Level2(ExtMetadataBlockLevel2::from_target_max_pq(2081));
    assert_eq!(data[0].ext_metadata_blocks, vec![l1(100), l2.clone(), l5(50)]);
    assert_eq!(data[1].ext_metadata_blocks, vec![l1(200), l2.clone(), l5(50)]);
    assert_eq!(data[2].ext_metadata_blocks, vec![l1(100), l2.clone(), l5(50)]);
    assert_eq!(data[3].ext_metadata_blocks, vec![l2.clone(), ExtMetadataBlock::Level5(ExtMetadataBlockLevel5::from_offsets(1, 1, 1, 1))]);
    assert_eq!(data.iter().map(|d| d.scene_refresh_flag).collect::<Vec<u64>>(), vec![1, 0, 0, 1]);
    assert_eq!(data.iter().map(|d| d.num_ext_blocks).collect::<Vec<u64>>(), vec![3, 3, 3, 2]);
    for (i, d) in data.iter().enumerate() {
        assert_eq!(*d, VdrDmData::for_frame(&config, 2081, &config.shots[if i < 3 { 0 } else { 2 }], i % 3));
        assert_eq!(d.validate(), Ok(()));
    }

    assert_eq!(find_edit(&config.shots[0].frame_edits, 1), Some(0));
    assert_eq!(find_edit(&config.shots[0].frame_edits, 7), Some(2));
    assert_eq!(find_edit(&config.shots[0].frame_edits, 0), None);
    assert!(announces(&config.shots[0].metadata_blocks, 5));
    assert!(!announces(&config.shots[0].metadata_blocks, 2));
    assert_eq!(
        merge_blocks(&vec![l1(1), l5(2), l1(3), l2.clone()], &vec![l1(9), l1(8)]),
        vec![l5(2), l2, l1(9), l1(8)]
    );
}

#[test]
fn without_shots_there_are_no_rpus() {
    let config = GenerateConfig::new();
    assert_eq!(config.target_nits, 100);
    assert!(config.generate_rpu_bytes(2081).is_empty());
}

#[test]
fn a_generated_rpu_is_read_bit_by_bit() {
    let mut config = GenerateConfig::new();
    config.shots = vec![shot(0, 1, vec![], vec![])];
    let payload = config.generate_rpu_bytes(2081).remove(0);
    let mut reader = BitVecReader::new(&payload);
    assert_eq!(reader.get_n(8), Ok(25));
    assert_eq!(reader.get_n(6), Ok(2));
    assert_eq!(reader.get_n(11), Ok(18));
    assert_eq!(reader.get_n(4), Ok(1));
    assert_eq!(reader.get_n(4), Ok(0));
    assert_eq!(reader.get(), Ok(true));
}
