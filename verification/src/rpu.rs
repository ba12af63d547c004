//! A whole RPU: header, mapping, quantization, display management data,
//! checksum.

use vstd::prelude::*;
use crate::bits::{bits_bytes, bits_value, bytes_bits, value_bits, zero_bits};
use crate::bitvec_reader::BitVecReader;
use crate::bitvec_writer::BitVecWriter;
use crate::crc32::{compute_crc32_range, spec_crc32};
use crate::dm_codec::{align_pad, spec_dm_bits, spec_parse_dm, spec_skip_alignment};
use crate::error::RpuError;
use crate::rpu_header::{spec_header_bits, spec_parse_header, RpuDataHeader, RpuDataHeaderView};
use crate::rpu_mapping::{
    spec_mapping_bits, spec_nlq_bits, spec_parse_mapping, spec_parse_nlq, MappingCurveView,
    NlqParams, RpuDataMapping, RpuDataNlq,
};
use crate::vdr_dm_data::{VdrDmData, VdrDmDataView};

verus! {

/// One RPU.
#[derive(Clone, Debug, PartialEq, Eq)]
pub struct DoviRpu {
    /// The profile that the header stands for: 4, 5, 7 or 8, or 0 for none of them.
    pub dovi_profile: u8,
    pub header: RpuDataHeader,
    /// The mapping, unless the RPU reuses that of an earlier one.
    pub mapping: Option<RpuDataMapping>,
    /// The quantization of the enhancement layer, if there is one.
    pub nlq: Option<RpuDataNlq>,
    pub vdr_dm_data: Option<VdrDmData>,
    /// The number of zero bits between the data and the checksum.
    pub trailing_zero_bits: usize,
    pub crc32: u32,
    /// Whether the RPU was changed since it was read.
    pub modified: bool,
}

/// An RPU with its parts as the wire sees them.
pub struct DoviRpuView {
    pub dovi_profile: u8,
    pub header: RpuDataHeaderView,
    pub mapping: Option<Seq<Seq<MappingCurveView>>>,
    pub nlq: Option<Seq<NlqParams>>,
    pub vdr_dm_data: Option<VdrDmDataView>,
    pub trailing_zero_bits: usize,
    pub crc32: u32,
    pub modified: bool,
}

impl View for DoviRpu {
    type V = DoviRpuView;

    open spec fn view(&self) -> DoviRpuView {
        DoviRpuView {
            dovi_profile: self.dovi_profile,
            header: self.header@,
            mapping: match self.mapping {
                Some(m) => Some(m@),
                None => None,
            },
            nlq: match self.nlq {
                Some(n) => Some(n@),
                None => None,
            },
            vdr_dm_data: match self.vdr_dm_data {
                Some(d) => Some(d@),
                None => None,
            },
            trailing_zero_bits: self.trailing_zero_bits,
            crc32: self.crc32,
            modified: self.modified,
        }
    }
}

/// The parts of an RPU that are data: all but the checksum.
pub struct RpuPartsView {
    pub header: RpuDataHeaderView,
    pub mapping: Option<Seq<Seq<MappingCurveView>>>,
    pub nlq: Option<Seq<NlqParams>>,
    pub vdr_dm_data: Option<VdrDmDataView>,
}

impl DoviRpuView {
    /// The parts of the RPU that are data.
    pub open spec fn parts(self) -> RpuPartsView {
        RpuPartsView {
            header: self.header,
            mapping: self.mapping,
            nlq: self.nlq,
            vdr_dm_data: self.vdr_dm_data,
        }
    }
}

/// The marker that ends an RPU.
pub const FINAL_BYTE: u8 = 0x80;

/// What stands in front of the display management data: header, mapping
/// and quantization.
pub open spec fn spec_front_bits(rpu: RpuPartsView) -> Seq<bool> {
    spec_header_bits(rpu.header) + spec_optional_mapping_bits(rpu.mapping, rpu.header)
        + spec_optional_nlq_bits(rpu.nlq, rpu.header)
}

/// The data of an RPU: what stands in front of the display management
/// data, and that data.
pub open spec fn spec_data_bits(rpu: RpuPartsView) -> Seq<bool> {
    spec_front_bits(rpu) + spec_optional_dm_bits(rpu.vdr_dm_data, spec_front_bits(rpu).len())
}

/// The data of an RPU with zero bits up to the next byte boundary.
pub open spec fn spec_body_bits(rpu: RpuPartsView) -> Seq<bool> {
    spec_data_bits(rpu) + zero_bits(align_pad(spec_data_bits(rpu).len()))
}

/// The checksum that is written for `rpu`: the one it holds, or for a
/// changed RPU that of its bytes after the first.
pub open spec fn spec_written_crc(rpu: DoviRpuView) -> u32 {
    if rpu.modified {
        spec_crc32(after_first(bits_bytes(spec_body_bits(rpu.parts()))))
    } else {
        rpu.crc32
    }
}

/// The bytes after the first.
pub open spec fn after_first(bytes: Seq<u8>) -> Seq<u8> {
    if bytes.len() == 0 {
        bytes
    } else {
        bytes.subrange(1, bytes.len() as int)
    }
}

/// The bytes of an RPU: its data up to a byte boundary, the checksum, and
/// the final marker.
pub open spec fn spec_encoded(rpu: DoviRpuView) -> Seq<u8> {
    bits_bytes(
        spec_body_bits(rpu.parts()) + value_bits(spec_written_crc(rpu) as nat, 32) + value_bits(
            FINAL_BYTE as nat,
            8,
        ),
    )
}

/// What is written for an RPU: its bytes; for a changed RPU whose display
/// management data is not valid, the reason why it is not.
pub open spec fn spec_write_rpu(rpu: DoviRpu) -> Result<Seq<u8>, RpuError> {
    match (if rpu.modified {
        match rpu.vdr_dm_data {
            Some(d) => d.spec_validate(),
            None => Ok(()),
        }
    } else {
        Ok(())
    }) {
        Err(e) => Err(e),
        Ok(()) => Ok(spec_encoded(rpu@)),
    }
}

/// Reading the mapping, unless that of an earlier RPU is reused.
pub open spec fn spec_parse_optional_mapping(bits: Seq<bool>, header: RpuDataHeaderView) -> Result<
    (Option<Seq<Seq<MappingCurveView>>>, Seq<bool>),
    RpuError,
> {
    if header.use_prev_vdr_rpu_flag {
        Ok((None, bits))
    } else {
        match spec_parse_mapping(bits, header) {
            Err(e) => Err(e),
            Ok((m, rest)) => Ok((Some(m), rest)),
        }
    }
}

/// Reading the quantization, if the RPU has one.
pub open spec fn spec_parse_optional_nlq(bits: Seq<bool>, header: RpuDataHeaderView) -> Result<
    (Option<Seq<NlqParams>>, Seq<bool>),
    RpuError,
> {
    if header.has_nlq() {
        match spec_parse_nlq(bits, header) {
            Err(e) => Err(e),
            Ok((n, rest)) => Ok((Some(n), rest)),
        }
    } else {
        Ok((None, bits))
    }
}

/// Reading the display management data, if the header announces it, from
/// `bits`, which start `position` bits into the RPU.
pub open spec fn spec_parse_optional_dm(bits: Seq<bool>, header: RpuDataHeaderView, position: nat) -> Result<
    (Option<VdrDmDataView>, Seq<bool>),
    RpuError,
> {
    if header.vdr_dm_metadata_present_flag {
        match spec_parse_dm(bits, position) {
            Err(e) => Err(e),
            Ok((d, rest)) => Ok((Some(d), rest)),
        }
    } else {
        Ok((None, bits))
    }
}

/// The bits of a mapping that may be absent.
pub open spec fn spec_optional_mapping_bits(
    mapping: Option<Seq<Seq<MappingCurveView>>>,
    header: RpuDataHeaderView,
) -> Seq<bool> {
    match mapping {
        Some(m) => spec_mapping_bits(m, header),
        None => Seq::empty(),
    }
}

/// The bits of a quantization that may be absent.
pub open spec fn spec_optional_nlq_bits(nlq: Option<Seq<NlqParams>>, header: RpuDataHeaderView) -> Seq<
    bool,
> {
    match nlq {
        Some(n) => spec_nlq_bits(n, header),
        None => Seq::empty(),
    }
}

/// The bits of display management data that may be absent, written
/// `position` bits into the RPU.
pub open spec fn spec_optional_dm_bits(data: Option<VdrDmDataView>, position: nat) -> Seq<bool> {
    match data {
        Some(d) => spec_dm_bits(d, position),
        None => Seq::empty(),
    }
}

/// Reading what follows the header: the mapping, unless an earlier one is
/// reused; the quantization, if there is one; and the display management
/// data, if the header announces it. `consumed` is the number of bits in
/// front of `bits`.
pub open spec fn spec_parse_payload(bits: Seq<bool>, header: RpuDataHeaderView, consumed: nat) -> Result<
    (
        (Option<Seq<Seq<MappingCurveView>>>, Option<Seq<NlqParams>>, Option<VdrDmDataView>),
        Seq<bool>,
    ),
    RpuError,
> {
    match spec_parse_optional_mapping(bits, header) {
        Err(e) => Err(e),
        Ok((mapping, after_mapping)) => match spec_parse_optional_nlq(after_mapping, header) {
            Err(e) => Err(e),
            Ok((nlq, after_nlq)) => match spec_parse_optional_dm(
                after_nlq,
                header,
                (consumed + bits.len() - after_nlq.len()) as nat,
            ) {
                Err(e) => Err(e),
                Ok((dm, rest)) => Ok(((mapping, nlq, dm), rest)),
            },
        },
    }
}

/// Reading the end of an RPU from `bits`, which start `position` bits into
/// it: zero bits up to the next byte boundary, then exactly the checksum
/// and the final marker; `(trailing zero bits, checksum)`. The checksum
/// has to be that of `covered`.
pub open spec fn spec_parse_end(bits: Seq<bool>, position: nat, covered: Seq<u8>) -> Result<
    (usize, u32),
    RpuError,
> {
    match spec_skip_alignment(bits, position) {
        Err(e) => Err(e),
        Ok(rest) => if rest.len() < 40 {
            Err(RpuError::Truncated)
        } else if rest.len() > 40 {
            Err(RpuError::MissingMarker)
        } else if bits_value(rest.take(32)) != spec_crc32(covered) {
            Err(RpuError::CrcMismatch)
        } else if bits_value(rest.skip(32)) != FINAL_BYTE {
            Err(RpuError::MissingMarker)
        } else {
            Ok(((bits.len() - rest.len()) as usize, bits_value(rest.take(32)) as u32))
        },
    }
}

/// Reading the data of an RPU: the header, and what follows it as far as
/// the header announces it.
pub open spec fn spec_parse_parts(bits: Seq<bool>) -> Result<(RpuPartsView, Seq<bool>), RpuError> {
    match spec_parse_header(bits) {
        Err(e) => Err(e),
        Ok((header, after_header)) => match spec_parse_payload(
            after_header,
            header,
            (bits.len() - after_header.len()) as nat,
        ) {
            Err(e) => Err(e),
            Ok(((mapping, nlq, vdr_dm_data), rest)) => Ok(
                (RpuPartsView { header, mapping, nlq, vdr_dm_data }, rest),
            ),
        },
    }
}

/// Reading an RPU of at least six bytes: the header; the mapping, the
/// quantization and the display management data as far as the header
/// announces them; zero bits up to the next byte boundary; the checksum,
/// which has to be that of the bytes between the first and itself; and the
/// final marker.
pub open spec fn spec_parse_rpu(bytes: Seq<u8>) -> Result<DoviRpuView, RpuError> {
    let bits = bytes_bits(bytes);
    if bytes.len() < 6 {
        Err(RpuError::Truncated)
    } else {
        match spec_parse_parts(bits) {
            Err(e) => Err(e),
            Ok((parts, rest)) => match spec_parse_end(
                rest,
                (bits.len() - rest.len()) as nat,
                bytes.subrange(1, bytes.len() - 5),
            ) {
                Err(e) => Err(e),
                Ok((trailing_zero_bits, crc32)) => Ok(
                    DoviRpuView {
                        dovi_profile: parts.header.dovi_profile(),
                        header: parts.header,
                        mapping: parts.mapping,
                        nlq: parts.nlq,
                        vdr_dm_data: parts.vdr_dm_data,
                        trailing_zero_bits,
                        crc32,
                        modified: false,
                    },
                ),
            },
        }
    }
}

impl DoviRpu {
    /// Whether the header has pivots for three components, of each fewer
    /// than an Exp-Golomb code can count: what writing and changing ask for.
    pub open spec fn wf(&self) -> bool {
        self.header@.wf()
    }

    /// Whether the RPU may be written and changed.
    pub fn is_well_formed(&self) -> (r: bool)
        ensures
            r == self.wf(),
    {
        self.header.pred_pivot_value.len() == 3 && self.header.num_pivots_minus_2[0]
            < 0x2_0000_0000 && self.header.num_pivots_minus_2[1] < 0x2_0000_0000
            && self.header.num_pivots_minus_2[2] < 0x2_0000_0000
    }

    fn parse_payload(reader: &mut BitVecReader, header: &RpuDataHeader) -> (r: Result<
        (Option<RpuDataMapping>, Option<RpuDataNlq>, Option<VdrDmData>),
        RpuError,
    >)
        requires
            header@.wf(),
        ensures
            final(reader).bits() == old(reader).bits(),
            match spec_parse_payload(
                old(reader).remaining(),
                header@,
                old(reader).position(),
            ) {
                Ok(((mapping, nlq, dm), rest)) => r is Ok && final(reader).remaining() == rest && (
                match r->Ok_0.0 {
                    Some(m) => Some(m@),
                    None => None,
                }) == mapping && (match r->Ok_0.1 {
                    Some(n) => Some(n@),
                    None => None,
                }) == nlq && (match r->Ok_0.2 {
                    Some(d) => Some(d@),
                    None => None,
                }) == dm,
                Err(e) => r == Err::<
                    (Option<RpuDataMapping>, Option<RpuDataNlq>, Option<VdrDmData>),
                    _,
                >(e),
            },
    {
        proof {
            reader.lemma_position_in_range();
        }
        let mapping = if header.use_prev_vdr_rpu_flag {
            None
        } else {
            match RpuDataMapping::parse(reader, header) {
                Ok(m) => Some(m),
                Err(e) => {
                    return Err(e);
                },
            }
        };
        let nlq = if header.has_nlq() {
            match RpuDataNlq::parse(reader, header) {
                Ok(n) => Some(n),
                Err(e) => {
                    return Err(e);
                },
            }
        } else {
            None
        };
        proof {
            reader.lemma_position_in_range();
        }
        let vdr_dm_data = if header.vdr_dm_metadata_present_flag {
            match VdrDmData::vdr_dm_data_payload(reader) {
                Ok(d) => Some(d),
                Err(e) => {
                    return Err(e);
                },
            }
        } else {
            None
        };
        Ok((mapping, nlq, vdr_dm_data))
    }

    fn parse_end(reader: &mut BitVecReader, data: &Vec<u8>) -> (r: Result<(usize, u32), RpuError>)
        requires
            data@.len() >= 6,
        ensures
            r == spec_parse_end(
                old(reader).remaining(),
                old(reader).position(),
                data@.subrange(1, data@.len() - 5),
            ),
    {
        let before = reader.available();
        if let Err(e) = crate::dm_codec::skip_alignment(reader) {
            return Err(e);
        }
        let left = reader.available();
        if left < 40 {
            return Err(RpuError::Truncated);
        }
        if left > 40 {
            return Err(RpuError::MissingMarker);
        }
        let ghost rest = reader.remaining();
        let crc = match reader.get_n(32) {
            Ok(v) => v,
            Err(e) => {
                return Err(e);
            },
        };
        let marker = match reader.get_n(8) {
            Ok(v) => v,
            Err(e) => {
                return Err(e);
            },
        };
        proof {
            assert(rest.skip(32).take(8) =~= rest.skip(32));
        }
        if crc != compute_crc32_range(data, 1, data.len() - 5) {
            return Err(RpuError::CrcMismatch);
        }
        if marker != 0x80 {
            return Err(RpuError::MissingMarker);
        }
        Ok((before - left, crc))
    }

    /// Reads an RPU.
    pub fn parse(data: &Vec<u8>) -> (r: Result<DoviRpu, RpuError>)
        ensures
            match spec_parse_rpu(data@) {
                Ok(rpu) => r is Ok && r->Ok_0@ == rpu && r->Ok_0.wf(),
                Err(e) => r == Err::<DoviRpu, _>(e),
            },
    {
        if data.len() < 6 {
            return Err(RpuError::Truncated);
        }
        let mut reader = BitVecReader::new(data);
        proof {
            reader.lemma_position_in_range();
        }
        let ghost bits = bytes_bits(data@);
        assert(reader.remaining() =~= bits);
        let header = match RpuDataHeader::parse(&mut reader) {
            Ok(h) => h,
            Err(e) => {
                return Err(e);
            },
        };
        let ghost after_header = reader.remaining();
        proof {
            reader.lemma_position_in_range();
            assert(spec_parse_header(bits) == Ok::<_, RpuError>((header@, after_header)));
            assert(reader.position() == bits.len() - after_header.len());
        }
        let (mapping, nlq, vdr_dm_data) = match DoviRpu::parse_payload(&mut reader, &header) {
            Ok(parts) => parts,
            Err(e) => {
                return Err(e);
            },
        };
        let ghost rest = reader.remaining();
        proof {
            reader.lemma_position_in_range();
            assert(reader.position() == bits.len() - rest.len());
        }
        let (trailing_zero_bits, crc32) = match DoviRpu::parse_end(&mut reader, data) {
            Ok(end) => end,
            Err(e) => {
                return Err(e);
            },
        };
        Ok(
            DoviRpu {
                dovi_profile: header.dovi_profile(),
                header,
                mapping,
                nlq,
                vdr_dm_data,
                trailing_zero_bits,
                crc32,
                modified: false,
            },
        )
    }

    fn write_front(&self) -> (writer: BitVecWriter)
        requires
            self.wf(),
        ensures
            writer@ == spec_front_bits(self@.parts()),
    {
        let mut writer = BitVecWriter::new();
        self.header.write(&mut writer);
        if let Some(m) = &self.mapping {
            m.write(&mut writer, &self.header);
        }
        if let Some(n) = &self.nlq {
            n.write(&mut writer, &self.header);
        }
        assert(writer@ =~= spec_front_bits(self@.parts()));
        writer
    }

    fn write_body(&self) -> (writer: BitVecWriter)
        requires
            self.wf(),
        ensures
            writer@ == spec_body_bits(self@.parts()),
    {
        let mut writer = self.write_front();
        if let Some(d) = &self.vdr_dm_data {
            d.write(&mut writer);
        }
        assert(writer@ =~= spec_data_bits(self@.parts()));
        let ghost data = writer@;
        let mut padded: usize = 0;
        assert(data + zero_bits(0) =~= data);
        while !writer.is_aligned()
            invariant
                padded <= align_pad(data.len()),
                writer@ == data + zero_bits(padded as nat),
                (writer@.len() % 8 == 0) == (padded == align_pad(data.len())),
            decreases align_pad(data.len()) - padded,
        {
            writer.write(false);
            padded += 1;
            assert(writer@ =~= data + zero_bits(padded as nat));
        }
        writer
    }

    /// Writes the RPU. One that was changed has its display management
    /// data validated first and its checksum computed anew.
    pub fn write_rpu(&self) -> (r: Result<Vec<u8>, RpuError>)
        requires
            self.wf(),
        ensures
            match spec_write_rpu(*self) {
                Ok(bytes) => r is Ok && r->Ok_0@ == bytes,
                Err(e) => r == Err::<Vec<u8>, _>(e),
            },
    {
        if self.modified {
            if let Some(d) = &self.vdr_dm_data {
                if let Err(e) = d.validate() {
                    return Err(e);
                }
            }
        }
        let mut writer = self.write_body();
        let crc = if self.modified {
            let body = writer.as_bytes();
            if body.len() == 0 {
                assert(body@.subrange(0, 0) =~= body@);
                compute_crc32_range(&body, 0, 0)
            } else {
                compute_crc32_range(&body, 1, body.len())
            }
        } else {
            self.crc32
        };
        writer.write_n(crc as u64, 32);
        writer.write_n(0x80, 8);
        Ok(writer.as_bytes())
    }
}

/// Bits that read as a mapping that may be absent are the bits of it.
pub proof fn lemma_optional_mapping_bits_of_parse(bits: Seq<bool>, header: RpuDataHeaderView)
    requires
        spec_parse_optional_mapping(bits, header) is Ok,
    ensures
        bits == spec_optional_mapping_bits(
            spec_parse_optional_mapping(bits, header)->Ok_0.0,
            header,
        ) + spec_parse_optional_mapping(bits, header)->Ok_0.1,
{
    if header.use_prev_vdr_rpu_flag {
        assert(bits =~= Seq::<bool>::empty() + bits);
    } else {
        crate::rpu_mapping::lemma_mapping_bits_of_parse(bits, header);
    }
}

/// Bits that read as a quantization that may be absent are the bits of it.
pub proof fn lemma_optional_nlq_bits_of_parse(bits: Seq<bool>, header: RpuDataHeaderView)
    requires
        spec_parse_optional_nlq(bits, header) is Ok,
    ensures
        bits == spec_optional_nlq_bits(spec_parse_optional_nlq(bits, header)->Ok_0.0, header)
            + spec_parse_optional_nlq(bits, header)->Ok_0.1,
{
    if header.has_nlq() {
        crate::rpu_mapping::lemma_nlq_bits_of_parse(bits, header);
    } else {
        assert(bits =~= Seq::<bool>::empty() + bits);
    }
}

/// Bits that read as display management data that may be absent are the
/// bits of it, where the bits after the fields of each of its blocks are
/// as a writer puts them.
pub proof fn lemma_optional_dm_bits_of_parse(bits: Seq<bool>, header: RpuDataHeaderView, position: nat)
    requires
        spec_parse_optional_dm(bits, header, position) is Ok,
        spec_parse_optional_dm(bits, header, position)->Ok_0.0 is Some
            ==> spec_parse_optional_dm(bits, header, position)->Ok_0.0->Some_0.zero_padded(),
    ensures
        bits == spec_optional_dm_bits(
            spec_parse_optional_dm(bits, header, position)->Ok_0.0,
            position,
        ) + spec_parse_optional_dm(bits, header, position)->Ok_0.1,
{
    if header.vdr_dm_metadata_present_flag {
        crate::dm_codec::lemma_dm_bits_of_parse_dm(bits, position);
    } else {
        assert(bits =~= Seq::<bool>::empty() + bits);
    }
}

/// Bits that read as the data of an RPU are the bits of that data, where
/// the bits after the fields of each block of the display management data
/// are as a writer puts them.
pub proof fn lemma_data_bits_of_parse(bits: Seq<bool>)
    requires
        spec_parse_parts(bits) is Ok,
        spec_parse_parts(bits)->Ok_0.0.vdr_dm_data is Some ==> spec_parse_parts(
            bits,
        )->Ok_0.0.vdr_dm_data->Some_0.zero_padded(),
    ensures
        bits == spec_data_bits(spec_parse_parts(bits)->Ok_0.0) + spec_parse_parts(bits)->Ok_0.1,
{
    crate::rpu_header::lemma_header_bits_of_parse(bits);
    let (header, after_header) = spec_parse_header(bits)->Ok_0;
    let consumed = (bits.len() - after_header.len()) as nat;
    let (parts, rest) = spec_parse_parts(bits)->Ok_0;
    lemma_optional_mapping_bits_of_parse(after_header, header);
    let after_mapping = spec_parse_optional_mapping(after_header, header)->Ok_0.1;
    lemma_optional_nlq_bits_of_parse(after_mapping, header);
    let after_nlq = spec_parse_optional_nlq(after_mapping, header)->Ok_0.1;
    let position = (consumed + after_header.len() - after_nlq.len()) as nat;
    lemma_optional_dm_bits_of_parse(after_nlq, header, position);
    let h = spec_header_bits(header);
    let m = spec_optional_mapping_bits(parts.mapping, header);
    let n = spec_optional_nlq_bits(parts.nlq, header);
    assert(h.len() == consumed);
    assert(after_header.len() == m.len() + after_mapping.len());
    assert(after_mapping.len() == n.len() + after_nlq.len());
    assert(spec_front_bits(parts) == h + m + n);
    assert(spec_front_bits(parts).len() == position);
    assert(bits =~= spec_data_bits(parts) + rest);
}

/// Bits that read as the end of an RPU are zero bits up to the next byte
/// boundary, the checksum that was read, and the final marker.
pub proof fn lemma_end_bits_of_parse(bits: Seq<bool>, position: nat, covered: Seq<u8>)
    requires
        spec_parse_end(bits, position, covered) is Ok,
    ensures
        bits == zero_bits(align_pad(position)) + value_bits(
            spec_parse_end(bits, position, covered)->Ok_0.1 as nat,
            32,
        ) + value_bits(FINAL_BYTE as nat, 8),
{
    crate::dm_codec::lemma_zero_bits_of_skip_alignment(bits, position);
    let tail = spec_skip_alignment(bits, position)->Ok_0;
    let crc_bits = tail.take(32);
    let marker_bits = tail.skip(32);
    crate::bits::lemma_value_bits_of_value(crc_bits);
    crate::bits::lemma_value_bits_of_value(marker_bits);
    crate::bits::lemma_bits_value_bound(crc_bits);
    vstd::arithmetic::power2::lemma2_to64();
    assert(tail =~= crc_bits + marker_bits);
    assert(bits =~= zero_bits(align_pad(position)) + crc_bits + marker_bits);
}

/// Reading, then writing. Bytes that read as an RPU are the bytes that
/// are written for it, where the bits after the fields of each block of
/// its display management data are as a writer puts them.
pub proof fn lemma_write_rpu_of_parse(bytes: Seq<u8>, rpu: DoviRpu)
    requires
        spec_parse_rpu(bytes) == Ok::<_, RpuError>(rpu@),
        rpu.vdr_dm_data is Some ==> rpu.vdr_dm_data->Some_0@.zero_padded(),
    ensures
        spec_write_rpu(rpu) == Ok::<_, RpuError>(bytes),
{
    let bits = bytes_bits(bytes);
    let (parts, rest) = spec_parse_parts(bits)->Ok_0;
    assert(parts == rpu@.parts());
    lemma_data_bits_of_parse(bits);
    let data = spec_data_bits(parts);
    let position = (bits.len() - rest.len()) as nat;
    assert(position == data.len());
    lemma_end_bits_of_parse(rest, position, bytes.subrange(1, bytes.len() - 5));
    assert(bits =~= spec_body_bits(parts) + value_bits(rpu@.crc32 as nat, 32) + value_bits(
        FINAL_BYTE as nat,
        8,
    ));
    crate::bits::lemma_bits_bytes_of_bytes_bits(bytes);
}

} // verus!
