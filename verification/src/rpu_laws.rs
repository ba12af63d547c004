//! Writing an RPU and reading it back.

use vstd::prelude::*;
use crate::bits::{
    bits_bytes, bytes_bits, value_bits, zero_bits, lemma_bits_bytes_concat,
    lemma_bits_value_of_value_bits, lemma_bytes_bits_of_bits_bytes, lemma_value_bits_len,
};

use crate::crc32::spec_crc32;
use crate::dm_codec::{align_pad, lemma_parse_dm_of_dm_bits, lemma_skip_alignment_of_zero_bits};
use crate::error::RpuError;
use crate::fields::lemma_fields_bits_min_len;
use crate::rpu::{
    after_first, spec_body_bits, spec_data_bits, spec_encoded, spec_front_bits,
    spec_optional_dm_bits, spec_optional_mapping_bits, spec_optional_nlq_bits, spec_parse_end,
    spec_parse_optional_dm, spec_parse_optional_mapping, spec_parse_optional_nlq,
    spec_parse_parts, spec_parse_payload, spec_parse_rpu, spec_written_crc, DoviRpuView,
    RpuPartsView, FINAL_BYTE,
};
use crate::rpu_header::{spec_header_bits, spec_parse_header, start_layout};
use crate::rpu_header_laws::{lemma_parse_header_of_bits, lemma_parsed_header_canonical};
use crate::rpu_mapping_laws::{
    mapping_canonical, lemma_parse_mapping_of_bits, lemma_parse_nlq_of_bits,
    lemma_parsed_mapping_canonical, lemma_parsed_nlq_canonical,
};

verus! {

impl RpuPartsView {
    /// Whether the parts are as a reader gives them: the header is, there
    /// is a mapping, a quantization and display management data where the
    /// header announces them and nowhere else, and each is as a reader
    /// gives it.
    #[verifier::opaque]
    pub open spec fn canonical(self) -> bool {
        &&& self.header.canonical()
        &&& self.mapping is Some <==> !self.header.use_prev_vdr_rpu_flag
        &&& self.mapping is Some ==> mapping_canonical(self.mapping->Some_0, self.header)
        &&& self.nlq is Some <==> self.header.has_nlq()
        &&& self.nlq is Some ==> self.header.nlq_canonical(self.nlq->Some_0)
        &&& self.vdr_dm_data is Some <==> self.header.vdr_dm_metadata_present_flag
        &&& self.vdr_dm_data is Some ==> self.vdr_dm_data->Some_0.wf()
            && self.vdr_dm_data->Some_0.fits()
    }

    /// The parts as they are read back: the bits after the fields of each
    /// block of the display management data are those that a writer puts there.
    pub open spec fn written(self) -> RpuPartsView {
        RpuPartsView {
            vdr_dm_data: match self.vdr_dm_data {
                Some(d) => Some(d.written()),
                None => None,
            },
            ..self
        }
    }
}

/// The bits of a header are at least six.
pub proof fn lemma_header_bits_min_len(rpu: RpuPartsView)
    ensures
        spec_front_bits(rpu).len() >= 6,
{
    let a = seq![rpu.header.rpu_nal_prefix as u64, rpu.header.rpu_type as u64];
    lemma_fields_bits_min_len(a, start_layout(), 6);
}

/// A mapping that may be absent is read back as it was written.
pub proof fn lemma_parse_optional_mapping_of_bits(rpu: RpuPartsView, rest: Seq<bool>)
    requires
        rpu.mapping is Some <==> !rpu.header.use_prev_vdr_rpu_flag,
        rpu.mapping is Some ==> mapping_canonical(rpu.mapping->Some_0, rpu.header),
    ensures
        spec_parse_optional_mapping(
            spec_optional_mapping_bits(rpu.mapping, rpu.header) + rest,
            rpu.header,
        ) == Ok::<_, RpuError>((rpu.mapping, rest)),
{
    if rpu.header.use_prev_vdr_rpu_flag {
        assert(spec_optional_mapping_bits(rpu.mapping, rpu.header) + rest =~= rest);
    } else {
        lemma_parse_mapping_of_bits(rpu.mapping->Some_0, rpu.header, rest);
    }
}

/// A quantization that may be absent is read back as it was written.
pub proof fn lemma_parse_optional_nlq_of_bits(rpu: RpuPartsView, rest: Seq<bool>)
    requires
        rpu.nlq is Some <==> rpu.header.has_nlq(),
        rpu.nlq is Some ==> rpu.header.nlq_canonical(rpu.nlq->Some_0),
    ensures
        spec_parse_optional_nlq(spec_optional_nlq_bits(rpu.nlq, rpu.header) + rest, rpu.header)
            == Ok::<_, RpuError>((rpu.nlq, rest)),
{
    if rpu.header.has_nlq() {
        lemma_parse_nlq_of_bits(rpu.nlq->Some_0, rpu.header, rest);
    } else {
        assert(spec_optional_nlq_bits(rpu.nlq, rpu.header) + rest =~= rest);
    }
}

/// Display management data that may be absent is read back as it was written.
pub proof fn lemma_parse_optional_dm_of_bits(rpu: RpuPartsView, position: nat, rest: Seq<bool>)
    requires
        rpu.vdr_dm_data is Some <==> rpu.header.vdr_dm_metadata_present_flag,
        rpu.vdr_dm_data is Some ==> rpu.vdr_dm_data->Some_0.wf() && rpu.vdr_dm_data->Some_0.fits(),
    ensures
        spec_parse_optional_dm(
            spec_optional_dm_bits(rpu.vdr_dm_data, position) + rest,
            rpu.header,
            position,
        ) == Ok::<_, RpuError>((rpu.written().vdr_dm_data, rest)),
{
    if rpu.header.vdr_dm_metadata_present_flag {
        lemma_parse_dm_of_dm_bits(rpu.vdr_dm_data->Some_0, position, rest);
    } else {
        assert(spec_optional_dm_bits(rpu.vdr_dm_data, position) + rest =~= rest);
    }
}

/// What follows a header is read back as it was written.
pub proof fn lemma_parse_payload_of_bits(rpu: RpuPartsView, consumed: nat, rest: Seq<bool>)
    requires
        rpu.mapping is Some <==> !rpu.header.use_prev_vdr_rpu_flag,
        rpu.mapping is Some ==> mapping_canonical(rpu.mapping->Some_0, rpu.header),
        rpu.nlq is Some <==> rpu.header.has_nlq(),
        rpu.nlq is Some ==> rpu.header.nlq_canonical(rpu.nlq->Some_0),
        rpu.vdr_dm_data is Some <==> rpu.header.vdr_dm_metadata_present_flag,
        rpu.vdr_dm_data is Some ==> rpu.vdr_dm_data->Some_0.wf() && rpu.vdr_dm_data->Some_0.fits(),
    ensures
        spec_parse_payload(payload_bits(rpu, consumed, rest), rpu.header, consumed) == Ok::<
            _,
            RpuError,
        >(((rpu.mapping, rpu.nlq, rpu.written().vdr_dm_data), rest)),
{
    let m = spec_optional_mapping_bits(rpu.mapping, rpu.header);
    let n = spec_optional_nlq_bits(rpu.nlq, rpu.header);
    let position = consumed + m.len() + n.len();
    let d = spec_optional_dm_bits(rpu.vdr_dm_data, position);
    lemma_parse_optional_mapping_of_bits(rpu, n + (d + rest));
    lemma_parse_optional_nlq_of_bits(rpu, d + rest);
    lemma_parse_optional_dm_of_bits(rpu, position, rest);
}

/// The bits of what follows a header that has `consumed` bits, and `rest` behind them.
pub open spec fn payload_bits(rpu: RpuPartsView, consumed: nat, rest: Seq<bool>) -> Seq<bool> {
    let m = spec_optional_mapping_bits(rpu.mapping, rpu.header);
    let n = spec_optional_nlq_bits(rpu.nlq, rpu.header);
    m + (n + (spec_optional_dm_bits(rpu.vdr_dm_data, consumed + m.len() + n.len()) + rest))
}

/// Writing, then reading the data. Parts that are as a reader gives them
/// are read back from their bits as they were written.
pub proof fn lemma_parse_parts_of_bits(rpu: RpuPartsView, rest: Seq<bool>)
    requires
        rpu.canonical(),
    ensures
        spec_parse_parts(spec_data_bits(rpu) + rest) == Ok::<_, RpuError>((rpu.written(), rest)),
{
    reveal(RpuPartsView::canonical);
    let header = rpu.header;
    let h = spec_header_bits(header);
    let m = spec_optional_mapping_bits(rpu.mapping, header);
    let n = spec_optional_nlq_bits(rpu.nlq, header);
    let front = spec_front_bits(rpu);
    let bits = spec_data_bits(rpu) + rest;
    let after_header = payload_bits(rpu, h.len(), rest);
    assert(front =~= h + m + n);
    assert(front.len() == h.len() + m.len() + n.len());
    assert(bits =~= h + after_header);
    lemma_parse_header_of_bits(header, after_header);
    lemma_parse_payload_of_bits(rpu, h.len(), rest);
    assert((bits.len() - after_header.len()) as nat == h.len());
}

/// The end of an RPU, as it is written, is read back: zero bits up to the
/// next byte boundary, the checksum and the final marker.
pub proof fn lemma_parse_end_of_bits(position: nat, crc: u32, covered: Seq<u8>)
    requires
        crc == spec_crc32(covered),
    ensures
        spec_parse_end(
            zero_bits(align_pad(position)) + value_bits(crc as nat, 32) + value_bits(
                FINAL_BYTE as nat,
                8,
            ),
            position,
            covered,
        ) == Ok::<_, RpuError>((align_pad(position) as usize, crc)),
{
    let c = value_bits(crc as nat, 32);
    let m = value_bits(FINAL_BYTE as nat, 8);
    let tail = c + m;
    let bits = zero_bits(align_pad(position)) + c + m;
    vstd::arithmetic::power2::lemma2_to64();
    lemma_bits_value_of_value_bits(crc as nat, 32);
    lemma_bits_value_of_value_bits(FINAL_BYTE as nat, 8);
    assert(bits =~= zero_bits(align_pad(position)) + tail);
    lemma_skip_alignment_of_zero_bits(position, tail);
    assert(tail.take(32) =~= c);
    assert(tail.skip(32) =~= m);
}

/// What is read back from the bytes of an RPU: the RPU with the profile
/// that its header stands for, the checksum that was written, and the
/// bits after the fields of each block as a writer puts them; not marked
/// as changed.
pub open spec fn read_back(rpu: DoviRpuView) -> DoviRpuView {
    DoviRpuView {
        dovi_profile: rpu.header.dovi_profile(),
        header: rpu.header,
        mapping: rpu.mapping,
        nlq: rpu.nlq,
        vdr_dm_data: rpu.parts().written().vdr_dm_data,
        trailing_zero_bits: align_pad(spec_data_bits(rpu.parts()).len()) as usize,
        crc32: spec_written_crc(rpu),
        modified: false,
    }
}

/// The bytes that the checksum of an RPU covers, as they are written:
/// those of its data after the first.
pub proof fn lemma_covered_bytes(body: Seq<bool>, crc: u32)
    requires
        body.len() % 8 == 0,
        body.len() >= 8,
    ensures
        ({
            let bytes = bits_bytes(
                body + value_bits(crc as nat, 32) + value_bits(FINAL_BYTE as nat, 8),
            );
            &&& bytes.len() >= 6
            &&& bytes.subrange(1, bytes.len() - 5) == after_first(bits_bytes(body))
            &&& bytes_bits(bytes) == body + value_bits(crc as nat, 32) + value_bits(
                FINAL_BYTE as nat,
                8,
            )
        }),
{
    let c = value_bits(crc as nat, 32);
    let m = value_bits(FINAL_BYTE as nat, 8);
    let all = body + c + m;
    let bytes = bits_bytes(all);
    lemma_value_bits_len(crc as nat, 32);
    lemma_value_bits_len(FINAL_BYTE as nat, 8);
    lemma_bytes_bits_of_bits_bytes(all);
    assert(all =~= body + (c + m));
    lemma_bits_bytes_concat(body, c + m);
    lemma_bytes_bits_of_bits_bytes(body);
    lemma_bytes_bits_of_bits_bytes(c + m);
    let front_bytes = bits_bytes(body);
    assert(bits_bytes(c + m).len() == 5);
    assert(bytes.subrange(0, bytes.len() - 5) =~= front_bytes);
    assert(bytes.subrange(1, bytes.len() - 5) =~= after_first(front_bytes));
}

/// Writing, then reading. An RPU whose parts are as a reader gives them,
/// and which is marked as changed or holds the checksum of its bytes, is
/// read back from its bytes as it was written.
pub proof fn lemma_parse_rpu_of_encoded(rpu: DoviRpuView)
    requires
        rpu.parts().canonical(),
        !rpu.modified ==> rpu.crc32 == spec_crc32(
            after_first(bits_bytes(spec_body_bits(rpu.parts()))),
        ),
    ensures
        spec_parse_rpu(spec_encoded(rpu)) == Ok::<_, RpuError>(read_back(rpu)),
{
    let parts = rpu.parts();
    let data = spec_data_bits(parts);
    let body = spec_body_bits(parts);
    let crc = spec_written_crc(rpu);
    let c = value_bits(crc as nat, 32);
    let m = value_bits(FINAL_BYTE as nat, 8);
    let bytes = spec_encoded(rpu);
    let end = zero_bits(align_pad(data.len())) + c + m;
    lemma_body_aligned(parts, c, m);
    lemma_covered_bytes(body, crc);
    lemma_parse_parts_of_bits(parts, end);
    lemma_parse_end_of_bits(data.len(), crc, bytes.subrange(1, bytes.len() - 5));
    lemma_value_bits_len(crc as nat, 32);
    lemma_value_bits_len(FINAL_BYTE as nat, 8);
    assert(end.len() == align_pad(data.len()) + 40);
    assert(bytes_bits(bytes).len() == data.len() + end.len());
}

/// The data of an RPU with its padding fills whole bytes, and at least one.
pub proof fn lemma_body_aligned(parts: RpuPartsView, c: Seq<bool>, m: Seq<bool>)
    ensures
        spec_body_bits(parts).len() % 8 == 0,
        spec_body_bits(parts).len() >= 8,
        spec_body_bits(parts) + c + m == spec_data_bits(parts) + (zero_bits(
            align_pad(spec_data_bits(parts).len()),
        ) + c + m),
{
    lemma_header_bits_min_len(parts);
    let data = spec_data_bits(parts);
    let pad = zero_bits(align_pad(data.len()));
    assert(spec_body_bits(parts) + c + m =~= data + (pad + c + m));
}

/// The data of an RPU that was read is as a reader gives it.
pub proof fn lemma_parsed_parts_canonical(bits: Seq<bool>)
    requires
        spec_parse_parts(bits) is Ok,
    ensures
        spec_parse_parts(bits)->Ok_0.0.canonical(),
{
    reveal(RpuPartsView::canonical);
    lemma_parsed_header_canonical(bits);
    let (header, after_header) = spec_parse_header(bits)->Ok_0;
    let consumed = (bits.len() - after_header.len()) as nat;
    let after_mapping = spec_parse_optional_mapping(after_header, header)->Ok_0.1;
    if !header.use_prev_vdr_rpu_flag {
        lemma_parsed_mapping_canonical(after_header, header);
    }
    let after_nlq = spec_parse_optional_nlq(after_mapping, header)->Ok_0.1;
    if header.has_nlq() {
        lemma_parsed_nlq_canonical(after_mapping, header);
    }
    if header.vdr_dm_metadata_present_flag {
        crate::dm_codec::lemma_dm_bits_of_parse_dm(
            after_nlq,
            (consumed + after_header.len() - after_nlq.len()) as nat,
        );
    }
}

/// An RPU that was read is as a reader gives it.
pub proof fn lemma_parsed_rpu_canonical(bytes: Seq<u8>)
    requires
        spec_parse_rpu(bytes) is Ok,
    ensures
        spec_parse_rpu(bytes)->Ok_0.parts().canonical(),
        spec_parse_rpu(bytes)->Ok_0.dovi_profile == spec_parse_rpu(
            bytes,
        )->Ok_0.header.dovi_profile(),
        !spec_parse_rpu(bytes)->Ok_0.modified,
{
    let bits = bytes_bits(bytes);
    let rpu = spec_parse_rpu(bytes)->Ok_0;
    let (parts, rest) = spec_parse_parts(bits)->Ok_0;
    assert(parts == rpu.parts());
    lemma_parsed_parts_canonical(bits);
}

} // verus!
