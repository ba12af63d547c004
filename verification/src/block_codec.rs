//! Reading and writing one extension metadata block.

use vstd::prelude::*;
use vstd::arithmetic::power2::lemma2_to64;
use crate::bits::{
    spec_get_n, spec_get_ue, ue_bits, ue_prefix_len, value_bits, lemma_get_n_of_value_bits,
    lemma_get_ue_of_ue_bits, lemma_ue_bits_of_get_ue, lemma_ue_prefix_len_bounds,
    lemma_value_bits_of_get_n,
};
use crate::bitvec_reader::BitVecReader;
use crate::bitvec_writer::BitVecWriter;
use crate::blocks::{BlockInfo, BlockKind, BlockView, ExtMetadataBlock};
use crate::error::RpuError;
use crate::fields::{
    fields_bits, layout_ok, read_fields, spec_read_fields, write_fields,
    lemma_fields_bits_of_read_fields, lemma_read_fields_of_fields_bits,
};

verus! {

/// The bits of a block: its length as an Exp-Golomb code, its level in eight
/// bits, its fields, and then the bits after the fields, which are written
/// verbatim for a reserved block and as zeros for every other.
pub open spec fn spec_block_bits(block: BlockView) -> Seq<bool> {
    ue_bits(block.length as nat) + value_bits(block.level as nat, 8) + fields_bits(
        block.fields,
        block.kind.layout(),
    ) + block.written().remaining
}

/// Reading one block: the block and the bits that follow it, or why there is none.
pub open spec fn spec_parse_block(bits: Seq<bool>) -> Result<(BlockView, Seq<bool>), RpuError> {
    match spec_get_ue(bits) {
        Err(e) => Err(e),
        Ok((length, after_length)) => match spec_get_n(after_length, 8) {
            Err(e) => Err(e),
            Ok((level, after_level)) => {
                let kind = BlockKind::spec_of_level(level as u8);
                if !kind.spec_length_allowed(length as u64) {
                    Err(
                        RpuError::UnexpectedExtBlockLength {
                            level: level as u8,
                            got: length as u64,
                            want: kind.spec_nominal_length(),
                        },
                    )
                } else {
                    match spec_read_fields(after_level, kind.layout()) {
                        Err(e) => Err(e),
                        Ok((fields, after_fields)) => {
                            let pad = kind.pad_bits(length as u64) as int;
                            if after_fields.len() < pad {
                                Err(RpuError::Truncated)
                            } else {
                                Ok(
                                    (
                                        BlockView {
                                            kind,
                                            length: length as u64,
                                            level: level as u8,
                                            fields,
                                            remaining: after_fields.take(pad),
                                        },
                                        after_fields.skip(pad),
                                    ),
                                )
                            }
                        },
                    }
                }
            },
        },
    }
}

/// No layout of a block has a field of more than 32 bits.
pub proof fn lemma_block_layout_ok(kind: BlockKind)
    ensures
        layout_ok(kind.layout()),
{
}

impl ExtMetadataBlock {
    /// Reads one block. A level that has no layout of its own gives a
    /// reserved block that keeps the declared number of bytes as they are.
    pub fn parse(reader: &mut BitVecReader) -> (r: Result<ExtMetadataBlock, RpuError>)
        ensures
            final(reader).bits() == old(reader).bits(),
            match spec_parse_block(old(reader).remaining()) {
                Ok((block, rest)) => r is Ok && r->Ok_0@ == block && final(reader).remaining()
                    == rest,
                Err(e) => r == Err::<ExtMetadataBlock, _>(e),
            },
    {
        let ghost bits = reader.remaining();
        let length = match reader.get_ue() {
            Ok(v) => v,
            Err(e) => {
                return Err(e);
            },
        };
        let level = match reader.get_n(8) {
            Ok(v) => v,
            Err(e) => {
                return Err(e);
            },
        };
        proof {
            lemma2_to64();
            lemma_ue_bits_of_get_ue(bits);
            lemma_ue_prefix_len_bounds(length as nat);
            if ue_prefix_len(length as nat) < 32 {
                vstd::arithmetic::power2::lemma_pow2_strictly_increases(
                    ue_prefix_len(length as nat) + 1,
                    33,
                );
            }
            vstd::arithmetic::power2::lemma2_to64_rest();
            lemma_value_bits_of_get_n(spec_get_ue(bits)->Ok_0.1, 8);
        }
        let level: u8 = level as u8;
        let kind = BlockKind::of_level(level);
        if !kind.length_allowed(length) {
            return Err(
                RpuError::UnexpectedExtBlockLength { level, got: length, want: kind.nominal_length() },
            );
        }
        let layout = kind.layout_vec();
        let ghost after_level = reader.remaining();
        proof {
            lemma_block_layout_ok(kind);
        }
        let codes = match read_fields(reader, &layout) {
            Ok(v) => v,
            Err(e) => {
                return Err(e);
            },
        };
        proof {
            lemma_fields_bits_of_read_fields(after_level, kind.layout());
        }
        let payload = kind.payload_bits();
        let pad: u64 = if 8 * length >= payload {
            8 * length - payload
        } else {
            0
        };
        if (reader.available() as u64) < pad {
            return Err(RpuError::Truncated);
        }
        let remaining = match reader.get_bits(pad as usize) {
            Ok(v) => v,
            Err(e) => {
                return Err(e);
            },
        };
        let block_info = BlockInfo { ext_block_length: length, ext_block_level: level, remaining };
        Ok(ExtMetadataBlock::from_codes(kind, block_info, &codes))
    }

    /// Writes the block: of each field the lowest bits that its place holds.
    pub fn write(&self, writer: &mut BitVecWriter)
        ensures
            final(writer)@ == old(writer)@ + spec_block_bits(self@),
    {
        let info = self.block_info();
        writer.write_ue(info.ext_block_length);
        writer.write_n(info.ext_block_level as u64, 8);
        let kind = self.kind();
        let codes = self.codes();
        let layout = kind.layout_vec();
        write_fields(writer, &codes, &layout);
        match kind {
            BlockKind::Reserved => writer.write_bits(&info.remaining),
            _ => writer.write_zeros(info.remaining.len()),
        }
        assert(writer@ =~= old(writer)@ + spec_block_bits(self@));
    }
}

/// A well-formed block whose length and fields fit their places is read back
/// from its bits as it was written.
pub proof fn lemma_parse_block_of_block_bits(block: BlockView, rest: Seq<bool>)
    requires
        block.wf(),
        block.fits(),
    ensures
        spec_parse_block(spec_block_bits(block) + rest) == Ok::<_, RpuError>(
            (block.written(), rest),
        ),
{
    let tail = block.written().remaining;
    let fields = fields_bits(block.fields, block.kind.layout());
    let level = value_bits(block.level as nat, 8);
    let bits = spec_block_bits(block) + rest;
    lemma2_to64();
    assert(bits =~= ue_bits(block.length as nat) + (level + (fields + (tail + rest))));
    lemma_get_ue_of_ue_bits(block.length as nat, level + (fields + (tail + rest)));
    lemma_get_n_of_value_bits(block.level as nat, 8, fields + (tail + rest));
    lemma_read_fields_of_fields_bits(block.fields, block.kind.layout(), tail + rest);
    assert((tail + rest).take(tail.len() as int) =~= tail);
    assert((tail + rest).skip(tail.len() as int) =~= rest);
}

/// Bits that read as a block are the bits of that block as they were, where
/// the bits after its fields are as a writer puts them; and the block is
/// well formed.
pub proof fn lemma_block_bits_of_parse_block(bits: Seq<bool>)
    requires
        spec_parse_block(bits) is Ok,
    ensures
        spec_parse_block(bits)->Ok_0.0.wf(),
        spec_parse_block(bits)->Ok_0.0.fits(),
        spec_parse_block(bits)->Ok_0.0.zero_padded() ==> bits == spec_block_bits(
            spec_parse_block(bits)->Ok_0.0,
        ) + spec_parse_block(bits)->Ok_0.1,
{
    let (block, rest) = spec_parse_block(bits)->Ok_0;
    lemma2_to64();
    vstd::arithmetic::power2::lemma2_to64_rest();
    lemma_ue_bits_of_get_ue(bits);
    let (length, after_length) = spec_get_ue(bits)->Ok_0;
    lemma_ue_prefix_len_bounds(length);
    if ue_prefix_len(length) < 32 {
        vstd::arithmetic::power2::lemma_pow2_strictly_increases(ue_prefix_len(length) + 1, 33);
    }
    lemma_value_bits_of_get_n(after_length, 8);
    let (level, after_level) = spec_get_n(after_length, 8)->Ok_0;
    let kind = BlockKind::spec_of_level(level as u8);
    lemma_block_layout_ok(kind);
    lemma_fields_bits_of_read_fields(after_level, kind.layout());
    let (fields, after_fields) = spec_read_fields(after_level, kind.layout())->Ok_0;
    let pad = kind.pad_bits(length as u64) as int;
    assert(after_fields =~= after_fields.take(pad) + after_fields.skip(pad));
    if block.zero_padded() {
        assert(block.written().remaining == block.remaining);
        assert(bits =~= spec_block_bits(block) + rest);
    }
}

} // verus!
