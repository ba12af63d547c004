//! Reading and writing the display management payload.

use vstd::prelude::*;
use crate::bits::zero_bits;
use crate::bitvec_reader::BitVecReader;
use crate::bitvec_writer::BitVecWriter;
use crate::block_codec::{spec_block_bits, spec_parse_block};
use crate::blocks::{BlockView, ExtMetadataBlock};
use crate::error::RpuError;
use crate::fields::{fields_bits, read_fields, spec_read_fields, write_fields,
    lemma_fields_bits_of_read_fields};
use crate::vdr_dm_data::{header_layout, header_layout_vec, VdrDmData, VdrDmDataView};

verus! {

/// The number of bits from `position` to the next byte boundary.
pub open spec fn align_pad(position: nat) -> nat {
    ((8 - position % 8) % 8) as nat
}

/// Skipping the zero bits in front of the next byte boundary: the bits that
/// follow them. A set bit among them is an error, and so is their absence.
pub open spec fn spec_skip_alignment(bits: Seq<bool>, position: nat) -> Result<
    Seq<bool>,
    RpuError,
> {
    let pad = align_pad(position) as int;
    let seen = if bits.len() < pad {
        bits.len() as int
    } else {
        pad
    };
    if exists|i: int| 0 <= i < seen && bits[i] {
        Err(RpuError::AlignmentPaddingNonZero)
    } else if bits.len() < pad {
        Err(RpuError::Truncated)
    } else {
        Ok(bits.skip(pad))
    }
}

/// Reading `count` blocks one after the other: the blocks and the bits that
/// follow them, or the error of the first block that cannot be read.
pub open spec fn spec_parse_blocks(bits: Seq<bool>, count: nat) -> Result<
    (Seq<BlockView>, Seq<bool>),
    RpuError,
>
    decreases count,
{
    if count == 0 {
        Ok((Seq::empty(), bits))
    } else {
        match spec_parse_blocks(bits, (count - 1) as nat) {
            Err(e) => Err(e),
            Ok((blocks, rest)) => match spec_parse_block(rest) {
                Err(e) => Err(e),
                Ok((block, rest)) => Ok((blocks.push(block), rest)),
            },
        }
    }
}

/// The bits of `blocks`, one after the other.
pub open spec fn spec_blocks_bits(blocks: Seq<BlockView>) -> Seq<bool>
    decreases blocks.len(),
{
    if blocks.len() == 0 {
        Seq::empty()
    } else {
        spec_blocks_bits(blocks.drop_last()) + spec_block_bits(blocks.last())
    }
}

/// The number of blocks that the header announces.
pub open spec fn announced_blocks(header: Seq<u64>) -> u64 {
    header[35]
}

/// Reading the payload from `bits`, which start `position` bits into the
/// RPU: the header; then, where it announces blocks, zero bits up to the next
/// byte boundary and that many blocks.
pub open spec fn spec_parse_dm(bits: Seq<bool>, position: nat) -> Result<
    (VdrDmDataView, Seq<bool>),
    RpuError,
> {
    match spec_read_fields(bits, header_layout()) {
        Err(e) => Err(e),
        Ok((header, after_header)) => if announced_blocks(header) == 0 {
            Ok((VdrDmDataView { header, blocks: Seq::empty() }, after_header))
        } else {
            match spec_skip_alignment(
                after_header,
                (position + bits.len() - after_header.len()) as nat,
            ) {
                Err(e) => Err(e),
                Ok(aligned) => match spec_parse_blocks(aligned, announced_blocks(header) as nat) {
                    Err(e) => Err(e),
                    Ok((blocks, rest)) => Ok((VdrDmDataView { header, blocks }, rest)),
                },
            }
        },
    }
}

/// The bits of the payload when it is written `position` bits into the RPU:
/// the header; then, where it announces blocks, zero bits up to the next
/// byte boundary and the blocks it holds.
pub open spec fn spec_dm_bits(data: VdrDmDataView, position: nat) -> Seq<bool> {
    let header = fields_bits(data.header, header_layout());
    if announced_blocks(data.header) == 0 {
        header
    } else {
        header + zero_bits(align_pad(position + header.len())) + spec_blocks_bits(data.blocks)
    }
}

/// An error in reading the first `n` blocks is the error of reading more.
pub proof fn lemma_parse_blocks_prefix_error(bits: Seq<bool>, n: nat, count: nat)
    requires
        n <= count,
    ensures
        spec_parse_blocks(bits, n) is Err ==> spec_parse_blocks(bits, count) == Err::<
            (Seq<BlockView>, Seq<bool>),
            _,
        >(spec_parse_blocks(bits, n)->Err_0),
    decreases count - n,
{
    if n < count {
        lemma_parse_blocks_prefix_error(bits, n, (count - 1) as nat);
    }
}

pub(crate) fn skip_alignment(reader: &mut BitVecReader) -> (r: Result<(), RpuError>)
    ensures
        final(reader).bits() == old(reader).bits(),
        match spec_skip_alignment(old(reader).remaining(), old(reader).position()) {
            Ok(rest) => r is Ok && final(reader).remaining() == rest,
            Err(e) => r == Err::<(), _>(e),
        },
{
    let ghost bits = reader.remaining();
    let ghost pad = align_pad(reader.position()) as int;
    let ghost start = reader.position() as int;
    let mut skipped: usize = 0;
    proof {
        reader.lemma_position_in_range();
        assert(bits.skip(0) =~= bits);
    }
    while !reader.is_aligned()
        invariant
            reader.bits() == old(reader).bits(),
            bits == old(reader).remaining(),
            start == old(reader).position(),
            pad == align_pad(start as nat),
            reader.position() == start + skipped,
            skipped <= pad,
            skipped <= bits.len(),
            reader.remaining() == bits.skip(skipped as int),
            forall|i: int| 0 <= i < skipped ==> !bits[i],
            (reader.position() % 8 == 0) == (skipped == pad),
        decreases pad - skipped,
    {
        proof {
            reader.lemma_position_in_range();
        }
        match reader.get() {
            Err(e) => {
                assert(bits.len() == skipped);
                return Err(e);
            },
            Ok(bit) => {
                assert(bit == bits[skipped as int]);
                if bit {
                    return Err(RpuError::AlignmentPaddingNonZero);
                }
            },
        }
        proof {
            reader.lemma_position_in_range();
            assert(reader.remaining() =~= bits.skip(skipped + 1));
        }
        skipped += 1;
    }
    Ok(())
}

impl VdrDmData {
    /// Reads the payload at the cursor of `reader`.
    pub fn vdr_dm_data_payload(reader: &mut BitVecReader) -> (r: Result<VdrDmData, RpuError>)
        ensures
            final(reader).bits() == old(reader).bits(),
            match spec_parse_dm(old(reader).remaining(), old(reader).position()) {
                Ok((data, rest)) => r is Ok && r->Ok_0@ == data && final(reader).remaining()
                    == rest,
                Err(e) => r == Err::<VdrDmData, _>(e),
            },
    {
        let ghost bits = reader.remaining();
        let ghost start = reader.position();
        let layout = header_layout_vec();
        proof {
            reader.lemma_position_in_range();
            crate::vdr_dm_data::lemma_header_layout_ok();
        }
        let codes = match read_fields(reader, &layout) {
            Ok(v) => v,
            Err(e) => {
                return Err(e);
            },
        };
        proof {
            reader.lemma_position_in_range();
            lemma_fields_bits_of_read_fields(bits, header_layout());
        }
        let count: u64 = codes[35];
        let ghost after_header = reader.remaining();
        let mut blocks: Vec<ExtMetadataBlock> = Vec::new();
        if count > 0 {
            match skip_alignment(reader) {
                Ok(()) => {},
                Err(e) => {
                    return Err(e);
                },
            }
            let ghost aligned = reader.remaining();
            let mut i: u64 = 0;
            assert(blocks@.map_values(|b: ExtMetadataBlock| b@) =~= Seq::<BlockView>::empty());
            while i < count
                invariant
                    i <= count,
                    reader.bits() == old(reader).bits(),
                    bits == old(reader).remaining(),
                    start == old(reader).position(),
                    spec_read_fields(bits, header_layout()) == Ok::<_, RpuError>(
                        (codes@, after_header),
                    ),
                    count == announced_blocks(codes@),
                    count > 0,
                    spec_skip_alignment(
                        after_header,
                        (start + bits.len() - after_header.len()) as nat,
                    ) == Ok::<_, RpuError>(aligned),
                    spec_parse_blocks(aligned, i as nat) == Ok::<_, RpuError>(
                        (blocks@.map_values(|b: ExtMetadataBlock| b@), reader.remaining()),
                    ),
                decreases count - i,
            {
                proof {
                    lemma_parse_blocks_prefix_error(aligned, (i + 1) as nat, count as nat);
                }
                let ghost before = blocks@;
                let block = match ExtMetadataBlock::parse(reader) {
                    Ok(b) => b,
                    Err(e) => {
                        assert(spec_parse_blocks(aligned, (i + 1) as nat) == Err::<
                            (Seq<BlockView>, Seq<bool>),
                            _,
                        >(e));
                        return Err(e);
                    },
                };
                blocks.push(block);
                assert(blocks@.map_values(|b: ExtMetadataBlock| b@) =~= before.map_values(
                    |b: ExtMetadataBlock| b@,
                ).push(block@));
                i += 1;
            }
        } else {
            assert(blocks@.map_values(|b: ExtMetadataBlock| b@) =~= Seq::<BlockView>::empty());
        }
        Ok(VdrDmData::from_codes(&codes, blocks))
    }

    /// Writes the payload at the end of `writer`: of each field the lowest
    /// bits that its place holds.
    pub fn write(&self, writer: &mut BitVecWriter)
        ensures
            final(writer)@ == old(writer)@ + spec_dm_bits(self@, old(writer)@.len()),
    {
        let codes = self.header_codes();
        let layout = header_layout_vec();
        write_fields(writer, &codes, &layout);
        if self.num_ext_blocks > 0 {
            let ghost header = writer@;
            let ghost pad = align_pad(header.len());
            let mut padded: usize = 0;
            assert(header + zero_bits(0) =~= header);
            while !writer.is_aligned()
                invariant
                    pad == align_pad(header.len()),
                    padded <= pad,
                    writer@ == header + zero_bits(padded as nat),
                    (writer@.len() % 8 == 0) == (padded == pad),
                decreases pad - padded,
            {
                writer.write(false);
                padded += 1;
                assert(writer@ =~= header + zero_bits(padded as nat));
            }
            let ghost aligned = writer@;
            let mut i: usize = 0;
            assert(aligned + spec_blocks_bits(self@.blocks.take(0)) =~= aligned);
            while i < self.ext_metadata_blocks.len()
                invariant
                    i <= self.ext_metadata_blocks.len(),
                    writer@ == aligned + spec_blocks_bits(self@.blocks.take(i as int)),
                decreases self.ext_metadata_blocks.len() - i,
            {
                proof {
                    assert(self@.blocks.take(i + 1).drop_last() =~= self@.blocks.take(i as int));
                    assert(self@.blocks.take(i + 1).last() == self.ext_metadata_blocks[i as int]@);
                }
                self.ext_metadata_blocks[i].write(writer);
                i += 1;
                assert(writer@ =~= aligned + spec_blocks_bits(self@.blocks.take(i as int)));
            }
            assert(self@.blocks.take(i as int) =~= self@.blocks);
            assert(writer@ =~= old(writer)@ + spec_dm_bits(self@, old(writer)@.len()));
        }
    }
}


/// Zero bits up to the next byte boundary are skipped.
pub proof fn lemma_skip_alignment_of_zero_bits(position: nat, rest: Seq<bool>)
    ensures
        spec_skip_alignment(zero_bits(align_pad(position)) + rest, position) == Ok::<_, RpuError>(
            rest,
        ),
{
    let bits = zero_bits(align_pad(position)) + rest;
    assert(bits.skip(align_pad(position) as int) =~= rest);
}

/// Bits that are skipped up to the next byte boundary are zero bits.
pub proof fn lemma_zero_bits_of_skip_alignment(bits: Seq<bool>, position: nat)
    requires
        spec_skip_alignment(bits, position) is Ok,
    ensures
        bits == zero_bits(align_pad(position)) + spec_skip_alignment(bits, position)->Ok_0,
{
    let pad = align_pad(position) as int;
    assert forall|i: int| 0 <= i < pad implies !bits[i] by {}
    assert(bits =~= zero_bits(align_pad(position)) + bits.skip(pad));
}

/// Well-formed blocks that fit are read back from their bits as they were written.
pub proof fn lemma_parse_blocks_of_blocks_bits(blocks: Seq<BlockView>, rest: Seq<bool>)
    requires
        forall|i: int| 0 <= i < blocks.len() ==> (#[trigger] blocks[i]).wf() && blocks[i].fits(),
    ensures
        spec_parse_blocks(spec_blocks_bits(blocks) + rest, blocks.len()) == Ok::<_, RpuError>(
            (blocks.map_values(|b: BlockView| b.written()), rest),
        ),
    decreases blocks.len(),
{
    let written = blocks.map_values(|b: BlockView| b.written());
    if blocks.len() == 0 {
        assert(spec_blocks_bits(blocks) + rest =~= rest);
        assert(written =~= Seq::<BlockView>::empty());
    } else {
        let front = blocks.drop_last();
        let last = spec_block_bits(blocks.last());
        assert forall|i: int| 0 <= i < front.len() implies (#[trigger] front[i]).wf()
            && front[i].fits() by {
            assert(front[i] == blocks[i]);
        }
        lemma_parse_blocks_of_blocks_bits(front, last + rest);
        assert(spec_blocks_bits(blocks) + rest =~= spec_blocks_bits(front) + (last + rest));
        crate::block_codec::lemma_parse_block_of_block_bits(blocks.last(), rest);
        assert(front.map_values(|b: BlockView| b.written()).push(blocks.last().written())
            =~= written);
    }
}

/// Bits that read as a list of blocks hold well-formed blocks that fit, and
/// are the bits of those blocks where the bits after the fields of each are
/// as a writer puts them.
pub proof fn lemma_blocks_bits_of_parse_blocks(bits: Seq<bool>, count: nat)
    requires
        spec_parse_blocks(bits, count) is Ok,
    ensures
        spec_parse_blocks(bits, count)->Ok_0.0.len() == count,
        forall|i: int|
            0 <= i < count ==> (#[trigger] spec_parse_blocks(bits, count)->Ok_0.0[i]).wf()
                && spec_parse_blocks(bits, count)->Ok_0.0[i].fits(),
        (forall|i: int|
            0 <= i < count ==> (#[trigger] spec_parse_blocks(bits, count)->Ok_0.0[i]).zero_padded())
            ==> bits == spec_blocks_bits(spec_parse_blocks(bits, count)->Ok_0.0)
            + spec_parse_blocks(bits, count)->Ok_0.1,
    decreases count,
{
    let (blocks, rest) = spec_parse_blocks(bits, count)->Ok_0;
    if count == 0 {
        assert(bits =~= spec_blocks_bits(blocks) + rest);
    } else {
        let n = (count - 1) as nat;
        lemma_blocks_bits_of_parse_blocks(bits, n);
        let (front, middle) = spec_parse_blocks(bits, n)->Ok_0;
        crate::block_codec::lemma_block_bits_of_parse_block(middle);
        let (last, after) = spec_parse_block(middle)->Ok_0;
        assert(blocks == front.push(last));
        assert(blocks.drop_last() =~= front);
        assert forall|i: int| 0 <= i < count implies (#[trigger] blocks[i]).wf()
            && blocks[i].fits() by {
            if i < n {
                assert(blocks[i] == front[i]);
            }
        }
        if forall|i: int| 0 <= i < count ==> (#[trigger] blocks[i]).zero_padded() {
            assert forall|i: int| 0 <= i < n implies (#[trigger] front[i]).zero_padded() by {
                assert(front[i] == blocks[i]);
            }
            assert(blocks[n as int].zero_padded());
            assert(bits =~= spec_blocks_bits(blocks) + rest);
        }
    }
}

/// Writing, then reading. A well-formed payload whose fields fit their
/// places is read back from its bits as it was written: with the same header
/// and the same blocks, the bits after the fields of each block being those
/// that the writer put there.
pub proof fn lemma_parse_dm_of_dm_bits(data: VdrDmDataView, position: nat, rest: Seq<bool>)
    requires
        data.wf(),
        data.fits(),
    ensures
        spec_parse_dm(spec_dm_bits(data, position) + rest, position) == Ok::<_, RpuError>(
            (data.written(), rest),
        ),
{
    let header = fields_bits(data.header, header_layout());
    let bits = spec_dm_bits(data, position) + rest;
    if announced_blocks(data.header) == 0 {
        crate::fields::lemma_read_fields_of_fields_bits(data.header, header_layout(), rest);
        assert(data.written().blocks =~= Seq::<BlockView>::empty());
    } else {
        let pad = zero_bits(align_pad(position + header.len()));
        let blocks = spec_blocks_bits(data.blocks);
        assert(bits =~= header + (pad + (blocks + rest)));
        crate::fields::lemma_read_fields_of_fields_bits(
            data.header,
            header_layout(),
            pad + (blocks + rest),
        );
        lemma_skip_alignment_of_zero_bits(position + header.len(), blocks + rest);
        lemma_parse_blocks_of_blocks_bits(data.blocks, rest);
    }
}

/// Reading, then writing. Bits that read as a payload hold a well-formed
/// payload whose fields fit; and where the bits after the fields of each of
/// its blocks are as a writer puts them, writing the payload at the same
/// position gives the bits that were read.
pub proof fn lemma_dm_bits_of_parse_dm(bits: Seq<bool>, position: nat)
    requires
        spec_parse_dm(bits, position) is Ok,
    ensures
        spec_parse_dm(bits, position)->Ok_0.0.wf(),
        spec_parse_dm(bits, position)->Ok_0.0.fits(),
        spec_parse_dm(bits, position)->Ok_0.0.zero_padded() ==> bits == spec_dm_bits(
            spec_parse_dm(bits, position)->Ok_0.0,
            position,
        ) + spec_parse_dm(bits, position)->Ok_0.1,
{
    let (data, rest) = spec_parse_dm(bits, position)->Ok_0;
    crate::vdr_dm_data::lemma_header_layout_ok();
    lemma_fields_bits_of_read_fields(bits, header_layout());
    let (header, after_header) = spec_read_fields(bits, header_layout())->Ok_0;
    let header_bits = fields_bits(header, header_layout());
    assert(bits.len() == header_bits.len() + after_header.len());
    if announced_blocks(header) > 0 {
        let at = (position + bits.len() - after_header.len()) as nat;
        lemma_zero_bits_of_skip_alignment(after_header, at);
        let aligned = spec_skip_alignment(after_header, at)->Ok_0;
        lemma_blocks_bits_of_parse_blocks(aligned, announced_blocks(header) as nat);
        if data.zero_padded() {
            assert(bits =~= spec_dm_bits(data, position) + rest);
        }
    }
}

} // verus!
