//! The numbers of a metadata document that are not whole: what is asked of
//! the caller's arithmetic, and what is made of its answers.

use vstd::prelude::*;
use crate::blocks::{BlockKind, BlockView, ExtMetadataBlock, ExtMetadataBlockLevel1,
    ExtMetadataBlockLevel2, ExtMetadataBlockLevel3, ExtMetadataBlockLevel5, ExtMetadataBlockLevel8};

verus! {

/// What is to be computed from the numbers of a request.
///
/// Each formula takes decimal fractions as text and gives whole numbers:
/// - `Level1`: of `min, avg, max`, each times 4095, rounded.
/// - `Level2`: the PQ code of the peak of the target display, then of `lift,
///   gain, gamma, chroma weight, saturation gain, mid-tone weight` the
///   trims: slope, offset, power, chroma weight, saturation gain, mid-tone
///   weight, each on the scale where 2048 is neutral.
/// - `Level3`: of `min, avg, max`, each times 2048, plus 2048, rounded.
/// - `Level5`: of the aspect ratios of canvas and image, and the size of
///   the canvas, the offsets of the active area: left, right, top, bottom.
/// - `Level8`: of `lift, gain, gamma, chroma weight, saturation gain,
///   mid-tone weight` the trims, as for `Level2`.
/// - `MinimumBrightness`: of a luminance in nits, the same in units of 0.0001 nits.
#[derive(Clone, Copy, Debug, PartialEq, Eq, Structural)]
pub enum Formula {
    Level1,
    Level2,
    Level3,
    Level5,
    Level8,
    MinimumBrightness,
}

impl Formula {
    /// How many whole numbers the formula gives.
    pub open spec fn spec_answers(self) -> usize {
        match self {
            Formula::Level1 => 3,
            Formula::Level2 => 7,
            Formula::Level3 => 3,
            Formula::Level5 => 4,
            Formula::Level8 => 6,
            Formula::MinimumBrightness => 1,
        }
    }

    /// How many whole numbers the formula gives.
    #[verifier::when_used_as_spec(spec_answers)]
    pub fn answers(self) -> (n: usize)
        ensures
            n == self.spec_answers(),
    {
        match self {
            Formula::Level1 => 3,
            Formula::Level2 => 7,
            Formula::Level3 => 3,
            Formula::Level5 => 4,
            Formula::Level8 => 6,
            Formula::MinimumBrightness => 1,
        }
    }
}

/// Numbers of the document, as text, and what is to be computed from them.
#[derive(Clone, Debug, PartialEq, Eq)]
pub struct NumberRequest {
    pub formula: Formula,
    /// The numbers, in the order in which the formula takes them.
    pub values: Vec<String>,
    /// For `Level2`, the peak of the target display in nits.
    pub peak_nits: u16,
    /// For `Level5`, the size of the canvas.
    pub canvas_width: u16,
    pub canvas_height: u16,
}

/// A request with its texts as sequences of characters.
pub struct NumberRequestView {
    pub formula: Formula,
    pub values: Seq<Seq<char>>,
    pub peak_nits: u16,
    pub canvas_width: u16,
    pub canvas_height: u16,
}

impl View for NumberRequest {
    type V = NumberRequestView;

    open spec fn view(&self) -> NumberRequestView {
        NumberRequestView {
            formula: self.formula,
            values: self.values@.map_values(|s: String| s@),
            peak_nits: self.peak_nits,
            canvas_width: self.canvas_width,
            canvas_height: self.canvas_height,
        }
    }
}

/// What a request is answered with, as a function of the request: the
/// whole numbers that its formula gives, or none where a text is no number.
pub type Oracle = spec_fn(NumberRequestView) -> Option<Seq<i32>>;

/// Whether `convert` answers every request as `oracle` does.
pub open spec fn answers_as<F: Fn(&NumberRequest) -> Option<Vec<i32>>>(
    convert: &F,
    oracle: Oracle,
) -> bool {
    forall|request: &NumberRequest, answer: Option<Vec<i32>>| #[trigger]
        call_ensures(*convert, (request,), answer) ==> (match answer {
            Some(numbers) => Some(numbers@),
            None => None,
        }) == oracle(request@)
}

/// Whether `convert` may be called with every request.
pub open spec fn answers_all<F: Fn(&NumberRequest) -> Option<Vec<i32>>>(convert: &F) -> bool {
    forall|request: &NumberRequest| call_requires(*convert, (request,))
}

/// The answer to a request that is of use: as many numbers as the formula gives.
pub open spec fn usable_answer(oracle: Oracle, request: NumberRequestView) -> Option<Seq<i32>> {
    match oracle(request) {
        Some(numbers) => if numbers.len() == request.formula.spec_answers() {
            Some(numbers)
        } else {
            None
        },
        None => None,
    }
}

/// Asks `convert` for the answer to `request`, and takes it where it has
/// as many numbers as the formula gives.
pub fn ask<F: Fn(&NumberRequest) -> Option<Vec<i32>>>(convert: &F, request: &NumberRequest) -> (r:
    Option<Vec<i32>>)
    requires
        answers_all(convert),
    ensures
        forall|oracle: Oracle|
            answers_as(convert, oracle) ==> (match r {
                Some(numbers) => Some(numbers@),
                None => None,
            }) == #[trigger] usable_answer(oracle, request@),
        r is Some ==> r->Some_0@.len() == request.formula.spec_answers(),
{
    match convert(request) {
        Some(numbers) => if numbers.len() == request.formula.answers() {
            Some(numbers)
        } else {
            None
        },
        None => None,
    }
}

/// `code` brought into the range from 0 to `high`.
pub open spec fn spec_clamp(code: i32, high: u16) -> u16 {
    if code < 0 {
        0
    } else if code > high {
        high
    } else {
        code as u16
    }
}

/// `code` brought into the range from 0 to `high`.
#[verifier::when_used_as_spec(spec_clamp)]
pub fn clamp(code: i32, high: u16) -> (r: u16)
    ensures
        r == spec_clamp(code, high),
        r <= high,
{
    if code < 0 {
        0
    } else if code > high as i32 {
        high
    } else {
        code as u16
    }
}

/// The level 1 block for the answer to a `Level1` request: the numbers
/// stand for `min, avg, max`, each brought into the range of 12 bits.
pub open spec fn level1_of(numbers: Seq<i32>) -> BlockView {
    BlockView::of_kind(
        BlockKind::Level1,
        1,
        seq![
            spec_clamp(numbers[0], 4095) as u64,
            spec_clamp(numbers[2], 4095) as u64,
            spec_clamp(numbers[1], 4095) as u64,
        ],
    )
}

/// The level 2 block for the answer to a `Level2` request: the PQ code of
/// the target display, then the trims, each brought into the range of 12 bits.
pub open spec fn level2_of(numbers: Seq<i32>) -> BlockView {
    BlockView::of_kind(
        BlockKind::Level2,
        2,
        seq![
            spec_clamp(numbers[0], 65535) as u64,
            spec_clamp(numbers[1], 4095) as u64,
            spec_clamp(numbers[2], 4095) as u64,
            spec_clamp(numbers[3], 4095) as u64,
            spec_clamp(numbers[4], 4095) as u64,
            spec_clamp(numbers[5], 4095) as u64,
            spec_clamp(numbers[6], 4095) as u64,
        ],
    )
}

/// The level 3 block for the answer to a `Level3` request: the numbers
/// stand for `min, avg, max`, each brought into the range of 16 bits.
pub open spec fn level3_of(numbers: Seq<i32>) -> BlockView {
    BlockView::of_kind(
        BlockKind::Level3,
        3,
        seq![
            spec_clamp(numbers[0], 65535) as u64,
            spec_clamp(numbers[2], 65535) as u64,
            spec_clamp(numbers[1], 65535) as u64,
        ],
    )
}

/// The level 5 block for the answer to a `Level5` request: the offsets
/// left, right, top, bottom, each brought into the range of 13 bits.
pub open spec fn level5_of(numbers: Seq<i32>) -> BlockView {
    BlockView::of_kind(
        BlockKind::Level5,
        5,
        seq![
            spec_clamp(numbers[0], 8191) as u64,
            spec_clamp(numbers[1], 8191) as u64,
            spec_clamp(numbers[2], 8191) as u64,
            spec_clamp(numbers[3], 8191) as u64,
        ],
    )
}

/// The level 8 block for a target display and the answer to a `Level8`
/// request: the trims, each brought into the range of 12 bits.
pub open spec fn level8_of(target_display_index: u8, numbers: Seq<i32>) -> BlockView {
    BlockView::of_kind(
        BlockKind::Level8,
        8,
        seq![
            target_display_index as u64,
            spec_clamp(numbers[0], 4095) as u64,
            spec_clamp(numbers[1], 4095) as u64,
            spec_clamp(numbers[2], 4095) as u64,
            spec_clamp(numbers[3], 4095) as u64,
            spec_clamp(numbers[4], 4095) as u64,
            spec_clamp(numbers[5], 4095) as u64,
        ],
    )
}

/// The level 9 block for the given primaries.
pub open spec fn level9_of(source_primary_index: u8) -> BlockView {
    BlockView::of_kind(BlockKind::Level9, 9, seq![source_primary_index as u64])
}

impl ExtMetadataBlockLevel1 {
    /// The block for the answer to a `Level1` request.
    pub fn from_numbers(numbers: &Vec<i32>) -> (block: ExtMetadataBlockLevel1)
        requires
            numbers@.len() == 3,
        ensures
            ExtMetadataBlock::Level1(block)@ == level1_of(numbers@),
    {
        let block = ExtMetadataBlockLevel1::from_stats(
            clamp(numbers[0], 4095),
            clamp(numbers[2], 4095),
            clamp(numbers[1], 4095),
        );
        assert(ExtMetadataBlock::Level1(block)@.fields =~= level1_of(numbers@).fields);
        block
    }
}

impl ExtMetadataBlockLevel2 {
    /// The block for the answer to a `Level2` request.
    pub fn from_numbers(numbers: &Vec<i32>) -> (block: ExtMetadataBlockLevel2)
        requires
            numbers@.len() == 7,
        ensures
            ExtMetadataBlock::Level2(block)@ == level2_of(numbers@),
    {
        let block = ExtMetadataBlockLevel2::from_trims(
            clamp(numbers[0], 65535),
            clamp(numbers[1], 4095),
            clamp(numbers[2], 4095),
            clamp(numbers[3], 4095),
            clamp(numbers[4], 4095),
            clamp(numbers[5], 4095),
            clamp(numbers[6], 4095) as i16,
        );
        assert(ExtMetadataBlock::Level2(block)@.fields =~= level2_of(numbers@).fields);
        block
    }
}

impl ExtMetadataBlockLevel3 {
    /// The block for the answer to a `Level3` request.
    pub fn from_numbers(numbers: &Vec<i32>) -> (block: ExtMetadataBlockLevel3)
        requires
            numbers@.len() == 3,
        ensures
            ExtMetadataBlock::Level3(block)@ == level3_of(numbers@),
    {
        let block = ExtMetadataBlockLevel3::from_offsets(
            clamp(numbers[0], 65535),
            clamp(numbers[2], 65535),
            clamp(numbers[1], 65535),
        );
        assert(ExtMetadataBlock::Level3(block)@.fields =~= level3_of(numbers@).fields);
        block
    }
}

impl ExtMetadataBlockLevel5 {
    /// The block for the answer to a `Level5` request.
    pub fn from_numbers(numbers: &Vec<i32>) -> (block: ExtMetadataBlockLevel5)
        requires
            numbers@.len() == 4,
        ensures
            ExtMetadataBlock::Level5(block)@ == level5_of(numbers@),
    {
        let block = ExtMetadataBlockLevel5::from_offsets(
            clamp(numbers[0], 8191),
            clamp(numbers[1], 8191),
            clamp(numbers[2], 8191),
            clamp(numbers[3], 8191),
        );
        assert(ExtMetadataBlock::Level5(block)@.fields =~= level5_of(numbers@).fields);
        block
    }
}

impl ExtMetadataBlockLevel8 {
    /// The block for a target display and the answer to a `Level8` request.
    pub fn from_numbers(target_display_index: u8, numbers: &Vec<i32>) -> (block:
        ExtMetadataBlockLevel8)
        requires
            numbers@.len() == 6,
        ensures
            ExtMetadataBlock::Level8(block)@ == level8_of(target_display_index, numbers@),
    {
        let block = ExtMetadataBlockLevel8::from_trims(
            target_display_index,
            clamp(numbers[0], 4095),
            clamp(numbers[1], 4095),
            clamp(numbers[2], 4095),
            clamp(numbers[3], 4095),
            clamp(numbers[4], 4095),
            clamp(numbers[5], 4095),
        );
        assert(ExtMetadataBlock::Level8(block)@.fields =~= level8_of(
            target_display_index,
            numbers@,
        ).fields);
        block
    }
}

} // verus!
