//! Error types returned by the codec.

use vstd::prelude::*;

verus! {

/// The field of the display management header that failed validation.
#[derive(Clone, Copy, Debug, PartialEq, Eq, Structural)]
pub enum ValidatedField {
    AffectedDmMetadataId,
    SignalBitDepth,
    SignalEotf,
    NumExtBlocks,
    CoefficientDataType,
    CoefficientLog2Denom,
    BlBitDepth,
    ElBitDepth,
}

/// What can go wrong while reading or writing an RPU payload.
#[derive(Clone, Copy, Debug, PartialEq, Eq, Structural)]
pub enum RpuError {
    /// The input ended before the value was complete.
    Truncated,
    /// An Exp-Golomb code started with more than 32 zero bits.
    MalformedExpGolomb,
    /// The `rpu_type` field was not 2.
    UnsupportedNalType,
    /// A block of a known level declared a length its level does not allow.
    UnexpectedExtBlockLength { level: u8, got: u64, want: u64 },
    /// A bit of the padding in front of the extension blocks was set.
    AlignmentPaddingNonZero,
    /// The stored checksum differs from the one computed over the payload.
    CrcMismatch,
    /// The final `0x80` byte is absent.
    MissingMarker,
    /// The header describes no known profile, or the profile does not allow the operation.
    InvalidProfile,
    /// A header field is outside its allowed range.
    ValidationFailed(ValidatedField),
}


/// A place in the metadata document.
#[derive(Clone, Copy, Debug, PartialEq, Eq, Structural)]
pub enum XmlPath {
    Root,
    CmVersion,
    Output,
    Video,
    MaxFall,
    MaxCll,
    MinimumBrightness,
    PeakBrightness,
    TargetDisplay,
    TargetDisplayId,
    TargetDisplayPeak,
    Shot,
    UniqueId,
    Record,
    RecordIn,
    RecordDuration,
    EditOffset,
    ImageCharacter,
    Tid,
    Trim,
    L1Offset,
    AspectRatios,
    L8Trim,
    SourceColorModel,
}

impl XmlPath {
    /// The place as a path of element names.
    pub open spec fn spec_path(self) -> Seq<char> {
        match self {
            XmlPath::Root => "DolbyLabsMDF"@,
            XmlPath::CmVersion => "Level254/CMVersion"@,
            XmlPath::Output => "Output"@,
            XmlPath::Video => "Output/Video"@,
            XmlPath::MaxFall => "Output/Video/Level6/MaxFALL"@,
            XmlPath::MaxCll => "Output/Video/Level6/MaxCLL"@,
            XmlPath::MinimumBrightness => "Output/Video/MasteringDisplay/MinimumBrightness"@,
            XmlPath::PeakBrightness => "Output/Video/MasteringDisplay/PeakBrightness"@,
            XmlPath::TargetDisplay => "Output/Video/TargetDisplays/TargetDisplay"@,
            XmlPath::TargetDisplayId => "Output/Video/TargetDisplays/TargetDisplay/ID"@,
            XmlPath::TargetDisplayPeak => "Output/Video/TargetDisplays/TargetDisplay/PeakBrightness"@,
            XmlPath::Shot => "Output/Video/Shots/Shot"@,
            XmlPath::UniqueId => "Output/Video/Shots/Shot/UniqueID"@,
            XmlPath::Record => "Output/Video/Shots/Shot/Record"@,
            XmlPath::RecordIn => "Output/Video/Shots/Shot/Record/In"@,
            XmlPath::RecordDuration => "Output/Video/Shots/Shot/Record/Duration"@,
            XmlPath::EditOffset => "Output/Video/Shots/Shot/Frame/EditOffset"@,
            XmlPath::ImageCharacter => "ImageCharacter"@,
            XmlPath::Tid => "TID"@,
            XmlPath::Trim => "Trim"@,
            XmlPath::L1Offset => "L1Offset"@,
            XmlPath::AspectRatios => "AspectRatios"@,
            XmlPath::L8Trim => "L8Trim"@,
            XmlPath::SourceColorModel => "SourceColorModel"@,
        }
    }

    /// The place as a path of element names.
    pub fn as_str(&self) -> (path: &'static str)
        ensures
            path@ == self.spec_path(),
    {
        match self {
            XmlPath::Root => "DolbyLabsMDF",
            XmlPath::CmVersion => "Level254/CMVersion",
            XmlPath::Output => "Output",
            XmlPath::Video => "Output/Video",
            XmlPath::MaxFall => "Output/Video/Level6/MaxFALL",
            XmlPath::MaxCll => "Output/Video/Level6/MaxCLL",
            XmlPath::MinimumBrightness => "Output/Video/MasteringDisplay/MinimumBrightness",
            XmlPath::PeakBrightness => "Output/Video/MasteringDisplay/PeakBrightness",
            XmlPath::TargetDisplay => "Output/Video/TargetDisplays/TargetDisplay",
            XmlPath::TargetDisplayId => "Output/Video/TargetDisplays/TargetDisplay/ID",
            XmlPath::TargetDisplayPeak => "Output/Video/TargetDisplays/TargetDisplay/PeakBrightness",
            XmlPath::Shot => "Output/Video/Shots/Shot",
            XmlPath::UniqueId => "Output/Video/Shots/Shot/UniqueID",
            XmlPath::Record => "Output/Video/Shots/Shot/Record",
            XmlPath::RecordIn => "Output/Video/Shots/Shot/Record/In",
            XmlPath::RecordDuration => "Output/Video/Shots/Shot/Record/Duration",
            XmlPath::EditOffset => "Output/Video/Shots/Shot/Frame/EditOffset",
            XmlPath::ImageCharacter => "ImageCharacter",
            XmlPath::Tid => "TID",
            XmlPath::Trim => "Trim",
            XmlPath::L1Offset => "L1Offset",
            XmlPath::AspectRatios => "AspectRatios",
            XmlPath::L8Trim => "L8Trim",
            XmlPath::SourceColorModel => "SourceColorModel",
        }
    }
}

/// What can go wrong while reading a metadata document.
#[derive(Clone, Debug, PartialEq, Eq)]
pub enum XmlError {
    /// The text is no XML document.
    Malformed,
    /// The document names no version of the colour management.
    NoCmVersion,
    /// A node that has to be there is absent, or has no text.
    XmlMissingNode(XmlPath),
    /// The text of a node is not the number, or the numbers, that its place asks for.
    XmlBadNumber(XmlPath, String),
    /// A trim gives aspect ratios, and the size of the canvas is not known.
    XmlMissingCanvas,
}

/// An `XmlError` with its text as a sequence of characters.
pub enum XmlErrorView {
    Malformed,
    NoCmVersion,
    XmlMissingNode(XmlPath),
    XmlBadNumber(XmlPath, Seq<char>),
    XmlMissingCanvas,
}

impl View for XmlError {
    type V = XmlErrorView;

    open spec fn view(&self) -> XmlErrorView {
        match self {
            XmlError::Malformed => XmlErrorView::Malformed,
            XmlError::NoCmVersion => XmlErrorView::NoCmVersion,
            XmlError::XmlMissingNode(path) => XmlErrorView::XmlMissingNode(*path),
            XmlError::XmlBadNumber(path, text) => XmlErrorView::XmlBadNumber(*path, text@),
            XmlError::XmlMissingCanvas => XmlErrorView::XmlMissingCanvas,
        }
    }
}

} // verus!
