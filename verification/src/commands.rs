//! The commands of the tool, and which of their arguments exclude each other.

use vstd::prelude::*;

verus! {

/// What the tool is asked to do. Paths are given as text.
#[derive(Clone, Debug, PartialEq, Eq)]
pub enum Command {
    /// Splits a stream into its base layer and its enhancement layer.
    Demux {
        input: Option<String>,
        stdin: Option<String>,
        bl_out: Option<String>,
        el_out: Option<String>,
        el_only: bool,
    },
    /// Takes the RPUs out of a stream.
    ExtractRpu { input: Option<String>, stdin: Option<String>, rpu_out: Option<String> },
    /// Changes the RPUs of a file as a JSON file says.
    Editor { input: String, json_file: String, rpu_out: Option<String> },
    /// Turns a stream of two layers into one of a single layer.
    Convert { input: Option<String>, stdin: Option<String>, output: Option<String>, discard: bool },
    /// Puts RPUs into a stream.
    InjectRpu { input: String, rpu_in: String, output: Option<String> },
    /// Shows one RPU of a file.
    Info { input: String, frame: Option<usize> },
    /// Generates RPUs from a description.
    Generate {
        json_file: Option<String>,
        rpu_out: Option<String>,
        hdr10plus_json: Option<String>,
        xml: Option<String>,
        canvas_width: Option<u16>,
        canvas_height: Option<u16>,
        madvr_file: Option<String>,
        use_custom_targets: bool,
    },
    /// Writes the RPUs of a file as JSON.
    Export { input: String, output: Option<String> },
}

/// Two arguments that may not be given together.
#[derive(Clone, Copy, Debug, PartialEq, Eq, Structural)]
pub enum Conflict {
    InputAndStdin,
    JsonAndXml,
    JsonAndMadvr,
}

impl Command {
    /// The first pair of arguments that are given though they exclude each
    /// other: an input file and the standard input; for `Generate`, a JSON
    /// description and an XML file, or a JSON description and a madVR file.
    pub open spec fn spec_conflict(self) -> Option<Conflict> {
        match self {
            Command::Demux { input, stdin, .. } => if input is Some && stdin is Some {
                Some(Conflict::InputAndStdin)
            } else {
                None
            },
            Command::ExtractRpu { input, stdin, .. } => if input is Some && stdin is Some {
                Some(Conflict::InputAndStdin)
            } else {
                None
            },
            Command::Convert { input, stdin, .. } => if input is Some && stdin is Some {
                Some(Conflict::InputAndStdin)
            } else {
                None
            },
            Command::Generate { json_file, xml, madvr_file, .. } => if json_file is Some
                && xml is Some {
                Some(Conflict::JsonAndXml)
            } else if json_file is Some && madvr_file is Some {
                Some(Conflict::JsonAndMadvr)
            } else {
                None
            },
            _ => None,
        }
    }

    /// The first pair of arguments that are given though they exclude each other.
    pub fn conflict(&self) -> (r: Option<Conflict>)
        ensures
            r == self.spec_conflict(),
    {
        match self {
            Command::Demux { input, stdin, .. } => if input.is_some() && stdin.is_some() {
                Some(Conflict::InputAndStdin)
            } else {
                None
            },
            Command::ExtractRpu { input, stdin, .. } => if input.is_some() && stdin.is_some() {
                Some(Conflict::InputAndStdin)
            } else {
                None
            },
            Command::Convert { input, stdin, .. } => if input.is_some() && stdin.is_some() {
                Some(Conflict::InputAndStdin)
            } else {
                None
            },
            Command::Generate { json_file, xml, madvr_file, .. } => if json_file.is_some()
                && xml.is_some() {
                Some(Conflict::JsonAndXml)
            } else if json_file.is_some() && madvr_file.is_some() {
                Some(Conflict::JsonAndMadvr)
            } else {
                None
            },
            _ => None,
        }
    }
}

} // verus!
