//! Dolby Vision RPU metadata.
//!
//! - `bits`, `bitvec_reader`, `bitvec_writer`, `fields`: bit sequences, the
//!   unsigned Exp-Golomb code, and lists of numbers on the wire.
//! - `crc32`: the checksum of an RPU.
//! - `blocks`, `block_codec`, `block_order`: the extension metadata blocks,
//!   how they are read and written, and the order they are kept in.
//! - `vdr_dm_data`, `dm_codec`: the display management data.
//! - `rpu_header`, `coefficients`, `rpu_mapping`, `rpu`, `rpu_edit`: the
//!   whole RPU, how it is read, written and changed.
//! - `generate`, `generator`: generating the RPUs of a sequence.
//! - `xml_tree`, `text`, `xml_numbers`, `xml_parser`, `xml_trims`,
//!   `xml_shots`: reading a metadata document.
//! - `commands`: the commands of the tool.
//!
//! The modules whose names end in `_laws` hold what is proved of reading
//! after writing. Arithmetic on fractions is not part of the library: where
//! a document gives fractions, the caller computes with them.

pub mod bits;
pub mod bitvec_reader;
pub mod bitvec_writer;
pub mod block_codec;
pub mod block_order;
pub mod blocks;
pub mod coefficients;
pub mod commands;
pub mod crc32;
pub mod dm_codec;
pub mod error;
pub mod fields;
pub mod generate;
pub mod generator;
pub mod generator_laws;
pub mod rpu;
pub mod rpu_edit;
pub mod rpu_edit_laws;
pub mod rpu_header;
pub mod rpu_header_laws;
pub mod rpu_laws;
pub mod rpu_mapping;
pub mod rpu_mapping_laws;
pub mod stable_sort;
pub mod text;
pub mod vdr_dm_data;
pub mod xml_numbers;
pub mod xml_parser;
pub mod xml_shots;
pub mod xml_tree;
pub mod xml_trims;
