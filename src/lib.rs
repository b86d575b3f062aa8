//! Conversion of IPA transcriptions (including the OED and CED dictionary
//! notations) into SaypYu spelling.
//!
//! `table` holds the ordered multi-character rules and the single-character
//! mapping, `scan` the left-to-right conversion and its specification
//! `saypyu_of`, and `laws` the properties proved of that specification.
pub mod laws;
pub mod scan;
pub mod table;

pub use scan::{chars_of, ipa_to_saypyu};
