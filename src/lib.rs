//! Encodes a string as a null-terminated array of signed code units laid out
//! exactly like a narrow (`char`) or wide (`wchar_t`) C string constant.
mod encoder;
mod laws;
mod width;

pub use encoder::{
    encoding, fits, narrow_values, real_c_string, real_c_wstring, reports_unsupported, transform,
    transformed, unsupported_characters, unsupported_offsets, wide_values, CStringArtifact,
    Diagnostic,
};
pub use laws::{
    lemma_boundary, lemma_deterministic, lemma_empty_input, lemma_length, lemma_offsets_increasing,
    lemma_round_trip,
};
pub use width::{signed_unit, unsigned_unit, TransformType};
