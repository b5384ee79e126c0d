//! Which conversions the context menu offers for a row.

use vstd::prelude::*;
use crate::converters::types::ConversionKind;

verus! {

/// The conversions offered for a row: only for regular files whose name
/// the conversion reads.
#[derive(Debug, Clone, Copy, PartialEq, Eq, Structural)]
pub struct ConversionOffers {
    pub jxl: bool,
    pub opus: bool,
    pub png: bool,
    pub flac: bool,
}

/// The conversions offered for a row of kind text `kind` named `name`.
pub fn conversion_offers(kind: &str, name: &str) -> (r: ConversionOffers)
    ensures
        r.jxl == (kind@ == "Arquivo"@ && ConversionKind::JpegXl.accepts_path(name@)),
        r.opus == (kind@ == "Arquivo"@ && ConversionKind::Opus.accepts_path(name@)),
        r.png == (kind@ == "Arquivo"@ && ConversionKind::Png.accepts_path(name@)),
        r.flac == (kind@ == "Arquivo"@ && ConversionKind::Flac.accepts_path(name@)),
{
    let k = crate::text::chars_of(kind);
    let is_regular_file = crate::text::eq_str(&k, "Arquivo");
    ConversionOffers {
        jxl: is_regular_file && ConversionKind::JpegXl.accepts(name),
        opus: is_regular_file && ConversionKind::Opus.accepts(name),
        png: is_regular_file && ConversionKind::Png.accepts(name),
        flac: is_regular_file && ConversionKind::Flac.accepts(name),
    }
}

} // verus!
