//! The boundary to the rasterizer crate: parsing registered font bytes into
//! usable font handles and asking a handle whether it covers a character.
//! These are the only operations taken on trust from `ab_glyph`.

use vstd::prelude::*;

verus! {

#[verifier::external_type_specification]
#[verifier::external_body]
pub struct ExFontArc(ab_glyph::FontArc);

/// Whether `ab_glyph` accepts these bytes, at this face index, as a font.
/// Parsing is a pure function of the bytes and the index, so acceptance can
/// be given a name even though stating it in full would reproduce the font
/// file format.
pub uninterp spec fn font_parse_ok(bytes: Seq<u8>, index: u32) -> bool;

/// Relies on `ab_glyph::FontVec::try_from_vec_and_index` (and the
/// `FontArc::from` conversion): parsing succeeds or fails as a function of
/// the bytes and the face index alone.
#[verifier::external_body]
pub(crate) fn parse_font(bytes: &Vec<u8>, index: u32) -> (r: Option<ab_glyph::FontArc>)
    ensures
        r is Some <==> font_parse_ok(bytes@, index),
{
    match ab_glyph::FontVec::try_from_vec_and_index(bytes.clone(), index) {
        Ok(f) => Some(ab_glyph::FontArc::from(f)),
        Err(_) => None,
    }
}

/// Relies on `ab_glyph::FontArc::clone`: the clone shares the same parsed
/// font.
pub assume_specification[ <ab_glyph::FontArc as Clone>::clone ](f: &ab_glyph::FontArc) -> (r:
    ab_glyph::FontArc)
    ensures
        r == *f,
;

/// Relies on `ab_glyph::Font::glyph_id`: the returned glyph index is 0
/// exactly when the font has no glyph for the character. Which characters a
/// font covers is outside this library's model, so nothing is promised of
/// the result.
#[verifier::external_body]
pub(crate) fn glyph_index(font: &ab_glyph::FontArc, c: char) -> u16 {
    ab_glyph::Font::glyph_id(font, c).0
}

} // verus!
