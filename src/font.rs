use vstd::prelude::*;
use crate::outline::BBox;

verus! {

#[verifier::external_type_specification]
#[verifier::external_body]
pub struct ExFace<'a>(ttf_parser::Face<'a>);

#[verifier::external_type_specification]
#[verifier::external_body]
pub struct ExGlyphId(ttf_parser::GlyphId);

/// Relies on `Face::glyph_index`: the font's glyph for a codepoint, if any.
pub assume_specification<'a>[ ttf_parser::Face::<'a>::glyph_index ](
    face: &ttf_parser::Face<'a>,
    code_point: char,
) -> Option<ttf_parser::GlyphId>;

/// Relies on `Face::glyph_hor_advance`: a glyph's advance, if the font records one.
pub assume_specification<'a>[ ttf_parser::Face::<'a>::glyph_hor_advance ](
    face: &ttf_parser::Face<'a>,
    glyph_id: ttf_parser::GlyphId,
) -> Option<u16>;

/// Relies on `Face::global_bounding_box`: the box that encloses every glyph,
/// copied field by field.
#[verifier::external_body]
pub(crate) fn global_bbox(face: &ttf_parser::Face) -> BBox {
    let r = face.global_bounding_box();
    BBox { x_min: r.x_min, y_min: r.y_min, x_max: r.x_max, y_max: r.y_max }
}

/// What the font holds for one character before its outline is drawn.
#[derive(Clone, Copy, Debug)]
pub struct GlyphEntry {
    pub index: ttf_parser::GlyphId,
    pub advance: u16,
    pub bbox: BBox,
}

/// Looks up the glyph of `c`, the font's global box and the glyph's advance.
/// `None` where the font has no glyph for `c` or records no advance for it;
/// the outcome rests on the font's tables alone.
pub fn lookup_glyph(face: &ttf_parser::Face, c: char) -> (r: Option<GlyphEntry>) {
    let index = match face.glyph_index(c) {
        Some(index) => index,
        None => return None,
    };
    let bbox = global_bbox(face);
    match face.glyph_hor_advance(index) {
        Some(advance) => Some(GlyphEntry { index, advance, bbox }),
        None => None,
    }
}

} // verus!
