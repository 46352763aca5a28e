use vstd::prelude::*;

verus! {

/// Whether `s` is one of the glyphs of the emoji table.
pub uninterp spec fn emoji_glyph(s: Seq<char>) -> bool;

/// Relies on `emoji::lookup_by_glyph::lookup`: a lookup of the text in the crate's
/// fixed table of emoji glyphs, whose answer depends on the text alone.
#[verifier::external_body]
pub(crate) fn lookup_emoji(s: &str) -> (r: bool)
    ensures
        r == emoji_glyph(s@),
{
    emoji::lookup_by_glyph::lookup(s).is_some()
}

/// How one shaped glyph is drawn.
#[derive(Debug, Clone, Copy, PartialEq, Eq, Structural)]
pub enum GlyphRender {
    /// No contour: nothing is drawn, the pen still advances.
    Skip,
    /// The color bitmap, placed over the outline's bounds.
    Bitmap,
    /// The outline, filled with the run's style.
    Outline,
}

/// The drawing chosen for a glyph: none without an outline; the color bitmap for
/// an emoji whose bitmap decoded; the outline otherwise, so that a glyph whose
/// bitmap is missing or undecodable is never dropped.
pub open spec fn render_of(has_outline: bool, is_emoji: bool, has_bitmap: bool) -> GlyphRender {
    if !has_outline {
        GlyphRender::Skip
    } else if is_emoji && has_bitmap {
        GlyphRender::Bitmap
    } else {
        GlyphRender::Outline
    }
}

/// Whether a decoded color bitmap is worth asking the rasterizer for.
pub fn wants_bitmap(has_outline: bool, is_emoji: bool) -> (r: bool)
    ensures
        r == (has_outline && is_emoji),
        !r ==> forall|b: bool| render_of(has_outline, is_emoji, b) != GlyphRender::Bitmap,
{
    has_outline && is_emoji
}

/// Chooses how to draw a glyph from what the rasterizer supplied: whether it has
/// an outline, whether its run's text is an emoji, and whether a color bitmap of
/// it was decoded.
pub fn choose_render(has_outline: bool, is_emoji: bool, has_bitmap: bool) -> (r: GlyphRender)
    ensures
        r == render_of(has_outline, is_emoji, has_bitmap),
{
    if !has_outline {
        GlyphRender::Skip
    } else if is_emoji && has_bitmap {
        GlyphRender::Bitmap
    } else {
        GlyphRender::Outline
    }
}

} // verus!
