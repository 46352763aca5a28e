//! Styled text turned into layered glyph drawables: the text buffer with ranged
//! styles, the per-run glyph cache and its layer numbering, the choice between
//! outline and color-bitmap rendering, and the decoding of color bitmaps.

pub mod rich_text;
pub mod layers;
pub mod glyph;
pub mod bitmap;
pub mod text;
