//! Bit flags that name the style attributes of a node.
//!
//! There are three groups of flags, each kept in its own `u64` word of a
//! `StyleMark`: group 0 (`TY_*`, text, image, colour and node attributes),
//! group 1 (`TY1_*`, show, transform, mask and flex-basis attributes) and
//! group 2 (`TY2_*`, layout attributes).
use vstd::prelude::*;

verus! {

// ---- group 0 ----
pub const TY_TEXT: u64 = 0x1;
pub const TY_FONT_STYLE: u64 = 0x2;
pub const TY_FONT_WEIGHT: u64 = 0x4;
pub const TY_FONT_SIZE: u64 = 0x8;
pub const TY_FONT_FAMILY: u64 = 0x10;
pub const TY_LETTER_SPACING: u64 = 0x20;
pub const TY_WORD_SPACING: u64 = 0x40;
pub const TY_LINE_HEIGHT: u64 = 0x80;
pub const TY_INDENT: u64 = 0x100;
pub const TY_WHITE_SPACE: u64 = 0x200;
pub const TY_TEXT_ALIGN: u64 = 0x400;
pub const TY_VERTICAL_ALIGN: u64 = 0x800;
pub const TY_COLOR: u64 = 0x1000;
pub const TY_STROKE: u64 = 0x2000;
pub const TY_TEXT_SHADOW: u64 = 0x4000;
pub const TY_IMAGE: u64 = 0x8000;
pub const TY_IMAGE_CLIP: u64 = 0x10000;
pub const TY_OBJECT_FIT: u64 = 0x20000;
pub const TY_BORDER_IMAGE: u64 = 0x40000;
pub const TY_BORDER_IMAGE_CLIP: u64 = 0x80000;
pub const TY_BORDER_IMAGE_SLICE: u64 = 0x100000;
pub const TY_BORDER_IMAGE_REPEAT: u64 = 0x200000;
pub const TY_BORDER_COLOR: u64 = 0x400000;
pub const TY_BACKGROUND_COLOR: u64 = 0x800000;
pub const TY_BOX_SHADOW: u64 = 0x1000000;
pub const TY_MATRIX: u64 = 0x2000000;
pub const TY_OPACITY: u64 = 0x4000000;
pub const TY_LAYOUT: u64 = 0x8000000;
pub const TY_BORDER_RADIUS: u64 = 0x10000000;
pub const TY_BY_OVERFLOW: u64 = 0x20000000;
pub const TY_FILTER: u64 = 0x40000000;
pub const TY_OCT: u64 = 0x8000000000000000;

// ---- group 1 ----
pub const TY1_IMAGE_TEXTURE: u64 = 0x1;
pub const TY1_BORDER_IMAGE_TEXTURE: u64 = 0x2;
pub const TY1_BLUR: u64 = 0x4;
pub const TY1_CLIP_PATH: u64 = 0x8;
pub const TY1_BACKGROUND_REPEAT: u64 = 0x10;
pub const TY1_TRANSFORM_ORIGIN: u64 = 0x4000;
pub const TY1_CONTENT_BOX: u64 = 0x8000;
pub const TY1_DIRECTION: u64 = 0x10000;
pub const TY1_ASPECT_RATIO: u64 = 0x20000;
pub const TY1_ORDER: u64 = 0x40000;
pub const TY1_FLEX_BASIS: u64 = 0x80000;
pub const TY1_DISPLAY: u64 = 0x100000;
pub const TY1_VISIBILITY: u64 = 0x200000;
pub const TY1_ENABLE: u64 = 0x400000;
pub const TY1_ZINDEX: u64 = 0x800000;
pub const TY1_TRANSFORM: u64 = 0x1000000;
pub const TY1_TRANSFORM_WILL_CHANGE: u64 = 0x2000000;
pub const TY1_OVERFLOW: u64 = 0x4000000;
pub const TY1_CREATE: u64 = 0x8000000;
pub const TY1_DELETE: u64 = 0x10000000;
pub const TY1_MASK_IMAGE: u64 = 0x20000000;
pub const TY1_MASK_IMAGE_CLIP: u64 = 0x40000000;
pub const TY1_MASK_TEXTURE: u64 = 0x8000000000000000;

// ---- group 2 ----
pub const TY2_WIDTH: u64 = 0x1;
pub const TY2_HEIGHT: u64 = 0x2;
pub const TY2_MARGIN_TOP: u64 = 0x4;
pub const TY2_MARGIN_RIGHT: u64 = 0x8;
pub const TY2_MARGIN_BOTTOM: u64 = 0x10;
pub const TY2_MARGIN_LEFT: u64 = 0x20;
pub const TY2_PADDING_TOP: u64 = 0x40;
pub const TY2_PADDING_RIGHT: u64 = 0x80;
pub const TY2_PADDING_BOTTOM: u64 = 0x100;
pub const TY2_PADDING_LEFT: u64 = 0x200;
pub const TY2_BORDER_TOP: u64 = 0x400;
pub const TY2_BORDER_RIGHT: u64 = 0x800;
pub const TY2_BORDER_BOTTOM: u64 = 0x1000;
pub const TY2_BORDER_LEFT: u64 = 0x2000;
pub const TY2_POSITION_TOP: u64 = 0x4000;
pub const TY2_POSITION_RIGHT: u64 = 0x8000;
pub const TY2_POSITION_BOTTOM: u64 = 0x10000;
pub const TY2_POSITION_LEFT: u64 = 0x20000;
pub const TY2_MIN_WIDTH: u64 = 0x40000;
pub const TY2_MIN_HEIGHT: u64 = 0x80000;
pub const TY2_MAX_HEIGHT: u64 = 0x100000;
pub const TY2_MAX_WIDTH: u64 = 0x200000;
pub const TY2_JUSTIFY_CONTENT: u64 = 0x400000;
pub const TY2_FLEX_SHRINK: u64 = 0x800000;
pub const TY2_FLEX_GROW: u64 = 0x1000000;
pub const TY2_POSITION_TYPE: u64 = 0x2000000;
pub const TY2_FLEX_WRAP: u64 = 0x4000000;
pub const TY2_FLEX_DIRECTION: u64 = 0x8000000;
pub const TY2_ALIGN_CONTENT: u64 = 0x10000000;
pub const TY2_ALIGN_ITEMS: u64 = 0x20000000;
pub const TY2_ALIGN_SELF: u64 = 0x40000000;
pub const TY2_BLEND_MODE: u64 = 0x8000000000000000;

// ---- groups of flags ----

/// Text attributes (group 0).
pub const TEXT_DIRTY: u64 = TY_LETTER_SPACING | TY_WORD_SPACING | TY_LINE_HEIGHT | TY_INDENT
    | TY_WHITE_SPACE | TY_TEXT_ALIGN | TY_VERTICAL_ALIGN | TY_TEXT_SHADOW | TY_COLOR | TY_STROKE;
/// Font attributes (group 0).
pub const FONT_DIRTY: u64 = TY_FONT_STYLE | TY_FONT_FAMILY | TY_FONT_SIZE | TY_FONT_WEIGHT;
/// Attributes of the node that have no render object of their own (group 0).
pub const NODE_DIRTY: u64 = TY_FILTER | TY_OPACITY | TY_BORDER_RADIUS;
/// Show, order and transform attributes (group 1).
pub const NODE_DIRTY1: u64 = TY1_VISIBILITY | TY1_ENABLE | TY1_ZINDEX | TY1_TRANSFORM | TY1_DISPLAY;
/// The three show attributes (group 1).
pub const SHOW_DIRTY1: u64 = TY1_ENABLE | TY1_DISPLAY | TY1_VISIBILITY;
/// All text and font attributes (group 0).
pub const TEXT_STYLE_DIRTY: u64 = TEXT_DIRTY | FONT_DIRTY | TY_TEXT_SHADOW;
/// Background image attributes (group 0).
pub const IMAGE_DIRTY: u64 = TY_IMAGE | TY_IMAGE_CLIP | TY_OBJECT_FIT;
/// Mask image attributes (group 1).
pub const MASK_IMAGE_DIRTY: u64 = TY1_MASK_IMAGE | TY1_MASK_IMAGE_CLIP;
/// Border image attributes (group 0).
pub const BORDER_IMAGE_DIRTY: u64 = TY_BORDER_IMAGE | TY_BORDER_IMAGE_CLIP | TY_BORDER_IMAGE_SLICE
    | TY_BORDER_IMAGE_REPEAT;
/// The four margins (group 2).
pub const LAYOUT_MARGIN_MARK: u64 = TY2_MARGIN_TOP | TY2_MARGIN_RIGHT | TY2_MARGIN_BOTTOM | TY2_MARGIN_LEFT;
/// The four paddings (group 2).
pub const LAYOUT_PADDING_MARK: u64 = TY2_PADDING_TOP | TY2_PADDING_RIGHT | TY2_PADDING_BOTTOM
    | TY2_PADDING_LEFT;
/// The four borders (group 2).
pub const LAYOUT_BORDER_MARK: u64 = TY2_BORDER_TOP | TY2_BORDER_RIGHT | TY2_BORDER_BOTTOM | TY2_BORDER_LEFT;
/// The four positions (group 2).
pub const LAYOUT_POSITION_MARK: u64 = TY2_POSITION_TOP | TY2_POSITION_RIGHT | TY2_POSITION_BOTTOM
    | TY2_POSITION_LEFT;
/// Size and margins (group 2).
pub const LAYOUT_RECT_MARK: u64 = TY2_WIDTH | TY2_HEIGHT | LAYOUT_MARGIN_MARK;
/// Every layout attribute (group 2).
pub const LAYOUT_OTHER_DIRTY: u64 = TY2_WIDTH | TY2_HEIGHT | LAYOUT_MARGIN_MARK | LAYOUT_PADDING_MARK
    | LAYOUT_BORDER_MARK | LAYOUT_POSITION_MARK | TY2_MIN_WIDTH | TY2_MIN_HEIGHT | TY2_MAX_HEIGHT
    | TY2_MAX_WIDTH | TY2_FLEX_SHRINK | TY2_FLEX_GROW | TY2_POSITION_TYPE | TY2_FLEX_WRAP
    | TY2_FLEX_DIRECTION | TY2_ALIGN_CONTENT | TY2_ALIGN_ITEMS | TY2_ALIGN_SELF | TY2_JUSTIFY_CONTENT;

} // verus!
