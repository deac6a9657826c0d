//! Class styles: applying the attributes of a node's classes, and resetting
//! the attributes that an old class set and no current class or local style
//! sets any more.
//!
//! An attribute of a class is applied only where the node's local style does
//! not set it. The attribute values themselves (lengths, colours, images) are
//! written by the caller; the functions here decide which attributes are
//! written and which style flags become dirty.
use vstd::prelude::*;
use crate::id_set::{with_id, insert_id};
use crate::style_mark::{
    StyleMark, DirtyList, set_dirty, set_dirty1, set_dirty2, lemma_or_nonzero, pushed_if_became_dirty,
    dirty_list_exact, lemma_exact_after_change, image_size_flags, set_image_size, empty_mark, holds_all,
    text_style_field_flag, rect_layout_field_flag, other_layout_field_flag1, other_layout_field_flag2,
    show_field_flag, local_style_flag, LocalStyle, class_aware_flag, ClassAwareStyle, load_types, ImageType,
};
use crate::style_type::{
    TY_OBJECT_FIT, TY_TEXT_ALIGN, TY_VERTICAL_ALIGN, TY_WHITE_SPACE, TY_FONT_STYLE,
    TY1_BACKGROUND_REPEAT, TY1_ENABLE, TY1_DISPLAY, TY1_VISIBILITY, TY1_OVERFLOW, TY2_ALIGN_CONTENT,
    TY2_ALIGN_ITEMS, TY2_ALIGN_SELF, TY2_JUSTIFY_CONTENT, TY2_FLEX_DIRECTION, TY2_FLEX_WRAP,
    TY2_POSITION_TYPE, TY_LETTER_SPACING, TY_LINE_HEIGHT, TY_INDENT, TY_WORD_SPACING, TY_FONT_WEIGHT,
    TY_FONT_SIZE, TY_FONT_FAMILY, TY1_ZINDEX, TY_OPACITY, TY1_BLUR, TY2_BLEND_MODE,
    TY_BORDER_IMAGE_REPEAT, TY_IMAGE, TY1_MASK_IMAGE, TY_BORDER_IMAGE, TY2_WIDTH, TY2_HEIGHT,
    TY2_MARGIN_LEFT, TY2_MARGIN_TOP, TY2_MARGIN_BOTTOM, TY2_MARGIN_RIGHT, TY2_PADDING_LEFT,
    TY2_PADDING_TOP, TY2_PADDING_BOTTOM, TY2_PADDING_RIGHT, TY2_BORDER_LEFT, TY2_BORDER_TOP,
    TY2_BORDER_BOTTOM, TY2_BORDER_RIGHT, TY2_POSITION_LEFT, TY2_POSITION_TOP, TY2_POSITION_RIGHT,
    TY2_POSITION_BOTTOM, TY2_MIN_WIDTH, TY2_MIN_HEIGHT, TY2_MAX_HEIGHT, TY2_MAX_WIDTH, TY1_FLEX_BASIS,
    TY2_FLEX_SHRINK, TY2_FLEX_GROW, TY1_CLIP_PATH, TY_BACKGROUND_COLOR, TY_BORDER_COLOR, TY_BOX_SHADOW,
    TY_IMAGE_CLIP, TY1_MASK_IMAGE_CLIP, TY_BORDER_IMAGE_CLIP, TY_BORDER_IMAGE_SLICE, TY_COLOR,
    TY_TEXT_SHADOW, TY_STROKE, TY_BORDER_RADIUS, TY1_TRANSFORM, TY1_TRANSFORM_ORIGIN, TY_FILTER,
    TEXT_STYLE_DIRTY, IMAGE_DIRTY, BORDER_IMAGE_DIRTY, NODE_DIRTY, SHOW_DIRTY1, LAYOUT_OTHER_DIRTY,
    LAYOUT_MARGIN_MARK, LAYOUT_PADDING_MARK, LAYOUT_BORDER_MARK,
};
use std::collections::HashMap;

verus! {

/// What applying one class attribute does: the flags of the fields it writes
/// (in the attribute's own group; 0 when it writes nothing) and the flags it
/// marks dirty in each group.
#[derive(Clone, Copy, Debug)]
pub struct Effect {
    pub written: u64,
    pub dirty: u64,
    pub dirty1: u64,
    pub dirty2: u64,
}

/// Writes nothing, marks nothing.
pub open spec fn no_effect() -> Effect {
    Effect { written: 0, dirty: 0, dirty1: 0, dirty2: 0 }
}

/// The flags `bits` that the local flags `local` leave free.
pub open spec fn free_bits(bits: u64, local: u64) -> u64 {
    bits & !local
}

/// An attribute written under one flag `bit` of a group whose local flags are
/// `local`, marking `dirty` in the given group when written.
pub open spec fn gated(bit: u64, local: u64, group: int, dirty: u64) -> Effect {
    if bit & local == 0 {
        Effect {
            written: bit,
            dirty: if group == 0 { dirty } else { 0 },
            dirty1: if group == 1 { dirty } else { 0 },
            dirty2: if group == 2 { dirty } else { 0 },
        }
    } else {
        no_effect()
    }
}

fn gated_exec(bit: u64, local: u64, group: u8, dirty: u64) -> (r: Effect)
    ensures
        r == gated(bit, local, group as int, dirty),
{
    if bit & local == 0 {
        Effect {
            written: bit,
            dirty: if group == 0 { dirty } else { 0 },
            dirty1: if group == 1 { dirty } else { 0 },
            dirty2: if group == 2 { dirty } else { 0 },
        }
    } else {
        Effect { written: 0, dirty: 0, dirty1: 0, dirty2: 0 }
    }
}

/// Layout and show attributes of a class (the first attribute list).
#[derive(Clone, Copy, Debug)]
pub enum ClassAttr1 {
    AlignContent,
    AlignItems,
    AlignSelf,
    JustifyContent,
    FlexDirection,
    FlexWrap,
    PositionType,
    ObjectFit,
    BackgroundRepeat,
    TextAlign,
    VerticalAlign,
    WhiteSpace,
    FontStyle,
    Enable,
    Display,
    Visibility,
    Overflow,
}

/// What applying `a` to a node with mark `m` does.
///
/// Flex attributes are written where the local group-2 flag is clear and mark
/// nothing dirty. `ObjectFit` and `BackgroundRepeat` belong to the background
/// image option, whose local flag is `ObjectFit`: both are written where that
/// flag is clear. The show attributes and `Overflow` mark nothing dirty here
/// (their components notify their own change).
pub open spec fn attr1_effect(a: ClassAttr1, m: StyleMark) -> Effect {
    match a {
        ClassAttr1::AlignContent => gated(TY2_ALIGN_CONTENT, m.local_style2, 2, 0),
        ClassAttr1::AlignItems => gated(TY2_ALIGN_ITEMS, m.local_style2, 2, 0),
        ClassAttr1::AlignSelf => gated(TY2_ALIGN_SELF, m.local_style2, 2, 0),
        ClassAttr1::JustifyContent => gated(TY2_JUSTIFY_CONTENT, m.local_style2, 2, 0),
        ClassAttr1::FlexDirection => gated(TY2_FLEX_DIRECTION, m.local_style2, 2, 0),
        ClassAttr1::FlexWrap => gated(TY2_FLEX_WRAP, m.local_style2, 2, 0),
        ClassAttr1::PositionType => gated(TY2_POSITION_TYPE, m.local_style2, 2, 0),
        ClassAttr1::ObjectFit => gated(TY_OBJECT_FIT, m.local_style, 0, TY_OBJECT_FIT),
        ClassAttr1::BackgroundRepeat => if m.local_style & TY_OBJECT_FIT == 0 {
            Effect { written: TY1_BACKGROUND_REPEAT, dirty: 0, dirty1: TY1_BACKGROUND_REPEAT, dirty2: 0 }
        } else {
            no_effect()
        },
        ClassAttr1::TextAlign => gated(TY_TEXT_ALIGN, m.local_style, 0, TY_TEXT_ALIGN),
        ClassAttr1::VerticalAlign => gated(TY_VERTICAL_ALIGN, m.local_style, 0, TY_VERTICAL_ALIGN),
        ClassAttr1::WhiteSpace => gated(TY_WHITE_SPACE, m.local_style, 0, TY_WHITE_SPACE),
        ClassAttr1::FontStyle => gated(TY_FONT_STYLE, m.local_style, 0, TY_FONT_STYLE),
        ClassAttr1::Enable => gated(TY1_ENABLE, m.local_style1, 1, 0),
        ClassAttr1::Display => gated(TY1_DISPLAY, m.local_style1, 1, 0),
        ClassAttr1::Visibility => gated(TY1_VISIBILITY, m.local_style1, 1, 0),
        ClassAttr1::Overflow => gated(TY1_OVERFLOW, m.local_style1, 1, 0),
    }
}

fn attr1_effect_exec(a: ClassAttr1, m: &StyleMark) -> (r: Effect)
    ensures
        r == attr1_effect(a, *m),
{
    match a {
        ClassAttr1::AlignContent => gated_exec(TY2_ALIGN_CONTENT, m.local_style2, 2, 0),
        ClassAttr1::AlignItems => gated_exec(TY2_ALIGN_ITEMS, m.local_style2, 2, 0),
        ClassAttr1::AlignSelf => gated_exec(TY2_ALIGN_SELF, m.local_style2, 2, 0),
        ClassAttr1::JustifyContent => gated_exec(TY2_JUSTIFY_CONTENT, m.local_style2, 2, 0),
        ClassAttr1::FlexDirection => gated_exec(TY2_FLEX_DIRECTION, m.local_style2, 2, 0),
        ClassAttr1::FlexWrap => gated_exec(TY2_FLEX_WRAP, m.local_style2, 2, 0),
        ClassAttr1::PositionType => gated_exec(TY2_POSITION_TYPE, m.local_style2, 2, 0),
        ClassAttr1::ObjectFit => gated_exec(TY_OBJECT_FIT, m.local_style, 0, TY_OBJECT_FIT),
        ClassAttr1::BackgroundRepeat => if m.local_style & TY_OBJECT_FIT == 0 {
            Effect { written: TY1_BACKGROUND_REPEAT, dirty: 0, dirty1: TY1_BACKGROUND_REPEAT, dirty2: 0 }
        } else {
            Effect { written: 0, dirty: 0, dirty1: 0, dirty2: 0 }
        },
        ClassAttr1::TextAlign => gated_exec(TY_TEXT_ALIGN, m.local_style, 0, TY_TEXT_ALIGN),
        ClassAttr1::VerticalAlign => gated_exec(TY_VERTICAL_ALIGN, m.local_style, 0, TY_VERTICAL_ALIGN),
        ClassAttr1::WhiteSpace => gated_exec(TY_WHITE_SPACE, m.local_style, 0, TY_WHITE_SPACE),
        ClassAttr1::FontStyle => gated_exec(TY_FONT_STYLE, m.local_style, 0, TY_FONT_STYLE),
        ClassAttr1::Enable => gated_exec(TY1_ENABLE, m.local_style1, 1, 0),
        ClassAttr1::Display => gated_exec(TY1_DISPLAY, m.local_style1, 1, 0),
        ClassAttr1::Visibility => gated_exec(TY1_VISIBILITY, m.local_style1, 1, 0),
        ClassAttr1::Overflow => gated_exec(TY1_OVERFLOW, m.local_style1, 1, 0),
    }
}

/// Text, node and layout attributes of a class (the second attribute list).
///
/// `LetterSpacing` and `TextIndent` carry whether the class value differs
/// from the node's current value: they are written only then.
#[derive(Clone, Copy, Debug)]
pub enum ClassAttr2 {
    LetterSpacing(bool),
    LineHeight,
    TextIndent(bool),
    WordSpacing,
    FontWeight,
    FontSize,
    FontFamily,
    ZIndex,
    Opacity,
    Blur,
    BlendMode,
    BorderImageRepeat,
    ImageUrl,
    MaskImage,
    BorderImageUrl,
    Width,
    Height,
    MarginLeft,
    MarginTop,
    MarginBottom,
    MarginRight,
    Margin,
    PaddingLeft,
    PaddingTop,
    PaddingBottom,
    PaddingRight,
    Padding,
    BorderLeft,
    BorderTop,
    BorderBottom,
    BorderRight,
    Border,
    PositionLeft,
    PositionTop,
    PositionRight,
    PositionBottom,
    MinWidth,
    MinHeight,
    MaxHeight,
    MaxWidth,
    FlexBasis,
    FlexShrink,
    FlexGrow,
}

/// A group-2 attribute with several sides: each side free of local style is
/// written and marked dirty.
pub open spec fn sides(bits: u64, local2: u64) -> Effect {
    Effect { written: bits & !local2, dirty: 0, dirty1: 0, dirty2: bits & !local2 }
}

/// What applying `a` to a node with mark `m` does.
///
/// `ZIndex`, `Opacity`, `Blur`, `BlendMode` and the three image urls mark
/// nothing dirty (their components notify or load on their own). The
/// shorthands `Margin`, `Padding` and `Border` write each of their four sides
/// that is free of local style.
pub open spec fn attr2_effect(a: ClassAttr2, m: StyleMark) -> Effect {
    match a {
        ClassAttr2::LetterSpacing(differs) => if differs {
            gated(TY_LETTER_SPACING, m.local_style, 0, TY_LETTER_SPACING)
        } else {
            no_effect()
        },
        ClassAttr2::LineHeight => gated(TY_LINE_HEIGHT, m.local_style, 0, TY_LINE_HEIGHT),
        ClassAttr2::TextIndent(differs) => if differs {
            gated(TY_INDENT, m.local_style, 0, TY_INDENT)
        } else {
            no_effect()
        },
        ClassAttr2::WordSpacing => gated(TY_WORD_SPACING, m.local_style, 0, TY_WORD_SPACING),
        ClassAttr2::FontWeight => gated(TY_FONT_WEIGHT, m.local_style, 0, TY_FONT_WEIGHT),
        ClassAttr2::FontSize => gated(TY_FONT_SIZE, m.local_style, 0, TY_FONT_SIZE),
        ClassAttr2::FontFamily => gated(TY_FONT_FAMILY, m.local_style, 0, TY_FONT_FAMILY),
        ClassAttr2::ZIndex => gated(TY1_ZINDEX, m.local_style1, 1, 0),
        ClassAttr2::Opacity => gated(TY_OPACITY, m.local_style, 0, 0),
        ClassAttr2::Blur => gated(TY1_BLUR, m.local_style1, 1, 0),
        ClassAttr2::BlendMode => gated(TY2_BLEND_MODE, m.local_style2, 2, 0),
        ClassAttr2::BorderImageRepeat => gated(
            TY_BORDER_IMAGE_REPEAT,
            m.local_style,
            0,
            TY_BORDER_IMAGE_REPEAT,
        ),
        ClassAttr2::ImageUrl => gated(TY_IMAGE, m.local_style, 0, 0),
        ClassAttr2::MaskImage => gated(TY1_MASK_IMAGE, m.local_style1, 1, 0),
        ClassAttr2::BorderImageUrl => gated(TY_BORDER_IMAGE, m.local_style, 0, 0),
        ClassAttr2::Width => gated(TY2_WIDTH, m.local_style2, 2, TY2_WIDTH),
        ClassAttr2::Height => gated(TY2_HEIGHT, m.local_style2, 2, TY2_HEIGHT),
        ClassAttr2::MarginLeft => gated(TY2_MARGIN_LEFT, m.local_style2, 2, TY2_MARGIN_LEFT),
        ClassAttr2::MarginTop => gated(TY2_MARGIN_TOP, m.local_style2, 2, TY2_MARGIN_TOP),
        ClassAttr2::MarginBottom => gated(TY2_MARGIN_BOTTOM, m.local_style2, 2, TY2_MARGIN_BOTTOM),
        ClassAttr2::MarginRight => gated(TY2_MARGIN_RIGHT, m.local_style2, 2, TY2_MARGIN_RIGHT),
        ClassAttr2::Margin => sides(
            TY2_MARGIN_LEFT | TY2_MARGIN_TOP | TY2_MARGIN_BOTTOM | TY2_MARGIN_RIGHT,
            m.local_style2,
        ),
        ClassAttr2::PaddingLeft => gated(TY2_PADDING_LEFT, m.local_style2, 2, TY2_PADDING_LEFT),
        ClassAttr2::PaddingTop => gated(TY2_PADDING_TOP, m.local_style2, 2, TY2_PADDING_TOP),
        ClassAttr2::PaddingBottom => gated(TY2_PADDING_BOTTOM, m.local_style2, 2, TY2_PADDING_BOTTOM),
        ClassAttr2::PaddingRight => gated(TY2_PADDING_RIGHT, m.local_style2, 2, TY2_PADDING_RIGHT),
        ClassAttr2::Padding => sides(
            TY2_PADDING_LEFT | TY2_PADDING_TOP | TY2_PADDING_BOTTOM | TY2_PADDING_RIGHT,
            m.local_style2,
        ),
        ClassAttr2::BorderLeft => gated(TY2_BORDER_LEFT, m.local_style2, 2, TY2_BORDER_LEFT),
        ClassAttr2::BorderTop => gated(TY2_BORDER_TOP, m.local_style2, 2, TY2_BORDER_TOP),
        ClassAttr2::BorderBottom => gated(TY2_BORDER_BOTTOM, m.local_style2, 2, TY2_BORDER_BOTTOM),
        ClassAttr2::BorderRight => gated(TY2_BORDER_RIGHT, m.local_style2, 2, TY2_BORDER_RIGHT),
        ClassAttr2::Border => sides(
            TY2_BORDER_LEFT | TY2_BORDER_TOP | TY2_BORDER_BOTTOM | TY2_BORDER_RIGHT,
            m.local_style2,
        ),
        ClassAttr2::PositionLeft => gated(TY2_POSITION_LEFT, m.local_style2, 2, TY2_POSITION_LEFT),
        ClassAttr2::PositionTop => gated(TY2_POSITION_TOP, m.local_style2, 2, TY2_POSITION_TOP),
        ClassAttr2::PositionRight => gated(TY2_POSITION_RIGHT, m.local_style2, 2, TY2_POSITION_RIGHT),
        ClassAttr2::PositionBottom => gated(TY2_POSITION_BOTTOM, m.local_style2, 2, TY2_POSITION_BOTTOM),
        ClassAttr2::MinWidth => gated(TY2_MIN_WIDTH, m.local_style2, 2, TY2_MIN_WIDTH),
        ClassAttr2::MinHeight => gated(TY2_MIN_HEIGHT, m.local_style2, 2, TY2_MIN_HEIGHT),
        ClassAttr2::MaxHeight => gated(TY2_MAX_HEIGHT, m.local_style2, 2, TY2_MAX_HEIGHT),
        ClassAttr2::MaxWidth => gated(TY2_MAX_WIDTH, m.local_style2, 2, TY2_MAX_WIDTH),
        ClassAttr2::FlexBasis => gated(TY1_FLEX_BASIS, m.local_style1, 1, TY1_FLEX_BASIS),
        ClassAttr2::FlexShrink => gated(TY2_FLEX_SHRINK, m.local_style2, 2, TY2_FLEX_SHRINK),
        ClassAttr2::FlexGrow => gated(TY2_FLEX_GROW, m.local_style2, 2, TY2_FLEX_GROW),
    }
}

fn sides_exec(bits: u64, local2: u64) -> (r: Effect)
    ensures
        r == sides(bits, local2),
{
    Effect { written: bits & !local2, dirty: 0, dirty1: 0, dirty2: bits & !local2 }
}

fn attr2_effect_exec(a: ClassAttr2, m: &StyleMark) -> (r: Effect)
    ensures
        r == attr2_effect(a, *m),
{
    match a {
        ClassAttr2::LetterSpacing(differs) => if differs {
            gated_exec(TY_LETTER_SPACING, m.local_style, 0, TY_LETTER_SPACING)
        } else {
            Effect { written: 0, dirty: 0, dirty1: 0, dirty2: 0 }
        },
        ClassAttr2::LineHeight => gated_exec(TY_LINE_HEIGHT, m.local_style, 0, TY_LINE_HEIGHT),
        ClassAttr2::TextIndent(differs) => if differs {
            gated_exec(TY_INDENT, m.local_style, 0, TY_INDENT)
        } else {
            Effect { written: 0, dirty: 0, dirty1: 0, dirty2: 0 }
        },
        ClassAttr2::WordSpacing => gated_exec(TY_WORD_SPACING, m.local_style, 0, TY_WORD_SPACING),
        ClassAttr2::FontWeight => gated_exec(TY_FONT_WEIGHT, m.local_style, 0, TY_FONT_WEIGHT),
        ClassAttr2::FontSize => gated_exec(TY_FONT_SIZE, m.local_style, 0, TY_FONT_SIZE),
        ClassAttr2::FontFamily => gated_exec(TY_FONT_FAMILY, m.local_style, 0, TY_FONT_FAMILY),
        ClassAttr2::ZIndex => gated_exec(TY1_ZINDEX, m.local_style1, 1, 0),
        ClassAttr2::Opacity => gated_exec(TY_OPACITY, m.local_style, 0, 0),
        ClassAttr2::Blur => gated_exec(TY1_BLUR, m.local_style1, 1, 0),
        ClassAttr2::BlendMode => gated_exec(TY2_BLEND_MODE, m.local_style2, 2, 0),
        ClassAttr2::BorderImageRepeat => gated_exec(
            TY_BORDER_IMAGE_REPEAT,
            m.local_style,
            0,
            TY_BORDER_IMAGE_REPEAT,
        ),
        ClassAttr2::ImageUrl => gated_exec(TY_IMAGE, m.local_style, 0, 0),
        ClassAttr2::MaskImage => gated_exec(TY1_MASK_IMAGE, m.local_style1, 1, 0),
        ClassAttr2::BorderImageUrl => gated_exec(TY_BORDER_IMAGE, m.local_style, 0, 0),
        ClassAttr2::Width => gated_exec(TY2_WIDTH, m.local_style2, 2, TY2_WIDTH),
        ClassAttr2::Height => gated_exec(TY2_HEIGHT, m.local_style2, 2, TY2_HEIGHT),
        ClassAttr2::MarginLeft => gated_exec(TY2_MARGIN_LEFT, m.local_style2, 2, TY2_MARGIN_LEFT),
        ClassAttr2::MarginTop => gated_exec(TY2_MARGIN_TOP, m.local_style2, 2, TY2_MARGIN_TOP),
        ClassAttr2::MarginBottom => gated_exec(TY2_MARGIN_BOTTOM, m.local_style2, 2, TY2_MARGIN_BOTTOM),
        ClassAttr2::MarginRight => gated_exec(TY2_MARGIN_RIGHT, m.local_style2, 2, TY2_MARGIN_RIGHT),
        ClassAttr2::Margin => sides_exec(
            TY2_MARGIN_LEFT | TY2_MARGIN_TOP | TY2_MARGIN_BOTTOM | TY2_MARGIN_RIGHT,
            m.local_style2,
        ),
        ClassAttr2::PaddingLeft => gated_exec(TY2_PADDING_LEFT, m.local_style2, 2, TY2_PADDING_LEFT),
        ClassAttr2::PaddingTop => gated_exec(TY2_PADDING_TOP, m.local_style2, 2, TY2_PADDING_TOP),
        ClassAttr2::PaddingBottom => gated_exec(TY2_PADDING_BOTTOM, m.local_style2, 2, TY2_PADDING_BOTTOM),
        ClassAttr2::PaddingRight => gated_exec(TY2_PADDING_RIGHT, m.local_style2, 2, TY2_PADDING_RIGHT),
        ClassAttr2::Padding => sides_exec(
            TY2_PADDING_LEFT | TY2_PADDING_TOP | TY2_PADDING_BOTTOM | TY2_PADDING_RIGHT,
            m.local_style2,
        ),
        ClassAttr2::BorderLeft => gated_exec(TY2_BORDER_LEFT, m.local_style2, 2, TY2_BORDER_LEFT),
        ClassAttr2::BorderTop => gated_exec(TY2_BORDER_TOP, m.local_style2, 2, TY2_BORDER_TOP),
        ClassAttr2::BorderBottom => gated_exec(TY2_BORDER_BOTTOM, m.local_style2, 2, TY2_BORDER_BOTTOM),
        ClassAttr2::BorderRight => gated_exec(TY2_BORDER_RIGHT, m.local_style2, 2, TY2_BORDER_RIGHT),
        ClassAttr2::Border => sides_exec(
            TY2_BORDER_LEFT | TY2_BORDER_TOP | TY2_BORDER_BOTTOM | TY2_BORDER_RIGHT,
            m.local_style2,
        ),
        ClassAttr2::PositionLeft => gated_exec(TY2_POSITION_LEFT, m.local_style2, 2, TY2_POSITION_LEFT),
        ClassAttr2::PositionTop => gated_exec(TY2_POSITION_TOP, m.local_style2, 2, TY2_POSITION_TOP),
        ClassAttr2::PositionRight => gated_exec(TY2_POSITION_RIGHT, m.local_style2, 2, TY2_POSITION_RIGHT),
        ClassAttr2::PositionBottom => gated_exec(
            TY2_POSITION_BOTTOM,
            m.local_style2,
            2,
            TY2_POSITION_BOTTOM,
        ),
        ClassAttr2::MinWidth => gated_exec(TY2_MIN_WIDTH, m.local_style2, 2, TY2_MIN_WIDTH),
        ClassAttr2::MinHeight => gated_exec(TY2_MIN_HEIGHT, m.local_style2, 2, TY2_MIN_HEIGHT),
        ClassAttr2::MaxHeight => gated_exec(TY2_MAX_HEIGHT, m.local_style2, 2, TY2_MAX_HEIGHT),
        ClassAttr2::MaxWidth => gated_exec(TY2_MAX_WIDTH, m.local_style2, 2, TY2_MAX_WIDTH),
        ClassAttr2::FlexBasis => gated_exec(TY1_FLEX_BASIS, m.local_style1, 1, TY1_FLEX_BASIS),
        ClassAttr2::FlexShrink => gated_exec(TY2_FLEX_SHRINK, m.local_style2, 2, TY2_FLEX_SHRINK),
        ClassAttr2::FlexGrow => gated_exec(TY2_FLEX_GROW, m.local_style2, 2, TY2_FLEX_GROW),
    }
}

/// Colour, clip, transform and filter attributes of a class (the third
/// attribute list).
#[derive(Clone, Copy, Debug)]
pub enum ClassAttr3 {
    ClipPath,
    BGColor,
    BorderColor,
    BoxShadow,
    ImageClip,
    MaskImageClip,
    BorderImageClip,
    BorderImageSlice,
    Color,
    TextShadow,
    TextStroke,
    BorderRadius,
    TransformFunc,
    TransformOrigin,
    Filter,
}

/// What applying `a` to a node with mark `m` does; `has_texture` says that
/// the node's image is loaded, in which case a written `ImageClip` also sets
/// the image size. The two transform attributes mark nothing dirty (see
/// `transform_write` for how they are written).
pub open spec fn attr3_effect(a: ClassAttr3, m: StyleMark, has_texture: bool) -> Effect {
    match a {
        ClassAttr3::ClipPath => gated(TY1_CLIP_PATH, m.local_style1, 1, TY1_CLIP_PATH),
        ClassAttr3::BGColor => gated(TY_BACKGROUND_COLOR, m.local_style, 0, TY_BACKGROUND_COLOR),
        ClassAttr3::BorderColor => gated(TY_BORDER_COLOR, m.local_style, 0, TY_BORDER_COLOR),
        ClassAttr3::BoxShadow => gated(TY_BOX_SHADOW, m.local_style, 0, TY_BOX_SHADOW),
        ClassAttr3::ImageClip => if TY_IMAGE_CLIP & m.local_style == 0 {
            Effect {
                written: TY_IMAGE_CLIP,
                dirty: TY_IMAGE_CLIP,
                dirty1: 0,
                dirty2: if has_texture { image_size_flags(m) } else { 0 },
            }
        } else {
            no_effect()
        },
        ClassAttr3::MaskImageClip => gated(TY1_MASK_IMAGE_CLIP, m.local_style1, 1, TY1_MASK_IMAGE_CLIP),
        ClassAttr3::BorderImageClip => gated(TY_BORDER_IMAGE_CLIP, m.local_style, 0, TY_BORDER_IMAGE_CLIP),
        ClassAttr3::BorderImageSlice => gated(
            TY_BORDER_IMAGE_SLICE,
            m.local_style,
            0,
            TY_BORDER_IMAGE_SLICE,
        ),
        ClassAttr3::Color => gated(TY_COLOR, m.local_style, 0, TY_COLOR),
        ClassAttr3::TextShadow => gated(TY_TEXT_SHADOW, m.local_style, 0, TY_TEXT_SHADOW),
        ClassAttr3::TextStroke => gated(TY_STROKE, m.local_style, 0, TY_STROKE),
        ClassAttr3::BorderRadius => gated(TY_BORDER_RADIUS, m.local_style, 0, TY_BORDER_RADIUS),
        ClassAttr3::TransformFunc => gated(TY1_TRANSFORM, m.local_style1, 1, 0),
        ClassAttr3::TransformOrigin => gated(TY1_TRANSFORM_ORIGIN, m.local_style1, 1, 0),
        ClassAttr3::Filter => gated(TY_FILTER, m.local_style, 0, TY_FILTER),
    }
}

fn attr3_effect_exec(a: ClassAttr3, m: &StyleMark, has_texture: bool) -> (r: Effect)
    ensures
        r == attr3_effect(a, *m, has_texture),
{
    match a {
        ClassAttr3::ClipPath => gated_exec(TY1_CLIP_PATH, m.local_style1, 1, TY1_CLIP_PATH),
        ClassAttr3::BGColor => gated_exec(TY_BACKGROUND_COLOR, m.local_style, 0, TY_BACKGROUND_COLOR),
        ClassAttr3::BorderColor => gated_exec(TY_BORDER_COLOR, m.local_style, 0, TY_BORDER_COLOR),
        ClassAttr3::BoxShadow => gated_exec(TY_BOX_SHADOW, m.local_style, 0, TY_BOX_SHADOW),
        ClassAttr3::ImageClip => if TY_IMAGE_CLIP & m.local_style == 0 {
            Effect {
                written: TY_IMAGE_CLIP,
                dirty: TY_IMAGE_CLIP,
                dirty1: 0,
                dirty2: if has_texture {
                    let mut sized = *m;
                    set_image_size(&mut sized)
                } else {
                    0
                },
            }
        } else {
            Effect { written: 0, dirty: 0, dirty1: 0, dirty2: 0 }
        },
        ClassAttr3::MaskImageClip => gated_exec(TY1_MASK_IMAGE_CLIP, m.local_style1, 1, TY1_MASK_IMAGE_CLIP),
        ClassAttr3::BorderImageClip => gated_exec(
            TY_BORDER_IMAGE_CLIP,
            m.local_style,
            0,
            TY_BORDER_IMAGE_CLIP,
        ),
        ClassAttr3::BorderImageSlice => gated_exec(
            TY_BORDER_IMAGE_SLICE,
            m.local_style,
            0,
            TY_BORDER_IMAGE_SLICE,
        ),
        ClassAttr3::Color => gated_exec(TY_COLOR, m.local_style, 0, TY_COLOR),
        ClassAttr3::TextShadow => gated_exec(TY_TEXT_SHADOW, m.local_style, 0, TY_TEXT_SHADOW),
        ClassAttr3::TextStroke => gated_exec(TY_STROKE, m.local_style, 0, TY_STROKE),
        ClassAttr3::BorderRadius => gated_exec(TY_BORDER_RADIUS, m.local_style, 0, TY_BORDER_RADIUS),
        ClassAttr3::TransformFunc => gated_exec(TY1_TRANSFORM, m.local_style1, 1, 0),
        ClassAttr3::TransformOrigin => gated_exec(TY1_TRANSFORM_ORIGIN, m.local_style1, 1, 0),
        ClassAttr3::Filter => gated_exec(TY_FILTER, m.local_style, 0, TY_FILTER),
    }
}

/// The dirty flags of a list of effects, or-ed together per group.
pub open spec fn effects_dirty(es: Seq<Effect>) -> Effect
    decreases es.len(),
{
    if es.len() == 0 {
        no_effect()
    } else {
        let r = effects_dirty(es.drop_last());
        Effect {
            written: 0,
            dirty: r.dirty | es.last().dirty,
            dirty1: r.dirty1 | es.last().dirty1,
            dirty2: r.dirty2 | es.last().dirty2,
        }
    }
}

/// The mark after the dirty flags of `e` were added to `m`.
pub open spec fn mark_with_dirty(m: StyleMark, e: Effect) -> StyleMark {
    StyleMark { dirty: m.dirty | e.dirty, dirty1: m.dirty1 | e.dirty1, dirty2: m.dirty2 | e.dirty2, ..m }
}

proof fn lemma_or_assoc(a: u64, b: u64, c: u64)
    ensures
        (a | b) | c == a | (b | c),
        a | 0 == a,
{
    assert((a | b) | c == a | (b | c)) by (bit_vector);
    assert(a | 0 == a) by (bit_vector);
}

/// Adds the dirty flags of `e` to the mark, listing `id` if the mark was
/// clean and becomes dirty.
fn apply_effect(dirty_list: &mut DirtyList, id: usize, e: Effect, style_mark: &mut StyleMark)
    ensures
        *final(style_mark) == mark_with_dirty(*old(style_mark), e),
        final(dirty_list).list@ == pushed_if_became_dirty(
            old(dirty_list).list@,
            id,
            *old(style_mark),
            *final(style_mark),
        ),
        final(dirty_list).version == old(dirty_list).version,
        final(dirty_list).count == old(dirty_list).count,
{
    let ghost m0 = *style_mark;
    if e.dirty != 0 {
        set_dirty(dirty_list, id, e.dirty, style_mark);
    }
    if e.dirty1 != 0 {
        set_dirty1(dirty_list, id, e.dirty1, style_mark);
    }
    if e.dirty2 != 0 {
        set_dirty2(dirty_list, id, e.dirty2, style_mark);
    }
    proof {
        lemma_or_assoc(m0.dirty, 0, 0);
        lemma_or_assoc(m0.dirty1, 0, 0);
        lemma_or_assoc(m0.dirty2, 0, 0);
        lemma_or_nonzero(m0.dirty, e.dirty);
        lemma_or_nonzero(m0.dirty1, e.dirty1);
        lemma_or_nonzero(m0.dirty2, e.dirty2);
    }
}


/// One more effect added to a mark that already holds the first `i` effects of `es`.
proof fn lemma_effects_step(m0: StyleMark, es: Seq<Effect>, i: int, cur: StyleMark)
    requires
        0 <= i < es.len(),
        cur == mark_with_dirty(m0, effects_dirty(es.take(i))),
    ensures
        mark_with_dirty(cur, es[i]) == mark_with_dirty(m0, effects_dirty(es.take(i + 1))),
        !cur.is_clean() ==> !mark_with_dirty(cur, es[i]).is_clean(),
        !m0.is_clean() ==> !cur.is_clean(),
{
    assert(es.take(i + 1).drop_last() =~= es.take(i));
    assert(es.take(i + 1).last() == es[i]);
    let d = effects_dirty(es.take(i));
    lemma_or_assoc(m0.dirty, d.dirty, es[i].dirty);
    lemma_or_assoc(m0.dirty1, d.dirty1, es[i].dirty1);
    lemma_or_assoc(m0.dirty2, d.dirty2, es[i].dirty2);
    lemma_or_nonzero(cur.dirty, es[i].dirty);
    lemma_or_nonzero(cur.dirty1, es[i].dirty1);
    lemma_or_nonzero(cur.dirty2, es[i].dirty2);
    lemma_or_nonzero(m0.dirty, d.dirty);
    lemma_or_nonzero(m0.dirty1, d.dirty1);
    lemma_or_nonzero(m0.dirty2, d.dirty2);
}

proof fn lemma_effects_none(m0: StyleMark, es: Seq<Effect>)
    ensures
        mark_with_dirty(m0, effects_dirty(es.take(0))) == m0,
{
    assert(es.take(0).len() == 0);
    lemma_or_assoc(m0.dirty, 0, 0);
    lemma_or_assoc(m0.dirty1, 0, 0);
    lemma_or_assoc(m0.dirty2, 0, 0);
}

/// The effects of a list of first-list attributes on a node with mark `m`.
pub open spec fn attrs1_effects(attrs: Seq<ClassAttr1>, m: StyleMark) -> Seq<Effect> {
    attrs.map_values(|a: ClassAttr1| attr1_effect(a, m))
}

/// The effects of a list of second-list attributes on a node with mark `m`.
pub open spec fn attrs2_effects(attrs: Seq<ClassAttr2>, m: StyleMark) -> Seq<Effect> {
    attrs.map_values(|a: ClassAttr2| attr2_effect(a, m))
}

/// The effects of a list of third-list attributes on a node with mark `m`.
pub open spec fn attrs3_effects(attrs: Seq<ClassAttr3>, m: StyleMark, has_texture: bool) -> Seq<Effect> {
    attrs.map_values(|a: ClassAttr3| attr3_effect(a, m, has_texture))
}

/// How a class writes the transform of a node.
#[derive(Clone, Copy, Debug, PartialEq, Eq)]
pub enum TransformWrite {
    /// The node's transform takes the class's functions and keeps its origin.
    Funcs,
    /// The node's transform takes the class's origin and keeps its functions.
    Origin,
    /// The node gets a new transform: the class's functions, centre origin.
    NewFuncs,
    /// The node gets a new transform: the class's origin, no functions.
    NewOrigin,
}

/// What a written transform attribute does to the node's transform, given
/// whether the node has one (`None` for the other attributes).
pub open spec fn transform_write_of(a: ClassAttr3, has_transform: bool) -> Option<TransformWrite> {
    match a {
        ClassAttr3::TransformFunc => Some(if has_transform { TransformWrite::Funcs } else { TransformWrite::NewFuncs }),
        ClassAttr3::TransformOrigin => Some(
            if has_transform { TransformWrite::Origin } else { TransformWrite::NewOrigin },
        ),
        _ => None,
    }
}

/// How a written transform attribute `a` is stored on a node that has
/// (`has_transform`) or has not a transform; the transform change is then
/// notified as coming from a class.
pub fn transform_write(a: ClassAttr3, has_transform: bool) -> (r: Option<TransformWrite>)
    ensures
        r == transform_write_of(a, has_transform),
{
    match a {
        ClassAttr3::TransformFunc => Some(if has_transform { TransformWrite::Funcs } else { TransformWrite::NewFuncs }),
        ClassAttr3::TransformOrigin => Some(
            if has_transform { TransformWrite::Origin } else { TransformWrite::NewOrigin },
        ),
        _ => None,
    }
}

/// The flags written by each effect.
pub open spec fn written_of(es: Seq<Effect>) -> Seq<u64> {
    es.map_values(|e: Effect| e.written)
}

/// Applies the first attribute list of a class to node `id`: returns, for
/// each attribute, the flags of the fields to write, and marks the dirty
/// flags of the written attributes.
pub fn set_attr1(
    id: usize,
    dirty_list: &mut DirtyList,
    attrs: &Vec<ClassAttr1>,
    style_mark: &mut StyleMark,
) -> (written: Vec<u64>)
    ensures
        written@ == written_of(attrs1_effects(attrs@, *old(style_mark))),
        *final(style_mark) == mark_with_dirty(
            *old(style_mark),
            effects_dirty(attrs1_effects(attrs@, *old(style_mark))),
        ),
        final(dirty_list).list@ == pushed_if_became_dirty(
            old(dirty_list).list@,
            id,
            *old(style_mark),
            *final(style_mark),
        ),
        final(dirty_list).version == old(dirty_list).version,
        final(dirty_list).count == old(dirty_list).count,
{
    let ghost m0 = *style_mark;
    let ghost l0 = dirty_list.list@;
    let ghost es = attrs1_effects(attrs@, m0);
    let mut written: Vec<u64> = Vec::new();
    let mut i: usize = 0;
    proof {
        lemma_effects_none(m0, es);
    }
    while i < attrs.len()
        invariant
            i <= attrs@.len(),
            es == attrs1_effects(attrs@, m0),
            written@ == written_of(es.take(i as int)),
            *style_mark == mark_with_dirty(m0, effects_dirty(es.take(i as int))),
            dirty_list.list@ == pushed_if_became_dirty(l0, id, m0, *style_mark),
            dirty_list.version == old(dirty_list).version,
            dirty_list.count == old(dirty_list).count,
        decreases attrs@.len() - i,
    {
        let e = attr1_effect_exec(attrs[i], style_mark);
        proof {
            assert(e == es[i as int]);
            lemma_effects_step(m0, es, i as int, *style_mark);
        }
        apply_effect(dirty_list, id, e, style_mark);
        written.push(e.written);
        proof {
            assert(written_of(es.take(i + 1)) =~= written_of(es.take(i as int)).push(e.written));
        }
        i = i + 1;
    }
    proof {
        assert(es.take(attrs@.len() as int) =~= es);
    }
    written
}

/// Applies the second attribute list of a class to node `id` (see `set_attr1`).
pub fn set_attr2(
    id: usize,
    dirty_list: &mut DirtyList,
    attrs: &Vec<ClassAttr2>,
    style_mark: &mut StyleMark,
) -> (written: Vec<u64>)
    ensures
        written@ == written_of(attrs2_effects(attrs@, *old(style_mark))),
        *final(style_mark) == mark_with_dirty(
            *old(style_mark),
            effects_dirty(attrs2_effects(attrs@, *old(style_mark))),
        ),
        final(dirty_list).list@ == pushed_if_became_dirty(
            old(dirty_list).list@,
            id,
            *old(style_mark),
            *final(style_mark),
        ),
        final(dirty_list).version == old(dirty_list).version,
        final(dirty_list).count == old(dirty_list).count,
{
    let ghost m0 = *style_mark;
    let ghost l0 = dirty_list.list@;
    let ghost es = attrs2_effects(attrs@, m0);
    let mut written: Vec<u64> = Vec::new();
    let mut i: usize = 0;
    proof {
        lemma_effects_none(m0, es);
    }
    while i < attrs.len()
        invariant
            i <= attrs@.len(),
            es == attrs2_effects(attrs@, m0),
            written@ == written_of(es.take(i as int)),
            *style_mark == mark_with_dirty(m0, effects_dirty(es.take(i as int))),
            dirty_list.list@ == pushed_if_became_dirty(l0, id, m0, *style_mark),
            dirty_list.version == old(dirty_list).version,
            dirty_list.count == old(dirty_list).count,
        decreases attrs@.len() - i,
    {
        let e = attr2_effect_exec(attrs[i], style_mark);
        proof {
            assert(e == es[i as int]);
            lemma_effects_step(m0, es, i as int, *style_mark);
        }
        apply_effect(dirty_list, id, e, style_mark);
        written.push(e.written);
        proof {
            assert(written_of(es.take(i + 1)) =~= written_of(es.take(i as int)).push(e.written));
        }
        i = i + 1;
    }
    proof {
        assert(es.take(attrs@.len() as int) =~= es);
    }
    written
}

/// Applies the third attribute list of a class to node `id` (see
/// `set_attr1`); `has_texture` says that the node's image is loaded.
pub fn set_attr3(
    id: usize,
    dirty_list: &mut DirtyList,
    attrs: &Vec<ClassAttr3>,
    style_mark: &mut StyleMark,
    has_texture: bool,
) -> (written: Vec<u64>)
    ensures
        written@ == written_of(attrs3_effects(attrs@, *old(style_mark), has_texture)),
        *final(style_mark) == mark_with_dirty(
            *old(style_mark),
            effects_dirty(attrs3_effects(attrs@, *old(style_mark), has_texture)),
        ),
        final(dirty_list).list@ == pushed_if_became_dirty(
            old(dirty_list).list@,
            id,
            *old(style_mark),
            *final(style_mark),
        ),
        final(dirty_list).version == old(dirty_list).version,
        final(dirty_list).count == old(dirty_list).count,
{
    let ghost m0 = *style_mark;
    let ghost l0 = dirty_list.list@;
    let ghost es = attrs3_effects(attrs@, m0, has_texture);
    let mut written: Vec<u64> = Vec::new();
    let mut i: usize = 0;
    proof {
        lemma_effects_none(m0, es);
    }
    while i < attrs.len()
        invariant
            i <= attrs@.len(),
            es == attrs3_effects(attrs@, m0, has_texture),
            written@ == written_of(es.take(i as int)),
            *style_mark == mark_with_dirty(m0, effects_dirty(es.take(i as int))),
            dirty_list.list@ == pushed_if_became_dirty(l0, id, m0, *style_mark),
            dirty_list.version == old(dirty_list).version,
            dirty_list.count == old(dirty_list).count,
        decreases attrs@.len() - i,
    {
        let e = attr3_effect_exec(attrs[i], style_mark, has_texture);
        proof {
            assert(e == es[i as int]);
            lemma_effects_step(m0, es, i as int, *style_mark);
        }
        apply_effect(dirty_list, id, e, style_mark);
        written.push(e.written);
        proof {
            assert(written_of(es.take(i + 1)) =~= written_of(es.take(i as int)).push(e.written));
        }
        i = i + 1;
    }
    proof {
        assert(es.take(attrs@.len() as int) =~= es);
    }
    written
}


/// The group-0 attributes (besides text) whose component a reset deletes.
pub const RESET_NODE_MARK: u64 = IMAGE_DIRTY | BORDER_IMAGE_DIRTY | TY_BORDER_COLOR | TY_BACKGROUND_COLOR
    | TY_BOX_SHADOW | NODE_DIRTY;
/// The group-1 attributes whose component a reset deletes and marks dirty.
pub const RESET_MASK1: u64 = TY1_MASK_IMAGE | TY1_MASK_IMAGE_CLIP | TY1_CLIP_PATH;

/// The attributes that a class change resets to their default, per group, and
/// whether the node's `Show` was reset (its change must be notified).
#[derive(Clone, Copy, Debug)]
pub struct AttrReset {
    pub style: u64,
    pub style1: u64,
    pub style2: u64,
    pub show_changed: bool,
}

/// The flags that the old classes set and that neither the current classes
/// nor the local style set.
pub open spec fn removed(old_style: u64, class_style: u64, local_style: u64) -> u64 {
    old_style & !(class_style | local_style)
}

/// The attributes reset when the flags `r0`, `r1`, `r2` were removed:
/// text and font attributes when the node has a text style, the image,
/// border, colour, shadow, opacity, radius and filter attributes; the mask,
/// clip-path and blend-mode attributes; the show attributes when the node
/// has a `Show` (a removed show flag is notified either way); z-index,
/// transform and flex basis; the layout attributes.
pub open spec fn reset_of(r0: u64, r1: u64, r2: u64, has_text: bool, has_show: bool) -> AttrReset {
    AttrReset {
        style: (if has_text { r0 & TEXT_STYLE_DIRTY } else { 0 }) | (r0 & RESET_NODE_MARK),
        style1: (r1 & RESET_MASK1) | (if has_show { r1 & SHOW_DIRTY1 } else { 0 })
            | (r1 & (TY1_ZINDEX | TY1_TRANSFORM | TY1_FLEX_BASIS)),
        style2: (r2 & TY2_BLEND_MODE) | (r2 & LAYOUT_OTHER_DIRTY),
        show_changed: r1 & SHOW_DIRTY1 != 0,
    }
}

/// The dirty flags a reset marks: every reset group-0 attribute but the
/// image and border image (whose textures mark them), and the reset mask,
/// clip-path and blend-mode attributes.
pub open spec fn reset_dirty(r0: u64, r1: u64, r2: u64, has_text: bool, has_show: bool) -> Effect {
    let r = reset_of(r0, r1, r2, has_text, has_show);
    Effect {
        written: 0,
        dirty: r.style & !(TY_IMAGE | TY_BORDER_IMAGE),
        dirty1: r1 & RESET_MASK1,
        dirty2: r2 & TY2_BLEND_MODE,
    }
}

/// Resets the attributes of node `id` that its old classes (flags
/// `old_style`, `old_style1`, `old_style2`) set and that its current classes
/// and local style no longer set, marking them dirty as `reset_dirty` says.
/// `has_text` and `has_show` say whether the node has a text style and a `Show`.
pub fn reset_attr(
    id: usize,
    dirty_list: &mut DirtyList,
    style_mark: &mut StyleMark,
    old_style: u64,
    old_style1: u64,
    old_style2: u64,
    has_text: bool,
    has_show: bool,
) -> (r: AttrReset)
    ensures
        ({
            let m = *old(style_mark);
            let r0 = removed(old_style, m.class_style, m.local_style);
            let r1 = removed(old_style1, m.class_style1, m.local_style1);
            let r2 = removed(old_style2, m.class_style2, m.local_style2);
            &&& r == reset_of(r0, r1, r2, has_text, has_show)
            &&& *final(style_mark) == mark_with_dirty(m, reset_dirty(r0, r1, r2, has_text, has_show))
        }),
        final(dirty_list).list@ == pushed_if_became_dirty(
            old(dirty_list).list@,
            id,
            *old(style_mark),
            *final(style_mark),
        ),
        final(dirty_list).version == old(dirty_list).version,
        final(dirty_list).count == old(dirty_list).count,
{
    let r0 = old_style & !(style_mark.class_style | style_mark.local_style);
    let r1 = old_style1 & !(style_mark.class_style1 | style_mark.local_style1);
    let r2 = old_style2 & !(style_mark.class_style2 | style_mark.local_style2);
    let style = (if has_text { r0 & TEXT_STYLE_DIRTY } else { 0 }) | (r0 & RESET_NODE_MARK);
    let style1 = (r1 & RESET_MASK1) | (if has_show { r1 & SHOW_DIRTY1 } else { 0 })
        | (r1 & (TY1_ZINDEX | TY1_TRANSFORM | TY1_FLEX_BASIS));
    let style2 = (r2 & TY2_BLEND_MODE) | (r2 & LAYOUT_OTHER_DIRTY);
    let e = Effect {
        written: 0,
        dirty: style & !(TY_IMAGE | TY_BORDER_IMAGE),
        dirty1: r1 & RESET_MASK1,
        dirty2: r2 & TY2_BLEND_MODE,
    };
    apply_effect(dirty_list, id, e, style_mark);
    AttrReset { style, style1, style2, show_changed: r1 & SHOW_DIRTY1 != 0 }
}

/// A reset touches only attributes that the old classes set and that neither
/// the current classes nor the local style set, and marks dirty only
/// attributes it resets.
pub proof fn lemma_reset_only_removed(
    old_style: u64,
    old_style1: u64,
    old_style2: u64,
    m: StyleMark,
    has_text: bool,
    has_show: bool,
)
    ensures
        ({
            let r0 = removed(old_style, m.class_style, m.local_style);
            let r1 = removed(old_style1, m.class_style1, m.local_style1);
            let r2 = removed(old_style2, m.class_style2, m.local_style2);
            let r = reset_of(r0, r1, r2, has_text, has_show);
            let d = reset_dirty(r0, r1, r2, has_text, has_show);
            &&& r.style & !old_style == 0
            &&& r.style & (m.class_style | m.local_style) == 0
            &&& r.style1 & !old_style1 == 0
            &&& r.style1 & (m.class_style1 | m.local_style1) == 0
            &&& r.style2 & !old_style2 == 0
            &&& r.style2 & (m.class_style2 | m.local_style2) == 0
            &&& d.dirty & !r.style == 0
            &&& d.dirty1 & !r.style1 == 0
            &&& d.dirty2 & !r.style2 == 0
        }),
{
    lemma_reset_group0(old_style, m.class_style | m.local_style, has_text);
    lemma_reset_group1(old_style1, m.class_style1 | m.local_style1, has_show);
    lemma_reset_group2(old_style2, m.class_style2 | m.local_style2);
}

proof fn lemma_reset_group0(o: u64, c: u64, has_text: bool)
    by (bit_vector)
    ensures
        ({
            let r0 = o & !c;
            let style = (if has_text { r0 & TEXT_STYLE_DIRTY } else { 0 }) | (r0 & RESET_NODE_MARK);
            &&& style & !o == 0
            &&& style & c == 0
            &&& (style & !(TY_IMAGE | TY_BORDER_IMAGE)) & !style == 0
        }),
{
}

proof fn lemma_reset_group1(o: u64, c: u64, has_show: bool)
    by (bit_vector)
    ensures
        ({
            let r1 = o & !c;
            let style1 = (r1 & RESET_MASK1) | (if has_show {
                r1 & SHOW_DIRTY1
            } else {
                0
            }) | (r1 & (TY1_ZINDEX | TY1_TRANSFORM | TY1_FLEX_BASIS));
            let d1 = r1 & RESET_MASK1;
            &&& style1 & !o == 0
            &&& style1 & c == 0
            &&& d1 & !style1 == 0
        }),
{
}

proof fn lemma_reset_group2(o: u64, c: u64)
    by (bit_vector)
    ensures
        ({
            let r2 = o & !c;
            let style2 = (r2 & TY2_BLEND_MODE) | (r2 & LAYOUT_OTHER_DIRTY);
            let d2 = r2 & TY2_BLEND_MODE;
            &&& style2 & !o == 0
            &&& style2 & c == 0
            &&& d2 & !style2 == 0
        }),
{
}


/// The local flags of the group an attribute of the first list belongs to.
pub open spec fn attr1_local(a: ClassAttr1, m: StyleMark) -> u64 {
    match a {
        ClassAttr1::ObjectFit | ClassAttr1::TextAlign | ClassAttr1::VerticalAlign
        | ClassAttr1::WhiteSpace | ClassAttr1::FontStyle => m.local_style,
        ClassAttr1::BackgroundRepeat | ClassAttr1::Enable | ClassAttr1::Display
        | ClassAttr1::Visibility | ClassAttr1::Overflow => m.local_style1,
        _ => m.local_style2,
    }
}

/// The local flags of the group an attribute of the second list belongs to.
pub open spec fn attr2_local(a: ClassAttr2, m: StyleMark) -> u64 {
    match a {
        ClassAttr2::LetterSpacing(_) | ClassAttr2::LineHeight | ClassAttr2::TextIndent(_)
        | ClassAttr2::WordSpacing | ClassAttr2::FontWeight | ClassAttr2::FontSize
        | ClassAttr2::FontFamily | ClassAttr2::Opacity | ClassAttr2::BorderImageRepeat
        | ClassAttr2::ImageUrl | ClassAttr2::BorderImageUrl => m.local_style,
        ClassAttr2::ZIndex | ClassAttr2::Blur | ClassAttr2::MaskImage | ClassAttr2::FlexBasis => m.local_style1,
        _ => m.local_style2,
    }
}

/// The local flags of the group an attribute of the third list belongs to.
pub open spec fn attr3_local(a: ClassAttr3, m: StyleMark) -> u64 {
    match a {
        ClassAttr3::ClipPath | ClassAttr3::MaskImageClip | ClassAttr3::TransformFunc
        | ClassAttr3::TransformOrigin => m.local_style1,
        _ => m.local_style,
    }
}

proof fn lemma_bits_free(bits: u64, l: u64)
    ensures
        (bits & !l) & l == 0,
        0u64 & l == 0,
{
    assert((bits & !l) & l == 0) by (bit_vector);
    assert(0u64 & l == 0) by (bit_vector);
}

/// A class never writes a field that the node's local style sets (the
/// background repeat is part of the background image option, whose local
/// flag is `ObjectFit`).
pub proof fn lemma_class_respects_local(
    a1: ClassAttr1,
    a2: ClassAttr2,
    a3: ClassAttr3,
    m: StyleMark,
    has_texture: bool,
)
    ensures
        !(a1 is BackgroundRepeat) ==> attr1_effect(a1, m).written & attr1_local(a1, m) == 0,
        a1 is BackgroundRepeat && attr1_effect(a1, m).written != 0 ==> m.local_style & TY_OBJECT_FIT == 0,
        attr2_effect(a2, m).written & attr2_local(a2, m) == 0,
        attr3_effect(a3, m, has_texture).written & attr3_local(a3, m) == 0,
{
    lemma_bits_free(TY2_MARGIN_LEFT | TY2_MARGIN_TOP | TY2_MARGIN_BOTTOM | TY2_MARGIN_RIGHT, m.local_style2);
    lemma_bits_free(
        TY2_PADDING_LEFT | TY2_PADDING_TOP | TY2_PADDING_BOTTOM | TY2_PADDING_RIGHT,
        m.local_style2,
    );
    lemma_bits_free(TY2_BORDER_LEFT | TY2_BORDER_TOP | TY2_BORDER_BOTTOM | TY2_BORDER_RIGHT, m.local_style2);
    lemma_bits_free(0, attr1_local(a1, m));
    lemma_bits_free(0, attr2_local(a2, m));
    lemma_bits_free(0, attr3_local(a3, m));
}

/// The local flags of group `g` of mark `m`.
pub open spec fn local_of(m: StyleMark, g: int) -> u64 {
    if g == 0 {
        m.local_style
    } else if g == 1 {
        m.local_style1
    } else {
        m.local_style2
    }
}

/// The flag group of a first-list attribute.
pub open spec fn attr1_group(a: ClassAttr1) -> int {
    match a {
        ClassAttr1::ObjectFit | ClassAttr1::TextAlign | ClassAttr1::VerticalAlign | ClassAttr1::WhiteSpace
        | ClassAttr1::FontStyle => 0,
        ClassAttr1::BackgroundRepeat | ClassAttr1::Enable | ClassAttr1::Display | ClassAttr1::Visibility
        | ClassAttr1::Overflow => 1,
        _ => 2,
    }
}

/// The flag group of a second-list attribute.
pub open spec fn attr2_group(a: ClassAttr2) -> int {
    match a {
        ClassAttr2::LetterSpacing(_) | ClassAttr2::LineHeight | ClassAttr2::TextIndent(_)
        | ClassAttr2::WordSpacing | ClassAttr2::FontWeight | ClassAttr2::FontSize | ClassAttr2::FontFamily
        | ClassAttr2::Opacity | ClassAttr2::BorderImageRepeat | ClassAttr2::ImageUrl
        | ClassAttr2::BorderImageUrl => 0,
        ClassAttr2::ZIndex | ClassAttr2::Blur | ClassAttr2::MaskImage | ClassAttr2::FlexBasis => 1,
        _ => 2,
    }
}

/// The flag group of a third-list attribute.
pub open spec fn attr3_group(a: ClassAttr3) -> int {
    match a {
        ClassAttr3::ClipPath | ClassAttr3::MaskImageClip | ClassAttr3::TransformFunc
        | ClassAttr3::TransformOrigin => 1,
        _ => 0,
    }
}

/// The effect marks dirty exactly the flags it writes, in group `g`, and
/// nothing in the other groups.
pub open spec fn marks_written(e: Effect, g: int) -> bool {
    &&& e.dirty == (if g == 0 { e.written } else { 0 })
    &&& e.dirty1 == (if g == 1 { e.written } else { 0 })
    &&& e.dirty2 == (if g == 2 { e.written } else { 0 })
}

/// The effect marks nothing dirty.
pub open spec fn marks_nothing(e: Effect) -> bool {
    e.dirty == 0 && e.dirty1 == 0 && e.dirty2 == 0
}

/// The first-list attributes whose change the class marks dirty itself (the
/// flex, show and overflow attributes are recomputed by their own systems).
pub open spec fn attr1_marks(a: ClassAttr1) -> bool {
    attr1_group(a) == 0 || a is BackgroundRepeat
}

/// The second-list attributes whose change the class marks dirty itself
/// (z-index, opacity, blur and blend mode notify their own components; the
/// image urls mark when their image is loaded).
pub open spec fn attr2_marks(a: ClassAttr2) -> bool {
    !(a is ZIndex || a is Opacity || a is Blur || a is BlendMode || a is ImageUrl || a is MaskImage
        || a is BorderImageUrl)
}

/// A class marks dirty exactly the fields it writes, each in its own flag
/// group, and nothing else: an attribute is recomputed exactly when the
/// class wrote it. The exceptions mark nothing (see `attr1_marks`,
/// `attr2_marks`; the transforms notify their component), and a written
/// image clip also marks the image size. Each attribute is gated by the local
/// flags of its own group.
pub proof fn lemma_class_marks_what_it_writes(
    a1: ClassAttr1,
    a2: ClassAttr2,
    a3: ClassAttr3,
    m: StyleMark,
    has_texture: bool,
)
    ensures
        attr1_local(a1, m) == local_of(m, attr1_group(a1)),
        attr2_local(a2, m) == local_of(m, attr2_group(a2)),
        attr3_local(a3, m) == local_of(m, attr3_group(a3)),
        attr1_marks(a1) ==> marks_written(attr1_effect(a1, m), attr1_group(a1)),
        !attr1_marks(a1) ==> marks_nothing(attr1_effect(a1, m)),
        attr2_marks(a2) ==> marks_written(attr2_effect(a2, m), attr2_group(a2)),
        !attr2_marks(a2) ==> marks_nothing(attr2_effect(a2, m)),
        !(a3 is ImageClip || a3 is TransformFunc || a3 is TransformOrigin) ==> marks_written(
            attr3_effect(a3, m, has_texture),
            attr3_group(a3),
        ),
        a3 is ImageClip ==> attr3_effect(a3, m, has_texture).dirty == attr3_effect(a3, m, has_texture).written
            && attr3_effect(a3, m, has_texture).dirty1 == 0,
        a3 is TransformFunc || a3 is TransformOrigin ==> marks_nothing(attr3_effect(a3, m, has_texture)),
{
}

/// The mark `m` without any local style.
pub open spec fn without_local(m: StyleMark) -> StyleMark {
    StyleMark { local_style: 0, local_style1: 0, local_style2: 0, ..m }
}

/// The shorthands, which write several sides.
pub open spec fn attr2_shorthand(a: ClassAttr2) -> bool {
    a is Margin || a is Padding || a is Border
}

/// What an attribute writes on a node without local style, blocked by the
/// node's own local flags: a single-field attribute is written exactly when
/// its flag is not local, a shorthand writes its sides that are not local,
/// and the background repeat follows the local object fit. On a node without
/// local style every attribute writes something (but a letter spacing or an
/// indent equal to the node's).
pub proof fn lemma_class_blocked_by_own_flag(a1: ClassAttr1, a2: ClassAttr2, a3: ClassAttr3, m: StyleMark, has_texture: bool)
    ensures
        ({
            let w0 = attr1_effect(a1, without_local(m)).written;
            &&& w0 != 0
            &&& !(a1 is BackgroundRepeat) ==> attr1_effect(a1, m).written == if w0 & attr1_local(a1, m) == 0 { w0 } else { 0 }
            &&& a1 is BackgroundRepeat ==> attr1_effect(a1, m).written == if m.local_style & TY_OBJECT_FIT == 0 { w0 } else { 0 }
        }),
        ({
            let w0 = attr2_effect(a2, without_local(m)).written;
            &&& (w0 != 0 <==> !(a2 matches ClassAttr2::LetterSpacing(false) || a2 matches ClassAttr2::TextIndent(false)))
            &&& !attr2_shorthand(a2) ==> attr2_effect(a2, m).written == if w0 & attr2_local(a2, m) == 0 { w0 } else { 0 }
            &&& attr2_shorthand(a2) ==> attr2_effect(a2, m).written == w0 & !attr2_local(a2, m)
        }),
        ({
            let w0 = attr3_effect(a3, without_local(m), has_texture).written;
            &&& w0 != 0
            &&& attr3_effect(a3, m, has_texture).written == if w0 & attr3_local(a3, m) == 0 { w0 } else { 0 }
        }),
{
    lemma_and_zero_all();
    lemma_shorthand_bits();
}

/// `x & 0 == 0 & x == 0` and `x & !0 == x`.
proof fn lemma_and_zero_all()
    by (bit_vector)
    ensures
        forall|x: u64| #[trigger] (x & 0) == 0,
        forall|x: u64| #[trigger] (x & !0u64) == x,
        forall|x: u64| #[trigger] (0u64 & x) == 0,
{
}

proof fn lemma_shorthand_bits()
    by (bit_vector)
    ensures
        (TY2_MARGIN_LEFT | TY2_MARGIN_TOP | TY2_MARGIN_BOTTOM | TY2_MARGIN_RIGHT) != 0,
        (TY2_PADDING_LEFT | TY2_PADDING_TOP | TY2_PADDING_BOTTOM | TY2_PADDING_RIGHT) != 0,
        (TY2_BORDER_LEFT | TY2_BORDER_TOP | TY2_BORDER_BOTTOM | TY2_BORDER_RIGHT) != 0,
{
}

/// A shorthand writes exactly the sides that its four single-side
/// attributes would write on the same node.
pub proof fn lemma_shorthand_is_its_sides(m: StyleMark)
    ensures
        attr2_effect(ClassAttr2::Margin, m).written == attr2_effect(ClassAttr2::MarginLeft, m).written
            | attr2_effect(ClassAttr2::MarginTop, m).written | attr2_effect(ClassAttr2::MarginBottom, m).written
            | attr2_effect(ClassAttr2::MarginRight, m).written,
        attr2_effect(ClassAttr2::Padding, m).written == attr2_effect(ClassAttr2::PaddingLeft, m).written
            | attr2_effect(ClassAttr2::PaddingTop, m).written | attr2_effect(ClassAttr2::PaddingBottom, m).written
            | attr2_effect(ClassAttr2::PaddingRight, m).written,
        attr2_effect(ClassAttr2::Border, m).written == attr2_effect(ClassAttr2::BorderLeft, m).written
            | attr2_effect(ClassAttr2::BorderTop, m).written | attr2_effect(ClassAttr2::BorderBottom, m).written
            | attr2_effect(ClassAttr2::BorderRight, m).written,
{
    lemma_sides_bits(m.local_style2);
}

proof fn lemma_sides_bits(l: u64)
    by (bit_vector)
    ensures
        (TY2_MARGIN_LEFT | TY2_MARGIN_TOP | TY2_MARGIN_BOTTOM | TY2_MARGIN_RIGHT) & !l == (if TY2_MARGIN_LEFT & l == 0 { TY2_MARGIN_LEFT } else { 0 })
        | (if TY2_MARGIN_TOP & l == 0 { TY2_MARGIN_TOP } else { 0 }) | (if TY2_MARGIN_BOTTOM & l == 0 { TY2_MARGIN_BOTTOM } else { 0 })
        | (if TY2_MARGIN_RIGHT & l == 0 { TY2_MARGIN_RIGHT } else { 0 }),
        (TY2_PADDING_LEFT | TY2_PADDING_TOP | TY2_PADDING_BOTTOM | TY2_PADDING_RIGHT) & !l == (if TY2_PADDING_LEFT & l == 0 { TY2_PADDING_LEFT } else { 0 })
        | (if TY2_PADDING_TOP & l == 0 { TY2_PADDING_TOP } else { 0 }) | (if TY2_PADDING_BOTTOM & l == 0 { TY2_PADDING_BOTTOM } else { 0 })
        | (if TY2_PADDING_RIGHT & l == 0 { TY2_PADDING_RIGHT } else { 0 }),
        (TY2_BORDER_LEFT | TY2_BORDER_TOP | TY2_BORDER_BOTTOM | TY2_BORDER_RIGHT) & !l == (if TY2_BORDER_LEFT & l == 0 { TY2_BORDER_LEFT } else { 0 })
        | (if TY2_BORDER_TOP & l == 0 { TY2_BORDER_TOP } else { 0 }) | (if TY2_BORDER_BOTTOM & l == 0 { TY2_BORDER_BOTTOM } else { 0 })
        | (if TY2_BORDER_RIGHT & l == 0 { TY2_BORDER_RIGHT } else { 0 }),
{
}

/// Two different first-list attributes of one group write different fields.
pub proof fn lemma_attr1_fields_distinct(a: ClassAttr1, b: ClassAttr1, m: StyleMark)
    requires
        a != b,
        attr1_group(a) == attr1_group(b),
    ensures
        attr1_effect(a, without_local(m)).written != attr1_effect(b, without_local(m)).written,
{
    lemma_and_zero_all();
}

/// Two different second-list attributes of one group, neither a shorthand,
/// write different fields (when they write any).
pub proof fn lemma_attr2_fields_distinct(a: ClassAttr2, b: ClassAttr2, m: StyleMark)
    requires
        !(a is LetterSpacing && b is LetterSpacing),
        !(a is TextIndent && b is TextIndent),
        a != b,
        !attr2_shorthand(a),
        !attr2_shorthand(b),
        attr2_group(a) == attr2_group(b),
        attr2_effect(a, without_local(m)).written != 0,
    ensures
        attr2_effect(a, without_local(m)).written != attr2_effect(b, without_local(m)).written,
{
    lemma_and_zero_all();
}

/// Two different third-list attributes of one group write different fields.
pub proof fn lemma_attr3_fields_distinct(a: ClassAttr3, b: ClassAttr3, m: StyleMark, has_texture: bool)
    requires
        a != b,
        attr3_group(a) == attr3_group(b),
    ensures
        attr3_effect(a, without_local(m), has_texture).written != attr3_effect(b, without_local(m), has_texture).written,
{
    lemma_and_zero_all();
}
/// What a first-list attribute writes on a node without local style: the
/// field it sets.
pub open spec fn class_field1(a: ClassAttr1) -> u64 {
    attr1_effect(a, empty_mark()).written
}

/// What a second-list attribute writes on a node without local style.
pub open spec fn class_field2(a: ClassAttr2) -> u64 {
    attr2_effect(a, empty_mark()).written
}

/// What a third-list attribute writes on a node without local style.
pub open spec fn class_field3(a: ClassAttr3) -> u64 {
    attr3_effect(a, empty_mark(), false).written
}

proof fn lemma_side_marks()
    by (bit_vector)
    ensures
        LAYOUT_MARGIN_MARK == TY2_MARGIN_LEFT | TY2_MARGIN_TOP | TY2_MARGIN_BOTTOM | TY2_MARGIN_RIGHT,
        LAYOUT_PADDING_MARK == TY2_PADDING_LEFT | TY2_PADDING_TOP | TY2_PADDING_BOTTOM | TY2_PADDING_RIGHT,
        LAYOUT_BORDER_MARK == TY2_BORDER_LEFT | TY2_BORDER_TOP | TY2_BORDER_BOTTOM | TY2_BORDER_RIGHT,
{
}

/// A text-style field changed locally marks the very field that the class
/// attribute of the same name writes, so the local value is recomputed and
/// keeps that class attribute (and only it) from overwriting it.
pub proof fn lemma_text_fields_are_class_fields(f: Seq<char>)
    ensures
        text_style_field_flag(f) == if f == "letter_spacing"@ {
            Some(class_field2(ClassAttr2::LetterSpacing(true)))
        } else if f == "word_spacing"@ {
            Some(class_field2(ClassAttr2::WordSpacing))
        } else if f == "white_space"@ {
            Some(class_field1(ClassAttr1::WhiteSpace))
        } else if f == "line_height"@ {
            Some(class_field2(ClassAttr2::LineHeight))
        } else if f == "text_indent"@ {
            Some(class_field2(ClassAttr2::TextIndent(true)))
        } else if f == "color"@ {
            Some(class_field3(ClassAttr3::Color))
        } else if f == "stroke"@ {
            Some(class_field3(ClassAttr3::TextStroke))
        } else if f == "text_align"@ {
            Some(class_field1(ClassAttr1::TextAlign))
        } else if f == "vertical_align"@ {
            Some(class_field1(ClassAttr1::VerticalAlign))
        } else if f == "text_shadow"@ {
            Some(class_field3(ClassAttr3::TextShadow))
        } else if f == "font_style"@ {
            Some(class_field1(ClassAttr1::FontStyle))
        } else if f == "font_weight"@ {
            Some(class_field2(ClassAttr2::FontWeight))
        } else if f == "font_size"@ {
            Some(class_field2(ClassAttr2::FontSize))
        } else if f == "font_family"@ {
            Some(class_field2(ClassAttr2::FontFamily))
        } else {
            None
        },
{
    lemma_and_zero_all();
}

/// A size or margin field changed locally marks the fields that the class
/// attribute of the same name writes (`margin` all four sides).
pub proof fn lemma_rect_fields_are_class_fields(f: Seq<char>)
    ensures
        rect_layout_field_flag(f) == if f == "margin"@ {
            Some(class_field2(ClassAttr2::Margin))
        } else if f == "margin-top"@ {
            Some(class_field2(ClassAttr2::MarginTop))
        } else if f == "margin-right"@ {
            Some(class_field2(ClassAttr2::MarginRight))
        } else if f == "margin-bottom"@ {
            Some(class_field2(ClassAttr2::MarginBottom))
        } else if f == "margin-left"@ {
            Some(class_field2(ClassAttr2::MarginLeft))
        } else if f == "width"@ {
            Some(class_field2(ClassAttr2::Width))
        } else if f == "height"@ {
            Some(class_field2(ClassAttr2::Height))
        } else {
            None
        },
{
    lemma_and_zero_all();
    lemma_side_marks();
}

/// A field of the other layout style changed locally marks the fields that
/// the class attribute of the same name writes (`direction` is another name
/// of the flex direction; `position` marks the four offsets).
pub proof fn lemma_other_layout_fields_are_class_fields(f: Seq<char>)
    ensures
        other_layout_field_flag2(f) == if f == "position_type"@ {
            class_field1(ClassAttr1::PositionType)
        } else if f == "direction"@ || f == "flex_direction"@ {
            class_field1(ClassAttr1::FlexDirection)
        } else if f == "flex_wrap"@ {
            class_field1(ClassAttr1::FlexWrap)
        } else if f == "justify_content"@ {
            class_field1(ClassAttr1::JustifyContent)
        } else if f == "align_items"@ {
            class_field1(ClassAttr1::AlignItems)
        } else if f == "align_content"@ {
            class_field1(ClassAttr1::AlignContent)
        } else if f == "flex_grow"@ {
            class_field2(ClassAttr2::FlexGrow)
        } else if f == "flex_shrink"@ {
            class_field2(ClassAttr2::FlexShrink)
        } else if f == "align_self"@ {
            class_field1(ClassAttr1::AlignSelf)
        } else if f == "position"@ {
            class_field2(ClassAttr2::PositionTop) | class_field2(ClassAttr2::PositionRight) | class_field2(
                ClassAttr2::PositionBottom,
            ) | class_field2(ClassAttr2::PositionLeft)
        } else if f == "top"@ {
            class_field2(ClassAttr2::PositionTop)
        } else if f == "right"@ {
            class_field2(ClassAttr2::PositionRight)
        } else if f == "bottom"@ {
            class_field2(ClassAttr2::PositionBottom)
        } else if f == "left"@ {
            class_field2(ClassAttr2::PositionLeft)
        } else if f == "padding"@ {
            class_field2(ClassAttr2::Padding)
        } else if f == "padding-top"@ {
            class_field2(ClassAttr2::PaddingTop)
        } else if f == "padding-right"@ {
            class_field2(ClassAttr2::PaddingRight)
        } else if f == "padding-bottom"@ {
            class_field2(ClassAttr2::PaddingBottom)
        } else if f == "padding-left"@ {
            class_field2(ClassAttr2::PaddingLeft)
        } else if f == "border"@ {
            class_field2(ClassAttr2::Border)
        } else if f == "border-top"@ {
            class_field2(ClassAttr2::BorderTop)
        } else if f == "border-right"@ {
            class_field2(ClassAttr2::BorderRight)
        } else if f == "border-bottom"@ {
            class_field2(ClassAttr2::BorderBottom)
        } else if f == "border-left"@ {
            class_field2(ClassAttr2::BorderLeft)
        } else if f == "min_width"@ {
            class_field2(ClassAttr2::MinWidth)
        } else if f == "min_height"@ {
            class_field2(ClassAttr2::MinHeight)
        } else if f == "max_width"@ {
            class_field2(ClassAttr2::MaxWidth)
        } else if f == "max_height"@ {
            class_field2(ClassAttr2::MaxHeight)
        } else {
            0
        },
        other_layout_field_flag1(f) == if f == "display"@ {
            Some(class_field1(ClassAttr1::Display))
        } else if f == "overflow"@ {
            Some(class_field1(ClassAttr1::Overflow))
        } else if f == "flex_basis"@ {
            Some(class_field2(ClassAttr2::FlexBasis))
        } else {
            None
        },
        show_field_flag(f) == if f == "display"@ {
            Some(class_field1(ClassAttr1::Display))
        } else if f == "enable"@ {
            Some(class_field1(ClassAttr1::Enable))
        } else if f == "visibility"@ {
            Some(class_field1(ClassAttr1::Visibility))
        } else {
            None
        },
{
    lemma_and_zero_all();
    lemma_side_marks();
}

/// A local style marks, in its group, the field that the class attribute
/// of the same style writes (the background-image option is the object
/// fit's field).
pub proof fn lemma_local_styles_are_class_fields(s: LocalStyle)
    ensures
        s is BlendMode ==> local_style_flag(s) == (attr2_group(ClassAttr2::BlendMode), class_field2(ClassAttr2::BlendMode)),
        s is BackgroundImageOption ==> local_style_flag(s) == (attr1_group(ClassAttr1::ObjectFit), class_field1(ClassAttr1::ObjectFit)),
        s is BorderImageClip ==> local_style_flag(s) == (attr3_group(ClassAttr3::BorderImageClip), class_field3(ClassAttr3::BorderImageClip)),
        s is BorderImageSlice ==> local_style_flag(s) == (attr3_group(ClassAttr3::BorderImageSlice), class_field3(ClassAttr3::BorderImageSlice)),
        s is MaskImageClip ==> local_style_flag(s) == (attr3_group(ClassAttr3::MaskImageClip), class_field3(ClassAttr3::MaskImageClip)),
        s is BorderImageRepeat ==> local_style_flag(s) == (attr2_group(ClassAttr2::BorderImageRepeat), class_field2(ClassAttr2::BorderImageRepeat)),
        s is BorderColor ==> local_style_flag(s) == (attr3_group(ClassAttr3::BorderColor), class_field3(ClassAttr3::BorderColor)),
        s is BackgroundColor ==> local_style_flag(s) == (attr3_group(ClassAttr3::BGColor), class_field3(ClassAttr3::BGColor)),
        s is BoxShadow ==> local_style_flag(s) == (attr3_group(ClassAttr3::BoxShadow), class_field3(ClassAttr3::BoxShadow)),
        s is Opacity ==> local_style_flag(s) == (attr2_group(ClassAttr2::Opacity), class_field2(ClassAttr2::Opacity)),
        s is Blur ==> local_style_flag(s) == (attr2_group(ClassAttr2::Blur), class_field2(ClassAttr2::Blur)),
        s is Overflow ==> local_style_flag(s) == (attr1_group(ClassAttr1::Overflow), class_field1(ClassAttr1::Overflow)),
        s is ClipPath ==> local_style_flag(s) == (attr3_group(ClassAttr3::ClipPath), class_field3(ClassAttr3::ClipPath)),
        s is BorderRadius ==> local_style_flag(s) == (attr3_group(ClassAttr3::BorderRadius), class_field3(ClassAttr3::BorderRadius)),
{
    lemma_and_zero_all();
}
/// The flags that reset `r` resets in group `g`.
pub open spec fn reset_group(r: AttrReset, g: int) -> u64 {
    if g == 0 {
        r.style
    } else if g == 1 {
        r.style1
    } else {
        r.style2
    }
}

/// The text attributes, which only a node with a text style resets.
pub open spec fn text_attr(a1: ClassAttr1, a2: ClassAttr2, a3: ClassAttr3) -> (bool, bool, bool) {
    (
        a1 is TextAlign || a1 is VerticalAlign || a1 is WhiteSpace || a1 is FontStyle,
        a2 is LetterSpacing || a2 is LineHeight || a2 is TextIndent || a2 is WordSpacing || a2 is FontWeight
            || a2 is FontSize || a2 is FontFamily,
        a3 is Color || a3 is TextShadow || a3 is TextStroke,
    )
}

/// A field that only dropped classes set is reset: for every class
/// attribute, when the removed flags of its group (`r0`, `r1`, `r2`) hold
/// the field it writes, the reset resets that field. Text attributes are
/// reset on a node with a text style and the show attributes on a node with
/// a `Show`; the background repeat, overflow, blur and transform origin are
/// never reset.
pub proof fn lemma_reset_covers_class_fields(
    a1: ClassAttr1,
    a2: ClassAttr2,
    a3: ClassAttr3,
    r0: u64,
    r1: u64,
    r2: u64,
    has_text: bool,
    has_show: bool,
)
    ensures
        ({
            let r = reset_of(r0, r1, r2, has_text, has_show);
            let rs = if attr1_group(a1) == 0 { r0 } else if attr1_group(a1) == 1 { r1 } else { r2 };
            let f = class_field1(a1);
            !(a1 is BackgroundRepeat || a1 is Overflow) && (has_text || !text_attr(a1, a2, a3).0) && (has_show
                || !(a1 is Enable || a1 is Display || a1 is Visibility)) && holds_all(rs, f) ==> holds_all(
                reset_group(r, attr1_group(a1)),
                f,
            )
        }),
        ({
            let r = reset_of(r0, r1, r2, has_text, has_show);
            let rs = if attr2_group(a2) == 0 { r0 } else if attr2_group(a2) == 1 { r1 } else { r2 };
            let f = class_field2(a2);
            !(a2 is Blur) && (has_text || !text_attr(a1, a2, a3).1) && holds_all(rs, f) ==> holds_all(
                reset_group(r, attr2_group(a2)),
                f,
            )
        }),
        ({
            let r = reset_of(r0, r1, r2, has_text, has_show);
            let rs = if attr3_group(a3) == 0 { r0 } else { r1 };
            let f = class_field3(a3);
            !(a3 is TransformOrigin) && (has_text || !text_attr(a1, a2, a3).2) && holds_all(rs, f)
                ==> holds_all(reset_group(r, attr3_group(a3)), f)
        }),
{
    lemma_and_zero_all();
    lemma_reset_members();
    let f1 = class_field1(a1);
    let f2 = class_field2(a2);
    let f3 = class_field3(a3);
    let t = text_attr(a1, a2, a3);
    if attr1_group(a1) == 0 && (has_text || !t.0) {
        lemma_reset_keeps0(r0, f1, has_text);
    } else if attr1_group(a1) == 1 && !(a1 is BackgroundRepeat || a1 is Overflow) {
        lemma_reset_keeps1(r1, f1, has_show);
    } else if attr1_group(a1) == 2 {
        lemma_reset_keeps2(r2, f1);
    }
    if attr2_group(a2) == 0 && (has_text || !t.1) {
        lemma_reset_keeps0(r0, f2, has_text);
    } else if attr2_group(a2) == 1 && !(a2 is Blur) {
        lemma_reset_keeps1(r1, f2, has_show);
    } else if attr2_group(a2) == 2 {
        lemma_reset_keeps2(r2, f2);
    }
    if attr3_group(a3) == 0 && (has_text || !t.2) {
        lemma_reset_keeps0(r0, f3, has_text);
    } else if attr3_group(a3) == 1 && !(a3 is TransformOrigin) {
        lemma_reset_keeps1(r1, f3, has_show);
    }
}

proof fn lemma_reset_keeps0(r0: u64, f: u64, has_text: bool)
    by (bit_vector)
    ensures
        r0 & f == f && ((has_text && f & TEXT_STYLE_DIRTY == f) || f & RESET_NODE_MARK == f) ==> (
        (if has_text { r0 & TEXT_STYLE_DIRTY } else { 0 }) | (r0 & RESET_NODE_MARK)) & f == f,
{
}

proof fn lemma_reset_keeps1(r1: u64, f: u64, has_show: bool)
    by (bit_vector)
    ensures
        r1 & f == f && (f & RESET_MASK1 == f || (has_show && f & SHOW_DIRTY1 == f) || f & (TY1_ZINDEX
            | TY1_TRANSFORM | TY1_FLEX_BASIS) == f) ==> ((r1 & RESET_MASK1) | (if has_show {
            r1 & SHOW_DIRTY1
        } else {
            0
        }) | (r1 & (TY1_ZINDEX | TY1_TRANSFORM | TY1_FLEX_BASIS))) & f == f,
{
}

proof fn lemma_reset_keeps2(r2: u64, f: u64)
    by (bit_vector)
    ensures
        r2 & f == f && (f & TY2_BLEND_MODE == f || f & LAYOUT_OTHER_DIRTY == f) ==> ((r2 & TY2_BLEND_MODE) | (r2
            & LAYOUT_OTHER_DIRTY)) & f == f,
{
}

proof fn lemma_reset_members()
    by (bit_vector)
    ensures
        TY_FONT_STYLE & TEXT_STYLE_DIRTY == TY_FONT_STYLE,
        TY_FONT_WEIGHT & TEXT_STYLE_DIRTY == TY_FONT_WEIGHT,
        TY_FONT_SIZE & TEXT_STYLE_DIRTY == TY_FONT_SIZE,
        TY_FONT_FAMILY & TEXT_STYLE_DIRTY == TY_FONT_FAMILY,
        TY_LETTER_SPACING & TEXT_STYLE_DIRTY == TY_LETTER_SPACING,
        TY_WORD_SPACING & TEXT_STYLE_DIRTY == TY_WORD_SPACING,
        TY_LINE_HEIGHT & TEXT_STYLE_DIRTY == TY_LINE_HEIGHT,
        TY_INDENT & TEXT_STYLE_DIRTY == TY_INDENT,
        TY_WHITE_SPACE & TEXT_STYLE_DIRTY == TY_WHITE_SPACE,
        TY_TEXT_ALIGN & TEXT_STYLE_DIRTY == TY_TEXT_ALIGN,
        TY_VERTICAL_ALIGN & TEXT_STYLE_DIRTY == TY_VERTICAL_ALIGN,
        TY_COLOR & TEXT_STYLE_DIRTY == TY_COLOR,
        TY_STROKE & TEXT_STYLE_DIRTY == TY_STROKE,
        TY_TEXT_SHADOW & TEXT_STYLE_DIRTY == TY_TEXT_SHADOW,
        TY_IMAGE & RESET_NODE_MARK == TY_IMAGE,
        TY_IMAGE_CLIP & RESET_NODE_MARK == TY_IMAGE_CLIP,
        TY_OBJECT_FIT & RESET_NODE_MARK == TY_OBJECT_FIT,
        TY_BORDER_IMAGE & RESET_NODE_MARK == TY_BORDER_IMAGE,
        TY_BORDER_IMAGE_CLIP & RESET_NODE_MARK == TY_BORDER_IMAGE_CLIP,
        TY_BORDER_IMAGE_SLICE & RESET_NODE_MARK == TY_BORDER_IMAGE_SLICE,
        TY_BORDER_IMAGE_REPEAT & RESET_NODE_MARK == TY_BORDER_IMAGE_REPEAT,
        TY_BORDER_COLOR & RESET_NODE_MARK == TY_BORDER_COLOR,
        TY_BACKGROUND_COLOR & RESET_NODE_MARK == TY_BACKGROUND_COLOR,
        TY_BOX_SHADOW & RESET_NODE_MARK == TY_BOX_SHADOW,
        TY_OPACITY & RESET_NODE_MARK == TY_OPACITY,
        TY_FILTER & RESET_NODE_MARK == TY_FILTER,
        TY_BORDER_RADIUS & RESET_NODE_MARK == TY_BORDER_RADIUS,
        TY1_MASK_IMAGE & RESET_MASK1 == TY1_MASK_IMAGE,
        TY1_MASK_IMAGE_CLIP & RESET_MASK1 == TY1_MASK_IMAGE_CLIP,
        TY1_CLIP_PATH & RESET_MASK1 == TY1_CLIP_PATH,
        TY1_ENABLE & SHOW_DIRTY1 == TY1_ENABLE,
        TY1_DISPLAY & SHOW_DIRTY1 == TY1_DISPLAY,
        TY1_VISIBILITY & SHOW_DIRTY1 == TY1_VISIBILITY,
        TY1_ZINDEX & (TY1_ZINDEX | TY1_TRANSFORM | TY1_FLEX_BASIS) == TY1_ZINDEX,
        TY1_TRANSFORM & (TY1_ZINDEX | TY1_TRANSFORM | TY1_FLEX_BASIS) == TY1_TRANSFORM,
        TY1_FLEX_BASIS & (TY1_ZINDEX | TY1_TRANSFORM | TY1_FLEX_BASIS) == TY1_FLEX_BASIS,
        TY2_WIDTH & LAYOUT_OTHER_DIRTY == TY2_WIDTH,
        TY2_HEIGHT & LAYOUT_OTHER_DIRTY == TY2_HEIGHT,
        TY2_MARGIN_TOP & LAYOUT_OTHER_DIRTY == TY2_MARGIN_TOP,
        TY2_MARGIN_RIGHT & LAYOUT_OTHER_DIRTY == TY2_MARGIN_RIGHT,
        TY2_MARGIN_BOTTOM & LAYOUT_OTHER_DIRTY == TY2_MARGIN_BOTTOM,
        TY2_MARGIN_LEFT & LAYOUT_OTHER_DIRTY == TY2_MARGIN_LEFT,
        TY2_PADDING_TOP & LAYOUT_OTHER_DIRTY == TY2_PADDING_TOP,
        TY2_PADDING_RIGHT & LAYOUT_OTHER_DIRTY == TY2_PADDING_RIGHT,
        TY2_PADDING_BOTTOM & LAYOUT_OTHER_DIRTY == TY2_PADDING_BOTTOM,
        TY2_PADDING_LEFT & LAYOUT_OTHER_DIRTY == TY2_PADDING_LEFT,
        TY2_BORDER_TOP & LAYOUT_OTHER_DIRTY == TY2_BORDER_TOP,
        TY2_BORDER_RIGHT & LAYOUT_OTHER_DIRTY == TY2_BORDER_RIGHT,
        TY2_BORDER_BOTTOM & LAYOUT_OTHER_DIRTY == TY2_BORDER_BOTTOM,
        TY2_BORDER_LEFT & LAYOUT_OTHER_DIRTY == TY2_BORDER_LEFT,
        TY2_POSITION_TOP & LAYOUT_OTHER_DIRTY == TY2_POSITION_TOP,
        TY2_POSITION_RIGHT & LAYOUT_OTHER_DIRTY == TY2_POSITION_RIGHT,
        TY2_POSITION_BOTTOM & LAYOUT_OTHER_DIRTY == TY2_POSITION_BOTTOM,
        TY2_POSITION_LEFT & LAYOUT_OTHER_DIRTY == TY2_POSITION_LEFT,
        TY2_MIN_WIDTH & LAYOUT_OTHER_DIRTY == TY2_MIN_WIDTH,
        TY2_MIN_HEIGHT & LAYOUT_OTHER_DIRTY == TY2_MIN_HEIGHT,
        TY2_MAX_HEIGHT & LAYOUT_OTHER_DIRTY == TY2_MAX_HEIGHT,
        TY2_MAX_WIDTH & LAYOUT_OTHER_DIRTY == TY2_MAX_WIDTH,
        TY2_JUSTIFY_CONTENT & LAYOUT_OTHER_DIRTY == TY2_JUSTIFY_CONTENT,
        TY2_FLEX_SHRINK & LAYOUT_OTHER_DIRTY == TY2_FLEX_SHRINK,
        TY2_FLEX_GROW & LAYOUT_OTHER_DIRTY == TY2_FLEX_GROW,
        TY2_POSITION_TYPE & LAYOUT_OTHER_DIRTY == TY2_POSITION_TYPE,
        TY2_FLEX_WRAP & LAYOUT_OTHER_DIRTY == TY2_FLEX_WRAP,
        TY2_FLEX_DIRECTION & LAYOUT_OTHER_DIRTY == TY2_FLEX_DIRECTION,
        TY2_ALIGN_CONTENT & LAYOUT_OTHER_DIRTY == TY2_ALIGN_CONTENT,
        TY2_ALIGN_ITEMS & LAYOUT_OTHER_DIRTY == TY2_ALIGN_ITEMS,
        TY2_ALIGN_SELF & LAYOUT_OTHER_DIRTY == TY2_ALIGN_SELF,
        (TY2_MARGIN_LEFT | TY2_MARGIN_TOP | TY2_MARGIN_BOTTOM | TY2_MARGIN_RIGHT) & LAYOUT_OTHER_DIRTY == (TY2_MARGIN_LEFT | TY2_MARGIN_TOP | TY2_MARGIN_BOTTOM | TY2_MARGIN_RIGHT),
        (TY2_PADDING_LEFT | TY2_PADDING_TOP | TY2_PADDING_BOTTOM | TY2_PADDING_RIGHT) & LAYOUT_OTHER_DIRTY == (TY2_PADDING_LEFT | TY2_PADDING_TOP | TY2_PADDING_BOTTOM | TY2_PADDING_RIGHT),
        (TY2_BORDER_LEFT | TY2_BORDER_TOP | TY2_BORDER_BOTTOM | TY2_BORDER_RIGHT) & LAYOUT_OTHER_DIRTY == (TY2_BORDER_LEFT | TY2_BORDER_TOP | TY2_BORDER_BOTTOM | TY2_BORDER_RIGHT),
        TY2_BLEND_MODE & TY2_BLEND_MODE == TY2_BLEND_MODE,
{
}
/// A reset marks dirty the group-0 fields it resets but the background and
/// border images (whose textures mark them when they are gone), and the
/// mask, clip-path and blend-mode fields it resets; nothing else.
pub proof fn lemma_reset_marks_what_it_resets(r0: u64, r1: u64, r2: u64, has_text: bool, has_show: bool)
    ensures
        ({
            let r = reset_of(r0, r1, r2, has_text, has_show);
            let d = reset_dirty(r0, r1, r2, has_text, has_show);
            &&& d.dirty == r.style & !(TY_IMAGE | TY_BORDER_IMAGE)
            &&& d.dirty1 == r.style1 & RESET_MASK1
            &&& d.dirty2 == r.style2 & TY2_BLEND_MODE
            &&& d.written == 0
        }),
{
    lemma_reset_marks1(r1, has_show);
    lemma_reset_marks2(r2);
}

proof fn lemma_reset_marks1(r1: u64, has_show: bool)
    by (bit_vector)
    ensures
        ((r1 & RESET_MASK1) | (if has_show { r1 & SHOW_DIRTY1 } else { 0 }) | (r1 & (TY1_ZINDEX | TY1_TRANSFORM
            | TY1_FLEX_BASIS))) & RESET_MASK1 == r1 & RESET_MASK1,
{
}

proof fn lemma_reset_marks2(r2: u64)
    by (bit_vector)
    ensures
        ((r2 & TY2_BLEND_MODE) | (r2 & LAYOUT_OTHER_DIRTY)) & TY2_BLEND_MODE == r2 & TY2_BLEND_MODE,
{
}
/// A class-aware style marks, in its group, the field of the class
/// attribute that sets it.
pub proof fn lemma_class_aware_are_class_fields(s: ClassAwareStyle)
    ensures
        s is ZIndex ==> class_aware_flag(s) == (attr2_group(ClassAttr2::ZIndex), class_field2(ClassAttr2::ZIndex)),
        s is Transform ==> class_aware_flag(s) == (attr3_group(ClassAttr3::TransformFunc), class_field3(ClassAttr3::TransformFunc)),
        s is Filter ==> class_aware_flag(s) == (attr3_group(ClassAttr3::Filter), class_field3(ClassAttr3::Filter)),
{
    lemma_and_zero_all();
}

/// An image a node waits for is local exactly when the node's local style
/// holds the field that the class attribute of that image writes; a class
/// image otherwise. Only the images the node has are waited for.
pub proof fn lemma_load_types_follow_local(m: StyleMark, has_image: bool, has_border_image: bool, has_mask_image: bool)
    ensures
        ({
            let r = load_types(m, has_image, has_border_image, has_mask_image);
            &&& r.0 is Some == has_image
            &&& r.1 is Some == has_border_image
            &&& r.2 is Some == has_mask_image
            &&& has_image ==> (r.0 == Some(ImageType::ImageLocal)) == (local_of(m, attr2_group(ClassAttr2::ImageUrl))
                & class_field2(ClassAttr2::ImageUrl) != 0)
            &&& has_image ==> (r.0 == Some(ImageType::ImageLocal) || r.0 == Some(ImageType::ImageClass))
            &&& has_border_image ==> (r.1 == Some(ImageType::BorderImageLocal)) == (local_of(m, attr2_group(ClassAttr2::BorderImageUrl))
                & class_field2(ClassAttr2::BorderImageUrl) != 0)
            &&& has_border_image ==> (r.1 == Some(ImageType::BorderImageLocal) || r.1 == Some(ImageType::BorderImageClass))
            &&& has_mask_image ==> (r.2 == Some(ImageType::MaskImageLocal)) == (local_of(m, attr2_group(ClassAttr2::MaskImage))
                & class_field2(ClassAttr2::MaskImage) != 0)
            &&& has_mask_image ==> (r.2 == Some(ImageType::MaskImageLocal) || r.2 == Some(ImageType::MaskImageClass))
        }),
{
    lemma_and_zero_all();
}

/// A class: the flags of the attributes it sets, per group, and its three
/// attribute lists.
#[derive(Debug)]
pub struct Class {
    pub class_style_mark: u64,
    pub class_style_mark1: u64,
    pub class_style_mark2: u64,
    pub attrs1: Vec<ClassAttr1>,
    pub attrs2: Vec<ClassAttr2>,
    pub attrs3: Vec<ClassAttr3>,
}

/// The classes, by name.
#[derive(Debug)]
pub struct ClassSheet {
    pub class_map: HashMap<usize, Class>,
}

impl ClassSheet {
    pub fn new() -> (r: Self)
        ensures
            r.class_map@ == Map::<usize, Class>::empty(),
    {
        ClassSheet { class_map: HashMap::new() }
    }

    /// Adds (or replaces) class `name`.
    pub fn insert(&mut self, name: usize, class: Class)
        ensures
            final(self).class_map@ == old(self).class_map@.insert(name, class),
    {
        broadcast use vstd::std_specs::hash::group_hash_axioms;

        self.class_map.insert(name, class);
    }
}

/// The classes of a node: the first, the second (0 when absent) and the rest.
#[derive(Debug)]
pub struct ClassName {
    pub one: usize,
    pub two: usize,
    pub other: Vec<usize>,
}

impl Default for ClassName {
    fn default() -> (r: Self)
        ensures
            r.one == 0,
            r.two == 0,
            r.other@.len() == 0,
    {
        ClassName { one: 0, two: 0, other: Vec::new() }
    }
}

/// The fields of a node that one class writes: per attribute of each list,
/// the flags of the fields written.
#[derive(Debug)]
pub struct ClassApplied {
    pub written1: Vec<u64>,
    pub written2: Vec<u64>,
    pub written3: Vec<u64>,
}

/// The mark after class `c` added its flags.
pub open spec fn with_class_marks(m: StyleMark, c: Class) -> StyleMark {
    StyleMark {
        class_style: m.class_style | c.class_style_mark,
        class_style1: m.class_style1 | c.class_style_mark1,
        class_style2: m.class_style2 | c.class_style_mark2,
        ..m
    }
}

/// The mark after class `c` was applied to a node with mark `m`.
pub open spec fn mark_after_class(m: StyleMark, c: Class, has_texture: bool) -> StyleMark {
    let m1 = with_class_marks(m, c);
    mark_with_dirty(
        mark_with_dirty(
            mark_with_dirty(m1, effects_dirty(attrs1_effects(c.attrs1@, m1))),
            effects_dirty(attrs2_effects(c.attrs2@, m1)),
        ),
        effects_dirty(attrs3_effects(c.attrs3@, m1, has_texture)),
    )
}

proof fn lemma_effects_ignore_dirty(m: StyleMark, e: Effect, has_texture: bool)
    ensures
        forall|a: ClassAttr2| #[trigger] attr2_effect(a, mark_with_dirty(m, e)) == attr2_effect(a, m),
        forall|a: ClassAttr3|
            #[trigger] attr3_effect(a, mark_with_dirty(m, e), has_texture) == attr3_effect(
                a,
                m,
                has_texture,
            ),
{
}

/// Applies class `class_name` to node `id`: adds the class's flags to the
/// node's class flags and applies its three attribute lists. Returns `None`,
/// changing nothing, when the name is 0 or names no class of the sheet.
pub fn set_attr(
    id: usize,
    class_name: usize,
    class_sheet: &ClassSheet,
    style_mark: &mut StyleMark,
    dirty_list: &mut DirtyList,
    has_texture: bool,
) -> (r: Option<ClassApplied>)
    ensures
        class_name == 0 || !class_sheet.class_map@.contains_key(class_name) ==> r is None
            && *final(style_mark) == *old(style_mark) && final(dirty_list).list@ == old(
            dirty_list,
        ).list@,
        class_name != 0 && class_sheet.class_map@.contains_key(class_name) ==> {
            let c = class_sheet.class_map@[class_name];
            let m1 = with_class_marks(*old(style_mark), c);
            &&& r matches Some(applied) && {
                &&& applied.written1@ == written_of(attrs1_effects(c.attrs1@, m1))
                &&& applied.written2@ == written_of(attrs2_effects(c.attrs2@, m1))
                &&& applied.written3@ == written_of(attrs3_effects(c.attrs3@, m1, has_texture))
            }
            &&& *final(style_mark) == mark_after_class(*old(style_mark), c, has_texture)
        },
        final(dirty_list).list@ == pushed_if_became_dirty(
            old(dirty_list).list@,
            id,
            *old(style_mark),
            *final(style_mark),
        ),
        final(dirty_list).version == old(dirty_list).version,
        final(dirty_list).count == old(dirty_list).count,
{
    broadcast use vstd::std_specs::hash::group_hash_axioms;

    if class_name == 0 {
        return None;
    }
    let class = match class_sheet.class_map.get(&class_name) {
        Some(class) => class,
        None => return None,
    };
    let ghost m0 = *style_mark;
    let ghost l0 = dirty_list.list@;
    style_mark.class_style = style_mark.class_style | class.class_style_mark;
    style_mark.class_style1 = style_mark.class_style1 | class.class_style_mark1;
    style_mark.class_style2 = style_mark.class_style2 | class.class_style_mark2;
    let ghost m1 = *style_mark;
    let written1 = set_attr1(id, dirty_list, &class.attrs1, style_mark);
    let ghost ma = *style_mark;
    proof {
        lemma_effects_ignore_dirty(m1, effects_dirty(attrs1_effects(class.attrs1@, m1)), has_texture);
        assert(attrs2_effects(class.attrs2@, ma) =~= attrs2_effects(class.attrs2@, m1));
    }
    let written2 = set_attr2(id, dirty_list, &class.attrs2, style_mark);
    let ghost mb = *style_mark;
    proof {
        lemma_effects_ignore_dirty(ma, effects_dirty(attrs2_effects(class.attrs2@, m1)), has_texture);
        lemma_effects_ignore_dirty(m1, effects_dirty(attrs1_effects(class.attrs1@, m1)), has_texture);
        assert(attrs3_effects(class.attrs3@, mb, has_texture) =~= attrs3_effects(
            class.attrs3@,
            m1,
            has_texture,
        ));
    }
    let written3 = set_attr3(id, dirty_list, &class.attrs3, style_mark, has_texture);
    proof {
        assert(m1.is_clean() == m0.is_clean());
        let mc = *style_mark;
        // a dirty mark stays dirty
        let d1 = effects_dirty(attrs1_effects(class.attrs1@, m1));
        let d2 = effects_dirty(attrs2_effects(class.attrs2@, m1));
        let d3 = effects_dirty(attrs3_effects(class.attrs3@, m1, has_texture));
        lemma_or_nonzero(m1.dirty, d1.dirty);
        lemma_or_nonzero(m1.dirty1, d1.dirty1);
        lemma_or_nonzero(m1.dirty2, d1.dirty2);
        lemma_or_nonzero(ma.dirty, d2.dirty);
        lemma_or_nonzero(ma.dirty1, d2.dirty1);
        lemma_or_nonzero(ma.dirty2, d2.dirty2);
        lemma_or_nonzero(mb.dirty, d3.dirty);
        lemma_or_nonzero(mb.dirty1, d3.dirty1);
        lemma_or_nonzero(mb.dirty2, d3.dirty2);
    }
    Some(ClassApplied { written1, written2, written3 })
}


/// The classes of `c` in the order they are applied: the first; then, when
/// there is a first, the second; then, when there is a second, the rest.
pub open spec fn applied_names(c: ClassName) -> Seq<usize> {
    if c.one > 0 {
        seq![c.one] + if c.two > 0 {
            seq![c.two] + c.other@
        } else {
            Seq::<usize>::empty()
        }
    } else {
        Seq::<usize>::empty()
    }
}

/// `name` names a class of the sheet.
pub open spec fn names_class(sheet: Map<usize, Class>, name: usize) -> bool {
    name != 0 && sheet.contains_key(name)
}

/// The mark after the classes `names` were applied in order to a node with mark `m`.
pub open spec fn mark_after_classes(
    m: StyleMark,
    names: Seq<usize>,
    sheet: Map<usize, Class>,
    has_texture: bool,
) -> StyleMark
    decreases names.len(),
{
    if names.len() == 0 {
        m
    } else {
        let prev = mark_after_classes(m, names.drop_last(), sheet, has_texture);
        if names_class(sheet, names.last()) {
            mark_after_class(prev, sheet[names.last()], has_texture)
        } else {
            prev
        }
    }
}

/// What applying class `name` writes to a node whose mark was `m` before.
pub open spec fn class_applied_matches(
    r: Option<ClassApplied>,
    m: StyleMark,
    sheet: Map<usize, Class>,
    name: usize,
    has_texture: bool,
) -> bool {
    if names_class(sheet, name) {
        let c = sheet[name];
        let m1 = with_class_marks(m, c);
        r matches Some(applied) && {
            &&& applied.written1@ == written_of(attrs1_effects(c.attrs1@, m1))
            &&& applied.written2@ == written_of(attrs2_effects(c.attrs2@, m1))
            &&& applied.written3@ == written_of(attrs3_effects(c.attrs3@, m1, has_texture))
        }
    } else {
        r is None
    }
}

/// The mark with its class flags cleared.
pub open spec fn without_classes(m: StyleMark) -> StyleMark {
    StyleMark { class_style: 0, class_style1: 0, class_style2: 0, ..m }
}

/// What a change of the classes of a node does: what each applied class
/// writes (in the order of `applied_names`) and what is reset.
#[derive(Debug)]
pub struct ClassChange {
    pub applied: Vec<Option<ClassApplied>>,
    pub reset: Option<AttrReset>,
}

/// The mark of a node after its classes changed to `cn`, given its mark `m0` before.
pub open spec fn class_change_mark(
    m0: StyleMark,
    cn: ClassName,
    sheet: Map<usize, Class>,
    has_text: bool,
    has_show: bool,
    has_texture: bool,
) -> StyleMark {
    let m_classes = mark_after_classes(without_classes(m0), applied_names(cn), sheet, has_texture);
    if m0.class_style > 0 || m0.class_style1 > 0 || m0.class_style2 > 0 {
        let r0 = removed(m0.class_style, m_classes.class_style, m_classes.local_style);
        let r1 = removed(m0.class_style1, m_classes.class_style1, m_classes.local_style1);
        let r2 = removed(m0.class_style2, m_classes.class_style2, m_classes.local_style2);
        mark_with_dirty(m_classes, reset_dirty(r0, r1, r2, has_text, has_show))
    } else {
        m_classes
    }
}

/// `r` is what the change of the classes of a node with mark `m0` to `cn`
/// writes and resets.
pub open spec fn class_change_matches(
    r: ClassChange,
    m0: StyleMark,
    cn: ClassName,
    sheet: Map<usize, Class>,
    has_text: bool,
    has_show: bool,
    has_texture: bool,
) -> bool {
    let names = applied_names(cn);
    let m_classes = mark_after_classes(without_classes(m0), names, sheet, has_texture);
    let had = m0.class_style > 0 || m0.class_style1 > 0 || m0.class_style2 > 0;
    &&& r.applied@.len() == names.len()
    &&& forall|k: int|
        0 <= k < names.len() ==> class_applied_matches(
            #[trigger] r.applied@[k],
            mark_after_classes(without_classes(m0), names.take(k), sheet, has_texture),
            sheet,
            names[k],
            has_texture,
        )
    &&& had ==> r.reset == Some(
        reset_of(
            removed(m0.class_style, m_classes.class_style, m_classes.local_style),
            removed(m0.class_style1, m_classes.class_style1, m_classes.local_style1),
            removed(m0.class_style2, m_classes.class_style2, m_classes.local_style2),
            has_text,
            has_show,
        ),
    )
    &&& !had ==> r.reset is None
}

proof fn lemma_clean_monotone(m: StyleMark, e: Effect)
    ensures
        !m.is_clean() ==> !mark_with_dirty(m, e).is_clean(),
{
    lemma_or_nonzero(m.dirty, e.dirty);
    lemma_or_nonzero(m.dirty1, e.dirty1);
    lemma_or_nonzero(m.dirty2, e.dirty2);
}

/// The classes of node `id` changed to `class_name`: its class flags are
/// rebuilt from the classes applied in order, and the attributes set only by
/// its old classes are reset (when it had any class flag).
pub fn apply_class_name(
    id: usize,
    class_name: &ClassName,
    class_sheet: &ClassSheet,
    style_mark: &mut StyleMark,
    dirty_list: &mut DirtyList,
    has_text: bool,
    has_show: bool,
    has_texture: bool,
) -> (r: ClassChange)
    ensures
        class_change_matches(
            r,
            *old(style_mark),
            *class_name,
            class_sheet.class_map@,
            has_text,
            has_show,
            has_texture,
        ),
        *final(style_mark) == class_change_mark(
            *old(style_mark),
            *class_name,
            class_sheet.class_map@,
            has_text,
            has_show,
            has_texture,
        ),
        !old(style_mark).is_clean() ==> !final(style_mark).is_clean(),
        final(dirty_list).list@ == pushed_if_became_dirty(
            old(dirty_list).list@,
            id,
            *old(style_mark),
            *final(style_mark),
        ),
        final(dirty_list).version == old(dirty_list).version,
        final(dirty_list).count == old(dirty_list).count,
{
    let ghost m0 = *style_mark;
    let ghost l0 = dirty_list.list@;
    let ghost sheet = class_sheet.class_map@;
    let old_style = style_mark.class_style;
    let old_style1 = style_mark.class_style1;
    let old_style2 = style_mark.class_style2;
    style_mark.class_style = 0;
    style_mark.class_style1 = 0;
    style_mark.class_style2 = 0;
    let ghost mz = *style_mark;
    assert(mz == without_classes(m0));
    let mut names: Vec<usize> = Vec::new();
    if class_name.one > 0 {
        names.push(class_name.one);
        if class_name.two > 0 {
            names.push(class_name.two);
            let mut j: usize = 0;
            while j < class_name.other.len()
                invariant
                    j <= class_name.other@.len(),
                    class_name.one > 0,
                    class_name.two > 0,
                    names@ == seq![class_name.one, class_name.two] + class_name.other@.take(j as int),
                decreases class_name.other@.len() - j,
            {
                names.push(class_name.other[j]);
                proof {
                    assert(class_name.other@.take(j + 1) =~= class_name.other@.take(j as int).push(
                        class_name.other@[j as int],
                    ));
                }
                j = j + 1;
            }
            proof {
                assert(class_name.other@.take(class_name.other@.len() as int) =~= class_name.other@);
            }
        }
    }
    proof {
        assert(names@ =~= applied_names(*class_name));
    }
    let ghost names_s = names@;
    let mut applied: Vec<Option<ClassApplied>> = Vec::new();
    let mut i: usize = 0;
    proof {
        assert(names_s.take(0).len() == 0);
    }
    while i < names.len()
        invariant
            names@ == names_s,
            i <= names_s.len(),
            sheet == class_sheet.class_map@,
            applied@.len() == i,
            forall|k: int|
                0 <= k < i ==> class_applied_matches(
                    #[trigger] applied@[k],
                    mark_after_classes(mz, names_s.take(k), sheet, has_texture),
                    sheet,
                    names_s[k],
                    has_texture,
                ),
            *style_mark == mark_after_classes(mz, names_s.take(i as int), sheet, has_texture),
            mz.is_clean() == m0.is_clean(),
            !m0.is_clean() ==> !style_mark.is_clean(),
            dirty_list.list@ == pushed_if_became_dirty(l0, id, m0, *style_mark),
            dirty_list.version == old(dirty_list).version,
            dirty_list.count == old(dirty_list).count,
        decreases names_s.len() - i,
    {
        let ghost before = *style_mark;
        let r = set_attr(id, names[i], class_sheet, style_mark, dirty_list, has_texture);
        proof {
            let t1 = names_s.take(i + 1);
            assert(t1.drop_last() =~= names_s.take(i as int));
            assert(t1.last() == names_s[i as int]);
            if names_class(sheet, names_s[i as int]) {
                let c = sheet[names_s[i as int]];
                let m1 = with_class_marks(before, c);
                lemma_clean_monotone(m1, effects_dirty(attrs1_effects(c.attrs1@, m1)));
                let ma = mark_with_dirty(m1, effects_dirty(attrs1_effects(c.attrs1@, m1)));
                lemma_clean_monotone(ma, effects_dirty(attrs2_effects(c.attrs2@, m1)));
                let mb = mark_with_dirty(ma, effects_dirty(attrs2_effects(c.attrs2@, m1)));
                lemma_clean_monotone(mb, effects_dirty(attrs3_effects(c.attrs3@, m1, has_texture)));
            }
        }
        applied.push(r);
        i = i + 1;
    }
    proof {
        assert(names_s.take(names_s.len() as int) =~= names_s);
    }
    let ghost m_classes = *style_mark;
    let reset = if old_style > 0 || old_style1 > 0 || old_style2 > 0 {
        let r = reset_attr(id, dirty_list, style_mark, old_style, old_style1, old_style2, has_text, has_show);
        proof {
            let r0 = removed(old_style, m_classes.class_style, m_classes.local_style);
            let r1 = removed(old_style1, m_classes.class_style1, m_classes.local_style1);
            let r2 = removed(old_style2, m_classes.class_style2, m_classes.local_style2);
            lemma_clean_monotone(m_classes, reset_dirty(r0, r1, r2, has_text, has_show));
        }
        Some(r)
    } else {
        None
    };
    ClassChange { applied, reset }
}


/// `id` has a slot with classes.
pub open spec fn has_class_name(class_names: Seq<Option<ClassName>>, id: usize) -> bool {
    id < class_names.len() && class_names[id as int] is Some
}

/// Node `id` has classes and its class change makes its clean mark dirty,
/// so the change lists it.
pub open spec fn listed_by_class_change(
    marks: Seq<Option<StyleMark>>,
    class_names: Seq<Option<ClassName>>,
    sheet: Map<usize, Class>,
    has_text: Seq<bool>,
    has_show: Seq<bool>,
    has_texture: Seq<bool>,
    id: usize,
) -> bool {
    has_class_name(class_names, id) && marks[id as int]->0.is_clean() && !class_change_mark(
        marks[id as int]->0,
        class_names[id as int]->0,
        sheet,
        has_text[id as int],
        has_show[id as int],
        has_texture[id as int],
    ).is_clean()
}

/// Defers class changes: the ids of the nodes whose classes changed, each
/// once, are applied on the next run.
pub struct ClassSetting {
    pub dirtys: Vec<usize>,
}

impl ClassSetting {
    pub fn new() -> (r: Self)
        ensures
            r.dirtys@ == Seq::<usize>::empty(),
    {
        ClassSetting { dirtys: Vec::new() }
    }

    /// The classes of `id` changed: remembers `id` (once).
    pub fn listen(&mut self, id: usize)
        ensures
            final(self).dirtys@ == with_id(old(self).dirtys@, id),
            old(self).dirtys@.no_duplicates() ==> final(self).dirtys@.no_duplicates(),
    {
        insert_id(&mut self.dirtys, id);
    }

    /// Applies the class changes of the remembered nodes that have classes,
    /// in the order they were remembered, and forgets them. Returns each such
    /// node with what its change writes and resets. `has_text`, `has_show`
    /// and `has_texture` tell, per node, whether it has a text style, a
    /// `Show` and a loaded image.
    pub fn run(
        &mut self,
        class_names: &Vec<Option<ClassName>>,
        class_sheet: &ClassSheet,
        style_marks: &mut Vec<Option<StyleMark>>,
        dirty_list: &mut DirtyList,
        has_text: &Vec<bool>,
        has_show: &Vec<bool>,
        has_texture: &Vec<bool>,
    ) -> (changes: Vec<(usize, ClassChange)>)
        requires
            old(self).dirtys@.no_duplicates(),
            has_text@.len() == old(style_marks)@.len(),
            has_show@.len() == old(style_marks)@.len(),
            has_texture@.len() == old(style_marks)@.len(),
            forall|k: int|
                0 <= k < old(self).dirtys@.len() && has_class_name(
                    class_names@,
                    #[trigger] old(self).dirtys@[k],
                ) ==> old(self).dirtys@[k] < old(style_marks)@.len() && old(style_marks)@[old(
                    self,
                ).dirtys@[k] as int] is Some,
        ensures
            final(self).dirtys@ == Seq::<usize>::empty(),
            final(style_marks)@.len() == old(style_marks)@.len(),
            forall|x: int|
                0 <= x < old(style_marks)@.len() ==> #[trigger] final(style_marks)@[x] == if old(
                    self,
                ).dirtys@.contains(x as usize) && has_class_name(class_names@, x as usize) {
                    Some(
                        class_change_mark(
                            old(style_marks)@[x]->0,
                            class_names@[x]->0,
                            class_sheet.class_map@,
                            has_text@[x],
                            has_show@[x],
                            has_texture@[x],
                        ),
                    )
                } else {
                    old(style_marks)@[x]
                },
            changes@.map_values(|c: (usize, ClassChange)| c.0) == old(self).dirtys@.filter(
                |id: usize| has_class_name(class_names@, id),
            ),
            forall|k: int|
                0 <= k < changes@.len() ==> class_change_matches(
                    (#[trigger] changes@[k]).1,
                    old(style_marks)@[changes@[k].0 as int]->0,
                    class_names@[changes@[k].0 as int]->0,
                    class_sheet.class_map@,
                    has_text@[changes@[k].0 as int],
                    has_show@[changes@[k].0 as int],
                    has_texture@[changes@[k].0 as int],
                ),
            final(dirty_list).list@ == old(dirty_list).list@ + old(self).dirtys@.filter(
                |id: usize|
                    listed_by_class_change(
                        old(style_marks)@,
                        class_names@,
                        class_sheet.class_map@,
                        has_text@,
                        has_show@,
                        has_texture@,
                        id,
                    ),
            ),
            final(dirty_list).version == old(dirty_list).version,
            final(dirty_list).count == old(dirty_list).count,
            dirty_list_exact(old(dirty_list).list@, old(style_marks)@) ==> dirty_list_exact(
                final(dirty_list).list@,
                final(style_marks)@,
            ),
    {
        let ghost d = self.dirtys@;
        let ghost marks0 = style_marks@;
        let ghost pred = |id: usize| has_class_name(class_names@, id);
        let ghost exact0 = dirty_list_exact(dirty_list.list@, style_marks@);
        let ghost l0 = dirty_list.list@;
        let ghost lpred = |id: usize|
            listed_by_class_change(
                marks0,
                class_names@,
                class_sheet.class_map@,
                has_text@,
                has_show@,
                has_texture@,
                id,
            );
        let mut changes: Vec<(usize, ClassChange)> = Vec::new();
        let n_marks = style_marks.len();
        let mut i: usize = 0;
        proof {
            reveal(Seq::filter);
            assert(d.take(0).filter(pred) =~= Seq::<usize>::empty());
        }
        while i < self.dirtys.len()
            invariant
                self.dirtys@ == d,
                d.no_duplicates(),
                i <= d.len(),
                style_marks@.len() == marks0.len(),
                marks0.len() == n_marks,
                has_text@.len() == marks0.len(),
                has_show@.len() == marks0.len(),
                has_texture@.len() == marks0.len(),
                pred == (|id: usize| has_class_name(class_names@, id)),
                forall|k: int|
                    0 <= k < d.len() && has_class_name(class_names@, #[trigger] d[k]) ==> d[k]
                        < marks0.len() && marks0[d[k] as int] is Some,
                forall|x: int|
                    0 <= x < marks0.len() ==> #[trigger] style_marks@[x] == if d.take(i as int).contains(
                        x as usize,
                    ) && has_class_name(class_names@, x as usize) {
                        Some(
                            class_change_mark(
                                marks0[x]->0,
                                class_names@[x]->0,
                                class_sheet.class_map@,
                                has_text@[x],
                                has_show@[x],
                                has_texture@[x],
                            ),
                        )
                    } else {
                        marks0[x]
                    },
                changes@.map_values(|c: (usize, ClassChange)| c.0) == d.take(i as int).filter(pred),
                forall|k: int|
                    0 <= k < changes@.len() ==> class_change_matches(
                        (#[trigger] changes@[k]).1,
                        marks0[changes@[k].0 as int]->0,
                        class_names@[changes@[k].0 as int]->0,
                        class_sheet.class_map@,
                        has_text@[changes@[k].0 as int],
                        has_show@[changes@[k].0 as int],
                        has_texture@[changes@[k].0 as int],
                    ),
                lpred == (|id: usize|
                    listed_by_class_change(
                        marks0,
                        class_names@,
                        class_sheet.class_map@,
                        has_text@,
                        has_show@,
                        has_texture@,
                        id,
                    )),
                dirty_list.list@ == l0 + d.take(i as int).filter(lpred),
                dirty_list.version == old(dirty_list).version,
                dirty_list.count == old(dirty_list).count,
                exact0 ==> dirty_list_exact(dirty_list.list@, style_marks@),
            decreases d.len() - i,
        {
            let id = self.dirtys[i];
            proof {
                assert(d.take(i + 1).drop_last() =~= d.take(i as int));
                assert(d.take(i + 1).last() == id);
                assert(!d.take(i as int).contains(id)) by {
                    if d.take(i as int).contains(id) {
                        let k = choose|k: int| 0 <= k < i && d.take(i as int)[k] == id;
                        assert(d[k] == d[i as int]);
                    }
                }
                reveal(Seq::filter);
            }
            let ghost marks_before = style_marks@;
            if id < class_names.len() {
                match &class_names[id] {
                    Some(class_name) => {
                        proof {
                            assert(has_class_name(class_names@, d[i as int]));
                        }
                        let mut mark = style_marks[id].unwrap();
                        let ghost m_before = mark;
                        let ghost l_before = dirty_list.list@;
                        let change = apply_class_name(
                            id,
                            class_name,
                            class_sheet,
                            &mut mark,
                            dirty_list,
                            has_text[id],
                            has_show[id],
                            has_texture[id],
                        );
                        proof {
                            assert(m_before == marks0[id as int]->0);
                            if exact0 {
                                lemma_exact_after_change(
                                    l_before,
                                    marks_before,
                                    id,
                                    mark,
                                );
                            }
                        }
                        style_marks.set(id, Some(mark));
                        changes.push((id, change));
                    },
                    None => {},
                }
            }
            proof {
                assert forall|x: int| 0 <= x < marks0.len() implies #[trigger] style_marks@[x] == if d.take(
                    i + 1,
                ).contains(x as usize) && has_class_name(class_names@, x as usize) {
                    Some(
                        class_change_mark(
                            marks0[x]->0,
                            class_names@[x]->0,
                            class_sheet.class_map@,
                            has_text@[x],
                            has_show@[x],
                            has_texture@[x],
                        ),
                    )
                } else {
                    marks0[x]
                } by {
                    let t1 = d.take(i + 1);
                    let t0 = d.take(i as int);
                    assert(t1 =~= t0.push(id));
                    let before_x = marks_before[x];
                    if x != id as int {
                        assert(style_marks@[x] == before_x);
                        assert(x as usize != id);
                    } else {
                        assert(t1.contains(id));
                    }
                    assert(t1.contains(x as usize) <==> (t0.contains(x as usize) || x as usize == id)) by {
                        if t1.contains(x as usize) {
                            let k = choose|k: int| 0 <= k < t1.len() && t1[k] == x as usize;
                            if k < i {
                                assert(t0[k] == x as usize);
                            }
                        }
                        if t0.contains(x as usize) {
                            let k = choose|k: int| 0 <= k < t0.len() && t0[k] == x as usize;
                            assert(t1[k] == x as usize);
                        }
                    }
                }
                let ids = changes@.map_values(|c: (usize, ClassChange)| c.0);
                assert(ids =~= d.take(i + 1).filter(pred));
                assert(dirty_list.list@ =~= l0 + d.take(i + 1).filter(lpred));
            }
            i = i + 1;
        }
        self.dirtys.clear();
        proof {
            assert(d.take(d.len() as int) =~= d);
        }
        changes
    }
}

} // verus!
