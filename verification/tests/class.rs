use gui::class::{
    apply_class_name, reset_attr, set_attr, set_attr1, set_attr2, set_attr3, transform_write, Class, ClassAttr1,
    ClassAttr2, ClassAttr3, ClassName, ClassSetting, ClassSheet, TransformWrite,
};
use gui::style_mark::{DirtyList, StyleMark};
use gui::style_type::{
    TY1_BACKGROUND_REPEAT, TY1_DISPLAY, TY1_TRANSFORM, TY1_ZINDEX, TY2_ALIGN_ITEMS, TY2_BORDER_BOTTOM,
    TY2_BORDER_LEFT, TY2_BORDER_RIGHT, TY2_BORDER_TOP, TY2_HEIGHT, TY2_MARGIN_BOTTOM, TY2_MARGIN_LEFT, TY2_MARGIN_RIGHT,
    TY2_MARGIN_TOP, TY2_WIDTH, TY_BACKGROUND_COLOR, TY_COLOR, TY_FONT_STYLE, TY_IMAGE_CLIP, TY_LETTER_SPACING,
    TY_OBJECT_FIT, TY_TEXT_ALIGN, TY_FONT_SIZE, TY1_MASK_IMAGE_CLIP, TY1_MASK_IMAGE, TY2_BLEND_MODE,
};

fn class(mark: u64, mark1: u64, mark2: u64, attrs1: Vec<ClassAttr1>, attrs2: Vec<ClassAttr2>, attrs3: Vec<ClassAttr3>) -> Class {
    Class {
        class_style_mark: mark,
        class_style_mark1: mark1,
        class_style_mark2: mark2,
        attrs1,
        attrs2,
        attrs3,
    }
}

#[test]
fn set_attr1_writes_free_attributes() {
    let mut list = DirtyList::new();
    let mut m = StyleMark::default();
    let attrs = vec![ClassAttr1::TextAlign, ClassAttr1::AlignItems, ClassAttr1::ObjectFit, ClassAttr1::Display];
    let written = set_attr1(4, &mut list, &attrs, &mut m);
    assert_eq!(written, vec![TY_TEXT_ALIGN, TY2_ALIGN_ITEMS, TY_OBJECT_FIT, TY1_DISPLAY]);
    assert_eq!(m.dirty, TY_TEXT_ALIGN | TY_OBJECT_FIT);
    assert_eq!((m.dirty1, m.dirty2), (0, 0));
    assert_eq!(list.list, vec![4]);
}

#[test]
fn set_attr1_respects_local_style() {
    let mut list = DirtyList::new();
    let mut m = StyleMark::default();
    m.local_style = TY_TEXT_ALIGN;
    let attrs = vec![
        ClassAttr1::TextAlign,
        ClassAttr1::ObjectFit,
        ClassAttr1::BackgroundRepeat,
        ClassAttr1::FontStyle,
    ];
    let written = set_attr1(4, &mut list, &attrs, &mut m);
    // only the text align is local: object fit and background repeat (whose
    // local flag is the object fit's) and the font style are written
    assert_eq!(written, vec![0, TY_OBJECT_FIT, TY1_BACKGROUND_REPEAT, TY_FONT_STYLE]);
    // a font style marks the font style dirty
    assert_eq!(m.dirty, TY_OBJECT_FIT | TY_FONT_STYLE);
    assert_eq!(m.dirty1, TY1_BACKGROUND_REPEAT);
    assert_eq!(list.list, vec![4]);

    // a local object fit keeps both background-image options
    let mut local_fit = StyleMark::default();
    local_fit.local_style = TY_OBJECT_FIT;
    let written = set_attr1(6, &mut list, &vec![ClassAttr1::ObjectFit, ClassAttr1::BackgroundRepeat], &mut local_fit);
    assert_eq!(written, vec![0, 0]);
    assert_eq!((local_fit.dirty, local_fit.dirty1), (0, 0));
    assert_eq!(list.list, vec![4]);

    let mut clean = StyleMark::default();
    let written = set_attr1(5, &mut list, &vec![ClassAttr1::BackgroundRepeat], &mut clean);
    assert_eq!(written, vec![TY1_BACKGROUND_REPEAT]);
    assert_eq!(clean.dirty1, TY1_BACKGROUND_REPEAT);
    assert_eq!(list.list, vec![4, 5]);
}

#[test]
fn set_attr2_sides_and_changed_values() {
    let mut list = DirtyList::new();
    let mut m = StyleMark::default();
    m.local_style2 = TY2_MARGIN_LEFT;
    let attrs = vec![
        ClassAttr2::Margin,
        ClassAttr2::LetterSpacing(false),
        ClassAttr2::LetterSpacing(true),
        ClassAttr2::Border,
        ClassAttr2::ZIndex,
    ];
    let written = set_attr2(2, &mut list, &attrs, &mut m);
    let margin = TY2_MARGIN_TOP | TY2_MARGIN_BOTTOM | TY2_MARGIN_RIGHT;
    let border = TY2_BORDER_LEFT | TY2_BORDER_TOP | TY2_BORDER_BOTTOM | TY2_BORDER_RIGHT;
    assert_eq!(written, vec![margin, 0, TY_LETTER_SPACING, border, TY1_ZINDEX]);
    assert_eq!(m.dirty, TY_LETTER_SPACING);
    assert_eq!(m.dirty1, 0);
    assert_eq!(m.dirty2, margin | border);
    assert_eq!(list.list, vec![2]);
}

#[test]
fn set_attr3_image_clip_sizes_loaded_image() {
    let mut list = DirtyList::new();
    let mut m = StyleMark::default();
    let written = set_attr3(3, &mut list, &vec![ClassAttr3::ImageClip, ClassAttr3::TransformFunc], &mut m, true);
    assert_eq!(written, vec![TY_IMAGE_CLIP, TY1_TRANSFORM]);
    assert_eq!(m.dirty, TY_IMAGE_CLIP);
    assert_eq!(m.dirty2, TY2_WIDTH | TY2_HEIGHT);

    let mut m2 = StyleMark::default();
    let written = set_attr3(4, &mut list, &vec![ClassAttr3::ImageClip], &mut m2, false);
    assert_eq!(written, vec![TY_IMAGE_CLIP]);
    assert_eq!(m2.dirty2, 0);

    // a transform marks nothing dirty: the node is not listed
    let mut m3 = StyleMark::default();
    let written = set_attr3(5, &mut list, &vec![ClassAttr3::TransformFunc], &mut m3, false);
    assert_eq!(written, vec![TY1_TRANSFORM]);
    assert_eq!(list.list, vec![3, 4]);
}

#[test]
fn reset_attr_resets_removed_attributes() {
    let mut list = DirtyList::new();
    let mut m = StyleMark::default();
    let r = reset_attr(1, &mut list, &mut m, TY_LETTER_SPACING | TY_BACKGROUND_COLOR, TY1_DISPLAY, TY2_WIDTH, true, true);
    assert_eq!(r.style, TY_LETTER_SPACING | TY_BACKGROUND_COLOR);
    assert_eq!(r.style1, TY1_DISPLAY);
    assert_eq!(r.style2, TY2_WIDTH);
    assert!(r.show_changed);
    assert_eq!(m.dirty, TY_LETTER_SPACING | TY_BACKGROUND_COLOR);
    assert_eq!((m.dirty1, m.dirty2), (0, 0));
    assert_eq!(list.list, vec![1]);
}

#[test]
fn reset_attr_keeps_local_and_class_attributes() {
    let mut list = DirtyList::new();
    let mut m = StyleMark::default();
    m.local_style = TY_COLOR;
    m.class_style = TY_BACKGROUND_COLOR;
    let r = reset_attr(1, &mut list, &mut m, TY_COLOR | TY_BACKGROUND_COLOR, 0, 0, true, true);
    assert_eq!((r.style, r.style1, r.style2), (0, 0, 0));
    assert!(!r.show_changed);
    assert_eq!(m.dirty, 0);
    assert!(list.list.is_empty());
    // text attributes are reset only on a node with a text style
    let r = reset_attr(2, &mut list, &mut m, TY_LETTER_SPACING, 0, 0, false, true);
    assert_eq!(r.style, 0);
}

#[test]
fn set_attr_applies_named_class() {
    let mut sheet = ClassSheet::new();
    sheet.insert(3, class(TY_COLOR, 0, 0, vec![], vec![], vec![ClassAttr3::Color]));
    let mut list = DirtyList::new();
    let mut m = StyleMark::default();
    assert!(set_attr(1, 0, &sheet, &mut m, &mut list, false).is_none());
    assert!(set_attr(1, 9, &sheet, &mut m, &mut list, false).is_none());
    assert_eq!(m.class_style, 0);
    let applied = set_attr(1, 3, &sheet, &mut m, &mut list, false).unwrap();
    assert!(applied.written1.is_empty());
    assert!(applied.written2.is_empty());
    assert_eq!(applied.written3, vec![TY_COLOR]);
    assert_eq!(m.class_style, TY_COLOR);
    assert_eq!(m.dirty, TY_COLOR);
    assert_eq!(list.list, vec![1]);
}

#[test]
fn apply_class_name_resets_dropped_class() {
    let mut sheet = ClassSheet::new();
    sheet.insert(5, class(TY_BACKGROUND_COLOR, 0, 0, vec![], vec![], vec![ClassAttr3::BGColor]));
    sheet.insert(6, class(TY_COLOR, 0, 0, vec![], vec![], vec![ClassAttr3::Color]));
    let mut list = DirtyList::new();
    let mut m = StyleMark::default();
    let first = ClassName { one: 5, two: 0, other: vec![] };
    let change = apply_class_name(1, &first, &sheet, &mut m, &mut list, false, false, false);
    assert_eq!(change.applied.len(), 1);
    assert!(change.reset.is_none());
    assert_eq!(m.class_style, TY_BACKGROUND_COLOR);

    let second = ClassName { one: 6, two: 0, other: vec![] };
    let change = apply_class_name(1, &second, &sheet, &mut m, &mut list, false, false, false);
    assert_eq!(change.applied.len(), 1);
    assert_eq!(change.applied[0].as_ref().unwrap().written3, vec![TY_COLOR]);
    let reset = change.reset.unwrap();
    assert_eq!((reset.style, reset.style1, reset.style2), (TY_BACKGROUND_COLOR, 0, 0));
    assert_eq!(m.class_style, TY_COLOR);
    assert_eq!(m.dirty, TY_COLOR | TY_BACKGROUND_COLOR);
}

#[test]
fn apply_class_name_order_of_classes() {
    let mut sheet = ClassSheet::new();
    sheet.insert(1, class(TY_COLOR, 0, 0, vec![], vec![], vec![ClassAttr3::Color]));
    sheet.insert(2, class(0, TY1_ZINDEX, 0, vec![], vec![ClassAttr2::ZIndex], vec![]));
    sheet.insert(3, class(TY_BACKGROUND_COLOR, 0, 0, vec![], vec![], vec![ClassAttr3::BGColor]));
    let mut list = DirtyList::new();
    let mut m = StyleMark::default();
    // the rest is applied only after a second class
    let names = ClassName { one: 1, two: 2, other: vec![3, 8] };
    let change = apply_class_name(1, &names, &sheet, &mut m, &mut list, false, false, false);
    assert_eq!(change.applied.len(), 4);
    assert!(change.applied[3].is_none());
    assert_eq!(m.class_style, TY_COLOR | TY_BACKGROUND_COLOR);
    assert_eq!(m.class_style1, TY1_ZINDEX);
    let mut m2 = StyleMark::default();
    let names = ClassName { one: 1, two: 0, other: vec![3] };
    let change = apply_class_name(2, &names, &sheet, &mut m2, &mut list, false, false, false);
    assert_eq!(change.applied.len(), 1);
    assert_eq!(m2.class_style, TY_COLOR);
}

#[test]
fn class_setting_runs_each_node_once() {
    let mut sheet = ClassSheet::new();
    sheet.insert(7, class(TY_COLOR, 0, 0, vec![], vec![], vec![ClassAttr3::Color]));
    let mut setting = ClassSetting::new();
    setting.listen(1);
    setting.listen(2);
    setting.listen(1);
    assert_eq!(setting.dirtys, vec![1, 2]);
    let mut class_names: Vec<Option<ClassName>> = vec![None, None, None];
    class_names[1] = Some(ClassName { one: 7, two: 0, other: vec![] });
    let mut marks: Vec<Option<StyleMark>> = vec![Some(StyleMark::default()); 3];
    let mut list = DirtyList::new();
    let flags = vec![false; 3];
    let changes = setting.run(&class_names, &sheet, &mut marks, &mut list, &flags, &flags, &flags);
    assert!(setting.dirtys.is_empty());
    assert_eq!(changes.len(), 1);
    assert_eq!(changes[0].0, 1);
    assert_eq!(marks[1].unwrap().class_style, TY_COLOR);
    assert_eq!(marks[2].unwrap().class_style, 0);
    assert_eq!(list.list, vec![1]);
}

#[test]
fn class_name_default_is_empty() {
    let c = ClassName::default();
    assert_eq!((c.one, c.two), (0, 0));
    assert!(c.other.is_empty());
}

#[test]
fn set_attr3_mask_image_clip_marks_group_one() {
    let mut list = DirtyList::new();
    let mut m = StyleMark::default();
    let written = set_attr3(3, &mut list, &vec![ClassAttr3::MaskImageClip], &mut m, false);
    assert_eq!(written, vec![TY1_MASK_IMAGE_CLIP]);
    assert_eq!((m.dirty, m.dirty1, m.dirty2), (0, TY1_MASK_IMAGE_CLIP, 0));
    assert_eq!(list.list, vec![3]);
    // a local mask-image clip is kept
    let mut local = StyleMark::default();
    local.local_style1 = TY1_MASK_IMAGE_CLIP;
    let written = set_attr3(4, &mut list, &vec![ClassAttr3::MaskImageClip], &mut local, false);
    assert_eq!(written, vec![0]);
    assert_eq!(local.dirty1, 0);
    assert_eq!(list.list, vec![3]);
}

#[test]
fn transform_write_keeps_the_other_part() {
    assert_eq!(transform_write(ClassAttr3::TransformFunc, true), Some(TransformWrite::Funcs));
    assert_eq!(transform_write(ClassAttr3::TransformFunc, false), Some(TransformWrite::NewFuncs));
    assert_eq!(transform_write(ClassAttr3::TransformOrigin, true), Some(TransformWrite::Origin));
    assert_eq!(transform_write(ClassAttr3::TransformOrigin, false), Some(TransformWrite::NewOrigin));
    assert_eq!(transform_write(ClassAttr3::ImageClip, true), None);
}

#[test]
fn reset_attr_resets_font_and_transform() {
    let mut list = DirtyList::new();
    let mut m = StyleMark::default();
    let r = reset_attr(1, &mut list, &mut m, TY_FONT_SIZE | TY_FONT_STYLE, TY1_ZINDEX | TY1_TRANSFORM, 0, true, false);
    assert_eq!(r.style, TY_FONT_SIZE | TY_FONT_STYLE);
    assert_eq!(r.style1, TY1_ZINDEX | TY1_TRANSFORM);
    assert!(!r.show_changed);
    assert_eq!(m.dirty, TY_FONT_SIZE | TY_FONT_STYLE);
    assert_eq!(list.list, vec![1]);
    // without a text style the font is kept; z-index and transform are
    // reset whatever else was removed
    let mut m2 = StyleMark::default();
    let r = reset_attr(2, &mut list, &mut m2, 0, TY1_ZINDEX | TY1_TRANSFORM, 0, false, false);
    assert_eq!((r.style, r.style1, r.style2), (0, TY1_ZINDEX | TY1_TRANSFORM, 0));
    let r = reset_attr(2, &mut list, &mut m2, TY_FONT_SIZE, 0, 0, false, false);
    assert_eq!(r.style, 0);
    assert_eq!(m2.dirty, 0);
    assert_eq!(list.list, vec![1]);
}

#[test]
fn reset_attr_resets_mask_and_blend_alone() {
    let mut list = DirtyList::new();
    let mut m = StyleMark::default();
    let r = reset_attr(3, &mut list, &mut m, 0, TY1_MASK_IMAGE, TY2_BLEND_MODE, false, false);
    assert_eq!((r.style, r.style1, r.style2), (0, TY1_MASK_IMAGE, TY2_BLEND_MODE));
    assert_eq!((m.dirty, m.dirty1, m.dirty2), (0, TY1_MASK_IMAGE, TY2_BLEND_MODE));
    assert_eq!(list.list, vec![3]);
}
