use gui::idtree::IdTree;
use gui::style_mark::{
    load_image, other_layout_field_mark1, other_layout_field_mark2, rect_layout_field_mark, set_dirty, set_dirty1,
    set_dirty2, set_image_size, set_local_dirty, show_field_mark, str_eq, text_style_field_mark, ClassAwareStyle,
    ComputedChange, DirtyList, ImageType, ImageWait, LocalStyle, StyleMark, StyleMarkSys, TextureChange,
};
use gui::style_type::{
    LAYOUT_MARGIN_MARK, LAYOUT_PADDING_MARK, LAYOUT_POSITION_MARK, TEXT_STYLE_DIRTY, TY1_CREATE, TY1_DELETE, TY1_DISPLAY, TY1_ENABLE,
    TY1_FLEX_BASIS, TY1_IMAGE_TEXTURE, TY1_MASK_IMAGE, TY1_MASK_TEXTURE, TY1_OVERFLOW, TY1_ZINDEX, TY2_HEIGHT,
    TY2_MARGIN_TOP, TY2_POSITION_TYPE, TY2_WIDTH, TY_BORDER_IMAGE, TY_BY_OVERFLOW, TY_COLOR, TY_FILTER, TY_IMAGE,
    TY_IMAGE_CLIP, TY_LAYOUT, TY_MATRIX, TY_OCT, TY_OPACITY, TY_TEXT,
};
use gui::style_version::{DirtyCount, StyleVersion};

fn marks(n: usize) -> Vec<Option<StyleMark>> {
    vec![Some(StyleMark::default()); n]
}

#[test]
fn style_mark_default_is_clean() {
    let m = StyleMark::default();
    assert_eq!((m.dirty, m.dirty1, m.dirty2, m.dirty_other), (0, 0, 0, 0));
    assert_eq!((m.local_style, m.local_style1, m.local_style2), (0, 0, 0));
    assert_eq!((m.class_style, m.class_style1, m.class_style2), (0, 0, 0));
}

#[test]
fn set_dirty_lists_a_node_once() {
    let mut list = DirtyList::new();
    let mut m = StyleMark::default();
    set_dirty(&mut list, 7, TY_COLOR, &mut m);
    assert_eq!(m.dirty, TY_COLOR);
    assert_eq!(list.list, vec![7]);
    set_dirty1(&mut list, 7, TY1_ZINDEX, &mut m);
    set_dirty2(&mut list, 7, TY2_WIDTH, &mut m);
    assert_eq!((m.dirty, m.dirty1, m.dirty2), (TY_COLOR, TY1_ZINDEX, TY2_WIDTH));
    assert_eq!(list.list, vec![7]);
}

#[test]
fn set_local_dirty_marks_local_flag() {
    let mut list = DirtyList::new();
    let mut ms = marks(3);
    set_local_dirty(&mut list, 2, TY_OPACITY, &mut ms);
    let m = ms[2].unwrap();
    assert_eq!(m.dirty, TY_OPACITY);
    assert_eq!(m.local_style, TY_OPACITY);
    assert_eq!(list.list, vec![2]);
}

#[test]
fn run_clears_listed_marks() {
    let mut sys = StyleMarkSys::new();
    let mut list = DirtyList::new();
    let mut ms = marks(4);
    set_local_dirty(&mut list, 1, TY_COLOR, &mut ms);
    set_local_dirty(&mut list, 3, TY_FILTER, &mut ms);
    sys.run(&mut ms, &mut list);
    assert!(list.list.is_empty());
    for id in 0..4 {
        let m = ms[id].unwrap();
        assert_eq!((m.dirty, m.dirty1, m.dirty2, m.dirty_other), (0, 0, 0, 0));
    }
    // local flags survive the run
    assert_eq!(ms[1].unwrap().local_style, TY_COLOR);
    // a node marked again after a run is listed again
    set_local_dirty(&mut list, 1, TY_COLOR, &mut ms);
    assert_eq!(list.list, vec![1]);
}

#[test]
fn field_marks() {
    assert!(str_eq("color", "color"));
    assert!(!str_eq("color", "colour"));
    assert_eq!(text_style_field_mark("color"), Some(TY_COLOR));
    assert_eq!(text_style_field_mark("nothing"), None);
    assert_eq!(rect_layout_field_mark("margin"), Some(LAYOUT_MARGIN_MARK));
    assert_eq!(rect_layout_field_mark("margin-top"), Some(TY2_MARGIN_TOP));
    assert_eq!(rect_layout_field_mark("height"), Some(TY2_HEIGHT));
    assert_eq!(rect_layout_field_mark("top"), None);
    assert_eq!(other_layout_field_mark2("position_type"), TY2_POSITION_TYPE);
    // a changed `position` marks the four offsets
    assert_eq!(other_layout_field_mark2("position"), LAYOUT_POSITION_MARK);
    assert_eq!(other_layout_field_mark2("padding"), LAYOUT_PADDING_MARK);
    assert_eq!(other_layout_field_mark2("display"), 0);
    assert_eq!(other_layout_field_mark1("display"), Some(TY1_DISPLAY));
    assert_eq!(other_layout_field_mark1("overflow"), Some(TY1_OVERFLOW));
    assert_eq!(other_layout_field_mark1("flex_basis"), Some(TY1_FLEX_BASIS));
    assert_eq!(other_layout_field_mark1("flex_grow"), None);
    assert_eq!(show_field_mark("enable"), Some(TY1_ENABLE));
    assert_eq!(show_field_mark("width"), None);
}

#[test]
fn layout_and_text_listeners() {
    let mut sys = StyleMarkSys::new();
    let mut list = DirtyList::new();
    let mut ms = marks(3);
    sys.on_rect_layout_modify(&mut ms, &mut list, 1, "width");
    assert_eq!(ms[1].unwrap().dirty2, TY2_WIDTH);
    assert_eq!(ms[1].unwrap().local_style2, TY2_WIDTH);
    sys.on_rect_layout_modify(&mut ms, &mut list, 2, "unknown");
    assert!(ms[2].unwrap().dirty2 == 0);
    sys.on_other_layout_modify(&mut ms, &mut list, 2, "display");
    assert_eq!(ms[2].unwrap().dirty1, TY1_DISPLAY);
    assert_eq!(ms[2].unwrap().local_style1, TY1_DISPLAY);
    sys.on_text_style_modify(&mut ms, &mut list, 2, "color");
    assert_eq!(ms[2].unwrap().dirty, TY_COLOR);
    assert_eq!(list.list, vec![1, 2]);
    sys.on_show_modify(&mut ms, &mut list, 1, "enable");
    assert_eq!(ms[1].unwrap().dirty1, TY1_ENABLE);
    // a node without a mark is left alone
    let mut ms2: Vec<Option<StyleMark>> = vec![None; 2];
    sys.on_show_modify(&mut ms2, &mut list, 1, "enable");
    assert!(ms2[1].is_none());
}

#[test]
fn node_create_destroy_and_text() {
    let mut sys = StyleMarkSys::new();
    let mut list = DirtyList::new();
    let mut ms: Vec<Option<StyleMark>> = vec![None; 3];
    sys.on_node_create(&mut ms, 1);
    assert!(ms[1].is_some());
    sys.on_text_content_create(&mut ms, &mut list, 1);
    assert_eq!(ms[1].unwrap().dirty, TEXT_STYLE_DIRTY | TY_TEXT);
    assert_eq!(ms[1].unwrap().local_style, 0);
    sys.on_node_destroy(&mut ms, &mut list, 1);
    assert_eq!(ms[1].unwrap().dirty1, TY1_DELETE);
    sys.on_node_destroy(&mut ms, &mut list, 2);
    assert!(ms[2].is_none());
    assert_eq!(list.list, vec![1]);
}

#[test]
fn tree_create_marks_subtree() {
    let mut sys = StyleMarkSys::new();
    let mut list = DirtyList::new();
    let mut tree = IdTree::with_capacity(5);
    tree.insert_child(1, 0);
    tree.insert_child(2, 1);
    tree.insert_child(3, 2);
    tree.insert_child(4, 1);
    let mut states = vec![true; 5];
    states[2] = false;
    let mut ms = marks(5);
    set_local_dirty(&mut list, 4, TY_COLOR, &mut ms);
    sys.run(&mut ms, &mut list);
    sys.on_tree_create(1, &tree, &states, &mut ms, &mut list);
    let m1 = ms[1].unwrap();
    assert_eq!(m1.dirty1, TY1_CREATE);
    assert_eq!(m1.local_style1, TY1_CREATE);
    // node 2 is virtual: neither it nor node 3 below it is marked
    assert_eq!(ms[2].unwrap().dirty1, 0);
    assert_eq!(ms[3].unwrap().dirty1, 0);
    // node 4's local colour is dirty again
    let m4 = ms[4].unwrap();
    assert_eq!(m4.dirty, TY_COLOR);
    assert_eq!(m4.dirty1, TY1_CREATE);
    assert_eq!(list.list, vec![1, 4]);
}

#[test]
fn local_and_class_aware_styles() {
    let mut sys = StyleMarkSys::new();
    let mut list = DirtyList::new();
    let mut ms = marks(3);
    sys.on_local_style(&mut ms, &mut list, 1, LocalStyle::Opacity);
    assert_eq!(ms[1].unwrap().dirty, TY_OPACITY);
    assert_eq!(ms[1].unwrap().local_style, TY_OPACITY);
    // a change coming from a class is not a local style
    sys.on_class_aware_style(&mut ms, &mut list, 2, "class", ClassAwareStyle::ZIndex);
    assert_eq!(ms[2].unwrap().dirty1, 0);
    sys.on_class_aware_style(&mut ms, &mut list, 2, "value", ClassAwareStyle::ZIndex);
    assert_eq!(ms[2].unwrap().dirty1, TY1_ZINDEX);
    assert_eq!(ms[2].unwrap().local_style1, TY1_ZINDEX);
    assert_eq!(list.list, vec![1, 2]);
}

#[test]
fn computed_and_texture_changes() {
    let mut sys = StyleMarkSys::new();
    let mut list = DirtyList::new();
    let mut ms = marks(3);
    sys.on_computed_change(&mut ms, &mut list, 1, ComputedChange::Oct);
    sys.on_computed_change(&mut ms, &mut list, 1, ComputedChange::ZRange);
    assert_eq!(ms[1].unwrap().dirty, TY_OCT | TY_MATRIX);
    // layout tolerates a node without a mark
    let mut none_marks: Vec<Option<StyleMark>> = vec![None; 2];
    sys.on_computed_change(&mut none_marks, &mut list, 1, ComputedChange::Layout);
    assert!(none_marks[1].is_none());
    sys.on_computed_change(&mut ms, &mut list, 2, ComputedChange::Layout);
    assert_eq!(ms[2].unwrap().dirty, TY_LAYOUT);
    sys.on_render_obj_create(&mut ms, &mut list, 2);
    assert_eq!(ms[2].unwrap().dirty, TY_LAYOUT | TY_BY_OVERFLOW);
    sys.on_texture_change(&mut ms, &mut list, 1, TextureChange::MaskTexture);
    assert_eq!(ms[1].unwrap().dirty1, TY1_MASK_TEXTURE);
    assert_eq!(list.list, vec![1, 2]);
}

#[test]
fn image_texture_and_size() {
    let mut sys = StyleMarkSys::new();
    let mut list = DirtyList::new();
    let mut ms = marks(3);
    let mut tree = IdTree::with_capacity(3);
    tree.insert_child(1, 0);
    // width set locally: a loaded image only sizes the height
    set_local_dirty(&mut list, 1, 0, &mut ms);
    let mut m = ms[1].unwrap();
    m.local_style2 = TY2_WIDTH;
    ms[1] = Some(m);
    let r = sys.on_image_texture_change(&mut ms, &mut list, 1, true);
    assert_eq!(r, TY2_HEIGHT);
    assert_eq!(ms[1].unwrap().dirty1, TY1_IMAGE_TEXTURE);
    assert_eq!(ms[1].unwrap().dirty2, TY2_HEIGHT);
    let r2 = sys.on_image_clip_change(&mut ms, &mut list, 2, false);
    assert_eq!(r2, 0);
    assert_eq!(ms[2].unwrap().dirty, TY_IMAGE_CLIP);
    assert_eq!(ms[2].unwrap().local_style, TY_IMAGE_CLIP);
    // a texture deleted off the tree marks nothing
    sys.on_image_texture_delete(&mut ms, &mut list, &tree, 2);
    assert_eq!(ms[2].unwrap().dirty1, 0);
    assert!(sys.on_mask_image_change(&mut ms, &tree, 2));
    assert_eq!(ms[2].unwrap().local_style1, TY1_MASK_IMAGE);
    assert_eq!(ms[2].unwrap().dirty1, 0);

    let mut fresh = StyleMark::default();
    assert_eq!(set_image_size(&mut fresh), TY2_WIDTH | TY2_HEIGHT);
    assert_eq!(fresh.dirty2, TY2_WIDTH | TY2_HEIGHT);
}

#[test]
fn load_image_types() {
    let mut m = StyleMark::default();
    m.local_style = TY_IMAGE;
    let (image, border, mask) = load_image(&m, true, true, false);
    assert!(matches!(image, Some(ImageType::ImageLocal)));
    assert!(matches!(border, Some(ImageType::BorderImageClass)));
    assert!(mask.is_none());
    m.local_style = TY_BORDER_IMAGE;
    let (image, border, _) = load_image(&m, true, true, false);
    assert!(matches!(image, Some(ImageType::ImageClass)));
    assert!(matches!(border, Some(ImageType::BorderImageLocal)));
    // the mask image is local by its group-1 local flag
    let (_, _, mask) = load_image(&m, false, false, true);
    assert!(matches!(mask, Some(ImageType::MaskImageClass)));
    m.local_style1 = TY1_MASK_IMAGE;
    let (_, _, mask) = load_image(&m, false, false, true);
    assert!(matches!(mask, Some(ImageType::MaskImageLocal)));
}

#[test]
fn style_version_and_dirty_count() {
    let mut list = DirtyList::new();
    let mut m = StyleMark::default();
    set_dirty(&mut list, 3, TY_COLOR, &mut m);
    let mut v = StyleVersion::default();
    v.run(&mut list);
    v.run(&mut list);
    assert_eq!(list.version, 2);
    let mut c = DirtyCount::default();
    c.run(&mut list);
    assert_eq!(list.count, 1);
}

#[test]
fn tree_delete_releases_textures_below() {
    // 1 -> (2 -> 3, 4)
    let mut tree = IdTree::with_capacity(5);
    tree.insert_child(1, 0);
    tree.insert_child(2, 1);
    tree.insert_child(3, 2);
    tree.insert_child(4, 1);
    let mut sys = StyleMarkSys::new();
    let mut masks: Vec<Option<u8>> = vec![Some(0); 5];
    let mut images: Vec<Option<u16>> = vec![Some(1); 5];
    let mut borders: Vec<Option<u32>> = vec![Some(2), None, Some(2)];
    sys.on_tree_delete(2, &tree, &mut masks, &mut images, &mut borders);
    assert_eq!(masks, vec![Some(0), Some(0), None, None, Some(0)]);
    assert_eq!(images, vec![Some(1), Some(1), None, None, Some(1)]);
    assert_eq!(borders, vec![Some(2), None, None]);
    // a node off the tree releases only its own textures
    let mut masks: Vec<Option<u8>> = vec![Some(0); 5];
    let mut tree2 = IdTree::with_capacity(3);
    tree2.insert_child(1, 0);
    let mut images2: Vec<Option<u16>> = vec![];
    let mut borders2: Vec<Option<u32>> = vec![Some(2); 3];
    sys.on_tree_delete(2, &tree2, &mut masks, &mut images2, &mut borders2);
    assert_eq!(masks, vec![Some(0), Some(0), None, Some(0), Some(0)]);
    assert_eq!(borders2, vec![Some(2), Some(2), None]);
}

#[test]
fn loaded_images_go_to_nodes_still_waiting() {
    let mut sys = StyleMarkSys::new();
    let tree = IdTree::with_capacity(5);
    let exists = vec![true, true, true, false, true];
    let image_urls = vec![None, Some(10), Some(11), Some(10), None];
    let border_urls = vec![None, None, None, None, Some(10)];
    let mask_urls: Vec<Option<usize>> = vec![None, Some(20), None, None, None];
    let finished = vec![
        (
            10,
            vec![
                ImageWait { id: 1, ty: ImageType::ImageLocal },
                // node 2 now wants another image
                ImageWait { id: 2, ty: ImageType::ImageClass },
                // node 3 was destroyed
                ImageWait { id: 3, ty: ImageType::ImageLocal },
                ImageWait { id: 4, ty: ImageType::BorderImageLocal },
                // node 9 has no tree slot
                ImageWait { id: 9, ty: ImageType::ImageLocal },
            ],
        ),
        (20, vec![ImageWait { id: 1, ty: ImageType::MaskImageClass }, ImageWait { id: 1, ty: ImageType::ImageLocal }]),
    ];
    let served = sys.on_images_loaded(&finished, &exists, &tree, &image_urls, &border_urls, &mask_urls);
    assert_eq!(
        served,
        vec![
            (0, ImageWait { id: 1, ty: ImageType::ImageLocal }),
            (0, ImageWait { id: 4, ty: ImageType::BorderImageLocal }),
            (1, ImageWait { id: 1, ty: ImageType::MaskImageClass }),
        ]
    );
}

#[test]
fn image_changes_load_when_placed() {
    let mut sys = StyleMarkSys::new();
    let mut list = DirtyList::new();
    let mut ms = marks(4);
    let mut tree = IdTree::with_capacity(3);
    tree.insert_child(1, 0);
    // on the tree: the image loads now
    assert!(sys.on_image_change(&mut ms, &mut list, &tree, 1));
    assert_eq!(ms[1].unwrap().dirty, TY_IMAGE);
    assert_eq!(ms[1].unwrap().local_style, TY_IMAGE);
    // a tree slot off the tree: the image waits, the border image loads
    assert!(!sys.on_image_change(&mut ms, &mut list, &tree, 2));
    assert!(sys.on_border_image_change(&mut ms, &mut list, &tree, 2));
    assert_eq!(ms[2].unwrap().local_style, TY_IMAGE | TY_BORDER_IMAGE);
    // no tree slot: nothing loads
    assert!(!sys.on_border_image_change(&mut ms, &mut list, &tree, 3));
    assert!(!sys.on_mask_image_change(&mut ms, &tree, 3));
    assert_eq!(list.list, vec![1, 2, 3]);
}

#[test]
fn border_image_slice_is_local() {
    let mut sys = StyleMarkSys::new();
    let mut list = DirtyList::new();
    let mut ms = marks(2);
    sys.on_local_style(&mut ms, &mut list, 1, LocalStyle::BorderImageSlice);
    assert_eq!(ms[1].unwrap().dirty, gui::style_type::TY_BORDER_IMAGE_SLICE);
    assert_eq!(ms[1].unwrap().local_style, gui::style_type::TY_BORDER_IMAGE_SLICE);
    // a group-1 local style on a node without a mark changes nothing
    let mut none: Vec<Option<StyleMark>> = vec![None; 2];
    sys.on_local_style(&mut none, &mut list, 1, LocalStyle::Blur);
    assert!(none[1].is_none());
    assert_eq!(list.list, vec![1]);
}

#[test]
fn created_node_is_clean_and_unlisted() {
    let mut sys = StyleMarkSys::new();
    let mut list = DirtyList::new();
    let mut ms: Vec<Option<StyleMark>> = vec![None; 3];
    sys.on_node_create(&mut ms, 1);
    sys.on_text_style_modify(&mut ms, &mut list, 1, "color");
    sys.on_node_create(&mut ms, 2);
    // every listed node that has a mark is dirty, every dirty mark is listed
    assert_eq!(list.list, vec![1]);
    assert!(ms[1].unwrap().dirty != 0);
    assert_eq!(ms[2].unwrap().dirty, 0);
    // a local-only change (mask image) neither dirties nor lists the node
    let tree = IdTree::with_capacity(3);
    sys.on_mask_image_change(&mut ms, &tree, 2);
    assert_eq!(ms[2].unwrap().dirty1, 0);
    assert_eq!(list.list, vec![1]);
}
