use gui::charblock::create_index_buffer;
use gui::clip::next_power_of_two;
use gui::context_mark::{
    assign_context_indexs, decide_context, recursive_set_context_index, ContextAction, ContextWork, BlurSys, ClipPathSys, MaskTextureSys, OpacitySys, RenderContextMark, RenderContextSys,
};
use gui::id_set::insert_id;
use gui::idtree::IdTree;
use gui::items::{DrityType, Item, Items};
use gui::render_dirty::{list_render_objs, RenderObjFlags, RenderSys};
use gui::render_matrix::RenderMatrixSys;
use gui::res_release::ResReleaseSys;
use gui::style_mark::StyleMark;
use gui::style_type::{TY1_CONTENT_BOX, TY1_MASK_TEXTURE, TY1_TRANSFORM_WILL_CHANGE, TY_COLOR, TY_OPACITY};
use gui::will_change::TransformWillChangeSys;

#[test]
fn index_buffer_of_quads() {
    assert!(create_index_buffer(0).is_empty());
    assert_eq!(create_index_buffer(1), vec![0, 1, 2, 0, 2, 3]);
    assert_eq!(create_index_buffer(2), vec![0, 1, 2, 0, 2, 3, 4, 5, 6, 4, 6, 7]);
    let big = create_index_buffer(16383);
    assert_eq!(big.len(), 16383 * 6);
    assert_eq!(&big[big.len() - 6..], &[65528, 65529, 65530, 65528, 65530, 65531]);
}

#[test]
fn next_power_of_two_values() {
    assert_eq!(next_power_of_two(1), 1);
    assert_eq!(next_power_of_two(2), 2);
    assert_eq!(next_power_of_two(3), 4);
    assert_eq!(next_power_of_two(5), 8);
    assert_eq!(next_power_of_two(1024), 1024);
    assert_eq!(next_power_of_two(1025), 2048);
    assert_eq!(next_power_of_two(0x8000_0000), 0x8000_0000);
}

#[test]
fn res_release_collects_once_per_interval() {
    let mut sys = ResReleaseSys::new();
    assert_eq!(sys.run(0), Some(0));
    assert_eq!(sys.collect_time, 1000);
    assert_eq!(sys.run(500), None);
    assert_eq!(sys.run(1000), Some(1000));
    assert_eq!(sys.collect_time, 2000);
    // a late run collects once and schedules one interval after itself
    assert_eq!(sys.run(5000), Some(5000));
    assert_eq!(sys.collect_time, 6000);
    assert_eq!(sys.run(5016), None);
    assert_eq!(sys.run(5999), None);
    assert_eq!(sys.run(6000), Some(6000));
}

#[test]
fn items_dirty_flags() {
    assert_eq!(DrityType::Create.bits(), 1);
    assert_eq!(DrityType::Opacity.bits(), 32);
    let item = Item::new(9u32);
    assert_eq!(item.dirty, usize::MAX);
    let mut items: Items<u32> = Items::new();
    // no item yet: nothing happens
    items.set_dirty(2, DrityType::Matrix.bits());
    assert!(items.dirtys.is_empty());
    items.create(2, 7);
    assert_eq!(items.render_map.len(), 3);
    assert_eq!(items.dirtys, vec![2]);
    // a new item is dirty in every flag: nothing is added, nothing listed
    items.set_dirty(2, DrityType::Matrix.bits());
    assert_eq!(items.dirtys, vec![2]);
    items.render_map[2].as_mut().unwrap().dirty = 0;
    items.set_dirty(2, DrityType::Matrix.bits());
    items.set_dirty(2, DrityType::Matrix.bits());
    assert_eq!(items.dirtys, vec![2, 2]);
    assert_eq!(items.render_map[2].as_ref().unwrap().dirty, 16);
    items.set_dirty_no_push(2, DrityType::Geometry.bits());
    assert_eq!(items.render_map[2].as_ref().unwrap().dirty, 24);
    assert_eq!(items.render_map[2].as_ref().unwrap().index, 7);
    assert_eq!(items.dirtys, vec![2, 2]);
}

fn obj(is_opacity: bool) -> Option<RenderObjFlags> {
    Some(RenderObjFlags { is_opacity, program_dirty: false })
}

#[test]
fn render_sys_dirty_flags() {
    let mut sys = RenderSys::new();
    let mut objs = vec![None, obj(true), obj(false)];
    sys.on_render_obj_create(&mut objs, 1);
    assert!(sys.dirty && sys.opacity_dirty && !sys.transparent_dirty);
    assert_eq!(sys.program_dirtys, vec![1]);
    assert!(objs[1].unwrap().program_dirty);

    let mut sys = RenderSys::new();
    sys.on_render_obj_modify(&mut objs, 2, "depth");
    assert!(sys.dirty && sys.transparent_dirty && !sys.opacity_dirty);
    sys.on_render_obj_modify(&mut objs, 2, "program_dirty");
    assert_eq!(sys.program_dirtys, vec![2]);
    sys.on_render_obj_modify(&mut objs, 2, "program_dirty");
    assert_eq!(sys.program_dirtys, vec![2]);
    sys.on_render_obj_modify(&mut objs, 0, "context");
    assert!(sys.is_update_context_texture);

    let mut sys = RenderSys::new();
    sys.on_render_obj_modify(&mut objs, 1, "visibility");
    assert!(sys.opacity_dirty && !sys.transparent_dirty);
    sys.on_render_obj_modify(&mut objs, 1, "is_opacity");
    assert!(sys.opacity_dirty && sys.transparent_dirty);
    // an unknown object only asks for a redraw
    let mut sys = RenderSys::new();
    sys.on_render_obj_modify(&mut objs, 7, "depth");
    assert!(sys.dirty && !sys.transparent_dirty && !sys.opacity_dirty);
    sys.on_render_obj_delete(&objs, 2);
    assert!(sys.transparent_dirty);
    sys.on_projection_change();
    assert!(sys.dirty);
}

#[test]
fn render_sys_takes_program_dirtys() {
    let mut sys = RenderSys::new();
    let mut objs = vec![None, obj(true), obj(false), obj(true)];
    sys.on_render_obj_create(&mut objs, 3);
    sys.on_render_obj_create(&mut objs, 1);
    objs[3] = None;
    let ids = sys.take_program_dirtys(&mut objs);
    assert_eq!(ids, vec![1]);
    assert!(sys.program_dirtys.is_empty());
    assert!(!objs[1].unwrap().program_dirty);
}

#[test]
fn context_mark_flags() {
    let mut m = RenderContextMark::new();
    assert!(!m.any());
    m.set(3, true);
    assert!(m.any());
    m.set(3, false);
    assert!(!m.any());
    m.set(9, false);
    assert!(!m.any());
}

fn has_flag(marks: &Vec<Option<RenderContextMark>>, id: usize, index: usize) -> bool {
    let m = marks[id].as_ref().unwrap();
    index < m.bits.len() && m.bits[index]
}

#[test]
fn context_mark_systems() {
    let mut count = 0usize;
    let mut opacity = OpacitySys::new();
    let mut blur = BlurSys::new();
    let mut mask = MaskTextureSys::new();
    let mut clip = ClipPathSys::new();
    opacity.setup(&mut count);
    blur.setup(&mut count);
    mask.setup(&mut count);
    clip.setup(&mut count);
    assert_eq!(count, 4);
    assert_eq!((opacity.render_mark_index, blur.render_mark_index), (1, 2));
    assert_eq!((mask.render_mark_index, clip.render_mark_index), (3, 4));

    let mut marks: Vec<Option<RenderContextMark>> = (0..3).map(|_| Some(RenderContextMark::new())).collect();
    opacity.on_opacity_change(&mut marks, 1, true);
    opacity.on_opacity_change(&mut marks, 1, true);
    assert_eq!(opacity.dirty, vec![1]);
    assert!(has_flag(&marks, 1, 1));
    opacity.on_opacity_change(&mut marks, 1, false);
    assert!(!has_flag(&marks, 1, 1));
    blur.on_blur_change(&mut marks, 2, true);
    assert!(has_flag(&marks, 2, 2));
    blur.on_blur_delete(&mut marks, 2);
    assert!(!has_flag(&marks, 2, 2));
    mask.on_mask_texture_change(&mut marks, 1);
    assert!(has_flag(&marks, 1, 3));
    let mut no_marks: Vec<Option<RenderContextMark>> = vec![None, None];
    mask.on_oct_change(&no_marks, 1);
    assert_eq!(mask.dirty, vec![1]);
    mask.on_oct_change(&marks, 2);
    assert_eq!(mask.dirty, vec![1, 2]);
    mask.on_mask_texture_delete(&mut marks, 1);
    assert!(!has_flag(&marks, 1, 3));
    clip.on_clip_path_change(&mut marks, 2);
    assert!(has_flag(&marks, 2, 4));
    clip.on_content_box_change(&mut no_marks, 1, false);
    assert!(clip.dirty == vec![2]);
    clip.on_content_box_change(&mut marks, 2, true);
    assert!(!has_flag(&marks, 2, 4));
    clip.on_clip_path_delete(&mut marks, 2);
    assert_eq!(clip.dirty, vec![2]);
    opacity.on_opacity_delete(&mut marks, 2);
    assert_eq!(opacity.dirty, vec![1, 2]);
}

#[test]
fn render_context_sys_tree_create() {
    let mut tree = IdTree::with_capacity(7);
    tree.insert_child(1, 0);
    tree.insert_child(2, 1);
    tree.insert_child(3, 2);
    tree.insert_child(4, 2);
    tree.insert_child(5, 3);
    tree.insert_child(6, 1);
    let mut has_mask = vec![false; 7];
    let mut translucent = vec![false; 7];
    has_mask[5] = true;
    translucent[4] = true;
    translucent[6] = true;
    let mut indexs: Vec<Option<usize>> = vec![Some(9); 7];
    let mut sys = RenderContextSys::new();
    assert!(sys.on_tree_create(1, &tree, &has_mask, &translucent, &mut indexs));
    assert_eq!(indexs[1], Some(1));
    assert!(sys.dirty.is_empty());
    assert!(!sys.on_tree_create(2, &tree, &has_mask, &translucent, &mut indexs));
    assert_eq!(indexs[2], None);
    let mut d = sys.dirty.clone();
    d.sort();
    assert_eq!(d, vec![2, 4, 5]);
    sys.on_context_attr_change(6);
    sys.on_context_attr_change(6);
    assert!(sys.on_content_box_change(1, true, true));
    assert!(!sys.on_content_box_change(3, false, false));
    assert!(!sys.on_content_box_change(3, false, true));
    let mut d = sys.dirty.clone();
    d.sort();
    assert_eq!(d, vec![2, 3, 4, 5, 6]);
    let mut contexts: Vec<bool> = vec![false, true, false];
    let mut changed = false;
    assert!(!sys.unbind_context(2, &mut contexts, &mut changed));
    assert!(!changed);
    assert!(sys.unbind_context(1, &mut contexts, &mut changed));
    assert!(changed);
    assert_eq!(contexts, vec![false, false, false]);
}

#[test]
fn insert_id_keeps_one_copy() {
    let mut s = vec![3, 1];
    insert_id(&mut s, 1);
    insert_id(&mut s, 2);
    assert_eq!(s, vec![3, 1, 2]);
}

#[test]
fn will_change_listeners() {
    let mut tree = IdTree::with_capacity(4);
    tree.insert_child(1, 0);
    tree.insert_child(2, 1);
    let mut sys = TransformWillChangeSys::new(4);
    let mut marks: Vec<Option<StyleMark>> = vec![Some(StyleMark::default()); 6];
    sys.on_will_change_create(2, &tree, &mut marks);
    assert!(sys.dirty);
    assert_eq!(sys.will_change_mark, vec![0, 0, 2, 0]);
    assert_eq!(marks[2].unwrap().dirty_other, TY1_TRANSFORM_WILL_CHANGE);
    // a node off the tree is ignored, a node with no tree slot is counted
    sys.on_will_change_create(3, &tree, &mut marks);
    assert_eq!(sys.create_will_change_count, 0);
    sys.on_will_change_create(5, &tree, &mut marks);
    assert_eq!(sys.create_will_change_count, 1);
    sys.on_will_change_modify(1, &tree, &mut marks);
    assert_eq!(marks[1].unwrap().dirty_other, TY1_TRANSFORM_WILL_CHANGE);
    let mut matrices: Vec<Option<u8>> = vec![None, None, Some(1), None];
    sys.on_will_change_delete(2, &tree, &mut matrices);
    assert_eq!(sys.will_change_mark, vec![0, 0, 0, 0]);
    assert_eq!(matrices[2], None);
}

#[test]
fn will_change_tree_create_in_depth_first_order() {
    // 1 -> (2 -> (4, 5), 3); will-change on 4, 5 and 3
    let mut tree = IdTree::with_capacity(6);
    tree.insert_child(1, 0);
    tree.insert_child(2, 1);
    tree.insert_child(3, 1);
    tree.insert_child(4, 2);
    tree.insert_child(5, 2);
    let mut has = vec![false; 6];
    has[3] = true;
    has[4] = true;
    has[5] = true;
    let mut marks: Vec<Option<StyleMark>> = vec![Some(StyleMark::default()); 6];
    let mut sys = TransformWillChangeSys::new(6);
    // nothing counted: nothing happens
    sys.on_tree_create(1, &tree, &has, &mut marks);
    assert_eq!(sys.will_change_mark, vec![0; 6]);
    sys.create_will_change_count = 2;
    sys.on_tree_create(1, &tree, &has, &mut marks);
    // the count runs out after 4 and 5 (depth first); 3 is not recorded
    assert_eq!(sys.will_change_mark, vec![0, 0, 0, 0, 3, 3]);
    assert_eq!(sys.create_will_change_count, 0);
    assert!(sys.dirty);
    // the subtree's root is what is marked dirty
    assert_eq!(marks[1].unwrap().dirty_other, TY1_TRANSFORM_WILL_CHANGE);
    assert_eq!(marks[4].unwrap().dirty_other, 0);

    let mut sys = TransformWillChangeSys::new(6);
    sys.create_will_change_count = 5;
    sys.on_tree_create(2, &tree, &has, &mut marks);
    assert_eq!(sys.will_change_mark, vec![0, 0, 0, 0, 3, 3]);
    assert_eq!(sys.create_will_change_count, 3);
}

#[test]
fn context_index_not_below_context_child() {
    // 1 -> (2 -> (4), 3 -> (6), 5); node 3 has a render context of its own
    let mut tree = IdTree::with_capacity(7);
    tree.insert_child(1, 0);
    tree.insert_child(2, 1);
    tree.insert_child(3, 1);
    tree.insert_child(5, 1);
    tree.insert_child(4, 2);
    tree.insert_child(6, 3);
    let mut contexts: Vec<bool> = vec![false; 7];
    contexts[3] = true;
    let mut indexs: Vec<Option<usize>> = vec![None; 7];
    recursive_set_context_index(1, 1, &contexts, &mut indexs, &tree);
    // every child takes the index, later siblings of node 3 too; the nodes
    // below node 3 draw into its own context
    assert_eq!(indexs, vec![None, None, Some(1), Some(1), Some(1), Some(1), None]);
    // a leaf has nothing below it
    let mut indexs2: Vec<Option<usize>> = vec![None; 7];
    recursive_set_context_index(4, 7, &contexts, &mut indexs2, &tree);
    assert_eq!(indexs2, vec![None; 7]);
}

#[test]
fn program_dirty_objects_stay_listed() {
    let mut sys = RenderSys::new();
    let mut objs = vec![None, obj(true), obj(false)];
    sys.on_render_obj_modify(&mut objs, 2, "program_dirty");
    sys.on_render_obj_create(&mut objs, 1);
    for id in 0..3 {
        if let Some(o) = objs[id] {
            assert!(!o.program_dirty || sys.program_dirtys.contains(&id));
        }
    }
    let taken = sys.take_program_dirtys(&mut objs);
    assert_eq!(taken, vec![2, 1]);
    for id in 0..3 {
        if let Some(o) = objs[id] {
            assert!(!o.program_dirty);
        }
    }
}

#[test]
fn decide_context_actions() {
    let mut tree = IdTree::with_capacity(4);
    tree.insert_child(1, 0);
    tree.insert_child(2, 1);
    let mut marks: Vec<Option<StyleMark>> = vec![Some(StyleMark::default()); 4];
    marks[0] = None;
    // no mark, or off the tree
    assert_eq!(decide_context(&marks, &tree, 0, true, true, false), ContextAction::Skip);
    assert_eq!(decide_context(&marks, &tree, 3, true, true, false), ContextAction::Skip);
    // nothing the context depends on is dirty
    let mut m = StyleMark::default();
    m.dirty = TY_COLOR;
    marks[2] = Some(m);
    assert_eq!(decide_context(&marks, &tree, 2, true, true, false), ContextAction::Skip);
    m.dirty = TY_OPACITY;
    marks[2] = Some(m);
    assert_eq!(decide_context(&marks, &tree, 2, false, false, true), ContextAction::Unbind);
    assert_eq!(
        decide_context(&marks, &tree, 2, false, true, false),
        ContextAction::Bind(ContextWork { create: true, set_mask: false, update_geometry: true, update_matrix: true })
    );
    assert_eq!(
        decide_context(&marks, &tree, 2, false, true, true),
        ContextAction::Bind(ContextWork { create: false, set_mask: false, update_geometry: false, update_matrix: false })
    );
    m.dirty1 = TY1_MASK_TEXTURE | TY1_CONTENT_BOX;
    marks[2] = Some(m);
    assert_eq!(
        decide_context(&marks, &tree, 2, true, false, true),
        ContextAction::Bind(ContextWork { create: false, set_mask: true, update_geometry: true, update_matrix: true })
    );
}

#[test]
fn assign_context_indexs_in_order() {
    // 1 -> 2 -> (3 -> 4, 5); node 3 has a render context
    let mut tree = IdTree::with_capacity(6);
    tree.insert_child(1, 0);
    tree.insert_child(2, 1);
    tree.insert_child(3, 2);
    tree.insert_child(5, 2);
    tree.insert_child(4, 3);
    let mut contexts: Vec<bool> = vec![false; 6];
    contexts[1] = true;
    contexts[3] = true;
    let mut indexs: Vec<Option<usize>> = vec![None; 6];
    indexs[1] = Some(1);
    // node 3 gives its id to node 4; its parent has no index yet, so 3 gets none
    assign_context_indexs(&vec![3], &tree, &contexts, &mut indexs);
    assert_eq!(indexs, vec![None, Some(1), None, None, Some(3), None]);
    // node 2 takes its parent's index and passes it to 3 and 5, not to 4,
    // which is below the context of 3; a node that has an index is skipped
    assign_context_indexs(&vec![2, 3], &tree, &contexts, &mut indexs);
    assert_eq!(indexs, vec![None, Some(1), Some(1), Some(1), Some(3), Some(1)]);
}

#[test]
fn release_context_forgets_index() {
    let mut sys = RenderContextSys::new();
    let mut contexts: Vec<bool> = vec![false, true];
    let mut indexs: Vec<Option<usize>> = vec![Some(0), Some(1)];
    let mut changed = false;
    assert!(!sys.release_context(0, &mut contexts, &mut indexs, &mut changed));
    assert_eq!(indexs, vec![Some(0), Some(1)]);
    assert!(sys.release_context(1, &mut contexts, &mut indexs, &mut changed));
    assert!(changed);
    assert_eq!(indexs, vec![Some(0), None]);
    assert_eq!(contexts, vec![false, false]);
}

#[test]
fn render_matrix_marks() {
    let mut sys = RenderMatrixSys::new();
    sys.on_node_create(2);
    sys.on_node_create(0);
    assert_eq!(sys.dirtys, vec![2, 0]);
    assert_eq!(sys.dirty_mark, vec![Some(true), None, Some(true)]);
    // a marked node is not listed twice
    sys.on_world_matrix_modify(2);
    assert_eq!(sys.dirtys, vec![2, 0]);
    let taken = sys.take_dirtys();
    assert_eq!(taken, vec![2, 0]);
    assert!(sys.dirtys.is_empty());
    assert_eq!(sys.dirty_mark, vec![Some(false), None, Some(false)]);
    sys.on_world_matrix_modify(2);
    assert_eq!(sys.dirtys, vec![2]);
    sys.on_node_create(1);
    sys.on_node_delete(2);
    assert_eq!(sys.dirtys, vec![1]);
    assert_eq!(sys.dirty_mark, vec![Some(false), Some(true), None]);
    // an unmarked node leaves the list alone
    sys.on_node_delete(0);
    assert_eq!(sys.dirtys, vec![1]);
    assert_eq!(sys.dirty_mark, vec![None, Some(true), None]);
}

#[test]
fn render_context_pass() {
    // 1 -> 2 -> 3 -> 4; node 2 turns translucent, node 3 turns opaque
    let mut tree = IdTree::with_capacity(5);
    tree.insert_child(1, 0);
    tree.insert_child(2, 1);
    tree.insert_child(3, 2);
    tree.insert_child(4, 3);
    let mut marks: Vec<Option<StyleMark>> = vec![Some(StyleMark::default()); 5];
    let mut m = StyleMark::default();
    m.dirty = TY_OPACITY;
    marks[2] = Some(m);
    marks[3] = Some(m);
    let has_mask = vec![false; 5];
    let mut translucent = vec![false; 5];
    translucent[2] = true;
    let mut contexts = vec![false, true, false, true, false];
    let mut indexs: Vec<Option<usize>> = vec![None, Some(1), Some(1), Some(1), Some(3)];
    let mut sys = RenderContextSys::new();
    sys.on_context_attr_change(2);
    sys.on_context_attr_change(3);
    let (actions, changed) = sys.run(&marks, &tree, &has_mask, &translucent, &mut contexts, &mut indexs);
    assert_eq!(
        actions,
        vec![
            (2, ContextAction::Bind(ContextWork { create: true, set_mask: false, update_geometry: true, update_matrix: true })),
            (3, ContextAction::Unbind),
        ]
    );
    assert!(changed);
    assert!(sys.dirty.is_empty());
    assert_eq!(contexts, vec![false, true, true, false, false]);
    // node 2 takes its parent's index and gives its own id below it
    assert_eq!(indexs, vec![None, Some(1), Some(1), Some(2), Some(2)]);
    // nothing left to redo: nothing changes
    let (actions, changed) = sys.run(&marks, &tree, &has_mask, &translucent, &mut contexts, &mut indexs);
    assert!(actions.is_empty());
    assert!(!changed);
}

#[test]
fn render_sys_frame_pass() {
    let mut sys = RenderSys::new();
    let mut objs = vec![None, obj(true)];
    sys.on_render_obj_create(&mut objs, 1);
    sys.on_render_obj_modify(&mut objs, 0, "context");
    sys.render_count = 3;
    let mut pre: Vec<u8> = Vec::new();
    let (programs, draw) = sys.run(&mut objs, &mut pre);
    assert_eq!(programs, vec![1]);
    assert!(draw);
    assert!(!sys.dirty && !sys.is_update_context_texture);
    assert_eq!(sys.render_count, 0);
    assert!(!objs[1].unwrap().program_dirty);
    // a clean frame is not drawn
    let (programs, draw) = sys.run(&mut objs, &mut pre);
    assert!(programs.is_empty());
    assert!(!draw);
    // a pre-rendered item makes the frame dirty, and the list is emptied
    let mut pre = vec![7u8];
    let (_, draw) = sys.run(&mut objs, &mut pre);
    assert!(draw);
    assert!(pre.is_empty());
}

#[test]
fn render_objs_split_by_pass() {
    // object 0 is the context's own; 3 is invisible; 4 has a post-process
    let visible = vec![true, true, true, false, true, true];
    let post = vec![false, false, false, false, true, false];
    let opaque = vec![true, true, false, true, true, false];
    let (o, t, p) = list_render_objs(&vec![5, 0, 1, 2, 3, 4], 0, &visible, &post, &opaque);
    assert_eq!(o, vec![1]);
    assert_eq!(t, vec![5, 2]);
    assert_eq!(p, vec![4]);
}
