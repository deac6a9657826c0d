//! Render contexts: a node is drawn into a render context of its own when some
//! system (opacity, blur, mask texture, clip path) marks it. Each such system
//! owns one flag index of the nodes' `RenderContextMark`, sets or clears its
//! flag as the node's attribute changes, and remembers the nodes to redo.
use vstd::prelude::*;
use crate::id_set::{with_id, insert_id, lemma_with_id_contains};
use crate::idtree::{IdTree, TreeNode, tree_wf, in_subtree, ancestor_at, steps_up, lemma_child_subtree, lemma_subtree_child, lemma_subtree_self, lemma_subtree_parent, lemma_steps_up, lemma_ancestor_layer};
use crate::show::{lemma_take_step, lemma_not_in_take};
use crate::style_mark::StyleMark;
use crate::style_type::{TY_MATRIX, TY_OPACITY, TY_LAYOUT, TY1_MASK_TEXTURE, TY1_MASK_IMAGE_CLIP, TY1_CONTENT_BOX};

verus! {

/// The render-context flags of a node, by the flag index of the owning system.
#[derive(Debug)]
pub struct RenderContextMark {
    pub bits: Vec<bool>,
}

impl View for RenderContextMark {
    type V = Set<int>;

    /// The indices of the set flags.
    open spec fn view(&self) -> Set<int> {
        Set::new(|i: int| 0 <= i < self.bits@.len() && self.bits@[i])
    }
}

impl RenderContextMark {
    /// No flag set.
    pub fn new() -> (r: Self)
        ensures
            r@ == Set::<int>::empty(),
    {
        let r = RenderContextMark { bits: Vec::new() };
        assert(r@ =~= Set::<int>::empty());
        r
    }

    /// Sets flag `index` to `value`.
    pub fn set(&mut self, index: usize, value: bool)
        requires
            index < usize::MAX,
        ensures
            final(self)@ == if value { old(self)@.insert(index as int) } else { old(self)@.remove(index as int) },
    {
        let ghost b0 = self.bits@;
        if value {
            while self.bits.len() <= index
                invariant
                    index < usize::MAX,
                    self.bits@.len() >= b0.len(),
                    forall|i: int| 0 <= i < self.bits@.len() ==> #[trigger] self.bits@[i] == (i < b0.len() && b0[i]),
                decreases index + 1 - self.bits@.len(),
            {
                self.bits.push(false);
            }
            self.bits.set(index, true);
        } else if index < self.bits.len() {
            self.bits.set(index, false);
        }
        proof {
            let s0 = Set::new(|i: int| 0 <= i < b0.len() && b0[i]);
            assert(self@ =~= if value { s0.insert(index as int) } else { s0.remove(index as int) });
        }
    }

    /// Some flag is set.
    pub fn any(&self) -> (r: bool)
        ensures
            r == (self@ != Set::<int>::empty()),
    {
        let mut i: usize = 0;
        while i < self.bits.len()
            invariant
                i <= self.bits@.len(),
                forall|k: int| 0 <= k < i ==> !self.bits@[k],
            decreases self.bits@.len() - i,
        {
            if self.bits[i] {
                assert(self@.contains(i as int));
                return true;
            }
            i = i + 1;
        }
        assert(self@ =~= Set::<int>::empty());
        false
    }
}

/// The flags of each node slot, for the slots that hold a mark.
pub open spec fn marks_view(marks: Seq<Option<RenderContextMark>>) -> Seq<Option<Set<int>>> {
    marks.map_values(|m: Option<RenderContextMark>| match m {
        Some(m) => Some(m@),
        None => None,
    })
}

/// The flags of `id` after flag `index` was set to `value`.
pub open spec fn flag_set(marks: Seq<Option<RenderContextMark>>, id: int, index: int, value: bool) -> Seq<Option<Set<int>>> {
    let f = marks[id]->0@;
    marks_view(marks).update(id, Some(if value { f.insert(index) } else { f.remove(index) }))
}

/// Sets flag `index` of the mark of `id` to `value`.
fn set_flag(marks: &mut Vec<Option<RenderContextMark>>, id: usize, index: usize, value: bool)
    requires
        id < old(marks)@.len(),
        old(marks)@[id as int] is Some,
        index < usize::MAX,
    ensures
        marks_view(final(marks)@) == flag_set(old(marks)@, id as int, index as int, value),
{
    let ghost m0 = marks@;
    let mut slot: Option<RenderContextMark> = None;
    std::mem::swap(&mut slot, &mut marks[id]);
    let mut mark = slot.unwrap();
    mark.set(index, value);
    marks.set(id, Some(mark));
    proof {
        assert(marks_view(marks@) =~= flag_set(m0, id as int, index as int, value));
    }
}

/// The mark of slot `id` exists.
pub open spec fn has_mark(marks: Seq<Option<RenderContextMark>>, id: int) -> bool {
    0 <= id < marks.len() && marks[id] is Some
}

/// The flag index and the nodes to redo of the opacity system.
#[derive(Debug)]
pub struct OpacitySys {
    pub render_mark_index: usize,
    pub dirty: Vec<usize>,
}

/// The flag index and the nodes to redo of the blur system.
#[derive(Debug)]
pub struct BlurSys {
    pub render_mark_index: usize,
    pub dirty: Vec<usize>,
}

/// The flag index and the nodes to redo of the mask-texture system.
#[derive(Debug)]
pub struct MaskTextureSys {
    pub render_mark_index: usize,
    pub dirty: Vec<usize>,
}

/// The flag index and the nodes to redo of the clip-path system.
#[derive(Debug)]
pub struct ClipPathSys {
    pub render_mark_index: usize,
    pub dirty: Vec<usize>,
}

/// Takes the next flag index from the count of render-context attributes.
fn next_mark_index(attr_count: &mut usize) -> (r: usize)
    requires
        *old(attr_count) < usize::MAX,
    ensures
        *final(attr_count) == *old(attr_count) + 1,
        r == *final(attr_count),
{
    *attr_count = *attr_count + 1;
    *attr_count
}

impl OpacitySys {
    pub fn new() -> (r: Self)
        ensures
            r.render_mark_index == 0,
            r.dirty@ == Seq::<usize>::empty(),
    {
        OpacitySys { render_mark_index: 0, dirty: Vec::new() }
    }

    /// Takes the next flag index.
    pub fn setup(&mut self, attr_count: &mut usize)
        requires
            *old(attr_count) < usize::MAX,
        ensures
            *final(attr_count) == *old(attr_count) + 1,
            final(self).render_mark_index == *final(attr_count),
            final(self).dirty@ == old(self).dirty@,
    {
        self.render_mark_index = next_mark_index(attr_count);
    }

    /// The opacity of `id` was created or changed: the node is redone and
    /// flagged exactly when it is translucent (opacity below 1).
    pub fn on_opacity_change(&mut self, marks: &mut Vec<Option<RenderContextMark>>, id: usize, translucent: bool)
        requires
            has_mark(old(marks)@, id as int),
            old(self).render_mark_index < usize::MAX,
        ensures
            final(self).dirty@ == with_id(old(self).dirty@, id),
            final(self).render_mark_index == old(self).render_mark_index,
            marks_view(final(marks)@) == flag_set(old(marks)@, id as int, old(self).render_mark_index as int, translucent),
    {
        insert_id(&mut self.dirty, id);
        set_flag(marks, id, self.render_mark_index, translucent);
    }

    /// The opacity of `id` was deleted: the node is redone and unflagged.
    pub fn on_opacity_delete(&mut self, marks: &mut Vec<Option<RenderContextMark>>, id: usize)
        requires
            has_mark(old(marks)@, id as int),
            old(self).render_mark_index < usize::MAX,
        ensures
            final(self).dirty@ == with_id(old(self).dirty@, id),
            final(self).render_mark_index == old(self).render_mark_index,
            marks_view(final(marks)@) == flag_set(old(marks)@, id as int, old(self).render_mark_index as int, false),
    {
        insert_id(&mut self.dirty, id);
        set_flag(marks, id, self.render_mark_index, false);
    }
}

impl BlurSys {
    pub fn new() -> (r: Self)
        ensures
            r.render_mark_index == 0,
            r.dirty@ == Seq::<usize>::empty(),
    {
        BlurSys { render_mark_index: 0, dirty: Vec::new() }
    }

    /// Takes the next flag index.
    pub fn setup(&mut self, attr_count: &mut usize)
        requires
            *old(attr_count) < usize::MAX,
        ensures
            *final(attr_count) == *old(attr_count) + 1,
            final(self).render_mark_index == *final(attr_count),
            final(self).dirty@ == old(self).dirty@,
    {
        self.render_mark_index = next_mark_index(attr_count);
    }

    /// The blur of `id` was created or changed: the node is redone and
    /// flagged exactly when it is blurred (a radius other than 0).
    pub fn on_blur_change(&mut self, marks: &mut Vec<Option<RenderContextMark>>, id: usize, blurred: bool)
        requires
            has_mark(old(marks)@, id as int),
            old(self).render_mark_index < usize::MAX,
        ensures
            final(self).dirty@ == with_id(old(self).dirty@, id),
            final(self).render_mark_index == old(self).render_mark_index,
            marks_view(final(marks)@) == flag_set(old(marks)@, id as int, old(self).render_mark_index as int, blurred),
    {
        insert_id(&mut self.dirty, id);
        set_flag(marks, id, self.render_mark_index, blurred);
    }

    /// The blur of `id` was deleted: the node is redone and unflagged.
    pub fn on_blur_delete(&mut self, marks: &mut Vec<Option<RenderContextMark>>, id: usize)
        requires
            has_mark(old(marks)@, id as int),
            old(self).render_mark_index < usize::MAX,
        ensures
            final(self).dirty@ == with_id(old(self).dirty@, id),
            final(self).render_mark_index == old(self).render_mark_index,
            marks_view(final(marks)@) == flag_set(old(marks)@, id as int, old(self).render_mark_index as int, false),
    {
        insert_id(&mut self.dirty, id);
        set_flag(marks, id, self.render_mark_index, false);
    }
}

impl MaskTextureSys {
    pub fn new() -> (r: Self)
        ensures
            r.render_mark_index == 0,
            r.dirty@ == Seq::<usize>::empty(),
    {
        MaskTextureSys { render_mark_index: 0, dirty: Vec::new() }
    }

    /// Takes the next flag index.
    pub fn setup(&mut self, attr_count: &mut usize)
        requires
            *old(attr_count) < usize::MAX,
        ensures
            *final(attr_count) == *old(attr_count) + 1,
            final(self).render_mark_index == *final(attr_count),
            final(self).dirty@ == old(self).dirty@,
    {
        self.render_mark_index = next_mark_index(attr_count);
    }

    /// The mask texture of `id` was created or changed: the node is redone
    /// and flagged.
    pub fn on_mask_texture_change(&mut self, marks: &mut Vec<Option<RenderContextMark>>, id: usize)
        requires
            has_mark(old(marks)@, id as int),
            old(self).render_mark_index < usize::MAX,
        ensures
            final(self).dirty@ == with_id(old(self).dirty@, id),
            final(self).render_mark_index == old(self).render_mark_index,
            marks_view(final(marks)@) == flag_set(old(marks)@, id as int, old(self).render_mark_index as int, true),
    {
        insert_id(&mut self.dirty, id);
        set_flag(marks, id, self.render_mark_index, true);
    }

    /// The bounding box of `id` was created or changed: a node with a mark
    /// is redone.
    pub fn on_oct_change(&mut self, marks: &Vec<Option<RenderContextMark>>, id: usize)
        ensures
            final(self).dirty@ == if has_mark(marks@, id as int) {
                with_id(old(self).dirty@, id)
            } else {
                old(self).dirty@
            },
            final(self).render_mark_index == old(self).render_mark_index,
    {
        if id < marks.len() && marks[id].is_some() {
            insert_id(&mut self.dirty, id);
        }
    }

    /// The mask texture of `id` was deleted: the node is redone and unflagged.
    pub fn on_mask_texture_delete(&mut self, marks: &mut Vec<Option<RenderContextMark>>, id: usize)
        requires
            has_mark(old(marks)@, id as int),
            old(self).render_mark_index < usize::MAX,
        ensures
            final(self).dirty@ == with_id(old(self).dirty@, id),
            final(self).render_mark_index == old(self).render_mark_index,
            marks_view(final(marks)@) == flag_set(old(marks)@, id as int, old(self).render_mark_index as int, false),
    {
        insert_id(&mut self.dirty, id);
        set_flag(marks, id, self.render_mark_index, false);
    }
}

impl ClipPathSys {
    pub fn new() -> (r: Self)
        ensures
            r.render_mark_index == 0,
            r.dirty@ == Seq::<usize>::empty(),
    {
        ClipPathSys { render_mark_index: 0, dirty: Vec::new() }
    }

    /// Takes the next flag index.
    pub fn setup(&mut self, attr_count: &mut usize)
        requires
            *old(attr_count) < usize::MAX,
        ensures
            *final(attr_count) == *old(attr_count) + 1,
            final(self).render_mark_index == *final(attr_count),
            final(self).dirty@ == old(self).dirty@,
    {
        self.render_mark_index = next_mark_index(attr_count);
    }

    /// The clip path of `id` was created or changed: the node is redone and
    /// flagged.
    pub fn on_clip_path_change(&mut self, marks: &mut Vec<Option<RenderContextMark>>, id: usize)
        requires
            has_mark(old(marks)@, id as int),
            old(self).render_mark_index < usize::MAX,
        ensures
            final(self).dirty@ == with_id(old(self).dirty@, id),
            final(self).render_mark_index == old(self).render_mark_index,
            marks_view(final(marks)@) == flag_set(old(marks)@, id as int, old(self).render_mark_index as int, true),
    {
        insert_id(&mut self.dirty, id);
        set_flag(marks, id, self.render_mark_index, true);
    }

    /// The clip path of `id` was deleted: the node is redone and unflagged.
    pub fn on_clip_path_delete(&mut self, marks: &mut Vec<Option<RenderContextMark>>, id: usize)
        requires
            has_mark(old(marks)@, id as int),
            old(self).render_mark_index < usize::MAX,
        ensures
            final(self).dirty@ == with_id(old(self).dirty@, id),
            final(self).render_mark_index == old(self).render_mark_index,
            marks_view(final(marks)@) == flag_set(old(marks)@, id as int, old(self).render_mark_index as int, false),
    {
        insert_id(&mut self.dirty, id);
        set_flag(marks, id, self.render_mark_index, false);
    }

    /// The content box of `id` was created or changed: a node with a clip
    /// path is redone and its flag is cleared; any other node is left alone.
    pub fn on_content_box_change(
        &mut self,
        marks: &mut Vec<Option<RenderContextMark>>,
        id: usize,
        has_clip_path: bool,
    )
        requires
            has_clip_path ==> has_mark(old(marks)@, id as int),
            old(self).render_mark_index < usize::MAX,
        ensures
            final(self).render_mark_index == old(self).render_mark_index,
            !has_clip_path ==> final(self).dirty@ == old(self).dirty@ && final(marks)@ == old(marks)@,
            has_clip_path ==> final(self).dirty@ == with_id(old(self).dirty@, id) && marks_view(final(marks)@)
                == flag_set(old(marks)@, id as int, old(self).render_mark_index as int, false),
    {
        if !has_clip_path {
            return ;
        }
        insert_id(&mut self.dirty, id);
        set_flag(marks, id, self.render_mark_index, false);
    }
}

/// Node `x` needs a render context of its own: it has a mask image or is
/// translucent.
pub open spec fn needs_context(has_mask: Seq<bool>, translucent: Seq<bool>, x: int) -> bool {
    has_mask[x] || translucent[x]
}

/// The nodes whose render context the render-context system must redo.
#[derive(Debug)]
pub struct RenderContextSys {
    pub dirty: Vec<usize>,
}

/// Adds to `set` every node of the subtree of `id` (itself included) that
/// needs a render context.
fn mark_subtree(
    id: usize,
    idtree: &IdTree,
    has_mask: &Vec<bool>,
    translucent: &Vec<bool>,
    set: &mut Vec<usize>,
)
    requires
        tree_wf(idtree.nodes@),
        has_mask@.len() == idtree.nodes@.len(),
        translucent@.len() == idtree.nodes@.len(),
        id < idtree.nodes@.len(),
        idtree.nodes@[id as int].layer > 0,
    ensures
        forall|v: usize|
            #[trigger] final(set)@.contains(v) <==> old(set)@.contains(v) || (in_subtree(
                idtree.nodes@,
                v as int,
                id as int,
            ) && needs_context(has_mask@, translucent@, v as int)),
        old(set)@.no_duplicates() ==> final(set)@.no_duplicates(),
    decreases usize::MAX - idtree.nodes@[id as int].layer,
{
    let ghost t = idtree.nodes@;
    let ghost s0 = set@;
    let ghost L = t[id as int].layer as int;
    proof {
        lemma_subtree_self(t, id as int);
    }
    if has_mask[id] || translucent[id] {
        insert_id(set, id);
        proof {
            lemma_with_id_contains(s0, id);
        }
    }
    let ghost s1 = set@;
    let children = &idtree.nodes[id].children;
    let mut j: usize = 0;
    while j < children.len()
        invariant
            tree_wf(t),
            t == idtree.nodes@,
            has_mask@.len() == t.len(),
            translucent@.len() == t.len(),
            id < t.len(),
            L == t[id as int].layer,
            L > 0,
            in_subtree(t, id as int, id as int),
            *children == t[id as int].children,
            j <= children@.len(),
            s0.no_duplicates() ==> set@.no_duplicates(),
            forall|v: usize|
                #[trigger] set@.contains(v) <==> s0.contains(v) || (v == id && needs_context(
                    has_mask@,
                    translucent@,
                    v as int,
                )) || (in_subtree(t, v as int, id as int) && v != id && children@.take(j as int).contains(
                    ancestor_at(t, v as int, L + 1) as usize,
                ) && needs_context(has_mask@, translucent@, v as int)),
        decreases children@.len() - j,
    {
        let c = children[j];
        proof {
            assert(t[id as int].children@[j as int] == c);
            assert(0 < c < t.len() && t[c as int].layer == L + 1);
        }
        let ghost prev = set@;
        mark_subtree(c, idtree, has_mask, translucent, set);
        proof {
            lemma_take_step(children@, j as int);
            assert forall|v: usize|
                #[trigger] set@.contains(v) <==> s0.contains(v) || (v == id && needs_context(
                    has_mask@,
                    translucent@,
                    v as int,
                )) || (in_subtree(t, v as int, id as int) && v != id && children@.take(j + 1).contains(
                    ancestor_at(t, v as int, L + 1) as usize,
                ) && needs_context(has_mask@, translucent@, v as int)) by {
                let a = ancestor_at(t, v as int, L + 1) as usize;
                if in_subtree(t, v as int, c as int) {
                    lemma_child_subtree(t, id as int, j as int, v as int);
                }
                if in_subtree(t, v as int, id as int) && v != id && a == c {
                    lemma_subtree_child(t, v as int, id as int);
                }
                assert(prev.contains(v) == (s0.contains(v) || (v == id && needs_context(
                    has_mask@,
                    translucent@,
                    v as int,
                )) || (in_subtree(t, v as int, id as int) && v != id && children@.take(j as int).contains(a)
                    && needs_context(has_mask@, translucent@, v as int))));
            }
        }
        j = j + 1;
    }
    proof {
        assert(children@.take(children@.len() as int) =~= children@);
        assert forall|v: usize| #[trigger] set@.contains(v) <==> s0.contains(v) || (in_subtree(
            t,
            v as int,
            id as int,
        ) && needs_context(has_mask@, translucent@, v as int)) by {
            if in_subtree(t, v as int, id as int) && v != id {
                lemma_subtree_child(t, v as int, id as int);
            }
        }
    }
}

impl RenderContextSys {
    pub fn new() -> (r: Self)
        ensures
            r.dirty@ == Seq::<usize>::empty(),
    {
        RenderContextSys { dirty: Vec::new() }
    }

    /// The mask texture or the opacity of `id` was created, changed or
    /// deleted: the node is redone.
    pub fn on_context_attr_change(&mut self, id: usize)
        ensures
            final(self).dirty@ == with_id(old(self).dirty@, id),
    {
        insert_id(&mut self.dirty, id);
    }

    /// The content box of `id` was created or changed. Returns whether `id`
    /// is the root (node 1), whose context box the caller then refreshes;
    /// another node is redone when it needs a render context.
    pub fn on_content_box_change(&mut self, id: usize, has_mask: bool, translucent: bool) -> (is_root: bool)
        ensures
            is_root == (id == 1),
            final(self).dirty@ == if id != 1 && (has_mask || translucent) {
                with_id(old(self).dirty@, id)
            } else {
                old(self).dirty@
            },
    {
        if id == 1 {
            return true;
        }
        if has_mask || translucent {
            insert_id(&mut self.dirty, id);
        }
        false
    }

    /// Node `id` was put on the tree with its subtree. The root (node 1) gets
    /// context index 1 and `true` is returned: the caller creates its render
    /// context. Any other node is redone and loses its context index, and so
    /// is every node below it that needs a render context.
    pub fn on_tree_create(
        &mut self,
        id: usize,
        idtree: &IdTree,
        has_mask: &Vec<bool>,
        translucent: &Vec<bool>,
        context_indexs: &mut Vec<Option<usize>>,
    ) -> (is_root: bool)
        requires
            tree_wf(idtree.nodes@),
            has_mask@.len() == idtree.nodes@.len(),
            translucent@.len() == idtree.nodes@.len(),
            old(context_indexs)@.len() == idtree.nodes@.len(),
            id < idtree.nodes@.len(),
            idtree.nodes@[id as int].layer > 0,
        ensures
            is_root == (id == 1),
            is_root ==> final(self).dirty@ == old(self).dirty@
                && final(context_indexs)@ == old(context_indexs)@.update(1, Some(1usize)),
            !is_root ==> final(context_indexs)@ == old(context_indexs)@.update(id as int, None),
            !is_root ==> forall|v: usize|
                #[trigger] final(self).dirty@.contains(v) <==> old(self).dirty@.contains(v) || v == id || (
                in_subtree(idtree.nodes@, v as int, id as int) && needs_context(
                    has_mask@,
                    translucent@,
                    v as int,
                )),
            old(self).dirty@.no_duplicates() ==> final(self).dirty@.no_duplicates(),
    {
        if id == 1 {
            context_indexs.set(1, Some(1));
            return true;
        }
        insert_id(&mut self.dirty, id);
        context_indexs.set(id, None);
        let ghost s1 = self.dirty@;
        mark_subtree(id, idtree, has_mask, translucent, &mut self.dirty);
        proof {
            assert forall|v: usize|
                #[trigger] self.dirty@.contains(v) <==> old(self).dirty@.contains(v) || v == id || (
                in_subtree(idtree.nodes@, v as int, id as int) && needs_context(
                    has_mask@,
                    translucent@,
                    v as int,
                )) by {
                lemma_with_id_contains(old(self).dirty@, id);
            }
        }
        false
    }

    /// Node `id` needs no render context: its context, if any, is removed,
    /// the render targets are marked changed and its context index is
    /// forgotten. Returns whether it had one.
    pub fn release_context(
        &mut self,
        id: usize,
        has_context: &mut Vec<bool>,
        context_indexs: &mut Vec<Option<usize>>,
        render_target_change: &mut bool,
    ) -> (r: bool)
        ensures
            r == (id < old(has_context)@.len() && old(has_context)@[id as int]),
            r ==> final(has_context)@ == old(has_context)@.update(id as int, false)
                && *final(render_target_change)
                && final(context_indexs)@ == if id < old(context_indexs)@.len() {
                    old(context_indexs)@.update(id as int, None)
                } else {
                    old(context_indexs)@
                },
            !r ==> final(has_context)@ == old(has_context)@
                && *final(render_target_change) == *old(render_target_change)
                && final(context_indexs)@ == old(context_indexs)@,
            final(self).dirty@ == old(self).dirty@,
    {
        if self.unbind_context(id, has_context, render_target_change) {
            if id < context_indexs.len() {
                context_indexs.set(id, None);
            }
            true
        } else {
            false
        }
    }

    /// Unbinds the render context of `id`, if there is one: it is removed and
    /// the render targets are marked changed. Returns whether there was one.
    pub fn unbind_context(
        &mut self,
        id: usize,
        has_context: &mut Vec<bool>,
        render_target_change: &mut bool,
    ) -> (r: bool)
        ensures
            r == (id < old(has_context)@.len() && old(has_context)@[id as int]),
            r ==> final(has_context)@ == old(has_context)@.update(id as int, false)
                && *final(render_target_change),
            !r ==> final(has_context)@ == old(has_context)@
                && *final(render_target_change) == *old(render_target_change),
            final(self).dirty@ == old(self).dirty@,
    {
        if id < has_context.len() && has_context[id] {
            has_context.set(id, false);
            *render_target_change = true;
            true
        } else {
            false
        }
    }
}

/// Walking up from `y` to `id`, no node passed before `id` (`y` included)
/// has a render context of its own.
pub open spec fn open_below(t: Seq<TreeNode>, ctxs: Seq<bool>, y: int, id: int) -> bool
    decreases t[y].layer,
{
    if y == id {
        true
    } else if steps_up(t, y) && t[y].layer > t[id].layer {
        !ctxs[y] && open_below(t, ctxs, t[y].parent as int, id)
    } else {
        false
    }
}

/// The nodes below `id` that draw into the render context `id` draws into:
/// those whose path up to `id` passes through no other node with a render
/// context. A child with a render context of its own takes the index, but
/// the nodes below it do not.
pub open spec fn context_index_set(t: Seq<TreeNode>, ctxs: Seq<bool>, id: int) -> Set<int> {
    Set::new(|x: int| x != id && in_subtree(t, x, id) && open_below(t, ctxs, t[x].parent as int, id))
}

/// The context indices after the nodes of `s` were given context index `index`.
pub open spec fn with_context_index(ci: Seq<Option<usize>>, s: Set<int>, index: usize) -> Seq<Option<usize>> {
    Seq::new(ci.len(), |x: int| if s.contains(x) { Some(index) } else { ci[x] })
}

/// The nodes of `context_index_set(t, ctxs, id)` below the children `cs` of `id`.
spec fn context_index_among(t: Seq<TreeNode>, ctxs: Seq<bool>, id: int, cs: Seq<usize>) -> Set<int> {
    Set::new(
        |x: int|
            context_index_set(t, ctxs, id).contains(x) && cs.contains(ancestor_at(t, x, t[id].layer + 1) as usize),
    )
}

/// Below a child `c` of `id`, the path up to `id` is open exactly when the
/// path up to `c` is and `c` has no render context.
proof fn lemma_open_below_child(t: Seq<TreeNode>, ctxs: Seq<bool>, c: int, id: int, y: int)
    requires
        tree_wf(t),
        0 <= id < t.len(),
        0 < c < t.len(),
        t[c].parent == id,
        t[c].layer == t[id].layer + 1,
        in_subtree(t, y, c),
    ensures
        open_below(t, ctxs, y, id) == (open_below(t, ctxs, y, c) && !ctxs[c]),
    decreases t[y].layer,
{
    if y == c {
        assert(steps_up(t, c));
        assert(open_below(t, ctxs, id, id));
    } else {
        lemma_subtree_parent(t, y, c);
        lemma_open_below_child(t, ctxs, c, id, t[y].parent as int);
    }
}

/// The nodes of `context_index_set(t, ctxs, id)` below child `k` of `id`
/// are that child and, when it has no render context, the nodes of its own
/// set.
proof fn lemma_context_index_child(t: Seq<TreeNode>, ctxs: Seq<bool>, id: int, k: int, x: int)
    requires
        tree_wf(t),
        0 <= id < t.len(),
        t[id].layer > 0,
        0 <= k < t[id].children@.len(),
    ensures
        (context_index_set(t, ctxs, id).contains(x) && ancestor_at(t, x, t[id].layer + 1) == t[id].children@[k]
            as int) <==> (x == t[id].children@[k] as int || (!ctxs[t[id].children@[k] as int]
            && context_index_set(t, ctxs, t[id].children@[k] as int).contains(x))),
{
    let c = t[id].children@[k] as int;
    assert(0 < c < t.len() && t[c].parent == id && t[c].layer == t[id].layer + 1);
    lemma_subtree_self(t, c);
    if in_subtree(t, x, c) {
        lemma_child_subtree(t, id, k, x);
        if x == c {
            assert(open_below(t, ctxs, id, id));
            assert(context_index_set(t, ctxs, id).contains(x));
        } else {
            lemma_subtree_parent(t, x, c);
            lemma_open_below_child(t, ctxs, c, id, t[x].parent as int);
        }
    } else {
        if context_index_set(t, ctxs, id).contains(x) && ancestor_at(t, x, t[id].layer + 1) == c {
            lemma_subtree_child(t, x, id);
        }
    }
}

/// Gives context index `index` to the nodes below `id` that draw into the
/// same render context: each child, and the subtree of each child that has
/// no render context of its own.
pub fn recursive_set_context_index(
    id: usize,
    index: usize,
    has_context: &Vec<bool>,
    context_indexs: &mut Vec<Option<usize>>,
    idtree: &IdTree,
)
    requires
        tree_wf(idtree.nodes@),
        id < idtree.nodes@.len(),
        has_context@.len() == idtree.nodes@.len(),
        old(context_indexs)@.len() == idtree.nodes@.len(),
    ensures
        final(context_indexs)@ == with_context_index(
            old(context_indexs)@,
            context_index_set(idtree.nodes@, has_context@, id as int),
            index,
        ),
    decreases usize::MAX - idtree.nodes@[id as int].layer,
{
    let ghost t = idtree.nodes@;
    let ghost ctxs = has_context@;
    let ghost ci0 = context_indexs@;
    let children = &idtree.nodes[id].children;
    if idtree.nodes[id].layer == 0 {
        proof {
            assert(context_index_set(t, ctxs, id as int) =~= Set::<int>::empty());
            assert(context_indexs@ =~= with_context_index(ci0, context_index_set(t, ctxs, id as int), index));
        }
        return ;
    }
    let mut j: usize = 0;
    proof {
        assert(context_index_among(t, ctxs, id as int, children@.take(0)) =~= Set::<int>::empty());
        assert(context_indexs@ =~= with_context_index(
            ci0,
            context_index_among(t, ctxs, id as int, children@.take(0)),
            index,
        ));
    }
    while j < children.len()
        invariant
            tree_wf(t),
            t == idtree.nodes@,
            ctxs == has_context@,
            ctxs.len() == t.len(),
            id < t.len(),
            t[id as int].layer > 0,
            *children == t[id as int].children,
            j <= children@.len(),
            ci0.len() == t.len(),
            ci0 == old(context_indexs)@,
            context_indexs@ == with_context_index(
                ci0,
                context_index_among(t, ctxs, id as int, children@.take(j as int)),
                index,
            ),
        decreases children@.len() - j,
    {
        let c = children[j];
        proof {
            assert(t[id as int].children@[j as int] == c);
            assert(0 < c < t.len() && t[c as int].layer == t[id as int].layer + 1);
        }
        context_indexs.set(c, Some(index));
        if !has_context[c] {
            recursive_set_context_index(c, index, has_context, context_indexs, idtree);
        }
        proof {
            lemma_take_step(children@, j as int);
            let a0 = context_index_among(t, ctxs, id as int, children@.take(j as int));
            let a1 = context_index_among(t, ctxs, id as int, children@.take(j + 1));
            assert forall|x: int| #[trigger] a1.contains(x) <==> a0.contains(x) || x == c as int || (
            !ctxs[c as int] && context_index_set(t, ctxs, c as int).contains(x)) by {
                lemma_context_index_child(t, ctxs, id as int, j as int, x);
                if context_index_set(t, ctxs, id as int).contains(x) {
                    lemma_subtree_child(t, x, id as int);
                    lemma_ancestor_layer(t, x, t[id as int].layer + 1);
                }
                let a = ancestor_at(t, x, t[id as int].layer + 1) as usize;
                assert(children@.take(j + 1).contains(a) <==> (children@.take(j as int).contains(a) || a == c));
            }
            assert(context_indexs@ =~= with_context_index(ci0, a1, index));
        }
        j = j + 1;
    }
    proof {
        assert(children@.take(children@.len() as int) =~= children@);
        assert forall|x: int|
            #[trigger] context_index_set(t, ctxs, id as int).contains(x) implies context_index_among(
            t,
            ctxs,
            id as int,
            children@,
        ).contains(x) by {
            lemma_subtree_child(t, x, id as int);
        }
        assert(context_index_among(t, ctxs, id as int, children@) =~= context_index_set(t, ctxs, id as int));
    }
}

/// The group-0 flags on which a render context depends: matrix, opacity, layout.
pub const CONTEXT_DIRTY: u64 = TY_MATRIX | TY_OPACITY | TY_LAYOUT;
/// The group-1 flags on which a render context depends: mask texture, mask
/// clip, content box.
pub const CONTEXT_DIRTY1: u64 = TY1_MASK_TEXTURE | TY1_MASK_IMAGE_CLIP | TY1_CONTENT_BOX;

/// What is redone for a node that keeps or gets a render context.
#[derive(Clone, Copy, Debug, PartialEq, Eq)]
pub struct ContextWork {
    /// The node has no render context yet: one is created (and its context
    /// index is forgotten).
    pub create: bool,
    /// The mask texture changed and there is one: it is bound.
    pub set_mask: bool,
    /// The quad and the content box are recomputed.
    pub update_geometry: bool,
    /// The view matrix is recomputed.
    pub update_matrix: bool,
}

/// What the render-context pass does for a node it was asked to redo.
#[derive(Clone, Copy, Debug, PartialEq, Eq)]
pub enum ContextAction {
    /// Nothing: the node has no mark, is off the tree, or nothing its render
    /// context depends on is dirty.
    Skip,
    /// The node needs no render context: its context, if any, is removed.
    Unbind,
    /// The node needs a render context.
    Bind(ContextWork),
}

/// The action for node `id` with mark `marks[id]`, whether it has a mask
/// texture, whether it is translucent and whether it has a render context.
pub open spec fn context_action(
    marks: Seq<Option<StyleMark>>,
    t: Seq<TreeNode>,
    id: int,
    has_mask_texture: bool,
    translucent: bool,
    has_context: bool,
) -> ContextAction {
    if !(0 <= id < marks.len() && marks[id] is Some) || t[id].layer == 0 {
        ContextAction::Skip
    } else {
        let m = marks[id]->0;
        if m.dirty & CONTEXT_DIRTY == 0 && m.dirty1 & CONTEXT_DIRTY1 == 0 {
            ContextAction::Skip
        } else if !has_mask_texture && !translucent {
            ContextAction::Unbind
        } else {
            ContextAction::Bind(
                ContextWork {
                    create: !has_context,
                    set_mask: m.dirty1 & TY1_MASK_TEXTURE != 0 && has_mask_texture,
                    update_geometry: !has_context || m.dirty1 & CONTEXT_DIRTY1 != 0,
                    update_matrix: !has_context || m.dirty1 & TY1_CONTENT_BOX != 0,
                },
            )
        }
    }
}

/// A dirty word meets the render-context flags of its group exactly when it
/// meets one of them.
proof fn lemma_meets_any(d: u64)
    ensures
        (d & CONTEXT_DIRTY != 0) == (d & TY_MATRIX != 0 || d & TY_OPACITY != 0 || d & TY_LAYOUT != 0),
        (d & CONTEXT_DIRTY1 != 0) == (d & TY1_MASK_TEXTURE != 0 || d & TY1_MASK_IMAGE_CLIP != 0 || d
            & TY1_CONTENT_BOX != 0),
{
    assert((d & CONTEXT_DIRTY != 0) == (d & TY_MATRIX != 0 || d & TY_OPACITY != 0 || d & TY_LAYOUT != 0))
        by (bit_vector);
    assert((d & CONTEXT_DIRTY1 != 0) == (d & TY1_MASK_TEXTURE != 0 || d & TY1_MASK_IMAGE_CLIP != 0 || d
        & TY1_CONTENT_BOX != 0)) by (bit_vector);
}

/// What the render-context pass does for a node on the tree with a mark:
/// nothing unless its matrix, opacity or layout, or its mask texture, mask
/// clip or content box changed; otherwise its context is removed when it has
/// neither a mask texture nor a translucent opacity, and bound otherwise. A
/// bound context is created exactly when the node has none; its quad and
/// content box are recomputed exactly when it is created or its mask
/// texture, mask clip or content box changed; its view matrix exactly when
/// it is created or its content box changed, so never without the quad; and
/// the mask texture is bound exactly when it changed and the node has one.
/// A node without a mark or off the tree is skipped.
pub proof fn lemma_context_decision(
    marks: Seq<Option<StyleMark>>,
    t: Seq<TreeNode>,
    id: int,
    has_mask_texture: bool,
    translucent: bool,
    has_context: bool,
)
    ensures
        ({
            let a = context_action(marks, t, id, has_mask_texture, translucent, has_context);
            let on = 0 <= id < marks.len() && marks[id] is Some && t[id].layer != 0;
            let d0 = marks[id]->0.dirty;
            let d1 = marks[id]->0.dirty1;
            let changed = d0 & TY_MATRIX != 0 || d0 & TY_OPACITY != 0 || d0 & TY_LAYOUT != 0 || d1
                & TY1_MASK_TEXTURE != 0 || d1 & TY1_MASK_IMAGE_CLIP != 0 || d1 & TY1_CONTENT_BOX != 0;
            &&& (a is Skip) == (!on || !changed)
            &&& (a is Unbind) == (on && changed && !has_mask_texture && !translucent)
            &&& (a is Bind) == (on && changed && (has_mask_texture || translucent))
            &&& a is Bind ==> {
                let w = a->0;
                &&& w.create == !has_context
                &&& w.update_geometry == (w.create || d1 & TY1_MASK_TEXTURE != 0 || d1 & TY1_MASK_IMAGE_CLIP != 0
                    || d1 & TY1_CONTENT_BOX != 0)
                &&& w.update_matrix == (w.create || d1 & TY1_CONTENT_BOX != 0)
                &&& w.update_matrix ==> w.update_geometry
                &&& w.set_mask == (has_mask_texture && d1 & TY1_MASK_TEXTURE != 0)
                &&& w.set_mask ==> w.update_geometry
            }
        }),
{
    if 0 <= id < marks.len() && marks[id] is Some {
        lemma_meets_any(marks[id]->0.dirty);
        lemma_meets_any(marks[id]->0.dirty1);
    }
}

/// Decides what the render-context pass does for node `id`.
pub fn decide_context(
    style_marks: &Vec<Option<StyleMark>>,
    idtree: &IdTree,
    id: usize,
    has_mask_texture: bool,
    translucent: bool,
    has_context: bool,
) -> (r: ContextAction)
    requires
        id < style_marks@.len() && style_marks@[id as int] is Some ==> id < idtree.nodes@.len(),
    ensures
        r == context_action(style_marks@, idtree.nodes@, id as int, has_mask_texture, translucent, has_context),
{
    let m = if id < style_marks.len() {
        match style_marks[id] {
            Some(m) => m,
            None => return ContextAction::Skip,
        }
    } else {
        return ContextAction::Skip;
    };
    if idtree.nodes[id].layer == 0 {
        return ContextAction::Skip;
    }
    if m.dirty & CONTEXT_DIRTY == 0 && m.dirty1 & CONTEXT_DIRTY1 == 0 {
        return ContextAction::Skip;
    }
    if !has_mask_texture && !translucent {
        return ContextAction::Unbind;
    }
    ContextAction::Bind(
        ContextWork {
            create: !has_context,
            set_mask: m.dirty1 & TY1_MASK_TEXTURE != 0 && has_mask_texture,
            update_geometry: !has_context || m.dirty1 & CONTEXT_DIRTY1 != 0,
            update_matrix: !has_context || m.dirty1 & TY1_CONTENT_BOX != 0,
        },
    )
}

/// The context indices after node `id` of the redone nodes was handled: a
/// node on the tree without an index gets one. A node with a render context
/// gives its own id to the nodes below it that draw into it, then takes the
/// index of its parent, if the parent has one; another node takes its
/// parent's index, if any, and passes it below.
pub open spec fn context_index_step(
    t: Seq<TreeNode>,
    ctxs: Seq<bool>,
    ci: Seq<Option<usize>>,
    id: usize,
) -> Seq<Option<usize>> {
    if !(id < t.len()) || t[id as int].layer == 0 || ci[id as int] is Some {
        ci
    } else {
        let p = t[id as int].parent as int;
        if ctxs[id as int] {
            let ci1 = with_context_index(ci, context_index_set(t, ctxs, id as int), id);
            if ci1[p] is Some {
                ci1.update(id as int, ci1[p])
            } else {
                ci1
            }
        } else if ci[p] is Some {
            with_context_index(ci, context_index_set(t, ctxs, id as int), ci[p]->0).update(id as int, ci[p])
        } else {
            ci
        }
    }
}

/// The context indices after the redone nodes `ids` were handled in order.
pub open spec fn context_index_steps(
    t: Seq<TreeNode>,
    ctxs: Seq<bool>,
    ci: Seq<Option<usize>>,
    ids: Seq<usize>,
) -> Seq<Option<usize>>
    decreases ids.len(),
{
    if ids.len() == 0 {
        ci
    } else {
        context_index_step(t, ctxs, context_index_steps(t, ctxs, ci, ids.drop_last()), ids.last())
    }
}

/// After the render contexts were created and removed, gives context
/// indices to the redone nodes `dirty`, in order (see `context_index_step`).
pub fn assign_context_indexs(
    dirty: &Vec<usize>,
    idtree: &IdTree,
    has_context: &Vec<bool>,
    context_indexs: &mut Vec<Option<usize>>,
)
    requires
        tree_wf(idtree.nodes@),
        has_context@.len() == idtree.nodes@.len(),
        old(context_indexs)@.len() == idtree.nodes@.len(),
    ensures
        final(context_indexs)@ == context_index_steps(idtree.nodes@, has_context@, old(context_indexs)@, dirty@),
{
    let ghost t = idtree.nodes@;
    let ghost ctxs = has_context@;
    let ghost ci0 = context_indexs@;
    let mut i: usize = 0;
    proof {
        assert(dirty@.take(0) =~= Seq::<usize>::empty());
    }
    while i < dirty.len()
        invariant
            tree_wf(t),
            t == idtree.nodes@,
            ctxs == has_context@,
            ctxs.len() == t.len(),
            ci0.len() == t.len(),
            i <= dirty@.len(),
            context_indexs@.len() == t.len(),
            context_indexs@ == context_index_steps(t, ctxs, ci0, dirty@.take(i as int)),
        decreases dirty@.len() - i,
    {
        let id = dirty[i];
        proof {
            assert(dirty@.take(i + 1).drop_last() =~= dirty@.take(i as int));
            assert(dirty@.take(i + 1).last() == id);
        }
        let ghost before = context_indexs@;
        if id < idtree.nodes.len() && idtree.nodes[id].layer > 0 && context_indexs[id].is_none() {
            let parent = idtree.nodes[id].parent;
            proof {
                if t[id as int].layer > 1 {
                    lemma_steps_up(t, id as int);
                }
                assert(parent < t.len());
            }
            if has_context[id] {
                recursive_set_context_index(id, id, has_context, context_indexs, idtree);
                if context_indexs[parent].is_some() {
                    let v = context_indexs[parent];
                    context_indexs.set(id, v);
                }
            } else {
                match context_indexs[parent] {
                    Some(index) => {
                        recursive_set_context_index(id, index, has_context, context_indexs, idtree);
                        context_indexs.set(id, Some(index));
                    },
                    None => {},
                }
            }
        }
        proof {
            assert(context_indexs@ =~= context_index_step(t, ctxs, before, id));
        }
        i = i + 1;
    }
    proof {
        assert(dirty@.take(dirty@.len() as int) =~= dirty@);
    }
}

/// `s[id]` when `id` has a slot in `s`, else `false`.
pub open spec fn flag_at(s: Seq<bool>, id: int) -> bool {
    0 <= id < s.len() && s[id]
}

/// The action of the render-context pass for node `id`, from the state
/// before the pass.
pub open spec fn pass_action(
    marks: Seq<Option<StyleMark>>,
    t: Seq<TreeNode>,
    has_mask: Seq<bool>,
    translucent: Seq<bool>,
    has: Seq<bool>,
    id: int,
) -> ContextAction {
    context_action(marks, t, id, flag_at(has_mask, id), flag_at(translucent, id), flag_at(has, id))
}

/// Whether a node has a render context after action `a`, having had one or not.
pub open spec fn has_after(a: ContextAction, had: bool) -> bool {
    match a {
        ContextAction::Skip => had,
        ContextAction::Unbind => false,
        ContextAction::Bind(_) => true,
    }
}

/// Action `a` removes or creates a render context, so the node's context
/// index is forgotten and the render targets change.
pub open spec fn context_changed(a: ContextAction, had: bool) -> bool {
    match a {
        ContextAction::Skip => false,
        ContextAction::Unbind => had,
        ContextAction::Bind(w) => w.create,
    }
}

/// Action `a` changes the render targets: a context is removed, or a
/// context is (re)drawn.
pub open spec fn target_changed(a: ContextAction, had: bool) -> bool {
    match a {
        ContextAction::Skip => false,
        ContextAction::Unbind => had,
        ContextAction::Bind(_) => true,
    }
}

impl RenderContextSys {
    /// The render-context pass over the redone nodes. For each node, in the
    /// order of the list, the action is decided from the state before the
    /// pass (`pass_action`) and applied: `Unbind` removes the render context
    /// if there is one, `Bind` creates one if there is none; a removed or
    /// created context makes the node forget its context index. Then the
    /// context indices are given to the redone nodes in order
    /// (`context_index_steps`) and the list is emptied.
    ///
    /// Returns each node with its action, for the caller to do the drawing
    /// work, and whether the render targets changed.
    pub fn run(
        &mut self,
        style_marks: &Vec<Option<StyleMark>>,
        idtree: &IdTree,
        has_mask: &Vec<bool>,
        translucent: &Vec<bool>,
        has_context: &mut Vec<bool>,
        context_indexs: &mut Vec<Option<usize>>,
    ) -> (r: (Vec<(usize, ContextAction)>, bool))
        requires
            tree_wf(idtree.nodes@),
            forall|i: int| 0 <= i < style_marks@.len() && style_marks@[i] is Some ==> i < idtree.nodes@.len(),
            old(has_context)@.len() == idtree.nodes@.len(),
            old(context_indexs)@.len() == idtree.nodes@.len(),
            old(self).dirty@.no_duplicates(),
        ensures
            final(self).dirty@ == Seq::<usize>::empty(),
            r.0@.len() == old(self).dirty@.len(),
            forall|k: int|
                0 <= k < r.0@.len() ==> #[trigger] r.0@[k] == (
                    old(self).dirty@[k],
                    pass_action(style_marks@, idtree.nodes@, has_mask@, translucent@, old(has_context)@, old(self).dirty@[k] as int),
                ),
            r.1 == exists|k: int|
                0 <= k < old(self).dirty@.len() && #[trigger] target_changed(
                    pass_action(style_marks@, idtree.nodes@, has_mask@, translucent@, old(has_context)@, old(self).dirty@[k] as int),
                    flag_at(old(has_context)@, old(self).dirty@[k] as int),
                ),
            final(has_context)@ == pass_contexts(style_marks@, idtree.nodes@, has_mask@, translucent@, old(has_context)@, old(self).dirty@),
            final(context_indexs)@ == context_index_steps(
                idtree.nodes@,
                final(has_context)@,
                pass_forget(style_marks@, idtree.nodes@, has_mask@, translucent@, old(has_context)@, old(context_indexs)@, old(self).dirty@),
                old(self).dirty@,
            ),
    {
        let ghost t = idtree.nodes@;
        let ghost has0 = has_context@;
        let ghost ci0 = context_indexs@;
        let ghost ms = style_marks@;
        let mut dirty: Vec<usize> = Vec::new();
        std::mem::swap(&mut dirty, &mut self.dirty);
        let ghost d = dirty@;
        let mut actions: Vec<(usize, ContextAction)> = Vec::new();
        let mut change = false;
        let mut i: usize = 0;
        proof {
            assert(d.take(0) =~= Seq::<usize>::empty());
        }
        while i < dirty.len()
            invariant
                tree_wf(t),
                t == idtree.nodes@,
                ms == style_marks@,
                forall|x: int| 0 <= x < ms.len() && ms[x] is Some ==> x < t.len(),
                d == dirty@,
                d.no_duplicates(),
                self.dirty@ == Seq::<usize>::empty(),
                i <= d.len(),
                has0.len() == t.len(),
                ci0.len() == t.len(),
                has_context@.len() == t.len(),
                context_indexs@.len() == t.len(),
                forall|x: int|
                    0 <= x < t.len() ==> #[trigger] has_context@[x] == if d.take(i as int).contains(x as usize) {
                        has_after(pass_action(ms, t, has_mask@, translucent@, has0, x), has0[x])
                    } else {
                        has0[x]
                    },
                forall|x: int|
                    0 <= x < t.len() ==> #[trigger] context_indexs@[x] == if d.take(i as int).contains(x as usize)
                        && context_changed(pass_action(ms, t, has_mask@, translucent@, has0, x), has0[x]) {
                        None
                    } else {
                        ci0[x]
                    },
                actions@.len() == i,
                forall|k: int|
                    0 <= k < i ==> #[trigger] actions@[k] == (d[k], pass_action(ms, t, has_mask@, translucent@, has0, d[k] as int)),
                change == exists|k: int|
                    0 <= k < i && #[trigger] target_changed(
                        pass_action(ms, t, has_mask@, translucent@, has0, d[k] as int),
                        flag_at(has0, d[k] as int),
                    ),
            decreases d.len() - i,
        {
            let id = dirty[i];
            let ghost a_spec = pass_action(ms, t, has_mask@, translucent@, has0, id as int);
            proof {
                if d.take(i as int).contains(id) {
                    let k = choose|k: int| 0 <= k < i && d.take(i as int)[k] == id;
                    assert(d[k] == d[i as int]);
                }
                lemma_take_step(d, i as int);
            }
            let hm = id < has_mask.len() && has_mask[id];
            let tr = id < translucent.len() && translucent[id];
            let hc = id < has_context.len() && has_context[id];
            proof {
                if id < t.len() {
                    assert(has_context@[id as int] == has0[id as int]);
                }
            }
            let a = decide_context(style_marks, idtree, id, hm, tr, hc);
            let ghost before_change = change;
            match a {
                ContextAction::Skip => {},
                ContextAction::Unbind => {
                    self.release_context(id, has_context, context_indexs, &mut change);
                },
                ContextAction::Bind(w) => {
                    change = true;
                    if w.create {
                        has_context.set(id, true);
                        context_indexs.set(id, None);
                    }
                },
            }
            actions.push((id, a));
            proof {
                assert(a == a_spec);
                assert(change == (before_change || target_changed(a_spec, flag_at(has0, id as int)))) by {
                    if id < t.len() {
                        assert(has_context@.len() == t.len());
                    }
                }
                assert(change == exists|k: int|
                    0 <= k < i + 1 && #[trigger] target_changed(
                        pass_action(ms, t, has_mask@, translucent@, has0, d[k] as int),
                        flag_at(has0, d[k] as int),
                    )) by {
                    if target_changed(a_spec, flag_at(has0, id as int)) {
                        assert(target_changed(
                            pass_action(ms, t, has_mask@, translucent@, has0, d[i as int] as int),
                            flag_at(has0, d[i as int] as int),
                        ));
                    }
                }
            }
            i = i + 1;
        }
        proof {
            assert(d.take(d.len() as int) =~= d);
        }
        proof {
            assert(context_indexs@ =~= pass_forget(ms, t, has_mask@, translucent@, has0, ci0, d));
        }
        assign_context_indexs(&dirty, idtree, has_context, context_indexs);
        proof {
            assert(has_context@ =~= pass_contexts(ms, t, has_mask@, translucent@, has0, d));
        }
        (actions, change)
    }
}

/// The render-context presence after the pass over the redone nodes `d`.
pub open spec fn pass_contexts(
    marks: Seq<Option<StyleMark>>,
    t: Seq<TreeNode>,
    has_mask: Seq<bool>,
    translucent: Seq<bool>,
    has: Seq<bool>,
    d: Seq<usize>,
) -> Seq<bool> {
    Seq::new(
        has.len(),
        |x: int|
            if d.contains(x as usize) {
                has_after(pass_action(marks, t, has_mask, translucent, has, x), has[x])
            } else {
                has[x]
            },
    )
}

/// The context indices after the pass over `d` removed and created render
/// contexts, before new indices are given.
pub open spec fn pass_forget(
    marks: Seq<Option<StyleMark>>,
    t: Seq<TreeNode>,
    has_mask: Seq<bool>,
    translucent: Seq<bool>,
    has: Seq<bool>,
    ci: Seq<Option<usize>>,
    d: Seq<usize>,
) -> Seq<Option<usize>> {
    Seq::new(
        ci.len(),
        |x: int|
            if d.contains(x as usize) && context_changed(pass_action(marks, t, has_mask, translucent, has, x), has[x]) {
                None
            } else {
                ci[x]
            },
    )
}

} // verus!
