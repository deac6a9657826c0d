//! Per-node style marks and the list of nodes whose style is dirty.
//!
//! A node's `StyleMark` records, in three groups of flags (see `style_type`),
//! which attributes are dirty, which were set on the node itself (local style)
//! and which were set by its classes. The `DirtyList` holds the ids of the
//! nodes that became dirty since the list was last cleared; a node enters it
//! when its first dirty flag is set.
use vstd::prelude::*;
use crate::style_type::{
    TY_LETTER_SPACING, TY_WORD_SPACING, TY_WHITE_SPACE, TY_LINE_HEIGHT, TY_INDENT, TY_COLOR, TY_STROKE,
    TY_TEXT_ALIGN, TY_VERTICAL_ALIGN, TY_TEXT_SHADOW, TY_FONT_STYLE, TY_FONT_WEIGHT, TY_FONT_SIZE,
    TY_FONT_FAMILY, TY2_MARGIN_TOP, TY2_MARGIN_RIGHT, TY2_MARGIN_BOTTOM, TY2_MARGIN_LEFT, TY2_WIDTH,
    TY2_HEIGHT, LAYOUT_MARGIN_MARK, LAYOUT_PADDING_MARK, LAYOUT_BORDER_MARK, LAYOUT_POSITION_MARK, TY2_POSITION_TYPE,
    TY2_FLEX_DIRECTION, TY2_FLEX_WRAP, TY2_JUSTIFY_CONTENT, TY2_ALIGN_ITEMS, TY2_ALIGN_CONTENT,
    TY2_FLEX_GROW, TY2_FLEX_SHRINK, TY2_ALIGN_SELF, TY2_POSITION_TOP, TY2_POSITION_RIGHT,
    TY2_POSITION_BOTTOM, TY2_POSITION_LEFT, TY2_PADDING_TOP, TY2_PADDING_RIGHT, TY2_PADDING_BOTTOM,
    TY2_PADDING_LEFT, TY2_BORDER_TOP, TY2_BORDER_RIGHT, TY2_BORDER_BOTTOM, TY2_BORDER_LEFT,
    TY2_MIN_WIDTH, TY2_MIN_HEIGHT, TY2_MAX_WIDTH, TY2_MAX_HEIGHT, TY1_DISPLAY, TY1_OVERFLOW,
    TY1_FLEX_BASIS, TY1_ENABLE, TY1_VISIBILITY, TY1_DELETE, TY_TEXT, TEXT_STYLE_DIRTY, TY1_CREATE,
    TY2_BLEND_MODE, TY_OBJECT_FIT, TY_BORDER_IMAGE_CLIP, TY1_MASK_IMAGE_CLIP, TY_BORDER_IMAGE_REPEAT,
    TY_BORDER_COLOR, TY_BACKGROUND_COLOR, TY_BOX_SHADOW, TY_OPACITY, TY1_BLUR, TY1_TRANSFORM_WILL_CHANGE,
    TY_BY_OVERFLOW, TY1_CLIP_PATH, TY_BORDER_RADIUS, TY_IMAGE, TY_BORDER_IMAGE, TY1_ZINDEX, TY1_TRANSFORM,
    TY_FILTER, TY_LAYOUT, TY_OCT, TY_MATRIX, TY1_MASK_TEXTURE, TY1_BORDER_IMAGE_TEXTURE, TY1_CONTENT_BOX,
    TY1_IMAGE_TEXTURE, TY_IMAGE_CLIP, TY1_MASK_IMAGE, TY_BORDER_IMAGE_SLICE,
};
use crate::idtree::{
    IdTree, TreeNode, tree_wf, ancestor_at, in_subtree, lemma_child_subtree, lemma_subtree_child,
    lemma_subtree_parent, lemma_subtree_self,
};
use crate::show::{
    show_updates, show_reaches, lemma_reaches_up, lemma_take_step, lemma_not_in_take,
    lemma_reaches_through_child,
};

verus! {

/// The style bookkeeping of one node.
#[derive(Clone, Copy, Debug)]
pub struct StyleMark {
    pub dirty: u64,
    pub dirty1: u64,
    pub dirty2: u64,
    pub dirty_other: u64,
    pub local_style: u64,
    pub local_style1: u64,
    pub local_style2: u64,
    pub class_style: u64,
    pub class_style1: u64,
    pub class_style2: u64,
}

/// A mark with nothing dirty, nothing local and nothing from a class.
pub open spec fn empty_mark() -> StyleMark {
    StyleMark {
        dirty: 0,
        dirty1: 0,
        dirty2: 0,
        dirty_other: 0,
        local_style: 0,
        local_style1: 0,
        local_style2: 0,
        class_style: 0,
        class_style1: 0,
        class_style2: 0,
    }
}

impl Default for StyleMark {
    fn default() -> (r: Self)
        ensures
            r == empty_mark(),
    {
        StyleMark {
            dirty: 0,
            dirty1: 0,
            dirty2: 0,
            dirty_other: 0,
            local_style: 0,
            local_style1: 0,
            local_style2: 0,
            class_style: 0,
            class_style1: 0,
            class_style2: 0,
        }
    }
}

impl StyleMark {
    /// No flag of the three dirty groups is set (`dirty_other` is not counted).
    pub open spec fn is_clean(self) -> bool {
        self.dirty == 0 && self.dirty1 == 0 && self.dirty2 == 0
    }
}

/// The ids of the nodes whose style became dirty, the style version and the
/// number of dirty nodes seen by the last count.
#[derive(Debug)]
pub struct DirtyList {
    pub list: Vec<usize>,
    pub version: usize,
    pub count: usize,
}

impl DirtyList {
    pub fn new() -> (r: Self)
        ensures
            r.list@ == Seq::<usize>::empty(),
            r.version == 0,
            r.count == 0,
    {
        DirtyList { list: Vec::new(), version: 0, count: 0 }
    }
}

/// What the dirty list holds after `id` was marked: it is appended when its
/// mark was clean before.
pub open spec fn pushed_if_clean(list: Seq<usize>, id: usize, before: StyleMark) -> Seq<usize> {
    if before.is_clean() {
        list.push(id)
    } else {
        list
    }
}

/// What the dirty list holds after the mark of `id` went from `before` to `after`.
pub open spec fn pushed_if_became_dirty(
    list: Seq<usize>,
    id: usize,
    before: StyleMark,
    after: StyleMark,
) -> Seq<usize> {
    if before.is_clean() && !after.is_clean() {
        list.push(id)
    } else {
        list
    }
}

/// The dirty list is exact for the marks: it has no repeated id, every id in
/// it names a slot of `marks`, a listed node that still has a mark is dirty,
/// and every node with a dirty mark is listed.
pub open spec fn dirty_list_exact(list: Seq<usize>, marks: Seq<Option<StyleMark>>) -> bool {
    &&& list.no_duplicates()
    &&& forall|k: int| 0 <= k < list.len() ==> (#[trigger] list[k]) < marks.len()
    &&& forall|k: int|
        0 <= k < list.len() && (#[trigger] marks[list[k] as int]) is Some
            ==> !marks[list[k] as int]->0.is_clean()
    &&& forall|i: int|
        0 <= i < marks.len() && (#[trigger] marks[i]) is Some && !marks[i]->0.is_clean()
            ==> list.contains(i as usize)
}

/// A node created with a clean mark keeps the dirty list exact, when the
/// node is not listed (its id is not reused before the list was cleared).
pub proof fn lemma_create_keeps_exact(list: Seq<usize>, marks: Seq<Option<StyleMark>>, id: usize)
    requires
        dirty_list_exact(list, marks),
        id < marks.len(),
        !list.contains(id),
    ensures
        dirty_list_exact(list, marks.update(id as int, Some(empty_mark()))),
{
    let m2 = marks.update(id as int, Some(empty_mark()));
    assert forall|k: int| 0 <= k < list.len() && (#[trigger] m2[list[k] as int]) is Some implies !m2[list[k]
        as int]->0.is_clean() by {
        assert(list[k] != id);
    }
}

/// A mark whose dirty flags do not change keeps the dirty list exact.
pub proof fn lemma_local_only_keeps_exact(
    list: Seq<usize>,
    marks: Seq<Option<StyleMark>>,
    id: usize,
    m2: StyleMark,
)
    requires
        dirty_list_exact(list, marks),
        id < marks.len(),
        marks[id as int] is Some,
        m2.dirty == marks[id as int]->0.dirty,
        m2.dirty1 == marks[id as int]->0.dirty1,
        m2.dirty2 == marks[id as int]->0.dirty2,
    ensures
        dirty_list_exact(list, marks.update(id as int, Some(m2))),
{
    lemma_exact_after_change(list, marks, id, m2);
}

/// Marks attribute flags `ty` of group 0 dirty on `style_mark`, listing `id`
/// if the mark was clean.
pub fn set_dirty(dirty_list: &mut DirtyList, id: usize, ty: u64, style_mark: &mut StyleMark)
    ensures
        *final(style_mark) == marked_dirty(*old(style_mark), 0, ty),
        final(dirty_list).list@ == pushed_if_clean(old(dirty_list).list@, id, *old(style_mark)),
        final(dirty_list).version == old(dirty_list).version,
        final(dirty_list).count == old(dirty_list).count,
{
    if style_mark.dirty == 0 && style_mark.dirty1 == 0 && style_mark.dirty2 == 0 {
        dirty_list.list.push(id);
    }
    style_mark.dirty = style_mark.dirty | ty;
}

/// Marks attribute flags `ty` of group 1 dirty on `style_mark`, listing `id`
/// if the mark was clean.
pub fn set_dirty1(dirty_list: &mut DirtyList, id: usize, ty: u64, style_mark: &mut StyleMark)
    ensures
        *final(style_mark) == marked_dirty(*old(style_mark), 1, ty),
        final(dirty_list).list@ == pushed_if_clean(old(dirty_list).list@, id, *old(style_mark)),
        final(dirty_list).version == old(dirty_list).version,
        final(dirty_list).count == old(dirty_list).count,
{
    if style_mark.dirty == 0 && style_mark.dirty1 == 0 && style_mark.dirty2 == 0 {
        dirty_list.list.push(id);
    }
    style_mark.dirty1 = style_mark.dirty1 | ty;
}

/// Marks attribute flags `ty` of group 2 dirty on `style_mark`, listing `id`
/// if the mark was clean.
pub fn set_dirty2(dirty_list: &mut DirtyList, id: usize, ty: u64, style_mark: &mut StyleMark)
    ensures
        *final(style_mark) == marked_dirty(*old(style_mark), 2, ty),
        final(dirty_list).list@ == pushed_if_clean(old(dirty_list).list@, id, *old(style_mark)),
        final(dirty_list).version == old(dirty_list).version,
        final(dirty_list).count == old(dirty_list).count,
{
    if style_mark.dirty == 0 && style_mark.dirty1 == 0 && style_mark.dirty2 == 0 {
        dirty_list.list.push(id);
    }
    style_mark.dirty2 = style_mark.dirty2 | ty;
}


/// The mark after the flags of `ops` were marked dirty in order, each a
/// group and the flags of that group (see `marked_dirty`).
pub open spec fn marks_after(m: StyleMark, ops: Seq<(int, u64)>) -> StyleMark
    decreases ops.len(),
{
    if ops.len() == 0 {
        m
    } else {
        marked_dirty(marks_after(m, ops.drop_last()), ops.last().0, ops.last().1)
    }
}

/// The dirty list after the flags of `ops` were marked dirty in order on the
/// mark `m` of node `id` (see `pushed_if_clean`).
pub open spec fn list_after(list: Seq<usize>, id: usize, m: StyleMark, ops: Seq<(int, u64)>) -> Seq<usize>
    decreases ops.len(),
{
    if ops.len() == 0 {
        list
    } else {
        pushed_if_clean(list_after(list, id, m, ops.drop_last()), id, marks_after(m, ops.drop_last()))
    }
}

/// The or of the flags that `ops` gives to group `g`.
pub open spec fn flags_of(ops: Seq<(int, u64)>, g: int) -> u64
    decreases ops.len(),
{
    if ops.len() == 0 {
        0
    } else if ops.last().0 == g {
        flags_of(ops.drop_last(), g) | ops.last().1
    } else {
        flags_of(ops.drop_last(), g)
    }
}

/// Marking attribute flags dirty any number of times, in any groups
/// (`set_dirty`, `set_dirty1`, `set_dirty2`), leaves each dirty word the or
/// of its old value and the flags given to its group, changes nothing else
/// of the mark, and lists the node at most once: exactly when its mark was
/// clean and some flag was given, and then the mark is no longer clean.
/// Each call gives a group of the three and at least one flag.
pub proof fn lemma_dirty_sequence(list: Seq<usize>, id: usize, m: StyleMark, ops: Seq<(int, u64)>)
    requires
        forall|k: int| 0 <= k < ops.len() ==> 0 <= (#[trigger] ops[k]).0 <= 2 && ops[k].1 != 0,
    ensures
        marks_after(m, ops) == (StyleMark {
            dirty: m.dirty | flags_of(ops, 0),
            dirty1: m.dirty1 | flags_of(ops, 1),
            dirty2: m.dirty2 | flags_of(ops, 2),
            ..m
        }),
        list_after(list, id, m, ops) == if m.is_clean() && ops.len() > 0 {
            list.push(id)
        } else {
            list
        },
        ops.len() > 0 ==> !marks_after(m, ops).is_clean(),
    decreases ops.len(),
{
    if ops.len() == 0 {
        assert(m.dirty | 0 == m.dirty && m.dirty1 | 0 == m.dirty1 && m.dirty2 | 0 == m.dirty2) by {
            lemma_or_zero(m.dirty);
            lemma_or_zero(m.dirty1);
            lemma_or_zero(m.dirty2);
        }
    } else {
        let prev = ops.drop_last();
        assert forall|k: int| 0 <= k < prev.len() implies 0 <= (#[trigger] prev[k]).0 <= 2 && prev[k].1 != 0 by {
            assert(prev[k] == ops[k]);
        }
        lemma_dirty_sequence(list, id, m, prev);
        let (g, ty) = ops.last();
        assert(ops[ops.len() - 1] == ops.last());
        let m1 = marks_after(m, prev);
        lemma_or_assoc(m.dirty, flags_of(prev, 0), ty);
        lemma_or_assoc(m.dirty1, flags_of(prev, 1), ty);
        lemma_or_assoc(m.dirty2, flags_of(prev, 2), ty);
        lemma_or_nonzero(m1.dirty, ty);
        lemma_or_nonzero(m1.dirty1, ty);
        lemma_or_nonzero(m1.dirty2, ty);
    }
}

/// `a | 0 == a`.
proof fn lemma_or_zero(a: u64)
    ensures
        a | 0 == a,
{
    assert(a | 0 == a) by (bit_vector);
}

/// `|` is associative.
proof fn lemma_or_assoc(a: u64, b: u64, c: u64)
    ensures
        (a | b) | c == a | (b | c),
{
    assert((a | b) | c == a | (b | c)) by (bit_vector);
}

/// Setting flags `ty` (not zero) can only make a mark dirty.
pub proof fn lemma_or_nonzero(a: u64, ty: u64)
    ensures
        ty != 0 ==> a | ty != 0,
        a != 0 ==> a | ty != 0,
{
    assert(ty != 0 ==> a | ty != 0) by (bit_vector);
    assert(a != 0 ==> a | ty != 0) by (bit_vector);
}

/// The slot of `id` after its mark `m` was replaced by `m2`, for a mark that
/// gained dirty flags: the list stays exact when the list grew as
/// `pushed_if_clean` says and the new mark is dirty.
proof fn lemma_exact_after_mark(
    list: Seq<usize>,
    marks: Seq<Option<StyleMark>>,
    id: usize,
    m2: StyleMark,
)
    requires
        dirty_list_exact(list, marks),
        id < marks.len(),
        marks[id as int] is Some,
        !m2.is_clean(),
    ensures
        dirty_list_exact(
            pushed_if_clean(list, id, marks[id as int]->0),
            marks.update(id as int, Some(m2)),
        ),
{
    let m = marks[id as int]->0;
    let l2 = pushed_if_clean(list, id, m);
    let ms = marks.update(id as int, Some(m2));
    if m.is_clean() {
        assert(!list.contains(id)) by {
            if list.contains(id) {
                let k = choose|k: int| 0 <= k < list.len() && list[k] == id;
                assert(marks[list[k] as int] is Some);
            }
        }
        assert forall|i: int, j: int| 0 <= i < j < l2.len() implies l2[i] != l2[j] by {
            if j == list.len() {
                assert(list.contains(l2[i]));
            }
        }
        assert forall|k: int| 0 <= k < l2.len() && (#[trigger] ms[l2[k] as int]) is Some implies !ms[l2[k]
            as int]->0.is_clean() by {
            if k < list.len() {
                assert(l2[k] == list[k]);
            }
        }
        assert forall|i: int| 0 <= i < ms.len() && (#[trigger] ms[i]) is Some && !ms[i]->0.is_clean() implies l2.contains(
            i as usize,
        ) by {
            if i == id {
                assert(l2[list.len() as int] == id);
            } else {
                assert(list.contains(i as usize));
                let k = choose|k: int| 0 <= k < list.len() && list[k] == i as usize;
                assert(l2[k] == i as usize);
            }
        }
    } else {
        assert forall|i: int| 0 <= i < ms.len() && (#[trigger] ms[i]) is Some && !ms[i]->0.is_clean() implies l2.contains(
            i as usize,
        ) by {
            if i == id {
                assert(marks[i] is Some && !marks[i]->0.is_clean());
            }
        }
        assert forall|k: int| 0 <= k < l2.len() && (#[trigger] ms[l2[k] as int]) is Some implies !ms[l2[k]
            as int]->0.is_clean() by {
            if l2[k] != id {
                assert(marks[list[k] as int] is Some);
            }
        }
    }
}

/// The mark of `id` went from `m` to `m2`, and a dirty mark stayed dirty:
/// the list, grown as `pushed_if_became_dirty` says, stays exact.
pub proof fn lemma_exact_after_change(
    list: Seq<usize>,
    marks: Seq<Option<StyleMark>>,
    id: usize,
    m2: StyleMark,
)
    requires
        dirty_list_exact(list, marks),
        id < marks.len(),
        marks[id as int] is Some,
        !marks[id as int]->0.is_clean() ==> !m2.is_clean(),
    ensures
        dirty_list_exact(
            pushed_if_became_dirty(list, id, marks[id as int]->0, m2),
            marks.update(id as int, Some(m2)),
        ),
{
    let m = marks[id as int]->0;
    if !m2.is_clean() {
        lemma_exact_after_mark(list, marks, id, m2);
    } else {
        let ms = marks.update(id as int, Some(m2));
        assert(m.is_clean());
        assert(!list.contains(id)) by {
            if list.contains(id) {
                let k = choose|k: int| 0 <= k < list.len() && list[k] == id;
                assert(marks[list[k] as int] is Some);
            }
        }
        assert forall|k: int| 0 <= k < list.len() && (#[trigger] ms[list[k] as int]) is Some implies !ms[list[k]
            as int]->0.is_clean() by {
            assert(list[k] != id);
        }
        assert forall|i: int| 0 <= i < ms.len() && (#[trigger] ms[i]) is Some && !ms[i]->0.is_clean() implies list.contains(
            i as usize,
        ) by {
            assert(i != id);
        }
    }
}

/// Marks flags `ty` of group 0 dirty and local on the mark of `id`.
pub fn set_local_dirty(
    dirty_list: &mut DirtyList,
    id: usize,
    ty: u64,
    style_marks: &mut Vec<Option<StyleMark>>,
)
    requires
        id < old(style_marks)@.len(),
        old(style_marks)@[id as int] is Some,
    ensures
        final(style_marks)@ == old(style_marks)@.update(
            id as int,
            Some(
                StyleMark {
                    dirty: old(style_marks)@[id as int]->0.dirty | ty,
                    local_style: old(style_marks)@[id as int]->0.local_style | ty,
                    ..old(style_marks)@[id as int]->0
                },
            ),
        ),
        final(dirty_list).list@ == pushed_if_clean(
            old(dirty_list).list@,
            id,
            old(style_marks)@[id as int]->0,
        ),
        final(dirty_list).version == old(dirty_list).version,
        final(dirty_list).count == old(dirty_list).count,
        dirty_list_exact(old(dirty_list).list@, old(style_marks)@) && ty != 0 ==> dirty_list_exact(
            final(dirty_list).list@,
            final(style_marks)@,
        ),
{
    let mut style_mark = style_marks[id].unwrap();
    let ghost m0 = style_mark;
    set_dirty(dirty_list, id, ty, &mut style_mark);
    style_mark.local_style = style_mark.local_style | ty;
    style_marks.set(id, Some(style_mark));
    proof {
        lemma_or_nonzero(m0.dirty, ty);
        if dirty_list_exact(old(dirty_list).list@, old(style_marks)@) && ty != 0 {
            lemma_exact_after_mark(old(dirty_list).list@, old(style_marks)@, id, style_mark);
        }
    }
}

/// Marks flags `ty` of group 1 dirty and local on the mark of `id`; nothing
/// happens when `id` has no mark.
pub fn set_local_dirty1(
    dirty_list: &mut DirtyList,
    id: usize,
    ty: u64,
    style_marks: &mut Vec<Option<StyleMark>>,
)
    ensures
        id < old(style_marks)@.len() && old(style_marks)@[id as int] is Some ==> {
            &&& final(style_marks)@ == old(style_marks)@.update(
                id as int,
                Some(
                    StyleMark {
                        dirty1: old(style_marks)@[id as int]->0.dirty1 | ty,
                        local_style1: old(style_marks)@[id as int]->0.local_style1 | ty,
                        ..old(style_marks)@[id as int]->0
                    },
                ),
            )
            &&& final(dirty_list).list@ == pushed_if_clean(
                old(dirty_list).list@,
                id,
                old(style_marks)@[id as int]->0,
            )
        },
        !(id < old(style_marks)@.len() && old(style_marks)@[id as int] is Some) ==> final(style_marks)@
            == old(style_marks)@ && final(dirty_list).list@ == old(dirty_list).list@,
        final(dirty_list).version == old(dirty_list).version,
        final(dirty_list).count == old(dirty_list).count,
        dirty_list_exact(old(dirty_list).list@, old(style_marks)@) && ty != 0 ==> dirty_list_exact(
            final(dirty_list).list@,
            final(style_marks)@,
        ),
{
    if id >= style_marks.len() {
        return ;
    }
    let mut style_mark = match style_marks[id] {
        Some(r) => r,
        None => return ,
    };
    let ghost m0 = style_mark;
    set_dirty1(dirty_list, id, ty, &mut style_mark);
    style_mark.local_style1 = style_mark.local_style1 | ty;
    style_marks.set(id, Some(style_mark));
    proof {
        lemma_or_nonzero(m0.dirty1, ty);
        if dirty_list_exact(old(dirty_list).list@, old(style_marks)@) && ty != 0 {
            lemma_exact_after_mark(old(dirty_list).list@, old(style_marks)@, id, style_mark);
        }
    }
}

/// Marks flags `ty` of group 2 dirty and local on the mark of `id`.
pub fn set_local_dirty2(
    dirty_list: &mut DirtyList,
    id: usize,
    ty: u64,
    style_marks: &mut Vec<Option<StyleMark>>,
)
    requires
        id < old(style_marks)@.len(),
        old(style_marks)@[id as int] is Some,
    ensures
        final(style_marks)@ == old(style_marks)@.update(
            id as int,
            Some(
                StyleMark {
                    dirty2: old(style_marks)@[id as int]->0.dirty2 | ty,
                    local_style2: old(style_marks)@[id as int]->0.local_style2 | ty,
                    ..old(style_marks)@[id as int]->0
                },
            ),
        ),
        final(dirty_list).list@ == pushed_if_clean(
            old(dirty_list).list@,
            id,
            old(style_marks)@[id as int]->0,
        ),
        final(dirty_list).version == old(dirty_list).version,
        final(dirty_list).count == old(dirty_list).count,
        dirty_list_exact(old(dirty_list).list@, old(style_marks)@) && ty != 0 ==> dirty_list_exact(
            final(dirty_list).list@,
            final(style_marks)@,
        ),
{
    let mut style_mark = style_marks[id].unwrap();
    let ghost m0 = style_mark;
    set_dirty2(dirty_list, id, ty, &mut style_mark);
    style_mark.local_style2 = style_mark.local_style2 | ty;
    style_marks.set(id, Some(style_mark));
    proof {
        lemma_or_nonzero(m0.dirty2, ty);
        if dirty_list_exact(old(dirty_list).list@, old(style_marks)@) && ty != 0 {
            lemma_exact_after_mark(old(dirty_list).list@, old(style_marks)@, id, style_mark);
        }
    }
}


/// `a` and `b` hold the same characters.
pub fn str_eq(a: &str, b: &str) -> (r: bool)
    ensures
        r == (a@ == b@),
{
    let n = a.unicode_len();
    let m = b.unicode_len();
    if n != m {
        return false;
    }
    let mut i: usize = 0;
    while i < n
        invariant
            n == a@.len(),
            m == b@.len(),
            n == m,
            i <= n,
            forall|k: int| 0 <= k < i ==> a@[k] == b@[k],
        decreases n - i,
    {
        if a.get_char(i) != b.get_char(i) {
            return false;
        }
        i = i + 1;
    }
    assert(a@ =~= b@);
    true
}

/// The group-0 flag of a changed field of the text style.
pub open spec fn text_style_field_flag(field: Seq<char>) -> Option<u64> {
    if field == "letter_spacing"@ {
        Some(TY_LETTER_SPACING)
    } else if field == "word_spacing"@ {
        Some(TY_WORD_SPACING)
    } else if field == "white_space"@ {
        Some(TY_WHITE_SPACE)
    } else if field == "line_height"@ {
        Some(TY_LINE_HEIGHT)
    } else if field == "text_indent"@ {
        Some(TY_INDENT)
    } else if field == "color"@ {
        Some(TY_COLOR)
    } else if field == "stroke"@ {
        Some(TY_STROKE)
    } else if field == "text_align"@ {
        Some(TY_TEXT_ALIGN)
    } else if field == "vertical_align"@ {
        Some(TY_VERTICAL_ALIGN)
    } else if field == "text_shadow"@ {
        Some(TY_TEXT_SHADOW)
    } else if field == "font_style"@ {
        Some(TY_FONT_STYLE)
    } else if field == "font_weight"@ {
        Some(TY_FONT_WEIGHT)
    } else if field == "font_size"@ {
        Some(TY_FONT_SIZE)
    } else if field == "font_family"@ {
        Some(TY_FONT_FAMILY)
    } else {
        None
    }
}

/// The group-0 flag of a changed field of the text style, if the field is one.
pub fn text_style_field_mark(field: &str) -> (r: Option<u64>)
    ensures
        r == text_style_field_flag(field@),
{
    if str_eq(field, "letter_spacing") {
        Some(TY_LETTER_SPACING)
    } else if str_eq(field, "word_spacing") {
        Some(TY_WORD_SPACING)
    } else if str_eq(field, "white_space") {
        Some(TY_WHITE_SPACE)
    } else if str_eq(field, "line_height") {
        Some(TY_LINE_HEIGHT)
    } else if str_eq(field, "text_indent") {
        Some(TY_INDENT)
    } else if str_eq(field, "color") {
        Some(TY_COLOR)
    } else if str_eq(field, "stroke") {
        Some(TY_STROKE)
    } else if str_eq(field, "text_align") {
        Some(TY_TEXT_ALIGN)
    } else if str_eq(field, "vertical_align") {
        Some(TY_VERTICAL_ALIGN)
    } else if str_eq(field, "text_shadow") {
        Some(TY_TEXT_SHADOW)
    } else if str_eq(field, "font_style") {
        Some(TY_FONT_STYLE)
    } else if str_eq(field, "font_weight") {
        Some(TY_FONT_WEIGHT)
    } else if str_eq(field, "font_size") {
        Some(TY_FONT_SIZE)
    } else if str_eq(field, "font_family") {
        Some(TY_FONT_FAMILY)
    } else {
        None
    }
}

/// The group-2 flags of a changed field of the size and margin style.
pub open spec fn rect_layout_field_flag(field: Seq<char>) -> Option<u64> {
    if field == "margin"@ {
        Some(LAYOUT_MARGIN_MARK)
    } else if field == "margin-top"@ {
        Some(TY2_MARGIN_TOP)
    } else if field == "margin-right"@ {
        Some(TY2_MARGIN_RIGHT)
    } else if field == "margin-bottom"@ {
        Some(TY2_MARGIN_BOTTOM)
    } else if field == "margin-left"@ {
        Some(TY2_MARGIN_LEFT)
    } else if field == "width"@ {
        Some(TY2_WIDTH)
    } else if field == "height"@ {
        Some(TY2_HEIGHT)
    } else {
        None
    }
}

/// The group-2 flags of a changed field of the size and margin style, if the
/// field is one.
pub fn rect_layout_field_mark(field: &str) -> (r: Option<u64>)
    ensures
        r == rect_layout_field_flag(field@),
{
    if str_eq(field, "margin") {
        Some(LAYOUT_MARGIN_MARK)
    } else if str_eq(field, "margin-top") {
        Some(TY2_MARGIN_TOP)
    } else if str_eq(field, "margin-right") {
        Some(TY2_MARGIN_RIGHT)
    } else if str_eq(field, "margin-bottom") {
        Some(TY2_MARGIN_BOTTOM)
    } else if str_eq(field, "margin-left") {
        Some(TY2_MARGIN_LEFT)
    } else if str_eq(field, "width") {
        Some(TY2_WIDTH)
    } else if str_eq(field, "height") {
        Some(TY2_HEIGHT)
    } else {
        None
    }
}

/// The group-2 flags of a changed field of the other layout style (0 when the
/// field is none of them).
pub open spec fn other_layout_field_flag2(field: Seq<char>) -> u64 {
    if field == "position_type"@ {
        TY2_POSITION_TYPE
    } else if field == "direction"@ {
        TY2_FLEX_DIRECTION
    } else if field == "flex_direction"@ {
        TY2_FLEX_DIRECTION
    } else if field == "flex_wrap"@ {
        TY2_FLEX_WRAP
    } else if field == "justify_content"@ {
        TY2_JUSTIFY_CONTENT
    } else if field == "align_items"@ {
        TY2_ALIGN_ITEMS
    } else if field == "align_content"@ {
        TY2_ALIGN_CONTENT
    } else if field == "flex_grow"@ {
        TY2_FLEX_GROW
    } else if field == "flex_shrink"@ {
        TY2_FLEX_SHRINK
    } else if field == "align_self"@ {
        TY2_ALIGN_SELF
    } else if field == "position"@ {
        LAYOUT_POSITION_MARK
    } else if field == "top"@ {
        TY2_POSITION_TOP
    } else if field == "right"@ {
        TY2_POSITION_RIGHT
    } else if field == "bottom"@ {
        TY2_POSITION_BOTTOM
    } else if field == "left"@ {
        TY2_POSITION_LEFT
    } else if field == "padding"@ {
        LAYOUT_PADDING_MARK
    } else if field == "padding-top"@ {
        TY2_PADDING_TOP
    } else if field == "padding-right"@ {
        TY2_PADDING_RIGHT
    } else if field == "padding-bottom"@ {
        TY2_PADDING_BOTTOM
    } else if field == "padding-left"@ {
        TY2_PADDING_LEFT
    } else if field == "border"@ {
        LAYOUT_BORDER_MARK
    } else if field == "border-top"@ {
        TY2_BORDER_TOP
    } else if field == "border-right"@ {
        TY2_BORDER_RIGHT
    } else if field == "border-bottom"@ {
        TY2_BORDER_BOTTOM
    } else if field == "border-left"@ {
        TY2_BORDER_LEFT
    } else if field == "min_width"@ {
        TY2_MIN_WIDTH
    } else if field == "min_height"@ {
        TY2_MIN_HEIGHT
    } else if field == "max_width"@ {
        TY2_MAX_WIDTH
    } else if field == "max_height"@ {
        TY2_MAX_HEIGHT
    } else {
        0
    }
}

/// The group-2 flags of a changed field of the other layout style, 0 when the
/// field is none of them. (A changed `position` marks the four offsets.)
pub fn other_layout_field_mark2(field: &str) -> (r: u64)
    ensures
        r == other_layout_field_flag2(field@),
{
    if str_eq(field, "position_type") {
        TY2_POSITION_TYPE
    } else if str_eq(field, "direction") {
        TY2_FLEX_DIRECTION
    } else if str_eq(field, "flex_direction") {
        TY2_FLEX_DIRECTION
    } else if str_eq(field, "flex_wrap") {
        TY2_FLEX_WRAP
    } else if str_eq(field, "justify_content") {
        TY2_JUSTIFY_CONTENT
    } else if str_eq(field, "align_items") {
        TY2_ALIGN_ITEMS
    } else if str_eq(field, "align_content") {
        TY2_ALIGN_CONTENT
    } else if str_eq(field, "flex_grow") {
        TY2_FLEX_GROW
    } else if str_eq(field, "flex_shrink") {
        TY2_FLEX_SHRINK
    } else if str_eq(field, "align_self") {
        TY2_ALIGN_SELF
    } else if str_eq(field, "position") {
        LAYOUT_POSITION_MARK
    } else if str_eq(field, "top") {
        TY2_POSITION_TOP
    } else if str_eq(field, "right") {
        TY2_POSITION_RIGHT
    } else if str_eq(field, "bottom") {
        TY2_POSITION_BOTTOM
    } else if str_eq(field, "left") {
        TY2_POSITION_LEFT
    } else if str_eq(field, "padding") {
        LAYOUT_PADDING_MARK
    } else if str_eq(field, "padding-top") {
        TY2_PADDING_TOP
    } else if str_eq(field, "padding-right") {
        TY2_PADDING_RIGHT
    } else if str_eq(field, "padding-bottom") {
        TY2_PADDING_BOTTOM
    } else if str_eq(field, "padding-left") {
        TY2_PADDING_LEFT
    } else if str_eq(field, "border") {
        LAYOUT_BORDER_MARK
    } else if str_eq(field, "border-top") {
        TY2_BORDER_TOP
    } else if str_eq(field, "border-right") {
        TY2_BORDER_RIGHT
    } else if str_eq(field, "border-bottom") {
        TY2_BORDER_BOTTOM
    } else if str_eq(field, "border-left") {
        TY2_BORDER_LEFT
    } else if str_eq(field, "min_width") {
        TY2_MIN_WIDTH
    } else if str_eq(field, "min_height") {
        TY2_MIN_HEIGHT
    } else if str_eq(field, "max_width") {
        TY2_MAX_WIDTH
    } else if str_eq(field, "max_height") {
        TY2_MAX_HEIGHT
    } else {
        0
    }
}

/// The group-1 flag of a changed field of the other layout style that has no
/// group-2 flag.
pub open spec fn other_layout_field_flag1(field: Seq<char>) -> Option<u64> {
    if field == "display"@ {
        Some(TY1_DISPLAY)
    } else if field == "overflow"@ {
        Some(TY1_OVERFLOW)
    } else if field == "flex_basis"@ {
        Some(TY1_FLEX_BASIS)
    } else {
        None
    }
}

/// The group-1 flag of a changed field of the other layout style, if it is
/// `display`, `overflow` or `flex_basis`.
pub fn other_layout_field_mark1(field: &str) -> (r: Option<u64>)
    ensures
        r == other_layout_field_flag1(field@),
{
    if str_eq(field, "display") {
        Some(TY1_DISPLAY)
    } else if str_eq(field, "overflow") {
        Some(TY1_OVERFLOW)
    } else if str_eq(field, "flex_basis") {
        Some(TY1_FLEX_BASIS)
    } else {
        None
    }
}

/// The group-1 flag of a changed field of `Show`.
pub open spec fn show_field_flag(field: Seq<char>) -> Option<u64> {
    if field == "display"@ {
        Some(TY1_DISPLAY)
    } else if field == "enable"@ {
        Some(TY1_ENABLE)
    } else if field == "visibility"@ {
        Some(TY1_VISIBILITY)
    } else {
        None
    }
}

/// The group-1 flag of a changed field of `Show`, if the field is one.
pub fn show_field_mark(field: &str) -> (r: Option<u64>)
    ensures
        r == show_field_flag(field@),
{
    if str_eq(field, "display") {
        Some(TY1_DISPLAY)
    } else if str_eq(field, "enable") {
        Some(TY1_ENABLE)
    } else if str_eq(field, "visibility") {
        Some(TY1_VISIBILITY)
    } else {
        None
    }
}

/// The mark of a node after a run of `StyleMarkSys`: nothing dirty.
pub open spec fn cleared_mark(m: StyleMark) -> StyleMark {
    StyleMark { dirty: 0, dirty1: 0, dirty2: 0, dirty_other: 0, ..m }
}

/// After a run a node is clean: no dirty flag of any group is left, and its
/// local and class styles are kept.
pub proof fn lemma_cleared_mark_clean(m: StyleMark)
    ensures
        cleared_mark(m).is_clean(),
        cleared_mark(m).dirty_other == 0,
        cleared_mark(m).local_style == m.local_style && cleared_mark(m).local_style1 == m.local_style1
            && cleared_mark(m).local_style2 == m.local_style2,
        cleared_mark(m).class_style == m.class_style && cleared_mark(m).class_style1 == m.class_style1
            && cleared_mark(m).class_style2 == m.class_style2,
{
}

/// The system that keeps the style marks and the dirty list.
pub struct StyleMarkSys;

impl StyleMarkSys {
    pub fn new() -> (r: Self)
        ensures
            r == StyleMarkSys,
    {
        StyleMarkSys
    }

    /// End of a frame: clears the dirty flags of every listed node that still
    /// has a mark, and empties the list.
    pub fn run(&mut self, style_marks: &mut Vec<Option<StyleMark>>, dirty_list: &mut DirtyList)
        ensures
            final(style_marks)@.len() == old(style_marks)@.len(),
            forall|x: int|
                0 <= x < final(style_marks)@.len() ==> #[trigger] final(style_marks)@[x] == if old(dirty_list).list@.contains(x as usize) && old(style_marks)@[x] is Some {
                    Some(cleared_mark(old(style_marks)@[x]->0))
                } else {
                    old(style_marks)@[x]
                },
            final(dirty_list).list@ == Seq::<usize>::empty(),
            final(dirty_list).version == old(dirty_list).version,
            final(dirty_list).count == old(dirty_list).count,
            dirty_list_exact(old(dirty_list).list@, old(style_marks)@) ==> dirty_list_exact(
                final(dirty_list).list@,
                final(style_marks)@,
            ),
    {
        let ghost old_marks = style_marks@;
        let ghost list = dirty_list.list@;
        let mut i: usize = 0;
        while i < dirty_list.list.len()
            invariant
                dirty_list.list@ == list,
                i <= list.len(),
                style_marks@.len() == old_marks.len(),
                forall|x: int|
                    0 <= x < style_marks@.len() ==> #[trigger] style_marks@[x] == if list.take(
                        i as int,
                    ).contains(x as usize) && old_marks[x] is Some {
                        Some(cleared_mark(old_marks[x]->0))
                    } else {
                        old_marks[x]
                    },
            decreases list.len() - i,
        {
            let id = dirty_list.list[i];
            proof {
                assert(list.take(i + 1) =~= list.take(i as int).push(id));
            }
            if id < style_marks.len() {
                match style_marks[id] {
                    Some(m) => {
                        let mut style_mark = m;
                        style_mark.dirty = 0;
                        style_mark.dirty1 = 0;
                        style_mark.dirty2 = 0;
                        style_mark.dirty_other = 0;
                        style_marks.set(id, Some(style_mark));
                    },
                    None => {},
                }
            }
            proof {
                assert forall|x: int| 0 <= x < style_marks@.len() implies #[trigger] style_marks@[x] == if list.take(
                    i + 1,
                ).contains(x as usize) && old_marks[x] is Some {
                    Some(cleared_mark(old_marks[x]->0))
                } else {
                    old_marks[x]
                } by {
                    let t1 = list.take(i + 1);
                    let t0 = list.take(i as int);
                    assert(t1.contains(x as usize) <==> (t0.contains(x as usize) || id == x as usize)) by {
                        if t1.contains(x as usize) {
                            let k = choose|k: int| 0 <= k < t1.len() && t1[k] == x as usize;
                            if k < i {
                                assert(t0[k] == x as usize);
                            }
                        }
                        if t0.contains(x as usize) {
                            let k = choose|k: int| 0 <= k < t0.len() && t0[k] == x as usize;
                            assert(t1[k] == x as usize);
                        }
                        if id == x as usize {
                            assert(t1[i as int] == id);
                        }
                    }
                }
            }
            i = i + 1;
        }
        dirty_list.list.clear();
        proof {
            assert(list.take(list.len() as int) =~= list);
            if dirty_list_exact(list, old_marks) {
                assert forall|x: int|
                    0 <= x < style_marks@.len() && (#[trigger] style_marks@[x]) is Some implies style_marks@[x]->0.is_clean() by {
                    if !list.contains(x as usize) {
                        assert(old_marks[x] is Some);
                    }
                }
            }
        }
    }

    /// A node is created: it gets a clean mark.
    pub fn on_node_create(&mut self, style_marks: &mut Vec<Option<StyleMark>>, id: usize)
        requires
            id < old(style_marks)@.len(),
        ensures
            final(style_marks)@ == old(style_marks)@.update(id as int, Some(empty_mark())),
    {
        style_marks.set(id, Some(StyleMark::default()));
    }

    /// A node is destroyed: its mark, if it has one, is marked dirty with `Delete`.
    pub fn on_node_destroy(
        &mut self,
        style_marks: &mut Vec<Option<StyleMark>>,
        dirty_list: &mut DirtyList,
        id: usize,
    )
        ensures
            id < old(style_marks)@.len() && old(style_marks)@[id as int] is Some ==> {
                &&& final(style_marks)@ == old(style_marks)@.update(
                    id as int,
                    Some(
                        StyleMark {
                            dirty1: old(style_marks)@[id as int]->0.dirty1 | TY1_DELETE,
                            ..old(style_marks)@[id as int]->0
                        },
                    ),
                )
                &&& final(dirty_list).list@ == pushed_if_clean(
                    old(dirty_list).list@,
                    id,
                    old(style_marks)@[id as int]->0,
                )
            },
            !(id < old(style_marks)@.len() && old(style_marks)@[id as int] is Some) ==> final(style_marks)@ == old(style_marks)@ && final(dirty_list).list@ == old(dirty_list).list@,
            final(dirty_list).version == old(dirty_list).version,
            final(dirty_list).count == old(dirty_list).count,
            dirty_list_exact(old(dirty_list).list@, old(style_marks)@) ==> dirty_list_exact(
                final(dirty_list).list@,
                final(style_marks)@,
            ),
    {
        if id < style_marks.len() {
            if let Some(m) = style_marks[id] {
                let ghost l0 = dirty_list.list@;
                let ghost marks0 = style_marks@;
                let mut style_mark = m;
                set_dirty1(dirty_list, id, TY1_DELETE, &mut style_mark);
                proof {
                    lemma_or_nonzero(m.dirty1, TY1_DELETE);
                    if dirty_list_exact(l0, marks0) {
                        lemma_exact_after_change(l0, marks0, id, style_mark);
                    }
                }
                style_marks.set(id, Some(style_mark));
            }
        }
    }

    /// A field of the size and margin style of `id` changed: marks its flags
    /// local and dirty; other fields are ignored.
    pub fn on_rect_layout_modify(
        &mut self,
        style_marks: &mut Vec<Option<StyleMark>>,
        dirty_list: &mut DirtyList,
        id: usize,
        field: &str,
    )
        requires
            id < old(style_marks)@.len(),
            old(style_marks)@[id as int] is Some,
        ensures
            rect_layout_field_flag(field@) is None ==> final(style_marks)@ == old(style_marks)@
                && final(dirty_list).list@ == old(dirty_list).list@,
            rect_layout_field_flag(field@) matches Some(ty) ==> {
                &&& final(style_marks)@ == old(style_marks)@.update(
                    id as int,
                    Some(
                        StyleMark {
                            dirty2: old(style_marks)@[id as int]->0.dirty2 | ty,
                            local_style2: old(style_marks)@[id as int]->0.local_style2 | ty,
                            ..old(style_marks)@[id as int]->0
                        },
                    ),
                )
                &&& final(dirty_list).list@ == pushed_if_clean(
                    old(dirty_list).list@,
                    id,
                    old(style_marks)@[id as int]->0,
                )
            },
            final(dirty_list).version == old(dirty_list).version,
            final(dirty_list).count == old(dirty_list).count,
            dirty_list_exact(old(dirty_list).list@, old(style_marks)@) ==> dirty_list_exact(
                final(dirty_list).list@,
                final(style_marks)@,
            ),
    {
        proof {
            lemma_or_nonzero(TY2_MARGIN_TOP | TY2_MARGIN_RIGHT | TY2_MARGIN_BOTTOM, TY2_MARGIN_LEFT);
        }
        match rect_layout_field_mark(field) {
            Some(r) => set_local_dirty2(dirty_list, id, r, style_marks),
            None => {},
        }
    }

    /// A field of the other layout style of `id` changed: a flex, position,
    /// padding, border or size-limit field marks its group-2 flags; otherwise
    /// `display`, `overflow` and `flex_basis` mark their group-1 flag.
    pub fn on_other_layout_modify(
        &mut self,
        style_marks: &mut Vec<Option<StyleMark>>,
        dirty_list: &mut DirtyList,
        id: usize,
        field: &str,
    )
        requires
            id < old(style_marks)@.len(),
            old(style_marks)@[id as int] is Some,
        ensures
            other_layout_field_flag2(field@) != 0 ==> {
                let ty = other_layout_field_flag2(field@);
                &&& final(style_marks)@ == old(style_marks)@.update(
                    id as int,
                    Some(
                        StyleMark {
                            dirty2: old(style_marks)@[id as int]->0.dirty2 | ty,
                            local_style2: old(style_marks)@[id as int]->0.local_style2 | ty,
                            ..old(style_marks)@[id as int]->0
                        },
                    ),
                )
                &&& final(dirty_list).list@ == pushed_if_clean(
                    old(dirty_list).list@,
                    id,
                    old(style_marks)@[id as int]->0,
                )
            },
            other_layout_field_flag2(field@) == 0 && other_layout_field_flag1(field@) is None ==> final(style_marks)@ == old(style_marks)@ && final(dirty_list).list@ == old(dirty_list).list@,
            other_layout_field_flag2(field@) == 0 ==> (other_layout_field_flag1(field@) matches Some(
                ty,
            ) ==> {
                &&& final(style_marks)@ == old(style_marks)@.update(
                    id as int,
                    Some(
                        StyleMark {
                            dirty1: old(style_marks)@[id as int]->0.dirty1 | ty,
                            local_style1: old(style_marks)@[id as int]->0.local_style1 | ty,
                            ..old(style_marks)@[id as int]->0
                        },
                    ),
                )
                &&& final(dirty_list).list@ == pushed_if_clean(
                    old(dirty_list).list@,
                    id,
                    old(style_marks)@[id as int]->0,
                )
            }),
            final(dirty_list).version == old(dirty_list).version,
            final(dirty_list).count == old(dirty_list).count,
            dirty_list_exact(old(dirty_list).list@, old(style_marks)@) ==> dirty_list_exact(
                final(dirty_list).list@,
                final(style_marks)@,
            ),
    {
        let r = other_layout_field_mark2(field);
        if r > 0 {
            set_local_dirty2(dirty_list, id, r, style_marks);
            return ;
        }
        match other_layout_field_mark1(field) {
            Some(r1) => set_local_dirty1(dirty_list, id, r1, style_marks),
            None => {},
        }
    }

    /// A field of the text style of `id` changed: marks its flag local and dirty.
    pub fn on_text_style_modify(
        &mut self,
        style_marks: &mut Vec<Option<StyleMark>>,
        dirty_list: &mut DirtyList,
        id: usize,
        field: &str,
    )
        requires
            id < old(style_marks)@.len(),
            old(style_marks)@[id as int] is Some,
        ensures
            text_style_field_flag(field@) is None ==> final(style_marks)@ == old(style_marks)@
                && final(dirty_list).list@ == old(dirty_list).list@,
            text_style_field_flag(field@) matches Some(ty) ==> {
                &&& final(style_marks)@ == old(style_marks)@.update(
                    id as int,
                    Some(
                        StyleMark {
                            dirty: old(style_marks)@[id as int]->0.dirty | ty,
                            local_style: old(style_marks)@[id as int]->0.local_style | ty,
                            ..old(style_marks)@[id as int]->0
                        },
                    ),
                )
                &&& final(dirty_list).list@ == pushed_if_clean(
                    old(dirty_list).list@,
                    id,
                    old(style_marks)@[id as int]->0,
                )
            },
            final(dirty_list).version == old(dirty_list).version,
            final(dirty_list).count == old(dirty_list).count,
            dirty_list_exact(old(dirty_list).list@, old(style_marks)@) ==> dirty_list_exact(
                final(dirty_list).list@,
                final(style_marks)@,
            ),
    {
        match text_style_field_mark(field) {
            Some(r) => set_local_dirty(dirty_list, id, r, style_marks),
            None => {},
        }
    }

    /// A field of `Show` of `id` changed: marks its flag local and dirty (if
    /// `id` has a mark).
    pub fn on_show_modify(
        &mut self,
        style_marks: &mut Vec<Option<StyleMark>>,
        dirty_list: &mut DirtyList,
        id: usize,
        field: &str,
    )
        ensures
            show_field_flag(field@) is None ==> final(style_marks)@ == old(style_marks)@
                && final(dirty_list).list@ == old(dirty_list).list@,
            show_field_flag(field@) matches Some(ty) ==> (id < old(style_marks)@.len() && old(style_marks)@[id as int] is Some ==> {
                &&& final(style_marks)@ == old(style_marks)@.update(
                    id as int,
                    Some(
                        StyleMark {
                            dirty1: old(style_marks)@[id as int]->0.dirty1 | ty,
                            local_style1: old(style_marks)@[id as int]->0.local_style1 | ty,
                            ..old(style_marks)@[id as int]->0
                        },
                    ),
                )
                &&& final(dirty_list).list@ == pushed_if_clean(
                    old(dirty_list).list@,
                    id,
                    old(style_marks)@[id as int]->0,
                )
            }),
            !(id < old(style_marks)@.len() && old(style_marks)@[id as int] is Some) ==> final(style_marks)@ == old(style_marks)@ && final(dirty_list).list@ == old(dirty_list).list@,
            final(dirty_list).version == old(dirty_list).version,
            final(dirty_list).count == old(dirty_list).count,
            dirty_list_exact(old(dirty_list).list@, old(style_marks)@) ==> dirty_list_exact(
                final(dirty_list).list@,
                final(style_marks)@,
            ),
    {
        match show_field_mark(field) {
            Some(r) => set_local_dirty1(dirty_list, id, r, style_marks),
            None => {},
        }
    }

    /// The text content of `id` is created: every text and font flag, and
    /// `Text`, become dirty (not local).
    pub fn on_text_content_create(
        &mut self,
        style_marks: &mut Vec<Option<StyleMark>>,
        dirty_list: &mut DirtyList,
        id: usize,
    )
        requires
            id < old(style_marks)@.len(),
            old(style_marks)@[id as int] is Some,
        ensures
            final(style_marks)@ == old(style_marks)@.update(
                id as int,
                Some(
                    StyleMark {
                        dirty: old(style_marks)@[id as int]->0.dirty | (TEXT_STYLE_DIRTY | TY_TEXT),
                        ..old(style_marks)@[id as int]->0
                    },
                ),
            ),
            final(dirty_list).list@ == pushed_if_clean(
                old(dirty_list).list@,
                id,
                old(style_marks)@[id as int]->0,
            ),
            final(dirty_list).version == old(dirty_list).version,
            final(dirty_list).count == old(dirty_list).count,
            dirty_list_exact(old(dirty_list).list@, old(style_marks)@) ==> dirty_list_exact(
                final(dirty_list).list@,
                final(style_marks)@,
            ),
    {
        let ghost l0 = dirty_list.list@;
        let ghost marks0 = style_marks@;
        let mut style_mark = style_marks[id].unwrap();
        let ghost m = style_mark;
        set_dirty(dirty_list, id, TEXT_STYLE_DIRTY | TY_TEXT, &mut style_mark);
        proof {
            lemma_or_nonzero(TEXT_STYLE_DIRTY, TY_TEXT);
            lemma_or_nonzero(m.dirty, TEXT_STYLE_DIRTY | TY_TEXT);
            if dirty_list_exact(l0, marks0) {
                lemma_exact_after_change(l0, marks0, id, style_mark);
            }
        }
        style_marks.set(id, Some(style_mark));
    }
}


/// The mark of a node put on the tree: `Create` becomes local, and every
/// local or class flag, with `Create`, becomes dirty.
pub open spec fn created_mark(m: StyleMark) -> StyleMark {
    StyleMark {
        dirty: m.dirty | (m.local_style | m.class_style),
        dirty1: (m.dirty1 | TY1_CREATE) | ((m.local_style1 | TY1_CREATE) | m.class_style1),
        dirty2: m.dirty2 | (m.local_style2 | m.class_style2),
        local_style1: m.local_style1 | TY1_CREATE,
        ..m
    }
}

proof fn lemma_created_dirty(m: StyleMark)
    ensures
        !created_mark(m).is_clean(),
        (m.dirty1 | TY1_CREATE) != 0,
{
    lemma_create_bits(m.dirty1, m.local_style1, m.class_style1);
}

proof fn lemma_create_bits(d: u64, l: u64, c: u64)
    by (bit_vector)
    ensures
        (d | TY1_CREATE) | ((l | TY1_CREATE) | c) != 0,
        (d | TY1_CREATE) != 0,
{
}

/// The flags `w` holds all of `bits`.
pub open spec fn holds_all(w: u64, bits: u64) -> bool {
    w & bits == bits
}

/// A node put on the tree is redone in full: each dirty word keeps what was
/// dirty and gains every flag the node's local style or classes set (and
/// `Create`), and nothing more; `Create` becomes local, and nothing else of
/// the mark changes.
pub proof fn lemma_created_mark_redoes_styles(m: StyleMark)
    ensures
        holds_all(created_mark(m).dirty, m.dirty | m.local_style | m.class_style),
        holds_all(created_mark(m).dirty1, m.dirty1 | m.local_style1 | m.class_style1 | TY1_CREATE),
        holds_all(created_mark(m).dirty2, m.dirty2 | m.local_style2 | m.class_style2),
        created_mark(m).dirty & !(m.dirty | m.local_style | m.class_style) == 0,
        created_mark(m).dirty1 & !(m.dirty1 | m.local_style1 | m.class_style1 | TY1_CREATE) == 0,
        created_mark(m).dirty2 & !(m.dirty2 | m.local_style2 | m.class_style2) == 0,
        holds_all(created_mark(m).local_style1, m.local_style1 | TY1_CREATE),
        created_mark(m).local_style1 & !(m.local_style1 | TY1_CREATE) == 0,
        created_mark(m).local_style == m.local_style,
        created_mark(m).local_style2 == m.local_style2,
        created_mark(m).class_style == m.class_style,
        created_mark(m).class_style1 == m.class_style1,
        created_mark(m).class_style2 == m.class_style2,
        created_mark(m).dirty_other == m.dirty_other,
{
    lemma_or3_exact(m.dirty, m.local_style, m.class_style);
    lemma_or3_exact(m.dirty2, m.local_style2, m.class_style2);
    lemma_create_exact(m.dirty1, m.local_style1, m.class_style1);
}

proof fn lemma_or3_exact(d: u64, l: u64, c: u64)
    by (bit_vector)
    ensures
        (d | (l | c)) & (d | l | c) == d | l | c,
        (d | (l | c)) & !(d | l | c) == 0,
{
}

proof fn lemma_create_exact(d: u64, l: u64, c: u64)
    by (bit_vector)
    ensures
        ((d | TY1_CREATE) | ((l | TY1_CREATE) | c)) & (d | l | c | TY1_CREATE) == d | l | c | TY1_CREATE,
        ((d | TY1_CREATE) | ((l | TY1_CREATE) | c)) & !(d | l | c | TY1_CREATE) == 0,
        (l | TY1_CREATE) & (l | TY1_CREATE) == l | TY1_CREATE,
        (l | TY1_CREATE) & !(l | TY1_CREATE) == 0,
{
}

/// The nodes that a tree creation started at `id` lists, in the order it
/// visits them (a node before its children, children in order, through real
/// nodes only): each node whose mark `marks` was clean.
pub open spec fn created_order(t: Seq<TreeNode>, reals: Seq<bool>, marks: Seq<Option<StyleMark>>, id: int) -> Seq<usize>
    decreases usize::MAX - t[id].layer, t[id].children@.len() + 1,
{
    if 0 <= id < t.len() && reals[id] {
        (if marks[id]->0.is_clean() { seq![id as usize] } else { Seq::empty() }) + created_below(
            t,
            reals,
            marks,
            id,
            t[id].children@.len() as int,
        )
    } else {
        Seq::empty()
    }
}

/// The nodes listed below the first `k` children of `id` (see `created_order`).
pub open spec fn created_below(
    t: Seq<TreeNode>,
    reals: Seq<bool>,
    marks: Seq<Option<StyleMark>>,
    id: int,
    k: int,
) -> Seq<usize>
    decreases usize::MAX - t[id].layer, k,
{
    if 0 <= id < t.len() && 0 < k <= t[id].children@.len() {
        let c = t[id].children@[k - 1] as int;
        created_below(t, reals, marks, id, k - 1) + if 0 <= c < t.len() && t[c].layer > t[id].layer {
            created_order(t, reals, marks, c)
        } else {
            Seq::empty()
        }
    } else {
        Seq::empty()
    }
}

/// The order depends only on the marks of the subtree.
proof fn lemma_created_frame(
    t: Seq<TreeNode>,
    reals: Seq<bool>,
    m1: Seq<Option<StyleMark>>,
    m2: Seq<Option<StyleMark>>,
    id: int,
)
    requires
        tree_wf(t),
        0 <= id < t.len(),
        t[id].layer > 0,
        forall|x: int| 0 <= x < t.len() && in_subtree(t, x, id) ==> #[trigger] m1[x] == m2[x],
    ensures
        created_order(t, reals, m1, id) == created_order(t, reals, m2, id),
    decreases usize::MAX - t[id].layer, t[id].children@.len() + 1,
{
    lemma_subtree_self(t, id);
    lemma_created_below_frame(t, reals, m1, m2, id, t[id].children@.len() as int);
}

/// The order below the first `k` children depends only on the marks of the subtree.
proof fn lemma_created_below_frame(
    t: Seq<TreeNode>,
    reals: Seq<bool>,
    m1: Seq<Option<StyleMark>>,
    m2: Seq<Option<StyleMark>>,
    id: int,
    k: int,
)
    requires
        tree_wf(t),
        0 <= id < t.len(),
        t[id].layer > 0,
        0 <= k <= t[id].children@.len(),
        forall|x: int| 0 <= x < t.len() && in_subtree(t, x, id) ==> #[trigger] m1[x] == m2[x],
    ensures
        created_below(t, reals, m1, id, k) == created_below(t, reals, m2, id, k),
    decreases usize::MAX - t[id].layer, k,
{
    if k > 0 {
        lemma_created_below_frame(t, reals, m1, m2, id, k - 1);
        let c = t[id].children@[k - 1] as int;
        assert(0 < c < t.len() && t[c].layer == t[id].layer + 1);
        assert forall|x: int| 0 <= x < t.len() && in_subtree(t, x, c) implies #[trigger] m1[x] == m2[x] by {
            lemma_child_subtree(t, id, k - 1, x);
        }
        lemma_created_frame(t, reals, m1, m2, c);
    }
}

/// Marks `id` (a real node with a mark) created and recurses into its children.
fn idtree_create(
    id: usize,
    idtree: &IdTree,
    node_states: &Vec<bool>,
    style_marks: &mut Vec<Option<StyleMark>>,
    dirty_list: &mut DirtyList,
)
    requires
        tree_wf(idtree.nodes@),
        node_states@.len() == idtree.nodes@.len(),
        old(style_marks)@.len() == idtree.nodes@.len(),
        id < idtree.nodes@.len(),
        idtree.nodes@[id as int].layer > 0,
        forall|x: int|
            0 <= x < idtree.nodes@.len() && show_updates(idtree.nodes@, node_states@, x, id as int)
                ==> (#[trigger] old(style_marks)@[x]) is Some,
    ensures
        final(style_marks)@.len() == old(style_marks)@.len(),
        forall|x: int|
            0 <= x < final(style_marks)@.len() ==> #[trigger] final(style_marks)@[x] == if show_updates(
                idtree.nodes@,
                node_states@,
                x,
                id as int,
            ) {
                Some(created_mark(old(style_marks)@[x]->0))
            } else {
                old(style_marks)@[x]
            },
        final(dirty_list).list@ == old(dirty_list).list@ + created_order(
            idtree.nodes@,
            node_states@,
            old(style_marks)@,
            id as int,
        ),
        final(dirty_list).version == old(dirty_list).version,
        final(dirty_list).count == old(dirty_list).count,
        dirty_list_exact(old(dirty_list).list@, old(style_marks)@) ==> dirty_list_exact(
            final(dirty_list).list@,
            final(style_marks)@,
        ),
    decreases usize::MAX - idtree.nodes@[id as int].layer,
{
    let ghost t = idtree.nodes@;
    let ghost reals = node_states@;
    let ghost old_marks = style_marks@;
    let ghost l0 = dirty_list.list@;
    let ghost exact0 = dirty_list_exact(dirty_list.list@, style_marks@);
    let ghost L = t[id as int].layer as int;
    if !node_states[id] {
        proof {
            assert forall|x: int| 0 <= x < t.len() implies !show_updates(t, reals, x, id as int) by {
                if show_updates(t, reals, x, id as int) && x != id {
                    lemma_subtree_parent(t, x, id as int);
                    lemma_reaches_up(t, reals, x, id as int);
                }
            }
            assert(dirty_list.list@ =~= l0 + created_order(t, reals, old_marks, id as int));
        }
        return ;
    }
    proof {
        lemma_subtree_self(t, id as int);
    }
    let mut mark = style_marks[id].unwrap();
    let ghost m0 = mark;
    set_dirty1(dirty_list, id, TY1_CREATE, &mut mark);
    mark.local_style1 = mark.local_style1 | TY1_CREATE;
    mark.dirty = mark.dirty | (mark.local_style | mark.class_style);
    mark.dirty1 = mark.dirty1 | (mark.local_style1 | mark.class_style1);
    mark.dirty2 = mark.dirty2 | (mark.local_style2 | mark.class_style2);
    proof {
        assert(mark == created_mark(m0));
        lemma_created_dirty(m0);
        if exact0 {
            lemma_exact_after_change(l0, old_marks, id, mark);
        }
    }
    style_marks.set(id, Some(mark));
    let ghost head: Seq<usize> = if m0.is_clean() { seq![id] } else { Seq::empty() };
    proof {
        assert(dirty_list.list@ =~= l0 + head + created_below(t, reals, old_marks, id as int, 0));
    }
    let children = &idtree.nodes[id].children;
    let mut j: usize = 0;
    while j < children.len()
        invariant
            tree_wf(t),
            t == idtree.nodes@,
            reals == node_states@,
            reals.len() == t.len(),
            id < t.len(),
            L == t[id as int].layer,
            L > 0,
            reals[id as int],
            *children == t[id as int].children,
            j <= children@.len(),
            style_marks@.len() == t.len(),
            old_marks.len() == t.len(),
            forall|x: int|
                0 <= x < t.len() && show_updates(t, reals, x, id as int) ==> (#[trigger] old_marks[x]) is Some,
            forall|x: int|
                0 <= x < t.len() ==> #[trigger] style_marks@[x] == if x == id || (in_subtree(
                    t,
                    x,
                    id as int,
                ) && children@.take(j as int).contains(ancestor_at(t, x, L + 1) as usize)
                    && show_reaches(t, reals, x, id as int)) {
                    Some(created_mark(old_marks[x]->0))
                } else {
                    old_marks[x]
                },
            head == (if old_marks[id as int]->0.is_clean() { seq![id] } else { Seq::<usize>::empty() }),
            old_marks[id as int] is Some,
            dirty_list.list@ == l0 + head + created_below(t, reals, old_marks, id as int, j as int),
            dirty_list.version == old(dirty_list).version,
            dirty_list.count == old(dirty_list).count,
            exact0 ==> dirty_list_exact(dirty_list.list@, style_marks@),
        decreases children@.len() - j,
    {
        let c = children[j];
        proof {
            assert(t[id as int].children@[j as int] == c);
            assert(0 < c < t.len() && t[c as int].layer == L + 1);
            assert(children@.no_duplicates());
        }
        let ghost prev = style_marks@;
        let ghost lp = dirty_list.list@;
        proof {
            assert forall|x: int|
                0 <= x < t.len() && show_updates(t, reals, x, c as int) implies (#[trigger] prev[x]) is Some by {
                lemma_child_subtree(t, id as int, j as int, x);
                lemma_reaches_through_child(t, reals, id as int, j as int, x);
                lemma_not_in_take(children@, j as int);
            }
        }
        idtree_create(c, idtree, node_states, style_marks, dirty_list);
        proof {
            assert forall|x: int| 0 <= x < t.len() && in_subtree(t, x, c as int) implies #[trigger] prev[x]
                == old_marks[x] by {
                lemma_child_subtree(t, id as int, j as int, x);
                lemma_not_in_take(children@, j as int);
            }
            lemma_created_frame(t, reals, prev, old_marks, c as int);
            assert(created_below(t, reals, old_marks, id as int, j + 1) == created_below(
                t,
                reals,
                old_marks,
                id as int,
                j as int,
            ) + created_order(t, reals, old_marks, c as int));
            assert(dirty_list.list@ =~= l0 + head + created_below(t, reals, old_marks, id as int, j + 1));
            assert forall|x: int| 0 <= x < t.len() implies #[trigger] style_marks@[x] == if x == id || (
            in_subtree(t, x, id as int) && children@.take(j + 1).contains(
                ancestor_at(t, x, L + 1) as usize,
            ) && show_reaches(t, reals, x, id as int)) {
                Some(created_mark(old_marks[x]->0))
            } else {
                old_marks[x]
            } by {
                lemma_take_step(children@, j as int);
                let p_x = prev[x];
                let a = ancestor_at(t, x, L + 1) as usize;
                if in_subtree(t, x, c as int) {
                    lemma_child_subtree(t, id as int, j as int, x);
                    lemma_reaches_through_child(t, reals, id as int, j as int, x);
                    lemma_not_in_take(children@, j as int);
                    assert(a == c);
                    assert(!children@.take(j as int).contains(a));
                    assert(p_x == old_marks[x]);
                } else {
                    if x != id && in_subtree(t, x, id as int) && a == c {
                        lemma_subtree_child(t, x, id as int);
                        assert(in_subtree(t, x, c as int));
                    }
                    assert(style_marks@[x] == p_x);
                }
            }
        }
        j = j + 1;
    }
    proof {
        assert(children@.take(children@.len() as int) =~= children@);
        assert forall|x: int| 0 <= x < t.len() && x != id && in_subtree(t, x, id as int) implies
            children@.contains(ancestor_at(t, x, L + 1) as usize) by {
            lemma_subtree_child(t, x, id as int);
        }
    }
}

impl StyleMarkSys {
    /// Node `id`, on the tree, was put on the tree with its subtree: every
    /// real node reached from it (through real nodes) is marked created, so
    /// that all its local and class styles are dirty again; those that were
    /// clean are listed in the order they are reached.
    pub fn on_tree_create(
        &mut self,
        id: usize,
        idtree: &IdTree,
        node_states: &Vec<bool>,
        style_marks: &mut Vec<Option<StyleMark>>,
        dirty_list: &mut DirtyList,
    )
        requires
            tree_wf(idtree.nodes@),
            node_states@.len() == idtree.nodes@.len(),
            old(style_marks)@.len() == idtree.nodes@.len(),
            id < idtree.nodes@.len(),
            idtree.nodes@[id as int].layer > 0,
            forall|x: int|
                0 <= x < idtree.nodes@.len() && show_updates(idtree.nodes@, node_states@, x, id as int)
                    ==> (#[trigger] old(style_marks)@[x]) is Some,
        ensures
            final(style_marks)@.len() == old(style_marks)@.len(),
            forall|x: int|
                0 <= x < final(style_marks)@.len() ==> #[trigger] final(style_marks)@[x] == if show_updates(
                    idtree.nodes@,
                    node_states@,
                    x,
                    id as int,
                ) {
                    Some(created_mark(old(style_marks)@[x]->0))
                } else {
                    old(style_marks)@[x]
                },
            final(dirty_list).list@ == old(dirty_list).list@ + created_order(
                idtree.nodes@,
                node_states@,
                old(style_marks)@,
                id as int,
            ),
            final(dirty_list).version == old(dirty_list).version,
            final(dirty_list).count == old(dirty_list).count,
            dirty_list_exact(old(dirty_list).list@, old(style_marks)@) ==> dirty_list_exact(
                final(dirty_list).list@,
                final(style_marks)@,
            ),
    {
        idtree_create(id, idtree, node_states, style_marks, dirty_list);
    }
}


/// `x` is `id` or a node below it.
pub open spec fn at_or_below(t: Seq<TreeNode>, x: int, id: int) -> bool {
    x == id || in_subtree(t, x, id)
}

/// `s` with the slots of `id` and of the nodes below it emptied.
pub open spec fn released<A>(s: Seq<Option<A>>, t: Seq<TreeNode>, id: int) -> Seq<Option<A>> {
    Seq::new(s.len(), |x: int| if at_or_below(t, x, id) { None } else { s[x] })
}

/// Empties the slots of `id` and of every node below it.
fn release_subtree<A>(id: usize, idtree: &IdTree, storage: &mut Vec<Option<A>>)
    requires
        tree_wf(idtree.nodes@),
        id < idtree.nodes@.len(),
    ensures
        final(storage)@ == released(old(storage)@, idtree.nodes@, id as int),
    decreases usize::MAX - idtree.nodes@[id as int].layer,
{
    let ghost t = idtree.nodes@;
    let ghost s0 = storage@;
    let ghost L = t[id as int].layer as int;
    if id < storage.len() && storage[id].is_some() {
        storage.set(id, None);
    }
    let children = &idtree.nodes[id].children;
    let mut j: usize = 0;
    proof {
        assert forall|x: int| 0 <= x < s0.len() implies #[trigger] storage@[x] == (if x == id || (in_subtree(
            t,
            x,
            id as int,
        ) && x != id && children@.take(0).contains(ancestor_at(t, x, L + 1) as usize)) {
            None
        } else {
            s0[x]
        }) by {}
    }
    while j < children.len()
        invariant
            tree_wf(t),
            t == idtree.nodes@,
            id < t.len(),
            L == t[id as int].layer,
            *children == t[id as int].children,
            j <= children@.len(),
            storage@.len() == s0.len(),
            forall|x: int|
                0 <= x < s0.len() ==> #[trigger] storage@[x] == if x == id || (in_subtree(t, x, id as int) && x
                    != id && children@.take(j as int).contains(ancestor_at(t, x, L + 1) as usize)) {
                    None
                } else {
                    s0[x]
                },
        decreases children@.len() - j,
    {
        let c = children[j];
        proof {
            assert(t[id as int].children@[j as int] == c);
            assert(0 < c < t.len() && t[c as int].layer == L + 1);
            assert(L > 0);
        }
        let ghost prev = storage@;
        release_subtree(c, idtree, storage);
        proof {
            lemma_take_step(children@, j as int);
            lemma_subtree_self(t, c as int);
            assert forall|x: int| 0 <= x < s0.len() implies #[trigger] storage@[x] == (if x == id || (
            in_subtree(t, x, id as int) && x != id && children@.take(j + 1).contains(
                ancestor_at(t, x, L + 1) as usize,
            )) {
                None
            } else {
                s0[x]
            }) by {
                let a = ancestor_at(t, x, L + 1) as usize;
                if in_subtree(t, x, c as int) {
                    lemma_child_subtree(t, id as int, j as int, x);
                }
                if in_subtree(t, x, id as int) && x != id && a == c {
                    lemma_subtree_child(t, x, id as int);
                }
            }
        }
        j = j + 1;
    }
    proof {
        assert(children@.take(children@.len() as int) =~= children@);
        assert forall|x: int| 0 <= x < s0.len() implies #[trigger] storage@[x] == released(s0, t, id as int)[x] by {
            if in_subtree(t, x, id as int) && x != id {
                lemma_subtree_child(t, x, id as int);
            }
        }
        assert(storage@ =~= released(s0, t, id as int));
    }
}

impl StyleMarkSys {
    /// Node `id` is taken off the tree: the mask, image and border-image
    /// textures of `id` and of every node below it are released.
    pub fn on_tree_delete<A, B, C>(
        &mut self,
        id: usize,
        idtree: &IdTree,
        mask_textures: &mut Vec<Option<A>>,
        image_textures: &mut Vec<Option<B>>,
        border_image_textures: &mut Vec<Option<C>>,
    )
        requires
            tree_wf(idtree.nodes@),
            id < idtree.nodes@.len(),
        ensures
            final(mask_textures)@ == released(old(mask_textures)@, idtree.nodes@, id as int),
            final(image_textures)@ == released(old(image_textures)@, idtree.nodes@, id as int),
            final(border_image_textures)@ == released(old(border_image_textures)@, idtree.nodes@, id as int),
    {
        release_subtree(id, idtree, mask_textures);
        release_subtree(id, idtree, image_textures);
        release_subtree(id, idtree, border_image_textures);
    }
}

/// A style whose creation or change is set on the node itself (local style)
/// and marks one flag.
#[derive(Clone, Copy, Debug)]
pub enum LocalStyle {
    BlendMode,
    BackgroundImageOption,
    BorderImageClip,
    BorderImageSlice,
    MaskImageClip,
    BorderImageRepeat,
    BorderColor,
    BackgroundColor,
    BoxShadow,
    Opacity,
    Blur,
    TransformWillChange,
    Overflow,
    ByOverflow,
    ClipPath,
    BorderRadius,
    TextContent,
}

/// The group (0, 1 or 2) and the flag a local style marks.
pub open spec fn local_style_flag(s: LocalStyle) -> (int, u64) {
    match s {
        LocalStyle::BlendMode => (2, TY2_BLEND_MODE),
        LocalStyle::BackgroundImageOption => (0, TY_OBJECT_FIT),
        LocalStyle::BorderImageClip => (0, TY_BORDER_IMAGE_CLIP),
        LocalStyle::BorderImageSlice => (0, TY_BORDER_IMAGE_SLICE),
        LocalStyle::MaskImageClip => (1, TY1_MASK_IMAGE_CLIP),
        LocalStyle::BorderImageRepeat => (0, TY_BORDER_IMAGE_REPEAT),
        LocalStyle::BorderColor => (0, TY_BORDER_COLOR),
        LocalStyle::BackgroundColor => (0, TY_BACKGROUND_COLOR),
        LocalStyle::BoxShadow => (0, TY_BOX_SHADOW),
        LocalStyle::Opacity => (0, TY_OPACITY),
        LocalStyle::Blur => (1, TY1_BLUR),
        LocalStyle::TransformWillChange => (1, TY1_TRANSFORM_WILL_CHANGE),
        LocalStyle::Overflow => (1, TY1_OVERFLOW),
        LocalStyle::ByOverflow => (0, TY_BY_OVERFLOW),
        LocalStyle::ClipPath => (1, TY1_CLIP_PATH),
        LocalStyle::BorderRadius => (0, TY_BORDER_RADIUS),
        LocalStyle::TextContent => (0, TY_TEXT),
    }
}

fn local_style_flag_exec(s: LocalStyle) -> (r: (u8, u64))
    ensures
        r.0 as int == local_style_flag(s).0,
        r.1 == local_style_flag(s).1,
{
    match s {
        LocalStyle::BlendMode => (2, TY2_BLEND_MODE),
        LocalStyle::BackgroundImageOption => (0, TY_OBJECT_FIT),
        LocalStyle::BorderImageClip => (0, TY_BORDER_IMAGE_CLIP),
        LocalStyle::BorderImageSlice => (0, TY_BORDER_IMAGE_SLICE),
        LocalStyle::MaskImageClip => (1, TY1_MASK_IMAGE_CLIP),
        LocalStyle::BorderImageRepeat => (0, TY_BORDER_IMAGE_REPEAT),
        LocalStyle::BorderColor => (0, TY_BORDER_COLOR),
        LocalStyle::BackgroundColor => (0, TY_BACKGROUND_COLOR),
        LocalStyle::BoxShadow => (0, TY_BOX_SHADOW),
        LocalStyle::Opacity => (0, TY_OPACITY),
        LocalStyle::Blur => (1, TY1_BLUR),
        LocalStyle::TransformWillChange => (1, TY1_TRANSFORM_WILL_CHANGE),
        LocalStyle::Overflow => (1, TY1_OVERFLOW),
        LocalStyle::ByOverflow => (0, TY_BY_OVERFLOW),
        LocalStyle::ClipPath => (1, TY1_CLIP_PATH),
        LocalStyle::BorderRadius => (0, TY_BORDER_RADIUS),
        LocalStyle::TextContent => (0, TY_TEXT),
    }
}

/// The mark after flag `ty` of group `g` became dirty and local.
pub open spec fn marked_local(m: StyleMark, g: int, ty: u64) -> StyleMark {
    if g == 0 {
        StyleMark { dirty: m.dirty | ty, local_style: m.local_style | ty, ..m }
    } else if g == 1 {
        StyleMark { dirty1: m.dirty1 | ty, local_style1: m.local_style1 | ty, ..m }
    } else {
        StyleMark { dirty2: m.dirty2 | ty, local_style2: m.local_style2 | ty, ..m }
    }
}

/// The marks and dirty list after flag `ty` of group `g` of node `id` became
/// dirty and local (nothing changes for a node without a mark).
pub open spec fn local_marked(
    marks: Seq<Option<StyleMark>>,
    list: Seq<usize>,
    id: usize,
    g: int,
    ty: u64,
) -> (Seq<Option<StyleMark>>, Seq<usize>) {
    if id < marks.len() && marks[id as int] is Some {
        (
            marks.update(id as int, Some(marked_local(marks[id as int]->0, g, ty))),
            pushed_if_clean(list, id, marks[id as int]->0),
        )
    } else {
        (marks, list)
    }
}

/// The mark after flag `ty` of group `g` became dirty (not local).
pub open spec fn marked_dirty(m: StyleMark, g: int, ty: u64) -> StyleMark {
    if g == 0 {
        StyleMark { dirty: m.dirty | ty, ..m }
    } else if g == 1 {
        StyleMark { dirty1: m.dirty1 | ty, ..m }
    } else {
        StyleMark { dirty2: m.dirty2 | ty, ..m }
    }
}

/// The marks and dirty list after flag `ty` of group `g` of node `id` became
/// dirty (nothing changes for a node without a mark).
pub open spec fn dirty_marked(
    marks: Seq<Option<StyleMark>>,
    list: Seq<usize>,
    id: usize,
    g: int,
    ty: u64,
) -> (Seq<Option<StyleMark>>, Seq<usize>) {
    if id < marks.len() && marks[id as int] is Some {
        (
            marks.update(id as int, Some(marked_dirty(marks[id as int]->0, g, ty))),
            pushed_if_clean(list, id, marks[id as int]->0),
        )
    } else {
        (marks, list)
    }
}

/// Marks flag `ty` of group `g` dirty on the mark of `id`, if it has one.
fn mark_dirty_if_present(
    style_marks: &mut Vec<Option<StyleMark>>,
    dirty_list: &mut DirtyList,
    id: usize,
    g: u8,
    ty: u64,
)
    requires
        g <= 2,
    ensures
        (final(style_marks)@, final(dirty_list).list@) == dirty_marked(
            old(style_marks)@,
            old(dirty_list).list@,
            id,
            g as int,
            ty,
        ),
        final(dirty_list).version == old(dirty_list).version,
        final(dirty_list).count == old(dirty_list).count,
        dirty_list_exact(old(dirty_list).list@, old(style_marks)@) && ty != 0 ==> dirty_list_exact(
            final(dirty_list).list@,
            final(style_marks)@,
        ),
{
    if id < style_marks.len() {
        if let Some(m) = style_marks[id] {
            let mut mark = m;
            if g == 0 {
                set_dirty(dirty_list, id, ty, &mut mark);
            } else if g == 1 {
                set_dirty1(dirty_list, id, ty, &mut mark);
            } else {
                set_dirty2(dirty_list, id, ty, &mut mark);
            }
            proof {
                lemma_or_nonzero(m.dirty, ty);
                lemma_or_nonzero(m.dirty1, ty);
                lemma_or_nonzero(m.dirty2, ty);
                if dirty_list_exact(old(dirty_list).list@, old(style_marks)@) && ty != 0 {
                    lemma_exact_after_mark(old(dirty_list).list@, old(style_marks)@, id, mark);
                }
            }
            style_marks.set(id, Some(mark));
        }
    }
}

/// The change of a computed value of a node, marking one group-0 flag dirty.
#[derive(Clone, Copy, Debug)]
pub enum ComputedChange {
    /// The layout result changed.
    Layout,
    /// The bounding box was created or changed.
    Oct,
    /// The world matrix changed.
    WorldMatrix,
    /// The z range changed (marks `Matrix`).
    ZRange,
    /// The computed opacity changed.
    Opacity,
}

/// The group-0 flag a computed change marks.
pub open spec fn computed_change_flag(c: ComputedChange) -> u64 {
    match c {
        ComputedChange::Layout => TY_LAYOUT,
        ComputedChange::Oct => TY_OCT,
        ComputedChange::WorldMatrix => TY_MATRIX,
        ComputedChange::ZRange => TY_MATRIX,
        ComputedChange::Opacity => TY_OPACITY,
    }
}

/// The change of a texture or box of a node, marking one group-1 flag dirty
/// when the node has a mark.
#[derive(Clone, Copy, Debug)]
pub enum TextureChange {
    MaskTexture,
    BorderImageTexture,
    ContentBox,
    /// The mask image was deleted (marks `ContentBox`).
    MaskImageDelete,
}

/// The group-1 flag a texture change marks.
pub open spec fn texture_change_flag(c: TextureChange) -> u64 {
    match c {
        TextureChange::MaskTexture => TY1_MASK_TEXTURE,
        TextureChange::BorderImageTexture => TY1_BORDER_IMAGE_TEXTURE,
        TextureChange::ContentBox => TY1_CONTENT_BOX,
        TextureChange::MaskImageDelete => TY1_CONTENT_BOX,
    }
}

/// A style of which the change from a class (field `"class"`) is not a
/// local change.
#[derive(Clone, Copy, Debug)]
pub enum ClassAwareStyle {
    ZIndex,
    Transform,
    Filter,
}

/// The group and the flag a class-aware style marks.
pub open spec fn class_aware_flag(s: ClassAwareStyle) -> (int, u64) {
    match s {
        ClassAwareStyle::ZIndex => (1, TY1_ZINDEX),
        ClassAwareStyle::Transform => (1, TY1_TRANSFORM),
        ClassAwareStyle::Filter => (0, TY_FILTER),
    }
}

/// An image sets the width exactly when neither the local nor the class
/// style sets it, the height likewise, and no other size flag.
pub proof fn lemma_image_size_free(m: StyleMark)
    ensures
        image_size_flags(m) & !(TY2_WIDTH | TY2_HEIGHT) == 0,
        (image_size_flags(m) & TY2_WIDTH != 0) == (m.local_style2 & TY2_WIDTH == 0 && m.class_style2 & TY2_WIDTH
            == 0),
        (image_size_flags(m) & TY2_HEIGHT != 0) == (m.local_style2 & TY2_HEIGHT == 0 && m.class_style2
            & TY2_HEIGHT == 0),
{
    let w = m.local_style2 & TY2_WIDTH == 0 && m.class_style2 & TY2_WIDTH == 0;
    let h = m.local_style2 & TY2_HEIGHT == 0 && m.class_style2 & TY2_HEIGHT == 0;
    assert(((if w { TY2_WIDTH } else { 0 }) | (if h { TY2_HEIGHT } else { 0 })) & !(TY2_WIDTH | TY2_HEIGHT) == 0
        && ((((if w { TY2_WIDTH } else { 0 }) | (if h { TY2_HEIGHT } else { 0 })) & TY2_WIDTH != 0) == w)
        && ((((if w { TY2_WIDTH } else { 0 }) | (if h { TY2_HEIGHT } else { 0 })) & TY2_HEIGHT != 0) == h))
        by (bit_vector);
}

/// A change of the world matrix or of the z range.
pub open spec fn matrix_change(c: ComputedChange) -> bool {
    c is WorldMatrix || c is ZRange
}

/// A change of the content box, or of the mask image it depends on.
pub open spec fn box_change(c: TextureChange) -> bool {
    c is ContentBox || c is MaskImageDelete
}

/// Two computed changes mark the same flag only when both are matrix
/// changes (the world matrix and the z range), and each marks a flag.
pub proof fn lemma_computed_changes_distinct(a: ComputedChange, b: ComputedChange)
    ensures
        computed_change_flag(a) != 0,
        computed_change_flag(a) == computed_change_flag(b) ==> a == b || (matrix_change(a) && matrix_change(b)),
{
}

/// Two texture changes mark the same flag only when both concern the
/// content box (it changed, or the mask image it depends on was deleted).
pub proof fn lemma_texture_changes_distinct(a: TextureChange, b: TextureChange)
    ensures
        texture_change_flag(a) != 0,
        texture_change_flag(a) == texture_change_flag(b) ==> a == b || (box_change(a) && box_change(b)),
{
}

/// Two different local styles mark different flags of their groups.
pub proof fn lemma_local_styles_distinct(a: LocalStyle, b: LocalStyle)
    ensures
        local_style_flag(a).1 != 0,
        0 <= local_style_flag(a).0 <= 2,
        a != b ==> local_style_flag(a) != local_style_flag(b),
{
}

/// Marking a flag dirty and local sets it in the dirty and local words of
/// its group and nothing else; marking it dirty only leaves the local words.
pub proof fn lemma_marked_local_is_dirty_and_local(m: StyleMark, g: int, ty: u64)
    requires
        0 <= g <= 2,
    ensures
        marked_dirty(marked_local(m, g, ty), g, ty) == marked_local(m, g, ty),
        (StyleMark {
            local_style: m.local_style,
            local_style1: m.local_style1,
            local_style2: m.local_style2,
            ..marked_local(m, g, ty)
        }) == marked_dirty(m, g, ty),
        marked_dirty(m, g, ty).local_style == m.local_style && marked_dirty(m, g, ty).local_style1 == m.local_style1
            && marked_dirty(m, g, ty).local_style2 == m.local_style2,
        g == 0 ==> marked_local(m, g, ty).local_style == m.local_style | ty && marked_local(m, g, ty).dirty == m.dirty | ty,
        g == 1 ==> marked_local(m, g, ty).local_style1 == m.local_style1 | ty && marked_local(m, g, ty).dirty1 == m.dirty1 | ty,
        g == 2 ==> marked_local(m, g, ty).local_style2 == m.local_style2 | ty && marked_local(m, g, ty).dirty2 == m.dirty2 | ty,
{
    assert(forall|x: u64, y: u64| #[trigger] ((x | y) | y) == x | y) by (bit_vector);
}

/// The kind of image a node waits for, and whether it was set locally or by
/// a class.
#[derive(Clone, Copy, Debug, PartialEq, Eq)]
pub enum ImageType {
    ImageLocal,
    ImageClass,
    BorderImageLocal,
    BorderImageClass,
    MaskImageLocal,
    MaskImageClass,
}

/// The wait types of the images of a node put on the tree, for the images it
/// has: local when the node's local flags hold the image's flag (group 0
/// for the background and border images, group 1 for the mask image).
pub open spec fn load_types(
    m: StyleMark,
    has_image: bool,
    has_border_image: bool,
    has_mask_image: bool,
) -> (Option<ImageType>, Option<ImageType>, Option<ImageType>) {
    (
        if has_image {
            Some(if m.local_style & TY_IMAGE != 0 { ImageType::ImageLocal } else { ImageType::ImageClass })
        } else {
            None
        },
        if has_border_image {
            Some(
                if m.local_style & TY_BORDER_IMAGE != 0 {
                    ImageType::BorderImageLocal
                } else {
                    ImageType::BorderImageClass
                },
            )
        } else {
            None
        },
        if has_mask_image {
            Some(
                if m.local_style1 & TY1_MASK_IMAGE != 0 {
                    ImageType::MaskImageLocal
                } else {
                    ImageType::MaskImageClass
                },
            )
        } else {
            None
        },
    )
}

/// The wait types of the images (background, border, mask) to load for a
/// node put on the tree.
pub fn load_image(
    style_mark: &StyleMark,
    has_image: bool,
    has_border_image: bool,
    has_mask_image: bool,
) -> (r: (Option<ImageType>, Option<ImageType>, Option<ImageType>))
    ensures
        r == load_types(*style_mark, has_image, has_border_image, has_mask_image),
{
    let image = if has_image {
        Some(
            if style_mark.local_style & TY_IMAGE != 0 {
                ImageType::ImageLocal
            } else {
                ImageType::ImageClass
            },
        )
    } else {
        None
    };
    let border = if has_border_image {
        Some(
            if style_mark.local_style & TY_BORDER_IMAGE != 0 {
                ImageType::BorderImageLocal
            } else {
                ImageType::BorderImageClass
            },
        )
    } else {
        None
    };
    let mask = if has_mask_image {
        Some(
            if style_mark.local_style1 & TY1_MASK_IMAGE != 0 {
                ImageType::MaskImageLocal
            } else {
                ImageType::MaskImageClass
            },
        )
    } else {
        None
    };
    (image, border, mask)
}

/// The size flags an image sets: width and height, each unless the local or
/// class style sets it.
pub open spec fn image_size_flags(m: StyleMark) -> u64 {
    (if m.local_style2 & TY2_WIDTH == 0 && m.class_style2 & TY2_WIDTH == 0 {
        TY2_WIDTH
    } else {
        0
    }) | (if m.local_style2 & TY2_HEIGHT == 0 && m.class_style2 & TY2_HEIGHT == 0 {
        TY2_HEIGHT
    } else {
        0
    })
}

/// A loaded image sizes the node: returns the size flags (width, height) the
/// caller sets from the image, and marks them dirty. The node is already in
/// the dirty list, so the list is not touched.
pub fn set_image_size(style_mark: &mut StyleMark) -> (r: u64)
    ensures
        r == image_size_flags(*old(style_mark)),
        *final(style_mark) == (StyleMark { dirty2: old(style_mark).dirty2 | r, ..*old(style_mark) }),
{
    let w = if style_mark.local_style2 & TY2_WIDTH == 0 && style_mark.class_style2 & TY2_WIDTH == 0 {
        TY2_WIDTH
    } else {
        0
    };
    let h = if style_mark.local_style2 & TY2_HEIGHT == 0 && style_mark.class_style2 & TY2_HEIGHT == 0 {
        TY2_HEIGHT
    } else {
        0
    };
    style_mark.dirty2 = style_mark.dirty2 | (w | h);
    w | h
}

impl StyleMarkSys {
    /// A local style of `id` was created or changed: its flag becomes local
    /// and dirty. A group-1 style of a node without a mark changes nothing.
    pub fn on_local_style(
        &mut self,
        style_marks: &mut Vec<Option<StyleMark>>,
        dirty_list: &mut DirtyList,
        id: usize,
        style: LocalStyle,
    )
        requires
            local_style_flag(style).0 != 1 ==> id < old(style_marks)@.len() && old(style_marks)@[id as int] is Some,
        ensures
            (final(style_marks)@, final(dirty_list).list@) == local_marked(
                old(style_marks)@,
                old(dirty_list).list@,
                id,
                local_style_flag(style).0,
                local_style_flag(style).1,
            ),
            final(dirty_list).version == old(dirty_list).version,
            final(dirty_list).count == old(dirty_list).count,
            dirty_list_exact(old(dirty_list).list@, old(style_marks)@) ==> dirty_list_exact(
                final(dirty_list).list@,
                final(style_marks)@,
            ),
    {
        let (g, ty) = local_style_flag_exec(style);
        proof {
            assert(ty != 0) by {
                assert(local_style_flag(style).1 != 0);
            }
        }
        if g == 0 {
            set_local_dirty(dirty_list, id, ty, style_marks);
        } else if g == 1 {
            set_local_dirty1(dirty_list, id, ty, style_marks);
        } else {
            set_local_dirty2(dirty_list, id, ty, style_marks);
        }
    }

    /// A style of `id` that a class may also set changed: when the change
    /// comes from a class (field `"class"`) nothing happens, otherwise its
    /// flag becomes local and dirty.
    pub fn on_class_aware_style(
        &mut self,
        style_marks: &mut Vec<Option<StyleMark>>,
        dirty_list: &mut DirtyList,
        id: usize,
        field: &str,
        style: ClassAwareStyle,
    )
        requires
            style is Filter && field@ != "class"@ ==> id < old(style_marks)@.len() && old(
                style_marks,
            )@[id as int] is Some,
        ensures
            field@ == "class"@ ==> final(style_marks)@ == old(style_marks)@ && final(dirty_list).list@
                == old(dirty_list).list@,
            field@ != "class"@ ==> (final(style_marks)@, final(dirty_list).list@) == local_marked(
                old(style_marks)@,
                old(dirty_list).list@,
                id,
                class_aware_flag(style).0,
                class_aware_flag(style).1,
            ),
            final(dirty_list).version == old(dirty_list).version,
            final(dirty_list).count == old(dirty_list).count,
            dirty_list_exact(old(dirty_list).list@, old(style_marks)@) ==> dirty_list_exact(
                final(dirty_list).list@,
                final(style_marks)@,
            ),
    {
        if str_eq(field, "class") {
            return ;
        }
        match style {
            ClassAwareStyle::ZIndex => set_local_dirty1(dirty_list, id, TY1_ZINDEX, style_marks),
            ClassAwareStyle::Transform => set_local_dirty1(dirty_list, id, TY1_TRANSFORM, style_marks),
            ClassAwareStyle::Filter => set_local_dirty(dirty_list, id, TY_FILTER, style_marks),
        }
    }

    /// A computed value of `id` changed: its flag becomes dirty. Only a
    /// layout change tolerates a node without a mark (virtual nodes have none).
    pub fn on_computed_change(
        &mut self,
        style_marks: &mut Vec<Option<StyleMark>>,
        dirty_list: &mut DirtyList,
        id: usize,
        change: ComputedChange,
    )
        requires
            !(change is Layout) ==> id < old(style_marks)@.len() && old(style_marks)@[id as int] is Some,
        ensures
            (final(style_marks)@, final(dirty_list).list@) == dirty_marked(
                old(style_marks)@,
                old(dirty_list).list@,
                id,
                0,
                computed_change_flag(change),
            ),
            final(dirty_list).version == old(dirty_list).version,
            final(dirty_list).count == old(dirty_list).count,
            dirty_list_exact(old(dirty_list).list@, old(style_marks)@) ==> dirty_list_exact(
                final(dirty_list).list@,
                final(style_marks)@,
            ),
    {
        let ty = match change {
            ComputedChange::Layout => TY_LAYOUT,
            ComputedChange::Oct => TY_OCT,
            ComputedChange::WorldMatrix => TY_MATRIX,
            ComputedChange::ZRange => TY_MATRIX,
            ComputedChange::Opacity => TY_OPACITY,
        };
        mark_dirty_if_present(style_marks, dirty_list, id, 0, ty);
    }

    /// A render object of the context `context` was created: the context's
    /// `ByOverflow` flag becomes dirty.
    pub fn on_render_obj_create(
        &mut self,
        style_marks: &mut Vec<Option<StyleMark>>,
        dirty_list: &mut DirtyList,
        context: usize,
    )
        requires
            context < old(style_marks)@.len(),
            old(style_marks)@[context as int] is Some,
        ensures
            (final(style_marks)@, final(dirty_list).list@) == dirty_marked(
                old(style_marks)@,
                old(dirty_list).list@,
                context,
                0,
                TY_BY_OVERFLOW,
            ),
            final(dirty_list).version == old(dirty_list).version,
            final(dirty_list).count == old(dirty_list).count,
            dirty_list_exact(old(dirty_list).list@, old(style_marks)@) ==> dirty_list_exact(
                final(dirty_list).list@,
                final(style_marks)@,
            ),
    {
        mark_dirty_if_present(style_marks, dirty_list, context, 0, TY_BY_OVERFLOW);
    }

    /// A texture or box of `id` changed: its group-1 flag becomes dirty when
    /// the node has a mark.
    pub fn on_texture_change(
        &mut self,
        style_marks: &mut Vec<Option<StyleMark>>,
        dirty_list: &mut DirtyList,
        id: usize,
        change: TextureChange,
    )
        ensures
            (final(style_marks)@, final(dirty_list).list@) == dirty_marked(
                old(style_marks)@,
                old(dirty_list).list@,
                id,
                1,
                texture_change_flag(change),
            ),
            final(dirty_list).version == old(dirty_list).version,
            final(dirty_list).count == old(dirty_list).count,
            dirty_list_exact(old(dirty_list).list@, old(style_marks)@) ==> dirty_list_exact(
                final(dirty_list).list@,
                final(style_marks)@,
            ),
    {
        let ty = match change {
            TextureChange::MaskTexture => TY1_MASK_TEXTURE,
            TextureChange::BorderImageTexture => TY1_BORDER_IMAGE_TEXTURE,
            TextureChange::ContentBox => TY1_CONTENT_BOX,
            TextureChange::MaskImageDelete => TY1_CONTENT_BOX,
        };
        mark_dirty_if_present(style_marks, dirty_list, id, 1, ty);
    }

    /// The image texture of `id` was deleted: when the node is on the tree
    /// (and has a mark), `ImageTexture` becomes dirty.
    pub fn on_image_texture_delete(
        &mut self,
        style_marks: &mut Vec<Option<StyleMark>>,
        dirty_list: &mut DirtyList,
        idtree: &IdTree,
        id: usize,
    )
        ensures
            id < idtree.nodes@.len() && idtree.nodes@[id as int].layer > 0 ==> (
            final(style_marks)@,
            final(dirty_list).list@,
            ) == dirty_marked(old(style_marks)@, old(dirty_list).list@, id, 1, TY1_IMAGE_TEXTURE),
            !(id < idtree.nodes@.len() && idtree.nodes@[id as int].layer > 0) ==> final(style_marks)@
                == old(style_marks)@ && final(dirty_list).list@ == old(dirty_list).list@,
            final(dirty_list).version == old(dirty_list).version,
            final(dirty_list).count == old(dirty_list).count,
            dirty_list_exact(old(dirty_list).list@, old(style_marks)@) ==> dirty_list_exact(
                final(dirty_list).list@,
                final(style_marks)@,
            ),
    {
        if let Some(layer) = idtree.layer(id) {
            if layer > 0 {
                mark_dirty_if_present(style_marks, dirty_list, id, 1, TY1_IMAGE_TEXTURE);
            }
        }
    }

    /// The image texture of `id` was created or changed: `ImageTexture`
    /// becomes dirty and, when the texture is loaded (`loaded`), the image
    /// sizes the node. Returns the size flags to set from the image.
    pub fn on_image_texture_change(
        &mut self,
        style_marks: &mut Vec<Option<StyleMark>>,
        dirty_list: &mut DirtyList,
        id: usize,
        loaded: bool,
    ) -> (r: u64)
        requires
            id < old(style_marks)@.len(),
            old(style_marks)@[id as int] is Some,
        ensures
            ({
                let m = old(style_marks)@[id as int]->0;
                let m1 = StyleMark { dirty1: m.dirty1 | TY1_IMAGE_TEXTURE, ..m };
                &&& r == if loaded { image_size_flags(m) } else { 0 }
                &&& final(style_marks)@ == old(style_marks)@.update(
                    id as int,
                    Some(StyleMark { dirty2: m1.dirty2 | r, ..m1 }),
                )
                &&& final(dirty_list).list@ == pushed_if_clean(old(dirty_list).list@, id, m)
            }),
            final(dirty_list).version == old(dirty_list).version,
            final(dirty_list).count == old(dirty_list).count,
            dirty_list_exact(old(dirty_list).list@, old(style_marks)@) ==> dirty_list_exact(
                final(dirty_list).list@,
                final(style_marks)@,
            ),
    {
        let ghost l0 = dirty_list.list@;
        let ghost marks0 = style_marks@;
        let mut mark = style_marks[id].unwrap();
        let ghost m = mark;
        set_dirty1(dirty_list, id, TY1_IMAGE_TEXTURE, &mut mark);
        let r = if loaded {
            set_image_size(&mut mark)
        } else {
            proof {
                lemma_or_zero(mark.dirty2);
            }
            0
        };
        proof {
            lemma_or_nonzero(m.dirty1, TY1_IMAGE_TEXTURE);
            if dirty_list_exact(l0, marks0) {
                lemma_exact_after_change(l0, marks0, id, mark);
            }
        }
        style_marks.set(id, Some(mark));
        r
    }

    /// The image clip of `id` was created or changed: `ImageClip` becomes
    /// local and dirty and, when the image is loaded, the image sizes the
    /// node. Returns the size flags to set from the image.
    pub fn on_image_clip_change(
        &mut self,
        style_marks: &mut Vec<Option<StyleMark>>,
        dirty_list: &mut DirtyList,
        id: usize,
        loaded: bool,
    ) -> (r: u64)
        requires
            id < old(style_marks)@.len(),
            old(style_marks)@[id as int] is Some,
        ensures
            ({
                let m = old(style_marks)@[id as int]->0;
                let m1 = StyleMark {
                    dirty: m.dirty | TY_IMAGE_CLIP,
                    local_style: m.local_style | TY_IMAGE_CLIP,
                    ..m
                };
                &&& r == if loaded { image_size_flags(m) } else { 0 }
                &&& final(style_marks)@ == old(style_marks)@.update(
                    id as int,
                    Some(StyleMark { dirty2: m1.dirty2 | r, ..m1 }),
                )
                &&& final(dirty_list).list@ == pushed_if_clean(old(dirty_list).list@, id, m)
            }),
            final(dirty_list).version == old(dirty_list).version,
            final(dirty_list).count == old(dirty_list).count,
            dirty_list_exact(old(dirty_list).list@, old(style_marks)@) ==> dirty_list_exact(
                final(dirty_list).list@,
                final(style_marks)@,
            ),
    {
        let ghost m0 = style_marks@[id as int]->0;
        set_local_dirty(dirty_list, id, TY_IMAGE_CLIP, style_marks);
        let ghost l1 = dirty_list.list@;
        let ghost marks1 = style_marks@;
        let mut mark = style_marks[id].unwrap();
        let ghost m1 = mark;
        let r = if loaded {
            set_image_size(&mut mark)
        } else {
            proof {
                lemma_or_zero(mark.dirty2);
            }
            0
        };
        proof {
            lemma_or_nonzero(m0.dirty, TY_IMAGE_CLIP);
            lemma_or_nonzero(m1.dirty, 0);
            lemma_or_nonzero(m1.dirty2, r);
            if dirty_list_exact(l1, marks1) {
                lemma_exact_after_change(l1, marks1, id, mark);
                assert(pushed_if_became_dirty(l1, id, m1, mark) == l1);
            }
        }
        style_marks.set(id, Some(mark));
        r
    }

    /// A local mask image of `id` was created or changed: `MaskImage` becomes
    /// local (its texture marks it dirty once loaded). Returns whether the
    /// mask image is to be loaded now: the node has a tree slot.
    pub fn on_mask_image_change(&mut self, style_marks: &mut Vec<Option<StyleMark>>, idtree: &IdTree, id: usize) -> (load: bool)
        requires
            id < old(style_marks)@.len(),
            old(style_marks)@[id as int] is Some,
        ensures
            final(style_marks)@ == old(style_marks)@.update(
                id as int,
                Some(
                    StyleMark {
                        local_style1: old(style_marks)@[id as int]->0.local_style1 | TY1_MASK_IMAGE,
                        ..old(style_marks)@[id as int]->0
                    },
                ),
            ),
            load == (id < idtree.nodes@.len()),
    {
        let mut mark = style_marks[id].unwrap();
        mark.local_style1 = mark.local_style1 | TY1_MASK_IMAGE;
        style_marks.set(id, Some(mark));
        id < idtree.nodes.len()
    }

    /// The image of `id` was created or changed: `Image` becomes local and
    /// dirty. Returns whether the image is to be loaded now: the node is on
    /// the tree.
    pub fn on_image_change(
        &mut self,
        style_marks: &mut Vec<Option<StyleMark>>,
        dirty_list: &mut DirtyList,
        idtree: &IdTree,
        id: usize,
    ) -> (load: bool)
        requires
            id < old(style_marks)@.len(),
            old(style_marks)@[id as int] is Some,
        ensures
            (final(style_marks)@, final(dirty_list).list@) == local_marked(
                old(style_marks)@,
                old(dirty_list).list@,
                id,
                0,
                TY_IMAGE,
            ),
            final(dirty_list).version == old(dirty_list).version,
            final(dirty_list).count == old(dirty_list).count,
            dirty_list_exact(old(dirty_list).list@, old(style_marks)@) ==> dirty_list_exact(
                final(dirty_list).list@,
                final(style_marks)@,
            ),
            load == (id < idtree.nodes@.len() && idtree.nodes@[id as int].layer > 0),
    {
        set_local_dirty(dirty_list, id, TY_IMAGE, style_marks);
        id < idtree.nodes.len() && idtree.nodes[id].layer > 0
    }

    /// The border image of `id` was created or changed: `BorderImage` becomes
    /// local and dirty. Returns whether the border image is to be loaded
    /// now: the node has a tree slot.
    pub fn on_border_image_change(
        &mut self,
        style_marks: &mut Vec<Option<StyleMark>>,
        dirty_list: &mut DirtyList,
        idtree: &IdTree,
        id: usize,
    ) -> (load: bool)
        requires
            id < old(style_marks)@.len(),
            old(style_marks)@[id as int] is Some,
        ensures
            (final(style_marks)@, final(dirty_list).list@) == local_marked(
                old(style_marks)@,
                old(dirty_list).list@,
                id,
                0,
                TY_BORDER_IMAGE,
            ),
            final(dirty_list).version == old(dirty_list).version,
            final(dirty_list).count == old(dirty_list).count,
            dirty_list_exact(old(dirty_list).list@, old(style_marks)@) ==> dirty_list_exact(
                final(dirty_list).list@,
                final(style_marks)@,
            ),
            load == (id < idtree.nodes@.len()),
    {
        set_local_dirty(dirty_list, id, TY_BORDER_IMAGE, style_marks);
        id < idtree.nodes.len()
    }
}

/// A node waiting for an image to load, and the kind of image it waits for.
#[derive(Clone, Copy, Debug, PartialEq, Eq)]
pub struct ImageWait {
    pub id: usize,
    pub ty: ImageType,
}

/// The url that node `id` currently wants for an image of kind `ty`: its
/// image, its border image or its mask image (a mask given by a path).
pub open spec fn wanted_url(
    ty: ImageType,
    image_urls: Seq<Option<usize>>,
    border_image_urls: Seq<Option<usize>>,
    mask_image_urls: Seq<Option<usize>>,
    id: int,
) -> Option<usize> {
    let urls = match ty {
        ImageType::ImageLocal | ImageType::ImageClass => image_urls,
        ImageType::BorderImageLocal | ImageType::BorderImageClass => border_image_urls,
        ImageType::MaskImageLocal | ImageType::MaskImageClass => mask_image_urls,
    };
    if 0 <= id < urls.len() {
        urls[id]
    } else {
        None
    }
}

/// The loaded image `url` is given to wait `w`: the node still exists, has a
/// tree slot, and still wants `url`.
pub open spec fn wait_served(
    w: ImageWait,
    url: usize,
    exists: Seq<bool>,
    tree_len: int,
    image_urls: Seq<Option<usize>>,
    border_image_urls: Seq<Option<usize>>,
    mask_image_urls: Seq<Option<usize>>,
) -> bool {
    &&& w.id < exists.len()
    &&& exists[w.id as int]
    &&& w.id < tree_len
    &&& wanted_url(w.ty, image_urls, border_image_urls, mask_image_urls, w.id as int) == Some(url)
}

/// The waits of `waits` served by loaded image number `k` (url `url`), in
/// order, each with `k`.
pub open spec fn served_waits(
    waits: Seq<ImageWait>,
    k: usize,
    url: usize,
    exists: Seq<bool>,
    tree_len: int,
    image_urls: Seq<Option<usize>>,
    border_image_urls: Seq<Option<usize>>,
    mask_image_urls: Seq<Option<usize>>,
) -> Seq<(usize, ImageWait)>
    decreases waits.len(),
{
    if waits.len() == 0 {
        Seq::empty()
    } else {
        served_waits(
            waits.drop_last(),
            k,
            url,
            exists,
            tree_len,
            image_urls,
            border_image_urls,
            mask_image_urls,
        ) + if wait_served(waits.last(), url, exists, tree_len, image_urls, border_image_urls, mask_image_urls) {
            seq![(k, waits.last())]
        } else {
            Seq::empty()
        }
    }
}

/// The waits served by the loaded images `finished` (url and waits of each),
/// in order of the images and then of their waits.
pub open spec fn served_images(
    finished: Seq<(usize, Vec<ImageWait>)>,
    exists: Seq<bool>,
    tree_len: int,
    image_urls: Seq<Option<usize>>,
    border_image_urls: Seq<Option<usize>>,
    mask_image_urls: Seq<Option<usize>>,
) -> Seq<(usize, ImageWait)>
    decreases finished.len(),
{
    if finished.len() == 0 {
        Seq::empty()
    } else {
        served_images(
            finished.drop_last(),
            exists,
            tree_len,
            image_urls,
            border_image_urls,
            mask_image_urls,
        ) + served_waits(
            finished.last().1@,
            (finished.len() - 1) as usize,
            finished.last().0,
            exists,
            tree_len,
            image_urls,
            border_image_urls,
            mask_image_urls,
        )
    }
}

impl StyleMarkSys {
    /// Images finished loading: `finished` holds, per loaded image, its url
    /// and the nodes that waited for it. Returns, in order, each wait that
    /// gets the image, with the number of the loaded image: the node still
    /// exists (`exists`), has a tree slot, and still wants that url as the
    /// kind of image it waited for. The caller gives each such node the
    /// texture and empties the list of finished images.
    pub fn on_images_loaded(
        &mut self,
        finished: &Vec<(usize, Vec<ImageWait>)>,
        exists: &Vec<bool>,
        idtree: &IdTree,
        image_urls: &Vec<Option<usize>>,
        border_image_urls: &Vec<Option<usize>>,
        mask_image_urls: &Vec<Option<usize>>,
    ) -> (r: Vec<(usize, ImageWait)>)
        ensures
            r@ == served_images(
                finished@,
                exists@,
                idtree.nodes@.len() as int,
                image_urls@,
                border_image_urls@,
                mask_image_urls@,
            ),
    {
        let ghost ex = exists@;
        let ghost tl = idtree.nodes@.len() as int;
        let ghost iu = image_urls@;
        let ghost bu = border_image_urls@;
        let ghost mu = mask_image_urls@;
        let tree_len = idtree.nodes.len();
        let mut r: Vec<(usize, ImageWait)> = Vec::new();
        let mut k: usize = 0;
        proof {
            assert(finished@.take(0) =~= Seq::<(usize, Vec<ImageWait>)>::empty());
        }
        while k < finished.len()
            invariant
                k <= finished@.len(),
                ex == exists@,
                tl == tree_len,
                iu == image_urls@,
                bu == border_image_urls@,
                mu == mask_image_urls@,
                r@ == served_images(finished@.take(k as int), ex, tl, iu, bu, mu),
            decreases finished@.len() - k,
        {
            let url = finished[k].0;
            let waits = &finished[k].1;
            let ghost before = r@;
            let mut j: usize = 0;
            proof {
                assert(waits@.take(0) =~= Seq::<ImageWait>::empty());
                assert(before + served_waits(waits@.take(0), k, url, ex, tl, iu, bu, mu) =~= before);
            }
            while j < waits.len()
                invariant
                    j <= waits@.len(),
                    ex == exists@,
                    tl == tree_len,
                    iu == image_urls@,
                    bu == border_image_urls@,
                    mu == mask_image_urls@,
                    r@ == before + served_waits(waits@.take(j as int), k, url, ex, tl, iu, bu, mu),
                decreases waits@.len() - j,
            {
                let w = waits[j];
                proof {
                    assert(waits@.take(j + 1).drop_last() =~= waits@.take(j as int));
                    assert(waits@.take(j + 1).last() == w);
                }
                let wanted = match w.ty {
                    ImageType::ImageLocal | ImageType::ImageClass => {
                        if w.id < image_urls.len() { image_urls[w.id] } else { None }
                    },
                    ImageType::BorderImageLocal | ImageType::BorderImageClass => {
                        if w.id < border_image_urls.len() { border_image_urls[w.id] } else { None }
                    },
                    ImageType::MaskImageLocal | ImageType::MaskImageClass => {
                        if w.id < mask_image_urls.len() { mask_image_urls[w.id] } else { None }
                    },
                };
                if w.id < exists.len() && exists[w.id] && w.id < tree_len && wanted == Some(url) {
                    r.push((k, w));
                    proof {
                        assert(r@ =~= before + served_waits(waits@.take(j + 1), k, url, ex, tl, iu, bu, mu));
                    }
                } else {
                    proof {
                        assert(r@ =~= before + served_waits(waits@.take(j + 1), k, url, ex, tl, iu, bu, mu));
                    }
                }
                j = j + 1;
            }
            proof {
                assert(waits@.take(waits@.len() as int) =~= waits@);
                assert(finished@.take(k + 1).drop_last() =~= finished@.take(k as int));
                assert(finished@.take(k + 1).last() == finished@[k as int]);
            }
            k = k + 1;
        }
        proof {
            assert(finished@.take(finished@.len() as int) =~= finished@);
        }
        r
    }
}

} // verus!
