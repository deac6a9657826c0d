//! What the renderer must redo before the next frame: whether anything is to
//! be drawn again, whether the opaque or the transparent list must be sorted
//! again, whether the render-context textures changed, and which render
//! objects need their program rebuilt.
use vstd::prelude::*;
use crate::style_mark::str_eq;

verus! {

/// What the renderer reads of a render object.
#[derive(Clone, Copy, Debug)]
pub struct RenderObjFlags {
    /// The object is drawn in the opaque pass.
    pub is_opacity: bool,
    /// The object's program must be rebuilt.
    pub program_dirty: bool,
}

/// The redraw bookkeeping of the render system.
#[derive(Debug)]
pub struct RenderSys {
    pub program_dirtys: Vec<usize>,
    pub transparent_dirty: bool,
    pub opacity_dirty: bool,
    pub dirty: bool,
    pub is_update_context_texture: bool,
    /// The draws made in the current frame.
    pub render_count: usize,
}

/// The render object of slot `id`, when there is one.
pub open spec fn obj_at(objs: Seq<Option<RenderObjFlags>>, id: int) -> Option<RenderObjFlags> {
    if 0 <= id < objs.len() {
        objs[id]
    } else {
        None
    }
}

/// The slots of `objs` other than `id` are those of `old`.
pub open spec fn others_kept(objs: Seq<Option<RenderObjFlags>>, old: Seq<Option<RenderObjFlags>>, id: int) -> bool {
    &&& objs.len() == old.len()
    &&& forall|x: int| 0 <= x < objs.len() && x != id ==> #[trigger] objs[x] == old[x]
}

/// Every render object whose program is marked for rebuilding is listed.
pub open spec fn programs_listed(list: Seq<usize>, objs: Seq<Option<RenderObjFlags>>) -> bool {
    forall|x: int|
        0 <= x < objs.len() && objs[x] is Some && (#[trigger] objs[x])->0.program_dirty
            ==> list.contains(x as usize)
}

impl RenderSys {
    /// Nothing to redo.
    pub fn new() -> (r: Self)
        ensures
            r.program_dirtys@ == Seq::<usize>::empty(),
            !r.transparent_dirty,
            !r.opacity_dirty,
            !r.dirty,
            !r.is_update_context_texture,
            r.render_count == 0,
    {
        RenderSys {
            program_dirtys: Vec::new(),
            transparent_dirty: false,
            opacity_dirty: false,
            dirty: false,
            is_update_context_texture: false,
            render_count: 0,
        }
    }

    /// Render object `id` was created: its pass must be sorted again and its
    /// program built.
    pub fn on_render_obj_create(&mut self, objs: &mut Vec<Option<RenderObjFlags>>, id: usize)
        requires
            obj_at(old(objs)@, id as int) is Some,
        ensures
            final(self).dirty,
            final(self).is_update_context_texture == old(self).is_update_context_texture,
            final(self).render_count == old(self).render_count,
            final(self).transparent_dirty == (old(self).transparent_dirty || !old(objs)@[id as int]->0.is_opacity),
            final(self).opacity_dirty == (old(self).opacity_dirty || old(objs)@[id as int]->0.is_opacity),
            final(self).program_dirtys@ == old(self).program_dirtys@.push(id),
            others_kept(final(objs)@, old(objs)@, id as int),
            final(objs)@[id as int] == Some(RenderObjFlags { program_dirty: true, ..old(objs)@[id as int]->0 }),
            programs_listed(old(self).program_dirtys@, old(objs)@) ==> programs_listed(
                final(self).program_dirtys@,
                final(objs)@,
            ),
    {
        self.dirty = true;
        let mut obj = objs[id].unwrap();
        if obj.is_opacity == false {
            self.transparent_dirty = true;
        } else {
            self.opacity_dirty = true;
        }
        self.program_dirtys.push(id);
        obj.program_dirty = true;
        objs.set(id, Some(obj));
        proof {
            if programs_listed(old(self).program_dirtys@, old(objs)@) {
                lemma_listed_after_push(old(self).program_dirtys@, old(objs)@, id, objs@);
            }
        }
    }

    /// Field `field` of render object `id` changed (id 0 with field
    /// "context": the render-context textures changed). A change of depth
    /// re-sorts the transparent pass; a program change re-sorts the opaque
    /// pass and lists the object once; a change of pass re-sorts both; a change
    /// of visibility re-sorts the object's pass.
    pub fn on_render_obj_modify(&mut self, objs: &mut Vec<Option<RenderObjFlags>>, id: usize, field: &str)
        ensures
            final(self).render_count == old(self).render_count,
            final(self).dirty,
            final(self).is_update_context_texture == (old(self).is_update_context_texture || (id == 0
                && field@ == "context"@)),
            obj_at(old(objs)@, id as int) is None ==> {
                &&& final(objs)@ == old(objs)@
                &&& final(self).transparent_dirty == old(self).transparent_dirty
                &&& final(self).opacity_dirty == old(self).opacity_dirty
                &&& final(self).program_dirtys@ == old(self).program_dirtys@
            },
            obj_at(old(objs)@, id as int) matches Some(o) ==> {
                let relisted = field@ == "program_dirty"@ && !o.program_dirty;
                &&& final(self).transparent_dirty == (old(self).transparent_dirty || (!o.is_opacity && (
                field@ == "depth"@ || field@ == "visibility"@)) || field@ == "is_opacity"@)
                &&& final(self).opacity_dirty == (old(self).opacity_dirty || (o.is_opacity && (field@
                    == "program_dirty"@ || field@ == "visibility"@)) || field@ == "is_opacity"@)
                &&& final(self).program_dirtys@ == if relisted {
                    old(self).program_dirtys@.push(id)
                } else {
                    old(self).program_dirtys@
                }
                &&& others_kept(final(objs)@, old(objs)@, id as int)
                &&& final(objs)@[id as int] == Some(
                    if relisted { RenderObjFlags { program_dirty: true, ..o } } else { o },
                )
            },
            programs_listed(old(self).program_dirtys@, old(objs)@) ==> programs_listed(
                final(self).program_dirtys@,
                final(objs)@,
            ),
    {
        proof {
            reveal_strlit("context");
            reveal_strlit("depth");
            reveal_strlit("program_dirty");
            reveal_strlit("is_opacity");
            reveal_strlit("visibility");
            assert("is_opacity"@[0] != "visibility"@[0]);
            assert("depth"@.len() == 5 && "program_dirty"@.len() == 13 && "is_opacity"@.len() == 10);
            assert("visibility"@.len() == 10 && "context"@.len() == 7);
            assert("is_opacity"@ != "visibility"@);
        }
        self.dirty = true;
        if id == 0 && str_eq(field, "context") {
            self.is_update_context_texture = true;
        }
        if id >= objs.len() {
            return ;
        }
        let mut obj = match objs[id] {
            Some(r) => r,
            None => return ,
        };
        if str_eq(field, "depth") {
            if obj.is_opacity == false {
                self.transparent_dirty = true;
            }
        } else if str_eq(field, "program_dirty") {
            if obj.is_opacity == true {
                self.opacity_dirty = true;
            }
            if obj.program_dirty == false {
                self.program_dirtys.push(id);
                obj.program_dirty = true;
                objs.set(id, Some(obj));
                proof {
                    if programs_listed(old(self).program_dirtys@, old(objs)@) {
                lemma_listed_after_push(old(self).program_dirtys@, old(objs)@, id, objs@);
            }
                }
            }
        } else if str_eq(field, "is_opacity") {
            self.opacity_dirty = true;
            self.transparent_dirty = true;
        } else if str_eq(field, "visibility") {
            if obj.is_opacity {
                self.opacity_dirty = true;
            } else {
                self.transparent_dirty = true;
            }
        }
    }

    /// Render object `id` is deleted: its pass must be sorted again.
    pub fn on_render_obj_delete(&mut self, objs: &Vec<Option<RenderObjFlags>>, id: usize)
        requires
            obj_at(objs@, id as int) is Some,
        ensures
            final(self).dirty,
            final(self).is_update_context_texture == old(self).is_update_context_texture,
            final(self).render_count == old(self).render_count,
            final(self).transparent_dirty == (old(self).transparent_dirty || !objs@[id as int]->0.is_opacity),
            final(self).opacity_dirty == (old(self).opacity_dirty || objs@[id as int]->0.is_opacity),
            final(self).program_dirtys@ == old(self).program_dirtys@,
    {
        self.dirty = true;
        let obj = objs[id].unwrap();
        if obj.is_opacity == false {
            self.transparent_dirty = true;
        } else {
            self.opacity_dirty = true;
        }
    }

    /// The projection changed: everything is drawn again.
    pub fn on_projection_change(&mut self)
        ensures
            final(self).dirty,
            final(self).program_dirtys@ == old(self).program_dirtys@,
            final(self).transparent_dirty == old(self).transparent_dirty,
            final(self).opacity_dirty == old(self).opacity_dirty,
            final(self).is_update_context_texture == old(self).is_update_context_texture,
            final(self).render_count == old(self).render_count,
    {
        self.dirty = true;
    }

    /// Takes the listed render objects whose program is to be rebuilt: returns
    /// those that still exist, in list order, clears their flag, and empties
    /// the list.
    pub fn take_program_dirtys(&mut self, objs: &mut Vec<Option<RenderObjFlags>>) -> (r: Vec<usize>)
        ensures
            final(self).program_dirtys@ == Seq::<usize>::empty(),
            final(self).dirty == old(self).dirty,
            final(self).transparent_dirty == old(self).transparent_dirty,
            final(self).opacity_dirty == old(self).opacity_dirty,
            final(self).is_update_context_texture == old(self).is_update_context_texture,
            final(self).render_count == old(self).render_count,
            r@ == old(self).program_dirtys@.filter(|id: usize| obj_at(old(objs)@, id as int) is Some),
            final(objs)@.len() == old(objs)@.len(),
            forall|x: int|
                0 <= x < old(objs)@.len() ==> #[trigger] final(objs)@[x] == if old(objs)@[x] is Some
                    && old(self).program_dirtys@.contains(x as usize) {
                    Some(RenderObjFlags { program_dirty: false, ..old(objs)@[x]->0 })
                } else {
                    old(objs)@[x]
                },
            programs_listed(old(self).program_dirtys@, old(objs)@) ==> programs_listed(
                final(self).program_dirtys@,
                final(objs)@,
            ),
    {
        let ghost ids = self.program_dirtys@;
        let ghost objs0 = objs@;
        let mut r: Vec<usize> = Vec::new();
        let mut i: usize = 0;
        while i < self.program_dirtys.len()
            invariant
                ids == self.program_dirtys@,
                i <= ids.len(),
                r@ == ids.take(i as int).filter(|id: usize| obj_at(objs0, id as int) is Some),
                objs@.len() == objs0.len(),
                forall|x: int|
                    0 <= x < objs0.len() ==> #[trigger] objs@[x] == if objs0[x] is Some && ids.take(
                        i as int,
                    ).contains(x as usize) {
                        Some(RenderObjFlags { program_dirty: false, ..objs0[x]->0 })
                    } else {
                        objs0[x]
                    },
            decreases ids.len() - i,
        {
            let id = self.program_dirtys[i];
            proof {
                assert(ids.take(i + 1) =~= ids.take(i as int).push(id));
                reveal(Seq::filter);
                assert(ids.take(i as int).push(id).drop_last() =~= ids.take(i as int));
            }
            if id < objs.len() {
                match objs[id] {
                    Some(o) => {
                        objs.set(id, Some(RenderObjFlags { program_dirty: false, ..o }));
                        r.push(id);
                    },
                    None => {},
                }
            }
            i = i + 1;
        }
        proof {
            assert(ids.take(ids.len() as int) =~= ids);
        }
        self.program_dirtys.clear();
        proof {
            if programs_listed(ids, objs0) {
                assert forall|x: int|
                    0 <= x < objs@.len() && objs@[x] is Some && (#[trigger] objs@[x])->0.program_dirty
                        implies self.program_dirtys@.contains(x as usize) by {
                    assert(objs0[x] is Some);
                }
            }
        }
        r
    }

    /// The frame pass, once the pre-rendered items were drawn: an item drawn
    /// makes the frame dirty, and the list is emptied; the listed programs
    /// are taken (see `take_program_dirtys`). Returns them and whether the
    /// frame is drawn: it is when it is dirty, and then the dirty and
    /// context-texture flags and the draw count are reset.
    pub fn run<T>(&mut self, objs: &mut Vec<Option<RenderObjFlags>>, pre_render_list: &mut Vec<T>) -> (r: (Vec<usize>, bool))
        ensures
            final(pre_render_list)@ == Seq::<T>::empty(),
            r.1 == (old(self).dirty || old(pre_render_list)@.len() > 0),
            r.0@ == old(self).program_dirtys@.filter(|id: usize| obj_at(old(objs)@, id as int) is Some),
            final(objs)@.len() == old(objs)@.len(),
            forall|x: int|
                0 <= x < old(objs)@.len() ==> #[trigger] final(objs)@[x] == if old(objs)@[x] is Some
                    && old(self).program_dirtys@.contains(x as usize) {
                    Some(RenderObjFlags { program_dirty: false, ..old(objs)@[x]->0 })
                } else {
                    old(objs)@[x]
                },
            final(self).program_dirtys@ == Seq::<usize>::empty(),
            final(self).dirty == false,
            final(self).is_update_context_texture == (old(self).is_update_context_texture && !r.1),
            final(self).render_count == if r.1 { 0 } else { old(self).render_count },
            final(self).transparent_dirty == old(self).transparent_dirty,
            final(self).opacity_dirty == old(self).opacity_dirty,
    {
        if pre_render_list.len() > 0 {
            pre_render_list.clear();
            self.dirty = true;
        }
        let programs = self.take_program_dirtys(objs);
        let draw = self.dirty;
        if draw {
            self.dirty = false;
            self.is_update_context_texture = false;
            self.render_count = 0;
        }
        (programs, draw)
    }
}

/// A visible render object without post-processing that goes to the opaque
/// list (`opaque`) or to the transparent one.
pub open spec fn listed_into(
    ids: Seq<usize>,
    context_obj: usize,
    visible: Seq<bool>,
    post_process: Seq<bool>,
    is_opacity: Seq<bool>,
    opaque: bool,
) -> Seq<usize> {
    ids.filter(
        |i: usize|
            i != context_obj && visible[i as int] && !post_process[i as int] && is_opacity[i as int] == opaque,
    )
}

/// The visible render objects with a post-process of their own, drawn apart.
pub open spec fn listed_post(
    ids: Seq<usize>,
    context_obj: usize,
    visible: Seq<bool>,
    post_process: Seq<bool>,
) -> Seq<usize> {
    ids.filter(|i: usize| i != context_obj && visible[i as int] && post_process[i as int])
}

/// Lists the render objects `ids` of a node drawn into a render context
/// whose own render object is `context_obj`, in order: a visible object
/// with a post-process is drawn apart, any other visible one goes to the
/// opaque or the transparent list by its `is_opacity`; invisible objects
/// and the context's own object are left out. Returns the opaque list,
/// the transparent list and the post-processed objects.
pub fn list_render_objs(
    ids: &Vec<usize>,
    context_obj: usize,
    visible: &Vec<bool>,
    post_process: &Vec<bool>,
    is_opacity: &Vec<bool>,
) -> (r: (Vec<usize>, Vec<usize>, Vec<usize>))
    requires
        forall|k: int|
            0 <= k < ids@.len() && ids@[k] != context_obj ==> (#[trigger] ids@[k]) < visible@.len()
                && ids@[k] < post_process@.len() && ids@[k] < is_opacity@.len(),
    ensures
        r.0@ == listed_into(ids@, context_obj, visible@, post_process@, is_opacity@, true),
        r.1@ == listed_into(ids@, context_obj, visible@, post_process@, is_opacity@, false),
        r.2@ == listed_post(ids@, context_obj, visible@, post_process@),
{
    let mut opaque: Vec<usize> = Vec::new();
    let mut transparent: Vec<usize> = Vec::new();
    let mut post: Vec<usize> = Vec::new();
    let mut k: usize = 0;
    while k < ids.len()
        invariant
            k <= ids@.len(),
            forall|j: int|
                0 <= j < ids@.len() && ids@[j] != context_obj ==> (#[trigger] ids@[j]) < visible@.len()
                    && ids@[j] < post_process@.len() && ids@[j] < is_opacity@.len(),
            opaque@ == listed_into(ids@.take(k as int), context_obj, visible@, post_process@, is_opacity@, true),
            transparent@ == listed_into(ids@.take(k as int), context_obj, visible@, post_process@, is_opacity@, false),
            post@ == listed_post(ids@.take(k as int), context_obj, visible@, post_process@),
        decreases ids@.len() - k,
    {
        let i = ids[k];
        proof {
            assert(ids@.take(k + 1) =~= ids@.take(k as int).push(i));
            assert(ids@.take(k as int).push(i).drop_last() =~= ids@.take(k as int));
            reveal(Seq::filter);
        }
        if i != context_obj && visible[i] {
            if post_process[i] {
                post.push(i);
            } else if is_opacity[i] {
                opaque.push(i);
            } else {
                transparent.push(i);
            }
        }
        k = k + 1;
    }
    proof {
        assert(ids@.take(ids@.len() as int) =~= ids@);
    }
    (opaque, transparent, post)
}

/// Listing `id` and setting its flag keeps every flagged object listed.
proof fn lemma_listed_after_push(
    list: Seq<usize>,
    objs: Seq<Option<RenderObjFlags>>,
    id: usize,
    new_objs: Seq<Option<RenderObjFlags>>,
)
    requires
        programs_listed(list, objs),
        others_kept(new_objs, objs, id as int),
    ensures
        programs_listed(list.push(id), new_objs),
{
    assert forall|x: int|
        0 <= x < new_objs.len() && new_objs[x] is Some && (#[trigger] new_objs[x])->0.program_dirty
            implies list.push(id).contains(x as usize) by {
        if x == id as int {
            assert(list.push(id)[list.len() as int] == id);
        } else {
            assert(objs[x] == new_objs[x]);
            let k = choose|k: int| 0 <= k < list.len() && list[k] == x as usize;
            assert(list.push(id)[k] == x as usize);
        }
    }
}

} // verus!
