//! Computes whether each node is shown (visibility) and accepts events (enable).
//!
//! A node is visible when its display is `Flex`, its own visibility flag is
//! set and its parent is visible. It is enabled when it is visible and its
//! enable type is `Visible`, or `Auto` with an enabled parent. Only real nodes
//! (not the virtual nodes made for text) are computed, and the computation
//! stops at a virtual node.
use vstd::prelude::*;
use crate::idtree::{
    IdTree, TreeNode, tree_wf, steps_up, ancestor_at, in_subtree, lemma_child_subtree,
    lemma_subtree_child, lemma_subtree_parent, lemma_subtree_self,
};

verus! {

#[derive(Clone, Copy, Debug, PartialEq, Eq)]
pub enum Display {
    Flex,
    /// Not displayed (`display: none`).
    Hide,
}

#[derive(Clone, Copy, Debug, PartialEq, Eq)]
pub enum EnableType {
    Auto,
    /// Never accepts events (`enable: none`).
    Disable,
    Visible,
}

/// The show attributes a node was given.
#[derive(Clone, Copy, Debug)]
pub struct Show {
    pub display: Display,
    pub visibility: bool,
    pub enable: EnableType,
}

impl Default for Show {
    fn default() -> (r: Self)
        ensures
            r.display == Display::Flex,
            r.visibility,
            r.enable == EnableType::Auto,
    {
        Show { display: Display::Flex, visibility: true, enable: EnableType::Auto }
    }
}

impl Show {
    pub fn get_display(&self) -> (r: Display)
        ensures
            r == self.display,
    {
        self.display
    }

    pub fn get_visibility(&self) -> (r: bool)
        ensures
            r == self.visibility,
    {
        self.visibility
    }

    pub fn get_enable(&self) -> (r: EnableType)
        ensures
            r == self.enable,
    {
        self.enable
    }

    pub fn set_display(&mut self, value: Display)
        ensures
            *final(self) == (Show { display: value, ..*old(self) }),
    {
        self.display = value;
    }

    pub fn set_visibility(&mut self, value: bool)
        ensures
            *final(self) == (Show { visibility: value, ..*old(self) }),
    {
        self.visibility = value;
    }

    pub fn set_enable(&mut self, value: EnableType)
        ensures
            *final(self) == (Show { enable: value, ..*old(self) }),
    {
        self.enable = value;
    }
}

/// The node itself asks to be shown: display `Flex` and visibility set.
pub open spec fn own_visible(s: Show) -> bool {
    s.display == Display::Flex && s.visibility
}

/// The visibility computed for `x` when the computation starts at `id` with
/// parent visibility `pv`.
pub open spec fn show_visibility(t: Seq<TreeNode>, shows: Seq<Show>, x: int, id: int, pv: bool) -> bool
    decreases t[x].layer,
{
    if x == id {
        own_visible(shows[x]) && pv
    } else if steps_up(t, x) {
        own_visible(shows[x]) && show_visibility(t, shows, t[x].parent as int, id, pv)
    } else {
        false
    }
}

/// The enable flag computed for `x` when the computation starts at `id` with
/// parent visibility `pv` and parent enable flag `pe`.
pub open spec fn show_enable(
    t: Seq<TreeNode>,
    shows: Seq<Show>,
    x: int,
    id: int,
    pv: bool,
    pe: bool,
) -> bool
    decreases t[x].layer,
{
    show_visibility(t, shows, x, id, pv) && match shows[x].enable {
        EnableType::Visible => true,
        EnableType::Disable => false,
        EnableType::Auto => if x == id {
            pe
        } else if steps_up(t, x) {
            show_enable(t, shows, t[x].parent as int, id, pv, pe)
        } else {
            false
        },
    }
}

/// `x` and the nodes between `x` and `id` are real nodes, so the computation
/// started at `id` reaches `x`.
pub open spec fn show_reaches(t: Seq<TreeNode>, reals: Seq<bool>, x: int, id: int) -> bool
    decreases t[x].layer,
{
    reals[x] && (x == id || (steps_up(t, x) && show_reaches(t, reals, t[x].parent as int, id)))
}

/// The computation started at `id` writes `x`.
pub open spec fn show_updates(t: Seq<TreeNode>, reals: Seq<bool>, x: int, id: int) -> bool {
    in_subtree(t, x, id) && show_reaches(t, reals, x, id)
}

/// Below a child `c` of `id`, the computation from `id` equals the computation
/// from `c` started with the values computed for `id`.
proof fn lemma_show_through_child(
    t: Seq<TreeNode>,
    shows: Seq<Show>,
    reals: Seq<bool>,
    id: int,
    k: int,
    x: int,
    pv: bool,
    pe: bool,
)
    requires
        tree_wf(t),
        0 <= id < t.len(),
        t[id].layer > 0,
        0 <= k < t[id].children@.len(),
        in_subtree(t, x, t[id].children@[k] as int),
    ensures
        show_visibility(t, shows, x, id, pv) == show_visibility(
            t,
            shows,
            x,
            t[id].children@[k] as int,
            show_visibility(t, shows, id, id, pv),
        ),
        show_enable(t, shows, x, id, pv, pe) == show_enable(
            t,
            shows,
            x,
            t[id].children@[k] as int,
            show_visibility(t, shows, id, id, pv),
            show_enable(t, shows, id, id, pv, pe),
        ),
        show_reaches(t, reals, x, id) == (show_reaches(t, reals, x, t[id].children@[k] as int)
            && reals[id]),
    decreases t[x].layer,
{
    let c = t[id].children@[k] as int;
    lemma_child_subtree(t, id, k, x);
    assert(t[c].parent == id && t[c].layer == t[id].layer + 1);
    assert(show_reaches(t, reals, id, id) == reals[id]);
    assert(show_visibility(t, shows, id, id, pv) == (own_visible(shows[id]) && pv));
    if x == c {
        lemma_subtree_parent(t, x, id);
    } else {
        lemma_subtree_parent(t, x, c);
        lemma_show_through_child(t, shows, reals, id, k, t[x].parent as int, pv, pe);
    }
}

/// Recomputes visibility and enable for `id` and the real nodes below it,
/// given the values of the parent of `id`.
fn modify_show(
    parent_c_visibility: bool,
    parent_c_enable: bool,
    id: usize,
    id_tree: &IdTree,
    show: &Vec<Show>,
    visibility: &mut Vec<bool>,
    enable: &mut Vec<bool>,
    node_states: &Vec<bool>,
)
    requires
        tree_wf(id_tree.nodes@),
        show@.len() == id_tree.nodes@.len(),
        old(visibility)@.len() == id_tree.nodes@.len(),
        old(enable)@.len() == id_tree.nodes@.len(),
        node_states@.len() == id_tree.nodes@.len(),
        id < id_tree.nodes@.len(),
        id_tree.nodes@[id as int].layer > 0,
    ensures
        final(visibility)@.len() == old(visibility)@.len(),
        final(enable)@.len() == old(enable)@.len(),
        forall|x: int|
            0 <= x < final(visibility)@.len() ==> #[trigger] final(visibility)@[x] == if show_updates(
                id_tree.nodes@,
                node_states@,
                x,
                id as int,
            ) {
                show_visibility(id_tree.nodes@, show@, x, id as int, parent_c_visibility)
            } else {
                old(visibility)@[x]
            },
        forall|x: int|
            0 <= x < final(enable)@.len() ==> #[trigger] final(enable)@[x] == if show_updates(
                id_tree.nodes@,
                node_states@,
                x,
                id as int,
            ) {
                show_enable(
                    id_tree.nodes@,
                    show@,
                    x,
                    id as int,
                    parent_c_visibility,
                    parent_c_enable,
                )
            } else {
                old(enable)@[x]
            },
    decreases usize::MAX - id_tree.nodes@[id as int].layer,
{
    let ghost t = id_tree.nodes@;
    let ghost shows = show@;
    let ghost reals = node_states@;
    let ghost old_vis = visibility@;
    let ghost old_en = enable@;
    let ghost L = t[id as int].layer as int;
    if !node_states[id] {
        proof {
            assert forall|x: int| 0 <= x < t.len() implies !show_updates(t, reals, x, id as int) by {
                if show_updates(t, reals, x, id as int) && x != id {
                    lemma_subtree_parent(t, x, id as int);
                    lemma_reaches_up(t, reals, x, id as int);
                }
            }
        }
        return ;
    }
    let show_value = show[id];
    let display_value = match show_value.get_display() {
        Display::Flex => true,
        Display::Hide => false,
    };
    let visibility_value = show_value.get_visibility();
    let enable_value = show_value.get_enable();

    let c_visibility = display_value && visibility_value && parent_c_visibility;
    let c_enable = match enable_value {
        EnableType::Visible => true,
        EnableType::Auto => parent_c_enable,
        EnableType::Disable => false,
    };
    let c_enable = c_visibility && c_enable;
    visibility.set(id, c_visibility);
    enable.set(id, c_enable);
    proof {
        lemma_subtree_self(t, id as int);
        assert(c_visibility == show_visibility(t, shows, id as int, id as int, parent_c_visibility));
        assert(c_enable == show_enable(t, shows, id as int, id as int, parent_c_visibility, parent_c_enable));
    }

    let children = &id_tree.nodes[id].children;
    let mut j: usize = 0;
    while j < children.len()
        invariant
            tree_wf(t),
            t == id_tree.nodes@,
            shows == show@,
            reals == node_states@,
            shows.len() == t.len(),
            reals.len() == t.len(),
            id < t.len(),
            L == t[id as int].layer,
            L > 0,
            reals[id as int],
            *children == t[id as int].children,
            j <= children@.len(),
            visibility@.len() == t.len(),
            enable@.len() == t.len(),
            old_vis.len() == t.len(),
            old_en.len() == t.len(),
            c_visibility == show_visibility(t, shows, id as int, id as int, parent_c_visibility),
            c_enable == show_enable(t, shows, id as int, id as int, parent_c_visibility, parent_c_enable),
            forall|x: int|
                0 <= x < t.len() ==> #[trigger] visibility@[x] == if x == id {
                    c_visibility
                } else if in_subtree(t, x, id as int) && children@.take(j as int).contains(
                    ancestor_at(t, x, L + 1) as usize,
                ) && show_reaches(t, reals, x, id as int) {
                    show_visibility(t, shows, x, id as int, parent_c_visibility)
                } else {
                    old_vis[x]
                },
            forall|x: int|
                0 <= x < t.len() ==> #[trigger] enable@[x] == if x == id {
                    c_enable
                } else if in_subtree(t, x, id as int) && children@.take(j as int).contains(
                    ancestor_at(t, x, L + 1) as usize,
                ) && show_reaches(t, reals, x, id as int) {
                    show_enable(t, shows, x, id as int, parent_c_visibility, parent_c_enable)
                } else {
                    old_en[x]
                },
        decreases children@.len() - j,
    {
        let c = children[j];
        proof {
            assert(t[id as int].children@[j as int] == c);
            assert(0 < c < t.len() && t[c as int].layer == L + 1);
        }
        let ghost prev_vis = visibility@;
        let ghost prev_en = enable@;
        modify_show(c_visibility, c_enable, c, id_tree, show, visibility, enable, node_states);
        proof {
            assert(children@.no_duplicates());
            assert forall|x: int|
                #![trigger visibility@[x]]
                #![trigger enable@[x]]
                0 <= x < t.len() implies {
                &&& visibility@[x] == if x == id {
                    c_visibility
                } else if in_subtree(t, x, id as int) && children@.take(j + 1).contains(
                    ancestor_at(t, x, L + 1) as usize,
                ) && show_reaches(t, reals, x, id as int) {
                    show_visibility(t, shows, x, id as int, parent_c_visibility)
                } else {
                    old_vis[x]
                }
                &&& enable@[x] == if x == id {
                    c_enable
                } else if in_subtree(t, x, id as int) && children@.take(j + 1).contains(
                    ancestor_at(t, x, L + 1) as usize,
                ) && show_reaches(t, reals, x, id as int) {
                    show_enable(t, shows, x, id as int, parent_c_visibility, parent_c_enable)
                } else {
                    old_en[x]
                }
            } by {
                lemma_take_step(children@, j as int);
                let pv_x = prev_vis[x];
                let pe_x = prev_en[x];
                let a = ancestor_at(t, x, L + 1) as usize;
                let now = children@.take(j + 1).contains(a);
                let before = children@.take(j as int).contains(a);
                assert(now == (before || a == c));
                if in_subtree(t, x, c as int) {
                    lemma_child_subtree(t, id as int, j as int, x);
                    lemma_show_through_child(
                        t,
                        shows,
                        reals,
                        id as int,
                        j as int,
                        x,
                        parent_c_visibility,
                        parent_c_enable,
                    );
                    lemma_not_in_take(children@, j as int);
                    assert(a == c);
                    assert(now);
                    assert(!before);
                    assert(x != id);
                    assert(in_subtree(t, x, id as int));
                    assert(pv_x == old_vis[x]);
                    assert(pe_x == old_en[x]);
                } else {
                    if x != id && in_subtree(t, x, id as int) && a == c {
                        lemma_subtree_child(t, x, id as int);
                        assert(in_subtree(t, x, c as int));
                    }
                    assert(x != id && in_subtree(t, x, id as int) ==> a != c);
                    assert(x != id && in_subtree(t, x, id as int) ==> now == before);
                    assert(visibility@[x] == pv_x);
                    assert(enable@[x] == pe_x);
                }
            }
        }
        j = j + 1;
    }
    proof {
        assert(children@.take(children@.len() as int) =~= children@);
        assert forall|x: int| 0 <= x < t.len() && x != id && in_subtree(t, x, id as int) implies
            children@.contains(ancestor_at(t, x, L + 1) as usize) by {
            lemma_subtree_child(t, x, id as int);
        }
    }
}

/// `x`, and every node from `x` up to `id`, is real and has its flag set, so
/// cancelling from `id` reaches `x`.
pub open spec fn cancel_reaches(t: Seq<TreeNode>, reals: Seq<bool>, flags: Seq<bool>, x: int, id: int) -> bool
    decreases t[x].layer,
{
    &&& 0 <= x < t.len()
    &&& reals[x]
    &&& flags[x]
    &&& (x == id || (steps_up(t, x) && cancel_reaches(t, reals, flags, t[x].parent as int, id)))
}

/// Cancelling from `id` clears the flag of `x`.
pub open spec fn cancel_updates(t: Seq<TreeNode>, reals: Seq<bool>, flags: Seq<bool>, x: int, id: int) -> bool {
    (x == id || in_subtree(t, x, id)) && cancel_reaches(t, reals, flags, x, id)
}

proof fn lemma_cancel_through_child(
    t: Seq<TreeNode>,
    reals: Seq<bool>,
    flags: Seq<bool>,
    id: int,
    k: int,
    x: int,
)
    requires
        tree_wf(t),
        0 <= id < t.len(),
        t[id].layer > 0,
        0 <= k < t[id].children@.len(),
        in_subtree(t, x, t[id].children@[k] as int),
    ensures
        cancel_reaches(t, reals, flags, x, id) == (cancel_reaches(
            t,
            reals,
            flags,
            x,
            t[id].children@[k] as int,
        ) && cancel_reaches(t, reals, flags, id, id)),
    decreases t[x].layer,
{
    let c = t[id].children@[k] as int;
    lemma_child_subtree(t, id, k, x);
    if x == c {
        lemma_subtree_parent(t, x, id);
    } else {
        lemma_subtree_parent(t, x, c);
        lemma_cancel_through_child(t, reals, flags, id, k, t[x].parent as int);
    }
}

/// Cancelling below `c` reads the flags of the subtree of `c` only.
proof fn lemma_cancel_frame(t: Seq<TreeNode>, reals: Seq<bool>, f1: Seq<bool>, f2: Seq<bool>, x: int, c: int)
    requires
        tree_wf(t),
        in_subtree(t, x, c),
        f1.len() == t.len(),
        f2.len() == t.len(),
        forall|y: int| #[trigger] in_subtree(t, y, c) ==> f1[y] == f2[y],
    ensures
        cancel_reaches(t, reals, f1, x, c) == cancel_reaches(t, reals, f2, x, c),
    decreases t[x].layer,
{
    if x != c {
        lemma_subtree_parent(t, x, c);
        lemma_cancel_frame(t, reals, f1, f2, t[x].parent as int, c);
    }
}

proof fn lemma_cancel_up(t: Seq<TreeNode>, reals: Seq<bool>, flags: Seq<bool>, x: int, id: int)
    requires
        tree_wf(t),
        in_subtree(t, x, id),
        cancel_reaches(t, reals, flags, x, id),
    ensures
        reals[id],
        flags[id],
    decreases t[x].layer,
{
    if x != id {
        lemma_subtree_parent(t, x, id);
        lemma_cancel_up(t, reals, flags, t[x].parent as int, id);
    }
}

/// Clears the flag of `id` and of the real nodes below it whose flag is set,
/// stopping at a virtual node or a node whose flag is already clear.
fn cancel_flag(id: usize, id_tree: &IdTree, flags: &mut Vec<bool>, node_states: &Vec<bool>)
    requires
        tree_wf(id_tree.nodes@),
        old(flags)@.len() == id_tree.nodes@.len(),
        node_states@.len() == id_tree.nodes@.len(),
        id < id_tree.nodes@.len(),
    ensures
        final(flags)@.len() == old(flags)@.len(),
        forall|x: int|
            0 <= x < final(flags)@.len() ==> #[trigger] final(flags)@[x] == if cancel_updates(
                id_tree.nodes@,
                node_states@,
                old(flags)@,
                x,
                id as int,
            ) {
                false
            } else {
                old(flags)@[x]
            },
    decreases usize::MAX - id_tree.nodes@[id as int].layer,
{
    let ghost t = id_tree.nodes@;
    let ghost reals = node_states@;
    let ghost old_f = flags@;
    let ghost L = t[id as int].layer as int;
    if !node_states[id] || !flags[id] {
        proof {
            assert forall|x: int| 0 <= x < t.len() implies !cancel_updates(t, reals, old_f, x, id as int) by {
                if cancel_updates(t, reals, old_f, x, id as int) && x != id {
                    lemma_cancel_up(t, reals, old_f, x, id as int);
                }
            }
        }
        return ;
    }
    flags.set(id, false);
    let children = &id_tree.nodes[id].children;
    let mut j: usize = 0;
    while j < children.len()
        invariant
            tree_wf(t),
            t == id_tree.nodes@,
            reals == node_states@,
            reals.len() == t.len(),
            id < t.len(),
            L == t[id as int].layer,
            reals[id as int],
            old_f[id as int],
            *children == t[id as int].children,
            j <= children@.len(),
            flags@.len() == t.len(),
            old_f.len() == t.len(),
            forall|x: int|
                0 <= x < t.len() ==> #[trigger] flags@[x] == if x == id {
                    false
                } else if L > 0 && in_subtree(t, x, id as int) && children@.take(j as int).contains(
                    ancestor_at(t, x, L + 1) as usize,
                ) && cancel_reaches(t, reals, old_f, x, id as int) {
                    false
                } else {
                    old_f[x]
                },
        decreases children@.len() - j,
    {
        let c = children[j];
        proof {
            assert(t[id as int].children@[j as int] == c);
            assert(0 < c < t.len() && t[c as int].layer == L + 1);
            assert(L > 0);
        }
        let ghost prev = flags@;
        proof {
            assert forall|y: int| #[trigger] in_subtree(t, y, c as int) implies prev[y] == old_f[y] by {
                lemma_child_subtree(t, id as int, j as int, y);
                lemma_not_in_take(children@, j as int);
            }
        }
        cancel_flag(c, id_tree, flags, node_states);
        proof {
            assert forall|x: int| 0 <= x < t.len() implies #[trigger] flags@[x] == if x == id {
                false
            } else if L > 0 && in_subtree(t, x, id as int) && children@.take(j + 1).contains(
                ancestor_at(t, x, L + 1) as usize,
            ) && cancel_reaches(t, reals, old_f, x, id as int) {
                false
            } else {
                old_f[x]
            } by {
                lemma_take_step(children@, j as int);
                let p_x = prev[x];
                let a = ancestor_at(t, x, L + 1) as usize;
                let now = children@.take(j + 1).contains(a);
                let before = children@.take(j as int).contains(a);
                assert(now == (before || a == c));
                if in_subtree(t, x, c as int) {
                    lemma_child_subtree(t, id as int, j as int, x);
                    lemma_cancel_through_child(t, reals, old_f, id as int, j as int, x);
                    lemma_cancel_frame(t, reals, prev, old_f, x, c as int);
                    lemma_not_in_take(children@, j as int);
                    assert(a == c);
                    assert(!before);
                    assert(p_x == old_f[x]);
                    assert(cancel_reaches(t, reals, old_f, id as int, id as int));
                    assert(x != c ==> in_subtree(t, x, c as int));
                } else {
                    if x != id && in_subtree(t, x, id as int) && a == c {
                        lemma_subtree_child(t, x, id as int);
                        assert(in_subtree(t, x, c as int));
                    }
                    assert(x != id && in_subtree(t, x, id as int) ==> now == before);
                    if x == c as int {
                        lemma_subtree_self(t, c as int);
                    }
                    assert(flags@[x] == p_x);
                }
            }
        }
        j = j + 1;
    }
    proof {
        assert(children@.take(children@.len() as int) =~= children@);
        assert forall|x: int| 0 <= x < t.len() implies #[trigger] flags@[x] == if cancel_updates(
            t,
            reals,
            old_f,
            x,
            id as int,
        ) {
            false
        } else {
            old_f[x]
        } by {
            if x != id && in_subtree(t, x, id as int) {
                lemma_subtree_child(t, x, id as int);
            }
            if x != id && L == 0 {
                assert(!in_subtree(t, x, id as int));
            }
        }
    }
}

/// Clears the visibility of `id` and of the visible real nodes below it.
fn cancel_visibility(id: usize, id_tree: &IdTree, visibility: &mut Vec<bool>, node_states: &Vec<bool>)
    requires
        tree_wf(id_tree.nodes@),
        old(visibility)@.len() == id_tree.nodes@.len(),
        node_states@.len() == id_tree.nodes@.len(),
        id < id_tree.nodes@.len(),
    ensures
        final(visibility)@.len() == old(visibility)@.len(),
        forall|x: int|
            0 <= x < final(visibility)@.len() ==> #[trigger] final(visibility)@[x] == if cancel_updates(
                id_tree.nodes@,
                node_states@,
                old(visibility)@,
                x,
                id as int,
            ) {
                false
            } else {
                old(visibility)@[x]
            },
{
    cancel_flag(id, id_tree, visibility, node_states);
}

/// Clears the enable flag of `id` and of the enabled real nodes below it.
fn cancel_enable(id: usize, id_tree: &IdTree, enable: &mut Vec<bool>, node_states: &Vec<bool>)
    requires
        tree_wf(id_tree.nodes@),
        old(enable)@.len() == id_tree.nodes@.len(),
        node_states@.len() == id_tree.nodes@.len(),
        id < id_tree.nodes@.len(),
    ensures
        final(enable)@.len() == old(enable)@.len(),
        forall|x: int|
            0 <= x < final(enable)@.len() ==> #[trigger] final(enable)@[x] == if cancel_updates(
                id_tree.nodes@,
                node_states@,
                old(enable)@,
                x,
                id as int,
            ) {
                false
            } else {
                old(enable)@[x]
            },
{
    cancel_flag(id, id_tree, enable, node_states);
}

/// The parent values the computation of `id` starts from: the stored values
/// of its parent, or `true` for a root.
pub open spec fn parent_input(t: Seq<TreeNode>, flags: Seq<bool>, id: int) -> bool {
    if t[id].parent > 0 {
        flags[t[id].parent as int]
    } else {
        true
    }
}

/// The system that keeps the computed visibility and enable flags of the
/// nodes up to date.
pub struct ShowSys;

impl Default for ShowSys {
    fn default() -> (r: Self)
        ensures
            r == ShowSys,
    {
        ShowSys
    }
}

impl ShowSys {
    /// Recomputes `id` and the real nodes below it, starting from the stored
    /// values of its parent (or from `true` for a root). Nodes off the tree,
    /// without a slot, or virtual are left alone. The listeners of the
    /// creation and change of `Show` and of the insertion of a node in the
    /// tree all call this.
    pub fn modify_show(
        id: usize,
        idtree: &IdTree,
        show: &Vec<Show>,
        visibility: &mut Vec<bool>,
        enable: &mut Vec<bool>,
        node_states: &Vec<bool>,
    )
        requires
            tree_wf(idtree.nodes@),
            show@.len() == idtree.nodes@.len(),
            old(visibility)@.len() == idtree.nodes@.len(),
            old(enable)@.len() == idtree.nodes@.len(),
            node_states@.len() == idtree.nodes@.len(),
        ensures
            final(visibility)@.len() == old(visibility)@.len(),
            final(enable)@.len() == old(enable)@.len(),
            !(id < idtree.nodes@.len() && idtree.nodes@[id as int].layer > 0 && node_states@[id as int])
                ==> final(visibility)@ == old(visibility)@ && final(enable)@ == old(enable)@,
            id < idtree.nodes@.len() && idtree.nodes@[id as int].layer > 0 && node_states@[id as int]
                ==> forall|x: int|
                0 <= x < idtree.nodes@.len() ==> {
                    &&& #[trigger] final(visibility)@[x] == if show_updates(
                        idtree.nodes@,
                        node_states@,
                        x,
                        id as int,
                    ) {
                        show_visibility(
                            idtree.nodes@,
                            show@,
                            x,
                            id as int,
                            parent_input(idtree.nodes@, old(visibility)@, id as int),
                        )
                    } else {
                        old(visibility)@[x]
                    }
                    &&& final(enable)@[x] == if show_updates(idtree.nodes@, node_states@, x, id as int) {
                        show_enable(
                            idtree.nodes@,
                            show@,
                            x,
                            id as int,
                            parent_input(idtree.nodes@, old(visibility)@, id as int),
                            parent_input(idtree.nodes@, old(enable)@, id as int),
                        )
                    } else {
                        old(enable)@[x]
                    }
                },
    {
        let layer = match idtree.layer(id) {
            Some(l) => l,
            None => return ,
        };
        if layer == 0 {
            return ;
        }
        if !node_states[id] {
            return ;
        }
        let parent_id = idtree.nodes[id].parent;
        proof {
            if idtree.nodes@[id as int].layer > 1 {
                crate::idtree::lemma_steps_up(idtree.nodes@, id as int);
            }
        }
        if parent_id > 0 {
            let parent_c_visibility = visibility[parent_id];
            let parent_c_enable = enable[parent_id];
            modify_show(
                parent_c_visibility,
                parent_c_enable,
                id,
                idtree,
                show,
                visibility,
                enable,
                node_states,
            );
        } else {
            modify_show(true, true, id, idtree, show, visibility, enable, node_states);
        }
    }

    /// A node is taken off the tree: clears the visibility and the enable
    /// flag of the node and of the real nodes below it that still have them.
    pub fn on_tree_delete(
        id: usize,
        idtree: &IdTree,
        visibility: &mut Vec<bool>,
        enable: &mut Vec<bool>,
        node_states: &Vec<bool>,
    )
        requires
            tree_wf(idtree.nodes@),
            old(visibility)@.len() == idtree.nodes@.len(),
            old(enable)@.len() == idtree.nodes@.len(),
            node_states@.len() == idtree.nodes@.len(),
            id < idtree.nodes@.len(),
        ensures
            final(visibility)@.len() == old(visibility)@.len(),
            final(enable)@.len() == old(enable)@.len(),
            forall|x: int|
                0 <= x < idtree.nodes@.len() ==> {
                    &&& #[trigger] final(visibility)@[x] == if cancel_updates(
                        idtree.nodes@,
                        node_states@,
                        old(visibility)@,
                        x,
                        id as int,
                    ) {
                        false
                    } else {
                        old(visibility)@[x]
                    }
                    &&& final(enable)@[x] == if cancel_updates(
                        idtree.nodes@,
                        node_states@,
                        old(enable)@,
                        x,
                        id as int,
                    ) {
                        false
                    } else {
                        old(enable)@[x]
                    }
                },
    {
        cancel_visibility(id, idtree, visibility, node_states);
        cancel_enable(id, idtree, enable, node_states);
    }
}

/// A node that the computation makes enabled is also made visible.
pub proof fn lemma_enable_implies_visible(
    t: Seq<TreeNode>,
    shows: Seq<Show>,
    x: int,
    id: int,
    pv: bool,
    pe: bool,
)
    ensures
        show_enable(t, shows, x, id, pv, pe) ==> show_visibility(t, shows, x, id, pv),
{
}

/// A node below `id` that the computation makes visible has a visible parent,
/// and a node it makes enabled with enable type `Auto` has an enabled parent.
pub proof fn lemma_shown_parent(
    t: Seq<TreeNode>,
    shows: Seq<Show>,
    x: int,
    id: int,
    pv: bool,
    pe: bool,
)
    requires
        tree_wf(t),
        in_subtree(t, x, id),
        x != id,
    ensures
        show_visibility(t, shows, x, id, pv) ==> show_visibility(
            t,
            shows,
            t[x].parent as int,
            id,
            pv,
        ),
        show_enable(t, shows, x, id, pv, pe) && shows[x].enable == EnableType::Auto ==> show_enable(
            t,
            shows,
            t[x].parent as int,
            id,
            pv,
            pe,
        ),
{
    lemma_subtree_parent(t, x, id);
}

/// When every set flag below `id` has its parent's flag set, cancelling from
/// `id` clears the flag of every real node reached below `id`.
pub proof fn lemma_cancel_clears(t: Seq<TreeNode>, reals: Seq<bool>, flags: Seq<bool>, x: int, id: int)
    requires
        tree_wf(t),
        reals.len() == t.len(),
        flags.len() == t.len(),
        flags[id],
        forall|y: int|
            #![trigger flags[y]]
            in_subtree(t, y, id) && y != id && reals[y] && flags[y] ==> flags[t[y].parent as int],
        in_subtree(t, x, id),
        show_reaches(t, reals, x, id),
    ensures
        !flags[x] || cancel_updates(t, reals, flags, x, id),
    decreases t[x].layer,
{
    if x != id {
        lemma_subtree_parent(t, x, id);
        lemma_cancel_clears(t, reals, flags, t[x].parent as int, id);
    }
}

/// A computation that reaches a node of the subtree of `id` started at a real `id`.
pub proof fn lemma_reaches_up(t: Seq<TreeNode>, reals: Seq<bool>, x: int, id: int)
    requires
        tree_wf(t),
        in_subtree(t, x, id),
        show_reaches(t, reals, x, id),
    ensures
        reals[id],
    decreases t[x].layer,
{
    if x != id {
        lemma_subtree_parent(t, x, id);
        lemma_reaches_up(t, reals, t[x].parent as int, id);
    }
}

/// The first `j + 1` elements hold those of the first `j` and element `j`.
pub proof fn lemma_take_step(s: Seq<usize>, j: int)
    requires
        0 <= j < s.len(),
    ensures
        forall|v: usize| s.take(j + 1).contains(v) <==> (s.take(j).contains(v) || v == s[j]),
{
    assert(s.take(j + 1) =~= s.take(j).push(s[j]));
    assert forall|v: usize| s.take(j + 1).contains(v) <==> (s.take(j).contains(v) || v == s[j]) by {
        let sj1 = s.take(j + 1);
        if sj1.contains(v) {
            let i = choose|i: int| 0 <= i < j + 1 && sj1[i] == v;
            if i < j {
                assert(s.take(j)[i] == v);
            }
        }
        let sj = s.take(j);
        if sj.contains(v) {
            let i = choose|i: int| 0 <= i < j && sj[i] == v;
            assert(s.take(j + 1)[i] == v);
        }
        if v == s[j] {
            assert(s.take(j + 1)[j] == v);
        }
    }
}

/// Without repeats, element `j` is not among the first `j`.
pub proof fn lemma_not_in_take(s: Seq<usize>, j: int)
    requires
        0 <= j < s.len(),
        s.no_duplicates(),
    ensures
        !s.take(j).contains(s[j]),
{
    let sj = s.take(j);
    if sj.contains(s[j]) {
        let i = choose|i: int| 0 <= i < j && sj[i] == s[j];
        assert(s[i] == s[j]);
    }
}

/// Below a child `c` of `id`, the real nodes reached from `id` are those
/// reached from `c`, when `id` is real.
pub proof fn lemma_reaches_through_child(t: Seq<TreeNode>, reals: Seq<bool>, id: int, k: int, x: int)
    requires
        tree_wf(t),
        0 <= id < t.len(),
        t[id].layer > 0,
        0 <= k < t[id].children@.len(),
        in_subtree(t, x, t[id].children@[k] as int),
    ensures
        show_reaches(t, reals, x, id) == (show_reaches(t, reals, x, t[id].children@[k] as int)
            && reals[id]),
{
    lemma_show_through_child(t, Seq::<Show>::empty(), reals, id, k, x, true, true);
}

} // verus!
