use gui::idtree::IdTree;
use gui::show::{Display, EnableType, Show, ShowSys};

struct World {
    tree: IdTree,
    shows: Vec<Show>,
    visibility: Vec<bool>,
    enable: Vec<bool>,
    states: Vec<bool>,
}

impl World {
    fn new(n: usize) -> World {
        World {
            tree: IdTree::with_capacity(n),
            shows: vec![Show::default(); n],
            visibility: vec![false; n],
            enable: vec![false; n],
            states: vec![true; n],
        }
    }

    fn modify(&mut self, id: usize) {
        ShowSys::modify_show(id, &self.tree, &self.shows, &mut self.visibility, &mut self.enable, &self.states);
    }

    /// Puts `child` under `parent` (tree create event), then gives it a `Show`
    /// (show create event).
    fn add(&mut self, child: usize, parent: usize) {
        self.tree.insert_child(child, parent);
        self.modify(child);
        self.shows[child] = Show::default();
        self.modify(child);
    }
}

#[test]
fn show_test() {
    let (e0, e00, e01, e02) = (1, 2, 3, 4);
    let (e000, e001, e002) = (5, 6, 7);
    let (e010, e011, e012) = (8, 9, 10);
    let mut w = World::new(11);
    w.add(e0, 0);
    w.add(e00, e0);
    w.add(e01, e0);
    w.add(e02, e0);
    w.add(e000, e00);
    w.add(e001, e00);
    w.add(e002, e00);
    w.add(e010, e01);
    w.add(e011, e01);
    w.add(e012, e01);
    for id in 1..11 {
        assert!(w.visibility[id]);
        assert!(w.enable[id]);
    }

    w.shows[e00].set_visibility(false);
    w.modify(e00);
    w.shows[e01].set_enable(EnableType::Disable);
    w.modify(e01);
    w.shows[e02].set_display(Display::Hide);
    w.modify(e02);
    w.shows[e010].set_enable(EnableType::Visible);
    w.modify(e010);

    let vis: Vec<bool> = (1..11).map(|id| w.visibility[id]).collect();
    let en: Vec<bool> = (1..11).map(|id| w.enable[id]).collect();
    // e0, e00, e01, e02, e000, e001, e002, e010, e011, e012
    assert_eq!(vis, vec![true, false, true, false, false, false, false, true, true, true]);
    assert_eq!(en, vec![true, false, false, false, false, false, false, true, false, false]);
}

#[test]
fn show_enabled_nodes_are_visible() {
    let mut w = World::new(6);
    w.add(1, 0);
    w.add(2, 1);
    w.add(3, 2);
    w.add(4, 2);
    w.add(5, 1);
    w.shows[2].set_visibility(false);
    w.shows[3].set_enable(EnableType::Visible);
    w.modify(2);
    for id in 1..6 {
        assert!(!w.enable[id] || w.visibility[id]);
    }
    // a visible enable does not make a hidden node enabled
    assert!(!w.visibility[3]);
    assert!(!w.enable[3]);
}

#[test]
fn show_virtual_nodes_are_skipped() {
    let mut w = World::new(4);
    w.add(1, 0);
    w.add(2, 1);
    w.add(3, 2);
    w.states[2] = false;
    w.shows[1].set_visibility(false);
    w.modify(1);
    assert!(!w.visibility[1]);
    // node 2 is not a real node: it and the nodes below it keep their values
    assert!(w.visibility[2]);
    assert!(w.visibility[3]);
}

#[test]
fn show_node_off_tree_unchanged() {
    let mut w = World::new(3);
    w.add(1, 0);
    w.visibility[2] = false;
    w.modify(2);
    assert!(!w.visibility[2]);
    assert!(!w.enable[2]);
}

#[test]
fn show_tree_delete_clears_subtree() {
    let mut w = World::new(6);
    w.add(1, 0);
    w.add(2, 1);
    w.add(3, 2);
    w.add(4, 2);
    w.add(5, 1);
    ShowSys::on_tree_delete(2, &w.tree, &mut w.visibility, &mut w.enable, &w.states);
    assert_eq!(w.visibility, vec![false, true, false, false, false, true]);
    assert_eq!(w.enable, vec![false, true, false, false, false, true]);
}

#[test]
fn show_getters_and_setters() {
    let mut s = Show::default();
    assert!(matches!(s.get_display(), Display::Flex));
    assert!(s.get_visibility());
    assert_eq!(s.get_enable(), EnableType::Auto);
    s.set_display(Display::Hide);
    s.set_visibility(false);
    s.set_enable(EnableType::Disable);
    assert!(matches!(s.get_display(), Display::Hide));
    assert!(!s.get_visibility());
    assert_eq!(s.get_enable(), EnableType::Disable);
}
