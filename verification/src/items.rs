//! Render items of a system: per node id, the index of its render object and
//! the flags of what must be rebuilt, plus the list of ids that became dirty.
use vstd::prelude::*;

verus! {

/// What must be rebuilt for a render object.
#[derive(Clone, Copy, Debug, PartialEq, Eq)]
pub enum DrityType {
    Create,
    VsProgram,
    FsProGram,
    Geometry,
    Matrix,
    Opacity,
}

/// The flag of each kind of rebuild.
pub open spec fn drity_type_bits(t: DrityType) -> usize {
    match t {
        DrityType::Create => 1,
        DrityType::VsProgram => 2,
        DrityType::FsProGram => 4,
        DrityType::Geometry => 8,
        DrityType::Matrix => 16,
        DrityType::Opacity => 32,
    }
}

/// The kinds of rebuild are independent flags: each is set, and two
/// different kinds share no flag, so a dirty word tells every kind apart.
pub proof fn lemma_drity_types_independent(a: DrityType, b: DrityType)
    ensures
        drity_type_bits(a) != 0,
        a != b ==> drity_type_bits(a) & drity_type_bits(b) == 0,
{
    assert(forall|x: usize, y: usize|
        (x == 1 || x == 2 || x == 4 || x == 8 || x == 16 || x == 32) && (y == 1 || y == 2 || y == 4 || y == 8
            || y == 16 || y == 32) && x != y ==> #[trigger] (x & y) == 0) by (bit_vector);
}

impl DrityType {
    /// The flag of this kind of rebuild.
    pub fn bits(&self) -> (r: usize)
        ensures
            r == drity_type_bits(*self),
    {
        match self {
            DrityType::Create => 1,
            DrityType::VsProgram => 2,
            DrityType::FsProGram => 4,
            DrityType::Geometry => 8,
            DrityType::Matrix => 16,
            DrityType::Opacity => 32,
        }
    }
}

/// The render item of one node.
#[derive(Debug)]
pub struct Item<T> {
    pub index: T,
    pub dirty: usize,
}

impl<T> Item<T> {
    /// A new item is dirty in every flag.
    pub fn new(index: T) -> (r: Item<T>)
        ensures
            r.index == index,
            r.dirty == usize::MAX,
    {
        Item { index: index, dirty: usize::MAX }
    }
}

/// The render items of a system, by node id, and the ids that became dirty.
#[derive(Debug)]
pub struct Items<T> {
    pub dirtys: Vec<usize>,
    pub render_map: Vec<Option<Item<T>>>,
}

/// The dirty flags of slot `id`, when it holds an item.
pub open spec fn item_dirty<T>(map: Seq<Option<Item<T>>>, id: int) -> Option<usize> {
    if 0 <= id < map.len() && map[id] is Some {
        Some(map[id]->0.dirty)
    } else {
        None
    }
}

impl<T> Items<T> {
    pub fn new() -> (r: Self)
        ensures
            r.dirtys@ == Seq::<usize>::empty(),
            r.render_map@ == Seq::<Option<Item<T>>>::empty(),
    {
        Items { dirtys: Vec::new(), render_map: Vec::new() }
    }

    /// Adds the flags `dirty` to the item of `id`, if there is one; the id is
    /// listed when its flags grew.
    pub fn set_dirty(&mut self, id: usize, dirty: usize)
        ensures
            final(self).render_map@.len() == old(self).render_map@.len(),
            forall|x: int|
                0 <= x < final(self).render_map@.len() && x != id
                    ==> #[trigger] final(self).render_map@[x] == old(self).render_map@[x],
            item_dirty(old(self).render_map@, id as int) is None
                ==> final(self).render_map@ == old(self).render_map@
                && final(self).dirtys@ == old(self).dirtys@,
            item_dirty(old(self).render_map@, id as int) matches Some(d) ==> {
                &&& final(self).render_map@[id as int] matches Some(item)
                    && item.dirty == (d | dirty)
                    && item.index == old(self).render_map@[id as int]->0.index
                &&& final(self).dirtys@ == if (d | dirty) != d {
                    old(self).dirtys@.push(id)
                } else {
                    old(self).dirtys@
                }
            },
    {
        if id >= self.render_map.len() {
            return ;
        }
        let mut slot: Option<Item<T>> = None;
        std::mem::swap(&mut slot, &mut self.render_map[id]);
        match slot {
            Some(mut item) => {
                let dirty = item.dirty | dirty;
                if dirty != item.dirty {
                    item.dirty = dirty;
                    self.dirtys.push(id);
                }
                self.render_map.set(id, Some(item));
            },
            None => {
                self.render_map.set(id, None);
            },
        }
    }

    /// Adds the flags `dirty` to the item of `id`, if there is one, without
    /// listing the id.
    pub fn set_dirty_no_push(&mut self, id: usize, dirty: usize)
        ensures
            final(self).dirtys@ == old(self).dirtys@,
            final(self).render_map@.len() == old(self).render_map@.len(),
            forall|x: int|
                0 <= x < final(self).render_map@.len() && x != id
                    ==> #[trigger] final(self).render_map@[x] == old(self).render_map@[x],
            item_dirty(old(self).render_map@, id as int) is None
                ==> final(self).render_map@ == old(self).render_map@,
            item_dirty(old(self).render_map@, id as int) matches Some(d)
                ==> final(self).render_map@[id as int] matches Some(item)
                && item.dirty == (d | dirty)
                && item.index == old(self).render_map@[id as int]->0.index,
    {
        if id >= self.render_map.len() {
            return ;
        }
        let mut slot: Option<Item<T>> = None;
        std::mem::swap(&mut slot, &mut self.render_map[id]);
        match slot {
            Some(mut item) => {
                item.dirty = item.dirty | dirty;
                self.render_map.set(id, Some(item));
            },
            None => {
                self.render_map.set(id, None);
            },
        }
    }

    /// Puts a new item (dirty in every flag) with render object `index` at
    /// `id`, growing the map as needed, and lists `id`.
    pub fn create(&mut self, id: usize, index: T)
        requires
            id < usize::MAX,
        ensures
            final(self).render_map@.len() as int == if id < old(self).render_map@.len() {
                old(self).render_map@.len() as int
            } else {
                id + 1
            },
            final(self).render_map@[id as int] matches Some(item) && item.index == index && item.dirty
                == usize::MAX,
            forall|x: int|
                0 <= x < final(self).render_map@.len() && x != id ==> #[trigger] final(self).render_map@[x]
                    == if x < old(self).render_map@.len() {
                    old(self).render_map@[x]
                } else {
                    None
                },
            final(self).dirtys@ == old(self).dirtys@.push(id),
    {
        let ghost m0 = self.render_map@;
        while self.render_map.len() <= id
            invariant
                id < usize::MAX,
                self.render_map@.len() >= m0.len(),
                self.render_map@.len() <= if id < m0.len() { m0.len() as int } else { id + 1 },
                forall|x: int|
                    0 <= x < self.render_map@.len() ==> #[trigger] self.render_map@[x] == if x < m0.len() {
                        m0[x]
                    } else {
                        None
                    },
                self.dirtys@ == old(self).dirtys@,
            decreases id + 1 - self.render_map@.len(),
        {
            self.render_map.push(None);
        }
        self.render_map.set(id, Some(Item::new(index)));
        self.dirtys.push(id);
    }
}

/// Adding flags to an item never removes one, and the item is listed exactly
/// when a flag was added.
pub proof fn lemma_item_dirty_grows(d: usize, dirty: usize)
    ensures
        (d | dirty) & d == d,
        (d | dirty) & dirty == dirty,
        (d | dirty) != d <==> dirty & !d != 0,
{
    assert((d | dirty) & d == d) by (bit_vector);
    assert((d | dirty) & dirty == dirty) by (bit_vector);
    assert((d | dirty) != d <==> dirty & !d != 0) by (bit_vector);
}

} // verus!
