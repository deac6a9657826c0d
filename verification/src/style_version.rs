//! The style version and the count of dirty nodes.
use vstd::prelude::*;
use crate::style_mark::DirtyList;

verus! {

/// Raises the style version by one after the dirty styles were processed.
pub struct StyleVersion;

impl Default for StyleVersion {
    fn default() -> (r: Self)
        ensures
            r == StyleVersion,
    {
        StyleVersion
    }
}

impl StyleVersion {
    pub fn run(&mut self, dirty_list: &mut DirtyList)
        requires
            old(dirty_list).version < usize::MAX,
        ensures
            final(dirty_list).version == old(dirty_list).version + 1,
            final(dirty_list).list@ == old(dirty_list).list@,
            final(dirty_list).count == old(dirty_list).count,
    {
        dirty_list.version = dirty_list.version + 1;
    }
}

/// Records how many nodes are in the dirty list.
pub struct DirtyCount;

impl Default for DirtyCount {
    fn default() -> (r: Self)
        ensures
            r == DirtyCount,
    {
        DirtyCount
    }
}

impl DirtyCount {
    pub fn run(&mut self, dirty_list: &mut DirtyList)
        ensures
            final(dirty_list).count == old(dirty_list).list@.len(),
            final(dirty_list).list@ == old(dirty_list).list@,
            final(dirty_list).version == old(dirty_list).version,
    {
        dirty_list.count = dirty_list.list.len();
    }
}

} // verus!
