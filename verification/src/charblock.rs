//! Index data of the character quads: each character is drawn as a quad of
//! four vertices, split into two triangles.
use vstd::prelude::*;

verus! {

/// The six indices of quad `q`: triangles (0, 1, 2) and (0, 2, 3) of its four vertices.
pub open spec fn quad_index(q: int, k: int) -> int {
    4 * q + if k < 3 { k } else if k == 3 { 0 } else { k - 2 }
}

/// The index buffer of `count` quads: six indices per quad, for quads 0, 1, ...
pub fn create_index_buffer(count: usize) -> (r: Vec<u16>)
    requires
        count <= 16383,
    ensures
        r@.len() == 6 * count,
        forall|i: int| 0 <= i < r@.len() ==> #[trigger] r@[i] == quad_index(i / 6, i % 6),
{
    let mut index_data: Vec<u16> = Vec::with_capacity(count * 6);
    let mut i: u16 = 0;
    while (i as usize) < count * 4
        invariant
            count <= 16383,
            i % 4 == 0,
            i <= count * 4,
            index_data@.len() == 6 * (i / 4),
            forall|j: int| 0 <= j < index_data@.len() ==> #[trigger] index_data@[j] == quad_index(j / 6, j % 6),
        decreases count * 4 - i,
    {
        let ghost n = index_data@.len();
        index_data.push(i);
        index_data.push(i + 1);
        index_data.push(i + 2);
        index_data.push(i);
        index_data.push(i + 2);
        index_data.push(i + 3);
        proof {
            assert forall|j: int| 0 <= j < index_data@.len() implies #[trigger] index_data@[j] == quad_index(j / 6, j % 6) by {
                if j >= n {
                    assert(j / 6 == i / 4);
                }
            }
        }
        i = i + 4;
    }
    index_data
}

} // verus!
