//! Terrain meshing: one mesh per chunk, a grid of flat quads.

use vstd::arithmetic::div_mod::lemma_fundamental_div_mod_converse;
use vstd::prelude::*;

verus! {

/// Corner (0 to 3) of a quad used at slot `k` (0 to 5) of its two triangles.
pub open spec fn quad_corner(k: int) -> int {
    if k == 0 { 0 }
    else if k == 1 { 3 }
    else if k == 2 { 2 }
    else if k == 3 { 0 }
    else if k == 4 { 2 }
    else { 1 }
}

/// The triangle index list of `n_quads` quads whose four corners are stored one
/// quad after another: quad `q` is drawn as the triangles (0, 3, 2) and
/// (0, 2, 1) of its corners `4 q .. 4 q + 3`.
pub fn quad_indices(n_quads: usize) -> (indices: Vec<u32>)
    requires
        4 * n_quads + 3 <= u32::MAX,
    ensures
        indices@.len() == 6 * n_quads,
        forall|i: int| 0 <= i < indices@.len() ==> #[trigger] indices@[i] == 4 * (i / 6) + quad_corner(i % 6),
{
    let mut indices: Vec<u32> = Vec::new();
    let mut q: usize = 0;
    while q < n_quads
        invariant
            4 * n_quads + 3 <= u32::MAX,
            q <= n_quads,
            indices@.len() == 6 * q,
            forall|i: int| 0 <= i < indices@.len() ==> #[trigger] indices@[i] == 4 * (i / 6) + quad_corner(i % 6),
        decreases n_quads - q,
    {
        let base = (4 * q) as u32;
        indices.push(base);
        indices.push(base + 3);
        indices.push(base + 2);
        indices.push(base);
        indices.push(base + 2);
        indices.push(base + 1);
        proof {
            assert forall|i: int| 0 <= i < indices@.len() implies #[trigger] indices@[i] == 4 * (i / 6) + quad_corner(i % 6) by {
                if i >= 6 * q {
                    lemma_fundamental_div_mod_converse(i, 6, q as int, i - 6 * q);
                }
            }
        }
        q = q + 1;
    }
    indices
}

} // verus!
