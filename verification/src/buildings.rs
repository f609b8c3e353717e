//! The tall building's parallax stack: which atlas row each layer shows,
//! bottom to top. The atlas stores its rows top first, so each layer flips
//! its row index; the layer's position in the stack sets its height.

use vstd::prelude::*;

verus! {

/// The atlas rows of the building's layers, bottom to top: the ground
/// floor, four bands of windows, and the roof.
pub open spec fn building_row_seq() -> Seq<usize> {
    seq![0, 1, 1]
        + seq![3, 3, 2, 2, 2, 2, 3, 3, 4, 4, 5, 5]
        + seq![3, 3, 2, 2, 2, 2, 3, 3, 4, 4, 5, 5]
        + seq![3, 3, 2, 2, 2, 2, 3, 3, 4, 4, 5, 5]
        + seq![3, 3, 2, 2, 2, 2, 3, 3, 4, 4, 5, 5]
        + seq![6, 6, 7, 7, 8, 9, 9, 9, 9, 10, 10, 9, 9, 11, 11, 11]
}

fn building_rows() -> (r: Vec<usize>)
    ensures
        r@ == building_row_seq(),
{
    let r: Vec<usize> = vec![
        0, 1, 1,
        3, 3, 2, 2, 2, 2, 3, 3, 4, 4, 5, 5,
        3, 3, 2, 2, 2, 2, 3, 3, 4, 4, 5, 5,
        3, 3, 2, 2, 2, 2, 3, 3, 4, 4, 5, 5,
        3, 3, 2, 2, 2, 2, 3, 3, 4, 4, 5, 5,
        6, 6, 7, 7, 8, 9, 9, 9, 9, 10, 10, 9, 9, 11, 11, 11,
    ];
    proof {
        assert(r@ =~= building_row_seq());
    }
    r
}

/// The building's layers, bottom to top: each layer's sprite index in the
/// twelve-row atlas (row indices count from the top, so they flip) paired
/// with its position in the stack.
pub fn building_layers() -> (r: Vec<(usize, usize)>)
    ensures
        r@.len() == building_row_seq().len(),
        forall|k: int|
            0 <= k < r@.len() ==> (#[trigger] r@[k]).0 + building_row_seq()[k] == 11 && r@[
                k
            ].1 == k,
{
    let rows = building_rows();
    let mut r: Vec<(usize, usize)> = Vec::new();
    let mut k: usize = 0;
    while k < rows.len()
        invariant
            k <= rows@.len(),
            rows@ == building_row_seq(),
            r@.len() == k,
            forall|t: int|
                0 <= t < k ==> (#[trigger] r@[t]).0 + building_row_seq()[t] == 11 && r@[
                    t
                ].1 == t,
        decreases rows@.len() - k,
    {
        let row = rows[k];
        proof {
            assert(building_row_seq()[k as int] <= 11);
        }
        r.push((11 - row, k));
        k += 1;
    }
    r
}

} // verus!
