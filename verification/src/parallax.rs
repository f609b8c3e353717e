//! Parallax layer bookkeeping: which sprite index of an atlas each layer
//! shows, and at which level it floats. The atlas manifest names, for each
//! atlas, an optional sprite for every level; an inverted atlas counts its
//! sprites from the top.

use vstd::prelude::*;

verus! {

/// The layers from level `k` on: every level with a sprite becomes a pair
/// of its sprite index (flipped when `invert` holds) and its level.
pub open spec fn layer_indices_from(
    parallax: Seq<Option<usize>>,
    total: int,
    invert: bool,
    k: int,
) -> Seq<(usize, usize)>
    decreases parallax.len() - k,
{
    if k < 0 || k >= parallax.len() {
        Seq::empty()
    } else {
        let rest = layer_indices_from(parallax, total, invert, k + 1);
        match parallax[k] {
            Some(l) => seq![
                ((if invert {
                    total - l - 1
                } else {
                    l as int
                }) as usize, k as usize),
            ] + rest,
            None => rest,
        }
    }
}

/// All layers of an atlas: sprite index and level of every level that shows
/// a sprite.
pub open spec fn layer_indices_spec(
    parallax: Seq<Option<usize>>,
    total: int,
    invert: bool,
) -> Seq<(usize, usize)> {
    layer_indices_from(parallax, total, invert, 0)
}

/// Computes an atlas's parallax layers: each level that names a sprite
/// yields that sprite's index, counted from the top of the atlas's `total`
/// sprites when `invert` holds, paired with the level.
pub fn parallax_layer_indices(parallax: &Vec<Option<usize>>, total: usize, invert: bool) -> (r:
    Vec<(usize, usize)>)
    requires
        invert ==> forall|i: int|
            0 <= i < parallax@.len() ==> match #[trigger] parallax@[i] {
                Some(l) => l < total,
                None => true,
            },
    ensures
        r@ == layer_indices_spec(parallax@, total as int, invert),
{
    let ghost full = layer_indices_spec(parallax@, total as int, invert);
    let mut r: Vec<(usize, usize)> = Vec::new();
    let mut k: usize = 0;
    proof {
        assert(r@ + layer_indices_from(parallax@, total as int, invert, 0) =~= full);
    }
    while k < parallax.len()
        invariant
            k <= parallax@.len(),
            full == layer_indices_spec(parallax@, total as int, invert),
            invert ==> forall|i: int|
                0 <= i < parallax@.len() ==> match #[trigger] parallax@[i] {
                    Some(l) => l < total,
                    None => true,
                },
            full == r@ + layer_indices_from(parallax@, total as int, invert, k as int),
        decreases parallax@.len() - k,
    {
        let ghost r_before = r@;
        match parallax[k] {
            Some(l) => {
                let idx = if invert {
                    total - l - 1
                } else {
                    l
                };
                r.push((idx, k));
                proof {
                    assert(r_before + (seq![(idx, k)] + layer_indices_from(
                        parallax@,
                        total as int,
                        invert,
                        k + 1,
                    )) =~= r@ + layer_indices_from(parallax@, total as int, invert, k + 1));
                }
            },
            None => {},
        }
        k += 1;
    }
    proof {
        assert(layer_indices_from(parallax@, total as int, invert, k as int) =~= Seq::empty());
        assert(r@ + Seq::<(usize, usize)>::empty() =~= r@);
    }
    r
}

} // verus!
