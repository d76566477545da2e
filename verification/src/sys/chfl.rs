//! Helpers for rebuilding bond lists after particles are renumbered, as
//! happens when a trajectory reader hands over bonds while the system
//! reorders particles into molecules.

use vstd::prelude::*;

verus! {

/// The first permutation whose source index is `b` decides the new index;
/// later permutations do not apply. With none matching, `b` is unchanged.
pub open spec fn permuted_index(b: u64, perms: Seq<(usize, usize)>, i: int) -> u64
    decreases perms.len() - i,
{
    if i < 0 || i >= perms.len() {
        b
    } else if perms[i].0 as u64 == b {
        perms[i].1 as u64
    } else {
        permuted_index(b, perms, i + 1)
    }
}

fn permute_one(b: u64, permutations: &Vec<(usize, usize)>) -> (r: u64)
    ensures
        r == permuted_index(b, permutations@, 0),
{
    let mut i: usize = 0;
    while i < permutations.len()
        invariant
            0 <= i <= permutations.len(),
            permuted_index(b, permutations@, i as int) == permuted_index(b, permutations@, 0),
        decreases permutations.len() - i,
    {
        let p = permutations[i];
        if p.0 as u64 == b {
            return p.1 as u64;
        }
        i = i + 1;
    }
    b
}

/// Apply a particle permutation to a list of bonds: each endpoint is
/// renumbered by the first applicable permutation, searching from the
/// front, so that a chained permutation such as `1 -> 2, 2 -> 3` moves
/// an endpoint `1` only to `2`, not all the way to `3`.
pub fn apply_particle_permutation(
    bonds: &mut Vec<[u64; 2]>,
    permutations: Vec<(usize, usize)>,
)
    ensures
        final(bonds)@.len() == old(bonds)@.len(),
        forall|k: int|
            0 <= k < final(bonds)@.len() ==> final(bonds)@[k][0] == permuted_index(
                old(bonds)@[k][0],
                permutations@,
                0,
            ) && final(bonds)@[k][1] == permuted_index(old(bonds)@[k][1], permutations@, 0),
{
    let n = bonds.len();
    let mut j: usize = 0;
    while j < n
        invariant
            0 <= j <= n,
            n == bonds@.len() == old(bonds)@.len(),
            forall|k: int| j <= k < n ==> bonds@[k] == old(bonds)@[k],
            forall|k: int|
                0 <= k < j ==> bonds@[k][0] == permuted_index(old(bonds)@[k][0], permutations@, 0)
                    && bonds@[k][1] == permuted_index(old(bonds)@[k][1], permutations@, 0),
        decreases n - j,
    {
        let b0 = bonds[j][0];
        let b1 = bonds[j][1];
        let n0 = permute_one(b0, &permutations);
        let n1 = permute_one(b1, &permutations);
        bonds.set(j, [n0, n1]);
        j = j + 1;
    }
}

} // verus!
