//! Stable ordering by integer keys.
use vstd::prelude::*;

verus! {

/// `perm` lists the indices of `keys` so that keys never decrease, and
/// equal keys keep their order.
pub open spec fn stable_perm(keys: Seq<int>, perm: Seq<int>) -> bool {
    &&& perm.len() == keys.len()
    &&& forall|k: int| 0 <= k < perm.len() ==> 0 <= #[trigger] perm[k] < keys.len()
    &&& forall|k: int, l: int| 0 <= k < l < perm.len() ==> perm[k] != perm[l]
    &&& forall|k: int, l: int| 0 <= k < l < perm.len() ==> keys[perm[k]] <= keys[perm[l]]
    &&& forall|k: int, l: int|
        0 <= k < l < perm.len() && keys[perm[k]] == keys[perm[l]] ==> perm[k] < perm[l]
}

/// The keys as integers.
pub open spec fn key_ints(keys: Seq<i128>) -> Seq<int> {
    keys.map_values(|k: i128| k as int)
}

/// The indices as integers.
pub open spec fn index_ints(perm: Seq<usize>) -> Seq<int> {
    perm.map_values(|x: usize| x as int)
}

/// The indices of `keys` in the order a stable sort by key puts them.
pub fn stable_sort_indices(keys: &Vec<i128>) -> (perm: Vec<usize>)
    ensures
        stable_perm(key_ints(keys@), index_ints(perm@)),
{
    let mut perm: Vec<usize> = Vec::new();
    let mut i: usize = 0;
    while i < keys.len()
        invariant
            i <= keys@.len(),
            perm@.len() == i,
            forall|k: int| 0 <= k < perm@.len() ==> 0 <= #[trigger] perm@[k] < i,
            forall|k: int, l: int| 0 <= k < l < perm@.len() ==> perm@[k] != perm@[l],
            forall|k: int, l: int|
                0 <= k < l < perm@.len() ==> keys@[perm@[k] as int] <= keys@[perm@[l] as int],
            forall|k: int, l: int|
                0 <= k < l < perm@.len() && keys@[perm@[k] as int] == keys@[perm@[l] as int]
                    ==> perm@[k] < perm@[l],
        decreases keys@.len() - i,
    {
        let ki = keys[i];
        let mut j: usize = perm.len();
        while j > 0 && keys[perm[j - 1]] > ki
            invariant
                j <= perm@.len() == i < keys@.len(),
                ki == keys@[i as int],
                forall|k: int| 0 <= k < perm@.len() ==> 0 <= #[trigger] perm@[k] < i,
                forall|k: int| j <= k < perm@.len() ==> keys@[#[trigger] perm@[k] as int] > ki,
            decreases j,
        {
            j = j - 1;
        }
        proof {
            assert forall|k: int| 0 <= k < j implies keys@[#[trigger] perm@[k] as int] <= ki by {
                if j > 0 {
                    assert(keys@[perm@[j - 1] as int] <= ki);
                    if k < j - 1 {
                        assert(keys@[perm@[k] as int] <= keys@[perm@[j - 1] as int]);
                    }
                }
            }
        }
        let ghost old_perm = perm@;
        perm.insert(j, i);
        assert(perm@ == old_perm.insert(j as int, i));
        proof {
            assert forall|k: int| 0 <= k < perm@.len() implies 0 <= #[trigger] perm@[k] < i + 1 by {
                if k < j {
                    assert(perm@[k] == old_perm[k]);
                } else if k > j {
                    assert(perm@[k] == old_perm[k - 1]);
                }
            }
            assert forall|k: int, l: int| 0 <= k < l < perm@.len() implies perm@[k] != perm@[l] by {
                if k < j && l < j {
                    assert(perm@[k] == old_perm[k] && perm@[l] == old_perm[l]);
                } else if k < j && l == j {
                    assert(old_perm[k] < i);
                } else if k < j && l > j {
                    assert(perm@[l] == old_perm[l - 1]);
                } else if k == j {
                    assert(old_perm[l - 1] < i);
                } else {
                    assert(perm@[k] == old_perm[k - 1] && perm@[l] == old_perm[l - 1]);
                }
            }
            assert forall|k: int, l: int| 0 <= k < l < perm@.len() implies keys@[perm@[k] as int]
                <= keys@[perm@[l] as int] by {
                if k < j && l < j {
                    assert(perm@[k] == old_perm[k] && perm@[l] == old_perm[l]);
                } else if k < j && l == j {
                    assert(perm@[k] == old_perm[k]);
                } else if k < j && l > j {
                    assert(perm@[k] == old_perm[k] && perm@[l] == old_perm[l - 1]);
                } else if k == j {
                    assert(perm@[l] == old_perm[l - 1]);
                } else {
                    assert(perm@[k] == old_perm[k - 1] && perm@[l] == old_perm[l - 1]);
                }
            }
            assert forall|k: int, l: int|
                0 <= k < l < perm@.len() && keys@[perm@[k] as int] == keys@[perm@[l] as int]
                    implies perm@[k] < perm@[l] by {
                if k < j && l < j {
                    assert(perm@[k] == old_perm[k] && perm@[l] == old_perm[l]);
                } else if k < j && l == j {
                    assert(perm@[k] == old_perm[k]);
                } else if k < j && l > j {
                    assert(perm@[k] == old_perm[k] && perm@[l] == old_perm[l - 1]);
                } else if k == j {
                    assert(perm@[l] == old_perm[l - 1]);
                    assert(keys@[old_perm[l - 1] as int] > ki);
                } else {
                    assert(perm@[k] == old_perm[k - 1] && perm@[l] == old_perm[l - 1]);
                }
            }
        }
        i = i + 1;
    }
    let ghost p = index_ints(perm@);
    let ghost ks = key_ints(keys@);
    assert forall|k: int, l: int| 0 <= k < l < p.len() implies ks[p[k]] <= ks[p[l]] by {
        assert(keys@[perm@[k] as int] <= keys@[perm@[l] as int]);
    }
    assert forall|k: int, l: int| 0 <= k < l < p.len() && ks[p[k]] == ks[p[l]] implies p[k] < p[l] by {
        assert(keys@[perm@[k] as int] == keys@[perm@[l] as int]);
    }
    assert forall|k: int, l: int| 0 <= k < l < p.len() implies p[k] != p[l] by {
        assert(perm@[k] != perm@[l]);
    }
    assert forall|k: int| 0 <= k < p.len() implies 0 <= #[trigger] p[k] < ks.len() by {
        assert(perm@[k] < i);
    }
    perm
}

} // verus!
