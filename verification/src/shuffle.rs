use vstd::prelude::*;
use crate::rng::RandomSource;

verus! {

/// The identity index sequence 0, 1, ..., len-1.
pub open spec fn identity_indices(len: u32) -> Seq<u32> {
    Seq::new(len as nat, |i: int| i as u32)
}

/// A uniformly shuffled permutation of the indices 0..len, by Fisher-Yates:
/// i runs from len-1 down to 1 and position i is swapped with a position
/// drawn from [0, i]. The result always holds exactly the indices 0..len;
/// inputs 0 and 1 return the identity sequence unchanged.
pub fn shuffle_indices(len: u32, rng: &mut RandomSource) -> (r: Vec<u32>)
    ensures
        r@.len() == len,
        r@.to_multiset() == identity_indices(len).to_multiset(),
        len == 0 ==> r@ == Seq::<u32>::empty(),
        len == 1 ==> r@ == seq![0u32],
{
    let mut v: Vec<u32> = Vec::new();
    let mut k: u32 = 0;
    while k < len
        invariant
            k <= len,
            v@ =~= identity_indices(k),
        decreases len - k,
    {
        v.push(k);
        proof {
            assert(v@ =~= identity_indices((k + 1) as u32));
        }
        k = k + 1;
    }
    proof {
        assert(v@ =~= identity_indices(len));
        if len == 1 {
            assert(v@ =~= seq![0u32]);
        }
    }
    if len <= 1 {
        return v;
    }
    let mut i: u32 = len - 1;
    while i > 0
        invariant
            0 <= i < len,
            v@.len() == len,
            v@.to_multiset() == identity_indices(len).to_multiset(),
        decreases i,
    {
        let j = rng.next_index(i + 1);
        let ghost before = v@;
        let a = v[i as usize];
        let b = v[j as usize];
        v[i as usize] = b;
        v[j as usize] = a;
        proof {
            lemma_swap_preserves_multiset(before, i as int, j as int);
            assert(v@ =~= before.update(i as int, before[j as int]).update(
                j as int,
                before[i as int],
            ));
        }
        i = i - 1;
    }
    v
}

/// Swapping two positions of a sequence leaves its multiset of values
/// unchanged.
pub proof fn lemma_swap_preserves_multiset(s: Seq<u32>, i: int, j: int)
    requires
        0 <= i < s.len(),
        0 <= j < s.len(),
    ensures
        s.update(i, s[j]).update(j, s[i]).to_multiset() == s.to_multiset(),
{
    broadcast use vstd::seq_lib::group_to_multiset_ensures;

    let s1 = s.update(i, s[j]);
    let s2 = s1.update(j, s[i]);
    if i == j {
        assert(s2.to_multiset() =~= s.to_multiset());
    } else {
        assert(s1[j] == s[j]);
        assert(s.contains(s[i]));
        assert(s1.contains(s1[j]));
        assert(s2.to_multiset() =~= s.to_multiset());
    }
}

} // verus!
