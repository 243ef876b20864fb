use vstd::prelude::*;
use crate::address::PeerAddress;
use rand::seq::SliceRandom;

verus! {

/// Relies on rand::seq::SliceRandom::shuffle, driven by
/// rand::thread_rng: it reorders the elements of the slice in place
/// (a Fisher-Yates walk of swaps) and neither adds, removes nor alters
/// any element.  Which ordering comes out is up to the generator, so
/// nothing more than preservation of the contents is claimed.
#[verifier::external_body]
fn shuffle_addresses(pool: &mut Vec<PeerAddress>)
    ensures
        final(pool)@.to_multiset() == old(pool)@.to_multiset(),
{
    pool.shuffle(&mut rand::thread_rng());
}

/// Pick `k` of the candidate addresses without bias: shuffle the whole
/// pool uniformly at random and keep the first `k`.  Every chosen
/// address comes from the pool, and a pool free of duplicates yields
/// `k` distinct addresses.  Callers must clamp `k` to the pool size
/// first; which subset comes out is deliberately left open.
pub fn select_peers(pool: Vec<PeerAddress>, k: usize) -> (chosen: Vec<PeerAddress>)
    requires
        k <= pool.len(),
    ensures
        chosen.len() == k,
        forall|i: int| 0 <= i < k ==> pool@.contains(#[trigger] chosen@[i]),
        chosen@.to_multiset().subset_of(pool@.to_multiset()),
        pool@.no_duplicates() ==> chosen@.no_duplicates(),
{
    let ghost orig = pool@;
    let mut shuffled = pool;
    shuffle_addresses(&mut shuffled);
    let ghost mixed = shuffled@;
    proof {
        broadcast use vstd::seq_lib::group_to_multiset_ensures;

        assert(mixed.to_multiset().len() == mixed.len());
        assert(orig.to_multiset().len() == orig.len());
    }
    shuffled.truncate(k);
    proof {
        broadcast use vstd::seq_lib::group_to_multiset_ensures;

        assert(shuffled@ == mixed.subrange(0, k as int));
        assert forall|i: int| 0 <= i < k implies orig.contains(#[trigger] shuffled@[i]) by {
            assert(shuffled@[i] == mixed[i]);
            assert(mixed.contains(mixed[i]));
            assert(mixed.to_multiset().count(mixed[i]) > 0);
            assert(orig.to_multiset().count(mixed[i]) > 0);
        }
        broadcast use vstd::multiset::group_multiset_axioms;

        let suffix = mixed.subrange(k as int, mixed.len() as int);
        assert(mixed =~= shuffled@ + suffix);
        vstd::seq_lib::lemma_multiset_commutative(shuffled@, suffix);
        assert(shuffled@.to_multiset().subset_of(orig.to_multiset()));
        if orig.no_duplicates() {
            orig.lemma_multiset_has_no_duplicates();
            mixed.lemma_multiset_has_no_duplicates_conv();
            assert forall|i: int, j: int| 0 <= i < j < k implies shuffled@[i] != shuffled@[j] by {
                assert(shuffled@[i] == mixed[i] && shuffled@[j] == mixed[j]);
            }
        }
    }
    shuffled
}

} // verus!
