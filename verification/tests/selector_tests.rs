use btc_mempool::address::{IpBits, PeerAddress};
use btc_mempool::selector::select_peers;

fn pool(n: u32) -> Vec<PeerAddress> {
    (0..n).map(|i| PeerAddress { ip: IpBits::V4(i), port: 8333 }).collect()
}

#[test]
fn selection_yields_k_distinct_addresses_from_the_pool() {
    let candidates = pool(10);
    let chosen = select_peers(candidates.clone(), 5);
    assert_eq!(chosen.len(), 5);
    for a in &chosen {
        assert!(candidates.contains(a));
    }
    for i in 0..chosen.len() {
        for j in i + 1..chosen.len() {
            assert_ne!(chosen[i], chosen[j]);
        }
    }
}

#[test]
fn selecting_the_whole_pool_is_a_permutation() {
    let candidates = pool(8);
    let chosen = select_peers(candidates.clone(), 8);
    assert_eq!(chosen.len(), 8);
    for a in &candidates {
        assert!(chosen.contains(a));
    }
}

#[test]
fn selecting_zero_addresses_yields_nothing() {
    let chosen = select_peers(pool(3), 0);
    assert!(chosen.is_empty());
}

#[test]
fn selection_from_a_v6_pool_works_too() {
    let candidates: Vec<PeerAddress> =
        (0..6u128).map(|i| PeerAddress { ip: IpBits::V6(i), port: 8333 }).collect();
    let chosen = select_peers(candidates.clone(), 4);
    assert_eq!(chosen.len(), 4);
    for a in &chosen {
        assert!(candidates.contains(a));
    }
}
