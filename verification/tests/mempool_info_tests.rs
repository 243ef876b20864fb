use btc_mempool::address::{IpBits, PeerAddress};
use btc_mempool::mempool_info::MempoolInfo;

fn peer() -> PeerAddress {
    PeerAddress { ip: IpBits::V4(0x0a000001), port: 8333 }
}

#[test]
fn new_record_is_empty_and_bound_to_the_peer() {
    let info = MempoolInfo::new(peer());
    assert_eq!(info.ip_address, peer());
    assert_eq!(info.fee_filter, None);
    assert_eq!(info.mempool_count, None);
}

#[test]
fn fee_filter_is_overwritten_not_accumulated() {
    let mut info = MempoolInfo::new(peer());
    info.set_fee_filter(11);
    assert_eq!(info.fee_filter, Some(11));
    info.set_fee_filter(4);
    assert_eq!(info.fee_filter, Some(4));
}

#[test]
fn mempool_count_accumulates_across_updates() {
    let mut info = MempoolInfo::new(peer());
    info.update_mempool_count(5);
    assert_eq!(info.mempool_count, Some(5));
    info.update_mempool_count(7);
    assert_eq!(info.mempool_count, Some(12));
    info.set_mempool_count(2);
    assert_eq!(info.mempool_count, Some(2));
}

#[test]
fn mempool_count_saturates_instead_of_overflowing() {
    let mut info = MempoolInfo::new(peer());
    info.update_mempool_count(usize::MAX - 1);
    info.update_mempool_count(5);
    assert_eq!(info.mempool_count, Some(usize::MAX));
}
