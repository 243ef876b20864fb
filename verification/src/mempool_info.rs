use vstd::prelude::*;
use crate::address::PeerAddress;

verus! {

/// What one successfully handshaken peer reported about its mempool.
/// Both fields start unset and are only ever filled, never cleared:
/// the fee filter is overwritten by later announcements, the
/// transaction count accumulates across inventory batches.
#[derive(Clone, Copy, PartialEq, Eq, Debug)]
pub struct MempoolInfo {
    pub ip_address: PeerAddress,
    pub fee_filter: Option<u64>,
    pub mempool_count: Option<usize>,
}

/// The running total after one more inventory batch of `n` items:
/// the previous total (zero if none was recorded yet) plus `n`,
/// capped at `usize::MAX` rather than wrapping.
pub open spec fn accumulated_count(prev: Option<usize>, n: usize) -> usize {
    let base: usize = match prev {
        Some(c) => c,
        None => 0usize,
    };
    if base + n > usize::MAX {
        usize::MAX
    } else {
        (base + n) as usize
    }
}

impl MempoolInfo {
    /// The record a session starts with at handshake completion:
    /// bound to the peer, with no data yet.
    pub open spec fn empty_for(ip_address: PeerAddress) -> MempoolInfo {
        MempoolInfo { ip_address, fee_filter: None, mempool_count: None }
    }

    pub fn new(ip_address: PeerAddress) -> (r: Self)
        ensures
            r == MempoolInfo::empty_for(ip_address),
    {
        MempoolInfo { ip_address, fee_filter: None, mempool_count: None }
    }

    /// Record the advertised minimum relay fee; a later announcement
    /// replaces an earlier one.
    pub fn set_fee_filter(&mut self, fee_filter: u64)
        ensures
            final(self).fee_filter == Some(fee_filter),
            final(self).ip_address == old(self).ip_address,
            final(self).mempool_count == old(self).mempool_count,
    {
        self.fee_filter = Some(fee_filter);
    }

    /// Overwrite the transaction count outright.
    pub fn set_mempool_count(&mut self, mempool_count: usize)
        ensures
            final(self).mempool_count == Some(mempool_count),
            final(self).ip_address == old(self).ip_address,
            final(self).fee_filter == old(self).fee_filter,
    {
        self.mempool_count = Some(mempool_count);
    }

    /// Add one inventory batch's item count to the running total,
    /// saturating instead of overflowing.
    pub fn update_mempool_count(&mut self, value: usize)
        ensures
            final(self).mempool_count == Some(accumulated_count(old(self).mempool_count, value)),
            final(self).ip_address == old(self).ip_address,
            final(self).fee_filter == old(self).fee_filter,
    {
        let base: usize = match self.mempool_count {
            Some(count) => count,
            None => 0,
        };
        if base <= usize::MAX - value {
            self.mempool_count = Some(base + value);
        } else {
            self.mempool_count = Some(usize::MAX);
        }
    }
}

} // verus!
