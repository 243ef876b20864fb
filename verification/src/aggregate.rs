use vstd::prelude::*;
use crate::mempool_info::MempoolInfo;
use crate::session::SessionOutcome;

verus! {

/// Summary of one reported figure across all successful peers that
/// reported it: smallest, largest, and the integer-truncated mean.
#[derive(Clone, Copy, PartialEq, Eq, Structural, Debug)]
pub struct FieldStats {
    pub min: u64,
    pub max: u64,
    pub avg: u64,
}

/// The aggregate over a whole batch of session outcomes.  A statistics
/// field is `None` exactly when no successful peer reported the
/// corresponding figure, so an empty batch never divides by zero.
#[derive(Clone, Copy, PartialEq, Eq, Debug)]
pub struct Report {
    pub success_count: usize,
    pub failure_count: usize,
    pub fee_filter: Option<FieldStats>,
    pub mempool_count: Option<FieldStats>,
}

/// The records of the successful outcomes, in batch order.
pub open spec fn successes_of(outs: Seq<SessionOutcome>) -> Seq<MempoolInfo>
    decreases outs.len(),
{
    if outs.len() == 0 {
        Seq::<MempoolInfo>::empty()
    } else {
        let rest = successes_of(outs.drop_last());
        match outs.last() {
            SessionOutcome::Success(info) => rest.push(info),
            SessionOutcome::Failure(_) => rest,
        }
    }
}

/// The fee filters reported by successful peers, in batch order.
pub open spec fn fee_values_of(outs: Seq<SessionOutcome>) -> Seq<u64>
    decreases outs.len(),
{
    if outs.len() == 0 {
        Seq::<u64>::empty()
    } else {
        let rest = fee_values_of(outs.drop_last());
        match outs.last() {
            SessionOutcome::Success(info) => match info.fee_filter {
                Some(fee) => rest.push(fee),
                None => rest,
            },
            SessionOutcome::Failure(_) => rest,
        }
    }
}

/// The mempool counts reported by successful peers, widened to 64 bits,
/// in batch order.
pub open spec fn count_values_of(outs: Seq<SessionOutcome>) -> Seq<u64>
    decreases outs.len(),
{
    if outs.len() == 0 {
        Seq::<u64>::empty()
    } else {
        let rest = count_values_of(outs.drop_last());
        match outs.last() {
            SessionOutcome::Success(info) => match info.mempool_count {
                Some(count) => rest.push(count as u64),
                None => rest,
            },
            SessionOutcome::Failure(_) => rest,
        }
    }
}

/// The sum of a sequence of figures, as an unbounded integer.
pub open spec fn seq_sum(s: Seq<u64>) -> int
    decreases s.len(),
{
    if s.len() == 0 {
        0
    } else {
        seq_sum(s.drop_last()) + s.last()
    }
}

/// The smallest figure of a non-empty sequence.
pub open spec fn seq_min(s: Seq<u64>) -> u64
    recommends
        s.len() > 0,
    decreases s.len(),
{
    if s.len() <= 1 {
        s[0]
    } else {
        let rest = seq_min(s.drop_last());
        if s.last() < rest {
            s.last()
        } else {
            rest
        }
    }
}

/// The largest figure of a non-empty sequence.
pub open spec fn seq_max(s: Seq<u64>) -> u64
    recommends
        s.len() > 0,
    decreases s.len(),
{
    if s.len() <= 1 {
        s[0]
    } else {
        let rest = seq_max(s.drop_last());
        if s.last() > rest {
            s.last()
        } else {
            rest
        }
    }
}

/// Condense a batch of outcomes into its report: how many sessions
/// succeeded and failed, and for each of the two reported figures the
/// minimum, maximum and truncated average over exactly those successful
/// peers that reported it.  Failures of every kind count alike, and a
/// figure nobody reported yields no statistics rather than an error.
pub fn aggregate(outcomes: &Vec<SessionOutcome>) -> (r: Report)
    ensures
        r.success_count == successes_of(outcomes@).len(),
        r.failure_count == outcomes@.len() - successes_of(outcomes@).len(),
        r.fee_filter is Some <==> fee_values_of(outcomes@).len() > 0,
        r.fee_filter matches Some(st) ==> st.min == seq_min(fee_values_of(outcomes@))
            && st.max == seq_max(fee_values_of(outcomes@))
            && st.avg == seq_sum(fee_values_of(outcomes@)) / (fee_values_of(outcomes@).len() as int),
        r.mempool_count is Some <==> count_values_of(outcomes@).len() > 0,
        r.mempool_count matches Some(st) ==> st.min == seq_min(count_values_of(outcomes@))
            && st.max == seq_max(count_values_of(outcomes@))
            && st.avg == seq_sum(count_values_of(outcomes@)) / (
            count_values_of(outcomes@).len() as int),
{
    let ghost all = outcomes@;
    let mut succ: usize = 0;
    let mut fail: usize = 0;
    let mut fee_min: u64 = 0;
    let mut fee_max: u64 = 0;
    let mut fee_sum: u128 = 0;
    let mut fee_n: usize = 0;
    let mut cnt_min: u64 = 0;
    let mut cnt_max: u64 = 0;
    let mut cnt_sum: u128 = 0;
    let mut cnt_n: usize = 0;
    let mut i: usize = 0;
    while i < outcomes.len()
        invariant
            i <= all.len(),
            all == outcomes@,
            succ == successes_of(all.subrange(0, i as int)).len(),
            fail == i - succ,
            succ <= i,
            fee_n == fee_values_of(all.subrange(0, i as int)).len(),
            fee_n <= i,
            fee_sum == seq_sum(fee_values_of(all.subrange(0, i as int))),
            fee_sum <= fee_n * (u64::MAX as int),
            fee_n > 0 ==> fee_min == seq_min(fee_values_of(all.subrange(0, i as int)))
                && fee_max == seq_max(fee_values_of(all.subrange(0, i as int))),
            cnt_n == count_values_of(all.subrange(0, i as int)).len(),
            cnt_n <= i,
            cnt_sum == seq_sum(count_values_of(all.subrange(0, i as int))),
            cnt_sum <= cnt_n * (u64::MAX as int),
            cnt_n > 0 ==> cnt_min == seq_min(count_values_of(all.subrange(0, i as int)))
                && cnt_max == seq_max(count_values_of(all.subrange(0, i as int))),
        decreases all.len() - i,
    {
        let ghost prefix = all.subrange(0, i as int);
        let outcome = &outcomes[i];
        proof {
            assert(all.subrange(0, i + 1) =~= prefix.push(all[i as int]));
            assert(prefix.push(all[i as int]).drop_last() =~= prefix);
        }
        match outcome {
            SessionOutcome::Success(info) => {
                succ = succ + 1;
                match info.fee_filter {
                    Some(fee) => {
                        let ghost fvs = fee_values_of(prefix);
                        proof {
                            assert(fvs.push(fee).drop_last() =~= fvs);
                            assert(fee_sum + fee <= (fee_n + 1) * (u64::MAX as int));
                        }
                        if fee_n == 0 {
                            fee_min = fee;
                            fee_max = fee;
                        } else {
                            if fee < fee_min {
                                fee_min = fee;
                            }
                            if fee > fee_max {
                                fee_max = fee;
                            }
                        }
                        fee_sum = fee_sum + (fee as u128);
                        fee_n = fee_n + 1;
                    },
                    None => {},
                }
                match info.mempool_count {
                    Some(count) => {
                        let widened: u64 = count as u64;
                        let ghost cvs = count_values_of(prefix);
                        proof {
                            assert(cvs.push(widened).drop_last() =~= cvs);
                            assert(cnt_sum + widened <= (cnt_n + 1) * (u64::MAX as int));
                        }
                        if cnt_n == 0 {
                            cnt_min = widened;
                            cnt_max = widened;
                        } else {
                            if widened < cnt_min {
                                cnt_min = widened;
                            }
                            if widened > cnt_max {
                                cnt_max = widened;
                            }
                        }
                        cnt_sum = cnt_sum + (widened as u128);
                        cnt_n = cnt_n + 1;
                    },
                    None => {},
                }
            },
            SessionOutcome::Failure(_) => {
                fail = fail + 1;
            },
        }
        i = i + 1;
    }
    proof {
        assert(all.subrange(0, all.len() as int) =~= all);
    }
    let fee_filter: Option<FieldStats> = if fee_n > 0 {
        proof {
            vstd::arithmetic::div_mod::lemma_div_is_ordered(
                fee_sum as int,
                fee_n * (u64::MAX as int),
                fee_n as int,
            );
            vstd::arithmetic::div_mod::lemma_div_multiples_vanish(u64::MAX as int, fee_n as int);
        }
        let avg: u64 = (fee_sum / (fee_n as u128)) as u64;
        Some(FieldStats { min: fee_min, max: fee_max, avg })
    } else {
        None
    };
    let mempool_count: Option<FieldStats> = if cnt_n > 0 {
        proof {
            vstd::arithmetic::div_mod::lemma_div_is_ordered(
                cnt_sum as int,
                cnt_n * (u64::MAX as int),
                cnt_n as int,
            );
            vstd::arithmetic::div_mod::lemma_div_multiples_vanish(u64::MAX as int, cnt_n as int);
        }
        let avg: u64 = (cnt_sum / (cnt_n as u128)) as u64;
        Some(FieldStats { min: cnt_min, max: cnt_max, avg })
    } else {
        None
    };
    Report { success_count: succ, failure_count: fail, fee_filter, mempool_count }
}

} // verus!
