use btc_mempool::address::{IpBits, PeerAddress};
use btc_mempool::aggregate::{aggregate, FieldStats};
use btc_mempool::mempool_info::MempoolInfo;
use btc_mempool::session::{ErrorKind, SessionOutcome};

fn addr(n: u32) -> PeerAddress {
    PeerAddress { ip: IpBits::V4(n), port: 8333 }
}

fn success(n: u32, fee: Option<u64>, count: Option<usize>) -> SessionOutcome {
    SessionOutcome::Success(MempoolInfo { ip_address: addr(n), fee_filter: fee, mempool_count: count })
}

#[test]
fn mixed_batch_reports_exact_statistics() {
    let outcomes = vec![
        success(1, Some(10), Some(5)),
        success(2, Some(20), None),
        SessionOutcome::Failure(ErrorKind::Timeout),
    ];
    let report = aggregate(&outcomes);
    assert_eq!(report.success_count, 2);
    assert_eq!(report.failure_count, 1);
    assert_eq!(report.fee_filter, Some(FieldStats { min: 10, max: 20, avg: 15 }));
    assert_eq!(report.mempool_count, Some(FieldStats { min: 5, max: 5, avg: 5 }));
}

#[test]
fn unreported_fields_yield_no_statistics() {
    let outcomes = vec![success(1, None, None), success(2, None, None)];
    let report = aggregate(&outcomes);
    assert_eq!(report.success_count, 2);
    assert_eq!(report.failure_count, 0);
    assert_eq!(report.fee_filter, None);
    assert_eq!(report.mempool_count, None);
}

#[test]
fn empty_batch_reports_nothing() {
    let outcomes: Vec<SessionOutcome> = Vec::new();
    let report = aggregate(&outcomes);
    assert_eq!(report.success_count, 0);
    assert_eq!(report.failure_count, 0);
    assert_eq!(report.fee_filter, None);
    assert_eq!(report.mempool_count, None);
}

#[test]
fn every_failure_kind_counts_alike() {
    let outcomes = vec![
        SessionOutcome::Failure(ErrorKind::ConnectionError),
        SessionOutcome::Failure(ErrorKind::Timeout),
        SessionOutcome::Failure(ErrorKind::ProtocolDecodeError),
        SessionOutcome::Failure(ErrorKind::UnexpectedState),
    ];
    let report = aggregate(&outcomes);
    assert_eq!(report.success_count, 0);
    assert_eq!(report.failure_count, 4);
    assert_eq!(report.fee_filter, None);
    assert_eq!(report.mempool_count, None);
}

#[test]
fn average_is_truncated_integer_division() {
    let outcomes = vec![success(1, Some(3), Some(2)), success(2, Some(4), Some(3))];
    let report = aggregate(&outcomes);
    assert_eq!(report.fee_filter, Some(FieldStats { min: 3, max: 4, avg: 3 }));
    assert_eq!(report.mempool_count, Some(FieldStats { min: 2, max: 3, avg: 2 }));
}

#[test]
fn only_reporting_peers_enter_a_statistic() {
    let outcomes = vec![
        success(1, Some(100), None),
        success(2, None, Some(40)),
        success(3, Some(200), Some(60)),
        SessionOutcome::Failure(ErrorKind::ConnectionError),
    ];
    let report = aggregate(&outcomes);
    assert_eq!(report.success_count, 3);
    assert_eq!(report.failure_count, 1);
    assert_eq!(report.fee_filter, Some(FieldStats { min: 100, max: 200, avg: 150 }));
    assert_eq!(report.mempool_count, Some(FieldStats { min: 40, max: 60, avg: 50 }));
}
