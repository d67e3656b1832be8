use bitcoin::block::{Header, Version};
use bitcoin::pow::CompactTarget;
use bitcoin::{BlockHash, TxMerkleNode};
use header_sync::backfill::{Backfill, BackfillError};
use header_sync::chain::{ChainError, HeaderChain};
use header_sync::period::{round_down_to_difficulty_adjustment, DIFFICULTY_PERIOD};
use header_sync::retry::{Retry, RetryStep};
use header_sync::sync::{begin_cycle, start_cycle};

/// A header the fake remote side serves for `height`: its time and nonce
/// carry the height, so a test can tell where a stored header came from.
fn header_at(height: u32) -> Header {
    Header {
        version: Version::ONE,
        prev_blockhash: "0".repeat(64).parse::<BlockHash>().unwrap(),
        merkle_root: "0".repeat(64).parse::<TxMerkleNode>().unwrap(),
        time: height,
        bits: CompactTarget::from_consensus(0x1d00_ffff - (height / 2016)),
        nonce: height,
    }
}

struct CycleReport {
    fetches: usize,
    max_in_flight: usize,
}

/// Runs one cycle against a fake remote side. `newest_first` completes the
/// most recently requested fetch first; `fail_height` makes the fetch at that
/// height fail for good, which ends the cycle.
fn run_cycle(
    chain: &mut HeaderChain<Header>,
    tip: u32,
    cap: usize,
    newest_first: bool,
    fail_height: Option<u32>,
) -> CycleReport {
    let mut plan = begin_cycle(chain, tip, cap);
    let mut outstanding: Vec<(u32, u32)> = Vec::new();
    let mut report = CycleReport { fetches: 0, max_in_flight: 0 };
    loop {
        while let Some(request) = plan.next_request() {
            outstanding.push(request);
            report.fetches += 1;
        }
        assert_eq!(outstanding.len(), plan.in_flight());
        report.max_in_flight = report.max_in_flight.max(outstanding.len());
        if outstanding.is_empty() {
            break;
        }
        let (index, height) =
            if newest_first { outstanding.pop().unwrap() } else { outstanding.remove(0) };
        if Some(height) == fail_height {
            break;
        }
        assert_eq!(plan.complete(index, header_at(height)), Ok(()));
        plan.deliver_ready(chain);
    }
    report
}

fn stored_heights(chain: &HeaderChain<Header>) -> Vec<u32> {
    chain.headers().iter().map(|h| h.time).collect()
}

#[test]
fn round_down_to_period_boundaries() {
    assert_eq!(round_down_to_difficulty_adjustment(0), 0);
    assert_eq!(round_down_to_difficulty_adjustment(2015), 0);
    assert_eq!(round_down_to_difficulty_adjustment(2016), 2016);
    assert_eq!(round_down_to_difficulty_adjustment(4033), 4032);
    assert_eq!(round_down_to_difficulty_adjustment(u32::MAX), 4_294_967_040);
    assert_eq!(DIFFICULTY_PERIOD, 2016);
}

#[test]
fn empty_chain_synced_to_two_periods() {
    let mut chain: HeaderChain<Header> = HeaderChain::default();
    assert_eq!(chain.tip_height(), 0);
    assert_eq!(chain.len(), 0);
    run_cycle(&mut chain, 4032, 10, false, None);
    assert_eq!(chain.tip_height(), 4032);
    assert_eq!(chain.len(), 2);
    assert_eq!(stored_heights(&chain), vec![0, 2016]);
    let difficulties: Vec<f64> = chain.headers().iter().map(|h| h.difficulty_float()).collect();
    assert_eq!(
        difficulties,
        vec![header_at(0).difficulty_float(), header_at(2016).difficulty_float()]
    );
}

#[test]
fn tip_below_first_full_period_keeps_chain_empty() {
    let mut chain: HeaderChain<Header> = HeaderChain::new();
    let report = run_cycle(&mut chain, 2015, 10, false, None);
    assert_eq!(report.fetches, 0);
    assert_eq!(chain.len(), 0);
    assert_eq!(chain.tip_height(), 2015);
    let difficulties: Vec<f64> = chain.headers().iter().map(|h| h.difficulty_float()).collect();
    assert!(difficulties.is_empty());
}

#[test]
fn each_header_sits_at_its_period_height() {
    let mut chain: HeaderChain<Header> = HeaderChain::new();
    run_cycle(&mut chain, 25 * 2016 + 7, 3, false, None);
    assert_eq!(chain.len(), 25);
    for (i, h) in chain.headers().iter().enumerate() {
        assert_eq!(h.time as usize, i * 2016);
    }
}

#[test]
fn failed_fetch_leaves_contiguous_prefix_only() {
    let mut chain: HeaderChain<Header> = HeaderChain::new();
    // Periods 0..8 are requested four at a time and come back oldest first;
    // the one at period 5 fails.
    run_cycle(&mut chain, 8 * 2016, 4, false, Some(5 * 2016));
    assert_eq!(stored_heights(&chain), vec![0, 2016, 2 * 2016, 3 * 2016, 4 * 2016]);
    // The next cycle picks up where the chain stops.
    let report = run_cycle(&mut chain, 8 * 2016, 4, true, None);
    assert_eq!(report.fetches, 3);
    assert_eq!(stored_heights(&chain), (0..8).map(|k| k * 2016).collect::<Vec<u32>>());
}

#[test]
fn failure_before_any_hole_is_filled_stores_nothing() {
    let mut chain: HeaderChain<Header> = HeaderChain::new();
    // Newest first: periods 3 and 4 come back, then period 5 fails while
    // period 0 is still outstanding.
    run_cycle(&mut chain, 8 * 2016, 4, true, Some(5 * 2016));
    assert_eq!(chain.len(), 0);
    assert_eq!(chain.tip_height(), 8 * 2016);
}

#[test]
fn second_cycle_at_same_tip_fetches_nothing() {
    let mut chain: HeaderChain<Header> = HeaderChain::new();
    let first = run_cycle(&mut chain, 10 * 2016 + 100, 10, false, None);
    assert_eq!(first.fetches, 10);
    let second = run_cycle(&mut chain, 10 * 2016 + 100, 10, false, None);
    assert_eq!(second.fetches, 0);
    assert_eq!(chain.len(), 10);
}

#[test]
fn outstanding_fetches_never_exceed_cap() {
    let mut chain: HeaderChain<Header> = HeaderChain::new();
    let report = run_cycle(&mut chain, 200 * 2016, 10, false, None);
    assert_eq!(report.fetches, 200);
    assert_eq!(report.max_in_flight, 10);
    assert_eq!(chain.len(), 200);
}

#[test]
fn out_of_order_completions_are_appended_in_order() {
    let mut chain: HeaderChain<Header> = HeaderChain::new();
    run_cycle(&mut chain, 30 * 2016, 10, true, None);
    assert_eq!(stored_heights(&chain), (0..30).map(|k| k * 2016).collect::<Vec<u32>>());
}

#[test]
fn results_wait_for_the_hole_before_them() {
    let mut chain: HeaderChain<u32> = HeaderChain::new();
    let mut plan = begin_cycle(&mut chain, 3 * 2016, 3);
    assert_eq!(plan.next_request(), Some((0, 0)));
    assert_eq!(plan.next_request(), Some((1, 2016)));
    assert_eq!(plan.next_request(), Some((2, 4032)));
    assert_eq!(plan.next_request(), None);
    assert_eq!(plan.complete(2, 4032), Ok(()));
    assert_eq!(plan.complete(1, 2016), Ok(()));
    assert_eq!(plan.deliver_ready(&mut chain), 0);
    assert_eq!(chain.len(), 0);
    assert_eq!(plan.complete(0, 0), Ok(()));
    assert_eq!(plan.deliver_ready(&mut chain), 3);
    assert_eq!(chain.headers(), &vec![0, 2016, 4032]);
    assert!(plan.is_done());
}

#[test]
fn deliver_next_appends_one_header_at_a_time() {
    let mut chain: HeaderChain<u32> = HeaderChain::new();
    let mut plan = begin_cycle(&mut chain, 2 * 2016, 2);
    assert_eq!(plan.next_request(), Some((0, 0)));
    assert_eq!(plan.next_request(), Some((1, 2016)));
    assert!(!plan.deliver_next(&mut chain));
    assert_eq!(plan.complete(1, 2016), Ok(()));
    assert!(!plan.deliver_next(&mut chain));
    assert_eq!(plan.complete(0, 0), Ok(()));
    assert!(plan.deliver_next(&mut chain));
    assert_eq!(chain.headers(), &vec![0]);
    assert_eq!(plan.next_release(), 1);
    assert!(plan.deliver_next(&mut chain));
    assert_eq!(chain.headers(), &vec![0, 2016]);
    assert!(!plan.deliver_next(&mut chain));
    assert_eq!(plan.end(), 2);
    assert!(plan.is_done());
}

#[test]
fn unknown_or_repeated_completions_are_refused() {
    let mut chain: HeaderChain<u32> = HeaderChain::new();
    let mut plan = begin_cycle(&mut chain, 5 * 2016, 1);
    assert_eq!(plan.complete(0, 0), Err(BackfillError::NotRequested));
    assert_eq!(plan.next_request(), Some((0, 0)));
    assert_eq!(plan.next_request(), None);
    assert_eq!(plan.complete(0, 0), Ok(()));
    assert_eq!(plan.complete(0, 0), Err(BackfillError::AlreadyCompleted));
    assert_eq!(plan.complete(3, 3 * 2016), Err(BackfillError::NotRequested));
    assert_eq!(plan.release(), Some((0, 0)));
    assert_eq!(plan.release(), None);
    assert_eq!(plan.complete(0, 0), Err(BackfillError::NotRequested));
}

#[test]
fn push_header_checks_height_and_tip() {
    let mut chain: HeaderChain<u32> = HeaderChain::new();
    assert_eq!(chain.push_header(0, 1), Err(ChainError::BeyondTip));
    assert!(chain.update_tip(4100));
    assert_eq!(chain.push_header(2016, 1), Err(ChainError::OutOfOrder));
    assert_eq!(chain.push_header(0, 1), Ok(()));
    assert_eq!(chain.next_height(), 2016);
    assert_eq!(chain.push_header(2016, 2), Ok(()));
    assert_eq!(chain.push_header(4032, 3), Err(ChainError::BeyondTip));
    assert_eq!(chain.headers(), &vec![1, 2]);
}

#[test]
fn lower_tip_report_is_ignored() {
    let mut chain: HeaderChain<u32> = HeaderChain::new();
    assert!(chain.update_tip(5000));
    assert!(!chain.update_tip(4000));
    assert_eq!(chain.tip_height(), 5000);
    assert_eq!(chain.first_missing(), 0);
    assert_eq!(chain.end_of_periods(), 2);
}

#[test]
fn always_failing_tip_fetch_exhausts_and_leaves_chain_alone() {
    let mut chain: HeaderChain<u32> = HeaderChain::new();
    run_tip_cycle_that_fails(&mut chain);
    assert_eq!(chain.tip_height(), 0);
    assert_eq!(chain.len(), 0);
    // The next cycle still runs.
    let plan = begin_cycle(&mut chain, 2016, 10);
    assert!(!plan.is_done());
}

fn run_tip_cycle_that_fails(chain: &mut HeaderChain<u32>) {
    let mut retry = Retry::new(3);
    let mut attempts = 0;
    let mut delays = Vec::new();
    let outcome = loop {
        attempts += 1;
        let fetched: Result<u32, &str> = Err("unreachable");
        match retry.on_outcome(fetched) {
            RetryStep::Done(tip) => break Some(tip),
            RetryStep::Wait(ms) => delays.push(ms),
            RetryStep::Exhausted(e) => {
                assert_eq!(e, "unreachable");
                break None;
            }
        }
    };
    assert_eq!(outcome, None);
    assert_eq!(attempts, 4);
    assert_eq!(retry.retries(), 3);
    assert_eq!(delays, vec![1000, 2000, 4000]);
    let started = start_cycle::<u32, ()>(chain, outcome.ok_or(()), 10);
    assert!(started.is_err());
}

#[test]
fn fetched_tip_starts_a_cycle() {
    let mut chain: HeaderChain<u32> = HeaderChain::new();
    let mut plan = start_cycle::<u32, &str>(&mut chain, Ok(3 * 2016 + 5), 2).unwrap();
    assert_eq!(chain.tip_height(), 3 * 2016 + 5);
    assert_eq!(plan.end(), 3);
    assert_eq!(plan.next_request(), Some((0, 0)));
    let aborted = start_cycle::<u32, &str>(&mut chain, Err("down"), 2);
    assert_eq!(aborted.err(), Some("down"));
    assert_eq!(chain.tip_height(), 3 * 2016 + 5);
}

#[test]
fn retry_success_is_passed_through() {
    let mut retry = Retry::new(2);
    assert!(matches!(retry.on_outcome::<u32, ()>(Err(())), RetryStep::Wait(1000)));
    assert!(matches!(retry.on_outcome::<u32, ()>(Ok(4032)), RetryStep::Done(4032)));
    assert_eq!(retry.retries(), 1);
}

#[test]
fn retry_with_no_budget_gives_up_at_once() {
    let mut retry = Retry::new(0);
    assert!(matches!(retry.on_outcome::<u32, u8>(Err(7)), RetryStep::Exhausted(7)));
    assert_eq!(retry.retries(), 0);
}
