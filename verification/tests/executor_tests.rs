use vault_pipeline::engine::{DispatchResult, SubmitError};
use vault_pipeline::executor::{
    collect_in_completion_order, collect_in_order, ExecState, SchedStep,
};

fn ok(tag: u8) -> DispatchResult {
    DispatchResult::Success { txid: vec![tag; 4] }
}

fn failed() -> DispatchResult {
    DispatchResult::Failure {
        cause: SubmitError::TransportError,
    }
}

fn txid_of(r: &DispatchResult) -> Option<&Vec<u8>> {
    match r {
        DispatchResult::Success { txid } => Some(txid),
        DispatchResult::Failure { .. } => None,
    }
}

#[test]
fn scheduler_honors_the_concurrency_limit() {
    let mut s = ExecState::new(5, 2);
    assert_eq!(s.next(), SchedStep::Start { item: 0 });
    s.on_started();
    assert_eq!(s.next(), SchedStep::Start { item: 1 });
    s.on_started();
    // two in flight: the limit is reached
    assert_eq!(s.next(), SchedStep::Await);
    s.on_completed();
    assert_eq!(s.next(), SchedStep::Start { item: 2 });
}

#[test]
fn scheduler_runs_every_item_exactly_once() {
    let mut s = ExecState::new(4, 2);
    let mut started: Vec<usize> = Vec::new();
    loop {
        match s.next() {
            SchedStep::Start { item } => {
                started.push(item);
                s.on_started();
            }
            SchedStep::Await => {
                s.on_completed();
            }
            SchedStep::Finished => break,
        }
        assert!(s.started - s.completed <= 2);
    }
    assert_eq!(started, vec![0, 1, 2, 3]);
}

#[test]
fn limit_equal_to_batch_size_is_unbounded_concurrency() {
    let mut s = ExecState::new(3, 3);
    for item in 0..3 {
        assert_eq!(s.next(), SchedStep::Start { item });
        s.on_started();
    }
    assert_eq!(s.next(), SchedStep::Await);
}

#[test]
fn in_order_collection_reports_every_item_despite_failures() {
    // completions arrive out of order, with one failure in the mix
    let completions = vec![(2usize, ok(2)), (0usize, failed()), (1usize, ok(1))];
    let out = collect_in_order(3, &completions).unwrap();
    assert_eq!(out.len(), 3);
    assert!(txid_of(&out[0]).is_none());
    assert_eq!(txid_of(&out[1]).unwrap(), &vec![1u8; 4]);
    assert_eq!(txid_of(&out[2]).unwrap(), &vec![2u8; 4]);
}

#[test]
fn in_order_collection_of_empty_batch_is_empty() {
    let completions: Vec<(usize, DispatchResult)> = Vec::new();
    let out = collect_in_order(0, &completions).unwrap();
    assert_eq!(out.len(), 0);
}

#[test]
fn in_order_collection_misses_nothing_silently() {
    let completions = vec![(0usize, ok(0)), (2usize, ok(2))];
    assert!(collect_in_order(3, &completions).is_none());
}

#[test]
fn completion_order_collection_keeps_arrival_order_and_length() {
    let completions = vec![(1usize, failed()), (0usize, ok(0)), (2usize, failed())];
    let out = collect_in_completion_order(&completions);
    assert_eq!(out.len(), 3);
    assert!(txid_of(&out[0]).is_none());
    assert_eq!(txid_of(&out[1]).unwrap(), &vec![0u8; 4]);
    assert!(txid_of(&out[2]).is_none());
}
