use vault_pipeline::dispatch::{Directive, DispatchController};
use vault_pipeline::stream::{
    ClientState, CloseReason, OutboundRequest, SubscriptionClient, SubscriptionFilter, UpdateFrame,
};

fn block_filter() -> SubscriptionFilter {
    SubscriptionFilter {
        include_blocks: true,
        include_transactions: true,
        include_accounts: true,
        include_entries: false,
    }
}

fn subscribed_client() -> SubscriptionClient {
    let mut client = SubscriptionClient::new(block_filter());
    client.start_connect();
    let req = client.subscribe();
    assert_eq!(req, OutboundRequest::Subscribe(block_filter()));
    assert_eq!(client.state, ClientState::Subscribed);
    client
}

#[test]
fn scenario_ping_is_acknowledged_with_same_id() {
    let mut client = subscribed_client();
    let mut controller = DispatchController::new();
    let out = client.handle_frame(&Some(UpdateFrame::Ping { id: 7 }));
    // exactly one acknowledgement, carrying id 7, before anything else
    assert_eq!(out.reply, Some(7));
    assert!(!out.dispatch);
    assert_eq!(out.closed, None);
    assert_eq!(client.state, ClientState::Subscribed);
    let directive = controller.step(&out);
    assert_eq!(directive, Directive::Reply { id: 7 });
    assert_eq!(controller.submissions_started, 0);
}

#[test]
fn scenario_block_triggers_exactly_one_submission() {
    let mut client = subscribed_client();
    let mut controller = DispatchController::new();
    let out = client.handle_frame(&Some(UpdateFrame::Block { payload: vec![1, 2] }));
    assert!(out.dispatch);
    assert_eq!(out.reply, None);
    let directive = controller.step(&out);
    assert_eq!(directive, Directive::Dispatch);
    assert_eq!(controller.submissions_started, 1);
    assert_eq!(controller.blocks_seen, 1);
    // a second block frame: exactly one more submission
    let out2 = client.handle_frame(&Some(UpdateFrame::Block { payload: vec![] }));
    let directive2 = controller.step(&out2);
    assert_eq!(directive2, Directive::Dispatch);
    assert_eq!(controller.submissions_started, 2);
}

#[test]
fn pong_frames_ask_for_nothing() {
    let mut client = subscribed_client();
    let out = client.handle_frame(&Some(UpdateFrame::Pong { id: 3 }));
    assert_eq!(out.reply, None);
    assert!(!out.dispatch);
    assert_eq!(out.closed, None);
    assert_eq!(client.state, ClientState::Subscribed);
}

#[test]
fn scenario_terminal_closes_and_outstanding_work_is_still_reported() {
    let mut client = subscribed_client();
    let mut controller = DispatchController::new();
    // one block dispatched, its confirmation still outstanding
    let out = client.handle_frame(&Some(UpdateFrame::Block { payload: vec![] }));
    assert_eq!(controller.step(&out), Directive::Dispatch);
    assert_eq!(controller.outstanding, 1);
    // the stream ends
    let out = client.handle_frame(&Some(UpdateFrame::Terminal));
    assert_eq!(out.closed, Some(CloseReason::TerminalFrame));
    assert_eq!(client.state, ClientState::Closed(CloseReason::TerminalFrame));
    assert!(client.is_closed());
    assert_eq!(controller.step(&out), Directive::Stop);
    assert!(!controller.running);
    // no further submissions start, whatever arrives
    let late = vault_pipeline::stream::FrameOutcome {
        reply: None,
        dispatch: true,
        closed: None,
    };
    assert_eq!(controller.step(&late), Directive::Stop);
    assert_eq!(controller.submissions_started, 1);
    // the outstanding submission is still awaited and reported
    assert_eq!(controller.outstanding, 1);
    assert!(!controller.may_exit());
    controller.submission_reported();
    assert!(controller.may_exit());
}

#[test]
fn stream_error_closes_subscription() {
    let mut client = subscribed_client();
    let out = client.handle_frame(&Some(UpdateFrame::StreamError {
        cause: "connection reset".to_string(),
    }));
    assert_eq!(out.closed, Some(CloseReason::TransportFailure));
    assert_eq!(
        client.state,
        ClientState::Closed(CloseReason::TransportFailure)
    );
}

#[test]
fn empty_frame_is_a_protocol_violation() {
    let mut client = subscribed_client();
    let out = client.handle_frame(&None);
    assert_eq!(out.closed, Some(CloseReason::ProtocolViolation));
    assert_eq!(
        client.state,
        ClientState::Closed(CloseReason::ProtocolViolation)
    );
}

#[test]
fn connect_failure_is_fatal() {
    let mut client = SubscriptionClient::new(block_filter());
    client.start_connect();
    client.connect_failed();
    assert_eq!(client.state, ClientState::Closed(CloseReason::ConnectFailed));
}

#[test]
fn amending_filters_replaces_the_active_set() {
    let mut client = subscribed_client();
    let narrower = SubscriptionFilter {
        include_blocks: true,
        include_transactions: false,
        include_accounts: false,
        include_entries: false,
    };
    let req = client.amend_filter(narrower);
    assert_eq!(req, OutboundRequest::Subscribe(narrower));
    assert_eq!(client.filter, narrower);
    assert_eq!(client.state, ClientState::Subscribed);
}

#[test]
fn shutdown_stops_frame_pulling_without_dropping_outstanding() {
    let mut client = subscribed_client();
    let mut controller = DispatchController::new();
    let out = client.handle_frame(&Some(UpdateFrame::Block { payload: vec![] }));
    controller.step(&out);
    client.shutdown();
    controller.request_shutdown();
    assert_eq!(client.state, ClientState::Closed(CloseReason::Shutdown));
    assert!(!controller.running);
    assert_eq!(controller.outstanding, 1);
    controller.submission_reported();
    assert!(controller.may_exit());
}
