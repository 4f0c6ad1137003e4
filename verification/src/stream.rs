//! The streaming-subscription protocol state machine: connect, subscribe
//! with filters, consume inbound update frames, answer keepalive pings, and
//! detect stream termination.

use vstd::prelude::*;

verus! {

/// Which ledger entities the subscription asks updates for.
#[derive(Clone, Copy, Debug, PartialEq, Eq, Structural)]
pub struct SubscriptionFilter {
    pub include_blocks: bool,
    pub include_transactions: bool,
    pub include_accounts: bool,
    pub include_entries: bool,
}

/// One inbound frame from the subscription stream.
#[derive(Debug, Clone)]
pub enum UpdateFrame {
    /// A new block, with its opaque payload.
    Block { payload: Vec<u8> },
    /// A liveness probe that must be answered with a matching acknowledgement.
    Ping { id: i32 },
    /// The remote end's acknowledgement of a probe this side sent.
    Pong { id: i32 },
    /// The stream ended without further data.
    Terminal,
    /// The transport failed while reading.
    StreamError { cause: String },
}

/// Why the subscription closed.
#[derive(Clone, Copy, Debug, PartialEq, Eq, Structural)]
pub enum CloseReason {
    /// The stream announced its end.
    TerminalFrame,
    /// The transport failed.
    TransportFailure,
    /// Connecting failed; the pipeline cannot start.
    ConnectFailed,
    /// A frame carried neither data nor a liveness signal.
    ProtocolViolation,
    /// This side asked to stop.
    Shutdown,
}

/// The subscription's lifecycle state.
#[derive(Clone, Copy, Debug, PartialEq, Eq, Structural)]
pub enum ClientState {
    Disconnected,
    Connecting,
    Subscribed,
    Closed(CloseReason),
}

/// One outbound message on the subscription channel.
#[derive(Clone, Copy, Debug, PartialEq, Eq, Structural)]
pub enum OutboundRequest {
    /// A subscribe request carrying the active filter set. Sending another
    /// one on the same channel replaces the active filters.
    Subscribe(SubscriptionFilter),
    /// The acknowledgement of a liveness probe, carrying the probe's id.
    PongReply { id: i32 },
}

/// What handling one inbound frame asks the surrounding loop to do.
#[derive(Clone, Copy, Debug, PartialEq, Eq, Structural)]
pub struct FrameOutcome {
    /// A probe acknowledgement to send before any further frame is handled.
    pub reply: Option<i32>,
    /// Whether the frame is a block that triggers the transfer workflow.
    pub dispatch: bool,
    /// Set when the frame ended the subscription.
    pub closed: Option<CloseReason>,
}

/// What handling a frame does, as a function of the frame alone (the client
/// must be subscribed): a ping asks for exactly one acknowledgement with the
/// same id; a block asks for exactly one dispatch; a terminal frame, a
/// transport error or an empty frame closes the subscription; a pong asks
/// for nothing.
pub open spec fn spec_handle_frame(frame: Option<UpdateFrame>) -> FrameOutcome {
    match frame {
        Some(UpdateFrame::Block { payload }) => FrameOutcome {
            reply: None,
            dispatch: true,
            closed: None,
        },
        Some(UpdateFrame::Ping { id }) => FrameOutcome {
            reply: Some(id),
            dispatch: false,
            closed: None,
        },
        Some(UpdateFrame::Pong { id }) => FrameOutcome {
            reply: None,
            dispatch: false,
            closed: None,
        },
        Some(UpdateFrame::Terminal) => FrameOutcome {
            reply: None,
            dispatch: false,
            closed: Some(CloseReason::TerminalFrame),
        },
        Some(UpdateFrame::StreamError { cause }) => FrameOutcome {
            reply: None,
            dispatch: false,
            closed: Some(CloseReason::TransportFailure),
        },
        None => FrameOutcome {
            reply: None,
            dispatch: false,
            closed: Some(CloseReason::ProtocolViolation),
        },
    }
}

/// The state a frame leaves a subscribed client in.
pub open spec fn spec_state_after_frame(frame: Option<UpdateFrame>) -> ClientState {
    match spec_handle_frame(frame).closed {
        Some(reason) => ClientState::Closed(reason),
        None => ClientState::Subscribed,
    }
}

/// Manages the lifecycle of one streaming subscription.
#[derive(Clone, Copy, Debug, PartialEq, Eq, Structural)]
pub struct SubscriptionClient {
    pub state: ClientState,
    pub filter: SubscriptionFilter,
}

impl SubscriptionClient {
    /// A new client, not yet connected, remembering the filters it will
    /// subscribe with.
    pub fn new(filter: SubscriptionFilter) -> (r: SubscriptionClient)
        ensures
            r.state == ClientState::Disconnected,
            r.filter == filter,
    {
        SubscriptionClient { state: ClientState::Disconnected, filter }
    }

    /// Begins establishing the duplex channel.
    pub fn start_connect(&mut self)
        requires
            old(self).state == ClientState::Disconnected,
        ensures
            final(self).state == ClientState::Connecting,
            final(self).filter == old(self).filter,
    {
        self.state = ClientState::Connecting;
    }

    /// Records that the channel could not be established. Fatal: the
    /// pipeline never retries a failed connect on its own.
    pub fn connect_failed(&mut self)
        requires
            old(self).state == ClientState::Connecting,
        ensures
            final(self).state == ClientState::Closed(CloseReason::ConnectFailed),
            final(self).filter == old(self).filter,
    {
        self.state = ClientState::Closed(CloseReason::ConnectFailed);
    }

    /// Issues the subscribe request carrying the active filters over the
    /// established channel.
    pub fn subscribe(&mut self) -> (req: OutboundRequest)
        requires
            old(self).state == ClientState::Connecting,
        ensures
            final(self).state == ClientState::Subscribed,
            final(self).filter == old(self).filter,
            req == OutboundRequest::Subscribe(old(self).filter),
    {
        self.state = ClientState::Subscribed;
        OutboundRequest::Subscribe(self.filter)
    }

    /// Replaces the active filter set by sending a further subscribe request
    /// on the same channel; this updates the subscription rather than
    /// opening a second one.
    pub fn amend_filter(&mut self, filter: SubscriptionFilter) -> (req: OutboundRequest)
        requires
            old(self).state == ClientState::Subscribed,
        ensures
            final(self).state == ClientState::Subscribed,
            final(self).filter == filter,
            req == OutboundRequest::Subscribe(filter),
    {
        self.filter = filter;
        OutboundRequest::Subscribe(filter)
    }

    /// Handles one inbound frame. A liveness probe is answered with exactly
    /// one acknowledgement carrying the same id; a block triggers exactly
    /// one dispatch; a terminal frame, transport failure or empty frame
    /// closes the subscription, after which no further frames are consumed.
    /// An empty frame (`None`) is a protocol violation: the client does not
    /// know what it means and refuses to ignore it silently.
    pub fn handle_frame(&mut self, frame: &Option<UpdateFrame>) -> (out: FrameOutcome)
        requires
            old(self).state == ClientState::Subscribed,
        ensures
            out == spec_handle_frame(*frame),
            final(self).state == spec_state_after_frame(*frame),
            final(self).filter == old(self).filter,
    {
        match frame {
            Some(UpdateFrame::Block { payload: _ }) => FrameOutcome {
                reply: None,
                dispatch: true,
                closed: None,
            },
            Some(UpdateFrame::Ping { id }) => FrameOutcome {
                reply: Some(*id),
                dispatch: false,
                closed: None,
            },
            Some(UpdateFrame::Pong { id: _ }) => FrameOutcome {
                reply: None,
                dispatch: false,
                closed: None,
            },
            Some(UpdateFrame::Terminal) => {
                self.state = ClientState::Closed(CloseReason::TerminalFrame);
                FrameOutcome { reply: None, dispatch: false, closed: Some(
                    CloseReason::TerminalFrame,
                ) }
            },
            Some(UpdateFrame::StreamError { cause: _ }) => {
                self.state = ClientState::Closed(CloseReason::TransportFailure);
                FrameOutcome { reply: None, dispatch: false, closed: Some(
                    CloseReason::TransportFailure,
                ) }
            },
            None => {
                self.state = ClientState::Closed(CloseReason::ProtocolViolation);
                FrameOutcome { reply: None, dispatch: false, closed: Some(
                    CloseReason::ProtocolViolation,
                ) }
            },
        }
    }

    /// Cooperative shutdown: the client closes its channel and yields no
    /// further frames.
    pub fn shutdown(&mut self)
        ensures
            final(self).state == ClientState::Closed(CloseReason::Shutdown),
            final(self).filter == old(self).filter,
    {
        self.state = ClientState::Closed(CloseReason::Shutdown);
    }

    /// Whether the subscription is over. A closed client yields no further
    /// frames and never returns to any other state.
    pub fn is_closed(&self) -> (r: bool)
        ensures
            r == (self.state matches ClientState::Closed(_)),
    {
        match self.state {
            ClientState::Closed(_) => true,
            _ => false,
        }
    }
}

/// Answering a probe echoes the probe's own id: for every ping id, the
/// acknowledgement the frame handler asks for carries exactly that id, and
/// nothing else is asked for.
pub proof fn lemma_ping_acknowledged_with_same_id(id: i32)
    ensures
        spec_handle_frame(Some(UpdateFrame::Ping { id })) == (FrameOutcome {
            reply: Some(id),
            dispatch: false,
            closed: None,
        }),
{
}

/// A terminal frame closes the subscription: the client transitions to
/// `Closed` and asks for no reply and no dispatch.
pub proof fn lemma_terminal_closes(frame: Option<UpdateFrame>)
    requires
        frame == Some(UpdateFrame::Terminal),
    ensures
        spec_state_after_frame(frame) == ClientState::Closed(CloseReason::TerminalFrame),
        !spec_handle_frame(frame).dispatch,
        spec_handle_frame(frame).reply is None,
{
}

} // verus!
