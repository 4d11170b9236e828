//! The connection manager, the request/response correlator and the
//! driver facade, as state machines over plain values. Deciding what to
//! do next is verified here; performing the socket work those decisions
//! name (dialing, sending, reading, sleeping) is the embedding program's
//! part, which feeds the outcomes back in as events.

use vstd::prelude::*;
use std::collections::VecDeque;
use crate::packets::{
    Command, CommandResponse, Communication, CommunicationResponse, Instruction,
    InstructionResponse, FrcConnectResponse,
};
use crate::commands::FrcInitialize;
use crate::instructions::FrcLinearRelative;
use crate::num::Dec;
use crate::{Configuration, FrcError, PacketEnum, Position, SpeedType, TermType};

verus! {

/// What the driver needs to know to reach a controller: its address, the
/// well-known initialization port, the diagnostic-ring capacity, and the
/// connect retry policy.
#[derive(Debug, Clone)]
pub struct FanucDriverConfig {
    pub addr: String,
    pub port: u32,
    pub max_messages: usize,
    pub retries: u32,
    pub retry_delay_ms: u32,
}

impl Default for FanucDriverConfig {
    /// The loopback address, the controller's well-known initialization
    /// port, a ring of 30 messages, and 3 connection attempts 2 seconds
    /// apart.
    fn default() -> (r: FanucDriverConfig)
        ensures
            r.addr@ == "127.0.0.1"@,
            r.port == 16001,
            r.max_messages == 30,
            r.retries == 3,
            r.retry_delay_ms == 2000,
    {
        FanucDriverConfig {
            addr: "127.0.0.1".to_owned(),
            port: 16001,
            max_messages: 30,
            retries: 3,
            retry_delay_ms: 2000,
        }
    }
}

/// Where the two-phase handshake stands.
#[derive(Debug, Clone, Copy, PartialEq, Eq, Structural)]
pub enum ConnState {
    /// No session; nothing in flight.
    Disconnected,
    /// Dialing the initialization port; `attempt` counts from 1.
    ConnectingInit { attempt: u32 },
    /// The connect request is out; the redirect response is awaited.
    AwaitingRedirect,
    /// Dialing the negotiated session port.
    ConnectingSession { port: u32, attempt: u32 },
    /// The session socket is up; traffic may flow.
    Connected { port: u32 },
    /// Torn down on purpose; only a fresh start leaves this state.
    Closed,
}

/// What the embedding program reports to the manager.
#[derive(Debug)]
pub enum ConnEvent {
    /// A fresh connect was requested.
    Start,
    /// The last dial succeeded.
    DialOk,
    /// The last dial failed.
    DialFailed,
    /// One complete frame arrived.
    Frame(Vec<u8>),
    /// The peer closed the stream.
    Eof,
}

/// Why a connection attempt ended.
#[derive(Debug, Clone, Copy, PartialEq, Eq, Structural)]
pub enum ConnError {
    /// Every allowed dial failed.
    RetriesExhausted,
    /// The redirect response carried no usable session port.
    InvalidHandshake,
    /// The peer closed the stream.
    Disconnected,
}

impl ConnError {
    /// The driver-level error this failure surfaces as.
    pub fn to_frc_error(&self) -> (r: FrcError)
        ensures
            (match self {
                ConnError::RetriesExhausted => r == FrcError::Disconnected(),
                ConnError::Disconnected => r == FrcError::Disconnected(),
                ConnError::InvalidHandshake => r matches FrcError::InvalidHandshake(_),
            }),
    {
        match self {
            ConnError::RetriesExhausted => FrcError::Disconnected(),
            ConnError::Disconnected => FrcError::Disconnected(),
            ConnError::InvalidHandshake => FrcError::InvalidHandshake(
                "the connect response named no session port".to_owned(),
            ),
        }
    }
}

/// What the embedding program must do next.
#[derive(Debug, Clone, Copy, PartialEq, Eq, Structural)]
pub enum ConnAction {
    /// Open a TCP connection to the configured address at this port.
    Dial { port: u32 },
    /// Wait the delay, then dial this port again.
    RetryDial { port: u32, delay_ms: u32 },
    /// Send the encoded connect request and await one frame.
    SendConnect,
    /// The session is up; hand the channels to the caller.
    Ready,
    /// Give up with this failure.
    Fail(ConnError),
    /// Nothing to do.
    Idle,
}

/// The manager's transition function for every event except an incoming
/// frame, whose meaning depends on decoding.
pub open spec fn spec_conn_step(s: ConnState, cfg: FanucDriverConfig, ev: ConnEvent) -> (
    ConnState,
    ConnAction,
) {
    match (s, ev) {
        (ConnState::Disconnected, ConnEvent::Start) => if cfg.retries == 0 {
            (ConnState::Disconnected, ConnAction::Fail(ConnError::RetriesExhausted))
        } else {
            (ConnState::ConnectingInit { attempt: 1 }, ConnAction::Dial { port: cfg.port })
        },
        (ConnState::Closed, ConnEvent::Start) => if cfg.retries == 0 {
            (ConnState::Disconnected, ConnAction::Fail(ConnError::RetriesExhausted))
        } else {
            (ConnState::ConnectingInit { attempt: 1 }, ConnAction::Dial { port: cfg.port })
        },
        (ConnState::ConnectingInit { attempt }, ConnEvent::DialOk) => (
            ConnState::AwaitingRedirect,
            ConnAction::SendConnect,
        ),
        (ConnState::ConnectingInit { attempt }, ConnEvent::DialFailed) => if attempt
            < cfg.retries {
            (
                ConnState::ConnectingInit { attempt: (attempt + 1) as u32 },
                ConnAction::RetryDial { port: cfg.port, delay_ms: cfg.retry_delay_ms },
            )
        } else {
            (ConnState::Disconnected, ConnAction::Fail(ConnError::RetriesExhausted))
        },
        (ConnState::ConnectingSession { port, attempt }, ConnEvent::DialOk) => (
            ConnState::Connected { port },
            ConnAction::Ready,
        ),
        (ConnState::ConnectingSession { port, attempt }, ConnEvent::DialFailed) => if attempt
            < cfg.retries {
            (
                ConnState::ConnectingSession { port, attempt: (attempt + 1) as u32 },
                ConnAction::RetryDial { port, delay_ms: cfg.retry_delay_ms },
            )
        } else {
            (ConnState::Disconnected, ConnAction::Fail(ConnError::RetriesExhausted))
        },
        (ConnState::AwaitingRedirect, ConnEvent::Eof) => (
            ConnState::Disconnected,
            ConnAction::Fail(ConnError::Disconnected),
        ),
        (ConnState::Connected { port }, ConnEvent::Eof) => (
            ConnState::Disconnected,
            ConnAction::Fail(ConnError::Disconnected),
        ),
        _ => (s, ConnAction::Idle),
    }
}

/// Attempts are bounded: a count of zero allows no dial at all, the
/// dial counter only ever walks up to the configured retry count, where
/// the manager gives up, and a success before that bound asks for no
/// further dial.
pub proof fn lemma_retry_policy(cfg: FanucDriverConfig, attempt: u32)
    ensures
        cfg.retries == 0 ==> spec_conn_step(ConnState::Disconnected, cfg, ConnEvent::Start) == (
            ConnState::Disconnected,
            ConnAction::Fail(ConnError::RetriesExhausted),
        ),
        attempt < cfg.retries ==> spec_conn_step(
            ConnState::ConnectingInit { attempt },
            cfg,
            ConnEvent::DialFailed,
        ) == (
            ConnState::ConnectingInit { attempt: (attempt + 1) as u32 },
            ConnAction::RetryDial { port: cfg.port, delay_ms: cfg.retry_delay_ms },
        ),
        attempt >= cfg.retries ==> spec_conn_step(
            ConnState::ConnectingInit { attempt },
            cfg,
            ConnEvent::DialFailed,
        ) == (ConnState::Disconnected, ConnAction::Fail(ConnError::RetriesExhausted)),
        spec_conn_step(ConnState::ConnectingInit { attempt }, cfg, ConnEvent::DialOk) == (
            ConnState::AwaitingRedirect,
            ConnAction::SendConnect,
        ),
{
}

/// The state after `k` failed dials of the initialization port, counted
/// from a fresh start.
pub open spec fn state_after_failures(cfg: FanucDriverConfig, k: nat) -> ConnState
    decreases k,
{
    if k == 0 {
        ConnState::ConnectingInit { attempt: 1 }
    } else {
        spec_conn_step(state_after_failures(cfg, (k - 1) as nat), cfg, ConnEvent::DialFailed).0
    }
}

/// With a retry count of `n`, the first `n - 1` failures each ask for
/// another dial, and the `n`-th failure gives up: no further attempt is
/// ever asked for.
pub proof fn lemma_retry_gives_up(cfg: FanucDriverConfig, k: u32)
    requires
        1 <= cfg.retries,
        k < cfg.retries,
    ensures
        state_after_failures(cfg, k as nat) == (ConnState::ConnectingInit {
            attempt: (k + 1) as u32,
        }),
        k + 1 < cfg.retries ==> spec_conn_step(
            state_after_failures(cfg, k as nat),
            cfg,
            ConnEvent::DialFailed,
        ).1 == (ConnAction::RetryDial { port: cfg.port, delay_ms: cfg.retry_delay_ms }),
        k + 1 == cfg.retries ==> spec_conn_step(
            state_after_failures(cfg, k as nat),
            cfg,
            ConnEvent::DialFailed,
        ) == (ConnState::Disconnected, ConnAction::Fail(ConnError::RetriesExhausted)),
    decreases k,
{
    if k > 0 {
        lemma_retry_gives_up(cfg, (k - 1) as u32);
    }
}


/// The driver facade: configuration, the handshake state, and a bounded
/// ring of recent diagnostic messages.
#[derive(Debug)]
pub struct FanucDriver {
    pub config: FanucDriverConfig,
    pub messages: VecDeque<String>,
    pub conn: ConnState,
}

/// The ring after eviction: drop from the front while the ring is at or
/// over its capacity.
pub open spec fn evict(q: Seq<String>, cap: nat) -> Seq<String>
    decreases q.len(),
{
    if q.len() > 0 && q.len() >= cap {
        evict(q.drop_first(), cap)
    } else {
        q
    }
}

impl FanucDriver {
    pub fn new(config: FanucDriverConfig) -> (r: FanucDriver)
        ensures
            r.config == config,
            r.messages@ == Seq::<String>::empty(),
            r.conn == ConnState::Disconnected,
    {
        FanucDriver { config, messages: VecDeque::new(), conn: ConnState::Disconnected }
    }

    /// Appends one diagnostic message, evicting the oldest entries first
    /// so the ring never exceeds its configured capacity.
    pub fn log_message(&mut self, message: String)
        ensures
            final(self).messages@ == evict(old(self).messages@, old(self).config.max_messages as nat).push(
                message,
            ),
            final(self).config == old(self).config,
            final(self).conn == old(self).conn,
    {
        while self.messages.len() >= self.config.max_messages && self.messages.len() > 0
            invariant
                self.config == old(self).config,
                self.conn == old(self).conn,
                evict(self.messages@, self.config.max_messages as nat) == evict(
                    old(self).messages@,
                    old(self).config.max_messages as nat,
                ),
            decreases self.messages@.len(),
        {
            let ghost before = self.messages@;
            self.messages.pop_front();
            proof {
                assert(evict(before, self.config.max_messages as nat) == evict(
                    before.drop_first(),
                    self.config.max_messages as nat,
                ));
            }
        }
        proof {
            assert(evict(self.messages@, self.config.max_messages as nat) == self.messages@);
        }
        self.messages.push_back(message);
    }

    /// Tears the session state down; the embedding program drops the
    /// channel handles alongside.
    pub fn close_connection(&mut self)
        ensures
            final(self).conn == ConnState::Closed,
            final(self).config == old(self).config,
            final(self).messages == old(self).messages,
    {
        self.conn = ConnState::Closed;
    }

    /// One step of the two-phase handshake. Every event but a frame
    /// follows `spec_conn_step`; a frame, awaited after the connect
    /// request, redirects the manager to exactly the session port the
    /// response names, and anything else ends the handshake rather than
    /// letting it proceed without a port.
    pub fn conn_step(&mut self, ev: ConnEvent) -> (a: ConnAction)
        ensures
            final(self).config == old(self).config,
            final(self).messages == old(self).messages,
            (!(ev matches ConnEvent::Frame(_)) ==> (final(self).conn, a) == spec_conn_step(
                old(self).conn,
                old(self).config,
                ev,
            )),
            ((old(self).conn matches ConnState::AwaitingRedirect) ==> (match ev {
                ConnEvent::Frame(f) => {
                    &&& (forall|resp: FrcConnectResponse| #![auto]
                        f@ == CommunicationResponse::FrcConnect(resp).spec_wire() ==> final(self).conn == (ConnState::ConnectingSession {
                            port: resp.port_number,
                            attempt: 1,
                        }) && a == (ConnAction::Dial { port: resp.port_number }))
                    &&& (forall|q: CommunicationResponse| #![auto]
                        q.wf() && !(q matches CommunicationResponse::FrcConnect(_)) && f@
                            == q.spec_wire() ==> final(self).conn == ConnState::Disconnected && a
                            == ConnAction::Fail(ConnError::InvalidHandshake))
                    &&& (match crate::json::wire_obj(f@) {
                        Some(m) => (match crate::json::sget_str(
                            m,
                            crate::keys::k_tag_communication(),
                        ) {
                            Some(t) => if t == crate::keys::k_t_connect() {
                                (match FrcConnectResponse::sdecode(m) {
                                    Some(resp) => final(self).conn == (
                                    ConnState::ConnectingSession {
                                        port: resp.port_number,
                                        attempt: 1,
                                    }) && a == (ConnAction::Dial { port: resp.port_number }),
                                    None => final(self).conn == ConnState::Disconnected && a
                                        == ConnAction::Fail(ConnError::InvalidHandshake),
                                })
                            } else {
                                final(self).conn == ConnState::Disconnected && a
                                    == ConnAction::Fail(ConnError::InvalidHandshake)
                            },
                            None => final(self).conn == ConnState::Disconnected && a
                                == ConnAction::Fail(ConnError::InvalidHandshake),
                        }),
                        None => final(self).conn == ConnState::Disconnected && a
                            == ConnAction::Fail(ConnError::InvalidHandshake),
                    })
                },
                _ => true,
            })),
            (!(old(self).conn matches ConnState::AwaitingRedirect) && (ev matches ConnEvent::Frame(
                _,
            )) ==> final(self).conn == old(self).conn && a == ConnAction::Idle),
    {
        match ev {
            ConnEvent::Frame(f) => {
                if let ConnState::AwaitingRedirect = self.conn {
                    match CommunicationResponse::decode(f.as_slice()) {
                        Ok(CommunicationResponse::FrcConnect(resp)) => {
                            self.conn = ConnState::ConnectingSession {
                                port: resp.port_number,
                                attempt: 1,
                            };
                            proof {
                                assert forall|resp0: FrcConnectResponse| #![auto]
                                    f@ == CommunicationResponse::FrcConnect(
                                        resp0,
                                    ).spec_wire() implies resp == resp0 by {
                                    let p = CommunicationResponse::FrcConnect(resp0);
                                    assert(p.wf());
                                    assert(f@ == p.spec_wire());
                                }
                                assert forall|q: CommunicationResponse| #![auto]
                                    q.wf() && !(q matches CommunicationResponse::FrcConnect(_))
                                        && f@ == q.spec_wire() implies false by {
                                    assert(q.wf() && f@ == q.spec_wire());
                                }
                            }
                            ConnAction::Dial { port: resp.port_number }
                        },
                        _ => {
                            self.conn = ConnState::Disconnected;
                            proof {
                                assert forall|resp0: FrcConnectResponse| #![auto]
                                    f@ == CommunicationResponse::FrcConnect(
                                        resp0,
                                    ).spec_wire() implies false by {
                                    let p = CommunicationResponse::FrcConnect(resp0);
                                    assert(p.wf());
                                    assert(f@ == p.spec_wire());
                                }
                            }
                            ConnAction::Fail(ConnError::InvalidHandshake)
                        },
                    }
                } else {
                    ConnAction::Idle
                }
            },
            ConnEvent::Start => {
                match self.conn {
                    ConnState::Disconnected | ConnState::Closed => {
                        if self.config.retries == 0 {
                            // an attempt count of zero allows no dial at all
                            self.conn = ConnState::Disconnected;
                            ConnAction::Fail(ConnError::RetriesExhausted)
                        } else {
                            self.conn = ConnState::ConnectingInit { attempt: 1 };
                            ConnAction::Dial { port: self.config.port }
                        }
                    },
                    _ => ConnAction::Idle,
                }
            },
            ConnEvent::DialOk => {
                match self.conn {
                    ConnState::ConnectingInit { attempt } => {
                        self.conn = ConnState::AwaitingRedirect;
                        ConnAction::SendConnect
                    },
                    ConnState::ConnectingSession { port, attempt } => {
                        self.conn = ConnState::Connected { port };
                        ConnAction::Ready
                    },
                    _ => ConnAction::Idle,
                }
            },
            ConnEvent::DialFailed => {
                match self.conn {
                    ConnState::ConnectingInit { attempt } => {
                        if attempt < self.config.retries {
                            self.conn = ConnState::ConnectingInit { attempt: attempt + 1 };
                            ConnAction::RetryDial {
                                port: self.config.port,
                                delay_ms: self.config.retry_delay_ms,
                            }
                        } else {
                            self.conn = ConnState::Disconnected;
                            ConnAction::Fail(ConnError::RetriesExhausted)
                        }
                    },
                    ConnState::ConnectingSession { port, attempt } => {
                        if attempt < self.config.retries {
                            self.conn = ConnState::ConnectingSession { port, attempt: attempt + 1 };
                            ConnAction::RetryDial {
                                port,
                                delay_ms: self.config.retry_delay_ms,
                            }
                        } else {
                            self.conn = ConnState::Disconnected;
                            ConnAction::Fail(ConnError::RetriesExhausted)
                        }
                    },
                    _ => ConnAction::Idle,
                }
            },
            ConnEvent::Eof => {
                match self.conn {
                    ConnState::AwaitingRedirect => {
                        self.conn = ConnState::Disconnected;
                        ConnAction::Fail(ConnError::Disconnected)
                    },
                    ConnState::Connected { port } => {
                        self.conn = ConnState::Disconnected;
                        ConnAction::Fail(ConnError::Disconnected)
                    },
                    _ => ConnAction::Idle,
                }
            },
        }
    }
}


/// `s` with every occurrence of `id` removed, order kept.
pub open spec fn without_id(s: Seq<u32>, id: u32) -> Seq<u32>
    decreases s.len(),
{
    if s.len() == 0 {
        Seq::<u32>::empty()
    } else if s[0] == id {
        without_id(s.drop_first(), id)
    } else {
        seq![s[0]] + without_id(s.drop_first(), id)
    }
}

pub proof fn lemma_without_id_members(s: Seq<u32>, id: u32, x: u32)
    ensures
        without_id(s, id).contains(x) <==> (s.contains(x) && x != id),
    decreases s.len(),
{
    let w = without_id(s, id);
    if s.len() == 0 {
        assert(w =~= Seq::<u32>::empty());
    } else {
        let d = s.drop_first();
        lemma_without_id_members(d, id, x);
        assert(d.contains(x) <==> s.contains(x) && (exists|i: int| 1 <= i < s.len() && s[i] == x))
            by {
            if d.contains(x) {
                let i = choose|i: int| 0 <= i < d.len() && d[i] == x;
                assert(s[i + 1] == x);
            }
            if exists|i: int| 1 <= i < s.len() && s[i] == x {
                let i = choose|i: int| 1 <= i < s.len() && s[i] == x;
                assert(d[i - 1] == x);
            }
        }
        assert(s.contains(x) <==> (x == s[0] || d.contains(x))) by {
            if s.contains(x) {
                let i = choose|i: int| 0 <= i < s.len() && s[i] == x;
                if i != 0 {
                    assert(d[i - 1] == x);
                }
            }
            if x == s[0] {
                assert(s.contains(x)) by {
                    assert(s[0] == x);
                }
            }
            if d.contains(x) {
                let i = choose|i: int| 0 <= i < d.len() && d[i] == x;
                assert(s[i + 1] == x);
            }
        }
        if s[0] == id {
            assert(w == without_id(d, id));
        } else {
            let t = without_id(d, id);
            assert(w == seq![s[0]] + t);
            assert(w.contains(x) <==> (x == s[0] || t.contains(x))) by {
                if w.contains(x) {
                    let i = choose|i: int| 0 <= i < w.len() && w[i] == x;
                    if i != 0 {
                        assert(t[i - 1] == x);
                    }
                }
                if x == s[0] {
                    assert(w[0] == x);
                }
                if t.contains(x) {
                    let i = choose|i: int| 0 <= i < t.len() && t[i] == x;
                    assert(w[i + 1] == x);
                }
            }
        }
    }
}

/// The set still outstanding after a sequence of acknowledgements.
pub open spec fn run_acks(outstanding: Seq<u32>, acks: Seq<u32>) -> Seq<u32>
    decreases acks.len(),
{
    if acks.len() == 0 {
        outstanding
    } else {
        run_acks(without_id(outstanding, acks[0]), acks.drop_first())
    }
}

proof fn lemma_run_acks_members(outstanding: Seq<u32>, acks: Seq<u32>, x: u32)
    ensures
        run_acks(outstanding, acks).contains(x) ==> (outstanding.contains(x) && !acks.contains(
            x,
        )),
    decreases acks.len(),
{
    if acks.len() > 0 {
        lemma_run_acks_members(without_id(outstanding, acks[0]), acks.drop_first(), x);
        lemma_without_id_members(outstanding, acks[0], x);
        if run_acks(outstanding, acks).contains(x) {
            assert(!acks.drop_first().contains(x));
            assert(x != acks[0]);
            assert forall|i: int| 0 <= i < acks.len() implies acks[i] != x by {
                if i > 0 {
                    assert(acks.drop_first()[i - 1] == acks[i]);
                }
            }
        }
    }
}

/// Correlation: however the responses are ordered, once every dispatched
/// identifier has been acknowledged, nothing remains outstanding.
pub proof fn lemma_correlation(dispatched: Seq<u32>, acks: Seq<u32>)
    requires
        forall|i: int| 0 <= i < dispatched.len() ==> acks.contains(#[trigger] dispatched[i]),
    ensures
        run_acks(dispatched, acks).len() == 0,
{
    let out = run_acks(dispatched, acks);
    if out.len() > 0 {
        let x = out[0];
        assert(out.contains(x));
        lemma_run_acks_members(dispatched, acks, x);
        let i = choose|i: int| 0 <= i < dispatched.len() && dispatched[i] == x;
        assert(acks.contains(dispatched[i]));
    }
}

/// The consumer's half of a pipelined program run: the identifiers
/// dispatched but not yet acknowledged, and whether the run has ended.
#[derive(Debug)]
pub struct ProgramRun {
    pub outstanding: Vec<u32>,
    /// Acknowledgements that arrived before their own announcements: the
    /// response to a step can race past the producer's announcement, and
    /// must settle that announcement when it comes instead of being lost.
    pub early: Vec<u32>,
    pub stopped: bool,
    /// Responses seen with a nonzero fault code; reported, never fatal:
    /// one faulted step must not stall the remaining pipeline.
    pub faults: u32,
}

impl ProgramRun {
    pub fn new() -> (r: ProgramRun)
        ensures
            r.outstanding@ == Seq::<u32>::empty(),
            r.early@ == Seq::<u32>::empty(),
            !r.stopped,
            r.faults == 0,
    {
        ProgramRun { outstanding: Vec::new(), early: Vec::new(), stopped: false, faults: 0 }
    }

    /// Takes one announcement from the producer. Zero is the end-of-stream
    /// sentinel, never a real identifier: it always stops the run and is
    /// never added to the outstanding set. Any other identifier becomes
    /// outstanding — unless its acknowledgement already raced past the
    /// announcement, which settles it at once.
    pub fn handle_announcement(&mut self, id: u32) -> (stop: bool)
        ensures
            stop == (id == 0),
            id == 0 ==> final(self).stopped && final(self).outstanding == old(self).outstanding
                && final(self).early == old(self).early,
            id != 0 ==> final(self).stopped == old(self).stopped && (if old(
                self,
            ).early@.contains(id) {
                final(self).early@ == without_id(old(self).early@, id) && final(self).outstanding
                    == old(self).outstanding
            } else {
                final(self).outstanding@ == old(self).outstanding@.push(id) && final(self).early
                    == old(self).early
            }),
            final(self).faults == old(self).faults,
    {
        if id == 0 {
            self.stopped = true;
            true
        } else {
            if contains_id(&self.early, id) {
                remove_id(&mut self.early, id);
            } else {
                self.outstanding.push(id);
            }
            false
        }
    }

    /// Takes one frame read from the session socket. A frame holding an
    /// instruction response settles exactly the echoed identifier,
    /// wherever it stands in the outstanding set — or remembers it as an
    /// early acknowledgement when its announcement has not arrived yet; a
    /// frame that does not parse as one is skipped and settles nothing.
    pub fn handle_frame(&mut self, frame: &[u8]) -> (acked: Option<u32>)
        ensures
            (match acked {
                Some(id) => (if old(self).outstanding@.contains(id) {
                    final(self).outstanding@ == without_id(old(self).outstanding@, id)
                        && final(self).early == old(self).early
                } else {
                    final(self).outstanding == old(self).outstanding && final(self).early@ == old(
                        self,
                    ).early@.push(id)
                }),
                None => final(self).outstanding == old(self).outstanding && final(self).early
                    == old(self).early,
            }),
            final(self).stopped == old(self).stopped,
            (forall|p: InstructionResponse| #![auto]
                p.wf() && frame@ == p.spec_wire() ==> acked == Some(p.spec_sequence_id())),
            (forall|p: InstructionResponse| #![auto]
                p.wf() && frame@ == p.spec_wire() ==> ((p.spec_error_id() == 0
                    ==> final(self).faults == old(self).faults) && (p.spec_error_id() != 0 && old(
                    self,
                ).faults < u32::MAX ==> final(self).faults == old(self).faults + 1))),
            acked is None ==> final(self).faults == old(self).faults,
            crate::json::wire_obj(frame@) is None ==> acked is None,
    {
        match InstructionResponse::decode(frame) {
            Ok(resp) => {
                if resp.get_error_id() != 0 && self.faults < u32::MAX {
                    self.faults = self.faults + 1;
                }
                let id = resp.get_sequence_id();
                if contains_id(&self.outstanding, id) {
                    remove_id(&mut self.outstanding, id);
                } else {
                    self.early.push(id);
                }
                proof {
                    assert forall|p: InstructionResponse| #![auto]
                        p.wf() && frame@ == p.spec_wire() implies Some(id as u32) == Some(
                        p.spec_sequence_id(),
                    ) && p.spec_error_id() == resp.spec_error_id() by {
                        assert(p.wf() && frame@ == p.spec_wire());
                    }
                }
                Some(id)
            },
            Err(_) => {
                proof {
                    assert forall|p: InstructionResponse| #![auto]
                        p.wf() && frame@ == p.spec_wire() implies false by {
                        assert(p.wf() && frame@ == p.spec_wire());
                    }
                }
                None
            },
        }
    }

    /// The peer closed the stream: the run ends unconditionally.
    pub fn handle_eof(&mut self)
        ensures
            final(self).stopped,
            final(self).outstanding == old(self).outstanding,
            final(self).early == old(self).early,
            final(self).faults == old(self).faults,
    {
        self.stopped = true;
    }
}

/// Whether `id` stands anywhere in `v`.
fn contains_id(v: &Vec<u32>, id: u32) -> (r: bool)
    ensures
        r == v@.contains(id),
{
    let mut i: usize = 0;
    while i < v.len()
        invariant
            0 <= i <= v@.len(),
            forall|j: int| 0 <= j < i ==> v@[j] != id,
        decreases v@.len() - i,
    {
        if v[i] == id {
            return true;
        }
        i = i + 1;
    }
    proof {
        assert(!v@.contains(id));
    }
    false
}

/// Removes every occurrence of `id`, keeping the order of the rest.
fn remove_id(v: &mut Vec<u32>, id: u32)
    ensures
        final(v)@ == without_id(old(v)@, id),
{
    let mut kept: Vec<u32> = Vec::new();
    let mut i: usize = 0;
    while i < v.len()
        invariant
            0 <= i <= v@.len(),
            v == old(v),
            kept@ == without_id(v@.take(i as int), id),
        decreases v@.len() - i,
    {
        let x = v[i];
        proof {
            lemma_without_id_take_step(v@, id, i as int);
        }
        if x != id {
            kept.push(x);
        }
        i = i + 1;
    }
    proof {
        assert(v@.take(v@.len() as int) =~= v@);
    }
    *v = kept;
}

/// One step of removing `id` from a growing prefix.
proof fn lemma_without_id_take_step(s: Seq<u32>, id: u32, i: int)
    requires
        0 <= i < s.len(),
    ensures
        s[i] == id ==> without_id(s.take(i + 1), id) == without_id(s.take(i), id),
        s[i] != id ==> without_id(s.take(i + 1), id) == without_id(s.take(i), id).push(s[i]),
    decreases i,
{
    lemma_without_id_snoc(s.take(i), s[i], id);
    assert(s.take(i + 1) =~= s.take(i).push(s[i]));
}

/// Removing from a sequence with one element appended.
proof fn lemma_without_id_snoc(s: Seq<u32>, x: u32, id: u32)
    ensures
        x == id ==> without_id(s.push(x), id) == without_id(s, id),
        x != id ==> without_id(s.push(x), id) == without_id(s, id).push(x),
    decreases s.len(),
{
    if s.len() == 0 {
        assert(s.push(x).drop_first() =~= Seq::<u32>::empty());
        assert(s =~= Seq::<u32>::empty());
        if x != id {
            assert(seq![x] + Seq::<u32>::empty() =~= Seq::<u32>::empty().push(x));
        }
    } else {
        assert(s.push(x).drop_first() =~= s.drop_first().push(x));
        assert(s.push(x)[0] == s[0]);
        lemma_without_id_snoc(s.drop_first(), x, id);
        if x != id {
            if s[0] != id {
                assert(seq![s[0]] + without_id(s.drop_first(), id).push(x) =~= (seq![s[0]]
                    + without_id(s.drop_first(), id)).push(x));
            }
        }
    }
}


/// The demonstration posture: every flag 1.
pub open spec fn demo_config() -> Configuration {
    Configuration {
        u_tool_number: 1,
        u_frame_number: 1,
        front: 1,
        up: 1,
        left: 1,
        glip: 1,
        turn4: 1,
        turn5: 1,
        turn6: 1,
    }
}

/// One relative linear move of the demonstration program.
pub open spec fn demo_move(sequence_id: u32, x: Dec, y: Dec, z: Dec) -> PacketEnum {
    PacketEnum::Instruction(
        Instruction::FrcLinearRelative(
            FrcLinearRelative {
                sequence_id,
                configuration: demo_config(),
                position: Position {
                    x,
                    y,
                    z,
                    w: Dec { neg: false, units: 0, milli: 0 },
                    p: Dec { neg: false, units: 0, milli: 0 },
                    r: Dec { neg: false, units: 0, milli: 0 },
                    ext1: Dec { neg: false, units: 0, milli: 0 },
                    ext2: Dec { neg: false, units: 0, milli: 0 },
                    ext3: Dec { neg: false, units: 0, milli: 0 },
                },
                speed_type: SpeedType::MMSec,
                speed: 30,
                term_type: TermType::FINE,
                term_value: 1,
            },
        ),
    )
}

/// The built-in demonstration program: four relative linear moves
/// tracing a closed path, with sequence identifiers 1 through 4.
pub open spec fn demo_program() -> Seq<PacketEnum> {
    seq![
        demo_move(1, Dec { neg: false, units: 0, milli: 0 }, Dec { neg: false, units: 0, milli: 0 }, Dec { neg: false, units: 100, milli: 0 }),
        demo_move(2, Dec { neg: false, units: 30, milli: 0 }, Dec { neg: false, units: 100, milli: 0 }, Dec { neg: false, units: 0, milli: 0 }),
        demo_move(3, Dec { neg: false, units: 0, milli: 0 }, Dec { neg: false, units: 0, milli: 0 }, Dec { neg: true, units: 100, milli: 0 }),
        demo_move(4, Dec { neg: true, units: 30, milli: 0 }, Dec { neg: true, units: 100, milli: 0 }, Dec { neg: false, units: 0, milli: 0 }),
    ]
}

/// Pops and encodes the next queued packet for dispatch. The identifier
/// to announce rides along; zero — never a real instruction's identifier
/// in a well-formed program — announces nothing.
pub fn send_queue_step(queue: &mut VecDeque<PacketEnum>) -> (r: Option<(Vec<u8>, u32)>)
    requires
        forall|i: int| 0 <= i < old(queue)@.len() ==> (#[trigger] old(queue)@[i]).wf(),
    ensures
        old(queue)@.len() == 0 ==> r is None && final(queue)@ == old(queue)@,
        old(queue)@.len() > 0 ==> (r matches Some((bytes, id)) && bytes@ == old(queue)@[0].spec_wire()
            + seq![13u8, 10u8] && id == old(queue)@[0].spec_announce_id() && final(queue)@ == old(
            queue,
        )@.drop_first()),
{
    match queue.pop_front() {
        Some(p) => {
            proof {
                assert(old(queue)@[0].wf());
            }
            let bytes = p.encode();
            let id = p.announce_id();
            Some((bytes, id))
        },
        None => None,
    }
}

impl FanucDriver {
    /// The demonstration motion program, as the queue a pipelined run
    /// dispatches: four relative linear moves with identifiers 1 to 4,
    /// all well formed, none carrying the reserved identifier zero.
    pub fn load_gcode(&self) -> (r: Result<VecDeque<PacketEnum>, FrcError>)
        ensures
            (r matches Ok(q) && q@ == demo_program()),
            (forall|i: int| 0 <= i < demo_program().len() ==> (#[trigger] demo_program()[i]).wf()
                && demo_program()[i].spec_announce_id() == i + 1),
    {
        let mut queue: VecDeque<PacketEnum> = VecDeque::new();
        queue.push_back(
            PacketEnum::Instruction(
                Instruction::FrcLinearRelative(
                    FrcLinearRelative::new(
                        1,
                        Configuration {
                            u_tool_number: 1,
                            u_frame_number: 1,
                            front: 1,
                            up: 1,
                            left: 1,
                            glip: 1,
                            turn4: 1,
                            turn5: 1,
                            turn6: 1,
                        },
                        Position {
                            x: Dec::zero(),
                            y: Dec::zero(),
                            z: Dec::whole(false, 100),
                            w: Dec::zero(),
                            p: Dec::zero(),
                            r: Dec::zero(),
                            ext1: Dec::zero(),
                            ext2: Dec::zero(),
                            ext3: Dec::zero(),
                        },
                        SpeedType::MMSec,
                        30,
                        TermType::FINE,
                        1,
                    ),
                ),
            ),
        );
        queue.push_back(
            PacketEnum::Instruction(
                Instruction::FrcLinearRelative(
                    FrcLinearRelative::new(
                        2,
                        Configuration {
                            u_tool_number: 1,
                            u_frame_number: 1,
                            front: 1,
                            up: 1,
                            left: 1,
                            glip: 1,
                            turn4: 1,
                            turn5: 1,
                            turn6: 1,
                        },
                        Position {
                            x: Dec::whole(false, 30),
                            y: Dec::whole(false, 100),
                            z: Dec::zero(),
                            w: Dec::zero(),
                            p: Dec::zero(),
                            r: Dec::zero(),
                            ext1: Dec::zero(),
                            ext2: Dec::zero(),
                            ext3: Dec::zero(),
                        },
                        SpeedType::MMSec,
                        30,
                        TermType::FINE,
                        1,
                    ),
                ),
            ),
        );
        queue.push_back(
            PacketEnum::Instruction(
                Instruction::FrcLinearRelative(
                    FrcLinearRelative::new(
                        3,
                        Configuration {
                            u_tool_number: 1,
                            u_frame_number: 1,
                            front: 1,
                            up: 1,
                            left: 1,
                            glip: 1,
                            turn4: 1,
                            turn5: 1,
                            turn6: 1,
                        },
                        Position {
                            x: Dec::zero(),
                            y: Dec::zero(),
                            z: Dec::whole(true, 100),
                            w: Dec::zero(),
                            p: Dec::zero(),
                            r: Dec::zero(),
                            ext1: Dec::zero(),
                            ext2: Dec::zero(),
                            ext3: Dec::zero(),
                        },
                        SpeedType::MMSec,
                        30,
                        TermType::FINE,
                        1,
                    ),
                ),
            ),
        );
        queue.push_back(
            PacketEnum::Instruction(
                Instruction::FrcLinearRelative(
                    FrcLinearRelative::new(
                        4,
                        Configuration {
                            u_tool_number: 1,
                            u_frame_number: 1,
                            front: 1,
                            up: 1,
                            left: 1,
                            glip: 1,
                            turn4: 1,
                            turn5: 1,
                            turn6: 1,
                        },
                        Position {
                            x: Dec::whole(true, 30),
                            y: Dec::whole(true, 100),
                            z: Dec::zero(),
                            w: Dec::zero(),
                            p: Dec::zero(),
                            r: Dec::zero(),
                            ext1: Dec::zero(),
                            ext2: Dec::zero(),
                            ext3: Dec::zero(),
                        },
                        SpeedType::MMSec,
                        30,
                        TermType::FINE,
                        1,
                    ),
                ),
            ),
        );
        proof {
            assert(queue@ =~= demo_program());
        }
        Ok(queue)
    }

    /// The encoded session-opening request.
    pub fn connect_request(&self) -> (r: Vec<u8>)
        ensures
            r@ == Communication::FrcConnect.spec_wire() + seq![13u8, 10u8],
    {
        let p = Communication::FrcConnect;
        p.encode()
    }

    /// The encoded initialize request, with the default group mask.
    pub fn initialize_request(&self) -> (r: Vec<u8>)
        ensures
            r@ == Command::FrcInitialize(FrcInitialize { group_mask: 1 }).spec_wire() + seq![
                13u8,
                10u8,
            ],
    {
        let p = Command::FrcInitialize(FrcInitialize::default());
        p.encode()
    }

    /// Settles an initialize exchange: a response with fault code zero
    /// succeeds; a nonzero code resolves through the fault table and
    /// fails; a frame that is no initialize response passes, as the
    /// single-shot discipline leaves cross-checking to the caller.
    pub fn initialize_response(&mut self, frame: &[u8]) -> (r: Result<(), FrcError>)
        ensures
            (forall|resp: crate::commands::FrcInitializeResponse| #![auto]
                frame@ == CommandResponse::FrcInitialize(resp).spec_wire() ==> (if resp.error_id
                    == 0 {
                    r == Ok::<(), FrcError>(())
                } else {
                    r == Err::<(), FrcError>(
                        FrcError::FanucErrorCode(
                            crate::FanucErrorCode::spec_from_code(resp.error_id),
                        ),
                    )
                })),
            final(self).conn == old(self).conn,
            ((match crate::json::wire_obj(frame@) {
                Some(m) => (match crate::commands::FrcInitializeResponse::sdecode(m) {
                    Some(resp) => crate::json::sget_str(m, crate::keys::k_tag_command()) == Some(
                        crate::keys::k_t_initialize(),
                    ) ==> (if resp.error_id == 0 {
                        r == Ok::<(), FrcError>(())
                    } else {
                        r == Err::<(), FrcError>(
                            FrcError::FanucErrorCode(
                                crate::FanucErrorCode::spec_from_code(resp.error_id),
                            ),
                        )
                    }),
                    None => true,
                }),
                None => true,
            })),
            final(self).config == old(self).config,
    {
        match CommandResponse::decode(frame) {
            Ok(CommandResponse::FrcInitialize(res)) => {
                if res.error_id != 0 {
                    self.log_message("the controller refused the initialize command".to_owned());
                    proof {
                        assert forall|resp: crate::commands::FrcInitializeResponse| #![auto]
                            frame@ == CommandResponse::FrcInitialize(
                                resp,
                            ).spec_wire() implies resp == res by {
                            let p = CommandResponse::FrcInitialize(resp);
                            assert(p.wf());
                            assert(frame@ == p.spec_wire());
                        }
                    }
                    Err(FrcError::FanucErrorCode(crate::FanucErrorCode::from_code(res.error_id)))
                } else {
                    proof {
                        assert forall|resp: crate::commands::FrcInitializeResponse| #![auto]
                            frame@ == CommandResponse::FrcInitialize(
                                resp,
                            ).spec_wire() implies resp == res by {
                            let p = CommandResponse::FrcInitialize(resp);
                            assert(p.wf());
                            assert(frame@ == p.spec_wire());
                        }
                    }
                    Ok(())
                }
            },
            Ok(_) => {
                proof {
                    assert forall|resp: crate::commands::FrcInitializeResponse| #![auto]
                        frame@ == CommandResponse::FrcInitialize(
                            resp,
                        ).spec_wire() implies false by {
                        let p = CommandResponse::FrcInitialize(resp);
                        assert(p.wf());
                        assert(frame@ == p.spec_wire());
                    }
                }
                Ok(())
            },
            Err(e) => {
                self.log_message("an initialize response did not decode".to_owned());
                proof {
                    assert forall|resp: crate::commands::FrcInitializeResponse| #![auto]
                        frame@ == CommandResponse::FrcInitialize(
                            resp,
                        ).spec_wire() implies false by {
                        let p = CommandResponse::FrcInitialize(resp);
                        assert(p.wf());
                        assert(frame@ == p.spec_wire());
                    }
                }
                Err(e)
            },
        }
    }
}


impl Default for FanucDriver {
    fn default() -> (r: FanucDriver)
        ensures
            r.conn == ConnState::Disconnected,
            r.messages@ == Seq::<String>::empty(),
            r.config.port == 16001,
    {
        FanucDriver::new(FanucDriverConfig::default())
    }
}

impl FanucDriver {
    /// The encoded abort request.
    pub fn abort_request(&self) -> (r: Vec<u8>)
        ensures
            r@ == Command::FrcAbort.spec_wire() + seq![13u8, 10u8],
    {
        let p = Command::FrcAbort;
        p.encode()
    }

    /// Settles an abort exchange: fault code zero succeeds; a nonzero
    /// code resolves through the fault table and fails; a frame that is
    /// no such response passes, as the single-shot discipline leaves
    /// cross-checking to the caller.
    pub fn abort_response(&mut self, frame: &[u8]) -> (r: Result<(), FrcError>)
        ensures
            (forall|resp: crate::commands::FrcAbortResponse| #![auto]
                frame@ == CommandResponse::FrcAbort(resp).spec_wire() ==> (if resp.error_id == 0 {
                    r == Ok::<(), FrcError>(())
                } else {
                    r == Err::<(), FrcError>(
                        FrcError::FanucErrorCode(
                            crate::FanucErrorCode::spec_from_code(resp.error_id),
                        ),
                    )
                })),
            ((match crate::json::wire_obj(frame@) {
                Some(m) => (match crate::commands::FrcAbortResponse::sdecode(m) {
                    Some(resp) => crate::json::sget_str(m, crate::keys::k_tag_command()) == Some(
                        crate::keys::k_t_abort(),
                    ) ==> (if resp.error_id == 0 {
                        r == Ok::<(), FrcError>(())
                    } else {
                        r == Err::<(), FrcError>(
                            FrcError::FanucErrorCode(
                                crate::FanucErrorCode::spec_from_code(resp.error_id),
                            ),
                        )
                    }),
                    None => true,
                }),
                None => true,
            })),
            final(self).config == old(self).config,
    {
        match CommandResponse::decode(frame) {
            Ok(CommandResponse::FrcAbort(res)) => {
                if res.error_id != 0 {
                    self.log_message("the controller returned a fault".to_owned());
                    proof {
                        assert forall|resp: crate::commands::FrcAbortResponse| #![auto]
                            frame@ == CommandResponse::FrcAbort(
                                resp,
                            ).spec_wire() implies resp == res by {
                            let p = CommandResponse::FrcAbort(resp);
                            assert(p.wf());
                            assert(frame@ == p.spec_wire());
                        }
                    }
                    Err(FrcError::FanucErrorCode(crate::FanucErrorCode::from_code(res.error_id)))
                } else {
                    proof {
                        assert forall|resp: crate::commands::FrcAbortResponse| #![auto]
                            frame@ == CommandResponse::FrcAbort(
                                resp,
                            ).spec_wire() implies resp == res by {
                            let p = CommandResponse::FrcAbort(resp);
                            assert(p.wf());
                            assert(frame@ == p.spec_wire());
                        }
                    }
                    Ok(())
                }
            },
            Ok(_) => {
                proof {
                    assert forall|resp: crate::commands::FrcAbortResponse| #![auto]
                        frame@ == CommandResponse::FrcAbort(resp).spec_wire() implies false by {
                        let p = CommandResponse::FrcAbort(resp);
                        assert(p.wf());
                        assert(frame@ == p.spec_wire());
                    }
                }
                Ok(())
            },
            Err(e) => {
                self.log_message("a response frame did not decode".to_owned());
                proof {
                    assert forall|resp: crate::commands::FrcAbortResponse| #![auto]
                        frame@ == CommandResponse::FrcAbort(resp).spec_wire() implies false by {
                        let p = CommandResponse::FrcAbort(resp);
                        assert(p.wf());
                        assert(frame@ == p.spec_wire());
                    }
                }
                Err(e)
            },
        }
    }

    /// The encoded status request.
    pub fn get_status_request(&self) -> (r: Vec<u8>)
        ensures
            r@ == Command::FrcGetStatus.spec_wire() + seq![13u8, 10u8],
    {
        let p = Command::FrcGetStatus;
        p.encode()
    }

    /// Settles a status exchange: fault code zero succeeds; a nonzero
    /// code resolves through the fault table and fails; a frame that is
    /// no such response passes, as the single-shot discipline leaves
    /// cross-checking to the caller.
    pub fn get_status_response(&mut self, frame: &[u8]) -> (r: Result<(), FrcError>)
        ensures
            (forall|resp: crate::commands::FrcGetStatusResponse| #![auto]
                frame@ == CommandResponse::FrcGetStatus(resp).spec_wire() ==> (if resp.error_id == 0 {
                    r == Ok::<(), FrcError>(())
                } else {
                    r == Err::<(), FrcError>(
                        FrcError::FanucErrorCode(
                            crate::FanucErrorCode::spec_from_code(resp.error_id),
                        ),
                    )
                })),
            ((match crate::json::wire_obj(frame@) {
                Some(m) => (match crate::commands::FrcGetStatusResponse::sdecode(m) {
                    Some(resp) => crate::json::sget_str(m, crate::keys::k_tag_command()) == Some(
                        crate::keys::k_t_get_status(),
                    ) ==> (if resp.error_id == 0 {
                        r == Ok::<(), FrcError>(())
                    } else {
                        r == Err::<(), FrcError>(
                            FrcError::FanucErrorCode(
                                crate::FanucErrorCode::spec_from_code(resp.error_id),
                            ),
                        )
                    }),
                    None => true,
                }),
                None => true,
            })),
            final(self).config == old(self).config,
    {
        match CommandResponse::decode(frame) {
            Ok(CommandResponse::FrcGetStatus(res)) => {
                if res.error_id != 0 {
                    self.log_message("the controller returned a fault".to_owned());
                    proof {
                        assert forall|resp: crate::commands::FrcGetStatusResponse| #![auto]
                            frame@ == CommandResponse::FrcGetStatus(
                                resp,
                            ).spec_wire() implies resp == res by {
                            let p = CommandResponse::FrcGetStatus(resp);
                            assert(p.wf());
                            assert(frame@ == p.spec_wire());
                        }
                    }
                    Err(FrcError::FanucErrorCode(crate::FanucErrorCode::from_code(res.error_id)))
                } else {
                    proof {
                        assert forall|resp: crate::commands::FrcGetStatusResponse| #![auto]
                            frame@ == CommandResponse::FrcGetStatus(
                                resp,
                            ).spec_wire() implies resp == res by {
                            let p = CommandResponse::FrcGetStatus(resp);
                            assert(p.wf());
                            assert(frame@ == p.spec_wire());
                        }
                    }
                    Ok(())
                }
            },
            Ok(_) => {
                proof {
                    assert forall|resp: crate::commands::FrcGetStatusResponse| #![auto]
                        frame@ == CommandResponse::FrcGetStatus(resp).spec_wire() implies false by {
                        let p = CommandResponse::FrcGetStatus(resp);
                        assert(p.wf());
                        assert(frame@ == p.spec_wire());
                    }
                }
                Ok(())
            },
            Err(e) => {
                self.log_message("a response frame did not decode".to_owned());
                proof {
                    assert forall|resp: crate::commands::FrcGetStatusResponse| #![auto]
                        frame@ == CommandResponse::FrcGetStatus(resp).spec_wire() implies false by {
                        let p = CommandResponse::FrcGetStatus(resp);
                        assert(p.wf());
                        assert(frame@ == p.spec_wire());
                    }
                }
                Err(e)
            },
        }
    }

    /// The encoded disconnect request.
    pub fn disconnect_request(&self) -> (r: Vec<u8>)
        ensures
            r@ == Communication::FrcDisconnect.spec_wire() + seq![13u8, 10u8],
    {
        let p = Communication::FrcDisconnect;
        p.encode()
    }

    /// Settles a disconnect exchange: fault code zero succeeds; a nonzero
    /// code resolves through the fault table and fails; a frame that is
    /// no such response passes, as the single-shot discipline leaves
    /// cross-checking to the caller.
    /// The session state closes whatever the response said: the close
    /// is best effort.
    pub fn disconnect_response(&mut self, frame: &[u8]) -> (r: Result<(), FrcError>)
        ensures
            (forall|resp: crate::packets::FrcDisconnectResponse| #![auto]
                frame@ == CommunicationResponse::FrcDisconnect(resp).spec_wire() ==> (if resp.error_id == 0 {
                    r == Ok::<(), FrcError>(())
                } else {
                    r == Err::<(), FrcError>(
                        FrcError::FanucErrorCode(
                            crate::FanucErrorCode::spec_from_code(resp.error_id),
                        ),
                    )
                })),
            final(self).conn == ConnState::Closed,
            ((match crate::json::wire_obj(frame@) {
                Some(m) => (match crate::packets::FrcDisconnectResponse::sdecode(m) {
                    Some(resp) => crate::json::sget_str(m, crate::keys::k_tag_communication()) == Some(
                        crate::keys::k_t_disconnect(),
                    ) ==> (if resp.error_id == 0 {
                        r == Ok::<(), FrcError>(())
                    } else {
                        r == Err::<(), FrcError>(
                            FrcError::FanucErrorCode(
                                crate::FanucErrorCode::spec_from_code(resp.error_id),
                            ),
                        )
                    }),
                    None => true,
                }),
                None => true,
            })),
            final(self).config == old(self).config,
    {
        self.conn = ConnState::Closed;
        match CommunicationResponse::decode(frame) {
            Ok(CommunicationResponse::FrcDisconnect(res)) => {
                if res.error_id != 0 {
                    self.log_message("the controller returned a fault".to_owned());
                    proof {
                        assert forall|resp: crate::packets::FrcDisconnectResponse| #![auto]
                            frame@ == CommunicationResponse::FrcDisconnect(
                                resp,
                            ).spec_wire() implies resp == res by {
                            let p = CommunicationResponse::FrcDisconnect(resp);
                            assert(p.wf());
                            assert(frame@ == p.spec_wire());
                        }
                    }
                    Err(FrcError::FanucErrorCode(crate::FanucErrorCode::from_code(res.error_id)))
                } else {
                    proof {
                        assert forall|resp: crate::packets::FrcDisconnectResponse| #![auto]
                            frame@ == CommunicationResponse::FrcDisconnect(
                                resp,
                            ).spec_wire() implies resp == res by {
                            let p = CommunicationResponse::FrcDisconnect(resp);
                            assert(p.wf());
                            assert(frame@ == p.spec_wire());
                        }
                    }
                    Ok(())
                }
            },
            Ok(_) => {
                proof {
                    assert forall|resp: crate::packets::FrcDisconnectResponse| #![auto]
                        frame@ == CommunicationResponse::FrcDisconnect(resp).spec_wire() implies false by {
                        let p = CommunicationResponse::FrcDisconnect(resp);
                        assert(p.wf());
                        assert(frame@ == p.spec_wire());
                    }
                }
                Ok(())
            },
            Err(e) => {
                self.log_message("a response frame did not decode".to_owned());
                proof {
                    assert forall|resp: crate::packets::FrcDisconnectResponse| #![auto]
                        frame@ == CommunicationResponse::FrcDisconnect(resp).spec_wire() implies false by {
                        let p = CommunicationResponse::FrcDisconnect(resp);
                        assert(p.wf());
                        assert(frame@ == p.spec_wire());
                    }
                }
                Err(e)
            },
        }
    }

    /// The encoded relative linear motion instruction.
    pub fn linear_relative_request(
        &self,
        sequenceid: u32,
        config: Configuration,
        pos: Position,
        speed_t: SpeedType,
        speed: u16,
        term_t: TermType,
        term_va: u8,
    ) -> (r: Vec<u8>)
        requires
            pos.wf(),
        ensures
            r@ == Instruction::FrcLinearRelative(
                FrcLinearRelative {
                    sequence_id: sequenceid,
                    configuration: config,
                    position: pos,
                    speed_type: speed_t,
                    speed,
                    term_type: term_t,
                    term_value: term_va,
                },
            ).spec_wire() + seq![13u8, 10u8],
    {
        let p = Instruction::FrcLinearRelative(
            FrcLinearRelative::new(sequenceid, config, pos, speed_t, speed, term_t, term_va),
        );
        p.encode()
    }

    /// Settles a relative linear motion exchange: fault code zero succeeds; a nonzero
    /// code resolves through the fault table and fails; a frame that is
    /// no such response passes, as the single-shot discipline leaves
    /// cross-checking to the caller.
    pub fn linear_relative_response(&mut self, frame: &[u8]) -> (r: Result<(), FrcError>)
        ensures
            (forall|resp: crate::instructions::FrcLinearRelativeResponse| #![auto]
                frame@ == InstructionResponse::FrcLinearRelative(resp).spec_wire() ==> (if resp.error_id == 0 {
                    r == Ok::<(), FrcError>(())
                } else {
                    r == Err::<(), FrcError>(
                        FrcError::FanucErrorCode(
                            crate::FanucErrorCode::spec_from_code(resp.error_id),
                        ),
                    )
                })),
            ((match crate::json::wire_obj(frame@) {
                Some(m) => (match crate::instructions::FrcLinearRelativeResponse::sdecode(m) {
                    Some(resp) => crate::json::sget_str(m, crate::keys::k_tag_instruction()) == Some(
                        crate::keys::k_t_linear_relative(),
                    ) ==> (if resp.error_id == 0 {
                        r == Ok::<(), FrcError>(())
                    } else {
                        r == Err::<(), FrcError>(
                            FrcError::FanucErrorCode(
                                crate::FanucErrorCode::spec_from_code(resp.error_id),
                            ),
                        )
                    }),
                    None => true,
                }),
                None => true,
            })),
            final(self).config == old(self).config,
    {
        match InstructionResponse::decode(frame) {
            Ok(InstructionResponse::FrcLinearRelative(res)) => {
                if res.error_id != 0 {
                    self.log_message("the controller returned a fault".to_owned());
                    proof {
                        assert forall|resp: crate::instructions::FrcLinearRelativeResponse| #![auto]
                            frame@ == InstructionResponse::FrcLinearRelative(
                                resp,
                            ).spec_wire() implies resp == res by {
                            let p = InstructionResponse::FrcLinearRelative(resp);
                            assert(p.wf());
                            assert(frame@ == p.spec_wire());
                        }
                    }
                    Err(FrcError::FanucErrorCode(crate::FanucErrorCode::from_code(res.error_id)))
                } else {
                    proof {
                        assert forall|resp: crate::instructions::FrcLinearRelativeResponse| #![auto]
                            frame@ == InstructionResponse::FrcLinearRelative(
                                resp,
                            ).spec_wire() implies resp == res by {
                            let p = InstructionResponse::FrcLinearRelative(resp);
                            assert(p.wf());
                            assert(frame@ == p.spec_wire());
                        }
                    }
                    Ok(())
                }
            },
            Ok(_) => {
                proof {
                    assert forall|resp: crate::instructions::FrcLinearRelativeResponse| #![auto]
                        frame@ == InstructionResponse::FrcLinearRelative(resp).spec_wire() implies false by {
                        let p = InstructionResponse::FrcLinearRelative(resp);
                        assert(p.wf());
                        assert(frame@ == p.spec_wire());
                    }
                }
                Ok(())
            },
            Err(e) => {
                self.log_message("a response frame did not decode".to_owned());
                proof {
                    assert forall|resp: crate::instructions::FrcLinearRelativeResponse| #![auto]
                        frame@ == InstructionResponse::FrcLinearRelative(resp).spec_wire() implies false by {
                        let p = InstructionResponse::FrcLinearRelative(resp);
                        assert(p.wf());
                        assert(frame@ == p.spec_wire());
                    }
                }
                Err(e)
            },
        }
    }
}

} // verus!
