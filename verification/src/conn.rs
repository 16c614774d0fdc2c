//! The connection manager: the lifecycle of the one logical link to the
//! worker, as a state machine over externally observed events.
//!
//! The caller's event loop performs the I/O (dialing, writing the
//! handshake, reading frames, sleeping out the retry interval) and
//! feeds what happened back in through `step`; every decision — what to
//! do next, when the shared writer exists, when a send may go out — is
//! taken here. Connection attempts retry forever at a fixed interval:
//! the link is assumed essential and eventually available.

use vstd::prelude::*;
use crate::frame::{Frame, frame_wf, spec_frame_bytes, encode_frame, ping_frame};
use crate::frame::{NORMAL_STATUS, PROTOCOL_VERSION};
use crate::text::{spec_json_string, push_json_string};

verus! {

/// Where the link stands. One logical connection at a time.
#[derive(Clone, Copy, Debug, PartialEq, Eq, Structural)]
pub enum LinkState {
    Disconnected,
    Connecting,
    Handshaking,
    Connected,
}

/// What the I/O loop observed.
#[derive(Clone, Copy, Debug, PartialEq, Eq, Structural)]
pub enum LinkEvent {
    /// The loop is about to dial the worker address.
    ConnectStarted,
    ConnectSucceeded,
    ConnectFailed,
    /// The handshake bytes were written in full.
    HandshakeSent,
    HandshakeFailed,
    /// A read off the transport failed, or a frame failed to decode.
    ReadFailed,
    /// A write (an explicit send or a keepalive ping) failed.
    WriteFailed,
}

/// What the I/O loop must do next.
#[derive(Clone, Copy, Debug, PartialEq, Eq, Structural)]
pub enum LinkAction {
    /// Nothing: the event does not apply in this state.
    Idle,
    /// Dial the worker address.
    Dial,
    /// Write the handshake frame on the fresh transport.
    SendHandshake,
    /// Install the transport as the single shared writer, start the
    /// keepalive task and the decode loop.
    StartSession,
    /// Drop the shared writer, stop the keepalive task, sleep the
    /// retry interval, then start a new connection attempt.
    DropWriterAndWait,
}

/// The transition table of the lifecycle
/// `Disconnected -> Connecting -> Handshaking -> Connected`, every
/// failure leading back to `Disconnected`.
pub open spec fn spec_next_state(s: LinkState, e: LinkEvent) -> LinkState {
    match (s, e) {
        (LinkState::Disconnected, LinkEvent::ConnectStarted) => LinkState::Connecting,
        (LinkState::Connecting, LinkEvent::ConnectSucceeded) => LinkState::Handshaking,
        (LinkState::Connecting, LinkEvent::ConnectFailed) => LinkState::Disconnected,
        (LinkState::Handshaking, LinkEvent::HandshakeSent) => LinkState::Connected,
        (LinkState::Handshaking, LinkEvent::HandshakeFailed) => LinkState::Disconnected,
        (LinkState::Connected, LinkEvent::ReadFailed) => LinkState::Disconnected,
        (LinkState::Connected, LinkEvent::WriteFailed) => LinkState::Disconnected,
        _ => s,
    }
}

/// The action each transition asks of the I/O loop.
pub open spec fn spec_action(s: LinkState, e: LinkEvent) -> LinkAction {
    match (s, e) {
        (LinkState::Disconnected, LinkEvent::ConnectStarted) => LinkAction::Dial,
        (LinkState::Connecting, LinkEvent::ConnectSucceeded) => LinkAction::SendHandshake,
        (LinkState::Connecting, LinkEvent::ConnectFailed) => LinkAction::DropWriterAndWait,
        (LinkState::Handshaking, LinkEvent::HandshakeSent) => LinkAction::StartSession,
        (LinkState::Handshaking, LinkEvent::HandshakeFailed) => LinkAction::DropWriterAndWait,
        (LinkState::Connected, LinkEvent::ReadFailed) => LinkAction::DropWriterAndWait,
        (LinkState::Connected, LinkEvent::WriteFailed) => LinkAction::DropWriterAndWait,
        _ => LinkAction::Idle,
    }
}

/// Whether the transition is a logged connection failure.
pub open spec fn spec_is_failure(s: LinkState, e: LinkEvent) -> bool {
    spec_action(s, e) == LinkAction::DropWriterAndWait
}

/// A send refused because no connection stands.
#[derive(Clone, Copy, Debug, PartialEq, Eq, Structural)]
pub enum SendError {
    NotConnected,
}

/// The connection manager owned by the I/O loop.
pub struct ConnectionManager {
    address: String,
    retry_seconds: u64,
    state: LinkState,
    failures: u64,
}

impl ConnectionManager {
    pub closed spec fn spec_state(self) -> LinkState {
        self.state
    }

    /// The worker address dialed on every attempt.
    pub closed spec fn spec_address(self) -> Seq<char> {
        self.address@
    }

    /// Fixed retry interval, in seconds; no backoff growth.
    pub closed spec fn spec_retry_seconds(self) -> u64 {
        self.retry_seconds
    }

    pub fn address(&self) -> (r: &str)
        ensures
            r@ == self.spec_address(),
    {
        self.address.as_str()
    }

    pub fn retry_seconds(&self) -> (r: u64)
        ensures
            r == self.spec_retry_seconds(),
    {
        self.retry_seconds
    }

    /// How many connection failures were logged so far (saturating).
    pub closed spec fn spec_failures(self) -> u64 {
        self.failures
    }

    pub fn new(address: String, retry_seconds: u64) -> (r: ConnectionManager)
        ensures
            r.spec_state() == LinkState::Disconnected,
            r.spec_failures() == 0,
            r.spec_address() == address@,
            r.spec_retry_seconds() == retry_seconds,
    {
        ConnectionManager { address, retry_seconds, state: LinkState::Disconnected, failures: 0 }
    }

    /// The current lifecycle state.
    pub fn state(&self) -> (s: LinkState)
        ensures
            s == self.spec_state(),
    {
        self.state
    }

    /// How many failures were logged.
    pub fn failures(&self) -> (n: u64)
        ensures
            n == self.spec_failures(),
    {
        self.failures
    }

    /// Feeds one observed event in; returns what to do next. Failure
    /// transitions are counted (saturating at the integer bound).
    pub fn step(&mut self, e: LinkEvent) -> (a: LinkAction)
        ensures
            final(self).spec_state() == spec_next_state(old(self).spec_state(), e),
            a == spec_action(old(self).spec_state(), e),
            final(self).spec_failures() == if spec_is_failure(old(self).spec_state(), e) && old(
                self,
            ).spec_failures() < u64::MAX {
                old(self).spec_failures() + 1
            } else {
                old(self).spec_failures() as int
            },
            final(self).spec_address() == old(self).spec_address(),
            final(self).spec_retry_seconds() == old(self).spec_retry_seconds(),
    {
        let next = match (self.state, e) {
            (LinkState::Disconnected, LinkEvent::ConnectStarted) => LinkState::Connecting,
            (LinkState::Connecting, LinkEvent::ConnectSucceeded) => LinkState::Handshaking,
            (LinkState::Connecting, LinkEvent::ConnectFailed) => LinkState::Disconnected,
            (LinkState::Handshaking, LinkEvent::HandshakeSent) => LinkState::Connected,
            (LinkState::Handshaking, LinkEvent::HandshakeFailed) => LinkState::Disconnected,
            (LinkState::Connected, LinkEvent::ReadFailed) => LinkState::Disconnected,
            (LinkState::Connected, LinkEvent::WriteFailed) => LinkState::Disconnected,
            _ => self.state,
        };
        let action = match (self.state, e) {
            (LinkState::Disconnected, LinkEvent::ConnectStarted) => LinkAction::Dial,
            (LinkState::Connecting, LinkEvent::ConnectSucceeded) => LinkAction::SendHandshake,
            (LinkState::Connecting, LinkEvent::ConnectFailed) => LinkAction::DropWriterAndWait,
            (LinkState::Handshaking, LinkEvent::HandshakeSent) => LinkAction::StartSession,
            (LinkState::Handshaking, LinkEvent::HandshakeFailed) => LinkAction::DropWriterAndWait,
            (LinkState::Connected, LinkEvent::ReadFailed) => LinkAction::DropWriterAndWait,
            (LinkState::Connected, LinkEvent::WriteFailed) => LinkAction::DropWriterAndWait,
            _ => LinkAction::Idle,
        };
        if matches!(action, LinkAction::DropWriterAndWait) && self.failures < u64::MAX {
            self.failures = self.failures + 1;
        }
        self.state = next;
        action
    }

    /// Serializes a frame for sending, but only while `Connected`: in
    /// every other state it refuses at once with `NotConnected` — it
    /// never queues or waits for a future connection. The caller writes
    /// the returned bytes under the single-writer lock.
    pub fn prepare_send(&self, f: &Frame) -> (r: Result<Vec<u8>, SendError>)
        requires
            frame_wf(*f),
        ensures
            match r {
                Ok(bytes) => self.spec_state() == LinkState::Connected && bytes@
                    == spec_frame_bytes(*f),
                Err(e) => self.spec_state() != LinkState::Connected && e
                    == SendError::NotConnected,
            },
    {
        match self.state {
            LinkState::Connected => Ok(encode_frame(f)),
            _ => Err(SendError::NotConnected),
        }
    }

    /// The keepalive frame the session task writes on its fixed
    /// interval: ping status, no attachments, empty payload.
    pub fn keepalive_frame(&self) -> (f: Frame)
        ensures
            f.status == crate::frame::PING_STATUS,
            f.attachments@.len() == 0,
            f.message@.len() == 0,
            frame_wf(f),
    {
        ping_frame()
    }
}

/// The handshake message sent once per fresh connection, before any
/// other traffic: it identifies the client role and proves possession
/// of the shared secret.
pub open spec fn spec_handshake_json(token: Seq<char>) -> Seq<char> {
    "{\"client_type\":\"request\",\"auth_token\":"@ + spec_json_string(token) + "}"@
}

/// Builds the handshake payload `{"client_type":"request","auth_token":...}`.
pub fn handshake_message(auth_token: &str) -> (r: String)
    ensures
        r@ == spec_handshake_json(auth_token@),
{
    let mut out = String::new();
    out.append("{\"client_type\":\"request\",\"auth_token\":");
    push_json_string(&mut out, auth_token);
    out.append("}");
    out
}

/// The handshake frame: a normal-status unit with no attachments whose
/// payload is the handshake message.
pub fn handshake_frame(auth_token: &str) -> (f: Frame)
    requires
        vstd::utf8::encode_utf8(spec_handshake_json(auth_token@)).len() <= 0xFFFF_FFFF,
    ensures
        f.status == NORMAL_STATUS,
        f.version == PROTOCOL_VERSION,
        f.attachments@.len() == 0,
        f.message@ == vstd::utf8::encode_utf8(spec_handshake_json(auth_token@)),
        frame_wf(f),
{
    let msg = handshake_message(auth_token);
    let bytes = msg.as_str().as_bytes_vec();
    Frame {
        status: NORMAL_STATUS,
        version: PROTOCOL_VERSION,
        attachments: Vec::new(),
        message: bytes,
    }
}

/// The state a run of events leaves the machine in, folded over
/// `spec_next_state` from the front.
pub open spec fn spec_run(s: LinkState, es: Seq<LinkEvent>) -> LinkState
    decreases es.len(),
{
    if es.len() == 0 {
        s
    } else {
        spec_run(spec_next_state(s, es[0]), es.skip(1))
    }
}

/// How many failure transitions a run of events logs.
pub open spec fn spec_run_failures(s: LinkState, es: Seq<LinkEvent>) -> nat
    decreases es.len(),
{
    if es.len() == 0 {
        0
    } else {
        (if spec_is_failure(s, es[0]) {
            1nat
        } else {
            0nat
        }) + spec_run_failures(spec_next_state(s, es[0]), es.skip(1))
    }
}

/// A successful attempt converges from anywhere: whatever state a run
/// has reached, the events of one clean attempt — dial, connect,
/// handshake — end in `Connected`, and that attempt itself logs no
/// failure.
pub proof fn lemma_clean_attempt_connects(s: LinkState)
    requires
        s == LinkState::Disconnected,
    ensures
        ({
            let attempt = seq![
                LinkEvent::ConnectStarted,
                LinkEvent::ConnectSucceeded,
                LinkEvent::HandshakeSent,
            ];
            spec_run(s, attempt) == LinkState::Connected && spec_run_failures(s, attempt) == 0
        }),
{
    let attempt = seq![
        LinkEvent::ConnectStarted,
        LinkEvent::ConnectSucceeded,
        LinkEvent::HandshakeSent,
    ];
    let rest1 = seq![LinkEvent::ConnectSucceeded, LinkEvent::HandshakeSent];
    let rest2 = seq![LinkEvent::HandshakeSent];
    assert(attempt.skip(1) =~= rest1);
    assert(rest1.skip(1) =~= rest2);
    assert(rest2.skip(1) =~= Seq::<LinkEvent>::empty());
    assert(spec_run(s, attempt) == spec_run(LinkState::Connecting, rest1));
    assert(spec_run(LinkState::Connecting, rest1) == spec_run(LinkState::Handshaking, rest2));
    assert(spec_run(LinkState::Handshaking, rest2) == spec_run(
        LinkState::Connected,
        Seq::<LinkEvent>::empty(),
    ));
    assert(spec_run_failures(s, attempt) == spec_run_failures(LinkState::Connecting, rest1));
    assert(spec_run_failures(LinkState::Connecting, rest1) == spec_run_failures(
        LinkState::Handshaking,
        rest2,
    ));
    assert(spec_run_failures(LinkState::Handshaking, rest2) == spec_run_failures(
        LinkState::Connected,
        Seq::<LinkEvent>::empty(),
    ));
}

/// Reconnect convergence: from `Disconnected`, a transport that fails
/// its first two connection attempts and succeeds on the third brings
/// the manager to `Connected`, with exactly two failure transitions
/// logged along the whole run — and only in `Connected` does
/// `prepare_send` accept.
pub proof fn lemma_reconnect_convergence()
    ensures
        ({
            let run = seq![
                LinkEvent::ConnectStarted,
                LinkEvent::ConnectFailed,
                LinkEvent::ConnectStarted,
                LinkEvent::ConnectFailed,
                LinkEvent::ConnectStarted,
                LinkEvent::ConnectSucceeded,
                LinkEvent::HandshakeSent,
            ];
            &&& spec_run(LinkState::Disconnected, run) == LinkState::Connected
            &&& spec_run_failures(LinkState::Disconnected, run) == 2
        }),
{
    let run = seq![
        LinkEvent::ConnectStarted,
        LinkEvent::ConnectFailed,
        LinkEvent::ConnectStarted,
        LinkEvent::ConnectFailed,
        LinkEvent::ConnectStarted,
        LinkEvent::ConnectSucceeded,
        LinkEvent::HandshakeSent,
    ];
    let r1 = seq![
        LinkEvent::ConnectFailed,
        LinkEvent::ConnectStarted,
        LinkEvent::ConnectFailed,
        LinkEvent::ConnectStarted,
        LinkEvent::ConnectSucceeded,
        LinkEvent::HandshakeSent,
    ];
    let r2 = seq![
        LinkEvent::ConnectStarted,
        LinkEvent::ConnectFailed,
        LinkEvent::ConnectStarted,
        LinkEvent::ConnectSucceeded,
        LinkEvent::HandshakeSent,
    ];
    let r3 = seq![
        LinkEvent::ConnectFailed,
        LinkEvent::ConnectStarted,
        LinkEvent::ConnectSucceeded,
        LinkEvent::HandshakeSent,
    ];
    let r4 = seq![
        LinkEvent::ConnectStarted,
        LinkEvent::ConnectSucceeded,
        LinkEvent::HandshakeSent,
    ];
    assert(run.skip(1) =~= r1);
    assert(r1.skip(1) =~= r2);
    assert(r2.skip(1) =~= r3);
    assert(r3.skip(1) =~= r4);
    assert(spec_run(LinkState::Disconnected, run) == spec_run(LinkState::Connecting, r1));
    assert(spec_run(LinkState::Connecting, r1) == spec_run(LinkState::Disconnected, r2));
    assert(spec_run(LinkState::Disconnected, r2) == spec_run(LinkState::Connecting, r3));
    assert(spec_run(LinkState::Connecting, r3) == spec_run(LinkState::Disconnected, r4));
    lemma_clean_attempt_connects(LinkState::Disconnected);
    assert(spec_run_failures(LinkState::Disconnected, run) == spec_run_failures(
        LinkState::Connecting,
        r1,
    ));
    assert(spec_run_failures(LinkState::Connecting, r1) == 1 + spec_run_failures(
        LinkState::Disconnected,
        r2,
    ));
    assert(spec_run_failures(LinkState::Disconnected, r2) == spec_run_failures(
        LinkState::Connecting,
        r3,
    ));
    assert(spec_run_failures(LinkState::Connecting, r3) == 1 + spec_run_failures(
        LinkState::Disconnected,
        r4,
    ));
}

} // verus!
