//! The reactor's decisions: a dispatch table from token to connection, and
//! the step that takes it from one event to the next action.
//!
//! Each connection passes through three phases in order: its request is
//! read, its timer runs, its reply is written. A phase ends by retiring the
//! token it was registered under and taking a fresh one, so a notification
//! that arrives late finds no entry and is ignored. No step waits: a read
//! or a write that cannot finish keeps its progress in the table and is
//! taken up again at the next notification.

use crate::timer::{expiration_of, one_shot_expiration, TimerSpec};
use crate::token::{Token, TokenAllocator, FIRST_CLIENT_TOKEN, LISTENER_TOKEN};
use crate::wire::{be_extend, lemma_reply_shape, reply_len, reply_text, REQUEST_LEN};
use std::collections::HashMap;
use vstd::prelude::*;

verus! {

/// The number of connections that the table is sized for at the start. It
/// is a hint: the table grows beyond it.
pub const CLIENT_CAPACITY: usize = 1024;

/// Identifies a connection for as long as it lives, whatever token it is
/// registered under. The caller keeps the socket and the timer under it.
#[derive(Clone, Copy, Debug, PartialEq, Eq, Hash, Structural)]
pub struct ConnId(pub usize);

/// What a connection is waiting for.
#[derive(Clone, Copy, Debug, PartialEq, Eq, Structural)]
pub enum Phase {
    /// The socket is registered for reading. `filled` request bytes have
    /// arrived so far and denote `partial`.
    AwaitingRead { filled: usize, partial: u32 },
    /// The request is complete, the socket is registered for nothing and
    /// the timer is registered for reading.
    AwaitingTimer { duration_ms: u32 },
    /// The timer is gone and the socket is registered for writing. `sent`
    /// bytes of the reply have gone out so far.
    AwaitingWrite { duration_ms: u32, sent: usize },
}

/// What a connection has registered with the readiness facility.
#[derive(Clone, Copy, Debug, PartialEq, Eq, Structural)]
pub enum Source {
    /// Its socket, for reading or for writing.
    Socket,
    /// Its timer, for reading; the socket is registered for nothing.
    Timer,
}

/// One entry of the dispatch table.
#[derive(Clone, Copy, Debug, PartialEq, Eq, Structural)]
pub struct Connection {
    pub conn: ConnId,
    pub phase: Phase,
}

/// An error that ends the whole service.
#[derive(Clone, Copy, Debug, PartialEq, Eq, Structural)]
pub enum Fault {
    /// The listener failed for a reason other than having nothing to
    /// accept.
    ListenerFailed,
    /// A registration needs a fresh token and none is left.
    TokensExhausted,
}

/// What the caller reports to the reactor.
#[derive(Debug)]
pub enum Event {
    /// The readiness facility reported `token`.
    Ready { token: Token },
    /// The listener handed out a connection.
    Accepted,
    /// A read on the socket registered under `token` returned `data`. No
    /// data means that the peer has closed the stream.
    Received { token: Token, data: Vec<u8> },
    /// A write on the socket registered under `token` took `count` bytes.
    Wrote { token: Token, count: usize },
    /// The operation just tried would block.
    Blocked,
    /// The source registered under `token` failed, or could not be set up.
    Failed { token: Token },
}

/// What the reactor asks the caller to do next.
#[derive(Clone, Copy, Debug, PartialEq, Eq, Structural)]
pub enum Action {
    /// The event belongs to nothing that is registered: go on with the
    /// next one.
    Ignore,
    /// Nothing more can be done now: go on with the next event.
    Wait,
    /// Accept one connection from the listener and report the outcome.
    Accept,
    /// Register the socket just accepted for reading under `token`, keep it
    /// under `conn`, then accept again.
    Register { conn: ConnId, token: Token },
    /// Read at most `want` bytes from the socket of `conn` and report the
    /// outcome under `token`.
    Read { conn: ConnId, token: Token, want: usize },
    /// Deregister the socket of `conn`, arm a one-shot timer with `expiry`
    /// and register it for reading under `token`.
    ArmTimer { conn: ConnId, token: Token, expiry: TimerSpec },
    /// Deregister and release the timer of `conn` and register its socket
    /// for writing under `token`.
    AwaitWritable { conn: ConnId, token: Token },
    /// Write the reply to `duration_ms` from byte `sent` on to the socket
    /// of `conn` and report the outcome under `token`.
    Write { conn: ConnId, token: Token, duration_ms: u32, sent: usize },
    /// The reply is out: deregister and release the socket of `conn`.
    Finish { conn: ConnId },
    /// The connection failed: deregister what it has `registered`, and
    /// release its socket and its timer, if it has one.
    Discard { conn: ConnId, registered: Source },
    /// Stop the service.
    Abort { fault: Fault },
}

/// The largest number that `filled` request bytes can denote, plus one.
pub open spec fn byte_limit(filled: nat) -> nat {
    if filled == 0 {
        1
    } else if filled == 1 {
        256
    } else if filled == 2 {
        65536
    } else if filled == 3 {
        16777216
    } else {
        4294967296
    }
}

impl Phase {
    /// The progress recorded is within the phase: an incomplete request, or
    /// a reply not yet written out.
    pub open spec fn wf(self) -> bool {
        match self {
            Phase::AwaitingRead { filled, partial } => filled < REQUEST_LEN && partial
                < byte_limit(filled as nat),
            Phase::AwaitingTimer { .. } => true,
            Phase::AwaitingWrite { duration_ms, sent } => sent < reply_text(duration_ms).len(),
        }
    }

    /// The phase's place in a connection's life.
    pub open spec fn rank(self) -> nat {
        match self {
            Phase::AwaitingRead { .. } => 0,
            Phase::AwaitingTimer { .. } => 1,
            Phase::AwaitingWrite { .. } => 2,
        }
    }

    /// The requested duration, once the request is complete.
    pub open spec fn duration(self) -> Option<u32> {
        match self {
            Phase::AwaitingRead { .. } => None,
            Phase::AwaitingTimer { duration_ms } => Some(duration_ms),
            Phase::AwaitingWrite { duration_ms, .. } => Some(duration_ms),
        }
    }

    /// What the connection has registered in this phase: its socket for
    /// one interest, or its timer, and never both. The timer exists only
    /// while it is what is registered.
    pub open spec fn registered(self) -> Source {
        match self {
            Phase::AwaitingRead { .. } => Source::Socket,
            Phase::AwaitingTimer { .. } => Source::Timer,
            Phase::AwaitingWrite { .. } => Source::Socket,
        }
    }

    /// What the connection has registered in this phase.
    pub fn source(&self) -> (source: Source)
        ensures
            source == self.registered(),
    {
        match self {
            Phase::AwaitingRead { .. } => Source::Socket,
            Phase::AwaitingTimer { .. } => Source::Timer,
            Phase::AwaitingWrite { .. } => Source::Socket,
        }
    }
}

/// The reactor as a value: the next token to issue, and the dispatch table
/// keyed by token.
pub struct ReactorState {
    pub next: usize,
    pub table: Map<usize, Connection>,
}

impl ReactorState {
    /// Every entry sits under a client token that was issued, belongs to
    /// a connection of its own and records progress within its phase.
    pub open spec fn wf(self) -> bool {
        &&& self.next >= FIRST_CLIENT_TOKEN
        &&& self.table.dom().finite()
        &&& forall|t: usize| #[trigger]
            self.table.contains_key(t) ==> {
                &&& FIRST_CLIENT_TOKEN <= self.table[t].conn.0 <= t < self.next
                &&& self.table[t].phase.wf()
            }
        &&& forall|a: usize, b: usize|
            #![trigger self.table.contains_key(a), self.table.contains_key(b)]
            self.table.contains_key(a) && self.table.contains_key(b) && a != b
                ==> self.table[a].conn != self.table[b].conn
    }

    /// No token is left for a new registration.
    pub open spec fn exhausted(self) -> bool {
        self.next == usize::MAX
    }

    /// The entry under `token` leaves the table and comes back under the
    /// next fresh token in `phase`.
    pub open spec fn advance(self, token: Token, phase: Phase) -> ReactorState {
        ReactorState {
            next: (self.next + 1) as usize,
            table: self.table.remove(token.0).insert(
                self.next,
                Connection { conn: self.table[token.0].conn, phase },
            ),
        }
    }

    /// The entry under `token` leaves the table.
    pub open spec fn without(self, token: Token) -> ReactorState {
        ReactorState { next: self.next, table: self.table.remove(token.0) }
    }

    /// The entry under `token` stays where it is, in `phase`.
    pub open spec fn with_phase(self, token: Token, phase: Phase) -> ReactorState {
        ReactorState {
            next: self.next,
            table: self.table.insert(
                token.0,
                Connection { conn: self.table[token.0].conn, phase },
            ),
        }
    }

    /// The listener handed out a connection: it enters the table under a
    /// fresh token, which also names it from now on.
    pub open spec fn accepted(self) -> (ReactorState, Action) {
        if self.exhausted() {
            (self, Action::Abort { fault: Fault::TokensExhausted })
        } else {
            let conn = ConnId(self.next);
            (
                ReactorState {
                    next: (self.next + 1) as usize,
                    table: self.table.insert(
                        self.next,
                        Connection { conn, phase: Phase::AwaitingRead { filled: 0, partial: 0 } },
                    ),
                },
                Action::Register { conn, token: Token(self.next) },
            )
        }
    }

    /// The readiness facility reported `token`.
    pub open spec fn ready(self, token: Token) -> (ReactorState, Action) {
        if token.0 == LISTENER_TOKEN {
            (self, Action::Accept)
        } else if !self.table.contains_key(token.0) {
            (self, Action::Ignore)
        } else {
            let conn = self.table[token.0].conn;
            match self.table[token.0].phase {
                Phase::AwaitingRead { filled, .. } => (
                    self,
                    Action::Read { conn, token, want: (REQUEST_LEN - filled) as usize },
                ),
                Phase::AwaitingTimer { duration_ms } => if self.exhausted() {
                    (self, Action::Abort { fault: Fault::TokensExhausted })
                } else {
                    (
                        self.advance(token, Phase::AwaitingWrite { duration_ms, sent: 0 }),
                        Action::AwaitWritable { conn, token: Token(self.next) },
                    )
                },
                Phase::AwaitingWrite { duration_ms, sent } => (
                    self,
                    Action::Write { conn, token, duration_ms, sent },
                ),
            }
        }
    }

    /// A read under `token` returned `data`. The bytes that the request
    /// still lacks are taken from its front; with the fourth the duration
    /// is known and the timer is armed.
    pub open spec fn received(self, token: Token, data: Seq<u8>) -> (ReactorState, Action) {
        if !self.table.contains_key(token.0) {
            (self, Action::Ignore)
        } else {
            let conn = self.table[token.0].conn;
            match self.table[token.0].phase {
                Phase::AwaitingRead { filled, partial } => {
                    let want = REQUEST_LEN - filled;
                    let taken = if data.len() <= want {
                        data
                    } else {
                        data.take(want)
                    };
                    let value = be_extend(partial as nat, taken) as u32;
                    if data.len() == 0 {
                        (self.without(token), Action::Discard { conn, registered: Source::Socket })
                    } else if data.len() < want {
                        (
                            self.with_phase(
                                token,
                                Phase::AwaitingRead {
                                    filled: (filled + data.len()) as usize,
                                    partial: value,
                                },
                            ),
                            Action::Read { conn, token, want: (want - data.len()) as usize },
                        )
                    } else if self.exhausted() {
                        (self, Action::Abort { fault: Fault::TokensExhausted })
                    } else {
                        (
                            self.advance(token, Phase::AwaitingTimer { duration_ms: value }),
                            Action::ArmTimer {
                                conn,
                                token: Token(self.next),
                                expiry: expiration_of(value),
                            },
                        )
                    }
                },
                _ => (self, Action::Ignore),
            }
        }
    }

    /// A write under `token` took `count` bytes. With the last byte of the
    /// reply the connection is finished; a write that took nothing has
    /// failed.
    pub open spec fn wrote(self, token: Token, count: usize) -> (ReactorState, Action) {
        if !self.table.contains_key(token.0) {
            (self, Action::Ignore)
        } else {
            let conn = self.table[token.0].conn;
            match self.table[token.0].phase {
                Phase::AwaitingWrite { duration_ms, sent } => {
                    if count == 0 {
                        (self.without(token), Action::Discard { conn, registered: Source::Socket })
                    } else if sent + count >= reply_text(duration_ms).len() {
                        (self.without(token), Action::Finish { conn })
                    } else {
                        (
                            self.with_phase(
                                token,
                                Phase::AwaitingWrite { duration_ms, sent: (sent + count) as usize },
                            ),
                            Action::Write {
                                conn,
                                token,
                                duration_ms,
                                sent: (sent + count) as usize,
                            },
                        )
                    }
                },
                _ => (self, Action::Ignore),
            }
        }
    }

    /// The source under `token` failed. A failed listener ends the
    /// service; any other failure ends one connection.
    pub open spec fn failed(self, token: Token) -> (ReactorState, Action) {
        if token.0 == LISTENER_TOKEN {
            (self, Action::Abort { fault: Fault::ListenerFailed })
        } else if !self.table.contains_key(token.0) {
            (self, Action::Ignore)
        } else {
            (
                self.without(token),
                Action::Discard {
                    conn: self.table[token.0].conn,
                    registered: self.table[token.0].phase.registered(),
                },
            )
        }
    }

    /// The state after `event`, and what the caller is to do.
    pub open spec fn step(self, event: Event) -> (ReactorState, Action) {
        match event {
            Event::Ready { token } => self.ready(token),
            Event::Accepted => self.accepted(),
            Event::Received { token, data } => self.received(token, data@),
            Event::Wrote { token, count } => self.wrote(token, count),
            Event::Blocked => (self, Action::Wait),
            Event::Failed { token } => self.failed(token),
        }
    }
}

/// The token that an event is about, if it is about one.
pub open spec fn event_token(event: Event) -> Option<Token> {
    match event {
        Event::Ready { token } => Some(token),
        Event::Received { token, .. } => Some(token),
        Event::Wrote { token, .. } => Some(token),
        Event::Failed { token } => Some(token),
        Event::Accepted => None,
        Event::Blocked => None,
    }
}

/// The dispatch table and the token allocator, as the steps work on them.
struct Core {
    tokens: TokenAllocator,
    table: HashMap<usize, Connection>,
}

impl View for Core {
    type V = ReactorState;

    closed spec fn view(&self) -> ReactorState {
        ReactorState { next: self.tokens.next(), table: self.table@ }
    }
}

/// The dispatch table and the token allocator of one service. Its state
/// is well formed at all times.
pub struct Reactor {
    core: Core,
}

impl View for Reactor {
    type V = ReactorState;

    closed spec fn view(&self) -> ReactorState {
        self.core@
    }
}

impl Reactor {
    /// The reactor's state is well formed. This holds of every reactor
    /// there is.
    #[verifier::type_invariant]
    pub open spec fn wf(&self) -> bool {
        self@.wf()
    }

    /// A reactor with no connection and no token issued.
    pub fn new() -> (reactor: Reactor)
        ensures
            reactor@.wf(),
            reactor@.next == FIRST_CLIENT_TOKEN,
            reactor@.table == Map::<usize, Connection>::empty(),
    {
        Reactor::with_tokens(TokenAllocator::new())
    }

    /// A reactor with no connection that takes its tokens from `tokens`.
    pub fn with_tokens(tokens: TokenAllocator) -> (reactor: Reactor)
        ensures
            reactor@.wf(),
            reactor@.next == tokens.next(),
            reactor@.table == Map::<usize, Connection>::empty(),
    {
        proof {
            use_type_invariant(&tokens);
        }
        Reactor { core: Core { tokens, table: HashMap::with_capacity(CLIENT_CAPACITY) } }
    }

    /// The number of connections in the table.
    pub fn len(&self) -> (n: usize)
        ensures
            n == self@.table.len(),
    {
        self.core.table.len()
    }

    /// The entry registered under `token`, if there is one.
    pub fn lookup(&self, token: Token) -> (entry: Option<Connection>)
        ensures
            entry == if self@.table.contains_key(token.0) {
                Some(self@.table[token.0])
            } else {
                None
            },
    {
        self.core.lookup(token)
    }

    /// Takes the reactor from `event` to the next action.
    pub fn step(&mut self, event: Event) -> (action: Action)
        ensures
            old(self)@.wf(),
            final(self)@.wf(),
            (final(self)@, action) == old(self)@.step(event),
    {
        proof {
            use_type_invariant(&*self);
        }
        let mut core = Core { tokens: self.core.tokens, table: HashMap::new() };
        std::mem::swap(&mut core, &mut self.core);
        let action = core.step(event);
        self.core = core;
        action
    }
}

impl Core {
    spec fn wf(&self) -> bool {
        self@.wf()
    }

    fn lookup(&self, token: Token) -> (entry: Option<Connection>)
        ensures
            entry == if self@.table.contains_key(token.0) {
                Some(self@.table[token.0])
            } else {
                None
            },
    {
        match self.table.get(&token.0) {
            Some(entry) => Some(*entry),
            None => None,
        }
    }

    fn step(&mut self, event: Event) -> (action: Action)
        requires
            old(self).wf(),
        ensures
            final(self).wf(),
            (final(self)@, action) == old(self)@.step(event),
    {
        match event {
            Event::Ready { token } => self.on_ready(token),
            Event::Accepted => self.on_accepted(),
            Event::Received { token, data } => self.on_received(token, &data),
            Event::Wrote { token, count } => self.on_wrote(token, count),
            Event::Blocked => Action::Wait,
            Event::Failed { token } => self.on_failed(token),
        }
    }

    /// Puts `entry` under `token`, in place of what was there.
    fn put(&mut self, token: Token, entry: Connection)
        requires
            old(self).wf(),
            entry.phase.wf(),
            FIRST_CLIENT_TOKEN <= entry.conn.0 <= token.0 < old(self)@.next,
            forall|t: usize| #[trigger]
                old(self)@.table.contains_key(t) && t != token.0 ==> old(self)@.table[t].conn
                    != entry.conn,
        ensures
            final(self).wf(),
            final(self)@.next == old(self)@.next,
            final(self)@.table == old(self)@.table.insert(token.0, entry),
    {
        self.table.insert(token.0, entry);
    }

    /// Takes the entry under `token` out of the table.
    fn discard(&mut self, token: Token)
        requires
            old(self).wf(),
        ensures
            final(self).wf(),
            final(self)@ == old(self)@.without(token),
    {
        self.table.remove(&token.0);
        assert(self@.table =~= old(self)@.without(token).table);
    }

    /// Moves `entry`, which sits under `token`, to the next fresh token in
    /// `phase`; `None` where no token is left.
    fn advance(&mut self, token: Token, entry: Connection, phase: Phase) -> (fresh: Option<Token>)
        requires
            old(self).wf(),
            old(self)@.table.contains_key(token.0),
            old(self)@.table[token.0] == entry,
            phase.wf(),
        ensures
            final(self).wf(),
            old(self)@.exhausted() ==> fresh.is_none() && final(self)@ == old(self)@,
            !old(self)@.exhausted() ==> fresh == Some(Token(old(self)@.next)) && final(self)@
                == old(self)@.advance(token, phase),
    {
        match self.tokens.next_token() {
            None => None,
            Some(fresh) => {
                self.discard(token);
                self.put(fresh, Connection { conn: entry.conn, phase });
                assert(self@.table =~= old(self)@.advance(token, phase).table);
                Some(fresh)
            },
        }
    }

    fn on_accepted(&mut self) -> (action: Action)
        requires
            old(self).wf(),
        ensures
            final(self).wf(),
            (final(self)@, action) == old(self)@.accepted(),
    {
        match self.tokens.next_token() {
            None => Action::Abort { fault: Fault::TokensExhausted },
            Some(token) => {
                let conn = ConnId(token.0);
                let phase = Phase::AwaitingRead { filled: 0, partial: 0 };
                self.put(token, Connection { conn, phase });
                Action::Register { conn, token }
            },
        }
    }

    fn on_ready(&mut self, token: Token) -> (action: Action)
        requires
            old(self).wf(),
        ensures
            final(self).wf(),
            (final(self)@, action) == old(self)@.ready(token),
    {
        if token.is_listener() {
            return Action::Accept;
        }
        let entry = match self.lookup(token) {
            Some(entry) => entry,
            None => {
                return Action::Ignore;
            },
        };
        let conn = entry.conn;
        match entry.phase {
            Phase::AwaitingRead { filled, partial: _ } => Action::Read {
                conn,
                token,
                want: REQUEST_LEN - filled,
            },
            Phase::AwaitingTimer { duration_ms } => {
                proof {
                    lemma_reply_shape(duration_ms);
                }
                match self.advance(token, entry, Phase::AwaitingWrite { duration_ms, sent: 0 }) {
                    Some(fresh) => Action::AwaitWritable { conn, token: fresh },
                    None => Action::Abort { fault: Fault::TokensExhausted },
                }
            },
            Phase::AwaitingWrite { duration_ms, sent } => Action::Write {
                conn,
                token,
                duration_ms,
                sent,
            },
        }
    }

    fn on_received(&mut self, token: Token, data: &Vec<u8>) -> (action: Action)
        requires
            old(self).wf(),
        ensures
            final(self).wf(),
            (final(self)@, action) == old(self)@.received(token, data@),
    {
        let entry = match self.lookup(token) {
            Some(entry) => entry,
            None => {
                return Action::Ignore;
            },
        };
        let conn = entry.conn;
        match entry.phase {
            Phase::AwaitingRead { filled, partial } => {
                let want: usize = REQUEST_LEN - filled;
                if data.len() == 0 {
                    self.discard(token);
                    return Action::Discard { conn, registered: Source::Socket };
                }
                let taking: usize = if data.len() <= want {
                    data.len()
                } else {
                    want
                };
                let value = absorb(filled, partial, data, taking);
                assert(data@.len() <= want ==> data@.take(taking as int) =~= data@);
                if data.len() < want {
                    let phase = Phase::AwaitingRead { filled: filled + data.len(), partial: value };
                    self.put(token, Connection { conn, phase });
                    Action::Read { conn, token, want: want - data.len() }
                } else {
                    match self.advance(token, entry, Phase::AwaitingTimer { duration_ms: value }) {
                        Some(fresh) => Action::ArmTimer {
                            conn,
                            token: fresh,
                            expiry: one_shot_expiration(value),
                        },
                        None => Action::Abort { fault: Fault::TokensExhausted },
                    }
                }
            },
            _ => Action::Ignore,
        }
    }

    fn on_wrote(&mut self, token: Token, count: usize) -> (action: Action)
        requires
            old(self).wf(),
        ensures
            final(self).wf(),
            (final(self)@, action) == old(self)@.wrote(token, count),
    {
        let entry = match self.lookup(token) {
            Some(entry) => entry,
            None => {
                return Action::Ignore;
            },
        };
        let conn = entry.conn;
        match entry.phase {
            Phase::AwaitingWrite { duration_ms, sent } => {
                let left: usize = reply_len(duration_ms) - sent;
                if count == 0 {
                    self.discard(token);
                    Action::Discard { conn, registered: Source::Socket }
                } else if count >= left {
                    self.discard(token);
                    Action::Finish { conn }
                } else {
                    let phase = Phase::AwaitingWrite { duration_ms, sent: sent + count };
                    self.put(token, Connection { conn, phase });
                    Action::Write { conn, token, duration_ms, sent: sent + count }
                }
            },
            _ => Action::Ignore,
        }
    }

    fn on_failed(&mut self, token: Token) -> (action: Action)
        requires
            old(self).wf(),
        ensures
            final(self).wf(),
            (final(self)@, action) == old(self)@.failed(token),
    {
        if token.is_listener() {
            return Action::Abort { fault: Fault::ListenerFailed };
        }
        match self.lookup(token) {
            Some(entry) => {
                self.discard(token);
                Action::Discard { conn: entry.conn, registered: entry.phase.source() }
            },
            None => Action::Ignore,
        }
    }
}

/// Reads the first `taking` bytes of `data` big-endian after the `filled`
/// bytes that denote `partial`.
fn absorb(filled: usize, partial: u32, data: &Vec<u8>, taking: usize) -> (value: u32)
    requires
        filled + taking <= REQUEST_LEN,
        taking <= data.len(),
        partial < byte_limit(filled as nat),
    ensures
        value == be_extend(partial as nat, data@.take(taking as int)),
        value < byte_limit((filled + taking) as nat),
{
    let mut value: u32 = partial;
    let mut i: usize = 0;
    assert(data@.take(0).len() == 0);
    while i < taking
        invariant
            i <= taking <= data.len(),
            filled + taking <= REQUEST_LEN,
            value == be_extend(partial as nat, data@.take(i as int)),
            value < byte_limit((filled + i) as nat),
        decreases taking - i,
    {
        assert(data@.take(i + 1).drop_last() =~= data@.take(i as int));
        assert(data@.take(i + 1).last() == data@[i as int]);
        value = value * 256 + data[i] as u32;
        i = i + 1;
    }
    value
}

} // verus!
