//! What holds of every step of the reactor, whatever the table holds and
//! whatever the caller reports.

use crate::reactor::{byte_limit, event_token, Action, Event, Phase, ReactorState, Source};
use crate::timer::expiration_of;
use crate::token::Token;
use crate::wire::{
    be_extend, be_value, lemma_be_extend_concat, lemma_reply_identifies_duration, reply_text,
    REQUEST_LEN,
};
use vstd::prelude::*;

verus! {

/// Bytes read after `filled` others stay below the limit of their joint
/// length.
pub proof fn lemma_be_extend_limit(filled: nat, partial: nat, bytes: Seq<u8>)
    requires
        filled + bytes.len() <= REQUEST_LEN,
        partial < byte_limit(filled),
    ensures
        be_extend(partial, bytes) < byte_limit(filled + bytes.len()),
    decreases bytes.len(),
{
    if bytes.len() > 0 {
        lemma_be_extend_limit(filled, partial, bytes.drop_last());
    }
}

/// A step leaves a well-formed state well formed.
pub proof fn lemma_step_preserves_wf(s: ReactorState, event: Event)
    requires
        s.wf(),
    ensures
        s.step(event).0.wf(),
{
    match event {
        Event::Received { token, data } => {
            if s.table.contains_key(token.0) {
                if let Phase::AwaitingRead { filled, partial } = s.table[token.0].phase {
                    let want = REQUEST_LEN - filled;
                    let taken = if data@.len() <= want {
                        data@
                    } else {
                        data@.take(want)
                    };
                    lemma_be_extend_limit(filled as nat, partial as nat, taken);
                }
            }
        },
        Event::Ready { token } => {
            if s.table.contains_key(token.0) {
                if let Phase::AwaitingTimer { duration_ms } = s.table[token.0].phase {
                    crate::wire::lemma_reply_shape(duration_ms);
                }
            }
        },
        _ => {},
    }
}

/// A connection has one entry, so one registration at a time: its socket
/// for reading, or its timer, or its socket for writing, and never two of
/// them. It holds a timer exactly while its timer is what is registered.
pub proof fn lemma_one_registration(s: ReactorState, a: Token, b: Token)
    requires
        s.wf(),
        s.table.contains_key(a.0),
        s.table.contains_key(b.0),
        s.table[a.0].conn == s.table[b.0].conn,
    ensures
        a == b,
        s.table[a.0].phase.registered() == Source::Timer <==> s.table[a.0].phase is AwaitingTimer,
{
}

/// A step touches no entry but that of the token it is about: what one
/// connection does or fails to do changes nothing for another.
pub proof fn lemma_step_isolated(s: ReactorState, event: Event, other: Token)
    requires
        s.wf(),
        s.table.contains_key(other.0),
        event_token(event) != Some(other),
    ensures
        s.step(event).0.table.contains_key(other.0),
        s.step(event).0.table[other.0] == s.table[other.0],
{
}

/// What a step asks for depends on the entry of the token it is about and
/// on the next token alone: no other connection, stalled or not, bears on
/// it.
pub proof fn lemma_step_independent(a: ReactorState, b: ReactorState, event: Event)
    requires
        a.next == b.next,
        event_token(event) matches Some(token) ==> {
            &&& a.table.contains_key(token.0) == b.table.contains_key(token.0)
            &&& a.table.contains_key(token.0) ==> a.table[token.0] == b.table[token.0]
        },
    ensures
        a.step(event).1 == b.step(event).1,
        a.step(event).0.next == b.step(event).0.next,
{
}

/// A connection's phases come in order and none is skipped. Over one step
/// a connection stays in its phase under its token, or moves to the next
/// phase under the fresh token; the duration, once known, stays with it.
/// The timer is armed only when a read completes the request, and the
/// write phase is entered only when the timer's own token is reported.
pub proof fn lemma_phase_order(s: ReactorState, event: Event, before: Token, after: Token)
    requires
        s.wf(),
        s.table.contains_key(before.0),
        s.step(event).0.table.contains_key(after.0),
        s.table[before.0].conn == s.step(event).0.table[after.0].conn,
    ensures
        ({
            let old_phase = s.table[before.0].phase;
            let new_phase = s.step(event).0.table[after.0].phase;
            &&& new_phase.rank() == old_phase.rank() || new_phase.rank() == old_phase.rank() + 1
            &&& new_phase.rank() == old_phase.rank() ==> after == before
            &&& new_phase.rank() == old_phase.rank() + 1 ==> after.0 == s.next && event_token(event)
                == Some(before)
            &&& old_phase.duration() is Some ==> new_phase.duration() == old_phase.duration()
            &&& new_phase.rank() == 1 && old_phase.rank() == 0 ==> event is Received
                && s.step(event).1 == (Action::ArmTimer {
                conn: s.table[before.0].conn,
                token: after,
                expiry: expiration_of(new_phase.duration().unwrap()),
            })
            &&& new_phase.rank() == 2 && old_phase.rank() == 1 ==> event is Ready
        }),
{
    if after.0 != s.next {
        assert(s.table.contains_key(after.0));
    }
}

/// The reply written on a connection is the reply to the duration that
/// this connection asked for, from where the last write left off; and the
/// connection is finished only when the whole reply is out.
pub proof fn lemma_reply_is_own(s: ReactorState, event: Event)
    requires
        s.wf(),
    ensures
        s.step(event).1 matches Action::Write { conn, token, duration_ms, sent } ==> {
            &&& s.step(event).0.table.contains_key(token.0)
            &&& s.step(event).0.table[token.0].conn == conn
            &&& s.step(event).0.table[token.0].phase == (Phase::AwaitingWrite {
                duration_ms,
                sent,
            })
            &&& s.table.contains_key(token.0)
            &&& s.table[token.0].conn == conn
            &&& s.table[token.0].phase.duration() == Some(duration_ms)
            &&& sent < reply_text(duration_ms).len()
        },
        s.step(event).1 matches Action::Finish { conn } ==> {
            &&& event matches Event::Wrote { token, count }
            &&& s.table.contains_key(token.0)
            &&& s.table[token.0].conn == conn
            &&& s.table[token.0].phase matches Phase::AwaitingWrite { duration_ms, sent }
            &&& sent + count >= reply_text(duration_ms).len()
            &&& !s.step(event).0.table.contains_key(token.0)
        },
{
}

/// Two connections that asked for different durations and wait to be
/// written at the same time are each handed the reply to their own
/// request, and the two replies differ.
pub proof fn lemma_no_cross_talk(s: ReactorState, a: Token, b: Token)
    requires
        s.wf(),
        s.table.contains_key(a.0),
        s.table.contains_key(b.0),
        s.table[a.0].phase is AwaitingWrite,
        s.table[b.0].phase is AwaitingWrite,
        s.table[a.0].phase.duration() != s.table[b.0].phase.duration(),
    ensures
        ({
            let da = s.table[a.0].phase->AwaitingWrite_duration_ms;
            let db = s.table[b.0].phase->AwaitingWrite_duration_ms;
            &&& s.ready(a) == (
                s,
                Action::Write {
                    conn: s.table[a.0].conn,
                    token: a,
                    duration_ms: da,
                    sent: s.table[a.0].phase->AwaitingWrite_sent,
                },
            )
            &&& s.ready(b) == (
                s,
                Action::Write {
                    conn: s.table[b.0].conn,
                    token: b,
                    duration_ms: db,
                    sent: s.table[b.0].phase->AwaitingWrite_sent,
                },
            )
            &&& s.table[a.0].conn != s.table[b.0].conn
            &&& reply_text(da) != reply_text(db)
        }),
{
    let da = s.table[a.0].phase->AwaitingWrite_duration_ms;
    let db = s.table[b.0].phase->AwaitingWrite_duration_ms;
    if reply_text(da) == reply_text(db) {
        lemma_reply_identifies_duration(da, db);
    }
}

/// A request means the same however it is split over reads: while a
/// token is left, taking in `first` and then `second` leaves the reactor
/// where taking in both at once does, and asks for the same.
pub proof fn lemma_received_in_parts(
    s: ReactorState,
    token: Token,
    first: Seq<u8>,
    second: Seq<u8>,
)
    requires
        s.wf(),
        s.table.contains_key(token.0),
        s.table[token.0].phase matches Phase::AwaitingRead { filled, .. } && 0 < first.len()
            < REQUEST_LEN - filled,
        second.len() > 0,
        !s.exhausted(),
    ensures
        s.received(token, first).0.received(token, second) == s.received(token, first + second),
{
    let mid = s.received(token, first).0;
    if let Phase::AwaitingRead { filled, partial } = s.table[token.0].phase {
        let want = REQUEST_LEN - filled;
        let left = want - first.len();
        let both = first + second;
        let taken_second = if second.len() <= left {
            second
        } else {
            second.take(left)
        };
        let taken_both = if both.len() <= want {
            both
        } else {
            both.take(want)
        };
        assert(taken_both =~= first + taken_second);
        lemma_be_extend_concat(partial as nat, first, taken_second);
        lemma_be_extend_limit(filled as nat, partial as nat, first);
        lemma_be_extend_limit(filled as nat, partial as nat, taken_both);
        let one = s.received(token, both);
        let two = mid.received(token, second);
        assert(one.0.table =~= two.0.table);
    }
}

/// A reply goes out the same however it is split over writes: writing
/// `first` bytes and then `second` leaves the reactor where writing both
/// at once does, and asks for the same.
pub proof fn lemma_wrote_in_parts(s: ReactorState, token: Token, first: usize, second: usize)
    requires
        s.wf(),
        s.table.contains_key(token.0),
        s.table[token.0].phase matches Phase::AwaitingWrite { duration_ms, sent } && 0 < first
            && sent + first < reply_text(duration_ms).len(),
        second > 0,
        first + second <= usize::MAX,
    ensures
        s.wrote(token, first).0.wrote(token, second) == s.wrote(
            token,
            (first + second) as usize,
        ),
{
    if let Phase::AwaitingWrite { duration_ms, sent } = s.table[token.0].phase {
        crate::wire::lemma_reply_shape(duration_ms);
        let one = s.wrote(token, (first + second) as usize);
        let two = s.wrote(token, first).0.wrote(token, second);
        assert(one.0.table =~= two.0.table);
    }
}

/// The whole life of a connection: a fresh connection that sends the four
/// bytes of a duration gets a timer armed for that duration; when the
/// timer's token is reported the socket waits to be written; when the
/// socket's token is reported the reply `done-{duration}ms` is written
/// from its first byte; and when all of it is out the connection is
/// finished and its entry gone.
pub proof fn lemma_request_to_reply(s: ReactorState, token: Token, request: Seq<u8>)
    requires
        s.wf(),
        s.table.contains_key(token.0),
        s.table[token.0].phase == (Phase::AwaitingRead { filled: 0, partial: 0 }),
        request.len() == REQUEST_LEN,
        s.next + 2 <= usize::MAX,
    ensures
        be_value(request) <= u32::MAX,
        ({
            let conn = s.table[token.0].conn;
            let ms = be_value(request) as u32;
            let timer = Token(s.next);
            let writer = Token((s.next + 1) as usize);
            let (s1, a1) = s.received(token, request);
            let (s2, a2) = s1.ready(timer);
            let (s3, a3) = s2.ready(writer);
            let (s4, a4) = s3.wrote(writer, reply_text(ms).len() as usize);
            &&& a1 == (Action::ArmTimer { conn, token: timer, expiry: expiration_of(ms) })
            &&& a2 == (Action::AwaitWritable { conn, token: writer })
            &&& a3 == (Action::Write { conn, token: writer, duration_ms: ms, sent: 0 })
            &&& a4 == (Action::Finish { conn })
            &&& s4.table == s.table.remove(token.0)
        }),
{
    lemma_be_extend_limit(0, 0, request);
    let ms = be_value(request) as u32;
    crate::wire::lemma_reply_shape(ms);
    let timer = Token(s.next);
    let writer = Token((s.next + 1) as usize);
    let (s1, a1) = s.received(token, request);
    let (s2, a2) = s1.ready(timer);
    let (s3, a3) = s2.ready(writer);
    let (s4, a4) = s3.wrote(writer, reply_text(ms).len() as usize);
    assert(s4.table =~= s.table.remove(token.0));
}

} // verus!
