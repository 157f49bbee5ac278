use sleep_srv::reactor::{Action, ConnId, Connection, Event, Fault, Phase, Reactor, Source};
use sleep_srv::timer::TimerSpec;
use sleep_srv::token::{Token, TokenAllocator};
use sleep_srv::wire::{encode_duration, reply_bytes, reply_tail};

/// Accepts one connection and returns its id and read token.
fn accept(reactor: &mut Reactor) -> (ConnId, Token) {
    match reactor.step(Event::Accepted) {
        Action::Register { conn, token } => (conn, token),
        other => panic!("unexpected action {:?}", other),
    }
}

/// Sends a whole request and returns the timer's token and expiration.
fn request(reactor: &mut Reactor, token: Token, ms: u32) -> (Token, TimerSpec) {
    let data = encode_duration(ms).to_vec();
    match reactor.step(Event::Received { token, data }) {
        Action::ArmTimer { token, expiry, .. } => (token, expiry),
        other => panic!("unexpected action {:?}", other),
    }
}

/// Fires a timer, then writes the reply in one piece; returns what went
/// out on the socket.
fn fire_and_reply(reactor: &mut Reactor, conn: ConnId, timer: Token) -> Vec<u8> {
    let writer = match reactor.step(Event::Ready { token: timer }) {
        Action::AwaitWritable { conn: c, token } => {
            assert_eq!(c, conn);
            token
        }
        other => panic!("unexpected action {:?}", other),
    };
    let out = match reactor.step(Event::Ready { token: writer }) {
        Action::Write { conn: c, token, duration_ms, sent } => {
            assert_eq!(c, conn);
            assert_eq!(token, writer);
            reply_tail(duration_ms, sent)
        }
        other => panic!("unexpected action {:?}", other),
    };
    assert_eq!(
        reactor.step(Event::Wrote { token: writer, count: out.len() }),
        Action::Finish { conn }
    );
    out
}

#[test]
fn new_reactor_is_empty() {
    let reactor = Reactor::new();
    assert_eq!(reactor.len(), 0);
    assert_eq!(reactor.lookup(Token(10000)), None);
}

#[test]
fn listener_readiness_asks_to_accept() {
    let mut reactor = Reactor::new();
    assert_eq!(reactor.step(Event::Ready { token: Token::listener() }), Action::Accept);
    assert_eq!(reactor.len(), 0);
}

#[test]
fn accepted_connection_awaits_read() {
    let mut reactor = Reactor::new();
    let action = reactor.step(Event::Accepted);
    assert_eq!(action, Action::Register { conn: ConnId(10000), token: Token(10000) });
    assert_eq!(
        reactor.lookup(Token(10000)),
        Some(Connection {
            conn: ConnId(10000),
            phase: Phase::AwaitingRead { filled: 0, partial: 0 }
        })
    );
    let action = reactor.step(Event::Accepted);
    assert_eq!(action, Action::Register { conn: ConnId(10001), token: Token(10001) });
    assert_eq!(reactor.len(), 2);
}

#[test]
fn accept_would_block_returns_to_polling() {
    let mut reactor = Reactor::new();
    accept(&mut reactor);
    assert_eq!(reactor.step(Event::Blocked), Action::Wait);
    assert_eq!(reactor.len(), 1);
}

#[test]
fn listener_failure_stops_the_service() {
    let mut reactor = Reactor::new();
    accept(&mut reactor);
    assert_eq!(
        reactor.step(Event::Failed { token: Token::listener() }),
        Action::Abort { fault: Fault::ListenerFailed }
    );
    assert_eq!(reactor.len(), 1);
}

#[test]
fn stale_token_is_ignored() {
    let mut reactor = Reactor::new();
    let (_, token) = accept(&mut reactor);
    assert_eq!(reactor.step(Event::Ready { token: Token(9999) }), Action::Ignore);
    assert_eq!(reactor.step(Event::Ready { token: Token(token.0 + 1) }), Action::Ignore);
    assert_eq!(
        reactor.step(Event::Received { token: Token(77), data: vec![1, 2, 3, 4] }),
        Action::Ignore
    );
    assert_eq!(reactor.step(Event::Wrote { token: Token(77), count: 3 }), Action::Ignore);
    assert_eq!(reactor.step(Event::Failed { token: Token(77) }), Action::Ignore);
    assert_eq!(reactor.len(), 1);
}

#[test]
fn retired_read_token_is_ignored() {
    let mut reactor = Reactor::new();
    let (_, token) = accept(&mut reactor);
    request(&mut reactor, token, 200);
    assert_eq!(reactor.step(Event::Ready { token }), Action::Ignore);
    assert_eq!(reactor.lookup(token), None);
}

#[test]
fn zero_duration_is_answered_without_delay() {
    let mut reactor = Reactor::new();
    let (conn, token) = accept(&mut reactor);
    assert_eq!(reactor.step(Event::Ready { token }), Action::Read { conn, token, want: 4 });
    let (timer, expiry) = request(&mut reactor, token, 0);
    assert_eq!(expiry, TimerSpec { secs: 0, nanos: 1 });
    let out = fire_and_reply(&mut reactor, conn, timer);
    assert_eq!(out, b"done-0ms".to_vec());
    assert_eq!(reactor.len(), 0);
}

#[test]
fn two_hundred_milliseconds_wait_for_the_timer() {
    let mut reactor = Reactor::new();
    let (conn, token) = accept(&mut reactor);
    let action = reactor.step(Event::Received { token, data: vec![0x00, 0x00, 0x00, 0xC8] });
    assert_eq!(
        action,
        Action::ArmTimer {
            conn,
            token: Token(10001),
            expiry: TimerSpec { secs: 0, nanos: 200_000_000 }
        }
    );
    assert_eq!(
        reactor.lookup(Token(10001)),
        Some(Connection { conn, phase: Phase::AwaitingTimer { duration_ms: 200 } })
    );
    // Until the timer is reported nothing is written.
    assert_eq!(reactor.step(Event::Ready { token }), Action::Ignore);
    assert_eq!(reactor.step(Event::Wrote { token: Token(10001), count: 10 }), Action::Ignore);
    assert_eq!(
        reactor.step(Event::Ready { token: Token(10001) }),
        Action::AwaitWritable { conn, token: Token(10002) }
    );
    assert_eq!(
        reactor.step(Event::Ready { token: Token(10002) }),
        Action::Write { conn, token: Token(10002), duration_ms: 200, sent: 0 }
    );
    assert_eq!(reply_tail(200, 0), b"done-200ms".to_vec());
    assert_eq!(
        reactor.step(Event::Wrote { token: Token(10002), count: 10 }),
        Action::Finish { conn }
    );
    assert_eq!(reactor.len(), 0);
}

#[test]
fn ten_clients_in_reverse_order_finish_by_duration() {
    let mut reactor = Reactor::new();
    let durations: Vec<u32> = (1..11u32).rev().map(|x| x * 200).collect();
    assert_eq!(durations[0], 2000);
    assert_eq!(durations[9], 200);

    let mut clients = Vec::new();
    for _ in &durations {
        clients.push(accept(&mut reactor));
    }
    assert_eq!(reactor.step(Event::Blocked), Action::Wait);

    // Each client's request arrives; each gets a timer of its own.
    let mut timers = Vec::new();
    for (i, ms) in durations.iter().enumerate() {
        let (conn, token) = clients[i];
        let (timer, expiry) = request(&mut reactor, token, *ms);
        timers.push((expiry.secs, expiry.nanos, conn, timer, *ms));
    }
    assert_eq!(reactor.len(), 10);

    // The timers fire in the order of their expirations.
    timers.sort_by_key(|t| (t.0, t.1));
    let mut finished = Vec::new();
    for (_, _, conn, timer, ms) in timers {
        let out = fire_and_reply(&mut reactor, conn, timer);
        assert_eq!(out, format!("done-{}ms", ms).into_bytes());
        finished.push(ms);
    }
    assert_eq!(finished, vec![200, 400, 600, 800, 1000, 1200, 1400, 1600, 1800, 2000]);
    assert_eq!(reactor.len(), 0);
}

#[test]
fn disconnect_after_two_bytes_is_discarded() {
    let mut reactor = Reactor::new();
    let (stalled, stalled_token) = accept(&mut reactor);
    let (other, other_token) = accept(&mut reactor);

    assert_eq!(
        reactor.step(Event::Received { token: stalled_token, data: vec![0x00, 0x00] }),
        Action::Read { conn: stalled, token: stalled_token, want: 2 }
    );
    assert_eq!(reactor.step(Event::Blocked), Action::Wait);

    // The other connection is served while the first one stalls.
    let (timer, _) = request(&mut reactor, other_token, 400);
    let out = fire_and_reply(&mut reactor, other, timer);
    assert_eq!(out, b"done-400ms".to_vec());

    // The peer closes: the read returns no data.
    assert_eq!(
        reactor.step(Event::Ready { token: stalled_token }),
        Action::Read { conn: stalled, token: stalled_token, want: 2 }
    );
    assert_eq!(
        reactor.step(Event::Received { token: stalled_token, data: vec![] }),
        Action::Discard { conn: stalled, registered: Source::Socket }
    );
    assert_eq!(reactor.len(), 0);
    assert_eq!(reactor.step(Event::Ready { token: stalled_token }), Action::Ignore);
}

#[test]
fn request_split_over_reads() {
    let mut reactor = Reactor::new();
    let (conn, token) = accept(&mut reactor);
    assert_eq!(
        reactor.step(Event::Received { token, data: vec![0x12] }),
        Action::Read { conn, token, want: 3 }
    );
    assert_eq!(
        reactor.lookup(token),
        Some(Connection { conn, phase: Phase::AwaitingRead { filled: 1, partial: 0x12 } })
    );
    assert_eq!(
        reactor.step(Event::Received { token, data: vec![0x34, 0x56] }),
        Action::Read { conn, token, want: 1 }
    );
    assert_eq!(
        reactor.lookup(token),
        Some(Connection { conn, phase: Phase::AwaitingRead { filled: 3, partial: 0x12_3456 } })
    );
    let action = reactor.step(Event::Received { token, data: vec![0x78] });
    assert_eq!(
        action,
        Action::ArmTimer {
            conn,
            token: Token(10001),
            expiry: TimerSpec { secs: 305_419, nanos: 896_000_000 }
        }
    );
    assert_eq!(
        reactor.lookup(Token(10001)),
        Some(Connection { conn, phase: Phase::AwaitingTimer { duration_ms: 0x1234_5678 } })
    );
}

#[test]
fn split_request_equals_whole_request() {
    for cut in 1..4usize {
        let bytes = encode_duration(123_456);
        let mut whole = Reactor::new();
        let (_, token) = accept(&mut whole);
        let at_once = whole.step(Event::Received { token, data: bytes.to_vec() });

        let mut parts = Reactor::new();
        let (_, token) = accept(&mut parts);
        parts.step(Event::Received { token, data: bytes[..cut].to_vec() });
        let in_two = parts.step(Event::Received { token, data: bytes[cut..].to_vec() });

        assert_eq!(at_once, in_two);
        assert_eq!(whole.lookup(Token(10001)), parts.lookup(Token(10001)));
        assert_eq!(whole.len(), parts.len());
    }
}

#[test]
fn bytes_beyond_the_request_are_not_taken() {
    let mut reactor = Reactor::new();
    let (conn, token) = accept(&mut reactor);
    let action = reactor.step(Event::Received { token, data: vec![0, 0, 0, 5, 9, 9] });
    assert_eq!(
        action,
        Action::ArmTimer {
            conn,
            token: Token(10001),
            expiry: TimerSpec { secs: 0, nanos: 5_000_000 }
        }
    );
}

#[test]
fn read_would_block_keeps_progress() {
    let mut reactor = Reactor::new();
    let (conn, token) = accept(&mut reactor);
    reactor.step(Event::Received { token, data: vec![0, 0, 1] });
    assert_eq!(reactor.step(Event::Blocked), Action::Wait);
    assert_eq!(
        reactor.lookup(token),
        Some(Connection { conn, phase: Phase::AwaitingRead { filled: 3, partial: 1 } })
    );
    assert_eq!(reactor.step(Event::Ready { token }), Action::Read { conn, token, want: 1 });
}

#[test]
fn reply_split_over_writes() {
    let mut reactor = Reactor::new();
    let (conn, token) = accept(&mut reactor);
    let (timer, _) = request(&mut reactor, token, 1800);
    let writer = match reactor.step(Event::Ready { token: timer }) {
        Action::AwaitWritable { token, .. } => token,
        other => panic!("unexpected action {:?}", other),
    };
    let mut out = Vec::new();
    let mut action = reactor.step(Event::Ready { token: writer });
    let mut rounds = 0;
    while let Action::Write { conn: c, token, duration_ms, sent } = action {
        assert_eq!(c, conn);
        assert_eq!(sent, out.len());
        let rest = reply_tail(duration_ms, sent);
        let count = rest.len().min(4);
        out.extend_from_slice(&rest[..count]);
        action = reactor.step(Event::Wrote { token, count });
        rounds += 1;
    }
    assert_eq!(action, Action::Finish { conn });
    assert_eq!(rounds, 3);
    assert_eq!(out, b"done-1800ms".to_vec());
    assert_eq!(out, reply_bytes(1800));
    assert_eq!(reactor.len(), 0);
}

#[test]
fn write_would_block_keeps_progress() {
    let mut reactor = Reactor::new();
    let (conn, token) = accept(&mut reactor);
    let (timer, _) = request(&mut reactor, token, 200);
    reactor.step(Event::Ready { token: timer });
    let writer = Token(10002);
    assert_eq!(
        reactor.step(Event::Wrote { token: writer, count: 6 }),
        Action::Write { conn, token: writer, duration_ms: 200, sent: 6 }
    );
    assert_eq!(reactor.step(Event::Blocked), Action::Wait);
    assert_eq!(
        reactor.lookup(writer),
        Some(Connection { conn, phase: Phase::AwaitingWrite { duration_ms: 200, sent: 6 } })
    );
    assert_eq!(
        reactor.step(Event::Ready { token: writer }),
        Action::Write { conn, token: writer, duration_ms: 200, sent: 6 }
    );
    assert_eq!(reply_tail(200, 6), b"00ms".to_vec());
    assert_eq!(reactor.step(Event::Wrote { token: writer, count: 4 }), Action::Finish { conn });
}

#[test]
fn write_that_takes_nothing_discards() {
    let mut reactor = Reactor::new();
    let (conn, token) = accept(&mut reactor);
    let (timer, _) = request(&mut reactor, token, 200);
    reactor.step(Event::Ready { token: timer });
    assert_eq!(
        reactor.step(Event::Wrote { token: Token(10002), count: 0 }),
        Action::Discard { conn, registered: Source::Socket }
    );
    assert_eq!(reactor.len(), 0);
}

#[test]
fn failure_discards_one_connection_only() {
    let mut reactor = Reactor::new();
    let (first, first_token) = accept(&mut reactor);
    let (second, second_token) = accept(&mut reactor);
    let (third, third_token) = accept(&mut reactor);
    let (timer, _) = request(&mut reactor, second_token, 600);
    let (third_timer, _) = request(&mut reactor, third_token, 800);
    let third_writer = match reactor.step(Event::Ready { token: third_timer }) {
        Action::AwaitWritable { token, .. } => token,
        other => panic!("unexpected action {:?}", other),
    };

    let kept = reactor.lookup(first_token);
    assert_eq!(
        reactor.step(Event::Failed { token: timer }),
        Action::Discard { conn: second, registered: Source::Timer }
    );
    assert_eq!(reactor.lookup(timer), None);
    assert_eq!(reactor.lookup(first_token), kept);
    assert_eq!(reactor.len(), 2);

    assert_eq!(
        reactor.step(Event::Failed { token: third_writer }),
        Action::Discard { conn: third, registered: Source::Socket }
    );
    assert_eq!(
        reactor.step(Event::Failed { token: first_token }),
        Action::Discard { conn: first, registered: Source::Socket }
    );
    assert_eq!(reactor.len(), 0);
}

#[test]
fn events_out_of_phase_are_ignored() {
    let mut reactor = Reactor::new();
    let (conn, token) = accept(&mut reactor);
    assert_eq!(reactor.step(Event::Wrote { token, count: 3 }), Action::Ignore);
    let (timer, _) = request(&mut reactor, token, 200);
    assert_eq!(
        reactor.step(Event::Received { token: timer, data: vec![1, 2, 3, 4] }),
        Action::Ignore
    );
    assert_eq!(reactor.step(Event::Wrote { token: timer, count: 3 }), Action::Ignore);
    reactor.step(Event::Ready { token: timer });
    assert_eq!(
        reactor.step(Event::Received { token: Token(10002), data: vec![1, 2, 3, 4] }),
        Action::Ignore
    );
    assert_eq!(
        reactor.lookup(Token(10002)),
        Some(Connection { conn, phase: Phase::AwaitingWrite { duration_ms: 200, sent: 0 } })
    );
}

#[test]
fn concurrent_connections_get_their_own_replies() {
    let mut reactor = Reactor::new();
    let (a, a_token) = accept(&mut reactor);
    let (b, b_token) = accept(&mut reactor);
    // The requests arrive interleaved, byte by byte.
    let a_bytes = encode_duration(300);
    let b_bytes = encode_duration(70_000);
    let mut a_timer = None;
    let mut b_timer = None;
    for i in 0..4 {
        if let Action::ArmTimer { token, .. } =
            reactor.step(Event::Received { token: a_token, data: vec![a_bytes[i]] })
        {
            a_timer = Some(token);
        }
        if let Action::ArmTimer { token, .. } =
            reactor.step(Event::Received { token: b_token, data: vec![b_bytes[i]] })
        {
            b_timer = Some(token);
        }
    }
    let out_b = fire_and_reply(&mut reactor, b, b_timer.unwrap());
    let out_a = fire_and_reply(&mut reactor, a, a_timer.unwrap());
    assert_eq!(out_a, b"done-300ms".to_vec());
    assert_eq!(out_b, b"done-70000ms".to_vec());
}

#[test]
fn step_leaves_other_entries_alone() {
    let mut reactor = Reactor::new();
    let (_, watched) = accept(&mut reactor);
    reactor.step(Event::Received { token: watched, data: vec![9] });
    let before = reactor.lookup(watched);
    let (_, token) = accept(&mut reactor);
    let (timer, _) = request(&mut reactor, token, 5);
    assert_eq!(reactor.lookup(watched), before);
    let writer = match reactor.step(Event::Ready { token: timer }) {
        Action::AwaitWritable { token, .. } => token,
        other => panic!("unexpected action {:?}", other),
    };
    assert_eq!(reactor.lookup(watched), before);
    reactor.step(Event::Wrote { token: writer, count: 8 });
    assert_eq!(reactor.lookup(watched), before);
    assert_eq!(reactor.len(), 1);
}

#[test]
fn exhausted_tokens_stop_the_service() {
    let tokens = TokenAllocator::starting_at(usize::MAX - 2).unwrap();
    let mut reactor = Reactor::with_tokens(tokens);
    let (conn, token) = accept(&mut reactor);
    assert_eq!(token, Token(usize::MAX - 2));
    let (timer, _) = request(&mut reactor, token, 200);
    assert_eq!(timer, Token(usize::MAX - 1));
    // No token is left for the write phase, nor for another connection.
    assert_eq!(
        reactor.step(Event::Ready { token: timer }),
        Action::Abort { fault: Fault::TokensExhausted }
    );
    assert_eq!(
        reactor.step(Event::Accepted),
        Action::Abort { fault: Fault::TokensExhausted }
    );
    assert_eq!(
        reactor.lookup(timer),
        Some(Connection { conn, phase: Phase::AwaitingTimer { duration_ms: 200 } })
    );
    assert_eq!(reactor.len(), 1);
}

#[test]
fn exhausted_tokens_stop_a_completed_read() {
    let tokens = TokenAllocator::starting_at(usize::MAX - 1).unwrap();
    let mut reactor = Reactor::with_tokens(tokens);
    let (conn, token) = accept(&mut reactor);
    assert_eq!(
        reactor.step(Event::Received { token, data: vec![0, 0, 0, 1] }),
        Action::Abort { fault: Fault::TokensExhausted }
    );
    assert_eq!(
        reactor.lookup(token),
        Some(Connection { conn, phase: Phase::AwaitingRead { filled: 0, partial: 0 } })
    );
}
