//! The wire format: a four-byte big-endian request and a text reply.

use vstd::prelude::*;

verus! {

/// The number of bytes in a request.
pub const REQUEST_LEN: usize = 4;

/// The number a byte string denotes when read big-endian after `acc`.
pub open spec fn be_extend(acc: nat, bytes: Seq<u8>) -> nat
    decreases bytes.len(),
{
    if bytes.len() == 0 {
        acc
    } else {
        be_extend(acc, bytes.drop_last()) * 256 + bytes.last() as nat
    }
}

/// The number a byte string denotes when read big-endian.
pub open spec fn be_value(bytes: Seq<u8>) -> nat {
    be_extend(0, bytes)
}

/// The four bytes that denote `ms`, most significant first.
pub open spec fn be_bytes(ms: u32) -> Seq<u8> {
    seq![
        (ms / 16777216) as u8,
        (ms / 65536 % 256) as u8,
        (ms / 256 % 256) as u8,
        (ms % 256) as u8,
    ]
}

/// Reading `a` and then `b` is reading `a + b`: a request means the same
/// however its bytes are split over reads.
pub proof fn lemma_be_extend_concat(acc: nat, a: Seq<u8>, b: Seq<u8>)
    ensures
        be_extend(be_extend(acc, a), b) == be_extend(acc, a + b),
    decreases b.len(),
{
    if b.len() == 0 {
        assert(a + b =~= a);
    } else {
        lemma_be_extend_concat(acc, a, b.drop_last());
        assert((a + b).drop_last() =~= a + b.drop_last());
        assert((a + b).last() == b.last());
    }
}

/// The value of four bytes, written out.
pub proof fn lemma_be_value_four(bytes: Seq<u8>)
    requires
        bytes.len() == 4,
    ensures
        be_value(bytes) == bytes[0] as nat * 16777216 + bytes[1] as nat * 65536 + bytes[2] as nat
            * 256 + bytes[3] as nat,
{
    let b3 = bytes.drop_last();
    let b2 = b3.drop_last();
    let b1 = b2.drop_last();
    let b0 = b1.drop_last();
    assert(be_extend(0, b0) == 0);
    assert(be_extend(0, b1) == be_extend(0, b0) * 256 + bytes[0] as nat);
    assert(be_extend(0, b2) == be_extend(0, b1) * 256 + bytes[1] as nat);
    assert(be_extend(0, b3) == be_extend(0, b2) * 256 + bytes[2] as nat);
    assert(be_extend(0, bytes) == be_extend(0, b3) * 256 + bytes[3] as nat);
}

/// Encoding and then decoding a duration gives it back.
pub proof fn lemma_decode_encode(ms: u32)
    ensures
        be_bytes(ms).len() == REQUEST_LEN,
        be_value(be_bytes(ms)) == ms,
{
    lemma_be_value_four(be_bytes(ms));
}

/// Decoding four bytes and then encoding the duration gives them back.
pub proof fn lemma_encode_decode(bytes: Seq<u8>)
    requires
        bytes.len() == REQUEST_LEN,
    ensures
        be_value(bytes) <= u32::MAX,
        be_bytes(be_value(bytes) as u32) == bytes,
{
    lemma_be_value_four(bytes);
    let b0 = bytes[0] as int;
    let b1 = bytes[1] as int;
    let b2 = bytes[2] as int;
    let b3 = bytes[3] as int;
    let v = be_value(bytes) as int;
    assert(v == (b0 * 65536 + b1 * 256 + b2) * 256 + b3);
    assert(v / 256 == b0 * 65536 + b1 * 256 + b2 && v % 256 == b3);
    assert(v == (b0 * 256 + b1) * 65536 + (b2 * 256 + b3));
    assert(v / 65536 == b0 * 256 + b1);
    assert((b0 * 256 + b1) % 256 == b1);
    assert((b0 * 65536 + b1 * 256 + b2) % 256 == b2);
    assert(v / 16777216 == b0);
    let back = be_bytes(v as u32);
    assert(back[0] == bytes[0]);
    assert(back[1] == bytes[1]);
    assert(back[2] == bytes[2]);
    assert(back[3] == bytes[3]);
    assert(back =~= bytes);
}

/// The duration that a complete request asks for.
pub fn decode_duration(request: [u8; 4]) -> (ms: u32)
    ensures
        ms == be_value(request@),
        be_bytes(ms) == request@,
{
    proof {
        lemma_be_value_four(request@);
        lemma_encode_decode(request@);
    }
    let b0: u32 = request[0] as u32;
    let b1: u32 = request[1] as u32;
    let b2: u32 = request[2] as u32;
    let b3: u32 = request[3] as u32;
    b0 * 16777216 + b1 * 65536 + b2 * 256 + b3
}

/// The request that asks for `ms` milliseconds.
pub fn encode_duration(ms: u32) -> (request: [u8; 4])
    ensures
        request@ == be_bytes(ms),
        be_value(request@) == ms,
{
    proof {
        lemma_decode_encode(ms);
    }
    let request: [u8; 4] = [
        (ms / 16777216) as u8,
        (ms / 65536 % 256) as u8,
        (ms / 256 % 256) as u8,
        (ms % 256) as u8,
    ];
    assert(request@ =~= be_bytes(ms));
    request
}

/// The longest reply there is: that for a duration of ten digits.
pub const MAX_REPLY_LEN: usize = 17;

/// The decimal digits of `n` as ASCII bytes, without leading zeros.
pub open spec fn decimal_digits(n: nat) -> Seq<u8>
    decreases n,
{
    if n < 10 {
        seq![(48 + n) as u8]
    } else {
        decimal_digits(n / 10).push((48 + n % 10) as u8)
    }
}

/// The number that a string of ASCII digits denotes.
pub open spec fn decimal_value(digits: Seq<u8>) -> nat
    decreases digits.len(),
{
    if digits.len() == 0 {
        0
    } else {
        decimal_value(digits.drop_last()) * 10 + (digits.last() - 48) as nat
    }
}

/// The bytes of `done-`.
pub open spec fn reply_prefix() -> Seq<u8> {
    seq![100u8, 111u8, 110u8, 101u8, 45u8]
}

/// The bytes of `ms`.
pub open spec fn reply_suffix() -> Seq<u8> {
    seq![109u8, 115u8]
}

/// The reply to a request for `ms` milliseconds: `done-`, the duration in
/// decimal, `ms`, and nothing after it.
pub open spec fn reply_text(ms: u32) -> Seq<u8> {
    reply_prefix() + decimal_digits(ms as nat) + reply_suffix()
}

/// What is left of the reply once `sent` bytes of it have gone out.
pub open spec fn reply_rest(ms: u32, sent: nat) -> Seq<u8> {
    if sent <= reply_text(ms).len() {
        reply_text(ms).subrange(sent as int, reply_text(ms).len() as int)
    } else {
        Seq::empty()
    }
}

/// A number below `10^k` has at most `k` digits, and every digit is an
/// ASCII digit.
pub proof fn lemma_decimal_digits_shape(n: nat)
    ensures
        decimal_digits(n).len() >= 1,
        n < 10 ==> decimal_digits(n).len() == 1,
        n < 100 ==> decimal_digits(n).len() <= 2,
        n < 1000 ==> decimal_digits(n).len() <= 3,
        n < 10000 ==> decimal_digits(n).len() <= 4,
        n < 100000 ==> decimal_digits(n).len() <= 5,
        n < 1000000 ==> decimal_digits(n).len() <= 6,
        n < 10000000 ==> decimal_digits(n).len() <= 7,
        n < 100000000 ==> decimal_digits(n).len() <= 8,
        n < 1000000000 ==> decimal_digits(n).len() <= 9,
        n < 10000000000 ==> decimal_digits(n).len() <= 10,
        forall|i: int|
            0 <= i < decimal_digits(n).len() ==> 48 <= #[trigger] decimal_digits(n)[i] <= 57,
    decreases n,
{
    if n >= 10 {
        lemma_decimal_digits_shape(n / 10);
    }
}

/// The digits of a number denote that number.
pub proof fn lemma_decimal_roundtrip(n: nat)
    ensures
        decimal_value(decimal_digits(n)) == n,
    decreases n,
{
    let digits = decimal_digits(n);
    if n < 10 {
        assert(digits.drop_last().len() == 0);
        assert(decimal_value(digits.drop_last()) == 0);
    } else {
        lemma_decimal_roundtrip(n / 10);
        assert(digits.drop_last() =~= decimal_digits(n / 10));
    }
}

/// A reply is between 8 and 17 bytes of ASCII.
pub proof fn lemma_reply_shape(ms: u32)
    ensures
        8 <= reply_text(ms).len() <= MAX_REPLY_LEN,
        forall|i: int| 0 <= i < reply_text(ms).len() ==> #[trigger] reply_text(ms)[i] < 128,
{
    lemma_decimal_digits_shape(ms as nat);
}

/// Two replies are the same bytes only if they answer the same duration:
/// no reply can be taken for that of another request.
pub proof fn lemma_reply_identifies_duration(a: u32, b: u32)
    requires
        reply_text(a) == reply_text(b),
    ensures
        a == b,
{
    let da = decimal_digits(a as nat);
    let db = decimal_digits(b as nat);
    assert(reply_text(a).subrange(5, 5 + da.len() as int) =~= da);
    assert(reply_text(b).subrange(5, 5 + db.len() as int) =~= db);
    assert(reply_text(a).len() == 7 + da.len());
    assert(reply_text(b).len() == 7 + db.len());
    lemma_decimal_roundtrip(a as nat);
    lemma_decimal_roundtrip(b as nat);
}

/// Appends the decimal digits of `n` to `out`.
fn push_decimal(out: &mut Vec<u8>, n: u32)
    ensures
        final(out)@ == old(out)@ + decimal_digits(n as nat),
    decreases n,
{
    if n < 10 {
        out.push(48 + n as u8);
        assert(out@ =~= old(out)@ + decimal_digits(n as nat));
    } else {
        push_decimal(out, n / 10);
        out.push(48 + (n % 10) as u8);
        assert(out@ =~= old(out)@ + decimal_digits(n as nat));
    }
}

/// The reply to a request for `ms` milliseconds.
pub fn reply_bytes(ms: u32) -> (reply: Vec<u8>)
    ensures
        reply@ == reply_text(ms),
{
    let mut reply: Vec<u8> = Vec::new();
    reply.push(100);
    reply.push(111);
    reply.push(110);
    reply.push(101);
    reply.push(45);
    assert(reply@ =~= reply_prefix());
    push_decimal(&mut reply, ms);
    reply.push(109);
    reply.push(115);
    assert(reply@ =~= reply_text(ms));
    reply
}

/// The length of the reply to a request for `ms` milliseconds.
pub fn reply_len(ms: u32) -> (len: usize)
    ensures
        len == reply_text(ms).len(),
        8 <= len <= MAX_REPLY_LEN,
{
    proof {
        lemma_reply_shape(ms);
    }
    reply_bytes(ms).len()
}

/// The bytes of the reply that are still to be written once `sent` of them
/// have gone out; empty when nothing is left.
pub fn reply_tail(ms: u32, sent: usize) -> (rest: Vec<u8>)
    ensures
        rest@ == reply_rest(ms, sent as nat),
{
    let reply = reply_bytes(ms);
    let mut rest: Vec<u8> = Vec::new();
    if sent > reply.len() {
        return rest;
    }
    let mut i: usize = sent;
    assert(rest@ =~= reply@.subrange(sent as int, i as int));
    while i < reply.len()
        invariant
            reply@ == reply_text(ms),
            sent <= i <= reply.len(),
            rest@ == reply@.subrange(sent as int, i as int),
        decreases reply.len() - i,
    {
        rest.push(reply[i]);
        i = i + 1;
        assert(rest@ =~= reply@.subrange(sent as int, i as int));
    }
    rest
}

} // verus!
