//! Plain MTProto frames: the `req_pq_multi` request that the listener probe
//! sends and the replies that it reads.

use std::time::{Duration, SystemTime, SystemTimeError, UNIX_EPOCH};

use rand::RngCore;
use vstd::arithmetic::power::*;
use vstd::prelude::*;

use crate::le;

verus! {

/// Telegram's `resPQ` constructor: the answer to `req_pq_multi`, and the only
/// proof that the far end of a tunnel is a data centre rather than a middlebox
/// that accepted the handshake.
pub const RES_PQ_CTOR: u32 = 0x0516_2463;

/// Telegram's `req_pq_multi` constructor.
pub const REQ_PQ_MULTI_CTOR: u32 = 0xbe7e_8ef1;

/// Byte offset of the constructor in a plain MTProto frame: 4 bytes of frame
/// length, 8 of `auth_key_id`, 8 of message id, 4 of body length.
pub const FRAME_CTOR_OFFSET: usize = 24;

/// Header of a plain MTProto frame: enough bytes to read the constructor.
pub const FRAME_HEADER_LEN: usize = FRAME_CTOR_OFFSET + 4;

/// Length of the nonce that a `req_pq_multi` carries.
pub const NONCE_LEN: usize = 16;

/// Length of a transport error on the wire: the length prefix and the code.
pub const TRANSPORT_ERROR_LEN: usize = 8;

// ---------------------------------------------------------------------------
// The request
// ---------------------------------------------------------------------------
/// `len` zero bytes.
pub open spec fn zeros(len: nat) -> Seq<u8> {
    Seq::new(len, |i: int| 0u8)
}

/// The message id for a Unix time: the seconds in the upper half of 64 bits.
pub open spec fn message_id(unix_secs: nat) -> nat {
    (unix_secs % 0x1_0000_0000) * 0x1_0000_0000
}

/// An unencrypted MTProto message: a zero `auth_key_id`, the message id, the
/// body length and the body.
pub open spec fn plain_message(id: nat, body: Seq<u8>) -> Seq<u8> {
    zeros(8) + le::le_bytes(id, 8) + le::le_bytes(body.len(), 4) + body
}

/// The number of bytes that bring `len` to a multiple of four.
pub open spec fn padding(len: nat) -> nat {
    ((4 - len % 4) % 4) as nat
}

/// `packet` in the padded-intermediate transport: the padded length, the packet
/// and zero bytes up to a multiple of four.
pub open spec fn padded_frame(packet: Seq<u8>) -> Seq<u8> {
    le::le_bytes(packet.len() + padding(packet.len()), 4) + packet + zeros(padding(packet.len()))
}

/// The `req_pq_multi` request made at `unix_secs` with `nonce`.
pub open spec fn req_pq_multi_frame(unix_secs: nat, nonce: Seq<u8>) -> Seq<u8> {
    padded_frame(
        plain_message(message_id(unix_secs), le::le_bytes(REQ_PQ_MULTI_CTOR as nat, 4) + nonce),
    )
}

/// Whether `frame` is a `req_pq_multi` request of some second with some nonce.
pub open spec fn is_req_pq_multi(frame: Seq<u8>) -> bool {
    exists|unix_secs: u64, nonce: Seq<u8>|
        nonce.len() == NONCE_LEN && frame == #[trigger] req_pq_multi_frame(
            unix_secs as nat,
            nonce,
        )
}

/// `std::time::SystemTime`: a reading of the clock, which stays opaque.
#[verifier::external_type_specification]
#[verifier::external_body]
pub struct ExSystemTime(SystemTime);

/// `std::time::SystemTime::now`: what the clock shows. Nothing is claimed of
/// it.
pub assume_specification[ SystemTime::now ]() -> (now: SystemTime)
;

/// `std::time::SystemTimeError`: the clock stands before the time it is compared
/// with.
#[verifier::external_type_specification]
#[verifier::external_body]
pub struct ExSystemTimeError(SystemTimeError);

/// `std::time::SystemTime::duration_since`, from the Unix epoch. Nothing is
/// claimed of the span: it rests on the clock, whose reading is opaque.
#[verifier::external_body]
fn since_epoch(now: SystemTime) -> (since: Result<Duration, SystemTimeError>) {
    now.duration_since(UNIX_EPOCH)
}

/// `std::time::Duration::as_secs`: the whole seconds of a span. Nothing is claimed
/// of the number: the span it is taken from is opaque.
pub assume_specification[ Duration::as_secs ](span: &Duration) -> (secs: u64)
;

/// `rand::RngCore::fill_bytes` on the generator that `rand::rng` hands out.
/// The bytes are random, so nothing is claimed of them beyond their number,
/// which the type gives.
#[verifier::external_body]
fn random_nonce() -> (nonce: [u8; 16]) {
    let mut nonce = [0u8; 16];
    rand::rng().fill_bytes(&mut nonce);
    nonce
}

/// The message id for a Unix time: `unix_secs << 32`, as the protocol defines
/// it.
pub fn request_message_id(unix_secs: u64) -> (id: u64)
    ensures
        id == message_id(unix_secs as nat),
{
    assert(unix_secs << 32 == (unix_secs % 0x1_0000_0000) * 0x1_0000_0000) by (bit_vector);
    unix_secs << 32
}

/// Frames `packet` for the padded-intermediate transport.
pub fn frame_packet(packet: &Vec<u8>) -> (frame: Vec<u8>)
    requires
        4 + packet@.len() + padding(packet@.len()) <= u32::MAX,
    ensures
        frame@ == padded_frame(packet@),
{
    let len: usize = packet.len();
    let pad: usize = (4 - len % 4) % 4;
    let mut frame: Vec<u8> = Vec::with_capacity(4 + len + pad);
    le::push_le(&mut frame, (len + pad) as u64, 4);
    frame.extend_from_slice(packet.as_slice());
    let mut left: usize = pad;
    while left > 0
        invariant
            left <= pad,
            pad == padding(packet@.len()),
            frame@ + zeros(left as nat) =~= padded_frame(packet@),
        decreases left,
    {
        frame.push(0);
        left = left - 1;
    }
    frame
}

/// The `req_pq_multi` request for a given second and nonce.
///
/// This is what a client sends once the obfuscation handshake is done: 8 zero
/// bytes where an established session would carry `auth_key_id`, then the
/// message id, the body length and the body, length-prefixed and padded to a
/// multiple of 4.
pub fn req_pq_multi_at(unix_secs: u64, nonce: &[u8; 16]) -> (frame: Vec<u8>)
    ensures
        frame@ == req_pq_multi_frame(unix_secs as nat, nonce@),
{
    let mut body: Vec<u8> = Vec::with_capacity(4 + NONCE_LEN);
    le::push_le(&mut body, REQ_PQ_MULTI_CTOR as u64, 4);
    body.extend_from_slice(nonce.as_slice());
    proof {
        le::lemma_le_bytes_len(REQ_PQ_MULTI_CTOR as nat, 4);
        assert(body@ =~= le::le_bytes(REQ_PQ_MULTI_CTOR as nat, 4) + nonce@);
    }

    let id: u64 = request_message_id(unix_secs);
    let mut packet: Vec<u8> = Vec::with_capacity(8 + 8 + 4 + body.len());
    le::push_le(&mut packet, 0, 8);
    le::push_le(&mut packet, id, 8);
    le::push_le(&mut packet, body.len() as u64, 4);
    packet.extend_from_slice(body.as_slice());
    proof {
        lemma_le_bytes_of_zero(8);
        le::lemma_le_bytes_len(id as nat, 8);
        le::lemma_le_bytes_len(body@.len(), 4);
        assert(packet@ =~= plain_message(id as nat, body@));
    }
    frame_packet(&packet)
}

/// The second that a request is made at: what the clock shows, in seconds since
/// the Unix epoch. A clock that stands before the epoch, and so shows none,
/// counts as the epoch.
pub fn request_second(secs: Option<u64>) -> (unix_secs: u64)
    ensures
        unix_secs == (match secs {
            Some(secs) => secs,
            None => 0,
        }),
{
    match secs {
        Some(secs) => secs,
        None => 0,
    }
}

/// The whole seconds of a span since the Unix epoch, if the clock shows one.
fn whole_secs(since: Result<Duration, SystemTimeError>) -> (secs: Option<u64>)
    ensures
        secs is None <==> since is Err,
        since matches Ok(span) ==> call_ensures(Duration::as_secs, (&span,), secs->Some_0),
{
    match since {
        Ok(since) => Some(since.as_secs()),
        Err(_) => None,
    }
}

/// Whether `unix_secs` is the second of a reading of the clock: the whole seconds of
/// the span since the Unix epoch, or the epoch where there is no such span.
pub closed spec fn is_clock_second(unix_secs: u64) -> bool {
    exists|now: SystemTime, since: Result<Duration, SystemTimeError>|
        {
            &&& call_ensures(SystemTime::now, (), now)
            &&& #[trigger] call_ensures(since_epoch, (now,), since)
            &&& match since {
                Ok(span) => call_ensures(Duration::as_secs, (&span,), unix_secs),
                Err(_) => unix_secs == 0,
            }
        }
}

/// Whether `nonce` was drawn from the random generator.
pub closed spec fn is_drawn_nonce(nonce: Seq<u8>) -> bool {
    exists|drawn: [u8; 16]| #[trigger] call_ensures(random_nonce, (), drawn) && drawn@ == nonce
}

/// Whether `frame` is a request for a second that the clock showed, with a nonce that
/// was drawn from the random generator.
pub open spec fn is_fresh_request(frame: Seq<u8>) -> bool {
    exists|unix_secs: u64, nonce: Seq<u8>|
        {
            &&& is_clock_second(unix_secs)
            &&& is_drawn_nonce(nonce)
            &&& nonce.len() == 16
            &&& frame == #[trigger] req_pq_multi_frame(unix_secs as nat, nonce)
        }
}

/// A `req_pq_multi` request in the padded-intermediate transport, for the
/// current time and a fresh random nonce.
pub fn build_req_pq_multi() -> (frame: Vec<u8>)
    ensures
        is_req_pq_multi(frame@),
        is_fresh_request(frame@),
{
    let now = SystemTime::now();
    let since = since_epoch(now);
    let ghost shown = since;
    let unix_secs: u64 = request_second(whole_secs(since));
    let nonce = random_nonce();
    proof {
        assert(call_ensures(since_epoch, (now,), shown));
        assert(is_clock_second(unix_secs));
        assert(call_ensures(random_nonce, (), nonce));
        assert(is_drawn_nonce(nonce@));
    }
    req_pq_multi_at(unix_secs, &nonce)
}

proof fn lemma_le_bytes_of_zero(width: nat)
    ensures
        le::le_bytes(0, width) =~= zeros(width),
    decreases width,
{
    if width > 0 {
        lemma_le_bytes_of_zero((width - 1) as nat);
    }
}

// ---------------------------------------------------------------------------
// The reply
// ---------------------------------------------------------------------------
/// Whether a decrypted reply is Telegram's `resPQ`: a whole header, no session
/// key, and the `resPQ` constructor.
pub open spec fn is_res_pq(plain: Seq<u8>) -> bool {
    &&& plain.len() >= FRAME_HEADER_LEN
    &&& le::le_value(plain.subrange(4, 12)) == 0
    &&& le::le_value(plain.subrange(FRAME_CTOR_OFFSET as int, FRAME_HEADER_LEN as int))
        == RES_PQ_CTOR
}

/// The two's complement reading of a 32-bit number.
pub open spec fn as_signed(value: nat) -> int {
    if value < 0x8000_0000 {
        value as int
    } else {
        value - 0x1_0000_0000
    }
}

/// The code of the transport error that a decrypted reply starts with, if it
/// starts with one: a length of four and a negative code.
pub open spec fn transport_error(plain: Seq<u8>) -> Option<int> {
    let code = as_signed(le::le_value(plain.subrange(4, 8)));
    if plain.len() >= TRANSPORT_ERROR_LEN && le::le_value(plain.subrange(0, 4)) == 4 && code < 0 {
        Some(code)
    } else {
        None
    }
}

/// Whether no further byte can change what a decrypted reply is.
pub open spec fn reply_settled(plain: Seq<u8>) -> bool {
    plain.len() >= FRAME_HEADER_LEN || transport_error(plain) is Some
}

/// True when the decrypted reply is Telegram's `resPQ`.
pub fn reply_is_res_pq(plain: &[u8]) -> (res: bool)
    ensures
        res == is_res_pq(plain@),
{
    if plain.len() < FRAME_HEADER_LEN {
        return false;
    }
    let low: u32 = le::read_le_u32(plain, 4);
    let high: u32 = le::read_le_u32(plain, 8);
    let ctor: u32 = le::read_le_u32(plain, FRAME_CTOR_OFFSET);
    proof {
        le::lemma_le_value_add(plain@.subrange(4, 8), plain@.subrange(8, 12));
        assert(plain@.subrange(4, 8) + plain@.subrange(8, 12) =~= plain@.subrange(4, 12));
        lemma_pow_256();
    }
    low == 0 && high == 0 && ctor == RES_PQ_CTOR
}

/// The code of the transport error that the decrypted reply starts with.
///
/// A transport error is a framed packet, a 4-byte length of 4 and the negative
/// code, so it is complete long before a frame header would be.
pub fn reply_transport_error(plain: &[u8]) -> (code: Option<i32>)
    ensures
        match code {
            Some(code) => transport_error(plain@) == Some(code as int),
            None => transport_error(plain@) is None,
        },
{
    if plain.len() < TRANSPORT_ERROR_LEN {
        return None;
    }
    let len: u32 = le::read_le_u32(plain, 0);
    let bits: u32 = le::read_le_u32(plain, 4);
    if len == 4 && bits >= 0x8000_0000 {
        let below: i32 = (0xffff_ffffu32 - bits) as i32;
        Some(-below - 1)
    } else {
        None
    }
}

proof fn lemma_pow_256()
    ensures
        pow(256, 4) == 0x1_0000_0000,
        pow(256, 8) == 0x1_0000_0000_0000_0000,
{
    reveal_with_fuel(pow, 9);
}

// ---------------------------------------------------------------------------
// Laws
// ---------------------------------------------------------------------------
/// A frame is a multiple of four bytes long, its length prefix covers the rest
/// of it, the packet follows the prefix, and less than one word of zeros
/// follows the packet.
pub proof fn law_frame_is_padded(packet: Seq<u8>)
    requires
        packet.len() + padding(packet.len()) <= u32::MAX,
    ensures
        padded_frame(packet).len() % 4 == 0,
        le::le_value(padded_frame(packet).subrange(0, 4)) + 4 == padded_frame(packet).len(),
        padded_frame(packet).subrange(4, 4int + packet.len()) == packet,
        padded_frame(packet).len() < 4 + packet.len() + 4,
        forall|i: int|
            4 + packet.len() <= i < padded_frame(packet).len() ==> padded_frame(packet)[i] == 0,
{
    let frame = padded_frame(packet);
    let total = packet.len() + padding(packet.len());
    le::lemma_le_bytes_len(total, 4);
    lemma_pow_256();
    le::law_le_round_trip(total, 4);
    assert(frame.subrange(0, 4) =~= le::le_bytes(total, 4));
    assert(frame.subrange(4, 4int + packet.len()) =~= packet);
}

/// The layout of a `req_pq_multi` request, field by field.
pub proof fn law_request_layout(unix_secs: u64, nonce: Seq<u8>)
    requires
        nonce.len() == NONCE_LEN,
    ensures
        ({
            let frame = req_pq_multi_frame(unix_secs as nat, nonce);
            &&& frame.len() == 44
            &&& le::le_value(frame.subrange(0, 4)) + 4 == frame.len()
            &&& frame.subrange(4, 12) == zeros(8)
            &&& le::le_value(frame.subrange(12, 20)) == message_id(unix_secs as nat)
            &&& le::le_value(frame.subrange(20, 24)) == 4 + NONCE_LEN
            &&& le::le_value(frame.subrange(24, 28)) == REQ_PQ_MULTI_CTOR
            &&& frame.subrange(28, 44) == nonce
        }),
{
    let id = message_id(unix_secs as nat);
    let ctor = le::le_bytes(REQ_PQ_MULTI_CTOR as nat, 4);
    let body = ctor + nonce;
    let packet = plain_message(id, body);
    let frame = req_pq_multi_frame(unix_secs as nat, nonce);
    le::lemma_le_bytes_len(REQ_PQ_MULTI_CTOR as nat, 4);
    le::lemma_le_bytes_len(id, 8);
    le::lemma_le_bytes_len(body.len(), 4);
    lemma_pow_256();
    le::law_le_round_trip(REQ_PQ_MULTI_CTOR as nat, 4);
    le::law_le_round_trip(id, 8);
    le::law_le_round_trip(body.len(), 4);
    law_frame_is_padded(packet);
    le::lemma_le_bytes_len(packet.len() + padding(packet.len()), 4);
    assert(frame.subrange(4, 12) =~= zeros(8));
    assert(frame.subrange(12, 20) =~= le::le_bytes(id, 8));
    assert(frame.subrange(20, 24) =~= le::le_bytes(body.len(), 4));
    assert(frame.subrange(24, 28) =~= ctor);
    assert(frame.subrange(28, 44) =~= nonce);
}

/// Message ids move forward with the clock, for as long as the seconds fit the
/// upper half of the id.
pub proof fn law_message_ids_move_forward(earlier: nat, later: nat)
    requires
        earlier < later < 0x1_0000_0000,
    ensures
        message_id(earlier) < message_id(later),
{
}

/// A request that comes back is not taken for the answer to it.
pub proof fn law_echoed_request_is_no_res_pq(frame: Seq<u8>)
    requires
        is_req_pq_multi(frame),
    ensures
        !is_res_pq(frame),
        transport_error(frame) is None,
{
    let (unix_secs, nonce) = choose|unix_secs: u64, nonce: Seq<u8>|
        nonce.len() == NONCE_LEN && frame == #[trigger] req_pq_multi_frame(
            unix_secs as nat,
            nonce,
        );
    law_request_layout(unix_secs, nonce);
}

/// A transport error is never a `resPQ`, whatever follows it.
pub proof fn law_transport_error_is_no_res_pq(plain: Seq<u8>)
    requires
        transport_error(plain) is Some,
    ensures
        !is_res_pq(plain),
{
    if plain.len() >= FRAME_HEADER_LEN {
        le::lemma_le_value_add(plain.subrange(4, 8), plain.subrange(8, 12));
        assert(plain.subrange(4, 8) + plain.subrange(8, 12) =~= plain.subrange(4, 12));
        lemma_pow_256();
    }
}

/// Every negative code is read back from the packet that frames it.
pub proof fn law_transport_error_round_trip(code: i32, rest: Seq<u8>)
    requires
        code < 0,
    ensures
        transport_error(le::le_bytes(4, 4) + le::le_bytes((code + 0x1_0000_0000) as nat, 4) + rest)
            == Some(code as int),
{
    let bits = (code + 0x1_0000_0000) as nat;
    let plain = le::le_bytes(4, 4) + le::le_bytes(bits, 4) + rest;
    le::lemma_le_bytes_len(4, 4);
    le::lemma_le_bytes_len(bits, 4);
    lemma_pow_256();
    le::law_le_round_trip(4, 4);
    le::law_le_round_trip(bits, 4);
    assert(plain.subrange(0, 4) =~= le::le_bytes(4, 4));
    assert(plain.subrange(4, 8) =~= le::le_bytes(bits, 4));
}

/// Once a reply is settled, the bytes that follow change neither whether it is
/// a `resPQ` nor which transport error it is.
pub proof fn law_settled_reply_stays(plain: Seq<u8>, rest: Seq<u8>)
    requires
        reply_settled(plain),
    ensures
        reply_settled(plain + rest),
        is_res_pq(plain + rest) == is_res_pq(plain),
        transport_error(plain + rest) == transport_error(plain),
{
    let longer = plain + rest;
    if plain.len() >= TRANSPORT_ERROR_LEN {
        assert(longer.subrange(0, 4) =~= plain.subrange(0, 4));
        assert(longer.subrange(4, 8) =~= plain.subrange(4, 8));
    }
    if plain.len() >= FRAME_HEADER_LEN {
        assert(longer.subrange(4, 12) =~= plain.subrange(4, 12));
        assert(longer.subrange(24, 28) =~= plain.subrange(24, 28));
    } else {
        law_transport_error_is_no_res_pq(plain);
        law_transport_error_is_no_res_pq(longer);
    }
}

/// Eight bytes and four bytes decide whether a reply is a `resPQ`, and nothing else
/// does: the key id is zero and the constructor is that of `resPQ`. The frame
/// length, the message id, the body length and what follows may be anything.
pub proof fn law_key_and_constructor_decide(plain: &[u8], res: bool)
    requires
        call_ensures(reply_is_res_pq, (plain,), res),
    ensures
        res <==> {
            &&& plain@.len() >= 28
            &&& forall|i: int| 4 <= i < 12 ==> #[trigger] plain@[i] == 0
            &&& plain@[24] == 0x63 && plain@[25] == 0x24 && plain@[26] == 0x16 && plain@[27] == 0x05
        },
{
    law_res_pq_bytes(plain@);
}

/// A reply is a `resPQ` by its key id and its constructor, byte for byte.
pub proof fn law_res_pq_bytes(plain: Seq<u8>)
    ensures
        is_res_pq(plain) <==> {
            &&& plain.len() >= 28
            &&& forall|i: int| 4 <= i < 12 ==> #[trigger] plain[i] == 0
            &&& plain[24] == 0x63 && plain[25] == 0x24 && plain[26] == 0x16 && plain[27] == 0x05
        },
{
    if plain.len() >= 28 {
        let low = plain.subrange(4, 8);
        let high = plain.subrange(8, 12);
        le::lemma_le_value_add(low, high);
        assert(low + high =~= plain.subrange(4, 12));
        lemma_pow_256();
        le::lemma_le_value_unrolled(low);
        le::lemma_le_value_unrolled(high);
        le::lemma_le_value_unrolled(plain.subrange(24, 28));
        assert(le::le_value(plain.subrange(4, 12)) == 0 <==> le::le_value(low) == 0 && le::le_value(
            high,
        ) == 0);
        if le::le_value(plain.subrange(4, 12)) == 0 {
            assert forall|i: int| 4 <= i < 12 implies #[trigger] plain[i] == 0 by {
                if i < 8 {
                    assert(plain[i] == low[i - 4]);
                } else {
                    assert(plain[i] == high[i - 8]);
                }
            }
        }
    }
}

/// Replies that agree in the key id and the constructor are both a `resPQ` or both
/// none, whatever else they hold.
pub proof fn law_other_bytes_do_not_matter(a: Seq<u8>, b: Seq<u8>)
    requires
        a.len() >= 28,
        b.len() >= 28,
        a.subrange(4, 12) == b.subrange(4, 12),
        a.subrange(24, 28) == b.subrange(24, 28),
    ensures
        is_res_pq(a) == is_res_pq(b),
{
}

/// A reply starts with a transport error exactly where its first four bytes are the
/// length four and the next four a negative number; that number is the code.
pub proof fn law_transport_error_bytes(plain: Seq<u8>)
    ensures
        transport_error(plain) is Some <==> {
            &&& plain.len() >= 8
            &&& plain[0] == 4 && plain[1] == 0 && plain[2] == 0 && plain[3] == 0
            &&& plain[7] >= 0x80
        },
        transport_error(plain) matches Some(code) ==> code + 0x1_0000_0000 == plain[4] + 0x100
            * plain[5] + 0x1_0000 * plain[6] + 0x100_0000 * plain[7],
{
    if plain.len() >= 8 {
        le::lemma_le_value_unrolled(plain.subrange(0, 4));
        le::lemma_le_value_unrolled(plain.subrange(4, 8));
    }
}

/// The code that is read from a reply is that of the transport error it starts
/// with, and there is one exactly where it starts with one.
pub proof fn law_code_is_read_from_the_bytes(plain: &[u8], code: Option<i32>)
    requires
        call_ensures(reply_transport_error, (plain,), code),
    ensures
        code is Some <==> {
            &&& plain@.len() >= 8
            &&& plain@[0] == 4 && plain@[1] == 0 && plain@[2] == 0 && plain@[3] == 0
            &&& plain@[7] >= 0x80
        },
        code matches Some(n) ==> n < 0 && n + 0x1_0000_0000 == plain@[4] + 0x100 * plain@[5]
            + 0x1_0000 * plain@[6] + 0x100_0000 * plain@[7],
{
    law_transport_error_bytes(plain@);
}

/// What a reply is can no longer change exactly where a whole header has come, or
/// a transport error.
pub proof fn law_settled_by_header_or_error(plain: Seq<u8>)
    ensures
        reply_settled(plain) <==> plain.len() >= 28 || {
            &&& plain.len() >= 8
            &&& plain[0] == 4 && plain[1] == 0 && plain[2] == 0 && plain[3] == 0
            &&& plain[7] >= 0x80
        },
{
    law_transport_error_bytes(plain);
}

/// The message id has the seconds, as far as they fit, in its upper half, and
/// nothing in its lower half.
pub proof fn law_message_id_holds_the_seconds(unix_secs: u64, id: u64)
    requires
        call_ensures(request_message_id, (unix_secs,), id),
    ensures
        id % 0x1_0000_0000 == 0,
        id / 0x1_0000_0000 == unix_secs % 0x1_0000_0000,
{
}

/// The request made at a second with a nonce, byte for byte: the length of the
/// rest, no key id, the seconds in the upper half of the message id, the body
/// length, the constructor and the nonce.
pub proof fn law_request_bytes(unix_secs: u64, nonce: Seq<u8>)
    requires
        nonce.len() == 16,
    ensures
        ({
            let frame = req_pq_multi_frame(unix_secs as nat, nonce);
            &&& frame.len() == 44
            &&& frame.subrange(0, 4) == seq![40u8, 0u8, 0u8, 0u8]
            &&& forall|i: int| 4 <= i < 16 ==> #[trigger] frame[i] == 0
            &&& frame[16] == unix_secs % 256
            &&& frame[17] == unix_secs / 0x100 % 256
            &&& frame[18] == unix_secs / 0x1_0000 % 256
            &&& frame[19] == unix_secs / 0x100_0000 % 256
            &&& frame.subrange(20, 24) == seq![20u8, 0u8, 0u8, 0u8]
            &&& frame.subrange(24, 28) == seq![0xf1u8, 0x8eu8, 0x7eu8, 0xbeu8]
            &&& frame.subrange(28, 44) == nonce
        }),
{
    let id = message_id(unix_secs as nat);
    let ctor = le::le_bytes(REQ_PQ_MULTI_CTOR as nat, 4);
    let body = ctor + nonce;
    let packet = plain_message(id, body);
    let frame = req_pq_multi_frame(unix_secs as nat, nonce);
    le::lemma_le_bytes_len(REQ_PQ_MULTI_CTOR as nat, 4);
    le::lemma_le_bytes_len(id, 8);
    le::lemma_le_bytes_len(20, 4);
    le::lemma_le_bytes_len(40, 4);
    assert(body.len() == 20 && packet.len() == 40);
    assert(le::le_bytes(40, 4) =~= seq![40u8, 0u8, 0u8, 0u8]) by {
        reveal_with_fuel(le::le_bytes, 5);
    }
    assert(le::le_bytes(20, 4) =~= seq![20u8, 0u8, 0u8, 0u8]) by {
        reveal_with_fuel(le::le_bytes, 5);
    }
    assert(ctor =~= seq![0xf1u8, 0x8eu8, 0x7eu8, 0xbeu8]) by {
        reveal_with_fuel(le::le_bytes, 5);
    }
    lemma_message_id_bytes(unix_secs);
    assert(frame.subrange(0, 4) =~= le::le_bytes(40, 4));
    assert(frame.subrange(12, 20) =~= le::le_bytes(id, 8));
    assert(frame.subrange(20, 24) =~= le::le_bytes(20, 4));
    assert(frame.subrange(24, 28) =~= ctor);
    assert(frame.subrange(28, 44) =~= nonce);
    assert forall|i: int| 4 <= i < 16 implies #[trigger] frame[i] == 0 by {
        if i >= 12 {
            assert(frame[i] == frame.subrange(12, 20)[i - 12]);
        }
    }
    assert(frame[16] == frame.subrange(12, 20)[4]);
    assert(frame[17] == frame.subrange(12, 20)[5]);
    assert(frame[18] == frame.subrange(12, 20)[6]);
    assert(frame[19] == frame.subrange(12, 20)[7]);
}

proof fn lemma_message_id_bytes(unix_secs: u64)
    ensures
        ({
            let bytes = le::le_bytes(message_id(unix_secs as nat), 8);
            &&& bytes.len() == 8
            &&& bytes[0] == 0 && bytes[1] == 0 && bytes[2] == 0 && bytes[3] == 0
            &&& bytes[4] == unix_secs % 256
            &&& bytes[5] == unix_secs / 0x100 % 256
            &&& bytes[6] == unix_secs / 0x1_0000 % 256
            &&& bytes[7] == unix_secs / 0x100_0000 % 256
        }),
{
    let half = unix_secs as nat % 0x1_0000_0000;
    lemma_zero_byte_first(0x100_0000 * half, 8);
    lemma_zero_byte_first(0x1_0000 * half, 7);
    lemma_zero_byte_first(0x100 * half, 6);
    lemma_zero_byte_first(half, 5);
    lemma_four_digits(unix_secs);
}

/// A number times 256 has the bytes of the number after a zero byte.
proof fn lemma_zero_byte_first(value: nat, width: nat)
    requires
        width > 0,
    ensures
        le::le_bytes(256 * value, width) == seq![0u8] + le::le_bytes(value, (width - 1) as nat),
{
    assert((256 * value) % 256 == 0 && (256 * value) / 256 == value);
}

/// The lower half of a number of seconds, byte for byte.
proof fn lemma_four_digits(unix_secs: u64)
    ensures
        ({
            let bytes = le::le_bytes(unix_secs as nat % 0x1_0000_0000, 4);
            &&& bytes.len() == 4
            &&& bytes[0] == unix_secs % 256
            &&& bytes[1] == unix_secs / 0x100 % 256
            &&& bytes[2] == unix_secs / 0x1_0000 % 256
            &&& bytes[3] == unix_secs / 0x100_0000 % 256
        }),
{
    let half = unix_secs as nat % 0x1_0000_0000;
    le::lemma_le_bytes_len(half, 4);
    le::lemma_le_bytes_len(half / 256, 3);
    le::lemma_le_bytes_len(half / 256 / 256, 2);
    le::lemma_le_bytes_len(half / 256 / 256 / 256, 1);
    let bytes = le::le_bytes(half, 4);
    assert(bytes[1] == le::le_bytes(half / 256, 3)[0]);
    assert(bytes[2] == le::le_bytes(half / 256, 3)[1]);
    assert(bytes[2] == le::le_bytes(half / 256 / 256, 2)[0]);
    assert(bytes[3] == le::le_bytes(half / 256, 3)[2]);
    assert(bytes[3] == le::le_bytes(half / 256 / 256, 2)[1]);
    assert(bytes[3] == le::le_bytes(half / 256 / 256 / 256, 1)[0]);
    assert(unix_secs % 0x1_0000_0000 % 256 == unix_secs % 256) by (bit_vector);
    assert(unix_secs % 0x1_0000_0000 / 256 % 256 == unix_secs / 0x100 % 256) by (bit_vector);
    assert(unix_secs % 0x1_0000_0000 / 256 / 256 % 256 == unix_secs / 0x1_0000 % 256)
        by (bit_vector);
    assert(unix_secs % 0x1_0000_0000 / 256 / 256 / 256 % 256 == unix_secs / 0x100_0000 % 256)
        by (bit_vector);
}

/// A request says the second that it was made for and carries the nonce that it
/// was made with.
pub proof fn law_request_says_second_and_nonce(unix_secs: u64, nonce: &[u8; 16], frame: Vec<u8>)
    requires
        call_ensures(req_pq_multi_at, (unix_secs, nonce), frame),
    ensures
        frame@.len() == 44,
        frame@[16] + 0x100 * frame@[17] + 0x1_0000 * frame@[18] + 0x100_0000 * frame@[19]
            == unix_secs % 0x1_0000_0000,
        frame@.subrange(28, 44) == nonce@,
        frame@ == req_pq_multi_frame(unix_secs as nat, nonce@),
{
    let half = unix_secs as nat % 0x1_0000_0000;
    let bytes = le::le_bytes(half, 4);
    law_request_bytes(unix_secs, nonce@);
    lemma_four_digits(unix_secs);
    lemma_pow_256();
    le::law_le_round_trip(half, 4);
    le::lemma_le_value_unrolled(bytes);
    assert(frame@[16] == bytes[0] && frame@[17] == bytes[1] && frame@[18] == bytes[2] && frame@[19]
        == bytes[3]);
}

/// Whatever the clock shows and whichever nonce is drawn, what is sent is a
/// `req_pq_multi` request of that second with that nonce.
pub proof fn law_sent_request_bytes(frame: Vec<u8>)
    requires
        call_ensures(build_req_pq_multi, (), frame),
    ensures
        frame@.len() == 44,
        frame@.subrange(0, 4) == seq![40u8, 0u8, 0u8, 0u8],
        forall|i: int| 4 <= i < 16 ==> #[trigger] frame@[i] == 0,
        frame@.subrange(20, 24) == seq![20u8, 0u8, 0u8, 0u8],
        frame@.subrange(24, 28) == seq![0xf1u8, 0x8eu8, 0x7eu8, 0xbeu8],
        is_req_pq_multi(frame@),
        exists|unix_secs: u64|
            {
                &&& #[trigger] is_clock_second(unix_secs)
                &&& frame@[16] == unix_secs % 256
                &&& frame@[17] == unix_secs / 0x100 % 256
                &&& frame@[18] == unix_secs / 0x1_0000 % 256
                &&& frame@[19] == unix_secs / 0x100_0000 % 256
            },
        is_drawn_nonce(frame@.subrange(28, 44)),
{
    let (unix_secs, nonce) = choose|unix_secs: u64, nonce: Seq<u8>|
        {
            &&& is_clock_second(unix_secs)
            &&& is_drawn_nonce(nonce)
            &&& nonce.len() == 16
            &&& frame@ == #[trigger] req_pq_multi_frame(unix_secs as nat, nonce)
        };
    law_request_bytes(unix_secs, nonce);
}

/// Whatever passes for a request has the bytes of one.
pub proof fn law_is_request_bytes(frame: Seq<u8>)
    requires
        is_req_pq_multi(frame),
    ensures
        frame.len() == 44,
        frame.subrange(0, 4) == seq![40u8, 0u8, 0u8, 0u8],
        forall|i: int| 4 <= i < 16 ==> #[trigger] frame[i] == 0,
        frame.subrange(20, 24) == seq![20u8, 0u8, 0u8, 0u8],
        frame.subrange(24, 28) == seq![0xf1u8, 0x8eu8, 0x7eu8, 0xbeu8],
{
    let (unix_secs, nonce) = choose|unix_secs: u64, nonce: Seq<u8>|
        nonce.len() == NONCE_LEN && frame == #[trigger] req_pq_multi_frame(
            unix_secs as nat,
            nonce,
        );
    law_request_bytes(unix_secs, nonce);
}

/// A request is made for the second that the clock shows, and for the epoch exactly
/// where it shows none or shows that.
pub proof fn law_clock_gives_the_second(secs: Option<u64>, unix_secs: u64)
    requires
        call_ensures(request_second, (secs,), unix_secs),
    ensures
        secs matches Some(shown) ==> unix_secs == shown,
        unix_secs == 0 <==> secs is None || secs == Some(0u64),
{
}

/// A framed packet can be read back: its length prefix leads to the next frame,
/// the packet stands behind it, and up to three zero bytes fill the last word.
pub proof fn law_framed_packet_reads_back(packet: &Vec<u8>, frame: Vec<u8>)
    requires
        packet@.len() <= u32::MAX - 7,
        call_ensures(frame_packet, (packet,), frame),
    ensures
        frame@.len() % 4 == 0,
        packet@.len() + 4 <= frame@.len() <= packet@.len() + 7,
        frame@[0] + 0x100 * frame@[1] + 0x1_0000 * frame@[2] + 0x100_0000 * frame@[3]
            == frame@.len() - 4,
        forall|i: int| 0 <= i < packet@.len() ==> #[trigger] frame@[4 + i] == packet@[i],
        forall|i: int| 4 + packet@.len() <= i < frame@.len() ==> #[trigger] frame@[i] == 0,
{
    law_frame_is_padded(packet@);
    le::lemma_le_value_unrolled(frame@.subrange(0, 4));
    assert forall|i: int| 0 <= i < packet@.len() implies #[trigger] frame@[4 + i] == packet@[i] by {
        assert(frame@.subrange(4, 4int + packet@.len())[i] == packet@[i]);
    }
}

} // verus!
