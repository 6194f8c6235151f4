//! The packet codec: ICMP Echo Request frames as they are sent, and Echo
//! Reply frames as a raw socket delivers them, behind an IPv4 header.

use crate::checksum::{
    calculate_checksum, embed_checksum, internet_checksum, lemma_checksum_embedded, with_word,
};
use crate::error::PingError;
use vstd::prelude::*;

verus! {

/// ICMP type of an Echo Request.
pub const ECHO_REQUEST: u8 = 8;

/// ICMP type of an Echo Reply.
pub const ECHO_REPLY: u8 = 0;

/// Length of the ICMP header of an echo message.
pub const ICMP_HEADER_LEN: usize = 8;

/// Length of the shortest IPv4 header, which a raw socket puts before the
/// ICMP message it delivers.
pub const IP_HEADER_LEN: usize = 20;

/// What is read from a valid Echo Reply.
#[derive(Debug, Clone, Copy, PartialEq, Eq, Structural)]
pub struct EchoReply {
    /// Time to live of the IP packet that carried the reply.
    pub ttl: u8,
    /// Sequence number of the reply.
    pub sequence: u16,
}

/// The header of an Echo Request with the checksum field zero: type, code,
/// checksum, identifier and sequence number, the 16-bit fields big-endian.
pub open spec fn request_header(sequence: u16, identifier: u16) -> Seq<u8> {
    seq![
        ECHO_REQUEST,
        0u8,
        0u8,
        0u8,
        (identifier / 256) as u8,
        (identifier % 256) as u8,
        (sequence / 256) as u8,
        (sequence % 256) as u8,
    ]
}

/// An Echo Request before its checksum is written: the header and
/// `payload_size` zero bytes.
pub open spec fn unsummed_request(sequence: u16, identifier: u16, payload_size: nat) -> Seq<u8> {
    request_header(sequence, identifier) + Seq::new(payload_size, |i: int| 0u8)
}

/// The Echo Request frame: the unsummed frame with its checksum written into
/// the checksum field, which is word 1.
pub open spec fn echo_request(sequence: u16, identifier: u16, payload_size: nat) -> Seq<u8> {
    embed_checksum(unsummed_request(sequence, identifier, payload_size), 1)
}

/// Whether `bytes`, as a raw socket delivered them, hold an Echo Reply: at
/// least the 20 bytes of an IPv4 header and the 8 of an ICMP header, with the
/// ICMP type of an Echo Reply at offset 20.
pub open spec fn is_echo_reply(bytes: Seq<u8>) -> bool {
    bytes.len() >= 28 && bytes[20] == ECHO_REPLY
}

/// What is read from the Echo Reply in `bytes`: the time to live at offset 8
/// and the sequence number, big-endian, at offsets 24 and 25.
pub open spec fn reply_of(bytes: Seq<u8>) -> EchoReply {
    EchoReply { ttl: bytes[8], sequence: (bytes[24] * 256 + bytes[25]) as u16 }
}

/// How an Echo Request frame is laid out: type 8 and code 0, the checksum of
/// the frame taken with a zero checksum field, the identifier and the
/// sequence number, each big-endian, and zero bytes as payload. The checksum
/// of the whole frame is zero.
pub proof fn lemma_echo_request_layout(sequence: u16, identifier: u16, payload_size: nat)
    ensures
        ({
            let frame = echo_request(sequence, identifier, payload_size);
            &&& frame.len() == 8 + payload_size
            &&& frame[0] == ECHO_REQUEST
            &&& frame[1] == 0
            &&& frame[2] * 256 + frame[3] == internet_checksum(
                unsummed_request(sequence, identifier, payload_size),
            )
            &&& frame[4] * 256 + frame[5] == identifier
            &&& frame[6] * 256 + frame[7] == sequence
            &&& (forall|i: int| 8 <= i < frame.len() ==> #[trigger] frame[i] == 0)
            &&& internet_checksum(frame) == 0
        }),
{
    let unsummed = unsummed_request(sequence, identifier, payload_size);
    assert(with_word(unsummed, 1, 0) =~= unsummed);
    lemma_checksum_embedded(unsummed, 1);
}

/// High and low byte of a 16-bit value, as it is written big-endian.
fn be_bytes(value: u16) -> (bytes: (u8, u8))
    ensures
        bytes.0 == value / 256,
        bytes.1 == value % 256,
{
    assert(value >> 8 == value / 256 && value & 0xFF == value % 256 && (value >> 8) <= 0xFF)
        by (bit_vector);
    ((value >> 8) as u8, (value & 0xFF) as u8)
}

/// Builds the Echo Request frame with the given sequence number, identifier
/// and number of zero payload bytes.
///
/// The frame carries its own checksum, so the checksum of the whole frame is
/// zero.
pub fn encode_request(sequence: u16, identifier: u16, payload_size: usize) -> (frame: Vec<u8>)
    requires
        payload_size + ICMP_HEADER_LEN <= usize::MAX,
    ensures
        frame@ == echo_request(sequence, identifier, payload_size as nat),
        frame@.len() == payload_size + ICMP_HEADER_LEN,
        internet_checksum(frame@) == 0,
{
    let id = be_bytes(identifier);
    let seq = be_bytes(sequence);
    let mut frame: Vec<u8> = Vec::new();
    frame.push(ECHO_REQUEST);
    frame.push(0);
    frame.push(0);
    frame.push(0);
    frame.push(id.0);
    frame.push(id.1);
    frame.push(seq.0);
    frame.push(seq.1);
    let mut filled: usize = 0;
    while filled < payload_size
        invariant
            filled <= payload_size,
            frame@ == unsummed_request(sequence, identifier, filled as nat),
        decreases payload_size - filled,
    {
        frame.push(0);
        filled += 1;
        assert(frame@ =~= unsummed_request(sequence, identifier, filled as nat));
    }
    let ghost unsummed = frame@;
    let checksum = be_bytes(calculate_checksum(frame.as_slice()));
    frame.set(2, checksum.0);
    frame.set(3, checksum.1);
    proof {
        assert(with_word(unsummed, 1, 0) =~= unsummed);
        assert(frame@ =~= embed_checksum(unsummed, 1));
        lemma_checksum_embedded(unsummed, 1);
    }
    frame
}

/// Reads an Echo Reply from what a raw socket delivered: an IPv4 header of 20
/// bytes and, behind it, the ICMP message.
///
/// The ICMP type is the byte at offset 20, the time to live the byte at
/// offset 8, and the sequence number the two bytes at offsets 24 and 25,
/// big-endian. Anything shorter than 28 bytes, and any ICMP type but Echo
/// Reply, is an invalid response.
pub fn decode_reply(bytes: &[u8]) -> (result: Result<EchoReply, PingError>)
    ensures
        bytes@.len() < 28 ==> result matches Err(PingError::InvalidResponse),
        bytes@.len() >= 28 && bytes@[20] != ECHO_REPLY ==> result matches Err(
            PingError::InvalidResponse,
        ),
        bytes@.len() >= 28 && bytes@[20] == ECHO_REPLY ==> (result matches Ok(reply) && reply.ttl
            == bytes@[8] && reply.sequence == bytes@[24] * 256 + bytes@[25]),
        result is Ok <==> is_echo_reply(bytes@),
        result matches Ok(reply) ==> reply == reply_of(bytes@),
{
    if bytes.len() < IP_HEADER_LEN + ICMP_HEADER_LEN {
        return Err(PingError::InvalidResponse);
    }
    if bytes[IP_HEADER_LEN] != ECHO_REPLY {
        return Err(PingError::InvalidResponse);
    }
    let high: u16 = bytes[IP_HEADER_LEN + 4] as u16;
    let low: u16 = bytes[IP_HEADER_LEN + 5] as u16;
    assert((high << 8) | low == high * 256 + low) by (bit_vector)
        requires
            high <= 0xFF,
            low <= 0xFF,
    ;
    Ok(EchoReply { ttl: bytes[8], sequence: (high << 8) | low })
}

} // verus!
