//! The wire format, stated over sequences of bytes.
//!
//! | packet  | layout                                            |
//! |---------|---------------------------------------------------|
//! | request | opcode (2), file name, `0`, mode, `0`             |
//! | data    | opcode (2), block number (2), payload (0 to 512)  |
//! | ack     | opcode (2), block number (2)                      |
//! | error   | opcode (2), error code (2), message, `0`          |
//!
//! All 16-bit fields are big-endian. [`decode`] says what packet a buffer holds, [`encode`]
//! what buffer holds a packet.

use vstd::prelude::*;
use vstd::utf8::{decode_utf8, encode_utf8, valid_utf8};

use crate::packet::{
    Error, Mode, PacketView, ACK_OPCODE, BLOCK_SIZE, DATA_OPCODE, ERROR_OPCODE, READ_OPCODE,
    WRITE_OPCODE,
};
use crate::text::nul_free;

verus! {

/// The 16-bit value whose big-endian encoding is the byte pair `hi`, `lo`.
pub open spec fn be16(hi: u8, lo: u8) -> u16 {
    (hi as int * 256 + lo as int) as u16
}

/// The big-endian encoding of `value`.
pub open spec fn be16_bytes(value: u16) -> Seq<u8> {
    seq![(value / 256) as u8, (value % 256) as u8]
}

/// Reading a 16-bit value back from its big-endian encoding gives the value.
pub proof fn lemma_be16_bytes(value: u16)
    ensures
        be16_bytes(value).len() == 2,
        be16(be16_bytes(value)[0], be16_bytes(value)[1]) == value,
{
}

/// Reads a big-endian 16-bit value from its two bytes.
pub fn read_be16(hi: u8, lo: u8) -> (value: u16)
    ensures
        value == be16(hi, lo),
{
    let high: u16 = hi as u16;
    let low: u16 = lo as u16;
    high * 256 + low
}

/// `op_code` is one of the five opcodes.
pub open spec fn known_opcode(op_code: u16) -> bool {
    ||| op_code == READ_OPCODE
    ||| op_code == WRITE_OPCODE
    ||| op_code == DATA_OPCODE
    ||| op_code == ACK_OPCODE
    ||| op_code == ERROR_OPCODE
}

/// The field of `s` that starts at `from` ends at `at`: `at` is the place of the first zero
/// byte from `from` on, and it lies before the last byte of `s`, which no field reaches.
pub open spec fn field_ends_at(s: Seq<u8>, from: int, at: int) -> bool {
    &&& 0 <= from <= at < s.len() - 1
    &&& s[at] == 0
    &&& forall|k: int| from <= k < at ==> s[k] != 0
}

/// A zero-terminated field starts at `from`.
pub open spec fn has_field(s: Seq<u8>, from: int) -> bool {
    exists|at: int| field_ends_at(s, from, at)
}

/// The place of the terminator of the field that starts at `from`.
pub open spec fn field_end(s: Seq<u8>, from: int) -> int {
    choose|at: int| field_ends_at(s, from, at)
}

/// A field has one end only.
pub proof fn lemma_field_end(s: Seq<u8>, from: int, at: int)
    requires
        field_ends_at(s, from, at),
    ensures
        has_field(s, from),
        field_end(s, from) == at,
{
    let chosen = field_end(s, from);
    assert(field_ends_at(s, from, chosen));
    if chosen < at {
        assert(s[chosen] != 0);
    } else if at < chosen {
        assert(s[at] != 0);
    }
}

/// Where a zero byte lies at `at`, from `from` on and before the last byte of `s`, a field
/// starts at `from` and ends there or earlier.
pub proof fn lemma_zero_gives_field(s: Seq<u8>, from: int, at: int)
    requires
        0 <= from <= at < s.len() - 1,
        s[at] == 0,
    ensures
        has_field(s, from),
        field_end(s, from) <= at,
    decreases at - from,
{
    if forall|k: int| from <= k < at ==> s[k] != 0 {
        lemma_field_end(s, from, at);
    } else {
        let k = choose|k: int| from <= k < at && s[k] == 0;
        lemma_zero_gives_field(s, from, k);
    }
}

/// All bytes of `b` from `from` on and before the last are other than zero, but for the one at
/// `at`, which may be anything.
pub open spec fn zero_at_most_at(b: Seq<u8>, from: int, at: int) -> bool {
    forall|k: int| from <= k < b.len() - 1 && k != at ==> b[k] != 0
}

/// The payload of a data packet as it lies in the packet's buffer: followed by zeros up to the
/// block size.
pub open spec fn padded(payload: Seq<u8>) -> Seq<u8> {
    Seq::new(
        BLOCK_SIZE as nat,
        |i: int|
            if i < payload.len() {
                payload[i]
            } else {
                0u8
            },
    )
}

/// The request that the buffer `b` holds, where `op_code` is its leading value: the file name
/// and the mode are the two fields after the opcode.
pub open spec fn decode_request(b: Seq<u8>, op_code: u16) -> Result<PacketView, Error> {
    if b.len() < 2 {
        Err(Error::Truncated)
    } else {
        let fields = b.skip(2);
        if !has_field(fields, 0) || !has_field(fields, field_end(fields, 0) + 1) {
            Err(Error::NoZeroByte)
        } else {
            let name_end = field_end(fields, 0);
            let mode_end = field_end(fields, name_end + 1);
            let name = fields.subrange(0, name_end);
            let token = fields.subrange(name_end + 1, mode_end);
            if !valid_utf8(name) || !valid_utf8(token) {
                Err(Error::InvalidText)
            } else {
                match Mode::of_token(decode_utf8(token)) {
                    None => Err(Error::UnsupportedMode),
                    Some(mode) => Ok(
                        PacketView::Request { op_code, file_name: decode_utf8(name), mode },
                    ),
                }
            }
        }
    }
}

/// The data packet that the buffer `b` holds: the payload is what follows the block number, as
/// far as the block size goes.
pub open spec fn decode_data(b: Seq<u8>) -> Result<PacketView, Error> {
    if b.len() < 4 {
        Err(Error::Truncated)
    } else {
        let payload = b.skip(4);
        let len = if payload.len() < BLOCK_SIZE {
            payload.len()
        } else {
            BLOCK_SIZE as nat
        };
        Ok(
            PacketView::Data {
                op_code: DATA_OPCODE,
                block: be16(b[2], b[3]),
                data: padded(payload.take(len as int)),
                len,
            },
        )
    }
}

/// The acknowledgement that the buffer `b` holds.
pub open spec fn decode_ack(b: Seq<u8>) -> Result<PacketView, Error> {
    if b.len() < 4 {
        Err(Error::Truncated)
    } else {
        Ok(PacketView::Ack { op_code: ACK_OPCODE, block: be16(b[2], b[3]) })
    }
}

/// The error packet that the buffer `b` holds: the message is the field after the error code.
pub open spec fn decode_error(b: Seq<u8>) -> Result<PacketView, Error> {
    if b.len() < 4 {
        Err(Error::Truncated)
    } else {
        let fields = b.skip(4);
        if !has_field(fields, 0) {
            Err(Error::NoZeroByte)
        } else {
            let message = fields.subrange(0, field_end(fields, 0));
            if !valid_utf8(message) {
                Err(Error::InvalidText)
            } else {
                Ok(
                    PacketView::Error {
                        op_code: ERROR_OPCODE,
                        error_code: be16(b[2], b[3]),
                        error_msg: decode_utf8(message),
                    },
                )
            }
        }
    }
}

/// The packet that the buffer `b` holds, or the reason why it holds none.
pub open spec fn decode(b: Seq<u8>) -> Result<PacketView, Error> {
    if b.len() < 2 {
        Err(Error::Truncated)
    } else {
        let op_code = be16(b[0], b[1]);
        if op_code == READ_OPCODE || op_code == WRITE_OPCODE {
            decode_request(b, op_code)
        } else if op_code == DATA_OPCODE {
            decode_data(b)
        } else if op_code == ACK_OPCODE {
            decode_ack(b)
        } else if op_code == ERROR_OPCODE {
            decode_error(b)
        } else {
            Err(Error::InvalidOpcode)
        }
    }
}

/// A request as it lies on the wire.
pub open spec fn request_layout(op_code: u16, name: Seq<u8>, token: Seq<u8>) -> Seq<u8> {
    be16_bytes(op_code) + name + seq![0u8] + token + seq![0u8]
}

/// A data packet as it lies on the wire.
pub open spec fn data_layout(block: u16, payload: Seq<u8>) -> Seq<u8> {
    be16_bytes(DATA_OPCODE) + be16_bytes(block) + payload
}

/// An acknowledgement as it lies on the wire.
pub open spec fn ack_layout(block: u16) -> Seq<u8> {
    be16_bytes(ACK_OPCODE) + be16_bytes(block)
}

/// An error packet as it lies on the wire.
pub open spec fn error_layout(error_code: u16, message: Seq<u8>) -> Seq<u8> {
    be16_bytes(ERROR_OPCODE) + be16_bytes(error_code) + message + seq![0u8]
}

/// The buffer that holds `packet`: the packet as it lies on the wire, and after a request or
/// an error packet one more byte, since no field reaches the last byte of a buffer.
pub open spec fn encode(packet: PacketView) -> Seq<u8> {
    match packet {
        PacketView::Request { op_code, file_name, mode } => request_layout(
            op_code,
            encode_utf8(file_name),
            encode_utf8(mode.name()),
        ) + seq![0u8],
        PacketView::Data { block, data, len, .. } => data_layout(block, data.take(len as int)),
        PacketView::Ack { block, .. } => ack_layout(block),
        PacketView::Error { error_code, error_msg, .. } => error_layout(
            error_code,
            encode_utf8(error_msg),
        ) + seq![0u8],
    }
}

/// The packets that a buffer can hold: they are well formed, their texts are free of the zero
/// character, and the buffer of a data packet holds zeros after the payload.
pub open spec fn encodable(packet: PacketView) -> bool {
    &&& packet.well_formed()
    &&& match packet {
        PacketView::Request { file_name, .. } => nul_free(file_name),
        PacketView::Data { data, len, .. } => data == padded(data.take(len as int)),
        PacketView::Ack { .. } => true,
        PacketView::Error { error_msg, .. } => nul_free(error_msg),
    }
}

} // verus!
