//! What decoding makes of each kind of buffer, and how it goes with the layout of the packets
//! on the wire.

use vstd::prelude::*;
use vstd::utf8::{
    decode_utf8, decode_utf8_encode_utf8, encode_utf8, encode_utf8_decode_utf8,
    encode_utf8_valid_utf8, valid_utf8,
};

use crate::format::{
    ack_layout, be16, be16_bytes, data_layout, decode, encodable, encode, error_layout,
    field_end, field_ends_at, has_field, known_opcode, lemma_be16_bytes, lemma_field_end,
    lemma_zero_gives_field, padded, request_layout, zero_at_most_at,
};
use crate::packet::{
    lemma_mode_name, lemma_mode_token, Error, Mode, PacketView, ACK_OPCODE, BLOCK_SIZE,
    DATA_OPCODE, ERROR_OPCODE, READ_OPCODE, WRITE_OPCODE,
};
use crate::text::{lemma_text_zero_free, nul_free, zero_free};

verus! {

/// A buffer that holds a request, laid out as the format has it and followed by at least one
/// more byte, decodes to the request with the opcode, the file name and the mode that were laid
/// out.
pub proof fn theorem_request_layout(
    op_code: u16,
    name: Seq<u8>,
    token: Seq<u8>,
    mode: Mode,
    rest: Seq<u8>,
)
    requires
        op_code == READ_OPCODE || op_code == WRITE_OPCODE,
        zero_free(name),
        valid_utf8(name),
        valid_utf8(token),
        Mode::of_token(decode_utf8(token)) == Some(mode),
        rest.len() >= 1,
    ensures
        decode(request_layout(op_code, name, token) + rest) == Ok::<PacketView, Error>(
            PacketView::Request { op_code, file_name: decode_utf8(name), mode },
        ),
        encode_utf8(decode_utf8(name)) == name,
{
    let b = request_layout(op_code, name, token) + rest;
    let fields = b.skip(2);
    lemma_mode_token(token);
    lemma_be16_bytes(op_code);
    assert(b[0] == be16_bytes(op_code)[0]);
    assert(b[1] == be16_bytes(op_code)[1]);
    assert(fields =~= name + seq![0u8] + token + seq![0u8] + rest);
    let name_end = name.len() as int;
    let mode_end = name_end + 1 + token.len();
    assert(field_ends_at(fields, 0, name_end));
    lemma_field_end(fields, 0, name_end);
    assert(field_ends_at(fields, name_end + 1, mode_end)) by {
        assert forall|k: int| name_end + 1 <= k < mode_end implies fields[k] != 0 by {
            assert(fields[k] == token[k - name_end - 1]);
        }
    }
    lemma_field_end(fields, name_end + 1, mode_end);
    assert(fields.subrange(0, name_end) =~= name);
    assert(fields.subrange(name_end + 1, mode_end) =~= token);
    decode_utf8_encode_utf8(name);
}

/// A buffer of at least four bytes that leads with the opcode of data decodes to a data packet:
/// its block number is the big-endian value of the third and fourth byte, its length is the
/// number of bytes after the fourth, or the block size where there are more, and its buffer
/// starts with that many bytes of the payload and holds zeros after them.
pub proof fn theorem_data(b: Seq<u8>)
    requires
        b.len() >= 4,
        be16(b[0], b[1]) == DATA_OPCODE,
    ensures
        (decode(b) matches Ok(PacketView::Data { op_code, block, data, len }) && {
            &&& op_code == DATA_OPCODE
            &&& block == be16(b[2], b[3])
            &&& len == if b.len() - 4 < BLOCK_SIZE {
                b.len() - 4
            } else {
                BLOCK_SIZE as int
            }
            &&& data.len() == BLOCK_SIZE
            &&& data.take(len as int) == b.subrange(4, 4 + len as int)
            &&& forall|k: int| len <= k < BLOCK_SIZE ==> data[k] == 0
        }),
{
    let payload = b.skip(4);
    let len: int = if payload.len() < BLOCK_SIZE {
        payload.len() as int
    } else {
        BLOCK_SIZE as int
    };
    assert(padded(payload.take(len)).take(len) =~= b.subrange(4, 4 + len));
}

/// A data packet laid out as the format has it decodes to the block number and the payload that
/// were laid out, the payload cut at the block size.
pub proof fn theorem_data_layout(block: u16, payload: Seq<u8>)
    ensures
        decode(data_layout(block, payload)) == Ok::<PacketView, Error>(
            PacketView::Data {
                op_code: DATA_OPCODE,
                block,
                data: padded(
                    if payload.len() < BLOCK_SIZE {
                        payload
                    } else {
                        payload.take(BLOCK_SIZE as int)
                    },
                ),
                len: if payload.len() < BLOCK_SIZE {
                    payload.len()
                } else {
                    BLOCK_SIZE as nat
                },
            },
        ),
{
    let b = data_layout(block, payload);
    lemma_be16_bytes(DATA_OPCODE);
    lemma_be16_bytes(block);
    assert(b[0] == be16_bytes(DATA_OPCODE)[0]);
    assert(b[1] == be16_bytes(DATA_OPCODE)[1]);
    assert(b[2] == be16_bytes(block)[0]);
    assert(b[3] == be16_bytes(block)[1]);
    assert(b.skip(4) =~= payload);
    assert(payload.take(payload.len() as int) =~= payload);
}

/// A buffer of at least four bytes that leads with the opcode of an acknowledgement decodes to
/// the acknowledgement of the block whose number is the big-endian value of the third and
/// fourth byte.
pub proof fn theorem_ack(b: Seq<u8>)
    requires
        b.len() >= 4,
        be16(b[0], b[1]) == ACK_OPCODE,
    ensures
        decode(b) == Ok::<PacketView, Error>(
            PacketView::Ack { op_code: ACK_OPCODE, block: be16(b[2], b[3]) },
        ),
{
}

/// An acknowledgement laid out as the format has it, whatever follows it, decodes to the block
/// number that was laid out.
pub proof fn theorem_ack_layout(block: u16, rest: Seq<u8>)
    ensures
        decode(ack_layout(block) + rest) == Ok::<PacketView, Error>(
            PacketView::Ack { op_code: ACK_OPCODE, block },
        ),
{
    let b = ack_layout(block) + rest;
    lemma_be16_bytes(ACK_OPCODE);
    lemma_be16_bytes(block);
    assert(b[0] == be16_bytes(ACK_OPCODE)[0]);
    assert(b[1] == be16_bytes(ACK_OPCODE)[1]);
    assert(b[2] == be16_bytes(block)[0]);
    assert(b[3] == be16_bytes(block)[1]);
}

/// A buffer that holds an error packet, laid out as the format has it and followed by at least
/// one more byte, decodes to the error code and the message that were laid out.
pub proof fn theorem_error_layout(error_code: u16, message: Seq<u8>, rest: Seq<u8>)
    requires
        zero_free(message),
        valid_utf8(message),
        rest.len() >= 1,
    ensures
        decode(error_layout(error_code, message) + rest) == Ok::<PacketView, Error>(
            PacketView::Error {
                op_code: ERROR_OPCODE,
                error_code,
                error_msg: decode_utf8(message),
            },
        ),
        encode_utf8(decode_utf8(message)) == message,
{
    let b = error_layout(error_code, message) + rest;
    let fields = b.skip(4);
    lemma_be16_bytes(ERROR_OPCODE);
    lemma_be16_bytes(error_code);
    assert(b[0] == be16_bytes(ERROR_OPCODE)[0]);
    assert(b[1] == be16_bytes(ERROR_OPCODE)[1]);
    assert(b[2] == be16_bytes(error_code)[0]);
    assert(b[3] == be16_bytes(error_code)[1]);
    assert(fields =~= message + seq![0u8] + rest);
    let end = message.len() as int;
    assert(field_ends_at(fields, 0, end));
    lemma_field_end(fields, 0, end);
    assert(fields.subrange(0, end) =~= message);
    decode_utf8_encode_utf8(message);
}

/// The buffers that are refused for their opcode are those of two bytes or more whose leading
/// value is none of the five opcodes.
pub proof fn theorem_invalid_opcode(b: Seq<u8>)
    ensures
        decode(b) == Err::<PacketView, Error>(Error::InvalidOpcode) <==> b.len() >= 2
            && !known_opcode(be16(b[0], b[1])),
{
}

/// The buffers that are refused as truncated are those of fewer than two bytes, and those of
/// fewer than four that lead with the opcode of data, of an acknowledgement or of an error.
pub proof fn theorem_truncated(b: Seq<u8>)
    ensures
        decode(b) == Err::<PacketView, Error>(Error::Truncated) <==> b.len() < 2 || (b.len() < 4
            && (be16(b[0], b[1]) == DATA_OPCODE || be16(b[0], b[1]) == ACK_OPCODE || be16(
            b[0],
            b[1],
        ) == ERROR_OPCODE)),
{
}

/// A request is refused for the lack of a terminator where, and only where, its bytes after the
/// opcode and before the last byte of the buffer hold fewer than two zero bytes.
pub proof fn theorem_request_without_terminator(b: Seq<u8>)
    requires
        b.len() >= 2,
        be16(b[0], b[1]) == READ_OPCODE || be16(b[0], b[1]) == WRITE_OPCODE,
    ensures
        decode(b) == Err::<PacketView, Error>(Error::NoZeroByte) <==> exists|at: int|
            zero_at_most_at(b, 2, at),
{
    let fields = b.skip(2);
    if exists|at: int| zero_at_most_at(b, 2, at) {
        if has_field(fields, 0) {
            let first = field_end(fields, 0);
            assert(b[first + 2] == fields[first]);
            if has_field(fields, first + 1) {
                let second = field_end(fields, first + 1);
                assert(b[second + 2] == fields[second]);
            }
        }
    } else {
        if !has_field(fields, 0) {
            assert forall|k: int| 2 <= k < b.len() - 1 implies b[k] != 0 by {
                if b[k] == 0 {
                    assert(fields[k - 2] == b[k]);
                    lemma_zero_gives_field(fields, 0, k - 2);
                }
            }
            assert(zero_at_most_at(b, 2, 0));
        } else {
            let first = field_end(fields, 0);
            if !has_field(fields, first + 1) {
                assert forall|k: int| 2 <= k < b.len() - 1 && k != first + 2 implies b[k]
                    != 0 by {
                    if b[k] == 0 {
                        assert(fields[k - 2] == b[k]);
                        if k - 2 > first {
                            lemma_zero_gives_field(fields, first + 1, k - 2);
                        }
                    }
                }
                assert(zero_at_most_at(b, 2, first + 2));
            }
        }
    }
}

/// An error packet is refused for the lack of a terminator where, and only where, its bytes
/// after the error code and before the last byte of the buffer are all other than zero.
pub proof fn theorem_error_without_terminator(b: Seq<u8>)
    requires
        b.len() >= 4,
        be16(b[0], b[1]) == ERROR_OPCODE,
    ensures
        decode(b) == Err::<PacketView, Error>(Error::NoZeroByte) <==> forall|k: int|
            4 <= k < b.len() - 1 ==> b[k] != 0,
{
    let fields = b.skip(4);
    if has_field(fields, 0) {
        let end = field_end(fields, 0);
        assert(b[end + 4] == fields[end]);
    } else {
        assert forall|k: int| 4 <= k < b.len() - 1 implies b[k] != 0 by {
            if b[k] == 0 {
                assert(fields[k - 4] == b[k]);
                lemma_zero_gives_field(fields, 0, k - 4);
            }
        }
    }
}

/// A decoded packet is well formed, and the opcode that it holds is the one that its buffer
/// leads with.
pub proof fn theorem_well_formed(b: Seq<u8>)
    ensures
        decode(b) matches Ok(packet) ==> packet.well_formed() && packet.op_code() == be16(
            b[0],
            b[1],
        ),
{
}

/// The texts of a decoded packet end before the terminator of their field: they hold no zero
/// character.
pub proof fn theorem_text_nul_free(b: Seq<u8>)
    ensures
        (decode(b) matches Ok(PacketView::Request { file_name, .. }) ==> nul_free(file_name)),
        (decode(b) matches Ok(PacketView::Error { error_msg, .. }) ==> nul_free(error_msg)),
{
    if b.len() >= 2 {
        let fields = b.skip(2);
        if has_field(fields, 0) {
            let name = fields.subrange(0, field_end(fields, 0));
            if valid_utf8(name) {
                decode_utf8_encode_utf8(name);
                lemma_text_zero_free(decode_utf8(name));
            }
        }
    }
    if b.len() >= 4 {
        let fields = b.skip(4);
        if has_field(fields, 0) {
            let message = fields.subrange(0, field_end(fields, 0));
            if valid_utf8(message) {
                decode_utf8_encode_utf8(message);
                lemma_text_zero_free(decode_utf8(message));
            }
        }
    }
}

/// A request laid out as the format has it, with no byte after the terminator of its mode, is
/// refused: a zero on the last byte of a buffer is not taken for a terminator.
pub proof fn theorem_request_boundary(op_code: u16, name: Seq<u8>, token: Seq<u8>)
    requires
        op_code == READ_OPCODE || op_code == WRITE_OPCODE,
        zero_free(name),
        zero_free(token),
    ensures
        decode(request_layout(op_code, name, token)) == Err::<PacketView, Error>(
            Error::NoZeroByte,
        ),
{
    let b = request_layout(op_code, name, token);
    lemma_be16_bytes(op_code);
    assert(b[0] == be16_bytes(op_code)[0]);
    assert(b[1] == be16_bytes(op_code)[1]);
    let at = 2 + name.len() as int;
    assert forall|k: int| 2 <= k < b.len() - 1 && k != at implies b[k] != 0 by {
        if k < at {
            assert(b[k] == name[k - 2]);
        } else {
            assert(b[k] == token[k - at - 1]);
        }
    }
    assert(zero_at_most_at(b, 2, at));
    theorem_request_without_terminator(b);
}

/// An error packet laid out as the format has it, with no byte after the terminator of its
/// message, is refused: a zero on the last byte of a buffer is not taken for a terminator.
pub proof fn theorem_error_boundary(error_code: u16, message: Seq<u8>)
    requires
        zero_free(message),
    ensures
        decode(error_layout(error_code, message)) == Err::<PacketView, Error>(
            Error::NoZeroByte,
        ),
{
    let b = error_layout(error_code, message);
    lemma_be16_bytes(ERROR_OPCODE);
    assert(b[0] == be16_bytes(ERROR_OPCODE)[0]);
    assert(b[1] == be16_bytes(ERROR_OPCODE)[1]);
    assert forall|k: int| 4 <= k < b.len() - 1 implies b[k] != 0 by {
        assert(b[k] == message[k - 4]);
    }
    theorem_error_without_terminator(b);
}

/// Decoding the buffer that holds a packet gives the packet.
pub proof fn theorem_decode_encode(packet: PacketView)
    requires
        encodable(packet),
    ensures
        decode(encode(packet)) == Ok::<PacketView, Error>(packet),
{
    match packet {
        PacketView::Request { op_code, file_name, mode } => {
            lemma_text_zero_free(file_name);
            encode_utf8_valid_utf8(file_name);
            encode_utf8_valid_utf8(mode.name());
            encode_utf8_decode_utf8(file_name);
            encode_utf8_decode_utf8(mode.name());
            lemma_mode_name(mode);
            theorem_request_layout(
                op_code,
                encode_utf8(file_name),
                encode_utf8(mode.name()),
                mode,
                seq![0u8],
            );
        },
        PacketView::Data { block, data, len, .. } => {
            let payload = data.take(len as int);
            theorem_data_layout(block, payload);
            if len == BLOCK_SIZE {
                assert(payload.take(BLOCK_SIZE as int) =~= payload);
            }
        },
        PacketView::Ack { block, .. } => {
            theorem_ack_layout(block, Seq::empty());
            assert(ack_layout(block) + Seq::<u8>::empty() =~= ack_layout(block));
        },
        PacketView::Error { error_code, error_msg, .. } => {
            lemma_text_zero_free(error_msg);
            encode_utf8_valid_utf8(error_msg);
            encode_utf8_decode_utf8(error_msg);
            theorem_error_layout(error_code, encode_utf8(error_msg), seq![0u8]);
        },
    }
}

/// A request with its mode named in small letters and one byte after the terminator of the
/// mode is the buffer that holds the packet it decodes to.
pub proof fn theorem_encode_decode_request(op_code: u16, name: Seq<u8>, mode: Mode)
    requires
        op_code == READ_OPCODE || op_code == WRITE_OPCODE,
        zero_free(name),
        valid_utf8(name),
    ensures
        ({
            let b = request_layout(op_code, name, encode_utf8(mode.name())) + seq![0u8];
            decode(b) matches Ok(packet) && encodable(packet) && encode(packet) == b
        }),
{
    let token = encode_utf8(mode.name());
    encode_utf8_valid_utf8(mode.name());
    encode_utf8_decode_utf8(mode.name());
    lemma_mode_name(mode);
    theorem_request_layout(op_code, name, token, mode, seq![0u8]);
    lemma_text_zero_free(decode_utf8(name));
}

/// A data buffer with no more payload than the block size is the buffer that holds the packet
/// it decodes to.
pub proof fn theorem_encode_decode_data(b: Seq<u8>)
    requires
        4 <= b.len() <= 4 + BLOCK_SIZE,
        be16(b[0], b[1]) == DATA_OPCODE,
    ensures
        (decode(b) matches Ok(packet) && encodable(packet) && encode(packet) == b),
{
    let payload = b.skip(4);
    assert(payload.take(payload.len() as int) =~= payload);
    assert(padded(payload).take(payload.len() as int) =~= payload);
    lemma_be16_bytes(DATA_OPCODE);
    lemma_be16_bytes(be16(b[2], b[3]));
    assert(encode(decode(b).unwrap()) =~= b);
}

/// An acknowledgement of four bytes is the buffer that holds the packet it decodes to.
pub proof fn theorem_encode_decode_ack(b: Seq<u8>)
    requires
        b.len() == 4,
        be16(b[0], b[1]) == ACK_OPCODE,
    ensures
        (decode(b) matches Ok(packet) && encodable(packet) && encode(packet) == b),
{
    assert(encode(decode(b).unwrap()) =~= b);
}

/// An error packet with one byte after the terminator of its message is the buffer that holds
/// the packet it decodes to.
pub proof fn theorem_encode_decode_error(error_code: u16, message: Seq<u8>)
    requires
        zero_free(message),
        valid_utf8(message),
    ensures
        ({
            let b = error_layout(error_code, message) + seq![0u8];
            decode(b) matches Ok(packet) && encodable(packet) && encode(packet) == b
        }),
{
    theorem_error_layout(error_code, message, seq![0u8]);
    lemma_text_zero_free(decode_utf8(message));
}

} // verus!
