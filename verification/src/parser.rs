//! Decoding of a buffer into a packet.

use vstd::prelude::*;
use vstd::slice::slice_subrange;
use vstd::string::*;

use crate::format::{
    decode, decode_ack, decode_data, decode_error, decode_request, field_end, has_field,
    lemma_field_end, padded, read_be16,
};
use crate::packet::{
    Error, Mode, Packet, ACK_OPCODE, BLOCK_SIZE, DATA_OPCODE, ERROR_OPCODE, READ_OPCODE,
    WRITE_OPCODE,
};
use crate::text::utf8_text;

verus! {

/// A place in a buffer, from which the next field is read.
pub struct Cursor<'a> {
    pub bytes: &'a [u8],
    pub position: usize,
}

impl<'a> Cursor<'a> {
    /// A cursor at the start of `bytes`.
    pub fn new(bytes: &'a [u8]) -> (cursor: Cursor<'a>)
        ensures
            cursor.bytes == bytes,
            cursor.position == 0,
    {
        Cursor { bytes, position: 0 }
    }
}

/// Reads the zero-terminated field at the cursor and moves the cursor past its terminator.
///
/// The terminator is looked for from the cursor up to, and not including, the last byte of the
/// buffer: a zero on the last byte ends no field, and an empty buffer holds none. Where there
/// is no terminator, the cursor stays where it is.
pub fn read_until_zero_byte<'a>(cursor: &mut Cursor<'a>) -> (field: Result<&'a [u8], Error>)
    ensures
        final(cursor).bytes == old(cursor).bytes,
        field is Ok <==> has_field(old(cursor).bytes@, old(cursor).position as int),
        field matches Ok(bytes) ==> bytes@ == old(cursor).bytes@.subrange(
            old(cursor).position as int,
            field_end(old(cursor).bytes@, old(cursor).position as int),
        ),
        field is Ok ==> final(cursor).position == field_end(
            old(cursor).bytes@,
            old(cursor).position as int,
        ) + 1,
        field matches Err(error) ==> error == Error::NoZeroByte,
        field is Err ==> final(cursor).position == old(cursor).position,
{
    let bytes = cursor.bytes;
    let start = cursor.position;
    if bytes.len() == 0 {
        return Err(Error::NoZeroByte);
    }
    let end = bytes.len() - 1;
    let mut i = start;
    while i < end
        invariant
            *cursor == *old(cursor),
            bytes == cursor.bytes,
            start == cursor.position,
            start <= i,
            end == bytes@.len() - 1,
            forall|k: int| start <= k < i ==> bytes@[k] != 0,
        decreases end - i,
    {
        if bytes[i] == 0 {
            proof {
                lemma_field_end(bytes@, start as int, i as int);
            }
            cursor.position = i + 1;
            return Ok(slice_subrange(bytes, start, i));
        }
        i += 1;
    }
    Err(Error::NoZeroByte)
}

/// Decodes a read or write request. `op_code` is the value that the buffer leads with; it is
/// kept in the packet as it is.
pub fn parse_rwrq<'a>(bytes: &'a [u8], op_code: u16) -> (result: Result<Packet<'a>, Error>)
    ensures
        Packet::outcome(result) == decode_request(bytes@, op_code),
{
    broadcast use vstd::utf8::encode_utf8_decode_utf8;

    if bytes.len() < 2 {
        return Err(Error::Truncated);
    }
    let mut cursor = Cursor::new(slice_subrange(bytes, 2, bytes.len()));
    let name = match read_until_zero_byte(&mut cursor) {
        Ok(field) => field,
        Err(error) => {
            return Err(error);
        },
    };
    let token = match read_until_zero_byte(&mut cursor) {
        Ok(field) => field,
        Err(error) => {
            return Err(error);
        },
    };
    let file_name = match utf8_text(name) {
        Some(text) => text,
        None => {
            return Err(Error::InvalidText);
        },
    };
    let mode_name = match utf8_text(token) {
        Some(text) => text,
        None => {
            return Err(Error::InvalidText);
        },
    };
    match Mode::from(mode_name) {
        Ok(mode) => Ok(Packet::Request { op_code, file_name, mode }),
        Err(error) => Err(error),
    }
}

/// Decodes a data packet: the block number, and the payload copied into the packet's buffer,
/// as far as the buffer has room for it.
pub fn parse_data<'a>(bytes: &'a [u8]) -> (result: Result<Packet<'a>, Error>)
    ensures
        Packet::outcome(result) == decode_data(bytes@),
{
    if bytes.len() < 4 {
        return Err(Error::Truncated);
    }
    let block = read_be16(bytes[2], bytes[3]);
    let payload = slice_subrange(bytes, 4, bytes.len());
    let len = if payload.len() < BLOCK_SIZE {
        payload.len()
    } else {
        BLOCK_SIZE
    };
    let mut data = [0u8;BLOCK_SIZE];
    let mut i: usize = 0;
    while i < len
        invariant
            i <= len <= BLOCK_SIZE,
            len <= payload@.len(),
            forall|k: int| 0 <= k < i ==> data@[k] == payload@[k],
            forall|k: int| i <= k < BLOCK_SIZE ==> data@[k] == 0,
        decreases len - i,
    {
        data[i] = payload[i];
        i += 1;
    }
    assert(data@ =~= padded(payload@.take(len as int)));
    Ok(Packet::Data { op_code: DATA_OPCODE, block, data, len })
}

/// Decodes an acknowledgement.
pub fn parse_ack<'a>(bytes: &'a [u8]) -> (result: Result<Packet<'a>, Error>)
    ensures
        Packet::outcome(result) == decode_ack(bytes@),
{
    if bytes.len() < 4 {
        return Err(Error::Truncated);
    }
    let block = read_be16(bytes[2], bytes[3]);
    Ok(Packet::Ack { op_code: ACK_OPCODE, block })
}

/// Decodes an error packet.
pub fn parse_error<'a>(bytes: &'a [u8]) -> (result: Result<Packet<'a>, Error>)
    ensures
        Packet::outcome(result) == decode_error(bytes@),
{
    broadcast use vstd::utf8::encode_utf8_decode_utf8;

    if bytes.len() < 4 {
        return Err(Error::Truncated);
    }
    let error_code = read_be16(bytes[2], bytes[3]);
    let mut cursor = Cursor::new(slice_subrange(bytes, 4, bytes.len()));
    let message = match read_until_zero_byte(&mut cursor) {
        Ok(field) => field,
        Err(error) => {
            return Err(error);
        },
    };
    match utf8_text(message) {
        Some(error_msg) => Ok(Packet::Error { op_code: ERROR_OPCODE, error_code, error_msg }),
        None => Err(Error::InvalidText),
    }
}

impl<'a> Packet<'a> {
    /// Decodes the packet that `bytes` holds.
    ///
    /// The first two bytes, a big-endian value, name the kind of packet; the rest is decoded as
    /// that kind lays it out. The packet's opcode is the one of its kind. No buffer makes the
    /// decoder panic:
    ///
    /// - a buffer that ends before the opcode, or before the block number or error code that
    ///   its opcode calls for, is [`Error::Truncated`];
    /// - a leading value that is none of the five opcodes is [`Error::InvalidOpcode`];
    /// - a request without the terminators of its file name and mode, or an error packet
    ///   without the terminator of its message, is [`Error::NoZeroByte`]: a terminator counts
    ///   only where it lies before the last byte of the buffer;
    /// - a file name, mode or message that is not UTF-8 is [`Error::InvalidText`];
    /// - a mode other than `netascii`, `octet` and `mail`, in any case of the letters, is
    ///   [`Error::UnsupportedMode`].
    ///
    /// Of a request or an error packet that fails in more than one of these ways, the first in
    /// this list is reported.
    pub fn parse(bytes: &'a [u8]) -> (result: Result<Packet<'a>, Error>)
        ensures
            Packet::outcome(result) == decode(bytes@),
            result matches Ok(packet) ==> packet@.well_formed(),
    {
        if bytes.len() < 2 {
            return Err(Error::Truncated);
        }
        let op_code = read_be16(bytes[0], bytes[1]);
        match op_code {
            READ_OPCODE => parse_rwrq(bytes, op_code),
            WRITE_OPCODE => parse_rwrq(bytes, op_code),
            DATA_OPCODE => parse_data(bytes),
            ACK_OPCODE => parse_ack(bytes),
            ERROR_OPCODE => parse_error(bytes),
            _ => Err(Error::InvalidOpcode),
        }
    }
}

} // verus!
