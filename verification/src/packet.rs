//! The typed packets and the errors of decoding.

use vstd::prelude::*;
use vstd::string::*;
use vstd::utf8::{
    decode_utf8, decode_utf8_encode_utf8, is_ascii_chars, is_ascii_chars_encode_utf8, valid_utf8,
};

use crate::text::{eq_ignore_case, folded, matches_token, zero_free};

verus! {

/// Opcode of a read request.
pub const READ_OPCODE: u16 = 1;

/// Opcode of a write request.
pub const WRITE_OPCODE: u16 = 2;

/// Opcode of a data packet.
pub const DATA_OPCODE: u16 = 3;

/// Opcode of an acknowledgement.
pub const ACK_OPCODE: u16 = 4;

/// Opcode of an error packet.
pub const ERROR_OPCODE: u16 = 5;

/// Capacity of the payload buffer of a data packet.
pub const BLOCK_SIZE: usize = 512;

/// How the content of the transferred file is to be interpreted.
#[derive(Debug, PartialEq)]
pub enum Mode {
    NetAscii,
    Octet,
    Mail,
}

/// Why a buffer could not be decoded.
#[derive(Debug)]
pub enum Error {
    /// The leading 16-bit value names no kind of packet.
    InvalidOpcode,
    /// A zero-terminated field ran up to the boundary of the buffer without its terminator.
    NoZeroByte,
    /// The buffer ends before the fixed-size fields of its kind of packet.
    Truncated,
    /// A text field is not valid UTF-8.
    InvalidText,
    /// The mode of a request is none of `netascii`, `octet`, `mail`.
    UnsupportedMode,
}

impl Error {
    /// The message that describes the error.
    pub open spec fn text(self) -> Seq<char> {
        match self {
            Error::InvalidOpcode => "invalid opcode"@,
            Error::NoZeroByte => "couldn't find zero byte"@,
            Error::Truncated => "packet is truncated"@,
            Error::InvalidText => "text field is not valid UTF-8"@,
            Error::UnsupportedMode => "unsupported transfer mode"@,
        }
    }

    /// Renders the error as its message.
    pub fn to_string(&self) -> (message: String)
        ensures
            message@ == self.text(),
    {
        match self {
            Error::InvalidOpcode => "invalid opcode".to_owned(),
            Error::NoZeroByte => "couldn't find zero byte".to_owned(),
            Error::Truncated => "packet is truncated".to_owned(),
            Error::InvalidText => "text field is not valid UTF-8".to_owned(),
            Error::UnsupportedMode => "unsupported transfer mode".to_owned(),
        }
    }
}

impl Mode {
    /// The name of the mode, in small letters.
    pub open spec fn name(self) -> Seq<char> {
        match self {
            Mode::NetAscii => "netascii"@,
            Mode::Octet => "octet"@,
            Mode::Mail => "mail"@,
        }
    }

    /// The mode that a token names, if any: the names are matched without regard to case.
    pub open spec fn of_token(token: Seq<char>) -> Option<Mode> {
        if eq_ignore_case(token, "netascii"@) {
            Some(Mode::NetAscii)
        } else if eq_ignore_case(token, "octet"@) {
            Some(Mode::Octet)
        } else if eq_ignore_case(token, "mail"@) {
            Some(Mode::Mail)
        } else {
            None
        }
    }

    /// Looks up the mode that `s` names.
    pub fn from(s: &str) -> (mode: Result<Mode, Error>)
        ensures
            Mode::of_token(s@) matches Some(m) ==> mode == Ok::<Mode, Error>(m),
            Mode::of_token(s@) is None ==> mode == Err::<Mode, Error>(Error::UnsupportedMode),
    {
        proof {
            reveal_strlit("netascii");
            reveal_strlit("octet");
            reveal_strlit("mail");
        }
        if matches_token(s, "netascii") {
            Ok(Mode::NetAscii)
        } else if matches_token(s, "octet") {
            Ok(Mode::Octet)
        } else if matches_token(s, "mail") {
            Ok(Mode::Mail)
        } else {
            Err(Error::UnsupportedMode)
        }
    }
}

/// The name of a mode is a token for that mode.
pub proof fn lemma_mode_name(mode: Mode)
    ensures
        Mode::of_token(mode.name()) == Some(mode),
{
    reveal_strlit("netascii");
    reveal_strlit("octet");
    reveal_strlit("mail");
}

/// A token that names a mode is made of ASCII letters: it holds no zero byte.
pub proof fn lemma_mode_token(token: Seq<u8>)
    requires
        valid_utf8(token),
        Mode::of_token(decode_utf8(token)) is Some,
    ensures
        zero_free(token),
{
    let chars = decode_utf8(token);
    reveal_strlit("netascii");
    reveal_strlit("octet");
    reveal_strlit("mail");
    let name = if eq_ignore_case(chars, "netascii"@) {
        "netascii"@
    } else if eq_ignore_case(chars, "octet"@) {
        "octet"@
    } else {
        "mail"@
    };
    assert(eq_ignore_case(chars, name));
    assert forall|i: int| 0 <= i < chars.len() implies 'A' <= #[trigger] chars[i] <= 'z' by {
        assert(folded(chars[i]) == folded(name[i]));
    }
    assert(is_ascii_chars(chars));
    is_ascii_chars_encode_utf8(chars);
    decode_utf8_encode_utf8(token);
    assert forall|k: int| 0 <= k < token.len() implies token[k] != 0 by {
        assert(token[k] == chars[k] as u8);
    }
}

/// A decoded packet. Its text fields borrow from the buffer it was decoded from.
pub enum Packet<'a> {
    /// A request to read or to write a file.
    Request { op_code: u16, file_name: &'a str, mode: Mode },
    /// One block of a file. The first `len` bytes of `data` are the payload; a block with fewer
    /// than [`BLOCK_SIZE`] bytes is the last of its transfer.
    Data { op_code: u16, block: u16, data: [u8; BLOCK_SIZE], len: usize },
    /// The acknowledgement of the data packet with the same block number.
    Ack { op_code: u16, block: u16 },
    /// The report of a failure, with one of the error codes of the protocol and a message.
    Error { op_code: u16, error_code: u16, error_msg: &'a str },
}

/// What a packet holds, as mathematical values.
pub enum PacketView {
    Request { op_code: u16, file_name: Seq<char>, mode: Mode },
    Data { op_code: u16, block: u16, data: Seq<u8>, len: nat },
    Ack { op_code: u16, block: u16 },
    Error { op_code: u16, error_code: u16, error_msg: Seq<char> },
}

impl PacketView {
    /// The opcode that the packet holds.
    pub open spec fn op_code(self) -> u16 {
        match self {
            PacketView::Request { op_code, .. } => op_code,
            PacketView::Data { op_code, .. } => op_code,
            PacketView::Ack { op_code, .. } => op_code,
            PacketView::Error { op_code, .. } => op_code,
        }
    }

    /// The opcode is the one of the packet's kind, and the payload of a data packet fits its
    /// buffer.
    pub open spec fn well_formed(self) -> bool {
        match self {
            PacketView::Request { op_code, .. } => op_code == READ_OPCODE || op_code
                == WRITE_OPCODE,
            PacketView::Data { op_code, data, len, .. } => op_code == DATA_OPCODE && data.len()
                == BLOCK_SIZE && len <= BLOCK_SIZE,
            PacketView::Ack { op_code, .. } => op_code == ACK_OPCODE,
            PacketView::Error { op_code, .. } => op_code == ERROR_OPCODE,
        }
    }
}

impl<'a> View for Packet<'a> {
    type V = PacketView;

    open spec fn view(&self) -> PacketView {
        match *self {
            Packet::Request { op_code, file_name, mode } => PacketView::Request {
                op_code,
                file_name: file_name@,
                mode,
            },
            Packet::Data { op_code, block, data, len } => PacketView::Data {
                op_code,
                block,
                data: data@,
                len: len as nat,
            },
            Packet::Ack { op_code, block } => PacketView::Ack { op_code, block },
            Packet::Error { op_code, error_code, error_msg } => PacketView::Error {
                op_code,
                error_code,
                error_msg: error_msg@,
            },
        }
    }
}

impl<'a> Packet<'a> {
    /// The outcome of a decoding, with the packet taken by its view.
    pub open spec fn outcome(result: Result<Packet<'a>, Error>) -> Result<PacketView, Error> {
        match result {
            Ok(packet) => Ok(packet@),
            Err(error) => Err(error),
        }
    }
}

} // verus!
