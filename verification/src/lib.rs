//! Decoding of TFTP datagrams (RFC 1350) into typed packets.

pub mod format;
pub mod packet;
pub mod parser;
pub mod text;
pub mod theorems;
