use crate::gametypes::map_position::MapPosition;
use bytey_byte_buffer::error::ByteBufferError;
use mmap_bytey_byte_buffer::error::MByteBufferError;
use vstd::prelude::*;

verus! {

/// Failure of the inbound byte buffer, as `bytey_byte_buffer` reports it. Opaque to the proofs.
#[verifier::external_type_specification]
#[verifier::external_body]
pub struct ExByteBufferError(ByteBufferError);

/// Failure of a frame buffer, as `mmap_bytey_byte_buffer` reports it. Opaque to the proofs.
#[verifier::external_type_specification]
#[verifier::external_body]
pub struct ExMByteBufferError(MByteBufferError);

/// Failure of the regular-expression compiler, as `regex` reports it. Opaque to the proofs.
#[verifier::external_type_specification]
#[verifier::external_body]
pub struct ExRegexError(regex::Error);

/// Failure of token signing, as `jsonwebtoken` reports it. Opaque to the proofs.
#[verifier::external_type_specification]
#[verifier::external_body]
pub struct ExJwtError(jsonwebtoken::errors::Error);

/// Everything that can go wrong inside the broker.
///
/// The variants that wrap a failure of the operating system, the TLS layer, the
/// configuration file or the player store carry its message as text; those that
/// wrap a failure reported to this library by a crate it calls carry that value.
#[derive(Debug)]
#[allow(inconsistent_fields)]
pub enum AscendingError {
    Unhandled,
    MultiLogin,
    RegisterFail,
    UserNotFound,
    InvalidSocket,
    PacketManipulation { name: String },
    PacketReject { num: usize, message: String },
    InvalidPacket,
    IncorrectPassword,
    NoUsernameSet,
    NoPasswordSet,
    MapNotFound(MapPosition),
    NpcNotFound(u64),
    AddrParseError { error: String },
    Io { error: String },
    UnicodeError { error: String },
    ByteyError { error: ByteBufferError },
    MByteyError { error: MByteBufferError },
    RegexError { error: regex::Error },
    ParseError { error: String },
    Sqlx { error: String },
    Rustls { error: String },
    TomlDe { error: String },
    RustlsVerifierBuilder { error: String },
    JsonWebToken { error: jsonwebtoken::errors::Error },
}

} // verus!
