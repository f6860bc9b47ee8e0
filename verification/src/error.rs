//! The error type shared by the protocol code.
use vstd::prelude::*;

verus! {

#[verifier::external_type_specification]
#[verifier::external_body]
pub struct ExJceError(jcers::JceError);

/// What can go wrong while talking to the server.
#[derive(Debug)]
pub enum RQError {
    Other(String),
    Decode(String),
    CommandNameMismatch(String, String),
    Timeout,
    Network,
    Jce(jcers::JceError),
    IO(String),
    UnknownFlag,
    UnknownEncryptType,
    InvalidPacketType,
    InvalidEncryptType,
    PacketDropped,
    SessionExpired,
    UnsuccessfulRetCode(i32),
    TokenLoginFailed,
}

/// The result type of the protocol code.
pub type RQResult<T> = Result<T, RQError>;

/// `e` is an I/O error that carries the message `msg`.
pub open spec fn is_io_error(e: RQError, msg: Seq<char>) -> bool {
    e matches RQError::IO(s) && s@ == msg
}

} // verus!
