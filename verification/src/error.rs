use vstd::prelude::*;

use crate::setup::InitializeConnectionResponseRefused;
use crate::text::{decimal_chars, maybe_utf8, push_decimal, push_maybe_utf8, push_str, string_of_chars};

verus! {

/// Kind of an input/output failure seen while talking to the X server.
#[derive(Debug, Clone, Copy, PartialEq, Eq)]
pub enum IoErrorKind {
    /// The stream ended before the expected number of bytes arrived.
    UnexpectedEof,
    /// A non-blocking operation could not complete right now.
    WouldBlock,
    /// Any other failure reported by the operating system.
    Other,
}

/// Errors of the X11 client.
#[derive(Debug)]
pub enum Error {
    InvalidXAuthFile(String),
    CouldNotReadXAuthFile(String, IoErrorKind),
    InvalidDisplayEnv,
    InvalidResponse(&'static str),
    NoEnv(&'static str),
    IOError(IoErrorKind),
    CouldNotOpenDisplay(InitializeConnectionResponseRefused),
    UnknownErrorCode(u8),
    CouldNotOpenUnixSocket(String, IoErrorKind),
    CouldNotConnectTo(String),
    UnexpectedReply,
    InvalidEnum(&'static str, u64),
}

/// The error every decoder reports when the buffered input ends too early.
pub open spec fn eof_error() -> Error {
    Error::IOError(IoErrorKind::UnexpectedEof)
}

impl Error {
    /// The error every decoder reports when the buffered input ends too early.
    pub fn eof() -> (e: Error)
        ensures
            e == eof_error(),
    {
        Error::IOError(IoErrorKind::UnexpectedEof)
    }
}

/// How an input/output failure of a kind reads.
pub open spec fn io_message(kind: IoErrorKind) -> Seq<char> {
    match kind {
        IoErrorKind::UnexpectedEof => "unexpected end of file"@,
        IoErrorKind::WouldBlock => "operation would block"@,
        IoErrorKind::Other => "other error"@,
    }
}

/// How an error reads.
pub open spec fn error_message(e: Error) -> Seq<char> {
    match e {
        Error::InvalidXAuthFile(path) => "Could not decode Xauthority file '"@ + path@ + "'"@,
        Error::CouldNotReadXAuthFile(path, kind) => "Could not read Xauthority file '"@ + path@
            + "': "@ + io_message(kind),
        Error::InvalidDisplayEnv => "Could not decode $DISPLAY environment variable"@,
        Error::InvalidResponse(place) => "Could not decode response from X server: "@ + place@,
        Error::NoEnv(name) => "Environment variable '"@ + name@ + "' is not set"@,
        Error::IOError(kind) => "Unexpected IO error: "@ + io_message(kind),
        Error::CouldNotOpenDisplay(response) => "Could not open connection to the server: "@
            + maybe_utf8(response.reason@),
        Error::UnknownErrorCode(code) => "Client received invalid error code '"@ + decimal_chars(
            code as nat,
        ) + "' from X server"@,
        Error::CouldNotOpenUnixSocket(path, kind) => "Could not open unix socket '"@ + path@
            + "': "@ + io_message(kind),
        Error::CouldNotConnectTo(display) => "Could not connect to display '"@ + display@ + "'"@,
        Error::UnexpectedReply => "Server sent reply in different format than expected"@,
        Error::InvalidEnum(name, value) => "Server sent invalid enum '"@ + name@ + "' value: "@
            + decimal_chars(value as nat),
    }
}

/// Appends how an input/output failure of kind `kind` reads.
fn push_io_message(out: &mut Vec<char>, kind: IoErrorKind)
    ensures
        final(out)@ == old(out)@ + io_message(kind),
{
    match kind {
        IoErrorKind::UnexpectedEof => push_str(out, "unexpected end of file"),
        IoErrorKind::WouldBlock => push_str(out, "operation would block"),
        IoErrorKind::Other => push_str(out, "other error"),
    }
}

impl Error {
    /// How the error reads, for the user.
    pub fn to_string(&self) -> (r: String)
        ensures
            r@ == error_message(*self),
    {
        let mut out: Vec<char> = Vec::new();
        match self {
            Error::InvalidXAuthFile(path) => {
                push_str(&mut out, "Could not decode Xauthority file '");
                push_str(&mut out, path.as_str());
                push_str(&mut out, "'");
            },
            Error::CouldNotReadXAuthFile(path, kind) => {
                push_str(&mut out, "Could not read Xauthority file '");
                push_str(&mut out, path.as_str());
                push_str(&mut out, "': ");
                push_io_message(&mut out, *kind);
            },
            Error::InvalidDisplayEnv => {
                push_str(&mut out, "Could not decode $DISPLAY environment variable");
            },
            Error::InvalidResponse(place) => {
                push_str(&mut out, "Could not decode response from X server: ");
                push_str(&mut out, place);
            },
            Error::NoEnv(name) => {
                push_str(&mut out, "Environment variable '");
                push_str(&mut out, name);
                push_str(&mut out, "' is not set");
            },
            Error::IOError(kind) => {
                push_str(&mut out, "Unexpected IO error: ");
                push_io_message(&mut out, *kind);
            },
            Error::CouldNotOpenDisplay(response) => {
                push_str(&mut out, "Could not open connection to the server: ");
                push_maybe_utf8(&mut out, response.reason.as_slice());
            },
            Error::UnknownErrorCode(code) => {
                push_str(&mut out, "Client received invalid error code '");
                push_decimal(&mut out, *code as u64);
                push_str(&mut out, "' from X server");
            },
            Error::CouldNotOpenUnixSocket(path, kind) => {
                push_str(&mut out, "Could not open unix socket '");
                push_str(&mut out, path.as_str());
                push_str(&mut out, "': ");
                push_io_message(&mut out, *kind);
            },
            Error::CouldNotConnectTo(display) => {
                push_str(&mut out, "Could not connect to display '");
                push_str(&mut out, display.as_str());
                push_str(&mut out, "'");
            },
            Error::UnexpectedReply => {
                push_str(&mut out, "Server sent reply in different format than expected");
            },
            Error::InvalidEnum(name, value) => {
                push_str(&mut out, "Server sent invalid enum '");
                push_str(&mut out, name);
                push_str(&mut out, "' value: ");
                push_decimal(&mut out, *value);
            },
        }
        string_of_chars(&out)
    }
}

} // verus!
