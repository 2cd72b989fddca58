use justshow::display_var::DisplayVar;
use justshow::error::{Error, IoErrorKind};
use justshow::replies::String8;
use justshow::setup::InitializeConnectionResponseRefused;
use justshow::text::display_maybe_utf8;

fn refused(reason: &[u8]) -> InitializeConnectionResponseRefused {
    InitializeConnectionResponseRefused {
        protocol_major_version: 11,
        protocol_minor_version: 0,
        reason: reason.to_vec(),
    }
}

#[test]
fn error_messages() {
    assert_eq!(
        Error::InvalidXAuthFile("/home/u/.Xauthority".to_string()).to_string(),
        "Could not decode Xauthority file '/home/u/.Xauthority'"
    );
    assert_eq!(
        Error::CouldNotReadXAuthFile("/x".to_string(), IoErrorKind::UnexpectedEof).to_string(),
        "Could not read Xauthority file '/x': unexpected end of file"
    );
    assert_eq!(Error::InvalidDisplayEnv.to_string(), "Could not decode $DISPLAY environment variable");
    assert_eq!(
        Error::InvalidResponse("SomeEvent").to_string(),
        "Could not decode response from X server: SomeEvent"
    );
    assert_eq!(Error::NoEnv("DISPLAY").to_string(), "Environment variable 'DISPLAY' is not set");
    assert_eq!(Error::IOError(IoErrorKind::Other).to_string(), "Unexpected IO error: other error");
    assert_eq!(
        Error::UnknownErrorCode(42).to_string(),
        "Client received invalid error code '42' from X server"
    );
    assert_eq!(
        Error::CouldNotOpenUnixSocket("/tmp/.X11-unix/X0".to_string(), IoErrorKind::WouldBlock).to_string(),
        "Could not open unix socket '/tmp/.X11-unix/X0': operation would block"
    );
    assert_eq!(
        Error::CouldNotConnectTo(":1".to_string()).to_string(),
        "Could not connect to display ':1'"
    );
    assert_eq!(
        Error::UnexpectedReply.to_string(),
        "Server sent reply in different format than expected"
    );
    assert_eq!(
        Error::InvalidEnum("VisualClass", 1234567).to_string(),
        "Server sent invalid enum 'VisualClass' value: 1234567"
    );
    assert_eq!(Error::InvalidEnum("Gravity", 0).to_string(), "Server sent invalid enum 'Gravity' value: 0");
}

#[test]
fn refused_connection_messages() {
    assert_eq!(
        Error::CouldNotOpenDisplay(refused(b"No protocol specified\n")).to_string(),
        "Could not open connection to the server: No protocol specified\n"
    );
    assert_eq!(
        Error::CouldNotOpenDisplay(refused(&[0xff, 1, 20])).to_string(),
        "Could not open connection to the server: [255, 1, 20]"
    );
    assert_eq!(
        refused(b"bad").to_string(),
        "Initialize Connection Response Refused: Protocol: 11.0. Reason: bad"
    );
}

#[test]
fn maybe_utf8_text() {
    assert_eq!(display_maybe_utf8(b"h\xc3\xa9"), "hé");
    assert_eq!(display_maybe_utf8(&[]), "");
    assert_eq!(display_maybe_utf8(&[0x80]), "[128]");
}

#[test]
fn display_names() {
    let with_screen = DisplayVar { hostname: "host".to_string(), display_sequence: 10, screen: Some(2) };
    assert_eq!(with_screen.to_string(), "host:10.2");
    let local = DisplayVar { hostname: String::new(), display_sequence: 0, screen: None };
    assert_eq!(local.to_string(), ":0");
    let parsed = DisplayVar::parse("remote:3.1").unwrap();
    assert_eq!(parsed.to_string(), "remote:3.1");
}

#[test]
fn string8_text() {
    let s = String8::from_bytes(b"fixed".to_vec()).unwrap();
    assert_eq!(s.to_string(), "fixed");
    assert_eq!(s.as_str(), "fixed");
}
