use justshow::bytes::ByteReader;
use justshow::ids::{AtomId, CrtcId, Timestamp, WindowId, XId};
use justshow::randr::{MonitorInfo, EXTENSION_NAME, SUPPORTED_MAJOR, SUPPORTED_MINOR};
use justshow::randr_replies::{GetCrtcInfo, GetMonitors, GetScreenInfo, QueryVersion, Refresh};
use justshow::randr_requests;

/// A query version reply for version 1.6, without its first byte, as the server sends it:
/// sixteen zero bytes follow the versions.
fn query_version_reply(sequence: u16) -> Vec<u8> {
    let mut out = vec![0u8];
    out.extend_from_slice(&sequence.to_le_bytes());
    out.extend_from_slice(&0u32.to_le_bytes());
    out.extend_from_slice(&1u32.to_le_bytes());
    out.extend_from_slice(&6u32.to_le_bytes());
    out.extend_from_slice(&[0u8; 16]);
    out
}

#[test]
fn query_version() {
    let mut data = query_version_reply(1);
    data.extend(query_version_reply(2));
    let mut conn = ByteReader::new(data);
    let reply_1 = QueryVersion::from_le_bytes(&mut conn).unwrap();
    let reply_2 = QueryVersion::from_le_bytes(&mut conn).unwrap();
    assert_eq!(reply_1, reply_2);
    assert_eq!(reply_1.major_version, SUPPORTED_MAJOR);
    assert_eq!(reply_1.minor_version, SUPPORTED_MINOR);
    assert!(!conn.has_unconsumed_data());
}

#[test]
fn query_version_request_bytes() {
    let request = randr_requests::QueryVersion {
        major_version: SUPPORTED_MAJOR,
        minor_version: SUPPORTED_MINOR,
    };
    assert_eq!(request.to_le_bytes(), vec![0, 3, 0, 1, 0, 0, 0, 6, 0, 0, 0]);
    assert_eq!(&EXTENSION_NAME, b"RANDR");
}

#[test]
fn query_version_truncated_is_eof() {
    let mut data = query_version_reply(1);
    data.pop();
    let mut conn = ByteReader::new(data);
    assert!(QueryVersion::from_le_bytes(&mut conn).is_err());
    assert_eq!(conn.len(), 30);
}

#[test]
fn get_monitors_request_bytes() {
    let request = randr_requests::GetMonitors {
        window: WindowId::unchecked_from(0x0102_0304),
        get_active: true,
    };
    assert_eq!(request.to_le_bytes(), vec![42, 3, 0, 4, 3, 2, 1, 1, 0, 0, 0]);
}

fn monitor() -> MonitorInfo {
    MonitorInfo {
        name: AtomId::unchecked_from(77),
        primary: true,
        automatic: false,
        x: -5,
        y: 10,
        width_in_pixels: 1920,
        height_in_pixels: 1080,
        width_in_millimeters: 600,
        height_in_millimeters: 340,
        crtcs: vec![CrtcId::unchecked_from(0x40), CrtcId::unchecked_from(0x41)],
    }
}

#[test]
fn monitor_info_roundtrip() {
    let m = monitor();
    let mut bytes = m.to_le_bytes();
    assert_eq!(bytes.len(), 24 + 8);
    assert_eq!(&bytes[6..8], &[2, 0]);
    bytes.push(0xaa);
    let mut conn = ByteReader::new(bytes);
    let decoded = MonitorInfo::from_le_bytes(&mut conn).unwrap();
    assert_eq!(decoded, m);
    assert_eq!(conn.len(), 1);
}

#[test]
fn get_monitors_reply() {
    let m = monitor();
    let mut reply = vec![0u8, 5, 0];
    reply.extend_from_slice(&0u32.to_le_bytes());
    reply.extend_from_slice(&0x1234u32.to_le_bytes());
    reply.extend_from_slice(&2u32.to_le_bytes());
    reply.extend_from_slice(&4u32.to_le_bytes());
    reply.extend_from_slice(&[0u8; 12]);
    reply.extend(m.to_le_bytes());
    reply.extend(m.to_le_bytes());
    let mut conn = ByteReader::new(reply.clone());
    let decoded = GetMonitors::from_le_bytes(&mut conn).unwrap();
    assert_eq!(decoded.timestamp.raw(), 0x1234);
    assert_eq!(decoded.monitors, vec![monitor(), monitor()]);
    assert!(!conn.has_unconsumed_data());

    reply.pop();
    let mut conn = ByteReader::new(reply.clone());
    assert!(GetMonitors::from_le_bytes(&mut conn).is_err());
    assert_eq!(conn.len(), reply.len());
}

#[test]
fn get_crtc_info_reply() {
    let mut reply = vec![0u8, 1, 0];
    reply.extend_from_slice(&3u32.to_le_bytes());
    reply.extend_from_slice(&99u32.to_le_bytes());
    reply.extend_from_slice(&(-3i16).to_le_bytes());
    reply.extend_from_slice(&4i16.to_le_bytes());
    reply.extend_from_slice(&800u16.to_le_bytes());
    reply.extend_from_slice(&600u16.to_le_bytes());
    reply.extend_from_slice(&7u32.to_le_bytes());
    reply.extend_from_slice(&1u16.to_le_bytes());
    reply.extend_from_slice(&0x3fu16.to_le_bytes());
    reply.extend_from_slice(&1u16.to_le_bytes());
    reply.extend_from_slice(&2u16.to_le_bytes());
    reply.extend_from_slice(&10u32.to_le_bytes());
    reply.extend_from_slice(&10u32.to_le_bytes());
    reply.extend_from_slice(&11u32.to_le_bytes());
    let mut conn = ByteReader::new(reply);
    let info = GetCrtcInfo::from_le_bytes(&mut conn).unwrap();
    assert_eq!(info.status, 0);
    assert_eq!(info.timestamp, Timestamp::from_u32(99));
    assert_eq!((info.x, info.y, info.width, info.height), (-3, 4, 800, 600));
    assert_eq!(info.mode, 7);
    assert_eq!(info.outputs.len(), 1);
    assert_eq!(info.possible_outputs.len(), 2);
    assert_eq!(info.possible_outputs[1].raw(), 11);
    assert!(!conn.has_unconsumed_data());
}

#[test]
fn get_screen_info_reply() {
    let mut reply = vec![0x3fu8, 1, 0];
    reply.extend_from_slice(&0u32.to_le_bytes());
    reply.extend_from_slice(&0x100u32.to_le_bytes());
    reply.extend_from_slice(&5u32.to_le_bytes());
    reply.extend_from_slice(&6u32.to_le_bytes());
    reply.extend_from_slice(&2u16.to_le_bytes());
    reply.extend_from_slice(&1u16.to_le_bytes());
    reply.extend_from_slice(&1u16.to_le_bytes());
    reply.extend_from_slice(&60u16.to_le_bytes());
    reply.extend_from_slice(&5u16.to_le_bytes());
    reply.extend_from_slice(&0u16.to_le_bytes());
    for (w, h) in [(1920u16, 1080u16), (1280, 720)] {
        reply.extend_from_slice(&w.to_le_bytes());
        reply.extend_from_slice(&h.to_le_bytes());
        reply.extend_from_slice(&(w / 4).to_le_bytes());
        reply.extend_from_slice(&(h / 4).to_le_bytes());
    }
    reply.extend_from_slice(&2u16.to_le_bytes());
    reply.extend_from_slice(&60u16.to_le_bytes());
    reply.extend_from_slice(&50u16.to_le_bytes());
    reply.extend_from_slice(&1u16.to_le_bytes());
    reply.extend_from_slice(&30u16.to_le_bytes());
    reply.extend_from_slice(&[0, 0]);
    let mut conn = ByteReader::new(reply);
    let info = GetScreenInfo::from_le_bytes(&mut conn).unwrap();
    assert_eq!(info.supported_rotations.raw(), 0x3f);
    assert_eq!(info.screen_sizes.len(), 2);
    assert_eq!(info.current_size.width_in_pixels, 1280);
    assert_eq!(info.current_rate, 60);
    assert_eq!(info.refresh_rates[0], Refresh { rates: vec![60, 50] });
    assert_eq!(info.refresh_rates[1].rates, vec![30]);
    assert!(!conn.has_unconsumed_data());
}
