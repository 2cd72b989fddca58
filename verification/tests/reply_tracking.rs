use justshow::error::Error;
use justshow::geometry::SequenceNumber;
use justshow::ids::{WindowId, XId};
use justshow::replies::{
    CharInfo, DrawDirection, GetGeometry, InternAtom, ListFontsWithInfo, ListFontsWithInfoPartial,
    ListFontsWithInfoPiece, ReplyType, SomeReply,
};
use justshow::ids::AtomId;
use justshow::reply_tracking::ReplyTracker;
use justshow::bytes::ByteReader;
use justshow::reply_decoding::decode_reply;
use justshow::randr_replies::{ReplyType as RandrReplyType, SomeReply as RandrReply};

fn geometry() -> GetGeometry {
    GetGeometry {
        depth: 24,
        root: WindowId::unchecked_from(0x100),
        x: 1,
        y: 2,
        width: 300,
        height: 200,
        border_width: 0,
    }
}

fn char_info() -> CharInfo {
    CharInfo {
        left_side_bearing: 0,
        right_side_bearing: 8,
        character_width: 8,
        ascent: 7,
        descent: 1,
        attributes: 0,
    }
}

fn piece(name: &[u8]) -> ListFontsWithInfoPiece {
    ListFontsWithInfoPiece {
        min_bounds: char_info(),
        max_bounds: char_info(),
        min_char_or_byte2: 0,
        max_char_or_byte2: 255,
        default_char: 0,
        properties: vec![],
        draw_direction: DrawDirection::LeftToRight,
        min_byte1: 0,
        max_byte1: 0,
        all_chars_exist: true,
        font_ascent: 7,
        font_descent: 1,
        name: name.to_vec(),
    }
}

#[test]
fn requests_are_numbered_from_one() {
    let mut t = ReplyTracker::new();
    let first = t.register_request::<GetGeometry>(None);
    let second = t.register_request::<GetGeometry>(Some(ReplyType::GetGeometry));
    assert_eq!(first.sequence_number().value(), 1);
    assert_eq!(second.sequence_number().value(), 2);
    assert!(!t.is_tracked(SequenceNumber::from_u16(1)));
    assert!(t.is_tracked(SequenceNumber::from_u16(2)));
}

#[test]
fn stored_reply_is_delivered_once() {
    let mut t = ReplyTracker::new();
    let pending = t.register_request::<GetGeometry>(Some(ReplyType::GetGeometry));
    let seq = pending.sequence_number();
    assert_eq!(t.awaited_reply_type(seq), ReplyType::GetGeometry);
    let pending = match t.try_get_pending_reply(pending) {
        Ok(Err(p)) => p,
        _ => panic!("reply should not be there yet"),
    };
    t.store_reply(seq, SomeReply::GetGeometry(geometry()));
    match t.try_get_pending_reply(pending) {
        Ok(Ok(g)) => assert_eq!(g, geometry()),
        _ => panic!("reply should be delivered"),
    }
    assert!(!t.is_tracked(seq));
}

#[test]
fn reply_of_other_kind_is_an_error() {
    let mut t = ReplyTracker::new();
    let pending = t.register_request::<GetGeometry>(Some(ReplyType::GetGeometry));
    let seq = pending.sequence_number();
    t.store_reply(seq, SomeReply::InternAtom(InternAtom { atom: AtomId::unchecked_from(7) }));
    assert!(matches!(t.try_get_pending_reply(pending), Err(Error::UnexpectedReply)));
}

#[test]
fn discarded_reply_is_dropped_when_it_comes() {
    let mut t = ReplyTracker::new();
    let pending = t.register_request::<GetGeometry>(Some(ReplyType::GetGeometry));
    let seq = pending.sequence_number();
    assert!(t.discard_reply(pending).is_ok());
    assert!(t.is_tracked(seq));
    t.store_reply(seq, SomeReply::GetGeometry(geometry()));
    assert!(!t.is_tracked(seq));
}

#[test]
fn discarding_a_complete_reply_drops_it() {
    let mut t = ReplyTracker::new();
    let pending = t.register_request::<GetGeometry>(Some(ReplyType::GetGeometry));
    let seq = pending.sequence_number();
    t.store_reply(seq, SomeReply::GetGeometry(geometry()));
    assert!(t.discard_reply(pending).is_ok());
    assert!(!t.is_tracked(seq));
}

#[test]
fn font_listing_gathers_its_parts() {
    let mut t = ReplyTracker::new();
    let pending = t.register_request::<ListFontsWithInfo>(Some(ReplyType::ListFontsWithInfo));
    let seq = pending.sequence_number();
    t.store_reply(seq, SomeReply::ListFontsWithInfoPartial(ListFontsWithInfoPartial::ListFontsWithInfoPiece(piece(b"fixed"))));
    let pending = match t.try_get_pending_reply(pending) {
        Ok(Err(p)) => p,
        _ => panic!("listing is not complete yet"),
    };
    t.store_reply(seq, SomeReply::ListFontsWithInfoPartial(ListFontsWithInfoPartial::ListFontsWithInfoPiece(piece(b"cursor"))));
    t.store_reply(seq, SomeReply::ListFontsWithInfoPartial(ListFontsWithInfoPartial::ListFontsWithInfoEnd));
    match t.try_get_pending_reply(pending) {
        Ok(Ok(list)) => {
            assert_eq!(list.replies.len(), 2);
            assert_eq!(list.replies[0].name, b"fixed".to_vec());
            assert_eq!(list.replies[1].name, b"cursor".to_vec());
        }
        _ => panic!("listing should be delivered"),
    }
}

#[test]
fn sequence_numbers_wrap_around() {
    let mut t = ReplyTracker::new();
    let mut last = 0u16;
    for _ in 0..65535u32 {
        last = t.register_request::<GetGeometry>(None).sequence_number().value();
    }
    assert_eq!(last, 65535);
    assert_eq!(t.register_request::<GetGeometry>(None).sequence_number().value(), 0);
}

fn geometry_bytes() -> Vec<u8> {
    let mut raw = vec![0u8; 31];
    raw[0] = 24;
    raw[1..3].copy_from_slice(&9u16.to_le_bytes());
    raw[7..11].copy_from_slice(&0x100u32.to_le_bytes());
    raw[11..13].copy_from_slice(&1i16.to_le_bytes());
    raw[13..15].copy_from_slice(&2i16.to_le_bytes());
    raw[15..17].copy_from_slice(&300u16.to_le_bytes());
    raw[17..19].copy_from_slice(&200u16.to_le_bytes());
    raw
}

#[test]
fn decode_reply_by_kind() {
    let mut bytes = geometry_bytes();
    bytes.push(0xaa);
    let mut conn = ByteReader::new(bytes);
    match decode_reply(ReplyType::GetGeometry, &mut conn) {
        Ok(SomeReply::GetGeometry(g)) => assert_eq!(g, geometry()),
        other => panic!("unexpected {:?}", other.is_ok()),
    }
    assert_eq!(conn.len(), 1);
}

#[test]
fn decode_reply_too_short_is_eof() {
    let mut conn = ByteReader::new(vec![0u8; 10]);
    assert!(decode_reply(ReplyType::GetGeometry, &mut conn).is_err());
    assert_eq!(conn.len(), 10);
}

#[test]
fn decode_font_listing_end() {
    let mut conn = ByteReader::new(vec![0u8; 59]);
    assert!(matches!(
        decode_reply(ReplyType::ListFontsWithInfo, &mut conn),
        Ok(SomeReply::ListFontsWithInfoPartial(ListFontsWithInfoPartial::ListFontsWithInfoEnd))
    ));
    assert_eq!(conn.len(), 0);
}

#[test]
fn decode_randr_version() {
    let mut raw = vec![0u8; 31];
    raw[7..11].copy_from_slice(&1u32.to_le_bytes());
    raw[11..15].copy_from_slice(&6u32.to_le_bytes());
    let mut conn = ByteReader::new(raw);
    match decode_reply(ReplyType::ExtensionRandr(RandrReplyType::QueryVersion), &mut conn) {
        Ok(SomeReply::ExtensionRandr(RandrReply::QueryVersion(v))) => {
            assert_eq!(v.major_version, 1);
            assert_eq!(v.minor_version, 6);
        }
        _ => panic!("expected a version reply"),
    }
}
