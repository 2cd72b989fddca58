//! Decoding a reply by the kind of the request it answers.
use vstd::prelude::*;
use vstd::utf8::{decode_utf8, valid_utf8};

use crate::bytes::{spec_le_u16, spec_le_u32, spec_pad, ByteReader};
use crate::error::{eof_error, Error};
use crate::randr_replies::{
    GetCrtcInfo as RandrGetCrtcInfo, GetMonitors as RandrGetMonitors,
    GetScreenInfo as RandrGetScreenInfo, QueryVersion as RandrQueryVersion,
    ReplyType as RandrReplyType, SetScreenConfig as RandrSetScreenConfig,
    SomeReply as RandrReply,
};
use crate::replies::{
    AllocColor, AllocColorCells, AllocColorPlanes, AllocNamedColor, GetAtomName, GetFontPath, GetGeometry, GetImage, GetInputFocus, GetKeyboardControl, GetKeyboardMapping, GetModifierMapping, GetMotionEvents, GetPointerControl, GetPointerMapping, GetProperty, GetScreenSaver, GetSelectionOwner, GetWindowAttributes, GrabKeyboard, GrabPointer, InternAtom, ListExtensions, ListFonts, ListFontsWithInfoPartial, ListHosts, ListInstalledColormaps, ListProperties, LookupColor, QueryBestSize, QueryColors, QueryExtension, QueryFont, QueryKeymap, QueryPointer, QueryTextExtents, QueryTree, SetModifierMapping, SetPointerMapping, TranslateCoordinates,
    DrawDirection, HostMode, ReplyType, RevertTo, SomeReply, host_at, hosts_error, spec_strs,
};

verus! {

/// What decoding the bytes `s` as a reply of kind `reply_type` gives, `rest` being the bytes
/// left after it: the decoding of that kind of reply, or its error.
pub open spec fn reply_decoded(
    reply_type: ReplyType,
    s: Seq<u8>,
    r: Result<SomeReply, Error>,
    rest: Seq<u8>,
) -> bool {
    match reply_type {
        ReplyType::GetWindowAttributes => {

                if s.len() < 43 {
                    r == Err::<SomeReply, Error>(eof_error()) && rest == s
                } else {
                    r matches Ok(SomeReply::GetWindowAttributes(v)) && v.decodes(s) && rest == s.subrange(43, s.len() as int)
                }
            
        },
        ReplyType::GetGeometry => {

                if s.len() < 31 {
                    r == Err::<SomeReply, Error>(eof_error()) && rest == s
                } else {
                    r matches Ok(SomeReply::GetGeometry(v)) && v.decodes(s) && rest == s.subrange(31, s.len() as int)
                }
            
        },
        ReplyType::QueryTree => {

                if s.len() < 31 || s.len() < QueryTree::spec_len(s) {
                    r == Err::<SomeReply, Error>(eof_error()) && rest == s
                } else {
                    r matches Ok(SomeReply::QueryTree(v)) && v.decodes(s) && rest == s.subrange(
                        QueryTree::spec_len(s),
                        s.len() as int,
                    )
                }
            
        },
        ReplyType::InternAtom => {

                if s.len() < 31 {
                    r == Err::<SomeReply, Error>(eof_error()) && rest == s
                } else {
                    r matches Ok(SomeReply::InternAtom(v)) && v.decodes(s) && rest == s.subrange(31, s.len() as int)
                }
            
        },
        ReplyType::GetAtomName => {

                if s.len() < 31 || s.len() < 31 + GetAtomName::spec_name_len(s) {
                    r == Err::<SomeReply, Error>(eof_error()) && rest == s
                } else if !valid_utf8(GetAtomName::spec_name(s)) {
                    r == Err::<SomeReply, Error>(Error::InvalidResponse("String8"))
                } else if s.len() < GetAtomName::spec_len(s) {
                    r == Err::<SomeReply, Error>(eof_error())
                } else {
                    r matches Ok(SomeReply::GetAtomName(v)) && v.name@ == decode_utf8(GetAtomName::spec_name(s)) && rest
                        == s.subrange(GetAtomName::spec_len(s), s.len() as int)
                }
            
        },
        ReplyType::GetProperty => {

                if s.len() < 31 || s.len() < GetProperty::spec_len(s) {
                    r == Err::<SomeReply, Error>(eof_error()) && rest == s
                } else {
                    r matches Ok(SomeReply::GetProperty(v)) && v.format == s[0] && v.type_@ == spec_le_u32(s, 7)
                        && v.bytes_after == spec_le_u32(s, 11) && v.length_of_value == spec_le_u32(
                        s,
                        15,
                    ) && v.value@ == s.subrange(31, 31 + GetProperty::spec_value_len(s)) && rest
                        == s.subrange(GetProperty::spec_len(s), s.len() as int)
                }
            
        },
        ReplyType::ListProperties => {

                if s.len() < 31 || s.len() < ListProperties::spec_len(s) {
                    r == Err::<SomeReply, Error>(eof_error()) && rest == s
                } else {
                    r matches Ok(SomeReply::ListProperties(v)) && v.decodes(s) && rest == s.subrange(
                        ListProperties::spec_len(s),
                        s.len() as int,
                    )
                }
            
        },
        ReplyType::GetSelectionOwner => {

                if s.len() < 31 {
                    r == Err::<SomeReply, Error>(eof_error()) && rest == s
                } else {
                    r matches Ok(SomeReply::GetSelectionOwner(v)) && v.decodes(s) && rest == s.subrange(31, s.len() as int)
                }
            
        },
        ReplyType::GrabPointer => {

                if GrabPointer::spec_invalid_enum(s) is Some {
                    r == Err::<SomeReply, Error>(GrabPointer::spec_invalid_enum(s)->0) && rest == s
                } else if s.len() < 31 {
                    r == Err::<SomeReply, Error>(eof_error()) && rest == s
                } else {
                    r matches Ok(SomeReply::GrabPointer(v)) && v.decodes(s) && rest == s.subrange(31, s.len() as int)
                }
            
        },
        ReplyType::GrabKeyboard => {

                if GrabKeyboard::spec_invalid_enum(s) is Some {
                    r == Err::<SomeReply, Error>(GrabKeyboard::spec_invalid_enum(s)->0) && rest == s
                } else if s.len() < 31 {
                    r == Err::<SomeReply, Error>(eof_error()) && rest == s
                } else {
                    r matches Ok(SomeReply::GrabKeyboard(v)) && v.decodes(s) && rest == s.subrange(31, s.len() as int)
                }
            
        },
        ReplyType::QueryPointer => {

                if s.len() < 31 {
                    r == Err::<SomeReply, Error>(eof_error()) && rest == s
                } else {
                    r matches Ok(SomeReply::QueryPointer(v)) && v.decodes(s) && rest == s.subrange(31, s.len() as int)
                }
            
        },
        ReplyType::GetMotionEvents => {

                if s.len() < 31 || s.len() < GetMotionEvents::spec_len(s) {
                    r == Err::<SomeReply, Error>(eof_error()) && rest == s
                } else {
                    r matches Ok(SomeReply::GetMotionEvents(v)) && v.decodes(s) && rest == s.subrange(
                        GetMotionEvents::spec_len(s),
                        s.len() as int,
                    )
                }
            
        },
        ReplyType::TranslateCoordinates => {

                if s.len() < 31 {
                    r == Err::<SomeReply, Error>(eof_error()) && rest == s
                } else {
                    r matches Ok(SomeReply::TranslateCoordinates(v)) && v.decodes(s) && rest == s.subrange(31, s.len() as int)
                }
            
        },
        ReplyType::GetInputFocus => {

                if s.len() >= 1 && RevertTo::spec_from_u8(s[0]) is None {
                    r == Err::<SomeReply, Error>(Error::InvalidEnum("Self", s[0] as u64))
                        && rest == s
                } else if s.len() < 31 {
                    r == Err::<SomeReply, Error>(eof_error()) && rest == s
                } else {
                    r matches Ok(SomeReply::GetInputFocus(v)) && v.decodes(s) && rest == s.subrange(31, s.len() as int)
                }
            
        },
        ReplyType::QueryKeymap => {

                if s.len() < 39 {
                    r == Err::<SomeReply, Error>(eof_error()) && rest == s
                } else {
                    r matches Ok(SomeReply::QueryKeymap(v)) && v.decodes(s) && rest == s.subrange(39, s.len() as int)
                }
            
        },
        ReplyType::QueryFont => {

                if s.len() >= 48 && DrawDirection::spec_from_u8(s[47]) is None {
                    r == Err::<SomeReply, Error>(Error::InvalidEnum("Self", s[47] as u64))
                        && rest == s
                } else if s.len() < 59 || s.len() < QueryFont::spec_len(s) {
                    r == Err::<SomeReply, Error>(eof_error()) && rest == s
                } else {
                    r matches Ok(SomeReply::QueryFont(v)) && v.decodes(s) && rest == s.subrange(
                        QueryFont::spec_len(s),
                        s.len() as int,
                    )
                }
            
        },
        ReplyType::QueryTextExtents => {

                if QueryTextExtents::spec_invalid_enum(s) is Some {
                    r == Err::<SomeReply, Error>(QueryTextExtents::spec_invalid_enum(s)->0) && rest == s
                } else if s.len() < 31 {
                    r == Err::<SomeReply, Error>(eof_error()) && rest == s
                } else {
                    r matches Ok(SomeReply::QueryTextExtents(v)) && v.decodes(s) && rest == s.subrange(31, s.len() as int)
                }
            
        },
        ReplyType::ListFonts => {

                if s.len() < 31 {
                    r == Err::<SomeReply, Error>(eof_error()) && rest == s
                } else {
                    match spec_strs(s.subrange(31, s.len() as int), ListFonts::spec_count(s)) {
                        Some((strs, used)) => if s.len() < 31 + used + spec_pad(used) {
                            r == Err::<SomeReply, Error>(eof_error())
                        } else {
                            r matches Ok(SomeReply::ListFonts(v)) && v.names.spec_strings() == strs && rest
                                == s.subrange(31 + used + spec_pad(used), s.len() as int)
                        },
                        None => r == Err::<SomeReply, Error>(eof_error()),
                    }
                }
            
        },
        ReplyType::ListFontsWithInfo => {

                if s.len() < 1 {
                    r == Err::<SomeReply, Error>(eof_error()) && rest == s
                } else if s[0] == 0 {
                    if s.len() < 59 {
                        r == Err::<SomeReply, Error>(eof_error()) && rest == s
                    } else {
                        r == Ok::<SomeReply, Error>(SomeReply::ListFontsWithInfoPartial(ListFontsWithInfoPartial::ListFontsWithInfoEnd))
                            && rest == s.subrange(59, s.len() as int)
                    }
                } else if s.len() >= 48 && DrawDirection::spec_from_u8(s[47]) is None {
                    r == Err::<SomeReply, Error>(Error::InvalidEnum("Self", s[47] as u64))
                        && rest == s
                } else if s.len() < 59 || s.len() < ListFontsWithInfoPartial::spec_piece_len(s) {
                    r == Err::<SomeReply, Error>(eof_error()) && rest == s
                } else {
                    r matches Ok(SomeReply::ListFontsWithInfoPartial(ListFontsWithInfoPartial::ListFontsWithInfoPiece(piece)))
                        && ListFontsWithInfoPartial::piece_decodes(piece, s) && rest == s.subrange(
                        ListFontsWithInfoPartial::spec_piece_len(s),
                        s.len() as int,
                    )
                }
            
        },
        ReplyType::GetFontPath => {

                if s.len() < 31 {
                    r == Err::<SomeReply, Error>(eof_error()) && rest == s
                } else {
                    match spec_strs(s.subrange(31, s.len() as int), GetFontPath::spec_count(s)) {
                        Some((strs, used)) => if s.len() < 31 + used {
                            r == Err::<SomeReply, Error>(eof_error())
                        } else {
                            r matches Ok(SomeReply::GetFontPath(v)) && v.paths.spec_strings() == strs && rest
                                == s.subrange(31 + used, s.len() as int)
                        },
                        None => r == Err::<SomeReply, Error>(eof_error()),
                    }
                }
            
        },
        ReplyType::GetImage => {

                if s.len() < 31 || s.len() < GetImage::spec_len(s) {
                    r == Err::<SomeReply, Error>(eof_error()) && rest == s
                } else {
                    r matches Ok(SomeReply::GetImage(v)) && v.depth == s[0] && v.visual.spec_raw() == spec_le_u32(s, 7)
                        && v.data@ == s.subrange(31, GetImage::spec_len(s)) && rest
                        == s.subrange(GetImage::spec_len(s), s.len() as int)
                }
            
        },
        ReplyType::ListInstalledColormaps => {

                if s.len() < 31 || s.len() < ListInstalledColormaps::spec_len(s) {
                    r == Err::<SomeReply, Error>(eof_error()) && rest == s
                } else {
                    r matches Ok(SomeReply::ListInstalledColormaps(v)) && v.decodes(s) && rest == s.subrange(
                        ListInstalledColormaps::spec_len(s),
                        s.len() as int,
                    )
                }
            
        },
        ReplyType::AllocColor => {

                if s.len() < 31 {
                    r == Err::<SomeReply, Error>(eof_error()) && rest == s
                } else {
                    r matches Ok(SomeReply::AllocColor(v)) && v.decodes(s) && rest == s.subrange(31, s.len() as int)
                }
            
        },
        ReplyType::AllocNamedColor => {

                if s.len() < 31 {
                    r == Err::<SomeReply, Error>(eof_error()) && rest == s
                } else {
                    r matches Ok(SomeReply::AllocNamedColor(v)) && v.decodes(s) && rest == s.subrange(31, s.len() as int)
                }
            
        },
        ReplyType::AllocColorCells => {

                if s.len() < 31 || s.len() < AllocColorCells::spec_len(s) {
                    r == Err::<SomeReply, Error>(eof_error()) && rest == s
                } else {
                    r matches Ok(SomeReply::AllocColorCells(v)) && v.decodes(s) && rest == s.subrange(
                        AllocColorCells::spec_len(s),
                        s.len() as int,
                    )
                }
            
        },
        ReplyType::AllocColorPlanes => {

                if s.len() < 31 || s.len() < AllocColorPlanes::spec_len(s) {
                    r == Err::<SomeReply, Error>(eof_error()) && rest == s
                } else {
                    r matches Ok(SomeReply::AllocColorPlanes(v)) && v.decodes(s) && rest == s.subrange(
                        AllocColorPlanes::spec_len(s),
                        s.len() as int,
                    )
                }
            
        },
        ReplyType::QueryColors => {

                if s.len() < 31 || s.len() < QueryColors::spec_len(s) {
                    r == Err::<SomeReply, Error>(eof_error()) && rest == s
                } else {
                    r matches Ok(SomeReply::QueryColors(v)) && v.decodes(s) && rest == s.subrange(
                        QueryColors::spec_len(s),
                        s.len() as int,
                    )
                }
            
        },
        ReplyType::LookupColor => {

                if s.len() < 31 {
                    r == Err::<SomeReply, Error>(eof_error()) && rest == s
                } else {
                    r matches Ok(SomeReply::LookupColor(v)) && v.decodes(s) && rest == s.subrange(31, s.len() as int)
                }
            
        },
        ReplyType::QueryBestSize => {

                if s.len() < 31 {
                    r == Err::<SomeReply, Error>(eof_error()) && rest == s
                } else {
                    r matches Ok(SomeReply::QueryBestSize(v)) && v.decodes(s) && rest == s.subrange(31, s.len() as int)
                }
            
        },
        ReplyType::QueryExtension => {

                if s.len() < 31 {
                    r == Err::<SomeReply, Error>(eof_error()) && rest == s
                } else {
                    r matches Ok(SomeReply::QueryExtension(v)) && v.decodes(s) && rest == s.subrange(31, s.len() as int)
                }
            
        },
        ReplyType::ListExtensions => {

                if s.len() < 31 {
                    r == Err::<SomeReply, Error>(eof_error()) && rest == s
                } else {
                    match spec_strs(s.subrange(31, s.len() as int), ListExtensions::spec_count(s)) {
                        Some((strs, used)) => if s.len() < 31 + used + spec_pad(used) {
                            r == Err::<SomeReply, Error>(eof_error())
                        } else {
                            r matches Ok(SomeReply::ListExtensions(v)) && v.names.spec_strings() == strs && rest
                                == s.subrange(31 + used + spec_pad(used), s.len() as int)
                        },
                        None => r == Err::<SomeReply, Error>(eof_error()),
                    }
                }
            
        },
        ReplyType::GetKeyboardMapping => {

                if s.len() < 31 || s.len() < GetKeyboardMapping::spec_len(s) {
                    r == Err::<SomeReply, Error>(eof_error()) && rest == s
                } else {
                    r matches Ok(SomeReply::GetKeyboardMapping(v)) && v.decodes(s) && rest == s.subrange(
                        GetKeyboardMapping::spec_len(s),
                        s.len() as int,
                    )
                }
            
        },
        ReplyType::GetKeyboardControl => {

                if s.len() < 51 {
                    r == Err::<SomeReply, Error>(eof_error()) && rest == s
                } else {
                    r matches Ok(SomeReply::GetKeyboardControl(v)) && v.decodes(s) && rest == s.subrange(51, s.len() as int)
                }
            
        },
        ReplyType::GetPointerControl => {

                if s.len() < 31 {
                    r == Err::<SomeReply, Error>(eof_error()) && rest == s
                } else {
                    r matches Ok(SomeReply::GetPointerControl(v)) && v.decodes(s) && rest == s.subrange(31, s.len() as int)
                }
            
        },
        ReplyType::GetScreenSaver => {

                if s.len() < 31 {
                    r == Err::<SomeReply, Error>(eof_error()) && rest == s
                } else {
                    r matches Ok(SomeReply::GetScreenSaver(v)) && v.decodes(s) && rest == s.subrange(31, s.len() as int)
                }
            
        },
        ReplyType::ListHosts => {

                if s.len() >= 1 && HostMode::spec_from_u8(s[0]) is None {
                    r == Err::<SomeReply, Error>(Error::InvalidEnum("Self", s[0] as u64))
                        && rest == s
                } else if s.len() < 31 {
                    r == Err::<SomeReply, Error>(eof_error()) && rest == s
                } else {
                    match hosts_error(s, 31, ListHosts::spec_count(s)) {
                        Some(e) => r == Err::<SomeReply, Error>(e) && rest == s,
                        None => r matches Ok(SomeReply::ListHosts(v)) && HostMode::spec_from_u8(s[0]) == Some(v.mode)
                            && v.hosts@.len() == ListHosts::spec_count(s) && (forall|i: int|
                            0 <= i < ListHosts::spec_count(s) ==> (#[trigger] v.hosts@[i]).decodes(
                                s.subrange(host_at(s, 31, i as nat), s.len() as int),
                            )) && rest == s.subrange(
                            host_at(s, 31, ListHosts::spec_count(s)),
                            s.len() as int,
                        ),
                    }
                }
            
        },
        ReplyType::SetPointerMapping => {

                if SetPointerMapping::spec_invalid_enum(s) is Some {
                    r == Err::<SomeReply, Error>(SetPointerMapping::spec_invalid_enum(s)->0) && rest == s
                } else if s.len() < 31 {
                    r == Err::<SomeReply, Error>(eof_error()) && rest == s
                } else {
                    r matches Ok(SomeReply::SetPointerMapping(v)) && v.decodes(s) && rest == s.subrange(31, s.len() as int)
                }
            
        },
        ReplyType::GetPointerMapping => {

                if s.len() < 31 || s.len() < GetPointerMapping::spec_len(s) {
                    r == Err::<SomeReply, Error>(eof_error()) && rest == s
                } else {
                    r matches Ok(SomeReply::GetPointerMapping(v)) && v.map@ == s.subrange(31, 31 + s[0]) && rest
                        == s.subrange(GetPointerMapping::spec_len(s), s.len() as int)
                }
            
        },
        ReplyType::SetModifierMapping => {

                if SetModifierMapping::spec_invalid_enum(s) is Some {
                    r == Err::<SomeReply, Error>(SetModifierMapping::spec_invalid_enum(s)->0) && rest == s
                } else if s.len() < 31 {
                    r == Err::<SomeReply, Error>(eof_error()) && rest == s
                } else {
                    r matches Ok(SomeReply::SetModifierMapping(v)) && v.decodes(s) && rest == s.subrange(31, s.len() as int)
                }
            
        },
        ReplyType::GetModifierMapping => {

                if s.len() < 31 || s.len() < GetModifierMapping::spec_len(s) {
                    r == Err::<SomeReply, Error>(eof_error()) && rest == s
                } else {
                    r matches Ok(SomeReply::GetModifierMapping(v)) && v.decodes(s) && rest == s.subrange(
                        GetModifierMapping::spec_len(s),
                        s.len() as int,
                    )
                }
            
        },
        ReplyType::ExtensionRandr(randr_type) => match randr_type {
            RandrReplyType::QueryVersion => {

                if s.len() < 31 {
                    r == Err::<SomeReply, Error>(eof_error()) && rest == s
                } else {
                    r matches Ok(SomeReply::ExtensionRandr(RandrReply::QueryVersion(v))) && v.decodes(s) && rest == s.subrange(31, s.len() as int)
                }
            
            },
            RandrReplyType::SetScreenConfig => {

                if RandrSetScreenConfig::spec_invalid_enum(s) is Some {
                    r == Err::<SomeReply, Error>(RandrSetScreenConfig::spec_invalid_enum(s)->0) && rest == s
                } else if s.len() < 31 {
                    r == Err::<SomeReply, Error>(eof_error()) && rest == s
                } else {
                    r matches Ok(SomeReply::ExtensionRandr(RandrReply::SetScreenConfig(v))) && v.decodes(s) && rest == s.subrange(31, s.len() as int)
                }
            
            },
            RandrReplyType::GetScreenInfo => {

                if !RandrGetScreenInfo::spec_complete(s) {
                    r == Err::<SomeReply, Error>(eof_error()) && rest == s
                } else {
                    r matches Ok(SomeReply::ExtensionRandr(RandrReply::GetScreenInfo(v))) && v.decodes(s) && rest == s.subrange(
                        RandrGetScreenInfo::spec_len(s),
                        s.len() as int,
                    )
                }
            
            },
            RandrReplyType::GetCrtcInfo => {

                if s.len() < 31 || s.len() < RandrGetCrtcInfo::spec_len(s) {
                    r == Err::<SomeReply, Error>(eof_error()) && rest == s
                } else {
                    r matches Ok(SomeReply::ExtensionRandr(RandrReply::GetCrtcInfo(v))) && v.decodes(s) && rest == s.subrange(
                        RandrGetCrtcInfo::spec_len(s),
                        s.len() as int,
                    )
                }
            
            },
            RandrReplyType::GetMonitors => {

                if !RandrGetMonitors::spec_complete(s) {
                    r == Err::<SomeReply, Error>(eof_error()) && rest == s
                } else {
                    r matches Ok(SomeReply::ExtensionRandr(RandrReply::GetMonitors(v))) && v.decodes(s) && rest == s.subrange(
                        RandrGetMonitors::spec_len(s),
                        s.len() as int,
                    )
                }
            
            },
        },
    }
}

/// Decodes a reply of kind `reply_type`, its first byte already consumed; a font listing
/// comes as one of its parts.
pub fn decode_reply(reply_type: ReplyType, conn: &mut ByteReader) -> (r: Result<SomeReply, Error>)
    requires
        reply_type == ReplyType::GetProperty && old(conn)@.len() >= 31
            ==> GetProperty::spec_value_len(old(conn)@) <= usize::MAX,
        reply_type == ReplyType::GetImage && old(conn)@.len() >= 31 ==> 4 * spec_le_u32(
            old(conn)@,
            3,
        ) <= u32::MAX,
        reply_type == ReplyType::GetKeyboardMapping && old(conn)@.len() >= 31 ==> old(conn)@[0]
            != 0,
        reply_type == ReplyType::ExtensionRandr(RandrReplyType::GetScreenInfo)
            && RandrGetScreenInfo::spec_complete(old(conn)@) ==> spec_le_u16(old(conn)@, 21)
            < RandrGetScreenInfo::spec_count(old(conn)@),
    ensures
        reply_decoded(reply_type, old(conn)@, r, final(conn)@),
{
    match reply_type {
        ReplyType::GetWindowAttributes => match GetWindowAttributes::from_le_bytes(conn) {
            Ok(v) => Ok(SomeReply::GetWindowAttributes(v)),
            Err(e) => Err(e),
        },
        ReplyType::GetGeometry => match GetGeometry::from_le_bytes(conn) {
            Ok(v) => Ok(SomeReply::GetGeometry(v)),
            Err(e) => Err(e),
        },
        ReplyType::QueryTree => match QueryTree::from_le_bytes(conn) {
            Ok(v) => Ok(SomeReply::QueryTree(v)),
            Err(e) => Err(e),
        },
        ReplyType::InternAtom => match InternAtom::from_le_bytes(conn) {
            Ok(v) => Ok(SomeReply::InternAtom(v)),
            Err(e) => Err(e),
        },
        ReplyType::GetAtomName => match GetAtomName::from_le_bytes(conn) {
            Ok(v) => Ok(SomeReply::GetAtomName(v)),
            Err(e) => Err(e),
        },
        ReplyType::GetProperty => match GetProperty::from_le_bytes(conn) {
            Ok(v) => Ok(SomeReply::GetProperty(v)),
            Err(e) => Err(e),
        },
        ReplyType::ListProperties => match ListProperties::from_le_bytes(conn) {
            Ok(v) => Ok(SomeReply::ListProperties(v)),
            Err(e) => Err(e),
        },
        ReplyType::GetSelectionOwner => match GetSelectionOwner::from_le_bytes(conn) {
            Ok(v) => Ok(SomeReply::GetSelectionOwner(v)),
            Err(e) => Err(e),
        },
        ReplyType::GrabPointer => match GrabPointer::from_le_bytes(conn) {
            Ok(v) => Ok(SomeReply::GrabPointer(v)),
            Err(e) => Err(e),
        },
        ReplyType::GrabKeyboard => match GrabKeyboard::from_le_bytes(conn) {
            Ok(v) => Ok(SomeReply::GrabKeyboard(v)),
            Err(e) => Err(e),
        },
        ReplyType::QueryPointer => match QueryPointer::from_le_bytes(conn) {
            Ok(v) => Ok(SomeReply::QueryPointer(v)),
            Err(e) => Err(e),
        },
        ReplyType::GetMotionEvents => match GetMotionEvents::from_le_bytes(conn) {
            Ok(v) => Ok(SomeReply::GetMotionEvents(v)),
            Err(e) => Err(e),
        },
        ReplyType::TranslateCoordinates => match TranslateCoordinates::from_le_bytes(conn) {
            Ok(v) => Ok(SomeReply::TranslateCoordinates(v)),
            Err(e) => Err(e),
        },
        ReplyType::GetInputFocus => match GetInputFocus::from_le_bytes(conn) {
            Ok(v) => Ok(SomeReply::GetInputFocus(v)),
            Err(e) => Err(e),
        },
        ReplyType::QueryKeymap => match QueryKeymap::from_le_bytes(conn) {
            Ok(v) => Ok(SomeReply::QueryKeymap(v)),
            Err(e) => Err(e),
        },
        ReplyType::QueryFont => match QueryFont::from_le_bytes(conn) {
            Ok(v) => Ok(SomeReply::QueryFont(v)),
            Err(e) => Err(e),
        },
        ReplyType::QueryTextExtents => match QueryTextExtents::from_le_bytes(conn) {
            Ok(v) => Ok(SomeReply::QueryTextExtents(v)),
            Err(e) => Err(e),
        },
        ReplyType::ListFonts => match ListFonts::from_le_bytes(conn) {
            Ok(v) => Ok(SomeReply::ListFonts(v)),
            Err(e) => Err(e),
        },
        ReplyType::ListFontsWithInfo => match ListFontsWithInfoPartial::from_le_bytes(conn) {
            Ok(v) => Ok(SomeReply::ListFontsWithInfoPartial(v)),
            Err(e) => Err(e),
        },
        ReplyType::GetFontPath => match GetFontPath::from_le_bytes(conn) {
            Ok(v) => Ok(SomeReply::GetFontPath(v)),
            Err(e) => Err(e),
        },
        ReplyType::GetImage => match GetImage::from_le_bytes(conn) {
            Ok(v) => Ok(SomeReply::GetImage(v)),
            Err(e) => Err(e),
        },
        ReplyType::ListInstalledColormaps => match ListInstalledColormaps::from_le_bytes(conn) {
            Ok(v) => Ok(SomeReply::ListInstalledColormaps(v)),
            Err(e) => Err(e),
        },
        ReplyType::AllocColor => match AllocColor::from_le_bytes(conn) {
            Ok(v) => Ok(SomeReply::AllocColor(v)),
            Err(e) => Err(e),
        },
        ReplyType::AllocNamedColor => match AllocNamedColor::from_le_bytes(conn) {
            Ok(v) => Ok(SomeReply::AllocNamedColor(v)),
            Err(e) => Err(e),
        },
        ReplyType::AllocColorCells => match AllocColorCells::from_le_bytes(conn) {
            Ok(v) => Ok(SomeReply::AllocColorCells(v)),
            Err(e) => Err(e),
        },
        ReplyType::AllocColorPlanes => match AllocColorPlanes::from_le_bytes(conn) {
            Ok(v) => Ok(SomeReply::AllocColorPlanes(v)),
            Err(e) => Err(e),
        },
        ReplyType::QueryColors => match QueryColors::from_le_bytes(conn) {
            Ok(v) => Ok(SomeReply::QueryColors(v)),
            Err(e) => Err(e),
        },
        ReplyType::LookupColor => match LookupColor::from_le_bytes(conn) {
            Ok(v) => Ok(SomeReply::LookupColor(v)),
            Err(e) => Err(e),
        },
        ReplyType::QueryBestSize => match QueryBestSize::from_le_bytes(conn) {
            Ok(v) => Ok(SomeReply::QueryBestSize(v)),
            Err(e) => Err(e),
        },
        ReplyType::QueryExtension => match QueryExtension::from_le_bytes(conn) {
            Ok(v) => Ok(SomeReply::QueryExtension(v)),
            Err(e) => Err(e),
        },
        ReplyType::ListExtensions => match ListExtensions::from_le_bytes(conn) {
            Ok(v) => Ok(SomeReply::ListExtensions(v)),
            Err(e) => Err(e),
        },
        ReplyType::GetKeyboardMapping => match GetKeyboardMapping::from_le_bytes(conn) {
            Ok(v) => Ok(SomeReply::GetKeyboardMapping(v)),
            Err(e) => Err(e),
        },
        ReplyType::GetKeyboardControl => match GetKeyboardControl::from_le_bytes(conn) {
            Ok(v) => Ok(SomeReply::GetKeyboardControl(v)),
            Err(e) => Err(e),
        },
        ReplyType::GetPointerControl => match GetPointerControl::from_le_bytes(conn) {
            Ok(v) => Ok(SomeReply::GetPointerControl(v)),
            Err(e) => Err(e),
        },
        ReplyType::GetScreenSaver => match GetScreenSaver::from_le_bytes(conn) {
            Ok(v) => Ok(SomeReply::GetScreenSaver(v)),
            Err(e) => Err(e),
        },
        ReplyType::ListHosts => match ListHosts::from_le_bytes(conn) {
            Ok(v) => Ok(SomeReply::ListHosts(v)),
            Err(e) => Err(e),
        },
        ReplyType::SetPointerMapping => match SetPointerMapping::from_le_bytes(conn) {
            Ok(v) => Ok(SomeReply::SetPointerMapping(v)),
            Err(e) => Err(e),
        },
        ReplyType::GetPointerMapping => match GetPointerMapping::from_le_bytes(conn) {
            Ok(v) => Ok(SomeReply::GetPointerMapping(v)),
            Err(e) => Err(e),
        },
        ReplyType::SetModifierMapping => match SetModifierMapping::from_le_bytes(conn) {
            Ok(v) => Ok(SomeReply::SetModifierMapping(v)),
            Err(e) => Err(e),
        },
        ReplyType::GetModifierMapping => match GetModifierMapping::from_le_bytes(conn) {
            Ok(v) => Ok(SomeReply::GetModifierMapping(v)),
            Err(e) => Err(e),
        },
        ReplyType::ExtensionRandr(randr_type) => match randr_type {
            RandrReplyType::QueryVersion => match RandrQueryVersion::from_le_bytes(conn) {
                Ok(v) => Ok(SomeReply::ExtensionRandr(RandrReply::QueryVersion(v))),
                Err(e) => Err(e),
            },
            RandrReplyType::SetScreenConfig => match RandrSetScreenConfig::from_le_bytes(conn) {
                Ok(v) => Ok(SomeReply::ExtensionRandr(RandrReply::SetScreenConfig(v))),
                Err(e) => Err(e),
            },
            RandrReplyType::GetScreenInfo => match RandrGetScreenInfo::from_le_bytes(conn) {
                Ok(v) => Ok(SomeReply::ExtensionRandr(RandrReply::GetScreenInfo(v))),
                Err(e) => Err(e),
            },
            RandrReplyType::GetCrtcInfo => match RandrGetCrtcInfo::from_le_bytes(conn) {
                Ok(v) => Ok(SomeReply::ExtensionRandr(RandrReply::GetCrtcInfo(v))),
                Err(e) => Err(e),
            },
            RandrReplyType::GetMonitors => match RandrGetMonitors::from_le_bytes(conn) {
                Ok(v) => Ok(SomeReply::ExtensionRandr(RandrReply::GetMonitors(v))),
                Err(e) => Err(e),
            },
        },
    }
}

} // verus!
