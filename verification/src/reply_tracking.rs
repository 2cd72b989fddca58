//! The bookkeeping of a connection's replies: each request that expects a reply is
//! numbered, and its reply is kept until whoever sent the request takes it, or dropped if
//! they said they do not want it.
use vstd::prelude::*;

use std::collections::HashMap;

use crate::bytes::{spec_le_u16, ByteReader};
use crate::error::{eof_error, Error};
use crate::events::SomeEvent;
use crate::geometry::{PendingReply, SequenceNumber};
use crate::replies::{
    open_listing, AwaitingReply, ListFontsWithInfo, ListFontsWithInfoPartial, ReceivedReply,
    ReplyType, SomeReply, XReply,
};

verus! {

/// The entry of a reply that arrived whole for a request that awaited it.
pub open spec fn received_at_once(reply_type: ReplyType, reply: SomeReply) -> AwaitingReply {
    AwaitingReply::Received(
        ReceivedReply { reply_type, reply: Ok(reply), done_receiving: true },
    )
}

/// What the sender of a request gets from a reply that arrived in full: the reply, if it is
/// of the kind they expect.
pub open spec fn delivered<Reply: XReply>(reply: Result<SomeReply, ()>) -> Result<
    Result<Reply, PendingReply<Reply>>,
    Error,
> {
    match reply {
        Ok(some) => match Reply::spec_from_reply(some) {
            Some(v) => Ok(Ok(v)),
            None => Err(Error::UnexpectedReply),
        },
        Err(_) => Err(Error::UnexpectedReply),
    }
}

/// Whether the entry at `k` holds a reply that arrived in full.
pub open spec fn complete_at(m: Map<u16, AwaitingReply>, k: u16) -> bool {
    m[k] matches AwaitingReply::Received(received) && received.done_receiving
}

/// The entries after the reply awaited at `k` is given up: one not yet come is to be
/// dropped when it comes, one that came in full is dropped now, and a listing that is still
/// arriving is dropped as the rest of it comes.
pub open spec fn after_discard(m: Map<u16, AwaitingReply>, k: u16) -> Map<u16, AwaitingReply> {
    match m[k] {
        AwaitingReply::NotReceived(reply_type) => m.insert(k, AwaitingReply::Discarded(reply_type)),
        AwaitingReply::Received(received) => if received.done_receiving {
            m.remove(k)
        } else {
            m.insert(k, AwaitingReply::Discarded(received.reply_type))
        },
        AwaitingReply::Discarded(_) => m,
    }
}

/// Whether the reply the entry at `k` expects can be stored: only a further part of a font
/// listing can be added to a reply already received.
pub open spec fn can_store(m: Map<u16, AwaitingReply>, k: u16, reply: SomeReply) -> bool {
    &&& m.contains_key(k)
    &&& m[k] matches AwaitingReply::Received(received) ==> open_listing(received)
        && reply is ListFontsWithInfoPartial
}

/// Whether a listing `after` is `before` with the part `reply` of a font listing added: a
/// font is appended and the listing stays open, the end marker closes it.
pub open spec fn listing_extended(before: ReceivedReply, after: ReceivedReply, reply: SomeReply) -> bool {
    &&& after.reply_type == before.reply_type
    &&& reply matches SomeReply::ListFontsWithInfoPartial(part)
    &&& match part {
        ListFontsWithInfoPartial::ListFontsWithInfoEnd => after.done_receiving && after.reply
            == before.reply,
        ListFontsWithInfoPartial::ListFontsWithInfoPiece(piece) => {
            &&& !after.done_receiving
            &&& after.reply matches Ok(SomeReply::ListFontsWithInfo(list))
            &&& before.reply matches Ok(SomeReply::ListFontsWithInfo(earlier))
            &&& list.replies@ == earlier.replies@.push(piece)
        },
    }
}

/// Whether `m2` holds the entries of `m` after `reply` came for the entry at `k`: a reply
/// that was awaited is kept (a font listing gathers its parts), a discarded one is dropped
/// (a font listing once its last part came), and a part of a listing extends it.
pub open spec fn stored(
    m: Map<u16, AwaitingReply>,
    m2: Map<u16, AwaitingReply>,
    k: u16,
    reply: SomeReply,
) -> bool {
    match m[k] {
        AwaitingReply::NotReceived(reply_type) => if reply is ListFontsWithInfoPartial {
            &&& m2 == m.insert(k, m2[k])
            &&& m2[k] matches AwaitingReply::Received(received)
            &&& received.reply_type == reply_type
            &&& match reply {
                SomeReply::ListFontsWithInfoPartial(
                    ListFontsWithInfoPartial::ListFontsWithInfoPiece(piece),
                ) => {
                    &&& !received.done_receiving
                    &&& received.reply matches Ok(SomeReply::ListFontsWithInfo(list))
                    &&& list.replies@ == seq![piece]
                },
                _ => {
                    &&& received.done_receiving
                    &&& received.reply matches Ok(SomeReply::ListFontsWithInfo(list))
                    &&& list.replies@.len() == 0
                },
            }
        } else {
            m2 == m.insert(k, received_at_once(reply_type, reply))
        },
        AwaitingReply::Discarded(_) => if reply matches SomeReply::ListFontsWithInfoPartial(
            ListFontsWithInfoPartial::ListFontsWithInfoPiece(_),
        ) {
            m2 == m
        } else {
            m2 == m.remove(k)
        },
        AwaitingReply::Received(before) => {
            &&& m2 == m.insert(k, m2[k])
            &&& m2[k] matches AwaitingReply::Received(after)
            &&& listing_extended(before, after, reply)
        },
    }
}

/// The replies a connection awaits, by the sequence number of their request, and the
/// sequence number of the next request.
pub struct ReplyTracker {
    awaiting_replies: HashMap<u16, AwaitingReply>,
    next_sequence_number: SequenceNumber,
}

impl ReplyTracker {
    /// The awaited replies, by sequence number.
    pub closed spec fn spec_awaiting(&self) -> Map<u16, AwaitingReply> {
        self.awaiting_replies@
    }

    /// The sequence number the next request gets.
    pub closed spec fn spec_next(&self) -> u16 {
        self.next_sequence_number@
    }

    /// The bookkeeping of a fresh connection: the connection setup was request 0.
    pub fn new() -> (r: Self)
        ensures
            r.spec_awaiting() == Map::<u16, AwaitingReply>::empty(),
            r.spec_next() == 1,
    {
        ReplyTracker {
            awaiting_replies: HashMap::new(),
            next_sequence_number: SequenceNumber::from_u16(1),
        }
    }

    /// Whether a reply is awaited for the request numbered `sequence_number`.
    pub fn is_tracked(&self, sequence_number: SequenceNumber) -> (r: bool)
        ensures
            r == self.spec_awaiting().contains_key(sequence_number@),
    {
        broadcast use vstd::std_specs::hash::group_hash_axioms;

        self.awaiting_replies.contains_key(&sequence_number.value())
    }

    /// Takes the sequence number of the request being sent.
    fn next_sequence_number(&mut self) -> (r: SequenceNumber)
        ensures
            r@ == old(self).spec_next(),
            final(self).spec_next() == (if old(self).spec_next() == u16::MAX {
                0
            } else {
                old(self).spec_next() + 1
            }),
            final(self).spec_awaiting() == old(self).spec_awaiting(),
    {
        let this_sequence_number = self.next_sequence_number;
        self.next_sequence_number = this_sequence_number.next();
        this_sequence_number
    }

    /// Starts awaiting the reply of the request numbered `sequence_number`, where the
    /// request has one.
    fn wrap_reply<Reply>(
        &mut self,
        sequence_number: SequenceNumber,
        reply_type: Option<ReplyType>,
    ) -> (r: PendingReply<Reply>)
        requires
            reply_type is Some ==> !old(self).spec_awaiting().contains_key(sequence_number@),
        ensures
            r.spec_sequence_number() == sequence_number,
            final(self).spec_next() == old(self).spec_next(),
            final(self).spec_awaiting() == match reply_type {
                Some(t) => old(self).spec_awaiting().insert(
                    sequence_number@,
                    AwaitingReply::NotReceived(t),
                ),
                None => old(self).spec_awaiting(),
            },
    {
        broadcast use vstd::std_specs::hash::group_hash_axioms;

        if let Some(t) = reply_type {
            self.awaiting_replies.insert(sequence_number.value(), AwaitingReply::NotReceived(t));
        }
        PendingReply::new(sequence_number)
    }

    /// Numbers a request that was just sent and, where it has a reply of kind
    /// `reply_type`, starts awaiting it.
    pub fn register_request<Reply>(&mut self, reply_type: Option<ReplyType>) -> (r: PendingReply<
        Reply,
    >)
        requires
            reply_type is Some ==> !old(self).spec_awaiting().contains_key(old(self).spec_next()),
        ensures
            r.spec_sequence_number()@ == old(self).spec_next(),
            final(self).spec_next() == (if old(self).spec_next() == u16::MAX {
                0
            } else {
                old(self).spec_next() + 1
            }),
            final(self).spec_awaiting() == match reply_type {
                Some(t) => old(self).spec_awaiting().insert(
                    old(self).spec_next(),
                    AwaitingReply::NotReceived(t),
                ),
                None => old(self).spec_awaiting(),
            },
    {
        let sequence_number = self.next_sequence_number();
        self.wrap_reply(sequence_number, reply_type)
    }

    /// Takes the reply of `pending` if it arrived in full; otherwise hands `pending` back.
    /// A reply of another kind than expected is an error.
    pub fn try_get_pending_reply<Reply: XReply>(&mut self, pending: PendingReply<Reply>) -> (r:
        Result<Result<Reply, PendingReply<Reply>>, Error>)
        requires
            old(self).spec_awaiting().contains_key(pending.spec_sequence_number()@),
            !(old(self).spec_awaiting()[pending.spec_sequence_number()@] is Discarded),
        ensures
            ({
                let m = old(self).spec_awaiting();
                let k = pending.spec_sequence_number()@;
                if complete_at(m, k) {
                    &&& final(self).spec_awaiting() == m.remove(k)
                    &&& r == delivered::<Reply>(m[k]->Received_0.reply)
                } else {
                    &&& final(self).spec_awaiting() == m
                    &&& r matches Ok(Err(p)) && p.spec_sequence_number()
                        == pending.spec_sequence_number()
                }
            }),
            final(self).spec_next() == old(self).spec_next(),
    {
        broadcast use vstd::std_specs::hash::group_hash_axioms;

        let ghost m = self.awaiting_replies@;
        let key = pending.sequence_number().value();
        let entry = self.awaiting_replies.remove(&key);
        match entry {
            Some(AwaitingReply::Received(received)) => {
                if received.done_receiving {
                    match received.reply {
                        Ok(reply) => match Reply::from_reply(reply) {
                            Some(v) => Ok(Ok(v)),
                            None => Err(Error::UnexpectedReply),
                        },
                        Err(_) => Err(Error::UnexpectedReply),
                    }
                } else {
                    self.awaiting_replies.insert(key, AwaitingReply::Received(received));
                    proof {
                        assert(self.awaiting_replies@ =~= m);
                    }
                    Ok(Err(pending))
                }
            },
            Some(other) => {
                self.awaiting_replies.insert(key, other);
                proof {
                    assert(self.awaiting_replies@ =~= m);
                }
                Ok(Err(pending))
            },
            None => Ok(Err(pending)),
        }
    }

    /// Gives up the reply of `to_discard`: it is dropped as soon as it is complete.
    pub fn discard_reply<Reply>(&mut self, to_discard: PendingReply<Reply>) -> (r: Result<(), Error>)
        requires
            old(self).spec_awaiting().contains_key(to_discard.spec_sequence_number()@),
            !(old(self).spec_awaiting()[to_discard.spec_sequence_number()@] is Discarded),
        ensures
            r is Ok,
            final(self).spec_awaiting() == after_discard(
                old(self).spec_awaiting(),
                to_discard.spec_sequence_number()@,
            ),
            final(self).spec_next() == old(self).spec_next(),
    {
        broadcast use vstd::std_specs::hash::group_hash_axioms;

        let ghost m = self.awaiting_replies@;
        let key = to_discard.sequence_number().value();
        let entry = self.awaiting_replies.remove(&key);
        match entry {
            Some(AwaitingReply::NotReceived(t)) => {
                self.awaiting_replies.insert(key, AwaitingReply::Discarded(t));
                proof {
                    assert(self.awaiting_replies@ =~= m.insert(key, AwaitingReply::Discarded(t)));
                }
            },
            Some(AwaitingReply::Received(received)) => {
                if !received.done_receiving {
                    self.awaiting_replies.insert(key, AwaitingReply::Discarded(received.reply_type));
                    proof {
                        assert(self.awaiting_replies@ =~= m.insert(
                            key,
                            AwaitingReply::Discarded(received.reply_type),
                        ));
                    }
                }
            },
            Some(other) => {
                self.awaiting_replies.insert(key, other);
            },
            None => {},
        }
        Ok(())
    }

    /// The kind of the reply awaited for the request numbered `sequence_number`: the kind
    /// to decode the reply that came with that number as.
    pub fn awaited_reply_type(&self, sequence_number: SequenceNumber) -> (r: ReplyType)
        requires
            self.spec_awaiting().contains_key(sequence_number@),
        ensures
            r == self.spec_awaiting()[sequence_number@].spec_reply_type(),
    {
        broadcast use vstd::std_specs::hash::group_hash_axioms;

        match self.awaiting_replies.get(&sequence_number.value()) {
            Some(entry) => entry.reply_type(),
            None => ReplyType::GetGeometry,
        }
    }

    /// Keeps `reply`, which came for the request numbered `sequence_number`, for whoever
    /// awaits it, or drops it if it was discarded.
    pub fn store_reply(&mut self, sequence_number: SequenceNumber, reply: SomeReply)
        requires
            can_store(old(self).spec_awaiting(), sequence_number@, reply),
        ensures
            stored(old(self).spec_awaiting(), final(self).spec_awaiting(), sequence_number@, reply),
            final(self).spec_next() == old(self).spec_next(),
    {
        broadcast use vstd::std_specs::hash::group_hash_axioms;

        let ghost m = self.awaiting_replies@;
        let key = sequence_number.value();
        let entry = self.awaiting_replies.remove(&key);
        match entry {
            Some(AwaitingReply::NotReceived(reply_type)) => {
                let is_partial = match &reply {
                    SomeReply::ListFontsWithInfoPartial(_) => true,
                    _ => false,
                };
                if is_partial {
                    let mut received = ReceivedReply {
                        reply: Ok(SomeReply::ListFontsWithInfo(ListFontsWithInfo { replies: Vec::new() })),
                        reply_type,
                        done_receiving: false,
                    };
                    let ghost before = received;
                    let appended = received.append_reply(reply);
                    proof {
                        assert(appended);
                    }
                    self.awaiting_replies.insert(key, AwaitingReply::Received(received));
                    proof {
                        assert(self.awaiting_replies@ =~= m.insert(key, self.awaiting_replies@[key]));
                    }
                } else {
                    let received = ReceivedReply { reply: Ok(reply), reply_type, done_receiving: true };
                    self.awaiting_replies.insert(key, AwaitingReply::Received(received));
                    proof {
                        assert(self.awaiting_replies@ =~= m.insert(key, received_at_once(reply_type, reply)));
                    }
                }
            },
            Some(AwaitingReply::Discarded(reply_type)) => {
                let is_piece = match &reply {
                    SomeReply::ListFontsWithInfoPartial(
                        ListFontsWithInfoPartial::ListFontsWithInfoPiece(_),
                    ) => true,
                    _ => false,
                };
                if is_piece {
                    self.awaiting_replies.insert(key, AwaitingReply::Discarded(reply_type));
                    proof {
                        assert(self.awaiting_replies@ =~= m);
                    }
                }
            },
            Some(AwaitingReply::Received(mut received)) => {
                let appended = received.append_reply(reply);
                proof {
                    assert(appended);
                }
                self.awaiting_replies.insert(key, AwaitingReply::Received(received));
                proof {
                    assert(self.awaiting_replies@ =~= m.insert(key, self.awaiting_replies@[key]));
                }
            },
            None => {},
        }
    }
}

/// A reply that comes whole for a request that awaits it is what the sender then takes,
/// and its entry is gone afterwards.
pub proof fn lemma_stored_reply_is_delivered<Reply: XReply>(
    m: Map<u16, AwaitingReply>,
    m2: Map<u16, AwaitingReply>,
    k: u16,
    reply_type: ReplyType,
    reply: SomeReply,
)
    requires
        m.contains_key(k),
        m[k] == AwaitingReply::NotReceived(reply_type),
        !(reply is ListFontsWithInfoPartial),
        stored(m, m2, k, reply),
    ensures
        m2.contains_key(k),
        complete_at(m2, k),
        delivered::<Reply>(m2[k]->Received_0.reply) == match Reply::spec_from_reply(reply) {
            Some(v) => Ok(Ok(v)),
            None => Err::<Result<Reply, PendingReply<Reply>>, Error>(Error::UnexpectedReply),
        },
        m2.remove(k) == m.remove(k),
{
    assert(m2.remove(k) =~= m.remove(k));
}

/// A reply given up before it comes is never kept: when it comes, its entry is dropped and
/// nothing else changes.
pub proof fn lemma_discarded_reply_is_dropped(
    m: Map<u16, AwaitingReply>,
    m2: Map<u16, AwaitingReply>,
    k: u16,
    reply_type: ReplyType,
    reply: SomeReply,
)
    requires
        m.contains_key(k),
        m[k] == AwaitingReply::NotReceived(reply_type),
        !(reply matches SomeReply::ListFontsWithInfoPartial(
            ListFontsWithInfoPartial::ListFontsWithInfoPiece(_),
        )),
        stored(after_discard(m, k), m2, k, reply),
    ensures
        m2 == m.remove(k),
{
    assert(after_discard(m, k).remove(k) =~= m.remove(k));
}

/// Where a message from the server goes: an error, to the list of errors; the start of a
/// reply, to the request with its sequence number; an event, to the queue of events.
#[derive(Debug)]
pub enum Response {
    /// An error with its code and its 32 bytes.
    Error { error_code: u8, bytes: Vec<u8> },
    /// A reply to the request with this sequence number; its bytes after the first are
    /// left to be decoded by the kind that request awaits.
    Reply(SequenceNumber),
    /// An event.
    Event(SomeEvent),
}

/// Whether `r`, with the bytes `rest` left, is the routing of the messages `s`: the first byte
/// tells an error (0), a reply (1) or an event (any other code); errors and events take 32
/// bytes, and an event whose bytes are not well formed is an invalid response.
pub open spec fn routed(s: Seq<u8>, r: Result<Response, Error>, rest: Seq<u8>) -> bool {
    if s.len() < 1 {
        r == Err::<Response, Error>(eof_error()) && rest == s
    } else if s[0] == 1 {
        if s.len() < 4 {
            r == Err::<Response, Error>(eof_error()) && rest == s
        } else {
            &&& r matches Ok(Response::Reply(seq)) && seq@ == spec_le_u16(s, 2)
            &&& rest == s.subrange(1, s.len() as int)
        }
    } else if s.len() < 32 {
        r == Err::<Response, Error>(eof_error()) && rest == s
    } else if s[0] == 0 {
        &&& r matches Ok(Response::Error { error_code, bytes }) && error_code == s[1] && bytes@
            == s.subrange(0, 32)
        &&& rest == s.subrange(32, s.len() as int)
    } else {
        &&& rest == s.subrange(32, s.len() as int)
        &&& match r {
            Ok(Response::Event(e)) => SomeEvent::spec_decoded(s.subrange(0, 32), Some(e)),
            Err(e) => e == Error::InvalidResponse("SomeEvent") && SomeEvent::spec_decoded(
                s.subrange(0, 32),
                None,
            ),
            _ => false,
        }
    }
}

/// Takes the next message from the server off `conn` and says where it goes.
pub fn route_response(conn: &mut ByteReader) -> (r: Result<Response, Error>)
    ensures
        routed(old(conn)@, r, final(conn)@),
{
    let code = match conn.peek(0) {
        Ok(c) => c,
        Err(e) => return Err(e),
    };
    if code == 1 {
        if conn.len() < 4 {
            return Err(Error::eof());
        }
        let low = conn.byte(2);
        let high = conn.byte(3);
        let value: u16 = low as u16 + (high as u16) * 256;
        conn.advance(1);
        return Ok(Response::Reply(SequenceNumber::from_u16(value)));
    }
    if conn.len() < 32 {
        return Err(Error::eof());
    }
    let bytes = conn.take_bytes(32);
    if code == 0 {
        let error_code = bytes[1];
        return Ok(Response::Error { error_code, bytes });
    }
    let mut raw = [0u8; 32];
    let mut i: usize = 0;
    while i < 32
        invariant
            i <= 32,
            bytes@.len() == 32,
            forall|j: int| 0 <= j < i ==> raw@[j] == bytes@[j],
        decreases 32 - i,
    {
        raw[i] = bytes[i];
        i = i + 1;
    }
    assert(raw@ =~= bytes@);
    match SomeEvent::from_le_bytes(&raw) {
        Some(e) => Ok(Response::Event(e)),
        None => Err(Error::InvalidResponse("SomeEvent")),
    }
}

/// The sequence number after `k` more requests from `start`, counting one by one and
/// wrapping after `u16::MAX` as `register_request` does.
pub open spec fn after_requests(start: u16, k: nat) -> u16
    decreases k,
{
    if k == 0 {
        start
    } else {
        let p = after_requests(start, (k - 1) as nat);
        if p == u16::MAX {
            0
        } else {
            (p + 1) as u16
        }
    }
}

/// Requests are numbered modulo 2^16: `k` requests after `start`, the next number is
/// `(start + k) mod 65536`; a fresh connection starts at 1, the setup being request 0.
pub proof fn lemma_numbering(start: u16, k: nat)
    ensures
        after_requests(start, k) == (start + k) % 65536,
    decreases k,
{
    if k > 0 {
        lemma_numbering(start, (k - 1) as nat);
        let p = after_requests(start, (k - 1) as nat);
        assert(p == (start + k - 1) % 65536);
        vstd::arithmetic::div_mod::lemma_add_mod_noop(start + k - 1, 1, 65536);
    }
}

} // verus!
