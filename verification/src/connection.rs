use vstd::prelude::*;

use std::collections::HashMap;

use crate::error::{Error, ErrorKind};
use crate::models::{spec_parse_event, Event};
use crate::packet::{
    spec_encode, spec_frame_len, words_view, FrameView, Packet, ID_SPACE, MAX_SIZE,
};

verus! {

broadcast use vstd::std_specs::hash::group_hash_axioms;

/// The frame the engine sends for an accepted request: the fresh id, both
/// flags clear, the caller's words.
pub open spec fn request_frame(id: u32, words: Seq<Seq<char>>) -> FrameView {
    FrameView { id, is_response: false, is_from_server: false, words }
}

/// What the caller of the engine must do with an inbound frame.
#[derive(Debug)]
pub enum Action<T> {
    /// Hand `status` and `payload` to the completion slot of the request
    /// this frame answers. Delivery is best-effort: if the original caller
    /// already gave up, handing them over is a no-op.
    Deliver { slot: T, status: String, payload: Vec<String> },
    /// Drop the frame silently: it answers a request nobody is waiting for.
    Ignore,
    /// Hand the notification to every current subscriber.
    Broadcast(Event),
}

/// The bytes [`Connection::accept_request`] hands out decode to exactly the
/// command frame it registered the slot under: the fresh id, both flags
/// clear, the caller's words, nothing more and nothing less.
pub proof fn lemma_request_bytes_decode(id: u32, words: Seq<Seq<char>>)
    requires
        id < ID_SPACE,
        spec_frame_len(request_frame(id, words)) <= MAX_SIZE,
    ensures
        crate::packet::spec_decode(spec_encode(request_frame(id, words)))
            == crate::packet::SpecDecoded::Frame(
            request_frame(id, words),
            spec_frame_len(request_frame(id, words)),
        ),
{
    crate::packet::lemma_decode_encode(request_frame(id, words), Seq::empty());
    assert(spec_encode(request_frame(id, words)) + Seq::<u8>::empty() =~= spec_encode(
        request_frame(id, words),
    ));
}

/// The decision core of the connection actor: the sequence-id counter and
/// the table of in-flight requests, keyed by id. The slot type `T` is the
/// caller's one-shot reply channel; the engine never looks inside it.
///
/// The surrounding event loop owns the transport: it feeds every decoded
/// inbound frame to [`Connection::handle_frame`] and every queued command to
/// [`Connection::accept_request`], writing the returned bytes out. When the
/// loop terminates, dropping the engine drops every still-pending slot,
/// which is itself the connection-lost signal the waiting callers observe.
///
/// An id is reused after the 30-bit counter wraps; an entry still pending
/// after 2^30 further requests would be overwritten. That collision is a
/// known, unenforced protocol invariant, not checked at run time.
pub struct Connection<T> {
    next_id: u32,
    pending: HashMap<u32, T>,
}

impl<T> Connection<T> {
    /// The id the next accepted request will carry.
    pub closed spec fn spec_next_id(&self) -> u32 {
        self.next_id
    }

    /// The in-flight request table: id to completion slot.
    pub closed spec fn spec_pending(&self) -> Map<u32, T> {
        self.pending@
    }

    /// The id counter stays inside the 30-bit id space.
    pub open spec fn wf(&self) -> bool {
        self.spec_next_id() < ID_SPACE
    }

    pub fn new() -> (c: Connection<T>)
        ensures
            c.spec_next_id() == 0,
            c.spec_pending() == Map::<u32, T>::empty(),
            c.wf(),
    {
        Connection { next_id: 0, pending: HashMap::new() }
    }

    /// How many requests are in flight.
    pub fn pending_len(&self) -> (n: usize)
        ensures
            n == self.spec_pending().dom().len(),
    {
        self.pending.len()
    }

    /// Accepts a queued command: allocates the next sequence id (wrapping
    /// inside the 30-bit id space), encodes the command frame, and registers
    /// the completion slot under the id. Fails, changing nothing, exactly
    /// when the encoded frame would exceed the protocol's size ceiling.
    pub fn accept_request(&mut self, words: Vec<String>, slot: T) -> (r: Result<
        (u32, Vec<u8>),
        Error,
    >)
        requires
            old(self).wf(),
        ensures
            final(self).wf(),
            match r {
                Ok((id, bytes)) => {
                    &&& id == old(self).spec_next_id()
                    &&& final(self).spec_next_id() == ((old(self).spec_next_id() + 1) % (
                    ID_SPACE as int)) as u32
                    &&& final(self).spec_pending() == old(self).spec_pending().insert(id, slot)
                    &&& spec_frame_len(request_frame(id, words_view(words@))) <= MAX_SIZE
                    &&& bytes@ == spec_encode(request_frame(id, words_view(words@)))
                },
                Err(e) => {
                    &&& spec_frame_len(request_frame(old(self).spec_next_id(), words_view(words@)))
                        > MAX_SIZE
                    &&& final(self).spec_next_id() == old(self).spec_next_id()
                    &&& final(self).spec_pending() == old(self).spec_pending()
                    &&& e.spec_kind() == ErrorKind::Parse
                    &&& e.wf()
                },
            },
    {
        let id = self.next_id;
        let packet = Packet::new(id, false, false, words);
        let mut bytes: Vec<u8> = Vec::new();
        match packet.write_to(&mut bytes) {
            Ok(()) => {
                self.next_id = if id >= ID_SPACE - 1 {
                    0
                } else {
                    id + 1
                };
                self.pending.insert(id, slot);
                Ok((id, bytes))
            },
            Err(e) => Err(e),
        }
    }

    /// Classifies one inbound frame and updates the pending table.
    ///
    /// A response frame (`is_response` set, `is_from_server` clear) is
    /// matched against the pending table: an unknown id is silently
    /// ignored; a known id is removed, and the frame must carry at least a
    /// status word, which is split off the payload and delivered. A push
    /// frame (`is_response` clear, `is_from_server` set) is decoded into a
    /// notification for broadcast; a payload that fails to decode is fatal,
    /// because word alignment cannot be trusted afterwards. Any other flag
    /// combination violates the protocol and is fatal too.
    pub fn handle_frame(&mut self, packet: Packet) -> (r: Result<Action<T>, Error>)
        requires
            old(self).wf(),
        ensures
            final(self).wf(),
            final(self).spec_next_id() == old(self).spec_next_id(),
            ({
                let f = packet@;
                if f.is_response && !f.is_from_server {
                    if old(self).spec_pending().contains_key(f.id) {
                        &&& final(self).spec_pending() == old(self).spec_pending().remove(f.id)
                        &&& if f.words.len() == 0 {
                            r matches Err(e) && e.spec_kind() == ErrorKind::Parse && e.wf()
                        } else {
                            r matches Ok(a) && a matches Action::Deliver { slot, status, payload }
                                && slot == old(self).spec_pending()[f.id] && status@ == f.words[0]
                                && words_view(payload@) == f.words.drop_first()
                        }
                    } else {
                        &&& final(self).spec_pending() == old(self).spec_pending()
                        &&& r matches Ok(a) && a is Ignore
                    }
                } else if !f.is_response && f.is_from_server {
                    &&& final(self).spec_pending() == old(self).spec_pending()
                    &&& match spec_parse_event(f.words) {
                        Some(ev) => r matches Ok(a) && a matches Action::Broadcast(e) && e@ == ev,
                        None => r matches Err(e) && e.spec_kind() == ErrorKind::Parse && e.wf(),
                    }
                } else {
                    &&& final(self).spec_pending() == old(self).spec_pending()
                    &&& r matches Err(e) && e.spec_kind() == ErrorKind::Parse && e.wf()
                }
            }),
    {
        if packet.is_response && !packet.is_from_server {
            match self.pending.remove(&packet.id) {
                Some(slot) => {
                    let mut words = packet.words;
                    if words.len() == 0 {
                        return Err(Error::new_parse("empty response packet".to_owned()));
                    }
                    let status = words.remove(0);
                    proof {
                        assert(words_view(words@) =~= packet@.words.drop_first());
                    }
                    Ok(Action::Deliver { slot, status, payload: words })
                },
                None => {
                    proof {
                        assert(self.pending@ =~= old(self).pending@);
                    }
                    Ok(Action::Ignore)
                },
            }
        } else if !packet.is_response && packet.is_from_server {
            match Event::from_words(packet.words) {
                Ok(e) => Ok(Action::Broadcast(e)),
                Err(e) => Err(e),
            }
        } else {
            Err(Error::new_parse("invalid frame flags".to_owned()))
        }
    }
}

} // verus!
