use vstd::prelude::*;

use bytes::BytesMut;

use crate::error::{Error, ErrorKind};
use crate::packet::{spec_decode, spec_encode, spec_frame_len, Packet, SpecDecoded, MAX_SIZE};

verus! {

#[verifier::external_type_specification]
#[verifier::external_body]
pub struct ExBytesMut(BytesMut);

/// The bytes a `BytesMut` currently holds, front first.
pub uninterp spec fn bytes_view(b: BytesMut) -> Seq<u8>;

/// Relies on `BytesMut::len`: the number of bytes the buffer holds.
#[verifier::external_body]
fn bytes_len(b: &BytesMut) -> (n: usize)
    ensures
        n == bytes_view(*b).len(),
{
    b.len()
}

/// Relies on `BytesMut`'s slice view: copies the held bytes out, front
/// first, changing nothing.
#[verifier::external_body]
fn bytes_to_vec(b: &BytesMut) -> (v: Vec<u8>)
    ensures
        v@ == bytes_view(*b),
{
    b.as_ref().to_vec()
}

/// Relies on `bytes::Buf::advance`: discards the first `n` bytes of the
/// buffer. `advance` panics past the end, so `n` is bounded.
#[verifier::external_body]
fn bytes_advance(b: &mut BytesMut, n: usize)
    requires
        n <= bytes_view(*old(b)).len(),
    ensures
        bytes_view(*final(b)) == bytes_view(*old(b)).skip(n as int),
{
    bytes::Buf::advance(b, n);
}

/// Relies on `BytesMut::extend_from_slice`: appends the given bytes after
/// the held ones.
#[verifier::external_body]
fn bytes_extend(b: &mut BytesMut, v: &Vec<u8>)
    ensures
        bytes_view(*final(b)) == bytes_view(*old(b)) + v@,
{
    b.extend_from_slice(v.as_slice());
}

impl Packet {
    /// Decodes one frame from the front of the stream buffer, consuming
    /// exactly the frame's declared size on success; while the buffer does
    /// not yet hold a whole frame it is left untouched and `Ok(None)` asks
    /// for more data. Bytes past the decoded frame stay buffered for the
    /// next call.
    pub fn read(buf: &mut BytesMut) -> (r: Result<Option<Packet>, Error>)
        ensures
            match r {
                Ok(None) => spec_decode(bytes_view(*old(buf))) is NeedMore && bytes_view(
                    *final(buf),
                ) == bytes_view(*old(buf)),
                Ok(Some(p)) => spec_decode(bytes_view(*old(buf))) matches SpecDecoded::Frame(f, n)
                    && f == p@ && bytes_view(*final(buf)) == bytes_view(*old(buf)).skip(n),
                Err(e) => spec_decode(bytes_view(*old(buf))) is Malformed && bytes_view(
                    *final(buf),
                ) == bytes_view(*old(buf)) && e.spec_kind() == ErrorKind::Parse && e.wf(),
            },
    {
        let v = bytes_to_vec(buf);
        match Packet::read_from(&v) {
            Ok(None) => Ok(None),
            Ok(Some((p, n))) => {
                bytes_advance(buf, n);
                Ok(Some(p))
            },
            Err(e) => Err(e),
        }
    }

    /// Appends the wire encoding of this frame to the stream buffer.
    /// Fails, writing nothing, exactly when the encoded frame would exceed
    /// the protocol's size ceiling.
    pub fn write(&self, buf: &mut BytesMut) -> (r: Result<(), Error>)
        ensures
            match r {
                Ok(()) => spec_frame_len(self@) <= MAX_SIZE && bytes_view(*final(buf))
                    == bytes_view(*old(buf)) + spec_encode(self@),
                Err(e) => spec_frame_len(self@) > MAX_SIZE && bytes_view(*final(buf))
                    == bytes_view(*old(buf)) && e.spec_kind() == ErrorKind::Parse && e.wf(),
            },
    {
        let mut tmp: Vec<u8> = Vec::new();
        match self.write_to(&mut tmp) {
            Ok(()) => {
                bytes_extend(buf, &tmp);
                Ok(())
            },
            Err(e) => Err(e),
        }
    }
}

} // verus!
