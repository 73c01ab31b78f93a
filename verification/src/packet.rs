use vstd::prelude::*;

use vstd::bytes::{spec_u32_from_le_bytes, spec_u32_to_le_bytes, u32_from_le_bytes, u32_to_le_bytes};
use vstd::slice::{slice_subrange, slice_to_vec};
use vstd::string::StrSliceExecFns;
use vstd::utf8::{decode_utf8, encode_utf8, valid_utf8};

use crate::error::{Error, ErrorKind};
use crate::words::string_from_utf8;

verus! {

/// Fixed size of the frame header: three little-endian `u32` fields
/// (packed sequence, total frame size, word count).
pub const HEADER_SIZE: usize = 12;

/// Bytes a word costs beyond its UTF-8 content: a 4-byte length prefix
/// and a 1-byte null terminator.
pub const WORD_OVERHEAD: usize = 5;

/// Hard protocol ceiling on the total encoded size of one frame.
pub const MAX_SIZE: usize = 16384;

/// Low 30 bits of the sequence field carry the id; bit 30 is the response
/// flag and bit 31 the server-origin flag.
pub const ID_SPACE: u32 = 0x4000_0000;

/// One protocol frame: a 30-bit sequence id, a response flag, a
/// server-origin flag, and an ordered list of UTF-8 words.
#[derive(Debug)]
pub struct Packet {
    pub id: u32,
    pub is_response: bool,
    pub is_from_server: bool,
    pub words: Vec<String>,
}

/// The mathematical content of a [`Packet`].
pub struct FrameView {
    pub id: u32,
    pub is_response: bool,
    pub is_from_server: bool,
    pub words: Seq<Seq<char>>,
}

/// The character sequences of a list of words.
pub open spec fn words_view(ws: Seq<String>) -> Seq<Seq<char>> {
    ws.map_values(|w: String| w@)
}

impl View for Packet {
    type V = FrameView;

    open spec fn view(&self) -> FrameView {
        FrameView {
            id: self.id,
            is_response: self.is_response,
            is_from_server: self.is_from_server,
            words: words_view(self.words@),
        }
    }
}

/// The packed 32-bit sequence field: id in the low 30 bits, the response
/// flag at bit 30, the server-origin flag at bit 31.
pub open spec fn spec_sequence_field(f: FrameView) -> u32 {
    ((f.id as int % ID_SPACE as int) + (if f.is_response {
        0x4000_0000int
    } else {
        0int
    }) + (if f.is_from_server {
        0x8000_0000int
    } else {
        0int
    })) as u32
}

/// The wire bytes of one word with the given terminator byte: 4-byte
/// little-endian length of the UTF-8 content, the content, the terminator.
pub open spec fn spec_word_bytes_term(w: Seq<char>, t: u8) -> Seq<u8> {
    spec_u32_to_le_bytes(encode_utf8(w).len() as u32) + encode_utf8(w) + seq![t]
}

/// The wire bytes of one well-formed word (terminator zero).
pub open spec fn spec_word_bytes(w: Seq<char>) -> Seq<u8> {
    spec_word_bytes_term(w, 0u8)
}

/// The wire bytes of a frame body: every word in order, word `i` closed by
/// terminator `ts[i]`.
pub open spec fn spec_words_bytes_term(ws: Seq<Seq<char>>, ts: Seq<u8>) -> Seq<u8>
    decreases ws.len(),
{
    if ws.len() == 0 {
        Seq::empty()
    } else {
        spec_word_bytes_term(ws[0], ts[0]) + spec_words_bytes_term(ws.drop_first(), ts.drop_first())
    }
}

/// The wire bytes of a well-formed frame body.
pub open spec fn spec_words_bytes(ws: Seq<Seq<char>>) -> Seq<u8>
    decreases ws.len(),
{
    if ws.len() == 0 {
        Seq::empty()
    } else {
        spec_word_bytes(ws[0]) + spec_words_bytes(ws.drop_first())
    }
}

/// Total byte length of a frame body: each word costs its UTF-8 length
/// plus [`WORD_OVERHEAD`].
pub open spec fn spec_body_len(ws: Seq<Seq<char>>) -> int
    decreases ws.len(),
{
    if ws.len() == 0 {
        0
    } else {
        WORD_OVERHEAD + encode_utf8(ws[0]).len() + spec_body_len(ws.drop_first())
    }
}

/// Total encoded byte length of a frame, header included.
pub open spec fn spec_frame_len(f: FrameView) -> int {
    HEADER_SIZE + spec_body_len(f.words)
}

/// The complete wire encoding of a frame.
pub open spec fn spec_encode(f: FrameView) -> Seq<u8> {
    spec_u32_to_le_bytes(spec_sequence_field(f)) + spec_u32_to_le_bytes(spec_frame_len(f) as u32)
        + spec_u32_to_le_bytes(f.words.len() as u32) + spec_words_bytes(f.words)
}

pub proof fn lemma_body_len_nonneg(ws: Seq<Seq<char>>)
    ensures
        spec_body_len(ws) >= WORD_OVERHEAD * ws.len(),
    decreases ws.len(),
{
    if ws.len() > 0 {
        lemma_body_len_nonneg(ws.drop_first());
    }
}

pub proof fn lemma_body_len_take_succ(ws: Seq<Seq<char>>, i: int)
    requires
        0 <= i < ws.len(),
    ensures
        spec_body_len(ws.take(i + 1)) == spec_body_len(ws.take(i)) + WORD_OVERHEAD + encode_utf8(
            ws[i],
        ).len(),
    decreases i,
{
    if i == 0 {
        assert(ws.take(1).drop_first() =~= ws.take(0));
        assert(ws.take(0).len() == 0);
    } else {
        assert(ws.take(i + 1).drop_first() =~= ws.drop_first().take(i));
        assert(ws.take(i).drop_first() =~= ws.drop_first().take(i - 1));
        lemma_body_len_take_succ(ws.drop_first(), i - 1);
    }
}

pub proof fn lemma_body_len_take_bound(ws: Seq<Seq<char>>, i: int)
    requires
        0 <= i <= ws.len(),
    ensures
        spec_body_len(ws.take(i)) <= spec_body_len(ws),
    decreases ws.len() - i,
{
    if i == ws.len() {
        assert(ws.take(i) =~= ws);
    } else {
        lemma_body_len_take_succ(ws, i);
        lemma_body_len_take_bound(ws, i + 1);
    }
}

pub proof fn lemma_words_bytes_take_succ(ws: Seq<Seq<char>>, i: int)
    requires
        0 <= i < ws.len(),
    ensures
        spec_words_bytes(ws.take(i + 1)) == spec_words_bytes(ws.take(i)) + spec_word_bytes(ws[i]),
    decreases i,
{
    if i == 0 {
        assert(ws.take(1).drop_first() =~= ws.take(0));
        assert(ws.take(1)[0] == ws[0]);
        assert(spec_word_bytes(ws[0]) + Seq::<u8>::empty() =~= spec_word_bytes(ws[0]));
        assert(spec_words_bytes(ws.take(0)) + spec_word_bytes(ws[0]) =~= spec_word_bytes(ws[0]));
    } else {
        assert(ws.take(i + 1).drop_first() =~= ws.drop_first().take(i));
        assert(ws.take(i).drop_first() =~= ws.drop_first().take(i - 1));
        lemma_words_bytes_take_succ(ws.drop_first(), i - 1);
        assert(spec_words_bytes(ws.take(i + 1)) == spec_word_bytes(ws[0]) + (spec_words_bytes(
            ws.drop_first().take(i - 1),
        ) + spec_word_bytes(ws[i])));
        assert(spec_word_bytes(ws[0]) + (spec_words_bytes(ws.drop_first().take(i - 1))
            + spec_word_bytes(ws[i])) =~= (spec_word_bytes(ws[0]) + spec_words_bytes(
            ws.drop_first().take(i - 1),
        )) + spec_word_bytes(ws[i]));
    }
}

/// Each word's UTF-8 content fits inside the body it is part of.
pub proof fn lemma_word_len_bounded(ws: Seq<Seq<char>>, i: int)
    requires
        0 <= i < ws.len(),
    ensures
        encode_utf8(ws[i]).len() <= spec_body_len(ws),
{
    lemma_body_len_take_succ(ws, i);
    lemma_body_len_take_bound(ws, i + 1);
    lemma_body_len_nonneg(ws.take(i));
}

/// The body bytes of a frame are exactly as long as [`spec_body_len`] says.
pub proof fn lemma_words_bytes_len(ws: Seq<Seq<char>>)
    requires
        forall|i: int| 0 <= i < ws.len() ==> encode_utf8(#[trigger] ws[i]).len() <= u32::MAX,
    ensures
        spec_words_bytes(ws).len() == spec_body_len(ws),
    decreases ws.len(),
{
    if ws.len() > 0 {
        assert(forall|i: int|
            0 <= i < ws.drop_first().len() ==> encode_utf8(#[trigger] ws.drop_first()[i]).len()
                <= u32::MAX);
        lemma_words_bytes_len(ws.drop_first());
        vstd::bytes::lemma_auto_spec_u32_to_from_le_bytes();
    }
}

/// The wire encoding of a frame in which word `i` is closed by terminator
/// byte `ts[i]` instead of zero. With all-zero terminators this is exactly
/// [`spec_encode`] (see [`lemma_encode_zero_terminators`]); any nonzero
/// terminator makes the frame malformed (see
/// [`lemma_nonzero_terminator_malformed`]).
pub open spec fn spec_encode_term(f: FrameView, ts: Seq<u8>) -> Seq<u8> {
    spec_u32_to_le_bytes(spec_sequence_field(f)) + spec_u32_to_le_bytes(spec_frame_len(f) as u32)
        + spec_u32_to_le_bytes(f.words.len() as u32) + spec_words_bytes_term(f.words, ts)
}

/// Outcome of decoding one frame from the front of a byte buffer:
/// the buffer does not yet hold a whole frame, the frame at the front is
/// malformed, or a frame was decoded together with the number of bytes it
/// occupies.
pub enum SpecDecoded {
    NeedMore,
    Malformed,
    Frame(FrameView, int),
}

/// Parses `count` words from the front of a frame body. A word is a 4-byte
/// little-endian length, that many bytes of UTF-8 content, and a zero
/// terminator byte; `None` means the body is malformed. Body bytes past the
/// last word are ignored.
pub open spec fn spec_parse_words(body: Seq<u8>, count: int) -> Option<Seq<Seq<char>>>
    decreases count,
{
    if count <= 0 {
        Some(Seq::empty())
    } else if body.len() < 4 {
        None
    } else {
        let wlen = spec_u32_from_le_bytes(body.take(4)) as int;
        if body.len() < WORD_OVERHEAD + wlen {
            None
        } else if !valid_utf8(body.subrange(4, 4 + wlen)) {
            None
        } else if body[4 + wlen] != 0 {
            None
        } else {
            match spec_parse_words(body.skip(WORD_OVERHEAD + wlen), count - 1) {
                None => None,
                Some(rest) => Some(seq![decode_utf8(body.subrange(4, 4 + wlen))] + rest),
            }
        }
    }
}

/// Prepends already-parsed words to the outcome of parsing the rest of a
/// frame body.
pub open spec fn prepend_words(pre: Seq<Seq<char>>, rest: Option<Seq<Seq<char>>>) -> Option<
    Seq<Seq<char>>,
> {
    match rest {
        None => None,
        Some(r) => Some(pre + r),
    }
}

/// Decodes the frame at the front of `buf`, consuming nothing. Fewer bytes
/// than the declared total size (or than one header) are not an error, only
/// "need more data"; a declared size below the header size, a malformed
/// word, bad UTF-8 or a nonzero terminator are. Bytes beyond the declared
/// size are not part of the frame.
pub open spec fn spec_decode(buf: Seq<u8>) -> SpecDecoded {
    if buf.len() < HEADER_SIZE {
        SpecDecoded::NeedMore
    } else {
        let size = spec_u32_from_le_bytes(buf.subrange(4, 8)) as int;
        if buf.len() < size {
            SpecDecoded::NeedMore
        } else if size < HEADER_SIZE {
            SpecDecoded::Malformed
        } else {
            let sequence = spec_u32_from_le_bytes(buf.subrange(0, 4));
            let count = spec_u32_from_le_bytes(buf.subrange(8, 12)) as int;
            match spec_parse_words(buf.subrange(HEADER_SIZE as int, size), count) {
                None => SpecDecoded::Malformed,
                Some(ws) => SpecDecoded::Frame(
                    FrameView {
                        id: (sequence as int % ID_SPACE as int) as u32,
                        is_response: sequence as int % 0x8000_0000 >= 0x4000_0000,
                        is_from_server: sequence as int >= 0x8000_0000,
                        words: ws,
                    },
                    size,
                ),
            }
        }
    }
}

impl Packet {
    pub fn new(id: u32, is_response: bool, is_from_server: bool, words: Vec<String>) -> (p: Packet)
        ensures
            p@ == (FrameView { id, is_response, is_from_server, words: words_view(words@) }),
    {
        Packet { id, is_response, is_from_server, words }
    }

    /// Appends the wire encoding of this frame to `buf`.
    ///
    /// Fails, and leaves `buf` untouched, exactly when the encoded frame
    /// would exceed the hard [`MAX_SIZE`] ceiling.
    pub fn write_to(&self, buf: &mut Vec<u8>) -> (r: Result<(), Error>)
        ensures
            match r {
                Ok(()) => spec_frame_len(self@) <= MAX_SIZE && final(buf)@ == old(buf)@ + spec_encode(
                    self@,
                ),
                Err(e) => spec_frame_len(self@) > MAX_SIZE && final(buf)@ == old(buf)@ && e.spec_kind()
                    == ErrorKind::Parse && e.wf(),
            },
    {
        let ghost ws = self@.words;
        let mut size: usize = HEADER_SIZE;
        let mut i: usize = 0;
        while i < self.words.len()
            invariant
                i <= self.words@.len(),
                ws == words_view(self.words@),
                size == HEADER_SIZE + spec_body_len(ws.take(i as int)),
                size <= MAX_SIZE,
            decreases self.words@.len() - i,
        {
            let wlen = self.words[i].as_str().as_bytes().len();
            proof {
                assert(ws[i as int] == self.words@[i as int]@);
                lemma_body_len_take_succ(ws, i as int);
            }
            if wlen > MAX_SIZE || size + WORD_OVERHEAD + wlen > MAX_SIZE {
                proof {
                    lemma_body_len_take_bound(ws, i as int + 1);
                }
                return Err(Error::new_parse("max packet size exceeded".to_owned()));
            }
            size = size + WORD_OVERHEAD + wlen;
            i = i + 1;
        }
        proof {
            assert(ws.take(self.words@.len() as int) =~= ws);
            lemma_body_len_nonneg(ws);
            assert forall|j: int| 0 <= j < ws.len() implies encode_utf8(#[trigger] ws[j]).len()
                <= u32::MAX by {
                lemma_word_len_bounded(ws, j);
            }
            lemma_words_bytes_len(ws);
        }
        let count = self.words.len();

        let mut sequence: u32 = self.id % ID_SPACE;
        if self.is_response {
            sequence = sequence + 0x4000_0000;
        }
        if self.is_from_server {
            sequence = sequence + 0x8000_0000;
        }
        assert(sequence == spec_sequence_field(self@));

        let mut out: Vec<u8> = u32_to_le_bytes(sequence);
        let mut size_bytes = u32_to_le_bytes(size as u32);
        out.append(&mut size_bytes);
        let mut count_bytes = u32_to_le_bytes(count as u32);
        out.append(&mut count_bytes);
        let ghost header = spec_u32_to_le_bytes(spec_sequence_field(self@)) + spec_u32_to_le_bytes(
            spec_frame_len(self@) as u32,
        ) + spec_u32_to_le_bytes(self@.words.len() as u32);
        assert(out@ =~= header);

        let mut i: usize = 0;
        while i < self.words.len()
            invariant
                i <= self.words@.len(),
                ws == words_view(self.words@),
                spec_body_len(ws) <= MAX_SIZE - HEADER_SIZE,
                out@ == header + spec_words_bytes(ws.take(i as int)),
            decreases self.words@.len() - i,
        {
            proof {
                assert(ws[i as int] == self.words@[i as int]@);
                lemma_body_len_take_succ(ws, i as int);
                lemma_body_len_take_bound(ws, i as int + 1);
                lemma_body_len_nonneg(ws.take(i as int));
            }
            let w = &self.words[i];
            let wlen = w.as_str().as_bytes().len();
            assert(wlen == encode_utf8(ws[i as int]).len());
            let mut lb = u32_to_le_bytes(wlen as u32);
            out.append(&mut lb);
            let mut wb = w.as_str().as_bytes_vec();
            out.append(&mut wb);
            out.push(0u8);
            proof {
                lemma_words_bytes_take_succ(ws, i as int);
                assert(out@ =~= header + spec_words_bytes(ws.take(i as int + 1)));
            }
            i = i + 1;
        }
        proof {
            assert(ws.take(self.words@.len() as int) =~= ws);
        }
        buf.append(&mut out);
        proof {
            assert(buf@ =~= old(buf)@ + spec_encode(self@));
        }
        Ok(())
    }

    /// Decodes one frame from the front of `buf` without consuming it.
    ///
    /// Returns `Ok(None)` while `buf` does not yet hold a whole frame,
    /// `Ok(Some((packet, consumed)))` once it does, and a parse error when
    /// the frame at the front is malformed.
    pub fn read_from(buf: &Vec<u8>) -> (r: Result<Option<(Packet, usize)>, Error>)
        ensures
            match r {
                Ok(None) => spec_decode(buf@) is NeedMore,
                Ok(Some((p, n))) => spec_decode(buf@) == SpecDecoded::Frame(p@, n as int)
                    && HEADER_SIZE <= n <= buf@.len(),
                Err(e) => spec_decode(buf@) is Malformed && e.spec_kind() == ErrorKind::Parse
                    && e.wf(),
            },
    {
        if buf.len() < HEADER_SIZE {
            return Ok(None);
        }
        let size32 = u32_from_le_bytes(slice_subrange(buf.as_slice(), 4, 8));
        let size = size32 as usize;
        if buf.len() < size {
            return Ok(None);
        }
        if size < HEADER_SIZE {
            return Err(Error::new_parse("malformed packet".to_owned()));
        }
        let sequence = u32_from_le_bytes(slice_subrange(buf.as_slice(), 0, 4));
        let count = u32_from_le_bytes(slice_subrange(buf.as_slice(), 8, 12));
        let ghost body = buf@.subrange(HEADER_SIZE as int, size as int);
        let mut words: Vec<String> = Vec::new();
        let mut pos: usize = HEADER_SIZE;
        let mut k: u32 = 0;
        while k < count
            invariant
                HEADER_SIZE <= pos <= size <= buf@.len(),
                size == size32,
                size32 == spec_u32_from_le_bytes(buf@.subrange(4, 8)),
                sequence == spec_u32_from_le_bytes(buf@.subrange(0, 4)),
                count == spec_u32_from_le_bytes(buf@.subrange(8, 12)),
                body == buf@.subrange(HEADER_SIZE as int, size as int),
                k <= count,
                words@.len() == k as int,
                spec_parse_words(body, count as int) == prepend_words(
                    words_view(words@),
                    spec_parse_words(
                        buf@.subrange(pos as int, size as int),
                        count as int - k as int,
                    ),
                ),
            decreases count - k,
        {
            let ghost rem = buf@.subrange(pos as int, size as int);
            let ghost pre = words_view(words@);
            let remaining = size - pos;
            if remaining < 4 {
                assert(spec_parse_words(rem, count as int - k as int) is None);
                return Err(Error::new_parse("malformed packet".to_owned()));
            }
            let wlen32 = u32_from_le_bytes(slice_subrange(buf.as_slice(), pos, pos + 4));
            proof {
                assert(rem.take(4) =~= buf@.subrange(pos as int, pos as int + 4));
            }
            let wlen = wlen32 as usize;
            if remaining - 4 <= wlen {
                assert(spec_parse_words(rem, count as int - k as int) is None);
                return Err(Error::new_parse("malformed packet".to_owned()));
            }
            let ghost word_bytes = rem.subrange(4, 4 + wlen as int);
            let wb = slice_to_vec(slice_subrange(buf.as_slice(), pos + 4, pos + 4 + wlen));
            proof {
                assert(word_bytes =~= buf@.subrange(
                    pos as int + 4,
                    pos as int + 4 + wlen as int,
                ));
            }
            let s = match string_from_utf8(wb) {
                Some(s) => s,
                None => {
                    assert(spec_parse_words(rem, count as int - k as int) is None);
                    return Err(Error::new_parse("invalid utf-8 in word".to_owned()));
                },
            };
            let term = buf[pos + 4 + wlen];
            proof {
                assert(rem[4 + wlen as int] == buf@[pos as int + 4 + wlen as int]);
            }
            if term != 0 {
                assert(spec_parse_words(rem, count as int - k as int) is None);
                return Err(Error::new_parse("malformed packet".to_owned()));
            }
            words.push(s);
            proof {
                assert(rem.skip(WORD_OVERHEAD as int + wlen as int) =~= buf@.subrange(
                    pos as int + WORD_OVERHEAD as int + wlen as int,
                    size as int,
                ));
                assert(spec_parse_words(rem, count as int - k as int) == prepend_words(
                    seq![s@],
                    spec_parse_words(
                        rem.skip(WORD_OVERHEAD as int + wlen as int),
                        count as int - k as int - 1,
                    ),
                ));
                assert(words_view(words@) =~= pre.push(s@));
                match spec_parse_words(
                    rem.skip(WORD_OVERHEAD as int + wlen as int),
                    count as int - k as int - 1,
                ) {
                    None => {},
                    Some(r) => {
                        assert(pre + (seq![s@] + r) =~= pre.push(s@) + r);
                    },
                }
            }
            pos = pos + WORD_OVERHEAD + wlen;
            k = k + 1;
        }
        proof {
            assert(spec_parse_words(
                buf@.subrange(pos as int, size as int),
                count as int - k as int,
            ) == Some(Seq::<Seq<char>>::empty()));
            assert(words_view(words@) + Seq::<Seq<char>>::empty() =~= words_view(words@));
        }
        let id = sequence % ID_SPACE;
        let is_response = sequence % 0x8000_0000 >= 0x4000_0000;
        let is_from_server = sequence >= 0x8000_0000;
        let p = Packet { id, is_response, is_from_server, words };
        Ok(Some((p, size)))
    }
}

pub proof fn lemma_words_bytes_term_len(ws: Seq<Seq<char>>, ts: Seq<u8>)
    requires
        ts.len() == ws.len(),
        forall|i: int| 0 <= i < ws.len() ==> encode_utf8(#[trigger] ws[i]).len() <= u32::MAX,
    ensures
        spec_words_bytes_term(ws, ts).len() == spec_body_len(ws),
    decreases ws.len(),
{
    if ws.len() > 0 {
        assert(forall|i: int|
            0 <= i < ws.drop_first().len() ==> encode_utf8(#[trigger] ws.drop_first()[i]).len()
                <= u32::MAX);
        lemma_words_bytes_term_len(ws.drop_first(), ts.drop_first());
        vstd::bytes::lemma_auto_spec_u32_to_from_le_bytes();
    }
}

/// The well-formed body bytes are the terminator-parametrised ones with
/// every terminator zero.
pub proof fn lemma_encode_zero_terminators(f: FrameView, ts: Seq<u8>)
    requires
        ts.len() == f.words.len(),
        forall|i: int| 0 <= i < ts.len() ==> ts[i] == 0u8,
    ensures
        spec_encode_term(f, ts) == spec_encode(f),
{
    lemma_words_bytes_term_zero(f.words, ts);
}

proof fn lemma_words_bytes_term_zero(ws: Seq<Seq<char>>, ts: Seq<u8>)
    requires
        ts.len() == ws.len(),
        forall|i: int| 0 <= i < ts.len() ==> ts[i] == 0u8,
    ensures
        spec_words_bytes_term(ws, ts) == spec_words_bytes(ws),
    decreases ws.len(),
{
    if ws.len() > 0 {
        lemma_words_bytes_term_zero(ws.drop_first(), ts.drop_first());
    }
}

/// Parsing a well-formed body recovers exactly the words that built it.
pub proof fn lemma_parse_encoded_words(ws: Seq<Seq<char>>)
    requires
        forall|i: int| 0 <= i < ws.len() ==> encode_utf8(#[trigger] ws[i]).len() <= u32::MAX,
    ensures
        spec_parse_words(spec_words_bytes(ws), ws.len() as int) == Some(ws),
    decreases ws.len(),
{
    vstd::bytes::lemma_auto_spec_u32_to_from_le_bytes();
    broadcast use vstd::utf8::encode_utf8_valid_utf8;
    broadcast use vstd::utf8::encode_utf8_decode_utf8;

    if ws.len() > 0 {
        let w = ws[0];
        let wb = encode_utf8(w);
        let wlen = wb.len() as int;
        let b = spec_words_bytes(ws);
        let first = spec_word_bytes(w);
        assert(first.len() == WORD_OVERHEAD + wlen);
        assert(b == first + spec_words_bytes(ws.drop_first()));
        assert(b.take(4) =~= spec_u32_to_le_bytes(wlen as u32));
        assert(spec_u32_from_le_bytes(b.take(4)) as int == wlen);
        assert(forall|i: int|
            0 <= i < ws.drop_first().len() ==> encode_utf8(#[trigger] ws.drop_first()[i]).len()
                <= u32::MAX);
        lemma_words_bytes_len(ws.drop_first());
        lemma_body_len_nonneg(ws.drop_first());
        assert(b.len() >= WORD_OVERHEAD + wlen);
        assert(b.subrange(4, 4 + wlen) =~= wb);
        assert(valid_utf8(wb));
        assert(decode_utf8(wb) == w);
        assert(b[4 + wlen] == first[4 + wlen]);
        assert(first[4 + wlen] == 0u8);
        assert(b.skip(WORD_OVERHEAD as int + wlen) =~= spec_words_bytes(ws.drop_first()));
        lemma_parse_encoded_words(ws.drop_first());
        assert(seq![w] + ws.drop_first() =~= ws);
    }
}

/// Round trip: decoding a buffer that starts with the encoding of a frame
/// whose id fits the 30-bit id space and whose encoded size respects the
/// protocol ceiling yields exactly that frame, consuming exactly its
/// encoded length, whatever bytes follow it.
pub proof fn lemma_decode_encode(f: FrameView, extra: Seq<u8>)
    requires
        f.id < ID_SPACE,
        spec_frame_len(f) <= MAX_SIZE,
    ensures
        spec_decode(spec_encode(f) + extra) == SpecDecoded::Frame(f, spec_frame_len(f)),
{
    vstd::bytes::lemma_auto_spec_u32_to_from_le_bytes();
    let ws = f.words;
    let flen = spec_frame_len(f);
    assert forall|j: int| 0 <= j < ws.len() implies encode_utf8(#[trigger] ws[j]).len()
        <= u32::MAX by {
        lemma_word_len_bounded(ws, j);
    }
    lemma_words_bytes_len(ws);
    lemma_body_len_nonneg(ws);
    let e = spec_encode(f) + extra;
    assert(e.len() == flen + extra.len());
    assert(e.subrange(4, 8) =~= spec_u32_to_le_bytes(flen as u32));
    let size = spec_u32_from_le_bytes(e.subrange(4, 8)) as int;
    assert(size == flen);
    assert(e.subrange(0, 4) =~= spec_u32_to_le_bytes(spec_sequence_field(f)));
    let sequence = spec_u32_from_le_bytes(e.subrange(0, 4));
    assert(sequence == spec_sequence_field(f));
    assert(e.subrange(8, 12) =~= spec_u32_to_le_bytes(ws.len() as u32));
    assert(ws.len() <= 3274) by {
        assert(WORD_OVERHEAD * ws.len() <= MAX_SIZE - HEADER_SIZE);
    }
    let count = spec_u32_from_le_bytes(e.subrange(8, 12)) as int;
    assert(count == ws.len());
    assert(e.subrange(HEADER_SIZE as int, size) =~= spec_words_bytes(ws));
    lemma_parse_encoded_words(ws);
    let decoded = spec_decode(e);
    assert(decoded matches SpecDecoded::Frame(g, n) && n == flen && g.words == ws);
    let seqf = sequence as int;
    let idp = f.id as int;
    assert(seqf == idp + (if f.is_response {
        0x4000_0000int
    } else {
        0int
    }) + (if f.is_from_server {
        0x8000_0000int
    } else {
        0int
    }));
    assert((seqf % ID_SPACE as int) as u32 == f.id);
    assert((seqf % 0x8000_0000 >= 0x4000_0000) == f.is_response);
    assert((seqf >= 0x8000_0000) == f.is_from_server);
}

/// Every strict prefix of an encoded frame decodes to "need more data":
/// never an error, never a partial frame.
pub proof fn lemma_decode_prefix(f: FrameView, n: int)
    requires
        f.id < ID_SPACE,
        spec_frame_len(f) <= MAX_SIZE,
        0 <= n < spec_frame_len(f),
    ensures
        spec_decode(spec_encode(f).take(n)) is NeedMore,
{
    vstd::bytes::lemma_auto_spec_u32_to_from_le_bytes();
    let ws = f.words;
    let flen = spec_frame_len(f);
    assert forall|j: int| 0 <= j < ws.len() implies encode_utf8(#[trigger] ws[j]).len()
        <= u32::MAX by {
        lemma_word_len_bounded(ws, j);
    }
    lemma_words_bytes_len(ws);
    let e = spec_encode(f);
    assert(e.len() == flen);
    let p = e.take(n);
    if n >= HEADER_SIZE {
        assert(p.subrange(4, 8) =~= spec_u32_to_le_bytes(flen as u32));
        assert(spec_u32_from_le_bytes(p.subrange(4, 8)) as int == flen);
        assert(p.len() < flen);
    }
}

proof fn lemma_parse_words_term_bad(ws: Seq<Seq<char>>, ts: Seq<u8>)
    requires
        ts.len() == ws.len(),
        exists|i: int| 0 <= i < ts.len() && ts[i] != 0u8,
        forall|i: int| 0 <= i < ws.len() ==> encode_utf8(#[trigger] ws[i]).len() <= u32::MAX,
    ensures
        spec_parse_words(spec_words_bytes_term(ws, ts), ws.len() as int) is None,
    decreases ws.len(),
{
    vstd::bytes::lemma_auto_spec_u32_to_from_le_bytes();
    broadcast use vstd::utf8::encode_utf8_valid_utf8;
    broadcast use vstd::utf8::encode_utf8_decode_utf8;

    let w = ws[0];
    let wb = encode_utf8(w);
    let wlen = wb.len() as int;
    let b = spec_words_bytes_term(ws, ts);
    let first = spec_word_bytes_term(w, ts[0]);
    assert(first.len() == WORD_OVERHEAD + wlen);
    assert(b == first + spec_words_bytes_term(ws.drop_first(), ts.drop_first()));
    assert(b.take(4) =~= spec_u32_to_le_bytes(wlen as u32));
    assert(spec_u32_from_le_bytes(b.take(4)) as int == wlen);
    assert(forall|i: int|
        0 <= i < ws.drop_first().len() ==> encode_utf8(#[trigger] ws.drop_first()[i]).len()
            <= u32::MAX);
    lemma_words_bytes_term_len(ws.drop_first(), ts.drop_first());
    lemma_body_len_nonneg(ws.drop_first());
    assert(b.len() >= WORD_OVERHEAD + wlen);
    assert(b.subrange(4, 4 + wlen) =~= wb);
    assert(b[4 + wlen] == first[4 + wlen]);
    assert(first[4 + wlen] == ts[0]);
    if ts[0] != 0u8 {
        assert(spec_parse_words(b, ws.len() as int) is None);
    } else {
        let i = choose|i: int| 0 <= i < ts.len() && ts[i] != 0u8;
        assert(0 <= i - 1 < ts.drop_first().len() && ts.drop_first()[i - 1] != 0u8);
        assert(b.skip(WORD_OVERHEAD as int + wlen) =~= spec_words_bytes_term(
            ws.drop_first(),
            ts.drop_first(),
        ));
        lemma_parse_words_term_bad(ws.drop_first(), ts.drop_first());
    }
}

/// A body in which any word's terminator byte is nonzero fails to decode
/// with a malformed-frame outcome, whatever the rest of the frame holds.
pub proof fn lemma_nonzero_terminator_malformed(f: FrameView, ts: Seq<u8>)
    requires
        spec_frame_len(f) <= MAX_SIZE,
        ts.len() == f.words.len(),
        exists|i: int| 0 <= i < ts.len() && ts[i] != 0u8,
    ensures
        spec_decode(spec_encode_term(f, ts)) is Malformed,
{
    vstd::bytes::lemma_auto_spec_u32_to_from_le_bytes();
    let ws = f.words;
    let flen = spec_frame_len(f);
    assert forall|j: int| 0 <= j < ws.len() implies encode_utf8(#[trigger] ws[j]).len()
        <= u32::MAX by {
        lemma_word_len_bounded(ws, j);
    }
    lemma_words_bytes_term_len(ws, ts);
    lemma_body_len_nonneg(ws);
    let e = spec_encode_term(f, ts);
    assert(e.len() == flen);
    assert(e.subrange(4, 8) =~= spec_u32_to_le_bytes(flen as u32));
    assert(spec_u32_from_le_bytes(e.subrange(4, 8)) as int == flen);
    assert(e.subrange(8, 12) =~= spec_u32_to_le_bytes(ws.len() as u32));
    assert(ws.len() <= 3274) by {
        assert(WORD_OVERHEAD * ws.len() <= MAX_SIZE - HEADER_SIZE);
    }
    assert(spec_u32_from_le_bytes(e.subrange(8, 12)) as int == ws.len());
    assert(e.subrange(HEADER_SIZE as int, flen) =~= spec_words_bytes_term(ws, ts));
    lemma_parse_words_term_bad(ws, ts);
}

} // verus!
