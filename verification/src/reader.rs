//! The record reader: splits a raw byte stream into one buffer per
//! length-prefixed document, rejecting records whose declared length lies
//! outside the protocol bounds.

use vstd::prelude::*;

use crate::numfmt::dec_chars_signed;
use crate::MAX_BSON_SIZE;
use crate::MIN_BSON_SIZE;

verus! {

/// The first four bytes of `s` read as an unsigned little-endian number.
pub open spec fn le32(s: Seq<u8>) -> int {
    s[0] + 256 * s[1] + 65536 * s[2] + 16777216 * s[3]
}

/// The first four bytes of `s` read as a signed little-endian number:
/// the declared total length of a record.
pub open spec fn le32_signed(s: Seq<u8>) -> int {
    if le32(s) >= 2147483648 {
        le32(s) - 4294967296
    } else {
        le32(s)
    }
}

/// Why the reader failed on a record. Reading stops at the first failure:
/// once a malformed length has been seen there is no way to resynchronize
/// with the stream.
#[derive(Debug, Clone, Copy, PartialEq, Eq, Structural)]
pub enum ReadError {
    /// The declared length is below the 5-byte minimum (or negative).
    TooSmall { size: i64 },
    /// The declared length is above the maximum document size.
    TooLarge { size: i64 },
    /// The stream ended partway through a 4-byte length prefix.
    TruncatedHeader,
    /// The stream ended partway through a record body.
    TruncatedBody,
}

/// The diagnostic text for a reader failure. Size-bound failures report the
/// configured maximum and the offending size.
pub open spec fn read_error_message(e: ReadError) -> Seq<char> {
    match e {
        ReadError::TooSmall { size } => "(16793600, "@ + dec_chars_signed(size as int) + ", Too small nelly)"@,
        ReadError::TooLarge { size } => "(16793600, "@ + dec_chars_signed(size as int) + ", Woah nelly)"@,
        ReadError::TruncatedHeader => "unexpected end of stream while reading document length"@,
        ReadError::TruncatedBody => "unexpected end of stream while reading document body"@,
    }
}

impl ReadError {
    /// Sizes carried by a reader failure were read from a 4-byte field, so
    /// they lie within the signed 32-bit range.
    pub open spec fn wf(&self) -> bool {
        match *self {
            ReadError::TooSmall { size } => -2147483648 <= size < 2147483648,
            ReadError::TooLarge { size } => 0 <= size < 2147483648,
            _ => true,
        }
    }

    /// Renders the diagnostic text for this failure.
    pub fn message(&self) -> (r: String)
        requires
            self.wf(),
        ensures
            r@ == read_error_message(*self),
    {
        match *self {
            ReadError::TooSmall { size } => {
                let mut s = "(16793600, ".to_owned();
                crate::numfmt::append_dec_signed(&mut s, size);
                s.append(", Too small nelly)");
                assert(s@ =~= read_error_message(*self));
                s
            },
            ReadError::TooLarge { size } => {
                let mut s = "(16793600, ".to_owned();
                crate::numfmt::append_dec_signed(&mut s, size);
                s.append(", Woah nelly)");
                assert(s@ =~= read_error_message(*self));
                s
            },
            ReadError::TruncatedHeader => "unexpected end of stream while reading document length".to_owned(),
            ReadError::TruncatedBody => "unexpected end of stream while reading document body".to_owned(),
        }
    }
}

/// What the stream holds at its current position: its end, a failure, or
/// one whole record followed by the rest of the stream.
pub enum Frame {
    End,
    Fail(ReadError),
    Doc { doc: Seq<u8>, rest: Seq<u8> },
}

/// Splits off the next record of `s`, by the rules of the record reader:
/// an empty stream is a clean end; a stream shorter than a length prefix is
/// truncated; a declared length below 5 or above the maximum is rejected;
/// a stream shorter than the declared length is truncated; otherwise the
/// first `length` bytes are one record.
pub open spec fn frame_at(s: Seq<u8>) -> Frame {
    if s.len() == 0 {
        Frame::End
    } else if s.len() < 4 {
        Frame::Fail(ReadError::TruncatedHeader)
    } else {
        let n = le32_signed(s.subrange(0, 4));
        if n < MIN_BSON_SIZE {
            Frame::Fail(ReadError::TooSmall { size: n as i64 })
        } else if n > MAX_BSON_SIZE {
            Frame::Fail(ReadError::TooLarge { size: n as i64 })
        } else if s.len() < n {
            Frame::Fail(ReadError::TruncatedBody)
        } else {
            Frame::Doc { doc: s.subrange(0, n), rest: s.subrange(n, s.len() as int) }
        }
    }
}

/// A failure assigned by `frame_at` always carries a well-formed size.
pub proof fn lemma_frame_fail_wf(s: Seq<u8>)
    requires
        frame_at(s) is Fail,
    ensures
        frame_at(s)->Fail_0.wf(),
{
}

/// A document of the stream is never empty and never longer than the
/// maximum, and the rest is shorter than the whole.
pub proof fn lemma_frame_doc(s: Seq<u8>)
    requires
        frame_at(s) is Doc,
    ensures
        MIN_BSON_SIZE <= frame_at(s)->Doc_doc.len() <= MAX_BSON_SIZE,
        frame_at(s)->Doc_rest.len() < s.len(),
        frame_at(s)->Doc_doc + frame_at(s)->Doc_rest == s,
{
    assert(frame_at(s)->Doc_doc + frame_at(s)->Doc_rest =~= s);
}

/// Copies `v[start..end]` into a fresh vector.
pub(crate) fn copy_range(v: &Vec<u8>, start: usize, end: usize) -> (r: Vec<u8>)
    requires
        start <= end <= v@.len(),
    ensures
        r@ == v@.subrange(start as int, end as int),
{
    let mut r: Vec<u8> = Vec::new();
    let mut i: usize = start;
    while i < end
        invariant
            start <= i <= end <= v@.len(),
            r@ == v@.subrange(start as int, i as int),
        decreases end - i,
    {
        r.push(v[i]);
        assert(r@ =~= v@.subrange(start as int, i + 1 as int));
        i = i + 1;
    }
    r
}

/// A sequence of document buffers drawn from one byte stream, one record
/// per call of `next`.
pub struct RawDocumentBufs<'a> {
    pub input: &'a Vec<u8>,
    pub pos: usize,
}

/// Starts reading records from the front of `input`.
pub fn raw_document_bufs<'a>(input: &'a Vec<u8>) -> (r: RawDocumentBufs<'a>)
    ensures
        r.input == input,
        r.pos == 0,
{
    RawDocumentBufs { input, pos: 0 }
}

impl<'a> RawDocumentBufs<'a> {
    /// The reader never stands past the end of its stream.
    pub open spec fn wf(&self) -> bool {
        self.pos <= self.input@.len()
    }

    /// The bytes not yet consumed.
    pub open spec fn remaining(&self) -> Seq<u8> {
        self.input@.skip(self.pos as int)
    }

    /// Reads the next record: `None` at a clean end of the stream, one
    /// whole document buffer, or the failure that `frame_at` assigns to
    /// the remaining bytes. On failure the reader does not advance.
    pub fn next(&mut self) -> (r: Option<Result<Vec<u8>, ReadError>>)
        requires
            old(self).wf(),
        ensures
            final(self).wf(),
            final(self).input == old(self).input,
            match frame_at(old(self).remaining()) {
                Frame::End => r is None && final(self).pos == old(self).pos,
                Frame::Fail(e) => r == Some(Err::<Vec<u8>, ReadError>(e)) && final(self).pos == old(self).pos,
                Frame::Doc { doc, rest } => {
                    &&& r matches Some(Ok(d)) && d@ == doc
                    &&& final(self).pos == old(self).pos + doc.len()
                    &&& final(self).remaining() == rest
                },
            },
    {
        let len = self.input.len();
        let ghost rem = self.remaining();
        if self.pos == len {
            assert(rem.len() == 0);
            return None;
        }
        if len - self.pos < 4 {
            assert(0 < rem.len() < 4);
            return Some(Err(ReadError::TruncatedHeader));
        }
        let b0 = self.input[self.pos];
        let b1 = self.input[self.pos + 1];
        let b2 = self.input[self.pos + 2];
        let b3 = self.input[self.pos + 3];
        let u: u32 = (b0 as u32) + 256 * (b1 as u32) + 65536 * (b2 as u32) + 16777216 * (b3 as u32);
        proof {
            assert(rem[0] == b0 && rem[1] == b1 && rem[2] == b2 && rem[3] == b3);
            assert(rem.subrange(0, 4)[0] == rem[0]);
            assert(rem.subrange(0, 4)[1] == rem[1]);
            assert(rem.subrange(0, 4)[2] == rem[2]);
            assert(rem.subrange(0, 4)[3] == rem[3]);
            assert(u as int == le32(rem.subrange(0, 4)));
        }
        let ghost n = le32_signed(rem.subrange(0, 4));
        if u >= 2147483648 || u < 5 {
            let size: i64 = if u >= 2147483648 {
                (u as i64) - 4294967296
            } else {
                u as i64
            };
            assert(size as int == n && n < MIN_BSON_SIZE);
            return Some(Err(ReadError::TooSmall { size }));
        }
        if u > 16793600 {
            assert(u as int == n && n > MAX_BSON_SIZE);
            return Some(Err(ReadError::TooLarge { size: u as i64 }));
        }
        let ulen = u as usize;
        assert(ulen as int == n);
        if len - self.pos < ulen {
            assert(rem.len() < n);
            return Some(Err(ReadError::TruncatedBody));
        }
        let doc = copy_range(self.input, self.pos, self.pos + ulen);
        proof {
            assert(doc@ =~= rem.subrange(0, n));
        }
        self.pos = self.pos + ulen;
        proof {
            assert(self.remaining() =~= rem.subrange(n, rem.len() as int));
        }
        Some(Ok(doc))
    }
}

} // verus!
