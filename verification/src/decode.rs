//! Decoding: frames off a byte source one at a time, the whole stream at
//! once or record by record, and the metadata block in front of them.

use crate::error::Error;
use crate::metadata::{parse_metadata, Metadata, METADATA_LENGTH};
use crate::record_enum::RecordEnum;
use crate::record_ref::RecordRef;
use crate::records::{HEADER_SIZE, LENGTH_MULTIPLIER};
use crate::source::ByteSource;
use vstd::prelude::*;

verus! {

/// The total length that the first byte of `s` declares for its frame.
pub open spec fn frame_len(s: Seq<u8>) -> int {
    s[0] * LENGTH_MULTIPLIER
}

/// Whether the stream ends at `s`: nothing is left, or less than the frame
/// that the first byte promises.
pub open spec fn stream_ends(s: Seq<u8>) -> bool {
    s.len() == 0 || (frame_len(s) >= HEADER_SIZE && s.len() < frame_len(s))
}

/// Whether `s` begins with a frame that declares less than a header.
pub open spec fn frame_too_short(s: Seq<u8>) -> bool {
    s.len() > 0 && frame_len(s) < HEADER_SIZE
}

/// Whether `s` begins with a whole frame.
pub open spec fn has_frame(s: Seq<u8>) -> bool {
    s.len() > 0 && HEADER_SIZE <= frame_len(s) <= s.len()
}

/// How many bytes a stream that stands at `s` still lacks before the next
/// pull can take a frame or refuse one: one byte where nothing is left, the
/// rest of the frame where the frame is not whole, else none.
pub open spec fn bytes_needed(s: Seq<u8>) -> int {
    if s.len() == 0 {
        1
    } else if frame_len(s) >= HEADER_SIZE && s.len() < frame_len(s) {
        frame_len(s) - s.len()
    } else {
        0
    }
}

/// What one pull takes from a stream that stands at `s`: nothing at the end
/// of the stream; a framing error for a frame below the header size; else
/// the record of the next frame, or a conversion error where its tag names
/// no type or the frame is too short for the type.
pub open spec fn pull_item(s: Seq<u8>) -> Option<Result<RecordEnum, Error>> {
    if stream_ends(s) {
        None
    } else if frame_too_short(s) {
        Some(Err(Error::Framing))
    } else {
        match RecordEnum::spec_from_bytes(s.take(frame_len(s))) {
            Some(r) => Some(Ok(r)),
            None => Some(Err(Error::Conversion)),
        }
    }
}

/// Where the stream stands after one pull at `s`: at its end after the end
/// was met, behind the length byte of a frame below the header size, else
/// behind the frame.
pub open spec fn pull_rest(s: Seq<u8>) -> Seq<u8> {
    if stream_ends(s) {
        Seq::empty()
    } else if frame_too_short(s) {
        s.skip(1)
    } else {
        s.skip(frame_len(s))
    }
}

/// `res` with the records `done` in front of it, or the error of `res`.
pub open spec fn prepend(done: Seq<RecordEnum>, res: Result<Seq<RecordEnum>, Error>) -> Result<
    Seq<RecordEnum>,
    Error,
> {
    match res {
        Ok(v) => Ok(done + v),
        Err(e) => Err(e),
    }
}

/// The records of the whole stream `s` in order, or the first error: no
/// record is given where one frame is bad.
pub open spec fn decode_all(s: Seq<u8>) -> Result<Seq<RecordEnum>, Error>
    decreases s.len(),
{
    if stream_ends(s) {
        Ok(Seq::empty())
    } else if frame_too_short(s) {
        Err(Error::Framing)
    } else {
        match RecordEnum::spec_from_bytes(s.take(frame_len(s))) {
            None => Err(Error::Conversion),
            Some(r) => prepend(seq![r], decode_all(s.skip(frame_len(s)))),
        }
    }
}

/// Where decoding the whole stream `s` leaves the source: at its end after
/// success, behind the length byte of a frame below the header size, and
/// behind a frame that could not be converted.
pub open spec fn decode_rest(s: Seq<u8>) -> Seq<u8>
    decreases s.len(),
{
    if stream_ends(s) {
        Seq::empty()
    } else if frame_too_short(s) {
        s.skip(1)
    } else {
        match RecordEnum::spec_from_bytes(s.take(frame_len(s))) {
            None => s.skip(frame_len(s)),
            Some(_) => decode_rest(s.skip(frame_len(s))),
        }
    }
}

/// What pulling record by record yields from the stream `s`: the records in
/// order up to the end of the stream, or up to the first error, which is
/// the last item.
pub open spec fn lazy_items(s: Seq<u8>) -> Seq<Result<RecordEnum, Error>>
    decreases s.len(),
{
    match pull_item(s) {
        None => Seq::empty(),
        Some(Err(e)) => seq![Err(e)],
        Some(Ok(r)) => if has_frame(s) {
            seq![Ok(r)] + lazy_items(s.skip(frame_len(s)))
        } else {
            seq![Ok(r)]
        },
    }
}

/// The concatenation of the bytes of the records `rs`.
pub open spec fn stream_bytes(rs: Seq<RecordEnum>) -> Seq<u8>
    decreases rs.len(),
{
    if rs.len() == 0 {
        Seq::empty()
    } else {
        rs[0].spec_bytes() + stream_bytes(rs.skip(1))
    }
}

/// Each record as a successful item.
pub open spec fn as_items(rs: Seq<RecordEnum>) -> Seq<Result<RecordEnum, Error>> {
    Seq::new(rs.len(), |i: int| Ok(rs[i]))
}

/// Decodes frames from a byte source.
pub struct RecordDecoder {
    reader: ByteSource,
    read_buffer: Vec<u8>,
}

impl View for RecordDecoder {
    type V = Seq<u8>;

    /// The bytes that the decoder has not read yet.
    closed spec fn view(&self) -> Seq<u8> {
        self.reader@
    }
}

impl RecordDecoder {
    /// A decoder that will decode from `reader`.
    pub fn new(reader: ByteSource) -> (r: RecordDecoder)
        ensures
            r@ == reader@,
    {
        RecordDecoder { reader, read_buffer: Vec::new() }
    }

    /// Puts `more` behind the unread bytes of the source.
    pub fn feed(&mut self, more: &[u8])
        ensures
            final(self)@ == old(self)@ + more@,
    {
        self.reader.extend(more);
    }

    /// How many bytes the source still lacks before the next pull can take
    /// a frame or refuse one. A pull made while bytes are lacking takes the
    /// source for ended.
    pub fn needs(&self) -> (n: usize)
        ensures
            n == bytes_needed(self@),
            n == 0 <==> !stream_ends(self@),
    {
        match self.reader.peek() {
            None => 1,
            Some(b) => {
                let units: usize = b as usize;
                let length: usize = units * LENGTH_MULTIPLIER;
                let have = self.reader.remaining();
                if length >= HEADER_SIZE && have < length {
                    length - have
                } else {
                    0
                }
            },
        }
    }

    /// Takes the next frame off the source and gives a view of it.
    ///
    /// `Ok(None)` at the end of the stream, which is also where the source
    /// runs dry inside a frame: the rest of the source is then dropped. A
    /// frame that declares less than a header is a framing error, and only
    /// its length byte is taken. Else the view holds exactly the frame, and
    /// the source stands behind it.
    pub fn decode_ref(&mut self) -> (r: Result<Option<RecordRef<'_>>, Error>)
        ensures
            final(self)@ == pull_rest(old(self)@),
            match r {
                Ok(None) => stream_ends(old(self)@),
                Err(e) => e == Error::Framing && frame_too_short(old(self)@),
                Ok(Some(v)) => has_frame(old(self)@) && v.wf() && v@ == old(self)@.take(
                    frame_len(old(self)@),
                ),
            },
    {
        self.read_buffer.clear();
        if !self.reader.read_exact(&mut self.read_buffer, 1) {
            return Ok(None);
        }
        assert(self.read_buffer@ =~= old(self)@.take(1));
        let units: usize = self.read_buffer[0] as usize;
        let length: usize = units * LENGTH_MULTIPLIER;
        if length < HEADER_SIZE {
            return Err(Error::Framing);
        }
        if !self.reader.read_exact(&mut self.read_buffer, length - 1) {
            return Ok(None);
        }
        assert(self.read_buffer@ =~= old(self)@.take(length as int));
        assert(self@ =~= old(self)@.skip(length as int));
        Ok(Some(RecordRef::new(self.read_buffer.as_slice())))
    }

    /// Takes the next frame off the source and gives its record.
    pub fn decode_one(&mut self) -> (r: Option<Result<RecordEnum, Error>>)
        ensures
            r == pull_item(old(self)@),
            final(self)@ == pull_rest(old(self)@),
    {
        match self.decode_ref() {
            Ok(None) => None,
            Err(e) => Some(Err(e)),
            Ok(Some(v)) => match RecordEnum::from_ref(v) {
                Some(rec) => Some(Ok(rec)),
                None => Some(Err(Error::Conversion)),
            },
        }
    }

    /// Decodes the rest of the stream: all its records in order, or the
    /// first error. After success the source is read to its end; after an
    /// error it stands behind what was read of the bad frame.
    pub fn decode_to_owned(&mut self) -> (r: Result<Vec<RecordEnum>, Error>)
        ensures
            final(self)@ == decode_rest(old(self)@),
            match decode_all(old(self)@) {
                Ok(v) => r matches Ok(w) && w@ == v && final(self)@.len() == 0,
                Err(e) => r == Err::<Vec<RecordEnum>, Error>(e),
            },
    {
        let mut records: Vec<RecordEnum> = Vec::new();
        assert(prepend(records@, decode_all(self@)) == decode_all(old(self)@)) by {
            match decode_all(self@) {
                Ok(v) => {
                    assert(records@ + v =~= v);
                },
                Err(_) => {},
            }
        }
        loop
            invariant
                prepend(records@, decode_all(self@)) == decode_all(old(self)@),
                decode_rest(self@) == decode_rest(old(self)@),
            decreases self@.len(),
        {
            let ghost done = records@;
            match self.decode_one() {
                None => {
                    assert(done + Seq::<RecordEnum>::empty() =~= done);
                    return Ok(records);
                },
                Some(Err(e)) => {
                    return Err(e);
                },
                Some(Ok(rec)) => {
                    records.push(rec);
                    proof {
                        match decode_all(self@) {
                            Ok(v) => {
                                assert(done + (seq![rec] + v) =~= records@ + v);
                            },
                            Err(_) => {},
                        }
                    }
                },
            }
        }
    }

    /// An iterator over the rest of the stream. It takes the unread bytes
    /// with it: this decoder is left at the end of its stream.
    pub fn decode_iterator(&mut self) -> (it: DecoderIterator)
        ensures
            final(self)@ == Seq::<u8>::empty(),
            it@ == old(self)@,
            !it.is_done(),
    {
        DecoderIterator::new(self.reader.take_rest())
    }
}

/// Pulls records off a byte source one at a time. Once it has met the end
/// of the stream or yielded an error it yields nothing more.
pub struct DecoderIterator {
    decoder: RecordDecoder,
    done: bool,
}

impl View for DecoderIterator {
    type V = Seq<u8>;

    /// The bytes that the iterator has not read yet.
    closed spec fn view(&self) -> Seq<u8> {
        self.decoder@
    }
}

impl DecoderIterator {
    /// Whether the iterator has stopped.
    pub closed spec fn is_done(&self) -> bool {
        self.done
    }

    /// What the iterator yields from here on.
    pub open spec fn items(&self) -> Seq<Result<RecordEnum, Error>> {
        if self.is_done() {
            Seq::empty()
        } else {
            lazy_items(self@)
        }
    }

    /// An iterator over the records of `reader`.
    pub fn new(reader: ByteSource) -> (it: DecoderIterator)
        ensures
            it@ == reader@,
            !it.is_done(),
    {
        DecoderIterator { decoder: RecordDecoder::new(reader), done: false }
    }

    /// The next item: a record, or the error that ends the sequence.
    /// `None` at the end of the stream and ever after, and after an error.
    pub fn next(&mut self) -> (r: Option<Result<RecordEnum, Error>>)
        ensures
            old(self).is_done() ==> r is None && final(self).is_done() && final(self)@ == old(
                self,
            )@,
            !old(self).is_done() ==> r == pull_item(old(self)@) && final(self)@ == pull_rest(
                old(self)@,
            ) && final(self).is_done() == !(r matches Some(Ok(_))),
            match r {
                None => old(self).items() == Seq::<Result<RecordEnum, Error>>::empty(),
                Some(item) => old(self).items() == seq![item] + final(self).items(),
            },
    {
        if self.done {
            return None;
        }
        let r = self.decoder.decode_one();
        match r {
            Some(Ok(_)) => {},
            _ => {
                self.done = true;
            },
        }
        proof {
            match r {
                Some(Err(e)) => {
                    assert(seq![Err::<RecordEnum, Error>(e)] + Seq::<
                        Result<RecordEnum, Error>,
                    >::empty() =~= seq![Err::<RecordEnum, Error>(e)]);
                },
                _ => {},
            }
        }
        r
    }

    /// Gives the source back, as far as it is unread.
    pub fn into_inner(self) -> (reader: ByteSource)
        ensures
            reader@ == self@,
    {
        self.decoder.reader
    }

    /// Pulls until the iterator stops, and gives every item in order.
    pub fn collect(&mut self) -> (v: Vec<Result<RecordEnum, Error>>)
        ensures
            final(self).is_done(),
            v@ == old(self).items(),
    {
        let mut v: Vec<Result<RecordEnum, Error>> = Vec::new();
        assert(v@ + self.items() =~= old(self).items());
        loop
            invariant
                v@ + self.items() == old(self).items(),
            decreases self@.len(), (if self.is_done() { 0int } else { 1int }),
        {
            let ghost before = v@;
            let ghost rest = self.items();
            match self.next() {
                None => {
                    assert(before + rest =~= before);
                    return v;
                },
                Some(item) => {
                    v.push(item);
                    assert(before + (seq![item] + self.items()) =~= v@ + self.items());
                },
            }
        }
    }
}

/// Decodes the metadata block at the head of a byte source.
pub struct MetadataDecoder {
    reader: ByteSource,
    read_buffer: Vec<u8>,
}

impl View for MetadataDecoder {
    type V = Seq<u8>;

    /// The bytes that the decoder has not read yet.
    closed spec fn view(&self) -> Seq<u8> {
        self.reader@
    }
}

impl MetadataDecoder {
    /// A decoder that will decode from `reader`.
    pub fn new(reader: ByteSource) -> (r: MetadataDecoder)
        ensures
            r@ == reader@,
    {
        MetadataDecoder { reader, read_buffer: Vec::new() }
    }

    /// Takes the metadata section off the source and reads the block in it.
    /// `Truncated` where the source holds less than the section; else what
    /// `parse_metadata` gives for the section, with the source behind it.
    pub fn decode(&mut self) -> (r: Result<Option<Metadata>, Error>)
        ensures
            metadata_step(old(self)@, r, final(self)@),
    {
        read_metadata(&mut self.reader, &mut self.read_buffer)
    }

    /// Gives the source back, as far as it is unread.
    pub fn into_inner(self) -> (reader: ByteSource)
        ensures
            reader@ == self@,
    {
        self.reader
    }
}

/// How reading the metadata section relates the stream before, the result
/// and the stream after.
pub open spec fn metadata_step(
    before: Seq<u8>,
    r: Result<Option<Metadata>, Error>,
    after: Seq<u8>,
) -> bool {
    if before.len() < METADATA_LENGTH {
        r == Err::<Option<Metadata>, Error>(Error::Truncated) && after == Seq::<u8>::empty()
    } else {
        &&& after == before.skip(METADATA_LENGTH as int)
        &&& match parse_metadata(before.take(METADATA_LENGTH as int)) {
            Ok(v) => r matches Ok(Some(m)) && m@ == v,
            Err(e) => r == Err::<Option<Metadata>, Error>(e),
        }
    }
}

fn read_metadata(reader: &mut ByteSource, buf: &mut Vec<u8>) -> (r: Result<Option<Metadata>, Error>)
    ensures
        metadata_step(old(reader)@, r, final(reader)@),
{
    buf.clear();
    if !reader.read_exact(buf, METADATA_LENGTH) {
        return Err(Error::Truncated);
    }
    assert(buf@ =~= old(reader)@.take(METADATA_LENGTH as int));
    match Metadata::deserialize(buf.as_slice()) {
        Ok(m) => Ok(Some(m)),
        Err(e) => Err(e),
    }
}

/// Decodes a stream that begins with a metadata section.
pub struct CombinedDecoder {
    decoder: RecordDecoder,
}

impl View for CombinedDecoder {
    type V = Seq<u8>;

    /// The bytes that the decoder has not read yet.
    closed spec fn view(&self) -> Seq<u8> {
        self.decoder@
    }
}

impl CombinedDecoder {
    /// A decoder that will decode from `reader`.
    pub fn new(reader: ByteSource) -> (r: CombinedDecoder)
        ensures
            r@ == reader@,
    {
        CombinedDecoder { decoder: RecordDecoder::new(reader) }
    }

    /// Takes the metadata section off the source and reads the block in it.
    pub fn decode_metadata(&mut self) -> (r: Result<Option<Metadata>, Error>)
        ensures
            metadata_step(old(self)@, r, final(self)@),
    {
        read_metadata(&mut self.decoder.reader, &mut self.decoder.read_buffer)
    }

    /// Decodes the rest of the stream as records.
    pub fn decode_records(&mut self) -> (r: Result<Vec<RecordEnum>, Error>)
        ensures
            final(self)@ == decode_rest(old(self)@),
            match decode_all(old(self)@) {
                Ok(v) => r matches Ok(w) && w@ == v && final(self)@.len() == 0,
                Err(e) => r == Err::<Vec<RecordEnum>, Error>(e),
            },
    {
        self.decoder.decode_to_owned()
    }

    /// An iterator over the rest of the stream, which it takes with it.
    pub fn decode_iterator(&mut self) -> (it: DecoderIterator)
        ensures
            final(self)@ == Seq::<u8>::empty(),
            it@ == old(self)@,
            !it.is_done(),
    {
        self.decoder.decode_iterator()
    }

    /// The metadata block, then every record behind the metadata section.
    /// An error of the block comes first; no record is then read.
    pub fn decode(&mut self) -> (r: Result<(Option<Metadata>, Vec<RecordEnum>), Error>)
        ensures
            old(self)@.len() < METADATA_LENGTH ==> r == Err::<
                (Option<Metadata>, Vec<RecordEnum>),
                Error,
            >(Error::Truncated),
            old(self)@.len() >= METADATA_LENGTH ==> (match parse_metadata(
                old(self)@.take(METADATA_LENGTH as int),
            ) {
                Err(e) => r == Err::<(Option<Metadata>, Vec<RecordEnum>), Error>(e),
                Ok(v) => match decode_all(old(self)@.skip(METADATA_LENGTH as int)) {
                    Err(e) => r == Err::<(Option<Metadata>, Vec<RecordEnum>), Error>(e),
                    Ok(recs) => r matches Ok((Some(m), w)) && m@ == v && w@ == recs,
                },
            }),
    {
        let metadata = match self.decode_metadata() {
            Ok(m) => m,
            Err(e) => {
                return Err(e);
            },
        };
        match self.decode_records() {
            Ok(records) => Ok((metadata, records)),
            Err(e) => Err(e),
        }
    }
}

} // verus!
