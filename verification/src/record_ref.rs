//! A borrowed view of one record's bytes.

use crate::records::{HasRType, RecordHeader, HEADER_SIZE, LENGTH_MULTIPLIER};
use vstd::prelude::*;
use vstd::slice::slice_subrange;

verus! {

/// Whether `s` can back a view: its first byte declares a length that is no
/// less than a header, and `s` holds no fewer bytes than that.
pub open spec fn backs_record(s: Seq<u8>) -> bool {
    s.len() >= s[0] * LENGTH_MULTIPLIER >= HEADER_SIZE
}

/// A read-only handle on the bytes of one record. It owns nothing and is
/// valid for as long as the buffer that it borrows.
#[derive(Debug, Clone, Copy)]
pub struct RecordRef<'a> {
    data: &'a [u8],
}

impl<'a> View for RecordRef<'a> {
    type V = Seq<u8>;

    /// The borrowed bytes.
    closed spec fn view(&self) -> Seq<u8> {
        self.data@
    }
}

impl<'a> RecordRef<'a> {
    /// Every view is backed by its bytes: no function makes one that is not.
    #[verifier::type_invariant]
    closed spec fn backed(self) -> bool {
        backs_record(self.data@)
    }

    /// Whether the borrowed bytes can back a view.
    pub open spec fn wf(self) -> bool {
        backs_record(self@)
    }


    /// The header that the first bytes of the view hold.
    pub open spec fn spec_header(self) -> RecordHeader {
        RecordHeader::spec_parse(self@.subrange(0, HEADER_SIZE as int))
    }

    /// A view of `buffer`, which the caller knows to hold a record.
    pub fn new(buffer: &'a [u8]) -> (r: RecordRef<'a>)
        requires
            backs_record(buffer@),
        ensures
            r@ == buffer@,
            r.wf(),
    {
        RecordRef { data: buffer }
    }

    /// Writes `record` into `buf`, in place of what `buf` held, and gives a
    /// view of it there. The record's header must declare the size of `T`.
    pub fn from_record<T: HasRType>(record: &T, buf: &'a mut Vec<u8>) -> (r: RecordRef<'a>)
        requires
            record.spec_header().spec_record_size() == T::spec_size(),
        ensures
            final(buf)@ == record.to_bytes(),
            r@ == record.to_bytes(),
            r.wf(),
    {
        buf.clear();
        record.encode(buf);
        proof {
            record.lemma_decode_encode();
            assert(buf@ =~= record.to_bytes());
            assert(buf@.subrange(0, 16)[0] == buf@[0]);
        }
        RecordRef { data: buf.as_slice() }
    }

    /// A view of `buffer`, where `buffer` can back one.
    pub fn try_new(buffer: &'a [u8]) -> (r: Option<RecordRef<'a>>)
        ensures
            r is Some <==> backs_record(buffer@),
            r matches Some(v) ==> v@ == buffer@ && v.wf(),
    {
        if buffer.len() < HEADER_SIZE {
            return None;
        }
        let units: usize = buffer[0] as usize;
        if units * LENGTH_MULTIPLIER < HEADER_SIZE || buffer.len() < units * LENGTH_MULTIPLIER {
            return None;
        }
        Some(RecordRef { data: buffer })
    }

    /// The header of the record.
    pub fn header(&self) -> (h: RecordHeader)
        ensures
            self.wf(),
            h == self.spec_header(),
            h.length == self@[0],
            h.rtype == self@[1],
    {
        proof {
            use_type_invariant(self);
        }
        RecordHeader::read(slice_subrange(self.data, 0, HEADER_SIZE))
    }

    /// The record as a `T`, where the view holds enough bytes for one. The
    /// tag is not looked at: only the extent of the view decides.
    pub fn get<T: HasRType>(&self) -> (r: Option<T>)
        ensures
            r == (if self@.len() >= T::spec_size() {
                Some(T::parse(self@))
            } else {
                None
            }),
    {
        T::decode(self.data)
    }

    /// Whether the tag of the record is that of `T`.
    pub fn has<T: HasRType>(&self) -> (b: bool)
        ensures
            self.wf(),
            b == (self@[1] == T::spec_rtype().spec_as_u8()),
    {
        proof {
            use_type_invariant(self);
        }
        self.data[1] == T::rtype().as_u8()
    }

    /// The bytes of the frame: as many as the header declares.
    pub fn as_ref(&self) -> (b: &'a [u8])
        ensures
            self.wf(),
            b@ == self@.subrange(0, self@[0] * LENGTH_MULTIPLIER),
            backs_record(b@),
    {
        proof {
            use_type_invariant(self);
        }
        let units: usize = self.data[0] as usize;
        let b = slice_subrange(self.data, 0, units * LENGTH_MULTIPLIER);
        b
    }
}

} // verus!
