//! The closed set of record types, owned and borrowed, and the dispatch
//! from a view's tag to the type that it names.

use crate::enums::RType;
use crate::record_ref::RecordRef;
use crate::records::{BboMsg, HasRType, Mbp1Msg, OhlcvMsg, RecordHeader, TbboMsg, TradeMsg};
use vstd::prelude::*;

verus! {

/// A record of any of the known types, owning its fields.
#[derive(Debug, Clone, Copy, PartialEq, Eq)]
pub enum RecordEnum {
    Mbp1(Mbp1Msg),
    Ohlcv(OhlcvMsg),
    Trade(TradeMsg),
    Tbbo(TbboMsg),
    Bbo(BboMsg),
}

impl RecordEnum {
    /// The record that the bytes `s` of a view hold: the tag picks the type,
    /// and the bytes must be as many as that type has. `None` where the tag
    /// names no type or the bytes are too few.
    pub open spec fn spec_from_bytes(s: Seq<u8>) -> Option<RecordEnum> {
        match RType::spec_from_u8(s[1]) {
            None => None,
            Some(RType::Mbp1) => if s.len() >= Mbp1Msg::spec_size() {
                Some(RecordEnum::Mbp1(Mbp1Msg::spec_parse(s)))
            } else {
                None
            },
            Some(RType::Ohlcv) => if s.len() >= OhlcvMsg::spec_size() {
                Some(RecordEnum::Ohlcv(OhlcvMsg::spec_parse(s)))
            } else {
                None
            },
            Some(RType::Trade) => if s.len() >= TradeMsg::spec_size() {
                Some(RecordEnum::Trade(TradeMsg::spec_parse(s)))
            } else {
                None
            },
            Some(RType::Tbbo) => if s.len() >= TbboMsg::spec_size() {
                Some(RecordEnum::Tbbo(TbboMsg::spec_parse(s)))
            } else {
                None
            },
            Some(RType::Bbo) => if s.len() >= BboMsg::spec_size() {
                Some(RecordEnum::Bbo(BboMsg::spec_parse(s)))
            } else {
                None
            },
        }
    }

    /// The bytes of the record.
    pub open spec fn spec_bytes(self) -> Seq<u8> {
        match self {
            RecordEnum::Mbp1(m) => m.spec_bytes(),
            RecordEnum::Ohlcv(m) => m.spec_bytes(),
            RecordEnum::Trade(m) => m.spec_bytes(),
            RecordEnum::Tbbo(m) => m.spec_bytes(),
            RecordEnum::Bbo(m) => m.spec_bytes(),
        }
    }

    /// The header of the record.
    pub open spec fn spec_header(self) -> RecordHeader {
        match self {
            RecordEnum::Mbp1(m) => m.hd,
            RecordEnum::Ohlcv(m) => m.hd,
            RecordEnum::Trade(m) => m.hd,
            RecordEnum::Tbbo(m) => m.hd,
            RecordEnum::Bbo(m) => m.hd,
        }
    }

    /// The record type of the variant.
    pub open spec fn spec_rtype(self) -> RType {
        match self {
            RecordEnum::Mbp1(_) => RType::Mbp1,
            RecordEnum::Ohlcv(_) => RType::Ohlcv,
            RecordEnum::Trade(_) => RType::Trade,
            RecordEnum::Tbbo(_) => RType::Tbbo,
            RecordEnum::Bbo(_) => RType::Bbo,
        }
    }

    /// The number of bytes of the variant's record type.
    pub open spec fn spec_size(self) -> nat {
        match self {
            RecordEnum::Mbp1(_) => Mbp1Msg::spec_size(),
            RecordEnum::Ohlcv(_) => OhlcvMsg::spec_size(),
            RecordEnum::Trade(_) => TradeMsg::spec_size(),
            RecordEnum::Tbbo(_) => TbboMsg::spec_size(),
            RecordEnum::Bbo(_) => BboMsg::spec_size(),
        }
    }

    /// Whether the header agrees with the variant: its tag names the
    /// variant's type and it declares that type's size. Headers made by
    /// `RecordHeader::new` for the variant's type do.
    pub open spec fn wf(self) -> bool {
        &&& self.spec_header().rtype == self.spec_rtype().spec_as_u8()
        &&& self.spec_header().spec_record_size() == self.spec_size()
    }

    /// The owned record that a view holds, by the view's tag.
    pub fn from_ref(rec_ref: RecordRef) -> (r: Option<RecordEnum>)
        ensures
            rec_ref.wf(),
            r == RecordEnum::spec_from_bytes(rec_ref@),
    {
        match rec_ref.header().rtype() {
            None => None,
            Some(RType::Mbp1) => match rec_ref.get::<Mbp1Msg>() {
                Some(m) => Some(RecordEnum::Mbp1(m)),
                None => None,
            },
            Some(RType::Ohlcv) => match rec_ref.get::<OhlcvMsg>() {
                Some(m) => Some(RecordEnum::Ohlcv(m)),
                None => None,
            },
            Some(RType::Trade) => match rec_ref.get::<TradeMsg>() {
                Some(m) => Some(RecordEnum::Trade(m)),
                None => None,
            },
            Some(RType::Tbbo) => match rec_ref.get::<TbboMsg>() {
                Some(m) => Some(RecordEnum::Tbbo(m)),
                None => None,
            },
            Some(RType::Bbo) => match rec_ref.get::<BboMsg>() {
                Some(m) => Some(RecordEnum::Bbo(m)),
                None => None,
            },
        }
    }

    /// The bytes of the record, as they stand on the wire.
    pub fn to_bytes(&self) -> (bytes: Vec<u8>)
        ensures
            bytes@ == self.spec_bytes(),
            bytes@.len() == self.spec_size(),
    {
        let mut bytes: Vec<u8> = Vec::new();
        match self {
            RecordEnum::Mbp1(m) => m.write(&mut bytes),
            RecordEnum::Ohlcv(m) => m.write(&mut bytes),
            RecordEnum::Trade(m) => m.write(&mut bytes),
            RecordEnum::Tbbo(m) => m.write(&mut bytes),
            RecordEnum::Bbo(m) => m.write(&mut bytes),
        }
        proof {
            self.lemma_bytes_shape();
            assert(bytes@ =~= self.spec_bytes());
        }
        bytes
    }

    /// Writes the record into `buf`, in place of what `buf` held, and gives
    /// a view of it there.
    pub fn to_record_ref<'a>(&self, buf: &'a mut Vec<u8>) -> (v: RecordRef<'a>)
        requires
            self.wf(),
        ensures
            final(buf)@ == self.spec_bytes(),
            v@ == self.spec_bytes(),
            v.wf(),
    {
        buf.clear();
        match self {
            RecordEnum::Mbp1(m) => m.write(buf),
            RecordEnum::Ohlcv(m) => m.write(buf),
            RecordEnum::Trade(m) => m.write(buf),
            RecordEnum::Tbbo(m) => m.write(buf),
            RecordEnum::Bbo(m) => m.write(buf),
        }
        proof {
            self.lemma_bytes_shape();
            assert(buf@ =~= self.spec_bytes());
        }
        RecordRef::new(buf.as_slice())
    }

    /// Writes the record into `buf`, in place of what `buf` held, and gives
    /// a view of it there under the record's variant.
    pub fn to_ref<'a>(&self, buf: &'a mut Vec<u8>) -> (e: RecordEnumRef<'a>)
        requires
            self.wf(),
        ensures
            final(buf)@ == self.spec_bytes(),
            e.spec_record_ref()@ == self.spec_bytes(),
            e.spec_rtype() == self.spec_rtype(),
            e.wf(),
    {
        proof {
            self.lemma_round_trip();
            self.lemma_bytes_shape();
        }
        let v = self.to_record_ref(buf);
        match self {
            RecordEnum::Mbp1(_) => RecordEnumRef::Mbp1(v),
            RecordEnum::Ohlcv(_) => RecordEnumRef::Ohlcv(v),
            RecordEnum::Trade(_) => RecordEnumRef::Trade(v),
            RecordEnum::Tbbo(_) => RecordEnumRef::Tbbo(v),
            RecordEnum::Bbo(_) => RecordEnumRef::Bbo(v),
        }
    }

    /// The header of the record.
    pub fn header(&self) -> (h: RecordHeader)
        ensures
            h == self.spec_header(),
    {
        match self {
            RecordEnum::Mbp1(m) => m.hd,
            RecordEnum::Ohlcv(m) => m.hd,
            RecordEnum::Trade(m) => m.hd,
            RecordEnum::Tbbo(m) => m.hd,
            RecordEnum::Bbo(m) => m.hd,
        }
    }

    /// The bytes of any record are as many as its type has, and begin with
    /// its header's length and tag.
    pub proof fn lemma_bytes_shape(self)
        ensures
            self.spec_bytes().len() == self.spec_size(),
            self.spec_bytes()[0] == self.spec_header().length,
            self.spec_bytes()[1] == self.spec_header().rtype,
    {
        match self {
            RecordEnum::Mbp1(m) => {
                m.lemma_round_trip();
                m.hd.lemma_round_trip();
            },
            RecordEnum::Ohlcv(m) => {
                m.lemma_round_trip();
                m.hd.lemma_round_trip();
            },
            RecordEnum::Trade(m) => {
                m.lemma_round_trip();
                m.hd.lemma_round_trip();
            },
            RecordEnum::Tbbo(m) => {
                m.lemma_round_trip();
                m.hd.lemma_round_trip();
            },
            RecordEnum::Bbo(m) => {
                m.lemma_round_trip();
                m.hd.lemma_round_trip();
            },
        }
    }

    /// Decoding the bytes of a record whose header agrees with its variant
    /// gives the record back, whatever its fields hold.
    pub proof fn lemma_round_trip(self)
        requires
            self.wf(),
        ensures
            RecordEnum::spec_from_bytes(self.spec_bytes()) == Some(self),
    {
        self.lemma_bytes_shape();
        match self {
            RecordEnum::Mbp1(m) => m.lemma_round_trip(),
            RecordEnum::Ohlcv(m) => m.lemma_round_trip(),
            RecordEnum::Trade(m) => m.lemma_round_trip(),
            RecordEnum::Tbbo(m) => m.lemma_round_trip(),
            RecordEnum::Bbo(m) => m.lemma_round_trip(),
        }
    }
}

/// A record of any of the known types, as a view of the buffer that holds it.
#[derive(Debug, Clone, Copy)]
pub enum RecordEnumRef<'a> {
    Mbp1(RecordRef<'a>),
    Ohlcv(RecordRef<'a>),
    Trade(RecordRef<'a>),
    Tbbo(RecordRef<'a>),
    Bbo(RecordRef<'a>),
}

impl<'a> RecordEnumRef<'a> {
    /// The view that the variant holds.
    pub open spec fn spec_record_ref(self) -> RecordRef<'a> {
        match self {
            RecordEnumRef::Mbp1(v) => v,
            RecordEnumRef::Ohlcv(v) => v,
            RecordEnumRef::Trade(v) => v,
            RecordEnumRef::Tbbo(v) => v,
            RecordEnumRef::Bbo(v) => v,
        }
    }

    /// The record type of the variant.
    pub open spec fn spec_rtype(self) -> RType {
        match self {
            RecordEnumRef::Mbp1(_) => RType::Mbp1,
            RecordEnumRef::Ohlcv(_) => RType::Ohlcv,
            RecordEnumRef::Trade(_) => RType::Trade,
            RecordEnumRef::Tbbo(_) => RType::Tbbo,
            RecordEnumRef::Bbo(_) => RType::Bbo,
        }
    }

    /// Whether the view holds a record of the variant's type: the tag names
    /// it and the bytes are enough for it.
    pub open spec fn wf(self) -> bool {
        let s = self.spec_record_ref()@;
        &&& self.spec_record_ref().wf()
        &&& RType::spec_from_u8(s[1]) == Some(self.spec_rtype())
        &&& RecordEnum::spec_from_bytes(s) is Some
    }

    /// The view under the variant that its tag names; `None` where the tag
    /// names no type or the view is too short for the type.
    pub fn from_ref(rec_ref: RecordRef<'a>) -> (r: Option<RecordEnumRef<'a>>)
        ensures
            r is Some <==> RecordEnum::spec_from_bytes(rec_ref@) is Some,
            r matches Some(e) ==> e.spec_record_ref() == rec_ref && e.wf(),
    {
        match RecordEnum::from_ref(rec_ref) {
            None => None,
            Some(RecordEnum::Mbp1(_)) => Some(RecordEnumRef::Mbp1(rec_ref)),
            Some(RecordEnum::Ohlcv(_)) => Some(RecordEnumRef::Ohlcv(rec_ref)),
            Some(RecordEnum::Trade(_)) => Some(RecordEnumRef::Trade(rec_ref)),
            Some(RecordEnum::Tbbo(_)) => Some(RecordEnumRef::Tbbo(rec_ref)),
            Some(RecordEnum::Bbo(_)) => Some(RecordEnumRef::Bbo(rec_ref)),
        }
    }

    /// The view that the variant holds.
    pub fn record_ref(&self) -> (v: RecordRef<'a>)
        ensures
            v == self.spec_record_ref(),
    {
        match self {
            RecordEnumRef::Mbp1(v) => *v,
            RecordEnumRef::Ohlcv(v) => *v,
            RecordEnumRef::Trade(v) => *v,
            RecordEnumRef::Tbbo(v) => *v,
            RecordEnumRef::Bbo(v) => *v,
        }
    }

    /// The record that the view holds, with fields of its own.
    pub fn to_owned(&self) -> (r: RecordEnum)
        requires
            self.wf(),
        ensures
            Some(r) == RecordEnum::spec_from_bytes(self.spec_record_ref()@),
            r.spec_rtype() == self.spec_rtype(),
    {
        let v = self.record_ref();
        match RecordEnum::from_ref(v) {
            Some(r) => r,
            None => {
                proof {
                    assert(false);
                }
                RecordEnum::Ohlcv(OhlcvMsg::read(v.as_ref()))
            },
        }
    }

    /// The header of the record.
    pub fn header(&self) -> (h: RecordHeader)
        ensures
            h == self.spec_record_ref().spec_header(),
    {
        self.record_ref().header()
    }
}

} // verus!
