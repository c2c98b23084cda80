//! The record types and their fixed layout on the wire.

use crate::enums::RType;
use crate::wire::{
    get_i32, get_i64, get_u32, get_u64, le32, le32s, le64, le64s, lemma_fields, put_i32, put_i64,
    put_u32, put_u64, put_zeros, rd32, rd32s, rd64, rd64s, zeros,
};
use vstd::prelude::*;
use vstd::slice::slice_subrange;

verus! {

/// The total length of a frame is its first byte times this.
pub const LENGTH_MULTIPLIER: usize = 4;

/// The number of bytes of a record header.
pub const HEADER_SIZE: usize = 16;

/// The prefix of every record: the frame's length in units of
/// `LENGTH_MULTIPLIER` bytes, the tag of the record type, the instrument and
/// the time of the event.
#[derive(Debug, Clone, Copy, PartialEq, Eq)]
pub struct RecordHeader {
    pub length: u8,
    pub rtype: u8,
    pub instrument_id: u32,
    pub ts_event: u64,
}

impl RecordHeader {
    /// The header of a record of type `R` for the given instrument and time.
    pub open spec fn spec_new<R: HasRType>(instrument_id: u32, ts_event: u64) -> RecordHeader {
        RecordHeader {
            length: (R::spec_size() / (LENGTH_MULTIPLIER as nat)) as u8,
            rtype: R::spec_rtype().spec_as_u8(),
            instrument_id,
            ts_event,
        }
    }

    /// Makes the header of a record of type `R`: its length and tag are those of `R`.
    pub fn new<R: HasRType>(instrument_id: u32, ts_event: u64) -> (h: RecordHeader)
        ensures
            h == RecordHeader::spec_new::<R>(instrument_id, ts_event),
            h.spec_record_size() == R::spec_size(),
            h.spec_rtype() == Some(R::spec_rtype()),
    {
        let n = R::size();
        let t = R::rtype();
        let units: usize = n / LENGTH_MULTIPLIER;
        RecordHeader { length: units as u8, rtype: t.as_u8(), instrument_id, ts_event }
    }

    /// The length in bytes that the header declares for its frame.
    pub open spec fn spec_record_size(self) -> nat {
        (self.length * LENGTH_MULTIPLIER) as nat
    }

    /// The length in bytes that the header declares for its frame.
    pub fn record_size(&self) -> (n: usize)
        ensures
            n == self.spec_record_size(),
    {
        let units: usize = self.length as usize;
        units * LENGTH_MULTIPLIER
    }

    /// The record type that the tag names, if it names one.
    pub open spec fn spec_rtype(self) -> Option<RType> {
        RType::spec_from_u8(self.rtype)
    }

    /// The record type that the tag names, if it names one.
    pub fn rtype(&self) -> (t: Option<RType>)
        ensures
            t == self.spec_rtype(),
    {
        RType::from_u8(self.rtype)
    }

    /// The bytes of the header: length, tag, two zero bytes, then the
    /// instrument and the time, little-endian.
    pub open spec fn spec_bytes(self) -> Seq<u8> {
        seq![self.length]
        + seq![self.rtype]
        + zeros(2)
        + le32(self.instrument_id)
        + le64(self.ts_event)
    }

    /// The header whose fields stand at their offsets in `s`.
    pub open spec fn spec_parse(s: Seq<u8>) -> RecordHeader {
        RecordHeader {
            length: s[0],
            rtype: s[1],
            instrument_id: rd32(s, 4),
            ts_event: rd64(s, 8),
        }
    }

    /// Appends the bytes of the header to `buf`.
    pub fn write(&self, buf: &mut Vec<u8>)
        ensures
            final(buf)@ == old(buf)@ + self.spec_bytes(),
    {
        buf.push(self.length);
        buf.push(self.rtype);
        put_zeros(buf, 2);
        put_u32(buf, self.instrument_id);
        put_u64(buf, self.ts_event);
        assert(buf@ =~= old(buf)@ + self.spec_bytes());
    }

    /// Reads a header from the first 16 bytes of `bytes`.
    pub fn read(bytes: &[u8]) -> (r: RecordHeader)
        requires
            bytes@.len() >= 16,
        ensures
            r == RecordHeader::spec_parse(bytes@),
    {
        RecordHeader {
            length: bytes[0],
            rtype: bytes[1],
            instrument_id: get_u32(bytes, 4),
            ts_event: get_u64(bytes, 8),
        }
    }

    /// The bytes of a header are 16, and reading them gives the header back.
    pub proof fn lemma_round_trip(self)
        ensures
            self.spec_bytes().len() == 16,
            RecordHeader::spec_parse(self.spec_bytes()) == self,
    {
        lemma_fields();
        let s = self.spec_bytes();
        assert(s.subrange(4, 8) =~= le32(self.instrument_id));
        assert(s.subrange(8, 16) =~= le64(self.ts_event));
    }
}

/// A record type of the format: its tag, its fixed size, and its bytes.
pub trait HasRType: Sized {
    /// The record type that the header of such a record names.
    spec fn spec_rtype() -> RType;

    /// The number of bytes of such a record.
    spec fn spec_size() -> nat;

    /// The bytes of a record.
    spec fn to_bytes(self) -> Seq<u8>;

    /// The record whose fields stand at their offsets in `s`.
    spec fn parse(s: Seq<u8>) -> Self;

    /// The header of a record.
    spec fn spec_header(self) -> RecordHeader;

    /// The record type that the header of such a record names.
    fn rtype() -> (t: RType)
        ensures
            t == Self::spec_rtype(),
    ;

    /// The number of bytes of such a record: a multiple of the length unit
    /// that one length byte can express, and no less than a header.
    fn size() -> (n: usize)
        ensures
            n == Self::spec_size(),
            n % 4 == 0,
            16 <= n <= 1020,
    ;

    /// The header of the record.
    fn header(&self) -> (h: RecordHeader)
        ensures
            h == self.spec_header(),
    ;

    /// Appends the bytes of the record to `buf`.
    fn encode(&self, buf: &mut Vec<u8>)
        ensures
            final(buf)@ == old(buf)@ + self.to_bytes(),
    ;

    /// Reads a record from the front of `bytes`: `None` exactly where `bytes`
    /// is shorter than the record type.
    fn decode(bytes: &[u8]) -> (r: Option<Self>)
        ensures
            r == (if bytes@.len() >= Self::spec_size() {
                Some(Self::parse(bytes@))
            } else {
                None
            }),
    ;

    /// The size of the type is one that a length byte can declare. A
    /// record's bytes have that size, hold its header in front, and reading
    /// them gives the record back.
    proof fn lemma_decode_encode(self)
        ensures
            Self::spec_size() % 4 == 0,
            16 <= Self::spec_size() <= 1020,
            self.to_bytes().len() == Self::spec_size(),
            Self::parse(self.to_bytes()) == self,
            RecordHeader::spec_parse(self.to_bytes().subrange(0, 16)) == self.spec_header(),
    ;
}

/// One level of the book: price, size and order count on each side.
#[derive(Debug, Clone, Copy, PartialEq, Eq)]
pub struct BidAskPair {
    pub bid_px: i64,
    pub ask_px: i64,
    pub bid_sz: u32,
    pub ask_sz: u32,
    pub bid_ct: u32,
    pub ask_ct: u32,
}

impl BidAskPair {
    /// The bytes of this value: its fields in order, each little-endian,
    /// with zero bytes where the layout leaves a gap.
    pub open spec fn spec_bytes(self) -> Seq<u8> {
        le64s(self.bid_px)
        + le64s(self.ask_px)
        + le32(self.bid_sz)
        + le32(self.ask_sz)
        + le32(self.bid_ct)
        + le32(self.ask_ct)
    }

    /// The value whose fields stand at their offsets in `s`.
    pub open spec fn spec_parse(s: Seq<u8>) -> BidAskPair {
        BidAskPair {
            bid_px: rd64s(s, 0),
            ask_px: rd64s(s, 8),
            bid_sz: rd32(s, 16),
            ask_sz: rd32(s, 20),
            bid_ct: rd32(s, 24),
            ask_ct: rd32(s, 28),
        }
    }

    /// Appends the bytes of this value to `buf`.
    pub fn write(&self, buf: &mut Vec<u8>)
        ensures
            final(buf)@ == old(buf)@ + self.spec_bytes(),
    {
        put_i64(buf, self.bid_px);
        put_i64(buf, self.ask_px);
        put_u32(buf, self.bid_sz);
        put_u32(buf, self.ask_sz);
        put_u32(buf, self.bid_ct);
        put_u32(buf, self.ask_ct);
        assert(buf@ =~= old(buf)@ + self.spec_bytes());
    }

    /// Reads a value from the first 32 bytes of `bytes`.
    pub fn read(bytes: &[u8]) -> (r: BidAskPair)
        requires
            bytes@.len() >= 32,
        ensures
            r == BidAskPair::spec_parse(bytes@),
    {
        BidAskPair {
            bid_px: get_i64(bytes, 0),
            ask_px: get_i64(bytes, 8),
            bid_sz: get_u32(bytes, 16),
            ask_sz: get_u32(bytes, 20),
            bid_ct: get_u32(bytes, 24),
            ask_ct: get_u32(bytes, 28),
        }
    }

    /// The bytes of a value are 32, and reading them gives the value back.
    pub proof fn lemma_round_trip(self)
        ensures
            self.spec_bytes().len() == 32,
            BidAskPair::spec_parse(self.spec_bytes()) == self,
    {
        lemma_fields();
        let s = self.spec_bytes();
        assert(s.subrange(0, 8) =~= le64s(self.bid_px));
        assert(s.subrange(8, 16) =~= le64s(self.ask_px));
        assert(s.subrange(16, 20) =~= le32(self.bid_sz));
        assert(s.subrange(20, 24) =~= le32(self.ask_sz));
        assert(s.subrange(24, 28) =~= le32(self.bid_ct));
        assert(s.subrange(28, 32) =~= le32(self.ask_ct));
    }
}

/// A book update with the top level of the book after it.
#[derive(Debug, Clone, Copy, PartialEq, Eq)]
pub struct Mbp1Msg {
    pub hd: RecordHeader,
    pub price: i64,
    pub size: u32,
    pub action: u8,
    pub side: u8,
    pub depth: u8,
    pub flags: u8,
    pub ts_recv: u64,
    pub ts_in_delta: i32,
    pub sequence: u32,
    pub levels: [BidAskPair; 1],
}

impl Mbp1Msg {
    /// The bytes of this value: its fields in order, each little-endian,
    /// with zero bytes where the layout leaves a gap.
    pub open spec fn spec_bytes(self) -> Seq<u8> {
        self.hd.spec_bytes()
        + le64s(self.price)
        + le32(self.size)
        + seq![self.action]
        + seq![self.side]
        + seq![self.depth]
        + seq![self.flags]
        + le64(self.ts_recv)
        + le32s(self.ts_in_delta)
        + le32(self.sequence)
        + self.levels[0].spec_bytes()
    }

    /// The value whose fields stand at their offsets in `s`.
    pub open spec fn spec_parse(s: Seq<u8>) -> Mbp1Msg {
        Mbp1Msg {
            hd: RecordHeader::spec_parse(s.subrange(0, 16)),
            price: rd64s(s, 16),
            size: rd32(s, 24),
            action: s[28],
            side: s[29],
            depth: s[30],
            flags: s[31],
            ts_recv: rd64(s, 32),
            ts_in_delta: rd32s(s, 40),
            sequence: rd32(s, 44),
            levels: [BidAskPair::spec_parse(s.subrange(48, 80))],
        }
    }

    /// Appends the bytes of this value to `buf`.
    pub fn write(&self, buf: &mut Vec<u8>)
        ensures
            final(buf)@ == old(buf)@ + self.spec_bytes(),
    {
        self.hd.write(buf);
        put_i64(buf, self.price);
        put_u32(buf, self.size);
        buf.push(self.action);
        buf.push(self.side);
        buf.push(self.depth);
        buf.push(self.flags);
        put_u64(buf, self.ts_recv);
        put_i32(buf, self.ts_in_delta);
        put_u32(buf, self.sequence);
        self.levels[0].write(buf);
        assert(buf@ =~= old(buf)@ + self.spec_bytes());
    }

    /// Reads a value from the first 80 bytes of `bytes`.
    pub fn read(bytes: &[u8]) -> (r: Mbp1Msg)
        requires
            bytes@.len() >= 80,
        ensures
            r == Mbp1Msg::spec_parse(bytes@),
    {
        Mbp1Msg {
            hd: RecordHeader::read(slice_subrange(bytes, 0, 16)),
            price: get_i64(bytes, 16),
            size: get_u32(bytes, 24),
            action: bytes[28],
            side: bytes[29],
            depth: bytes[30],
            flags: bytes[31],
            ts_recv: get_u64(bytes, 32),
            ts_in_delta: get_i32(bytes, 40),
            sequence: get_u32(bytes, 44),
            levels: [BidAskPair::read(slice_subrange(bytes, 48, 80))],
        }
    }

    /// The bytes of a value are 80, and reading them gives the value back.
    pub proof fn lemma_round_trip(self)
        ensures
            self.spec_bytes().len() == 80,
            Mbp1Msg::spec_parse(self.spec_bytes()) == self,
    {
        lemma_fields();
        let s = self.spec_bytes();
        self.hd.lemma_round_trip();
        assert(s.subrange(0, 16) =~= self.hd.spec_bytes());
        assert(s.subrange(16, 24) =~= le64s(self.price));
        assert(s.subrange(24, 28) =~= le32(self.size));
        assert(s.subrange(32, 40) =~= le64(self.ts_recv));
        assert(s.subrange(40, 44) =~= le32s(self.ts_in_delta));
        assert(s.subrange(44, 48) =~= le32(self.sequence));
        self.levels[0].lemma_round_trip();
        assert(s.subrange(48, 80) =~= self.levels[0].spec_bytes());
        assert(Mbp1Msg::spec_parse(s).levels =~= self.levels);
    }
}

impl HasRType for Mbp1Msg {
    open spec fn spec_rtype() -> RType {
        RType::Mbp1
    }

    open spec fn spec_size() -> nat {
        80
    }

    open spec fn to_bytes(self) -> Seq<u8> {
        self.spec_bytes()
    }

    open spec fn parse(s: Seq<u8>) -> Self {
        Mbp1Msg::spec_parse(s)
    }

    open spec fn spec_header(self) -> RecordHeader {
        self.hd
    }

    fn rtype() -> (t: RType) {
        RType::Mbp1
    }

    fn size() -> (n: usize) {
        80
    }

    fn header(&self) -> (h: RecordHeader) {
        self.hd
    }

    fn encode(&self, buf: &mut Vec<u8>) {
        self.write(buf);
    }

    fn decode(bytes: &[u8]) -> (r: Option<Self>) {
        if bytes.len() >= 80 {
            Some(Mbp1Msg::read(bytes))
        } else {
            None
        }
    }

    proof fn lemma_decode_encode(self) {
        self.lemma_round_trip();
    }
}

/// An open-high-low-close bar with its volume.
#[derive(Debug, Clone, Copy, PartialEq, Eq)]
pub struct OhlcvMsg {
    pub hd: RecordHeader,
    pub open: i64,
    pub high: i64,
    pub low: i64,
    pub close: i64,
    pub volume: u64,
}

impl OhlcvMsg {
    /// The bytes of this value: its fields in order, each little-endian,
    /// with zero bytes where the layout leaves a gap.
    pub open spec fn spec_bytes(self) -> Seq<u8> {
        self.hd.spec_bytes()
        + le64s(self.open)
        + le64s(self.high)
        + le64s(self.low)
        + le64s(self.close)
        + le64(self.volume)
    }

    /// The value whose fields stand at their offsets in `s`.
    pub open spec fn spec_parse(s: Seq<u8>) -> OhlcvMsg {
        OhlcvMsg {
            hd: RecordHeader::spec_parse(s.subrange(0, 16)),
            open: rd64s(s, 16),
            high: rd64s(s, 24),
            low: rd64s(s, 32),
            close: rd64s(s, 40),
            volume: rd64(s, 48),
        }
    }

    /// Appends the bytes of this value to `buf`.
    pub fn write(&self, buf: &mut Vec<u8>)
        ensures
            final(buf)@ == old(buf)@ + self.spec_bytes(),
    {
        self.hd.write(buf);
        put_i64(buf, self.open);
        put_i64(buf, self.high);
        put_i64(buf, self.low);
        put_i64(buf, self.close);
        put_u64(buf, self.volume);
        assert(buf@ =~= old(buf)@ + self.spec_bytes());
    }

    /// Reads a value from the first 56 bytes of `bytes`.
    pub fn read(bytes: &[u8]) -> (r: OhlcvMsg)
        requires
            bytes@.len() >= 56,
        ensures
            r == OhlcvMsg::spec_parse(bytes@),
    {
        OhlcvMsg {
            hd: RecordHeader::read(slice_subrange(bytes, 0, 16)),
            open: get_i64(bytes, 16),
            high: get_i64(bytes, 24),
            low: get_i64(bytes, 32),
            close: get_i64(bytes, 40),
            volume: get_u64(bytes, 48),
        }
    }

    /// The bytes of a value are 56, and reading them gives the value back.
    pub proof fn lemma_round_trip(self)
        ensures
            self.spec_bytes().len() == 56,
            OhlcvMsg::spec_parse(self.spec_bytes()) == self,
    {
        lemma_fields();
        let s = self.spec_bytes();
        self.hd.lemma_round_trip();
        assert(s.subrange(0, 16) =~= self.hd.spec_bytes());
        assert(s.subrange(16, 24) =~= le64s(self.open));
        assert(s.subrange(24, 32) =~= le64s(self.high));
        assert(s.subrange(32, 40) =~= le64s(self.low));
        assert(s.subrange(40, 48) =~= le64s(self.close));
        assert(s.subrange(48, 56) =~= le64(self.volume));
    }
}

impl HasRType for OhlcvMsg {
    open spec fn spec_rtype() -> RType {
        RType::Ohlcv
    }

    open spec fn spec_size() -> nat {
        56
    }

    open spec fn to_bytes(self) -> Seq<u8> {
        self.spec_bytes()
    }

    open spec fn parse(s: Seq<u8>) -> Self {
        OhlcvMsg::spec_parse(s)
    }

    open spec fn spec_header(self) -> RecordHeader {
        self.hd
    }

    fn rtype() -> (t: RType) {
        RType::Ohlcv
    }

    fn size() -> (n: usize) {
        56
    }

    fn header(&self) -> (h: RecordHeader) {
        self.hd
    }

    fn encode(&self, buf: &mut Vec<u8>) {
        self.write(buf);
    }

    fn decode(bytes: &[u8]) -> (r: Option<Self>) {
        if bytes.len() >= 56 {
            Some(OhlcvMsg::read(bytes))
        } else {
            None
        }
    }

    proof fn lemma_decode_encode(self) {
        self.lemma_round_trip();
    }
}

/// A trade.
#[derive(Debug, Clone, Copy, PartialEq, Eq)]
pub struct TradeMsg {
    pub hd: RecordHeader,
    pub price: i64,
    pub size: u32,
    pub action: u8,
    pub side: u8,
    pub depth: u8,
    pub flags: u8,
    pub ts_recv: u64,
    pub ts_in_delta: i32,
    pub sequence: u32,
}

impl TradeMsg {
    /// The bytes of this value: its fields in order, each little-endian,
    /// with zero bytes where the layout leaves a gap.
    pub open spec fn spec_bytes(self) -> Seq<u8> {
        self.hd.spec_bytes()
        + le64s(self.price)
        + le32(self.size)
        + seq![self.action]
        + seq![self.side]
        + seq![self.depth]
        + seq![self.flags]
        + le64(self.ts_recv)
        + le32s(self.ts_in_delta)
        + le32(self.sequence)
    }

    /// The value whose fields stand at their offsets in `s`.
    pub open spec fn spec_parse(s: Seq<u8>) -> TradeMsg {
        TradeMsg {
            hd: RecordHeader::spec_parse(s.subrange(0, 16)),
            price: rd64s(s, 16),
            size: rd32(s, 24),
            action: s[28],
            side: s[29],
            depth: s[30],
            flags: s[31],
            ts_recv: rd64(s, 32),
            ts_in_delta: rd32s(s, 40),
            sequence: rd32(s, 44),
        }
    }

    /// Appends the bytes of this value to `buf`.
    pub fn write(&self, buf: &mut Vec<u8>)
        ensures
            final(buf)@ == old(buf)@ + self.spec_bytes(),
    {
        self.hd.write(buf);
        put_i64(buf, self.price);
        put_u32(buf, self.size);
        buf.push(self.action);
        buf.push(self.side);
        buf.push(self.depth);
        buf.push(self.flags);
        put_u64(buf, self.ts_recv);
        put_i32(buf, self.ts_in_delta);
        put_u32(buf, self.sequence);
        assert(buf@ =~= old(buf)@ + self.spec_bytes());
    }

    /// Reads a value from the first 48 bytes of `bytes`.
    pub fn read(bytes: &[u8]) -> (r: TradeMsg)
        requires
            bytes@.len() >= 48,
        ensures
            r == TradeMsg::spec_parse(bytes@),
    {
        TradeMsg {
            hd: RecordHeader::read(slice_subrange(bytes, 0, 16)),
            price: get_i64(bytes, 16),
            size: get_u32(bytes, 24),
            action: bytes[28],
            side: bytes[29],
            depth: bytes[30],
            flags: bytes[31],
            ts_recv: get_u64(bytes, 32),
            ts_in_delta: get_i32(bytes, 40),
            sequence: get_u32(bytes, 44),
        }
    }

    /// The bytes of a value are 48, and reading them gives the value back.
    pub proof fn lemma_round_trip(self)
        ensures
            self.spec_bytes().len() == 48,
            TradeMsg::spec_parse(self.spec_bytes()) == self,
    {
        lemma_fields();
        let s = self.spec_bytes();
        self.hd.lemma_round_trip();
        assert(s.subrange(0, 16) =~= self.hd.spec_bytes());
        assert(s.subrange(16, 24) =~= le64s(self.price));
        assert(s.subrange(24, 28) =~= le32(self.size));
        assert(s.subrange(32, 40) =~= le64(self.ts_recv));
        assert(s.subrange(40, 44) =~= le32s(self.ts_in_delta));
        assert(s.subrange(44, 48) =~= le32(self.sequence));
    }
}

impl HasRType for TradeMsg {
    open spec fn spec_rtype() -> RType {
        RType::Trade
    }

    open spec fn spec_size() -> nat {
        48
    }

    open spec fn to_bytes(self) -> Seq<u8> {
        self.spec_bytes()
    }

    open spec fn parse(s: Seq<u8>) -> Self {
        TradeMsg::spec_parse(s)
    }

    open spec fn spec_header(self) -> RecordHeader {
        self.hd
    }

    fn rtype() -> (t: RType) {
        RType::Trade
    }

    fn size() -> (n: usize) {
        48
    }

    fn header(&self) -> (h: RecordHeader) {
        self.hd
    }

    fn encode(&self, buf: &mut Vec<u8>) {
        self.write(buf);
    }

    fn decode(bytes: &[u8]) -> (r: Option<Self>) {
        if bytes.len() >= 48 {
            Some(TradeMsg::read(bytes))
        } else {
            None
        }
    }

    proof fn lemma_decode_encode(self) {
        self.lemma_round_trip();
    }
}

/// A trade with the top level of the book before it.
#[derive(Debug, Clone, Copy, PartialEq, Eq)]
pub struct TbboMsg {
    pub hd: RecordHeader,
    pub price: i64,
    pub size: u32,
    pub action: u8,
    pub side: u8,
    pub depth: u8,
    pub flags: u8,
    pub ts_recv: u64,
    pub ts_in_delta: i32,
    pub sequence: u32,
    pub levels: [BidAskPair; 1],
}

impl TbboMsg {
    /// The bytes of this value: its fields in order, each little-endian,
    /// with zero bytes where the layout leaves a gap.
    pub open spec fn spec_bytes(self) -> Seq<u8> {
        self.hd.spec_bytes()
        + le64s(self.price)
        + le32(self.size)
        + seq![self.action]
        + seq![self.side]
        + seq![self.depth]
        + seq![self.flags]
        + le64(self.ts_recv)
        + le32s(self.ts_in_delta)
        + le32(self.sequence)
        + self.levels[0].spec_bytes()
    }

    /// The value whose fields stand at their offsets in `s`.
    pub open spec fn spec_parse(s: Seq<u8>) -> TbboMsg {
        TbboMsg {
            hd: RecordHeader::spec_parse(s.subrange(0, 16)),
            price: rd64s(s, 16),
            size: rd32(s, 24),
            action: s[28],
            side: s[29],
            depth: s[30],
            flags: s[31],
            ts_recv: rd64(s, 32),
            ts_in_delta: rd32s(s, 40),
            sequence: rd32(s, 44),
            levels: [BidAskPair::spec_parse(s.subrange(48, 80))],
        }
    }

    /// Appends the bytes of this value to `buf`.
    pub fn write(&self, buf: &mut Vec<u8>)
        ensures
            final(buf)@ == old(buf)@ + self.spec_bytes(),
    {
        self.hd.write(buf);
        put_i64(buf, self.price);
        put_u32(buf, self.size);
        buf.push(self.action);
        buf.push(self.side);
        buf.push(self.depth);
        buf.push(self.flags);
        put_u64(buf, self.ts_recv);
        put_i32(buf, self.ts_in_delta);
        put_u32(buf, self.sequence);
        self.levels[0].write(buf);
        assert(buf@ =~= old(buf)@ + self.spec_bytes());
    }

    /// Reads a value from the first 80 bytes of `bytes`.
    pub fn read(bytes: &[u8]) -> (r: TbboMsg)
        requires
            bytes@.len() >= 80,
        ensures
            r == TbboMsg::spec_parse(bytes@),
    {
        TbboMsg {
            hd: RecordHeader::read(slice_subrange(bytes, 0, 16)),
            price: get_i64(bytes, 16),
            size: get_u32(bytes, 24),
            action: bytes[28],
            side: bytes[29],
            depth: bytes[30],
            flags: bytes[31],
            ts_recv: get_u64(bytes, 32),
            ts_in_delta: get_i32(bytes, 40),
            sequence: get_u32(bytes, 44),
            levels: [BidAskPair::read(slice_subrange(bytes, 48, 80))],
        }
    }

    /// The bytes of a value are 80, and reading them gives the value back.
    pub proof fn lemma_round_trip(self)
        ensures
            self.spec_bytes().len() == 80,
            TbboMsg::spec_parse(self.spec_bytes()) == self,
    {
        lemma_fields();
        let s = self.spec_bytes();
        self.hd.lemma_round_trip();
        assert(s.subrange(0, 16) =~= self.hd.spec_bytes());
        assert(s.subrange(16, 24) =~= le64s(self.price));
        assert(s.subrange(24, 28) =~= le32(self.size));
        assert(s.subrange(32, 40) =~= le64(self.ts_recv));
        assert(s.subrange(40, 44) =~= le32s(self.ts_in_delta));
        assert(s.subrange(44, 48) =~= le32(self.sequence));
        self.levels[0].lemma_round_trip();
        assert(s.subrange(48, 80) =~= self.levels[0].spec_bytes());
        assert(TbboMsg::spec_parse(s).levels =~= self.levels);
    }
}

impl HasRType for TbboMsg {
    open spec fn spec_rtype() -> RType {
        RType::Tbbo
    }

    open spec fn spec_size() -> nat {
        80
    }

    open spec fn to_bytes(self) -> Seq<u8> {
        self.spec_bytes()
    }

    open spec fn parse(s: Seq<u8>) -> Self {
        TbboMsg::spec_parse(s)
    }

    open spec fn spec_header(self) -> RecordHeader {
        self.hd
    }

    fn rtype() -> (t: RType) {
        RType::Tbbo
    }

    fn size() -> (n: usize) {
        80
    }

    fn header(&self) -> (h: RecordHeader) {
        self.hd
    }

    fn encode(&self, buf: &mut Vec<u8>) {
        self.write(buf);
    }

    fn decode(bytes: &[u8]) -> (r: Option<Self>) {
        if bytes.len() >= 80 {
            Some(TbboMsg::read(bytes))
        } else {
            None
        }
    }

    proof fn lemma_decode_encode(self) {
        self.lemma_round_trip();
    }
}

/// The top level of the book at the end of an interval.
#[derive(Debug, Clone, Copy, PartialEq, Eq)]
pub struct BboMsg {
    pub hd: RecordHeader,
    pub price: i64,
    pub size: u32,
    pub side: u8,
    pub flags: u8,
    pub ts_recv: u64,
    pub sequence: u32,
    pub levels: [BidAskPair; 1],
}

impl BboMsg {
    /// The bytes of this value: its fields in order, each little-endian,
    /// with zero bytes where the layout leaves a gap.
    pub open spec fn spec_bytes(self) -> Seq<u8> {
        self.hd.spec_bytes()
        + le64s(self.price)
        + le32(self.size)
        + seq![self.side]
        + seq![self.flags]
        + zeros(2)
        + le64(self.ts_recv)
        + le32(self.sequence)
        + zeros(4)
        + self.levels[0].spec_bytes()
    }

    /// The value whose fields stand at their offsets in `s`.
    pub open spec fn spec_parse(s: Seq<u8>) -> BboMsg {
        BboMsg {
            hd: RecordHeader::spec_parse(s.subrange(0, 16)),
            price: rd64s(s, 16),
            size: rd32(s, 24),
            side: s[28],
            flags: s[29],
            ts_recv: rd64(s, 32),
            sequence: rd32(s, 40),
            levels: [BidAskPair::spec_parse(s.subrange(48, 80))],
        }
    }

    /// Appends the bytes of this value to `buf`.
    pub fn write(&self, buf: &mut Vec<u8>)
        ensures
            final(buf)@ == old(buf)@ + self.spec_bytes(),
    {
        self.hd.write(buf);
        put_i64(buf, self.price);
        put_u32(buf, self.size);
        buf.push(self.side);
        buf.push(self.flags);
        put_zeros(buf, 2);
        put_u64(buf, self.ts_recv);
        put_u32(buf, self.sequence);
        put_zeros(buf, 4);
        self.levels[0].write(buf);
        assert(buf@ =~= old(buf)@ + self.spec_bytes());
    }

    /// Reads a value from the first 80 bytes of `bytes`.
    pub fn read(bytes: &[u8]) -> (r: BboMsg)
        requires
            bytes@.len() >= 80,
        ensures
            r == BboMsg::spec_parse(bytes@),
    {
        BboMsg {
            hd: RecordHeader::read(slice_subrange(bytes, 0, 16)),
            price: get_i64(bytes, 16),
            size: get_u32(bytes, 24),
            side: bytes[28],
            flags: bytes[29],
            ts_recv: get_u64(bytes, 32),
            sequence: get_u32(bytes, 40),
            levels: [BidAskPair::read(slice_subrange(bytes, 48, 80))],
        }
    }

    /// The bytes of a value are 80, and reading them gives the value back.
    pub proof fn lemma_round_trip(self)
        ensures
            self.spec_bytes().len() == 80,
            BboMsg::spec_parse(self.spec_bytes()) == self,
    {
        lemma_fields();
        let s = self.spec_bytes();
        self.hd.lemma_round_trip();
        assert(s.subrange(0, 16) =~= self.hd.spec_bytes());
        assert(s.subrange(16, 24) =~= le64s(self.price));
        assert(s.subrange(24, 28) =~= le32(self.size));
        assert(s.subrange(32, 40) =~= le64(self.ts_recv));
        assert(s.subrange(40, 44) =~= le32(self.sequence));
        self.levels[0].lemma_round_trip();
        assert(s.subrange(48, 80) =~= self.levels[0].spec_bytes());
        assert(BboMsg::spec_parse(s).levels =~= self.levels);
    }
}

impl HasRType for BboMsg {
    open spec fn spec_rtype() -> RType {
        RType::Bbo
    }

    open spec fn spec_size() -> nat {
        80
    }

    open spec fn to_bytes(self) -> Seq<u8> {
        self.spec_bytes()
    }

    open spec fn parse(s: Seq<u8>) -> Self {
        BboMsg::spec_parse(s)
    }

    open spec fn spec_header(self) -> RecordHeader {
        self.hd
    }

    fn rtype() -> (t: RType) {
        RType::Bbo
    }

    fn size() -> (n: usize) {
        80
    }

    fn header(&self) -> (h: RecordHeader) {
        self.hd
    }

    fn encode(&self, buf: &mut Vec<u8>) {
        self.write(buf);
    }

    fn decode(bytes: &[u8]) -> (r: Option<Self>) {
        if bytes.len() >= 80 {
            Some(BboMsg::read(bytes))
        } else {
            None
        }
    }

    proof fn lemma_decode_encode(self) {
        self.lemma_round_trip();
    }
}

} // verus!
