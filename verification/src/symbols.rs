//! Instruments, and the table that maps instrument ids to tickers with its
//! form on the wire.

use crate::error::Error;
use crate::wire::{get_u32, le32, lemma_fields, put_bytes, put_u32, rd32};
use std::collections::HashMap;
use vstd::prelude::*;
use vstd::slice::slice_subrange;
use vstd::std_specs::hash::spec_keys_iter;
use vstd::std_specs::iter::IteratorSpec;
use vstd::utf8::{
    decode_utf8, encode_utf8, encode_utf8_decode_utf8, encode_utf8_valid_utf8, valid_utf8,
};

verus! {

broadcast use vstd::std_specs::hash::group_hash_axioms;

/// Where the data of an instrument comes from.
#[derive(Debug, Clone, Copy, PartialEq, Eq, Structural)]
pub enum Vendors {
    Databento,
    Yfinance,
}

impl Vendors {
    /// The vendor's name in lower case.
    pub open spec fn spec_name(self) -> Seq<char> {
        match self {
            Vendors::Databento => "databento"@,
            Vendors::Yfinance => "yfinance"@,
        }
    }

    /// The vendor's name in lower case.
    pub fn into(self) -> (s: String)
        ensures
            s@ == self.spec_name(),
    {
        match self {
            Vendors::Databento => "databento".to_owned(),
            Vendors::Yfinance => "yfinance".to_owned(),
        }
    }
}

/// A financial instrument.
#[derive(Debug, Clone)]
pub struct Instrument {
    /// The instrument's id, once it has one.
    pub instrument_id: Option<u32>,
    /// The ticker.
    pub ticker: String,
    /// The name, as in "Apple Inc.".
    pub name: String,
    /// The vendor's name.
    pub vendor: String,
    /// The vendor's symbology type.
    pub stype: Option<String>,
    /// The vendor's dataset.
    pub dataset: Option<String>,
    /// The last date for which data is held.
    pub last_available: u64,
    /// The first date for which data is held.
    pub first_available: u64,
    /// Whether the instrument is active.
    pub active: bool,
}

impl Instrument {
    /// An instrument with the given fields; the vendor is kept by its name.
    pub fn new(
        instrument_id: Option<u32>,
        ticker: &str,
        name: &str,
        vendor: Vendors,
        stype: Option<String>,
        dataset: Option<String>,
        last_available: u64,
        first_available: u64,
        active: bool,
    ) -> (r: Instrument)
        ensures
            r.instrument_id == instrument_id,
            r.ticker@ == ticker@,
            r.name@ == name@,
            r.vendor@ == vendor.spec_name(),
            r.stype == stype,
            r.dataset == dataset,
            r.last_available == last_available,
            r.first_available == first_available,
            r.active == active,
    {
        Instrument {
            instrument_id,
            ticker: ticker.to_owned(),
            name: name.to_owned(),
            vendor: vendor.into(),
            stype,
            dataset,
            last_available,
            first_available,
            active,
        }
    }
}

/// The bytes of one entry of the table: the id, the number of bytes of the
/// ticker in UTF-8, and those bytes. A number that does not fit in 32 bits
/// is written modulo 2^32; `fits_wire` says when none does.
pub open spec fn entry_bytes(id: u32, ticker: Seq<char>) -> Seq<u8> {
    le32(id) + le32(encode_utf8(ticker).len() as u32) + encode_utf8(ticker)
}

/// The entries of `m` for the ids in `order`, one after the other.
pub open spec fn entries_bytes(m: Map<u32, Seq<char>>, order: Seq<u32>) -> Seq<u8>
    decreases order.len(),
{
    if order.len() == 0 {
        Seq::empty()
    } else {
        entry_bytes(order[0], m[order[0]]) + entries_bytes(m, order.skip(1))
    }
}

/// The table `m` on the wire with its entries in the given order: the number
/// of entries, then the entries.
pub open spec fn table_bytes(m: Map<u32, Seq<char>>, order: Seq<u32>) -> Seq<u8> {
    le32(order.len() as u32) + entries_bytes(m, order)
}

/// Whether `order` lists every id of `m` once.
pub open spec fn lists_ids(m: Map<u32, Seq<char>>, order: Seq<u32>) -> bool {
    order.no_duplicates() && order.to_set() == m.dom()
}

/// Whether the table can be written without loss: the number of entries and
/// the number of bytes of every ticker fit in 32 bits.
pub open spec fn fits_wire(m: Map<u32, Seq<char>>) -> bool {
    &&& m.dom().finite()
    &&& m.dom().len() <= u32::MAX
    &&& forall|k: u32| m.contains_key(k) ==> (#[trigger] encode_utf8(m[k])).len() <= u32::MAX
}

/// Reads `n` entries from the front of `s` into `acc`, a later entry
/// replacing an earlier one with the same id, and gives the table with the
/// bytes that follow the last entry. `Truncated` where `s` ends inside an
/// entry, `InvalidUtf8` where a ticker is not UTF-8; the first fault counts.
pub open spec fn parse_entries(s: Seq<u8>, n: nat, acc: Map<u32, Seq<char>>) -> Result<
    (Map<u32, Seq<char>>, Seq<u8>),
    Error,
>
    decreases n,
{
    if n == 0 {
        Ok((acc, s))
    } else if s.len() < 8 {
        Err(Error::Truncated)
    } else if s.len() < 8 + rd32(s, 4) {
        Err(Error::Truncated)
    } else {
        let ticker = s.subrange(8, 8 + rd32(s, 4));
        if !valid_utf8(ticker) {
            Err(Error::InvalidUtf8)
        } else {
            parse_entries(
                s.skip(8 + rd32(s, 4)),
                (n - 1) as nat,
                acc.insert(rd32(s, 0), decode_utf8(ticker)),
            )
        }
    }
}

/// Reads a table from the front of `s`: the count, then that many entries.
pub open spec fn parse_table(s: Seq<u8>) -> Result<(Map<u32, Seq<char>>, Seq<u8>), Error> {
    if s.len() < 4 {
        Err(Error::Truncated)
    } else {
        parse_entries(s.skip(4), rd32(s, 0) as nat, Map::empty())
    }
}

/// `acc` with the entries of `m` for the ids in `order` put over it.
pub open spec fn overlay(acc: Map<u32, Seq<char>>, m: Map<u32, Seq<char>>, order: Seq<u32>) -> Map<
    u32,
    Seq<char>,
>
    decreases order.len(),
{
    if order.len() == 0 {
        acc
    } else {
        overlay(acc.insert(order[0], m[order[0]]), m, order.skip(1))
    }
}

/// Writing one more entry appends its bytes.
pub proof fn lemma_entries_push(m: Map<u32, Seq<char>>, order: Seq<u32>, k: u32)
    ensures
        entries_bytes(m, order.push(k)) == entries_bytes(m, order) + entry_bytes(k, m[k]),
    decreases order.len(),
{
    if order.len() == 0 {
        assert(order.push(k).skip(1) =~= Seq::<u32>::empty());
        assert(entries_bytes(m, order.push(k)) =~= entry_bytes(k, m[k]) + entries_bytes(
            m,
            Seq::<u32>::empty(),
        ));
        assert(entries_bytes(m, order.push(k)) =~= entries_bytes(m, order) + entry_bytes(k, m[k]));
    } else {
        lemma_entries_push(m, order.skip(1), k);
        assert(order.push(k).skip(1) =~= order.skip(1).push(k));
        assert(entries_bytes(m, order.push(k)) =~= entries_bytes(m, order) + entry_bytes(k, m[k]));
    }
}

/// What `overlay` holds: for an id in `order` the entry of `m`, for another
/// id what `acc` holds.
pub proof fn lemma_overlay(acc: Map<u32, Seq<char>>, m: Map<u32, Seq<char>>, order: Seq<u32>)
    ensures
        forall|k: u32| #[trigger]
            overlay(acc, m, order).contains_key(k) <==> acc.contains_key(k) || order.contains(k),
        forall|k: u32|
            order.contains(k) ==> #[trigger] overlay(acc, m, order)[k] == m[k],
        forall|k: u32|
            !order.contains(k) ==> #[trigger] overlay(acc, m, order)[k] == acc[k],
    decreases order.len(),
{
    if order.len() > 0 {
        let acc2 = acc.insert(order[0], m[order[0]]);
        lemma_overlay(acc2, m, order.skip(1));
        assert(overlay(acc, m, order) == overlay(acc2, m, order.skip(1)));
        assert forall|k: u32| #[trigger]
            order.contains(k) <==> (k == order[0] || order.skip(1).contains(k)) by {
            if order.contains(k) {
                let i = choose|i: int| 0 <= i < order.len() && order[i] == k;
                if i > 0 {
                    assert(order.skip(1)[i - 1] == k);
                }
            }
            if order.skip(1).contains(k) {
                let i = choose|i: int| 0 <= i < order.skip(1).len() && order.skip(1)[i] == k;
                assert(order[i + 1] == k);
            }
        }
    }
}

/// Entries written in some order are read back as the table that they were
/// written from, laid over what was read before, and reading stops where
/// the entries end.
pub proof fn lemma_parse_entries(
    m: Map<u32, Seq<char>>,
    order: Seq<u32>,
    tail: Seq<u8>,
    acc: Map<u32, Seq<char>>,
)
    requires
        forall|i: int| 0 <= i < order.len() ==> encode_utf8(m[#[trigger] order[i]]).len() <= u32::MAX,
    ensures
        parse_entries(entries_bytes(m, order) + tail, order.len(), acc) == Ok::<
            (Map<u32, Seq<char>>, Seq<u8>),
            Error,
        >((overlay(acc, m, order), tail)),
    decreases order.len(),
{
    lemma_fields();
    if order.len() == 0 {
        assert(entries_bytes(m, order) + tail =~= tail);
    } else {
        let k = order[0];
        let t = encode_utf8(m[k]);
        let rest = entries_bytes(m, order.skip(1));
        let s = entries_bytes(m, order) + tail;
        assert(t.len() <= u32::MAX);
        assert(s =~= le32(k) + le32(t.len() as u32) + t + rest + tail);
        assert(s.subrange(0, 4) =~= le32(k));
        assert(s.subrange(4, 8) =~= le32(t.len() as u32));
        assert(rd32(s, 4) == t.len());
        assert(s.subrange(8, 8 + t.len() as int) =~= t);
        assert(s.skip(8 + t.len() as int) =~= rest + tail);
        encode_utf8_valid_utf8(m[k]);
        encode_utf8_decode_utf8(m[k]);
        assert forall|i: int| 0 <= i < order.skip(1).len() implies encode_utf8(
            m[#[trigger] order.skip(1)[i]],
        ).len() <= u32::MAX by {
            assert(order.skip(1)[i] == order[i + 1]);
        }
        lemma_parse_entries(m, order.skip(1), tail, acc.insert(k, m[k]));
    }
}

/// A table that fits the wire, written with its entries in any order, is
/// read back as the same table, and reading stops where the table ends.
pub proof fn lemma_table_round_trip(m: Map<u32, Seq<char>>, order: Seq<u32>, tail: Seq<u8>)
    requires
        fits_wire(m),
        lists_ids(m, order),
    ensures
        parse_table(table_bytes(m, order) + tail) == Ok::<(Map<u32, Seq<char>>, Seq<u8>), Error>(
            (m, tail),
        ),
{
    lemma_fields();
    order.unique_seq_to_set();
    assert(order.len() == m.dom().len());
    let s = table_bytes(m, order) + tail;
    assert(s.subrange(0, 4) =~= le32(order.len() as u32));
    assert(s.skip(4) =~= entries_bytes(m, order) + tail);
    assert forall|i: int| 0 <= i < order.len() implies encode_utf8(m[#[trigger] order[i]]).len()
        <= u32::MAX by {
        assert(order.to_set().contains(order[i]));
    }
    lemma_parse_entries(m, order, tail, Map::empty());
    lemma_overlay(Map::empty(), m, order);
    assert(overlay(Map::empty(), m, order) =~= m) by {
        assert forall|k: u32| m.contains_key(k) <==> order.contains(k) by {
            assert(order.to_set().contains(k) <==> order.contains(k));
        }
    }
}

/// `String::from_utf8`: a string exactly where the bytes are well-formed
/// UTF-8, and then the text that they encode.
#[verifier::external_body]
fn string_from_utf8(bytes: Vec<u8>) -> (r: Option<String>)
    ensures
        r is Some <==> valid_utf8(bytes@),
        r matches Some(s) ==> s@ == decode_utf8(bytes@),
{
    String::from_utf8(bytes).ok()
}

/// The ids of `m`, each once, in the order in which the map hands them out.
fn keys_of(m: &HashMap<u32, String>) -> (keys: Vec<u32>)
    ensures
        keys@.no_duplicates(),
        keys@.to_set() == m@.dom(),
{
    let mut keys: Vec<u32> = Vec::new();
    let ghost all = spec_keys_iter(m).remaining();
    for k in it: m.keys()
        invariant
            it.seq() == all,
            keys@.len() == it.index(),
            forall|i: int| 0 <= i < keys@.len() ==> keys@[i] == *all[i],
    {
        keys.push(*k);
    }
    proof {
        assert(keys@ =~= all.unref());
    }
    keys
}

/// The table from instrument ids to tickers.
#[derive(Debug, Clone, Default, PartialEq, Eq)]
pub struct SymbolMap {
    pub map: HashMap<u32, String>,
}

impl View for SymbolMap {
    type V = Map<u32, Seq<char>>;

    /// The table as a map from id to the ticker's text.
    open spec fn view(&self) -> Map<u32, Seq<char>> {
        Map::new(|k: u32| self.map@.contains_key(k), |k: u32| self.map@[k]@)
    }
}

impl SymbolMap {
    /// The empty table.
    pub fn new() -> (r: SymbolMap)
        ensures
            r@ == Map::<u32, Seq<char>>::empty(),
    {
        let r = SymbolMap { map: HashMap::new() };
        assert(r@ =~= Map::<u32, Seq<char>>::empty());
        r
    }

    /// Sets the ticker of `id`, replacing the one that it had.
    pub fn add_instrument(&mut self, ticker: &str, id: u32)
        ensures
            final(self)@ == old(self)@.insert(id, ticker@),
    {
        self.map.insert(id, ticker.to_owned());
        assert(self@ =~= old(self)@.insert(id, ticker@));
    }

    /// The ticker of `id`, if the table holds one.
    pub fn get_instrument_ticker(&self, id: u32) -> (r: Option<String>)
        ensures
            r is Some <==> self@.contains_key(id),
            r matches Some(s) ==> s@ == self@[id],
    {
        match self.map.get(&id) {
            Some(s) => Some(s.clone()),
            None => None,
        }
    }

    /// Puts the entries of `other` over this table: an id that both hold
    /// takes the ticker of `other`.
    pub fn merge(&mut self, other: &SymbolMap)
        ensures
            final(self)@ == old(self)@.union_prefer_right(other@),
    {
        let keys = keys_of(&other.map);
        let mut i: usize = 0;
        while i < keys.len()
            invariant
                i <= keys@.len(),
                keys@.to_set() == other.map@.dom(),
                forall|k: u32| #[trigger]
                    self@.contains_key(k) <==> old(self)@.contains_key(k) || keys@.take(
                        i as int,
                    ).contains(k),
                forall|k: u32|
                    keys@.take(i as int).contains(k) ==> #[trigger] self@[k] == other@[k],
                forall|k: u32|
                    !keys@.take(i as int).contains(k) ==> #[trigger] self@[k] == old(self)@[k],
            decreases keys@.len() - i,
        {
            let k = keys[i];
            assert(keys@.to_set().contains(k));
            let ghost before = self@;
            match other.map.get(&k) {
                Some(v) => {
                    self.map.insert(k, v.clone());
                },
                None => {
                    assert(false);
                },
            }
            assert(self@ =~= before.insert(k, other@[k]));
            assert(keys@.take(i + 1) =~= keys@.take(i as int).push(k));
            assert forall|x: u32| #[trigger]
                keys@.take(i + 1).contains(x) <==> (x == k || keys@.take(i as int).contains(
                    x,
                )) by {
                if keys@.take(i as int).contains(x) {
                    let j = choose|j: int|
                        0 <= j < keys@.take(i as int).len() && keys@.take(i as int)[j] == x;
                    assert(keys@.take(i + 1)[j] == x);
                }
                if x == k {
                    assert(keys@.take(i + 1)[i as int] == x);
                }
            }
            i = i + 1;
        }
        assert(keys@.take(keys@.len() as int) =~= keys@);
        assert(self@ =~= old(self)@.union_prefer_right(other@)) by {
            assert forall|k: u32| other@.contains_key(k) <==> keys@.contains(k) by {
                assert(keys@.to_set().contains(k) <==> keys@.contains(k));
            }
        }
    }

    /// The table on the wire: the number of entries, then each entry as its
    /// id, the number of bytes of its ticker, and the ticker in UTF-8. The
    /// entries stand in the order in which the map hands them out, which is
    /// some order that lists every id once.
    pub fn serialize(&self) -> (bytes: Vec<u8>)
        ensures
            exists|order: Seq<u32>| lists_ids(self@, order) && bytes@ == table_bytes(self@, order),
    {
        let keys = keys_of(&self.map);
        let mut bytes: Vec<u8> = Vec::new();
        put_u32(&mut bytes, #[verifier::truncate] (keys.len() as u32));
        assert(bytes@ =~= le32(keys@.len() as u32));
        let mut i: usize = 0;
        while i < keys.len()
            invariant
                i <= keys@.len(),
                keys@.to_set() == self.map@.dom(),
                bytes@ == le32(keys@.len() as u32) + entries_bytes(self@, keys@.take(i as int)),
            decreases keys@.len() - i,
        {
            let k = keys[i];
            assert(keys@.to_set().contains(k));
            let ghost before = bytes@;
            match self.map.get(&k) {
                Some(v) => {
                    let t = v.as_str().as_bytes();
                    put_u32(&mut bytes, k);
                    put_u32(&mut bytes, #[verifier::truncate] (t.len() as u32));
                    put_bytes(&mut bytes, t);
                    assert(bytes@ =~= before + entry_bytes(k, self@[k]));
                },
                None => {
                    assert(false);
                },
            }
            proof {
                lemma_entries_push(self@, keys@.take(i as int), k);
                assert(keys@.take(i + 1) =~= keys@.take(i as int).push(k));
                assert(bytes@ =~= le32(keys@.len() as u32) + entries_bytes(
                    self@,
                    keys@.take(i + 1),
                ));
            }
            i = i + 1;
        }
        proof {
            assert(keys@.take(keys@.len() as int) =~= keys@);
            assert(self@.dom() =~= self.map@.dom());
            assert(lists_ids(self@, keys@));
        }
        bytes
    }

    /// Reads a table from `bytes` at `*offset` and moves `*offset` behind
    /// it. Fails where the bytes end inside the table or a ticker is not
    /// UTF-8, and then leaves `*offset` where it was.
    pub fn deserialize(bytes: &[u8], offset: &mut usize) -> (r: Result<SymbolMap, Error>)
        ensures
            *old(offset) > bytes@.len() ==> r == Err::<SymbolMap, Error>(Error::Truncated),
            *old(offset) <= bytes@.len() ==> (match parse_table(bytes@.skip(*old(offset) as int)) {
                Ok((m, rest)) => r matches Ok(t) && t@ == m && *final(offset) == bytes@.len()
                    - rest.len(),
                Err(e) => r == Err::<SymbolMap, Error>(e),
            }),
            r is Err ==> *final(offset) == *old(offset),
    {
        let n = bytes.len();
        let start = *offset;
        if start > n || n - start < 4 {
            return Err(Error::Truncated);
        }
        let ghost whole = bytes@.skip(start as int);
        let count = get_u32(bytes, start);
        assert(bytes@.subrange(start as int, start + 4) =~= whole.subrange(0, 4));
        let mut pos: usize = start + 4;
        assert(bytes@.skip(pos as int) =~= whole.skip(4));
        let mut table = SymbolMap::new();
        let mut i: u32 = 0;
        while i < count
            invariant
                i <= count,
                n == bytes@.len(),
                pos <= n,
                *old(offset) <= n,
                *offset == *old(offset),
                whole == bytes@.skip(*old(offset) as int),
                parse_table(whole) == parse_entries(
                    bytes@.skip(pos as int),
                    (count - i) as nat,
                    table@,
                ),
            decreases count - i,
        {
            let ghost s = bytes@.skip(pos as int);
            assert(s.len() == n - pos);
            if n - pos < 8 {
                return Err(Error::Truncated);
            }
            let id = get_u32(bytes, pos);
            let len = get_u32(bytes, pos + 4) as usize;
            assert(bytes@.subrange(pos as int, pos + 4) =~= s.subrange(0, 4));
            assert(bytes@.subrange(pos + 4, pos + 8) =~= s.subrange(4, 8));
            assert(len == rd32(s, 4));
            assert(id == rd32(s, 0));
            if n - pos - 8 < len {
                return Err(Error::Truncated);
            }
            let mut raw: Vec<u8> = Vec::new();
            put_bytes(&mut raw, slice_subrange(bytes, pos + 8, pos + 8 + len));
            assert(raw@ =~= s.subrange(8, 8 + len));
            match string_from_utf8(raw) {
                None => {
                    return Err(Error::InvalidUtf8);
                },
                Some(ticker) => {
                    let ghost before = table@;
                    table.map.insert(id, ticker);
                    assert(table@ =~= before.insert(id, decode_utf8(s.subrange(8, 8 + len))));
                },
            }
            assert(bytes@.skip(pos + 8 + len) =~= s.skip(8 + len));
            pos = pos + 8 + len;
            i = i + 1;
        }
        *offset = pos;
        Ok(table)
    }
}

} // verus!
