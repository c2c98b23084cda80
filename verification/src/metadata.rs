//! The metadata block at the head of a stream: the schema, the time range,
//! and the table of symbols.

use crate::enums::Schema;
use crate::error::Error;
use crate::symbols::{
    fits_wire, lemma_table_round_trip, lists_ids, parse_table, table_bytes, SymbolMap,
};
use crate::wire::{get_u64, le64, lemma_fields, put_u64, rd64};
use vstd::prelude::*;

verus! {

/// The number of bytes of the metadata section of a stream. A block that is
/// shorter on the wire is followed by zero bytes up to this length.
pub const METADATA_LENGTH: usize = 100;

/// What describes a stream of records.
#[derive(Debug, PartialEq, Eq, Clone)]
pub struct Metadata {
    pub schema: Schema,
    pub start: u64,
    pub end: u64,
    pub mappings: SymbolMap,
}

/// A metadata block as plain values, its table as a map from id to text.
pub struct MetadataView {
    pub schema: Schema,
    pub start: u64,
    pub end: u64,
    pub mappings: Map<u32, Seq<char>>,
}

impl View for Metadata {
    type V = MetadataView;

    open spec fn view(&self) -> MetadataView {
        MetadataView {
            schema: self.schema,
            start: self.start,
            end: self.end,
            mappings: self.mappings@,
        }
    }
}

/// The block on the wire with the entries of its table in the given order:
/// the schema's tag, the start and the end, then the table.
pub open spec fn metadata_bytes(m: MetadataView, order: Seq<u32>) -> Seq<u8> {
    seq![m.schema.spec_as_u8()] + le64(m.start) + le64(m.end) + table_bytes(m.mappings, order)
}

/// Reads a block from the front of `s`; what follows the table is not
/// looked at. `Truncated` where `s` ends inside the block, `InvalidSchema`
/// where the first byte names no schema, `InvalidUtf8` where a ticker is
/// not UTF-8.
pub open spec fn parse_metadata(s: Seq<u8>) -> Result<MetadataView, Error> {
    if s.len() == 0 {
        Err(Error::Truncated)
    } else {
        match Schema::spec_from_u8(s[0]) {
            None => Err(Error::InvalidSchema),
            Some(schema) => if s.len() < 17 {
                Err(Error::Truncated)
            } else {
                match parse_table(s.skip(17)) {
                    Err(e) => Err(e),
                    Ok((mappings, _)) => Ok(
                        MetadataView { schema, start: rd64(s, 1), end: rd64(s, 9), mappings },
                    ),
                }
            },
        }
    }
}

/// A block whose table fits the wire, written with the entries in any order
/// and followed by anything, is read back as the same block: whatever the
/// schema, and whether or not the start lies before the end.
pub proof fn lemma_metadata_round_trip(m: MetadataView, order: Seq<u32>, tail: Seq<u8>)
    requires
        fits_wire(m.mappings),
        lists_ids(m.mappings, order),
    ensures
        parse_metadata(metadata_bytes(m, order) + tail) == Ok::<MetadataView, Error>(m),
{
    lemma_fields();
    let s = metadata_bytes(m, order) + tail;
    assert(s[0] == m.schema.spec_as_u8());
    assert(Schema::spec_from_u8(m.schema.spec_as_u8()) == Some(m.schema));
    assert(s.subrange(1, 9) =~= le64(m.start));
    assert(s.subrange(9, 17) =~= le64(m.end));
    assert(s.skip(17) =~= table_bytes(m.mappings, order) + tail);
    lemma_table_round_trip(m.mappings, order, tail);
}

impl Metadata {
    /// A block with the given fields.
    pub fn new(schema: Schema, start: u64, end: u64, mappings: SymbolMap) -> (r: Metadata)
        ensures
            r.schema == schema,
            r.start == start,
            r.end == end,
            r.mappings == mappings,
    {
        Metadata { schema, start, end, mappings }
    }

    /// The block on the wire, the entries of its table in some order that
    /// lists every id once.
    pub fn serialize(&self) -> (bytes: Vec<u8>)
        ensures
            exists|order: Seq<u32>|
                lists_ids(self@.mappings, order) && bytes@ == metadata_bytes(self@, order),
    {
        let mut bytes: Vec<u8> = Vec::new();
        bytes.push(self.schema.as_u8());
        put_u64(&mut bytes, self.start);
        put_u64(&mut bytes, self.end);
        let mut table = self.mappings.serialize();
        let ghost order = choose|order: Seq<u32>|
            lists_ids(self.mappings@, order) && table@ == table_bytes(self.mappings@, order);
        bytes.append(&mut table);
        assert(bytes@ =~= metadata_bytes(self@, order));
        bytes
    }

    /// Reads a block from the front of `bytes`, and fails where
    /// `parse_metadata` does.
    pub fn deserialize(bytes: &[u8]) -> (r: Result<Metadata, Error>)
        ensures
            match parse_metadata(bytes@) {
                Ok(v) => r matches Ok(m) && m@ == v,
                Err(e) => r == Err::<Metadata, Error>(e),
            },
    {
        if bytes.len() == 0 {
            return Err(Error::Truncated);
        }
        let schema = match Schema::from_u8(bytes[0]) {
            Some(s) => s,
            None => {
                return Err(Error::InvalidSchema);
            },
        };
        if bytes.len() < 17 {
            return Err(Error::Truncated);
        }
        let start = get_u64(bytes, 1);
        let end = get_u64(bytes, 9);
        let mut offset: usize = 17;
        match SymbolMap::deserialize(bytes, &mut offset) {
            Ok(mappings) => Ok(Metadata { schema, start, end, mappings }),
            Err(e) => Err(e),
        }
    }
}

} // verus!
