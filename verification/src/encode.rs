//! Encoding: records and the metadata section, appended to a buffer.

use crate::decode::{frame_len, stream_bytes};
use crate::error::Error;
use crate::laws::lemma_stream_push;
use crate::metadata::{metadata_bytes, Metadata, MetadataView, METADATA_LENGTH};
use crate::record_enum::RecordEnum;
use crate::record_ref::RecordRef;
use crate::symbols::lists_ids;
use crate::wire::{put_bytes, put_zeros, zeros};
use vstd::prelude::*;

verus! {

/// The frames of the views `records`, one after the other.
pub open spec fn frames_bytes(records: Seq<RecordRef<'_>>) -> Seq<u8>
    decreases records.len(),
{
    if records.len() == 0 {
        Seq::empty()
    } else {
        frames_bytes(records.drop_last()) + records.last()@.take(frame_len(records.last()@))
    }
}

/// The metadata section for `m` with the entries of its table in the
/// given order: the block, then zero bytes up to the length of the section.
pub open spec fn section_bytes(m: MetadataView, order: Seq<u32>) -> Seq<u8> {
    metadata_bytes(m, order) + zeros((METADATA_LENGTH - metadata_bytes(m, order).len()) as nat)
}

/// What writing the metadata section for `m` does to a buffer: where the
/// block fits the section, the section is appended; where it does not, the
/// buffer stays as it is and the error says so. The entries of the table
/// stand in some order that lists every id once.
pub open spec fn section_written(
    m: MetadataView,
    before: Seq<u8>,
    r: Result<(), Error>,
    after: Seq<u8>,
) -> bool {
    exists|order: Seq<u32>|
        lists_ids(m.mappings, order) && (if (#[trigger] metadata_bytes(m, order)).len()
            <= METADATA_LENGTH {
            r is Ok && after == before + section_bytes(m, order)
        } else {
            r == Err::<(), Error>(Error::MetadataTooLong) && after == before
        })
}

fn write_records(writer: &mut Vec<u8>, records: &[RecordRef<'_>])
    ensures
        final(writer)@ == old(writer)@ + frames_bytes(records@),
{
    let mut i: usize = 0;
    assert(writer@ =~= old(writer)@ + frames_bytes(records@.take(0)));
    while i < records.len()
        invariant
            i <= records@.len(),
            writer@ == old(writer)@ + frames_bytes(records@.take(i as int)),
        decreases records@.len() - i,
    {
        put_bytes(writer, records[i].as_ref());
        proof {
            let next = records@.take(i + 1);
            assert(next.drop_last() =~= records@.take(i as int));
            assert(next.last() == records@[i as int]);
            assert(writer@ =~= old(writer)@ + frames_bytes(next));
        }
        i = i + 1;
    }
    assert(records@.take(records@.len() as int) =~= records@);
}

fn write_metadata(writer: &mut Vec<u8>, metadata: &Metadata) -> (r: Result<(), Error>)
    ensures
        section_written(metadata@, old(writer)@, r, final(writer)@),
{
    let mut bytes = metadata.serialize();
    let ghost order = choose|order: Seq<u32>|
        lists_ids(metadata@.mappings, order) && bytes@ == metadata_bytes(metadata@, order);
    if bytes.len() > METADATA_LENGTH {
        return Err(Error::MetadataTooLong);
    }
    let pad = METADATA_LENGTH - bytes.len();
    put_zeros(&mut bytes, pad);
    writer.append(&mut bytes);
    assert(writer@ == old(writer)@ + section_bytes(metadata@, order));
    Ok(())
}

/// Appends records to a buffer.
pub struct RecordEncoder {
    writer: Vec<u8>,
}

impl View for RecordEncoder {
    type V = Seq<u8>;

    /// The bytes of the buffer.
    closed spec fn view(&self) -> Seq<u8> {
        self.writer@
    }
}

impl RecordEncoder {
    /// An encoder that appends to `writer`.
    pub fn new(writer: Vec<u8>) -> (r: RecordEncoder)
        ensures
            r@ == writer@,
    {
        RecordEncoder { writer }
    }

    /// Appends the frame of one view.
    pub fn encode_record(&mut self, record: &RecordRef<'_>)
        ensures
            final(self)@ == old(self)@ + record@.take(frame_len(record@)),
    {
        put_bytes(&mut self.writer, record.as_ref());
    }

    /// Appends the frames of the views in order.
    pub fn encode_records(&mut self, records: &[RecordRef<'_>])
        ensures
            final(self)@ == old(self)@ + frames_bytes(records@),
    {
        write_records(&mut self.writer, records);
    }

    /// Appends the bytes of the records in order.
    pub fn encode_owned(&mut self, records: &[RecordEnum])
        ensures
            final(self)@ == old(self)@ + stream_bytes(records@),
    {
        let mut i: usize = 0;
        assert(self@ =~= old(self)@ + stream_bytes(records@.take(0)));
        while i < records.len()
            invariant
                i <= records@.len(),
                self@ == old(self)@ + stream_bytes(records@.take(i as int)),
            decreases records@.len() - i,
        {
            let mut b = records[i].to_bytes();
            self.writer.append(&mut b);
            proof {
                lemma_stream_push(records@.take(i as int), records@[i as int]);
                assert(records@.take(i + 1) =~= records@.take(i as int).push(records@[i as int]));
                assert(self@ =~= old(self)@ + stream_bytes(records@.take(i + 1)));
            }
            i = i + 1;
        }
        assert(records@.take(records@.len() as int) =~= records@);
    }

    /// The buffer with what was appended.
    pub fn into_inner(self) -> (writer: Vec<u8>)
        ensures
            writer@ == self@,
    {
        self.writer
    }
}

/// Appends the metadata section to a buffer.
pub struct MetadataEncoder {
    writer: Vec<u8>,
}

impl View for MetadataEncoder {
    type V = Seq<u8>;

    /// The bytes of the buffer.
    closed spec fn view(&self) -> Seq<u8> {
        self.writer@
    }
}

impl MetadataEncoder {
    /// An encoder that appends to `writer`.
    pub fn new(writer: Vec<u8>) -> (r: MetadataEncoder)
        ensures
            r@ == writer@,
    {
        MetadataEncoder { writer }
    }

    /// Appends the metadata section for `metadata`. Where the block is
    /// longer than the section, nothing is appended and the error says so.
    pub fn encode_metadata(&mut self, metadata: &Metadata) -> (r: Result<(), Error>)
        ensures
            section_written(metadata@, old(self)@, r, final(self)@),
    {
        write_metadata(&mut self.writer, metadata)
    }

    /// The buffer with what was appended.
    pub fn into_inner(self) -> (writer: Vec<u8>)
        ensures
            writer@ == self@,
    {
        self.writer
    }
}

/// Appends a metadata section and the records behind it to a buffer.
pub struct CombinedEncoder {
    writer: Vec<u8>,
}

impl View for CombinedEncoder {
    type V = Seq<u8>;

    /// The bytes of the buffer.
    closed spec fn view(&self) -> Seq<u8> {
        self.writer@
    }
}

impl CombinedEncoder {
    /// An encoder that appends to `writer`.
    pub fn new(writer: Vec<u8>) -> (r: CombinedEncoder)
        ensures
            r@ == writer@,
    {
        CombinedEncoder { writer }
    }

    /// Appends the metadata section for `metadata`.
    pub fn encode_metadata(&mut self, metadata: &Metadata) -> (r: Result<(), Error>)
        ensures
            section_written(metadata@, old(self)@, r, final(self)@),
    {
        write_metadata(&mut self.writer, metadata)
    }

    /// Appends the frames of the views in order.
    pub fn encode_records(&mut self, records: &[RecordRef<'_>])
        ensures
            final(self)@ == old(self)@ + frames_bytes(records@),
    {
        write_records(&mut self.writer, records);
    }

    /// Appends the metadata section, then the frames. Where the block is
    /// longer than the section, nothing is appended.
    pub fn encode(&mut self, metadata: &Metadata, records: &[RecordRef<'_>]) -> (r: Result<
        (),
        Error,
    >)
        ensures
            match r {
                Ok(_) => exists|mid: Seq<u8>|
                    section_written(metadata@, old(self)@, r, mid) && final(self)@ == mid
                        + frames_bytes(records@),
                Err(_) => section_written(metadata@, old(self)@, r, final(self)@),
            },
    {
        match write_metadata(&mut self.writer, metadata) {
            Err(e) => Err(e),
            Ok(_) => {
                let ghost mid = self.writer@;
                write_records(&mut self.writer, records);
                assert(section_written(metadata@, old(self)@, Ok::<(), Error>(()), mid));
                Ok(())
            },
        }
    }

    /// The buffer with what was appended.
    pub fn into_inner(self) -> (writer: Vec<u8>)
        ensures
            writer@ == self@,
    {
        self.writer
    }
}

} // verus!
