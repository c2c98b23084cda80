//! What holds of encoding and decoding taken together.

use crate::decode::{
    as_items, bytes_needed, decode_all, frame_len, frame_too_short, has_frame, lazy_items, prepend,
    pull_item, pull_rest, stream_bytes, stream_ends,
};
use crate::encode::{frames_bytes, section_bytes};
use crate::enums::RType;
use crate::error::Error;
use crate::metadata::{
    lemma_metadata_round_trip, metadata_bytes, parse_metadata, MetadataView, METADATA_LENGTH,
};
use crate::record_enum::RecordEnum;
use crate::record_ref::RecordRef;
use crate::symbols::{fits_wire, lists_ids};
use crate::wire::zeros;
use vstd::prelude::*;

verus! {

/// Whether the header of every record of `rs` agrees with its variant.
pub open spec fn all_wf(rs: Seq<RecordEnum>) -> bool {
    forall|i: int| 0 <= i < rs.len() ==> (#[trigger] rs[i]).wf()
}

/// Writing one more record appends its bytes.
pub proof fn lemma_stream_push(rs: Seq<RecordEnum>, r: RecordEnum)
    ensures
        stream_bytes(rs.push(r)) == stream_bytes(rs) + r.spec_bytes(),
    decreases rs.len(),
{
    if rs.len() == 0 {
        assert(rs.push(r).skip(1) =~= Seq::<RecordEnum>::empty());
        assert(stream_bytes(rs.push(r)) =~= r.spec_bytes() + stream_bytes(
            Seq::<RecordEnum>::empty(),
        ));
        assert(stream_bytes(rs.push(r)) =~= stream_bytes(rs) + r.spec_bytes());
    } else {
        lemma_stream_push(rs.skip(1), r);
        assert(rs.push(r).skip(1) =~= rs.skip(1).push(r));
        assert(stream_bytes(rs.push(r)) =~= stream_bytes(rs) + r.spec_bytes());
    }
}

/// A record in front of a stream is decoded first, and the stream behind it
/// is decoded as if it stood alone.
pub proof fn lemma_decode_first(r: RecordEnum, s: Seq<u8>)
    requires
        r.wf(),
    ensures
        has_frame(r.spec_bytes() + s),
        frame_len(r.spec_bytes() + s) == r.spec_bytes().len(),
        pull_item(r.spec_bytes() + s) == Some(Ok::<RecordEnum, Error>(r)),
        decode_all(r.spec_bytes() + s) == prepend(seq![r], decode_all(s)),
        lazy_items(r.spec_bytes() + s) == seq![Ok::<RecordEnum, Error>(r)] + lazy_items(s),
{
    let b = r.spec_bytes();
    let t = b + s;
    r.lemma_bytes_shape();
    r.lemma_round_trip();
    assert(t[0] == b[0]);
    assert(frame_len(t) == b.len());
    assert(t.take(frame_len(t)) =~= b);
    assert(t.skip(frame_len(t)) =~= s);
}

/// Records written one after the other and followed by any stream are
/// decoded in their order, whatever their number, and then the stream that
/// follows: its records, its clean end or its error.
pub proof fn lemma_decode_after(rs: Seq<RecordEnum>, s: Seq<u8>)
    requires
        all_wf(rs),
    ensures
        decode_all(stream_bytes(rs) + s) == prepend(rs, decode_all(s)),
        lazy_items(stream_bytes(rs) + s) == as_items(rs) + lazy_items(s),
    decreases rs.len(),
{
    if rs.len() == 0 {
        assert(stream_bytes(rs) + s =~= s);
        assert(as_items(rs) + lazy_items(s) =~= lazy_items(s));
        match decode_all(s) {
            Ok(v) => {
                assert(rs + v =~= v);
            },
            Err(_) => {},
        }
    } else {
        let r = rs[0];
        let rest = rs.skip(1);
        assert(r.wf());
        assert forall|i: int| 0 <= i < rest.len() implies (#[trigger] rest[i]).wf() by {
            assert(rest[i] == rs[i + 1]);
        }
        lemma_decode_after(rest, s);
        let tail = stream_bytes(rest) + s;
        assert(stream_bytes(rs) + s =~= r.spec_bytes() + tail);
        lemma_decode_first(r, tail);
        assert(as_items(rs) + lazy_items(s) =~= seq![Ok::<RecordEnum, Error>(r)] + (as_items(rest)
            + lazy_items(s)));
        match decode_all(s) {
            Ok(v) => {
                assert(seq![r] + (rest + v) =~= rs + v);
            },
            Err(_) => {},
        }
    }
}

/// Any number of records, encoded one after the other and decoded again,
/// come back as the same records in the same order, and the decoder stops
/// cleanly behind the last of them.
pub proof fn lemma_stream_round_trip(rs: Seq<RecordEnum>)
    requires
        all_wf(rs),
    ensures
        decode_all(stream_bytes(rs)) == Ok::<Seq<RecordEnum>, Error>(rs),
        lazy_items(stream_bytes(rs)) == as_items(rs),
{
    let e = Seq::<u8>::empty();
    lemma_decode_after(rs, e);
    assert(stream_bytes(rs) + e =~= stream_bytes(rs));
    assert(rs + Seq::<RecordEnum>::empty() =~= rs);
    assert(as_items(rs) + lazy_items(e) =~= as_items(rs));
}

/// An empty source holds no record and gives no error.
pub proof fn lemma_empty_stream()
    ensures
        decode_all(Seq::<u8>::empty()) == Ok::<Seq<RecordEnum>, Error>(Seq::empty()),
        lazy_items(Seq::<u8>::empty()) == Seq::<Result<RecordEnum, Error>>::empty(),
{
}

/// A frame that declares a length below the header size is a framing
/// error, whatever follows its length byte: nothing of it is parsed.
pub proof fn lemma_framing_floor(s: Seq<u8>)
    requires
        frame_too_short(s),
    ensures
        decode_all(s) == Err::<Seq<RecordEnum>, Error>(Error::Framing),
        lazy_items(s) == seq![Err::<RecordEnum, Error>(Error::Framing)],
{
}

/// A whole frame whose tag names no record type is an error: the frame is
/// not passed over.
pub proof fn lemma_unknown_type(s: Seq<u8>)
    requires
        has_frame(s),
        RType::spec_from_u8(s[1]) is None,
    ensures
        decode_all(s) == Err::<Seq<RecordEnum>, Error>(Error::Conversion),
        lazy_items(s) == seq![Err::<RecordEnum, Error>(Error::Conversion)],
{
    assert(s.take(frame_len(s))[1] == s[1]);
}

/// Pulling record by record yields what decoding the whole stream gives:
/// where the stream decodes, the same records in the same order; where it
/// does not, the same error as the last item.
pub proof fn lemma_lazy_matches_eager(s: Seq<u8>)
    ensures
        match decode_all(s) {
            Ok(v) => lazy_items(s) == as_items(v),
            Err(e) => lazy_items(s).len() > 0 && lazy_items(s).last() == Err::<RecordEnum, Error>(
                e,
            ),
        },
    decreases s.len(),
{
    if stream_ends(s) {
        assert(lazy_items(s) =~= as_items(Seq::<RecordEnum>::empty()));
    } else if frame_too_short(s) {
    } else {
        match RecordEnum::spec_from_bytes(s.take(frame_len(s))) {
            None => {},
            Some(r) => {
                let rest = s.skip(frame_len(s));
                lemma_lazy_matches_eager(rest);
                match decode_all(rest) {
                    Ok(v) => {
                        assert(lazy_items(s) =~= as_items(seq![r] + v));
                    },
                    Err(e) => {},
                }
            },
        }
    }
}

/// Once a source lacks no byte for its next pull, what that pull takes does
/// not depend on the bytes that arrive later: they are all left unread.
pub proof fn lemma_pull_stable(s: Seq<u8>, more: Seq<u8>)
    requires
        bytes_needed(s) == 0,
    ensures
        !stream_ends(s),
        pull_item(s + more) == pull_item(s),
        pull_rest(s + more) == pull_rest(s) + more,
{
    let t = s + more;
    assert(t[0] == s[0]);
    if frame_too_short(s) {
        assert(t.skip(1) =~= s.skip(1) + more);
    } else {
        assert(t.take(frame_len(t)) =~= s.take(frame_len(s)));
        assert(t.skip(frame_len(t)) =~= s.skip(frame_len(s)) + more);
    }
}

/// A metadata section written for a block that fits it and whose table
/// fits the wire has the length of the section, and the block is read back
/// from it whatever follows the section.
pub proof fn lemma_section_round_trip(m: MetadataView, order: Seq<u32>, tail: Seq<u8>)
    requires
        fits_wire(m.mappings),
        lists_ids(m.mappings, order),
        metadata_bytes(m, order).len() <= METADATA_LENGTH,
    ensures
        section_bytes(m, order).len() == METADATA_LENGTH,
        (section_bytes(m, order) + tail).skip(METADATA_LENGTH as int) == tail,
        parse_metadata((section_bytes(m, order) + tail).take(METADATA_LENGTH as int)) == Ok::<
            MetadataView,
            Error,
        >(m),
{
    let section = section_bytes(m, order);
    let pad = zeros((METADATA_LENGTH - metadata_bytes(m, order).len()) as nat);
    lemma_metadata_round_trip(m, order, pad);
    assert((section + tail).take(METADATA_LENGTH as int) =~= section);
    assert((section + tail).skip(METADATA_LENGTH as int) =~= tail);
}

/// Views of the bytes of records whose headers agree with their variants
/// are written as those records are: frame by frame, nothing cut off.
pub proof fn lemma_frames_of_records(views: Seq<RecordRef<'_>>, rs: Seq<RecordEnum>)
    requires
        all_wf(rs),
        views.len() == rs.len(),
        forall|i: int| 0 <= i < rs.len() ==> (#[trigger] views[i])@ == rs[i].spec_bytes(),
    ensures
        frames_bytes(views) == stream_bytes(rs),
    decreases rs.len(),
{
    if rs.len() > 0 {
        let r = rs.last();
        let v = views.last();
        assert(r.wf());
        assert(v@ == r.spec_bytes());
        r.lemma_bytes_shape();
        assert(v@.take(frame_len(v@)) =~= r.spec_bytes());
        lemma_frames_of_records(views.drop_last(), rs.drop_last());
        lemma_stream_push(rs.drop_last(), r);
        assert(rs.drop_last().push(r) =~= rs);
    }
}

/// A metadata section followed by records is decoded as that block and
/// those records: the section is read from the front of the stream and the
/// records from behind it.
pub proof fn lemma_combined_round_trip(m: MetadataView, order: Seq<u32>, rs: Seq<RecordEnum>)
    requires
        fits_wire(m.mappings),
        lists_ids(m.mappings, order),
        metadata_bytes(m, order).len() <= METADATA_LENGTH,
        all_wf(rs),
    ensures
        ({
            let s = section_bytes(m, order) + stream_bytes(rs);
            &&& s.len() >= METADATA_LENGTH
            &&& parse_metadata(s.take(METADATA_LENGTH as int)) == Ok::<MetadataView, Error>(m)
            &&& decode_all(s.skip(METADATA_LENGTH as int)) == Ok::<Seq<RecordEnum>, Error>(rs)
        }),
{
    lemma_section_round_trip(m, order, stream_bytes(rs));
    lemma_stream_round_trip(rs);
}

} // verus!
