use mbn::decode::{CombinedDecoder, MetadataDecoder, RecordDecoder};
use mbn::encode::{CombinedEncoder, MetadataEncoder, RecordEncoder};
use mbn::enums::{RType, Schema};
use mbn::error::Error;
use mbn::metadata::{Metadata, METADATA_LENGTH};
use mbn::record_enum::RecordEnum;
use mbn::record_ref::RecordRef;
use mbn::records::{HasRType, OhlcvMsg, RecordHeader};
use mbn::source::ByteSource;
use mbn::symbols::SymbolMap;

fn first_bar() -> OhlcvMsg {
    OhlcvMsg {
        hd: RecordHeader::new::<OhlcvMsg>(1, 1622471124),
        open: 100,
        high: 200,
        low: 50,
        close: 150,
        volume: 1000,
    }
}

fn second_bar() -> OhlcvMsg {
    OhlcvMsg {
        hd: RecordHeader::new::<OhlcvMsg>(2, 1622471125),
        open: 110,
        high: 210,
        low: 55,
        close: 155,
        volume: 1100,
    }
}

fn bytes_of(msg: &OhlcvMsg) -> Vec<u8> {
    let mut data = Vec::new();
    msg.encode(&mut data);
    data
}

#[test]
fn test_decode_record() {
    let ohlcv_msg = first_bar();
    let data = bytes_of(&ohlcv_msg);

    let cursor = ByteSource::new(data.to_vec());
    let mut decoder = RecordDecoder::new(cursor);

    let result = decoder.decode_to_owned().expect("Error decoding.");

    if let Some(RecordEnum::Ohlcv(msg)) = result.get(0) {
        assert_eq!(msg.open, 100);
        assert_eq!(msg.high, 200);
        assert_eq!(msg.low, 50);
        assert_eq!(msg.close, 150);
        assert_eq!(msg.volume, 1000);
    } else {
        panic!("Failed to decode record");
    }
}

#[test]
fn test_decode_record_ref() {
    let ohlcv_msg = first_bar();
    let data = bytes_of(&ohlcv_msg);

    let cursor = ByteSource::new(data.to_vec());
    let mut decoder = RecordDecoder::new(cursor);

    let result = decoder.decode_ref();

    assert!(result.is_ok());
    if let Some(record_ref) = result.unwrap() {
        let header = record_ref.header();
        assert_eq!(header.instrument_id, 1);
        assert_eq!(header.ts_event, 1622471124);
        assert_eq!(header.rtype, RType::Ohlcv.as_u8());
    } else {
        panic!("Failed to decode record reference");
    }
}

#[test]
fn test_encode_decode_records() {
    let ohlcv_msg1 = first_bar();
    let ohlcv_msg2 = second_bar();

    let mut scratch1 = Vec::new();
    let mut scratch2 = Vec::new();
    let buffer = {
        let mut encoder = RecordEncoder::new(Vec::new());
        let record_ref1: RecordRef = RecordRef::from_record(&ohlcv_msg1, &mut scratch1);
        let record_ref2: RecordRef = RecordRef::from_record(&ohlcv_msg2, &mut scratch2);
        encoder.encode_records(&[record_ref1, record_ref2]);
        encoder.into_inner()
    };

    let cursor = ByteSource::new(buffer);
    let mut decoder = RecordDecoder::new(cursor);

    let decoded_records: Vec<RecordEnum> = decoder.decode_to_owned().expect("Decoding failed");

    assert_eq!(decoded_records.len(), 2);
    assert_eq!(decoded_records[0], RecordEnum::Ohlcv(ohlcv_msg1));
    assert_eq!(decoded_records[1], RecordEnum::Ohlcv(ohlcv_msg2));
}

#[test]
fn test_decode_metadata() {
    let mut symbol_map = SymbolMap::new();
    symbol_map.add_instrument("AAPL", 1);
    symbol_map.add_instrument("TSLA", 2);

    let metadata = Metadata::new(Schema::Ohlcv1S, 1234567898765, 123456765432, symbol_map);

    let mut encoder = MetadataEncoder::new(Vec::new());
    encoder
        .encode_metadata(&metadata)
        .expect("Error metadata encoding.");
    let buffer = encoder.into_inner();

    let cursor = ByteSource::new(buffer);
    let mut decoder = MetadataDecoder::new(cursor);
    let decoded = decoder.decode().expect("Error decoding metadata.").unwrap();

    assert_eq!(decoded.schema, metadata.schema);
    assert_eq!(decoded.start, metadata.start);
    assert_eq!(decoded.end, metadata.end);
    assert_eq!(decoded.mappings, metadata.mappings);
}

#[test]
fn test_decode() {
    let mut symbol_map = SymbolMap::new();
    symbol_map.add_instrument("AAPL", 1);
    symbol_map.add_instrument("TSLA", 2);

    let metadata = Metadata::new(Schema::Ohlcv1S, 1234567898765, 123456765432, symbol_map);

    let ohlcv_msg1 = first_bar();
    let ohlcv_msg2 = second_bar();

    let mut scratch1 = Vec::new();
    let mut scratch2 = Vec::new();
    let record_ref1: RecordRef = RecordRef::from_record(&ohlcv_msg1, &mut scratch1);
    let record_ref2: RecordRef = RecordRef::from_record(&ohlcv_msg2, &mut scratch2);
    let records = &[record_ref1, record_ref2];

    let mut encoder = CombinedEncoder::new(Vec::new());
    encoder
        .encode(&metadata, records)
        .expect("Error on encoding");
    let buffer = encoder.into_inner();

    let cursor = ByteSource::new(buffer);
    let mut decoder = CombinedDecoder::new(cursor);
    let decoded = decoder.decode().expect("Error decoding metadata.");

    assert_eq!(decoded.0.unwrap(), metadata);
    assert_eq!(
        decoded.1,
        [RecordEnum::Ohlcv(ohlcv_msg1), RecordEnum::Ohlcv(ohlcv_msg2)]
    );
}

#[test]
fn test_iter_decode() {
    let ohlcv_msg1 = first_bar();
    let ohlcv_msg2 = second_bar();

    let mut scratch1 = Vec::new();
    let mut scratch2 = Vec::new();
    let buffer = {
        let mut encoder = RecordEncoder::new(Vec::new());
        let record_ref1: RecordRef = RecordRef::from_record(&ohlcv_msg1, &mut scratch1);
        let record_ref2: RecordRef = RecordRef::from_record(&ohlcv_msg2, &mut scratch2);
        encoder.encode_records(&[record_ref1, record_ref2]);
        encoder.into_inner()
    };

    let cursor = ByteSource::new(buffer);
    let mut decoder = RecordDecoder::new(cursor);
    let mut iter = decoder.decode_iterator();

    let mut i = 0;
    while let Some(record) = iter.next() {
        match record {
            Ok(record) => {
                if i == 0 {
                    assert_eq!(record, RecordEnum::Ohlcv(ohlcv_msg1.clone()));
                } else {
                    assert_eq!(record, RecordEnum::Ohlcv(ohlcv_msg2.clone()));
                }
                i = i + 1;
            }
            Err(e) => {
                panic!("Error processing record: {:?}", e);
            }
        }
    }
    assert_eq!(i, 2);
}

#[test]
fn ohlcv_bytes_are_exact() {
    let data = bytes_of(&first_bar());
    let mut expected: Vec<u8> = vec![14, 2, 0, 0, 1, 0, 0, 0];
    expected.extend_from_slice(&1622471124u64.to_le_bytes());
    expected.extend_from_slice(&100i64.to_le_bytes());
    expected.extend_from_slice(&200i64.to_le_bytes());
    expected.extend_from_slice(&50i64.to_le_bytes());
    expected.extend_from_slice(&150i64.to_le_bytes());
    expected.extend_from_slice(&1000u64.to_le_bytes());
    assert_eq!(data.len(), 56);
    assert_eq!(data, expected);
}

#[test]
fn bar_decodes_to_every_field() {
    let data = bytes_of(&first_bar());
    let mut decoder = RecordDecoder::new(ByteSource::new(data));
    let records = decoder.decode_to_owned().unwrap();
    assert_eq!(records.len(), 1);
    match records[0] {
        RecordEnum::Ohlcv(msg) => {
            assert_eq!(msg.hd.instrument_id, 1);
            assert_eq!(msg.hd.ts_event, 1622471124);
            assert_eq!(msg.open, 100);
            assert_eq!(msg.high, 200);
            assert_eq!(msg.low, 50);
            assert_eq!(msg.close, 150);
            assert_eq!(msg.volume, 1000);
            assert_eq!(msg.hd.length, 14);
            assert_eq!(msg.hd.record_size(), OhlcvMsg::size());
        }
        _ => panic!("wrong variant"),
    }
}

#[test]
fn negative_fields_round_trip() {
    let msg = OhlcvMsg {
        hd: RecordHeader::new::<OhlcvMsg>(u32::MAX, u64::MAX),
        open: i64::MIN,
        high: -1,
        low: i64::MAX,
        close: 0,
        volume: u64::MAX,
    };
    let mut decoder = RecordDecoder::new(ByteSource::new(bytes_of(&msg)));
    assert_eq!(decoder.decode_to_owned(), Ok(vec![RecordEnum::Ohlcv(msg)]));
}

#[test]
fn empty_source_yields_no_record() {
    let mut decoder = RecordDecoder::new(ByteSource::new(Vec::new()));
    assert_eq!(decoder.decode_to_owned(), Ok(Vec::new()));
    let mut decoder = RecordDecoder::new(ByteSource::new(Vec::new()));
    assert!(matches!(decoder.decode_ref(), Ok(None)));
    let mut decoder = RecordDecoder::new(ByteSource::new(Vec::new()));
    let mut iter = decoder.decode_iterator();
    assert_eq!(iter.next(), None);
    assert_eq!(iter.next(), None);
}

#[test]
fn frame_below_header_size_is_a_framing_error() {
    let mut data = vec![3u8];
    data.extend_from_slice(&[0u8; 40]);
    let mut decoder = RecordDecoder::new(ByteSource::new(data.clone()));
    assert_eq!(decoder.decode_to_owned(), Err(Error::Framing));
    let mut decoder = RecordDecoder::new(ByteSource::new(data.clone()));
    assert!(matches!(decoder.decode_ref(), Err(Error::Framing)));
    let mut decoder = RecordDecoder::new(ByteSource::new(vec![0u8]));
    assert_eq!(decoder.decode_to_owned(), Err(Error::Framing));
}

#[test]
fn framing_error_after_a_good_record_drops_the_stream() {
    let mut data = bytes_of(&first_bar());
    data.push(1);
    data.extend_from_slice(&[0u8; 3]);
    let mut decoder = RecordDecoder::new(ByteSource::new(data.clone()));
    assert_eq!(decoder.decode_to_owned(), Err(Error::Framing));

    let mut decoder = RecordDecoder::new(ByteSource::new(data));
    let mut iter = decoder.decode_iterator();
    assert_eq!(iter.next(), Some(Ok(RecordEnum::Ohlcv(first_bar()))));
    assert_eq!(iter.next(), Some(Err(Error::Framing)));
    assert_eq!(iter.next(), None);
}

#[test]
fn unknown_record_type_is_rejected() {
    let mut data = bytes_of(&first_bar());
    data[1] = 99;
    let mut decoder = RecordDecoder::new(ByteSource::new(data.clone()));
    assert_eq!(decoder.decode_to_owned(), Err(Error::Conversion));
    let mut decoder = RecordDecoder::new(ByteSource::new(data));
    let items = decoder.decode_iterator().collect();
    assert_eq!(items, vec![Err(Error::Conversion)]);
}

#[test]
fn frame_too_short_for_its_type_is_rejected() {
    // A bar is 56 bytes; a frame of 48 bytes that claims to be a book update of 80 is not one.
    let mut data = bytes_of(&first_bar());
    data.truncate(48);
    data[0] = 12;
    data[1] = RType::Mbp1.as_u8();
    let mut decoder = RecordDecoder::new(ByteSource::new(data));
    assert_eq!(decoder.decode_to_owned(), Err(Error::Conversion));
}

#[test]
fn truncated_last_frame_ends_the_stream() {
    let mut data = bytes_of(&first_bar());
    let second = bytes_of(&second_bar());
    data.extend_from_slice(&second[..30]);
    let mut decoder = RecordDecoder::new(ByteSource::new(data.clone()));
    assert_eq!(
        decoder.decode_to_owned(),
        Ok(vec![RecordEnum::Ohlcv(first_bar())])
    );
    let mut decoder = RecordDecoder::new(ByteSource::new(data));
    let items = decoder.decode_iterator().collect();
    assert_eq!(items, vec![Ok(RecordEnum::Ohlcv(first_bar()))]);
}

#[test]
fn lazy_and_eager_agree() {
    let records = vec![
        RecordEnum::Ohlcv(first_bar()),
        RecordEnum::Ohlcv(second_bar()),
        RecordEnum::Ohlcv(first_bar()),
    ];
    let mut encoder = RecordEncoder::new(Vec::new());
    encoder.encode_owned(&records);
    let buffer = encoder.into_inner();
    assert_eq!(buffer.len(), 3 * 56);

    let mut eager = RecordDecoder::new(ByteSource::new(buffer.clone()));
    let all = eager.decode_to_owned().unwrap();
    let mut lazy = RecordDecoder::new(ByteSource::new(buffer));
    let items = lazy.decode_iterator().collect();
    let expected: Vec<Result<RecordEnum, Error>> = all.iter().map(|r| Ok(*r)).collect();
    assert_eq!(items, expected);
    assert_eq!(all, records);
}

#[test]
fn decode_iterator_takes_the_rest_of_the_stream() {
    let mut data = bytes_of(&first_bar());
    data.extend_from_slice(&bytes_of(&second_bar()));
    let mut decoder = RecordDecoder::new(ByteSource::new(data));
    assert_eq!(decoder.decode_one(), Some(Ok(RecordEnum::Ohlcv(first_bar()))));
    let items = decoder.decode_iterator().collect();
    assert_eq!(items, vec![Ok(RecordEnum::Ohlcv(second_bar()))]);
    assert_eq!(decoder.decode_one(), None);
}

#[test]
fn metadata_section_has_fixed_length() {
    let metadata = Metadata::new(Schema::Mbp1, 5, 3, SymbolMap::new());
    let mut encoder = MetadataEncoder::new(Vec::new());
    encoder.encode_metadata(&metadata).unwrap();
    let buffer = encoder.into_inner();
    assert_eq!(buffer.len(), METADATA_LENGTH);
    assert_eq!(&buffer[..21], &[1, 5, 0, 0, 0, 0, 0, 0, 0, 3, 0, 0, 0, 0, 0, 0, 0, 0, 0, 0, 0]);
    assert!(buffer[21..].iter().all(|b| *b == 0));
}

#[test]
fn metadata_longer_than_the_section_is_refused() {
    let mut symbol_map = SymbolMap::new();
    for id in 0..10u32 {
        symbol_map.add_instrument("A-LONG-TICKER", id);
    }
    let metadata = Metadata::new(Schema::Trade, 1, 2, symbol_map);
    let mut encoder = MetadataEncoder::new(vec![7u8]);
    assert_eq!(encoder.encode_metadata(&metadata), Err(Error::MetadataTooLong));
    assert_eq!(encoder.into_inner(), vec![7u8]);
}

#[test]
fn metadata_decoder_needs_the_whole_section() {
    let mut decoder = MetadataDecoder::new(ByteSource::new(vec![1u8; 99]));
    assert_eq!(decoder.decode(), Err(Error::Truncated));
    let mut decoder = CombinedDecoder::new(ByteSource::new(Vec::new()));
    assert_eq!(decoder.decode(), Err(Error::Truncated));
}

#[test]
fn combined_decoder_with_no_record() {
    let metadata = Metadata::new(Schema::Bbo1M, 9, 10, SymbolMap::new());
    let mut encoder = CombinedEncoder::new(Vec::new());
    encoder.encode(&metadata, &[]).unwrap();
    let mut decoder = CombinedDecoder::new(ByteSource::new(encoder.into_inner()));
    assert_eq!(decoder.decode(), Ok((Some(metadata), Vec::new())));
}

#[test]
fn byte_source_reads_exactly_or_not_at_all() {
    let mut source = ByteSource::new(vec![1, 2, 3, 4, 5]);
    let mut buf = vec![9u8];
    assert!(source.read_exact(&mut buf, 2));
    assert_eq!(buf, vec![9, 1, 2]);
    assert_eq!(source.remaining(), 3);
    assert!(!source.read_exact(&mut buf, 4));
    assert_eq!(buf, vec![9, 1, 2]);
    assert_eq!(source.remaining(), 0);
}

#[test]
fn records_arrive_in_parts() {
    let mut data = bytes_of(&first_bar());
    data.extend_from_slice(&bytes_of(&second_bar()));
    let mut decoder = RecordDecoder::new(ByteSource::new(Vec::new()));
    assert_eq!(decoder.needs(), 1);
    decoder.feed(&data[..1]);
    assert_eq!(decoder.needs(), 55);
    decoder.feed(&data[1..40]);
    assert_eq!(decoder.needs(), 16);
    decoder.feed(&data[40..60]);
    assert_eq!(decoder.needs(), 0);
    assert_eq!(decoder.decode_one(), Some(Ok(RecordEnum::Ohlcv(first_bar()))));
    assert_eq!(decoder.needs(), 52);
    decoder.feed(&data[60..]);
    assert_eq!(decoder.needs(), 0);
    assert_eq!(decoder.decode_one(), Some(Ok(RecordEnum::Ohlcv(second_bar()))));
    assert_eq!(decoder.needs(), 1);
    decoder.feed(&[2u8]);
    assert_eq!(decoder.needs(), 0);
    assert_eq!(decoder.decode_one(), Some(Err(Error::Framing)));
}

#[test]
fn iterator_gives_the_source_back() {
    let mut data = bytes_of(&first_bar());
    data.extend_from_slice(&[14, 2, 0]);
    let mut decoder = RecordDecoder::new(ByteSource::new(data));
    let mut iter = decoder.decode_iterator();
    assert_eq!(iter.next(), Some(Ok(RecordEnum::Ohlcv(first_bar()))));
    let mut rest = iter.into_inner();
    assert_eq!(rest.remaining(), 3);
    assert_eq!(rest.peek(), Some(14));
    rest.extend(&[7]);
    assert_eq!(rest.remaining(), 4);
}
