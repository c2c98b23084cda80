use mbn::enums::Schema;
use mbn::error::Error;
use mbn::metadata::Metadata;
use mbn::symbols::SymbolMap;

#[test]
fn test_metadata_encoding() {
    let mut symbol_map = SymbolMap::new();
    symbol_map.add_instrument("AAPL", 1);
    symbol_map.add_instrument("TSLA", 2);

    let metadata = Metadata::new(Schema::Ohlcv1S, 1234567898765, 123456765432, symbol_map);

    let bytes = metadata.serialize();
    let decoded = Metadata::deserialize(&bytes).expect("well-formed metadata");

    assert_eq!(metadata, decoded);
}

#[test]
fn metadata_round_trip_for_every_schema() {
    let schemas = [
        Schema::Mbp1,
        Schema::Ohlcv1S,
        Schema::Ohlcv1M,
        Schema::Ohlcv1H,
        Schema::Ohlcv1D,
        Schema::Trade,
        Schema::Tbbo,
        Schema::Bbo1S,
        Schema::Bbo1M,
    ];
    for schema in schemas {
        let mut symbol_map = SymbolMap::new();
        symbol_map.add_instrument("ZC.n.0", 7);
        let metadata = Metadata::new(schema, u64::MAX, 0, symbol_map);
        let bytes = metadata.serialize();
        assert_eq!(Metadata::deserialize(&bytes), Ok(metadata));
    }
}

#[test]
fn metadata_with_empty_table() {
    let metadata = Metadata::new(Schema::Tbbo, 1, 2, SymbolMap::new());
    let bytes = metadata.serialize();
    assert_eq!(
        bytes,
        vec![7, 1, 0, 0, 0, 0, 0, 0, 0, 2, 0, 0, 0, 0, 0, 0, 0, 0, 0, 0, 0]
    );
    assert_eq!(Metadata::deserialize(&bytes), Ok(metadata));
}

#[test]
fn metadata_errors() {
    assert_eq!(Metadata::deserialize(&[]), Err(Error::Truncated));
    assert_eq!(Metadata::deserialize(&[0u8; 30]), Err(Error::InvalidSchema));
    assert_eq!(Metadata::deserialize(&[10u8; 30]), Err(Error::InvalidSchema));
    assert_eq!(Metadata::deserialize(&[1u8; 16]), Err(Error::Truncated));
    assert_eq!(Metadata::deserialize(&[1u8; 17]), Err(Error::Truncated));
    // One entry is announced and none follows.
    let mut bytes = vec![1u8];
    bytes.extend_from_slice(&[0u8; 16]);
    bytes.extend_from_slice(&1u32.to_le_bytes());
    assert_eq!(Metadata::deserialize(&bytes), Err(Error::Truncated));
    // The ticker is announced with two bytes and has one.
    bytes.extend_from_slice(&5u32.to_le_bytes());
    bytes.extend_from_slice(&2u32.to_le_bytes());
    bytes.push(b'A');
    assert_eq!(Metadata::deserialize(&bytes), Err(Error::Truncated));
    // The ticker is not UTF-8.
    bytes.push(0xff);
    assert_eq!(Metadata::deserialize(&bytes), Err(Error::InvalidUtf8));
}

#[test]
fn error_messages() {
    assert_eq!(Error::Framing.message(), "record shorter than header");
    assert!(!Error::Conversion.message().is_empty());
    assert!(!Error::InvalidUtf8.message().is_empty());
}
