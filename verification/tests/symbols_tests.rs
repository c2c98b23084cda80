use mbn::error::Error;
use mbn::symbols::{Instrument, SymbolMap, Vendors};

#[test]
fn test_instrument() {
    let ticker = "AAPL";
    let name = "Apple Inc.";
    let instrument = Instrument::new(
        None,
        ticker,
        name,
        Vendors::Databento,
        Some("continuous".to_string()),
        Some("GLBX.MDP3".to_string()),
        1,
        1,
        true,
    );

    assert_eq!(instrument.ticker, ticker);
    assert_eq!(instrument.name, name);
    assert_eq!(instrument.instrument_id, None);

    println!("{:?}", instrument);
}

#[test]
fn test_symbol_map() {
    let appl = "AAPL";
    let tsla = "TSLA";

    let mut symbol_map = SymbolMap::new();
    symbol_map.add_instrument(appl, 1);
    symbol_map.add_instrument(tsla, 2);

    let ticker1 = symbol_map.get_instrument_ticker(1).unwrap();
    assert_eq!(&ticker1, appl);

    let ticker2 = symbol_map.get_instrument_ticker(2).unwrap();
    assert_eq!(&ticker2, tsla);
}

#[test]
fn instrument_keeps_every_field() {
    let instrument = Instrument::new(
        Some(4),
        "ES",
        "E-mini",
        Vendors::Yfinance,
        None,
        Some("set".to_string()),
        20,
        10,
        false,
    );
    assert_eq!(instrument.instrument_id, Some(4));
    assert_eq!(instrument.vendor, "yfinance");
    assert_eq!(instrument.stype, None);
    assert_eq!(instrument.dataset, Some("set".to_string()));
    assert_eq!(instrument.last_available, 20);
    assert_eq!(instrument.first_available, 10);
    assert!(!instrument.active);
    assert_eq!(Vendors::Databento.into(), "databento");
}

#[test]
fn symbol_table_survives_the_wire_and_merges() {
    let mut symbol_map = SymbolMap::new();
    symbol_map.add_instrument("AAPL", 1);
    symbol_map.add_instrument("TSLA", 2);

    let bytes = symbol_map.serialize();
    let mut offset = 0usize;
    let decoded = SymbolMap::deserialize(&bytes, &mut offset).unwrap();
    assert_eq!(offset, bytes.len());
    assert_eq!(decoded.get_instrument_ticker(1), Some("AAPL".to_string()));
    assert_eq!(decoded.get_instrument_ticker(2), Some("TSLA".to_string()));
    assert_eq!(decoded.get_instrument_ticker(3), None);
    assert_eq!(decoded, symbol_map);

    let mut second = SymbolMap::new();
    second.add_instrument("TSLA2", 2);
    let mut merged = decoded;
    merged.merge(&second);
    assert_eq!(merged.get_instrument_ticker(2), Some("TSLA2".to_string()));
    assert_eq!(merged.get_instrument_ticker(1), Some("AAPL".to_string()));
    assert_eq!(merged.map.len(), 2);
}

#[test]
fn add_instrument_overwrites() {
    let mut symbol_map = SymbolMap::new();
    symbol_map.add_instrument("OLD", 5);
    symbol_map.add_instrument("NEW", 5);
    assert_eq!(symbol_map.get_instrument_ticker(5), Some("NEW".to_string()));
    assert_eq!(symbol_map.map.len(), 1);
}

#[test]
fn merge_is_right_biased() {
    let mut left = SymbolMap::new();
    left.add_instrument("A", 1);
    left.add_instrument("B", 2);
    let mut right = SymbolMap::new();
    right.add_instrument("C", 2);
    right.add_instrument("D", 3);
    left.merge(&right);
    assert_eq!(left.get_instrument_ticker(1), Some("A".to_string()));
    assert_eq!(left.get_instrument_ticker(2), Some("C".to_string()));
    assert_eq!(left.get_instrument_ticker(3), Some("D".to_string()));
    assert_eq!(right.map.len(), 2);
    let mut same = SymbolMap::new();
    same.merge(&SymbolMap::new());
    assert_eq!(same, SymbolMap::new());
}

#[test]
fn symbol_map_bytes_are_exact() {
    assert_eq!(SymbolMap::new().serialize(), vec![0, 0, 0, 0]);
    let mut symbol_map = SymbolMap::new();
    symbol_map.add_instrument("é1", 258);
    assert_eq!(
        symbol_map.serialize(),
        vec![1, 0, 0, 0, 2, 1, 0, 0, 3, 0, 0, 0, 0xc3, 0xa9, b'1']
    );
}

#[test]
fn deserialize_moves_the_shared_offset() {
    let mut bytes = vec![9u8, 9, 9];
    bytes.extend_from_slice(&[2, 0, 0, 0]);
    bytes.extend_from_slice(&[7, 0, 0, 0, 2, 0, 0, 0, b'E', b'S']);
    bytes.extend_from_slice(&[7, 0, 0, 0, 3, 0, 0, 0, b'N', b'Q', b'!']);
    bytes.extend_from_slice(&[1, 2, 3]);
    let mut offset = 3usize;
    let decoded = SymbolMap::deserialize(&bytes, &mut offset).unwrap();
    assert_eq!(offset, bytes.len() - 3);
    // The later entry for an id replaces the earlier one.
    assert_eq!(decoded.get_instrument_ticker(7), Some("NQ!".to_string()));
    assert_eq!(decoded.map.len(), 1);
}

#[test]
fn deserialize_errors() {
    let mut offset = 0usize;
    assert_eq!(SymbolMap::deserialize(&[], &mut offset), Err(Error::Truncated));
    let mut offset = 0usize;
    assert_eq!(SymbolMap::deserialize(&[1, 0, 0], &mut offset), Err(Error::Truncated));
    let mut offset = 9usize;
    assert_eq!(SymbolMap::deserialize(&[0, 0, 0, 0], &mut offset), Err(Error::Truncated));
    let mut offset = 0usize;
    assert_eq!(
        SymbolMap::deserialize(&[1, 0, 0, 0, 1, 0, 0, 0, 1, 0, 0], &mut offset),
        Err(Error::Truncated)
    );
    let mut offset = 0usize;
    assert_eq!(
        SymbolMap::deserialize(&[1, 0, 0, 0, 1, 0, 0, 0, 255, 255, 255, 255, 65], &mut offset),
        Err(Error::Truncated)
    );
    let mut offset = 0usize;
    assert_eq!(
        SymbolMap::deserialize(&[1, 0, 0, 0, 1, 0, 0, 0, 2, 0, 0, 0, 0xc3, 0x28], &mut offset),
        Err(Error::InvalidUtf8)
    );
}
