use mbn::enums::{Action, RType, Schema, Side};
use mbn::error::Error;
use mbn::record_enum::{RecordEnum, RecordEnumRef};
use mbn::record_ref::RecordRef;
use mbn::records::{
    BboMsg, BidAskPair, HasRType, Mbp1Msg, OhlcvMsg, RecordHeader, TbboMsg, TradeMsg,
};

fn level() -> BidAskPair {
    BidAskPair {
        bid_px: 1,
        ask_px: 2,
        bid_sz: 2,
        ask_sz: 2,
        bid_ct: 1,
        ask_ct: 3,
    }
}

#[test]
fn test_encode_decode_record_enum() {
    let record_enum = RecordEnum::Mbp1(Mbp1Msg {
        hd: RecordHeader::new::<Mbp1Msg>(1, 1622471124),
        price: 1000,
        size: 10,
        action: 1,
        side: 1,
        depth: 0,
        flags: 0,
        ts_recv: 123456789098765,
        ts_in_delta: 12345,
        sequence: 123456,
        levels: [level()],
    });

    let mut scratch = Vec::new();
    let record_ref = record_enum.to_record_ref(&mut scratch);
    let bytes = record_ref.as_ref();
    let new_ref = RecordRef::new(bytes);
    let ref_enum = RecordEnumRef::from_ref(new_ref).unwrap();
    let decoded = ref_enum.to_owned();

    assert_eq!(decoded, record_enum);
}

#[test]
fn every_record_type_round_trips() {
    let records = vec![
        RecordEnum::Mbp1(Mbp1Msg {
            hd: RecordHeader::new::<Mbp1Msg>(3, 4),
            price: -5,
            size: 6,
            action: b'A',
            side: b'B',
            depth: 1,
            flags: 130,
            ts_recv: 7,
            ts_in_delta: -8,
            sequence: 9,
            levels: [level()],
        }),
        RecordEnum::Trade(TradeMsg {
            hd: RecordHeader::new::<TradeMsg>(3, 4),
            price: i64::MIN,
            size: u32::MAX,
            action: b'T',
            side: b'N',
            depth: 0,
            flags: 0,
            ts_recv: u64::MAX,
            ts_in_delta: i32::MIN,
            sequence: 9,
        }),
        RecordEnum::Tbbo(TbboMsg {
            hd: RecordHeader::new::<TbboMsg>(3, 4),
            price: 5,
            size: 6,
            action: b'T',
            side: b'A',
            depth: 0,
            flags: 1,
            ts_recv: 7,
            ts_in_delta: 8,
            sequence: 9,
            levels: [level()],
        }),
        RecordEnum::Bbo(BboMsg {
            hd: RecordHeader::new::<BboMsg>(3, 4),
            price: 5,
            size: 6,
            side: b'A',
            flags: 1,
            ts_recv: 7,
            sequence: 9,
            levels: [level()],
        }),
        RecordEnum::Ohlcv(OhlcvMsg {
            hd: RecordHeader::new::<OhlcvMsg>(3, 4),
            open: 1,
            high: 2,
            low: -3,
            close: 4,
            volume: 5,
        }),
    ];
    let sizes = [80usize, 48, 80, 80, 56];
    for (record, size) in records.iter().zip(sizes.iter()) {
        let bytes = record.to_bytes();
        assert_eq!(bytes.len(), *size);
        assert_eq!(bytes[0] as usize * 4, *size);
        let view = RecordRef::try_new(&bytes).unwrap();
        assert_eq!(view.header(), record.header());
        assert_eq!(RecordEnum::from_ref(view), Some(*record));
    }
}

#[test]
fn owned_record_as_borrowed_record() {
    let record = RecordEnum::Trade(TradeMsg {
        hd: RecordHeader::new::<TradeMsg>(8, 9),
        price: 1,
        size: 2,
        action: b'T',
        side: b'B',
        depth: 0,
        flags: 0,
        ts_recv: 3,
        ts_in_delta: 4,
        sequence: 5,
    });
    let mut scratch = vec![1u8, 2, 3];
    let borrowed = record.to_ref(&mut scratch);
    assert!(matches!(borrowed, RecordEnumRef::Trade(_)));
    assert_eq!(borrowed.record_ref().as_ref(), &record.to_bytes()[..]);
    assert_eq!(borrowed.to_owned(), record);
}

#[test]
fn header_of_each_type() {
    let h = RecordHeader::new::<Mbp1Msg>(1, 2);
    assert_eq!((h.length, h.rtype), (20, 1));
    let h = RecordHeader::new::<OhlcvMsg>(1, 2);
    assert_eq!((h.length, h.rtype), (14, 2));
    let h = RecordHeader::new::<TradeMsg>(1, 2);
    assert_eq!((h.length, h.rtype), (12, 3));
    let h = RecordHeader::new::<TbboMsg>(1, 2);
    assert_eq!((h.length, h.rtype), (20, 4));
    let h = RecordHeader::new::<BboMsg>(1, 2);
    assert_eq!((h.length, h.rtype), (20, 5));
    assert_eq!(h.record_size(), 80);
    assert_eq!(h.rtype(), Some(RType::Bbo));
    let unknown = RecordHeader { length: 4, rtype: 0, instrument_id: 0, ts_event: 0 };
    assert_eq!(unknown.rtype(), None);
}

#[test]
fn mbp1_bytes_are_exact() {
    let msg = Mbp1Msg {
        hd: RecordHeader::new::<Mbp1Msg>(1, 2),
        price: 3,
        size: 4,
        action: 5,
        side: 6,
        depth: 7,
        flags: 8,
        ts_recv: 9,
        ts_in_delta: -1,
        sequence: 10,
        levels: [level()],
    };
    let mut bytes = Vec::new();
    msg.encode(&mut bytes);
    let mut expected: Vec<u8> = vec![20, 1, 0, 0, 1, 0, 0, 0, 2, 0, 0, 0, 0, 0, 0, 0];
    expected.extend_from_slice(&[3, 0, 0, 0, 0, 0, 0, 0]);
    expected.extend_from_slice(&[4, 0, 0, 0, 5, 6, 7, 8]);
    expected.extend_from_slice(&[9, 0, 0, 0, 0, 0, 0, 0]);
    expected.extend_from_slice(&[255, 255, 255, 255, 10, 0, 0, 0]);
    expected.extend_from_slice(&[1, 0, 0, 0, 0, 0, 0, 0, 2, 0, 0, 0, 0, 0, 0, 0]);
    expected.extend_from_slice(&[2, 0, 0, 0, 2, 0, 0, 0, 1, 0, 0, 0, 3, 0, 0, 0]);
    assert_eq!(bytes, expected);
    assert_eq!(Mbp1Msg::decode(&bytes), Some(msg));
    assert_eq!(Mbp1Msg::decode(&bytes[..79]), None);
}

#[test]
fn view_checks_extent_only() {
    let bar = OhlcvMsg {
        hd: RecordHeader::new::<OhlcvMsg>(1, 2),
        open: 1,
        high: 2,
        low: 3,
        close: 4,
        volume: 5,
    };
    let mut bytes = Vec::new();
    bar.encode(&mut bytes);
    let view = RecordRef::new(&bytes);
    assert_eq!(view.get::<OhlcvMsg>(), Some(bar));
    assert!(view.get::<TradeMsg>().is_some());
    assert_eq!(view.get::<Mbp1Msg>(), None);
    assert!(view.has::<OhlcvMsg>());
    assert!(!view.has::<TradeMsg>());
    assert_eq!(view.as_ref(), &bytes[..]);
}

#[test]
fn view_needs_a_whole_frame() {
    assert!(RecordRef::try_new(&[]).is_none());
    assert!(RecordRef::try_new(&[4u8; 15]).is_none());
    assert!(RecordRef::try_new(&[3u8; 16]).is_none());
    assert!(RecordRef::try_new(&[5u8; 19]).is_none());
    assert!(RecordRef::try_new(&[4u8; 16]).is_some());
    let long = [4u8; 20];
    let view = RecordRef::try_new(&long).unwrap();
    assert_eq!(view.as_ref().len(), 16);
}

#[test]
fn borrowed_dispatch_rejects_what_owned_dispatch_rejects() {
    let mut bytes = vec![0u8; 56];
    bytes[0] = 14;
    bytes[1] = 9;
    let view = RecordRef::new(&bytes);
    assert!(RecordEnumRef::from_ref(view).is_none());
    assert!(RecordEnum::from_ref(view).is_none());
    bytes[1] = 1;
    let view = RecordRef::new(&bytes);
    assert!(RecordEnumRef::from_ref(view).is_none());
    bytes[1] = 2;
    let view = RecordRef::new(&bytes);
    let borrowed = RecordEnumRef::from_ref(view).unwrap();
    assert!(matches!(borrowed, RecordEnumRef::Ohlcv(_)));
    assert_eq!(borrowed.header().length, 14);
    assert!(matches!(borrowed.to_owned(), RecordEnum::Ohlcv(_)));
}

#[test]
fn enum_tags() {
    for tag in 0..=255u8 {
        match RType::from_u8(tag) {
            Some(t) => assert_eq!(t.as_u8(), tag),
            None => assert!(tag == 0 || tag > 5),
        }
        match Schema::from_u8(tag) {
            Some(t) => assert_eq!(t.as_u8(), tag),
            None => assert!(tag == 0 || tag > 9),
        }
    }
    assert_eq!(RType::from_int(3), Ok(RType::Trade));
    assert_eq!(RType::from_int(6), Err(Error::InvalidValue));
    assert_eq!(RType::from_schema(Schema::Ohlcv1D), RType::Ohlcv);
    assert_eq!(RType::from_schema(Schema::Bbo1S), RType::Bbo);
    assert_eq!(Side::from_int(b'A'), Ok(Side::Ask));
    assert_eq!(Side::from_int(b'B'), Ok(Side::Bid));
    assert_eq!(Side::from_int(b'N'), Ok(Side::Neither));
    assert_eq!(Side::from_int(b'X'), Err(Error::InvalidValue));
    assert_eq!(Side::Bid.as_u8(), b'B');
    assert_eq!(Action::from_int(b'M'), Ok(Action::Modify));
    assert_eq!(Action::from_int(b'T'), Ok(Action::Trade));
    assert_eq!(Action::from_int(b'F'), Ok(Action::Fill));
    assert_eq!(Action::from_int(b'C'), Ok(Action::Cancel));
    assert_eq!(Action::from_int(b'A'), Ok(Action::Add));
    assert_eq!(Action::from_int(b'R'), Ok(Action::Clear));
    assert_eq!(Action::from_int(0), Err(Error::InvalidValue));
    assert_eq!(Action::Clear.as_u8(), b'R');
}
