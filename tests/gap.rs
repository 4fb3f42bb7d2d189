use ble::gap::{
    decode_payload, AdvertisingData, AdvertisingDataError, AdvertisingDataIterator,
    AdvertisingDataType,
};

fn record(d: &AdvertisingData) -> Vec<u8> {
    let mut buf = vec![0; 300];
    let n = d.write_into(&mut buf).expect("encodable");
    buf.truncate(n);
    buf
}

fn decode_all(bytes: &[u8]) -> Vec<Result<AdvertisingData, AdvertisingDataError>> {
    let mut it = AdvertisingDataIterator::new(bytes);
    let mut out = Vec::new();
    while let Some(x) = it.next() {
        out.push(x);
    }
    out
}

#[test]
fn decodes_flags() {
    assert_eq!(decode_all(&[0x02, 0x01, 0x06]), vec![Ok(AdvertisingData::Flags(0x06))]);
}

#[test]
fn decodes_complete_local_name() {
    assert_eq!(
        decode_all(&[0x05, 0x09, b'A', b'B', b'C', b'D']),
        vec![Ok(AdvertisingData::CompleteLocalName("ABCD".to_string()))]
    );
}

#[test]
fn every_element_round_trips() {
    let values = vec![
        AdvertisingData::Flags(0x06),
        AdvertisingData::IncompleteListOf16BitServiceUUIDs(vec![]),
        AdvertisingData::IncompleteListOf16BitServiceUUIDs(vec![0x1809, 0x180A, 0x180F, 0xFFFF]),
        AdvertisingData::CompleteListOf16BitServiceUUIDs(vec![0x1809]),
        AdvertisingData::IncompleteListOf32BitServiceUUIDs(vec![0xDEAD_BEEF]),
        AdvertisingData::CompleteListOf32BitServiceUUIDs(vec![1, 2]),
        AdvertisingData::IncompleteListOf128BitServiceUUIDs(vec![u128::MAX]),
        AdvertisingData::CompleteListOf128BitServiceUUIDs(vec![0x0123_4567_89AB_CDEF]),
        AdvertisingData::ShortenedLocalName("esp".to_string()),
        AdvertisingData::CompleteLocalName("caf\u{e9} \u{1F600}".to_string()),
        AdvertisingData::TxPowerLevel(-20),
        AdvertisingData::ClassOfDevice(0x0020_0404),
        AdvertisingData::PeripheralConnectionIntervalRange(vec![0x06, 0x00, 0x80, 0x0C]),
        AdvertisingData::ServiceData(vec![0x09, 0x18, 0x42]),
        AdvertisingData::Appearance(0x03C1),
        AdvertisingData::LEBluetoothDeviceAddress(vec![1, 2, 3, 4, 5, 6, 0]),
        AdvertisingData::ManufacturerSpecificData(vec![]),
        AdvertisingData::ManufacturerSpecificData(vec![0x4C, 0x00, 0x02]),
    ];
    for v in values {
        let bytes = record(&v);
        assert_eq!(decode_all(&bytes), vec![Ok(v.clone())], "{:?}", v);
    }
}

#[test]
fn records_use_their_own_tags() {
    assert_eq!(record(&AdvertisingData::Appearance(0x03C1)), vec![3, 0x19, 0xC1, 0x03]);
    assert_eq!(record(&AdvertisingData::ServiceData(vec![7])), vec![2, 0x16, 7]);
    assert_eq!(record(&AdvertisingData::LEBluetoothDeviceAddress(vec![7])), vec![2, 0x1B, 7]);
    assert_eq!(record(&AdvertisingData::ManufacturerSpecificData(vec![7])), vec![2, 0xFF, 7]);
    assert_eq!(record(&AdvertisingData::TxPowerLevel(-1)), vec![2, 0x0A, 0xFF]);
    assert_eq!(record(&AdvertisingData::ClassOfDevice(0x0A0B0C0D)), vec![5, 0x0D, 0x0D, 0x0C, 0x0B, 0x0A]);
    assert_eq!(
        record(&AdvertisingData::IncompleteListOf16BitServiceUUIDs(vec![0x1809])),
        vec![3, 0x02, 0x09, 0x18]
    );
}

#[test]
fn element_too_long_is_not_written() {
    let mut buf = vec![0; 400];
    let d = AdvertisingData::ManufacturerSpecificData(vec![0; 255]);
    assert_eq!(d.write_into(&mut buf), None);
    let d = AdvertisingData::ManufacturerSpecificData(vec![0; 254]);
    assert_eq!(d.write_into(&mut buf), Some(256));
    let d = AdvertisingData::IncompleteListOf16BitServiceUUIDs(vec![0; 128]);
    assert_eq!(d.record_len(), None);
    let mut small = vec![0xCC; 2];
    assert_eq!(AdvertisingData::Flags(1).write_into(&mut small), None);
    assert_eq!(small, vec![0xCC; 2]);
}

#[test]
fn unknown_type_is_reported_and_skipped() {
    let bytes = [0x03, 0x20, 0xAA, 0xBB, 0x02, 0x01, 0x06];
    assert_eq!(
        decode_all(&bytes),
        vec![Err(AdvertisingDataError::UnknownType(0x20)), Ok(AdvertisingData::Flags(0x06))]
    );
}

#[test]
fn malformed_payloads_are_invalid() {
    assert_eq!(decode_all(&[0x04, 0x03, 1, 2, 3]), vec![Err(AdvertisingDataError::InvalidEncoding)]);
    assert_eq!(decode_all(&[0x03, 0x05, 1, 2]), vec![Err(AdvertisingDataError::InvalidEncoding)]);
    assert_eq!(decode_all(&[0x03, 0x09, 0xFF, 0xFE]), vec![Err(AdvertisingDataError::InvalidEncoding)]);
    assert_eq!(decode_all(&[0x01, 0x01]), vec![Err(AdvertisingDataError::Truncated)]);
    assert_eq!(decode_payload(0x19, &[1]), Err(AdvertisingDataError::Truncated));
    assert_eq!(decode_payload(0x0D, &[1, 2, 3]), Err(AdvertisingDataError::Truncated));
    assert_eq!(decode_payload(0x19, &[0xC1, 0x03, 0x99]), Ok(AdvertisingData::Appearance(0x03C1)));
}

#[test]
fn truncated_record_ends_the_run() {
    let full = record(&AdvertisingData::CompleteLocalName("ABCD".to_string()));
    for i in 1..full.len() {
        assert_eq!(decode_all(&full[..i]), vec![Err(AdvertisingDataError::Truncated)]);
    }
    assert_eq!(decode_all(&[]), vec![]);
}

#[test]
fn zero_length_ends_the_run() {
    let mut bytes = vec![0x02, 0x01, 0x06, 0x00];
    bytes.extend_from_slice(&[0; 27]);
    assert_eq!(decode_all(&bytes), vec![Ok(AdvertisingData::Flags(0x06))]);
}

#[test]
fn ad_type_codes_round_trip() {
    for code in 0..=255u8 {
        if let Some(t) = AdvertisingDataType::from_u8(code) {
            assert_eq!(t.into_u8(), code);
        }
    }
    assert_eq!(AdvertisingDataType::from_u8(0x1B), Some(AdvertisingDataType::LEBluetoothDeviceAddress));
    assert_eq!(AdvertisingDataType::from_u8(0x0B), None);
    assert_eq!(AdvertisingData::Appearance(1).data_type(), AdvertisingDataType::Appearance);
}
