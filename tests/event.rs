use ble::event::{
    AdvertisingReport, HCIEvent, HCIEventCode, HCIEventError, LEMetaEvent, SubeventCode,
};
use ble::gap::AdvertisingData;
use ble::packet::HCIEventPacket;

fn report_bytes(event_type: u8, addr_last: u8, data: &[u8], rssi: i8) -> Vec<u8> {
    let mut v = vec![event_type, 0x01, 1, 2, 3, 4, 5, addr_last, data.len() as u8];
    v.extend_from_slice(data);
    v.push(rssi as u8);
    v
}

fn meta_packet(reports: &[u8], count: u8) -> HCIEventPacket {
    let mut params = vec![0x02, count];
    params.extend_from_slice(reports);
    HCIEventPacket { evcode: 0x3E, parameters: params }
}

fn collect_reports<'p>(event: HCIEvent<'p>) -> (u8, Vec<Result<AdvertisingReport<'p>, HCIEventError>>) {
    match event {
        HCIEvent::LEMetaEvent(LEMetaEvent::AdvertisingReport(mut it)) => {
            let mut out = Vec::new();
            while let Some(r) = it.next() {
                out.push(r);
            }
            (it.num_reports, out)
        }
        other => panic!("not an advertising report event: {:?}", other),
    }
}

#[test]
fn command_complete_decodes() {
    let packet = HCIEventPacket { evcode: 0x0E, parameters: vec![0x01, 0x03, 0x0C, 0x00] };
    match HCIEvent::from_packet(&packet) {
        Ok(HCIEvent::CommandComplete(e)) => {
            assert_eq!(e.num_hci_command_packets, 1);
            assert_eq!(e.command_opcode, 0x0C03);
            assert_eq!(e.return_parameters, &[0x00]);
        }
        other => panic!("unexpected {:?}", other),
    }
}

#[test]
fn single_report_with_empty_data() {
    let report = report_bytes(0x00, 0x06, &[], -60);
    assert_eq!(report.len(), 10);
    let packet = meta_packet(&report, 1);
    assert_eq!(packet.parameters.len(), 12);
    let event = HCIEvent::from_packet(&packet).unwrap();
    let (count, reports) = collect_reports(event);
    assert_eq!(count, 1);
    assert_eq!(reports.len(), 1);
    let mut r = reports.into_iter().next().unwrap().unwrap();
    assert_eq!(r.event_type, 0x00);
    assert_eq!(r.address_type, 0x01);
    assert_eq!(r.address, &[1, 2, 3, 4, 5, 6]);
    assert_eq!(r.rssi, -60);
    assert!(r.data.next().is_none());
}

#[test]
fn report_sequence_yields_each_report() {
    let mut bytes = Vec::new();
    bytes.extend(report_bytes(0, 1, &[0x02, 0x01, 0x06], -40));
    bytes.extend(report_bytes(3, 2, &[], 5));
    bytes.extend(report_bytes(4, 3, &[0x05, 0x09, b'A', b'B', b'C', b'D', 0x02, 0x0A, 0xF6], -90));
    let packet = meta_packet(&bytes, 3);
    let (count, reports) = collect_reports(HCIEvent::from_packet(&packet).unwrap());
    assert_eq!(count, 3);
    assert_eq!(reports.len(), 3);
    let mut reports: Vec<AdvertisingReport> = reports.into_iter().map(|r| r.unwrap()).collect();
    assert_eq!(reports[0].data.next(), Some(Ok(AdvertisingData::Flags(0x06))));
    assert!(reports[0].data.next().is_none());
    assert_eq!(reports[1].event_type, 3);
    assert_eq!(reports[1].rssi, 5);
    assert!(reports[1].data.next().is_none());
    assert_eq!(reports[2].address[5], 3);
    assert_eq!(
        reports[2].data.next(),
        Some(Ok(AdvertisingData::CompleteLocalName("ABCD".to_string())))
    );
    assert_eq!(reports[2].data.next(), Some(Ok(AdvertisingData::TxPowerLevel(-10))));
    assert!(reports[2].data.next().is_none());
    assert_eq!(reports[2].rssi, -90);
}

#[test]
fn decoding_twice_gives_the_same_result() {
    let bytes = report_bytes(0, 9, &[0x02, 0x01, 0x06], -40);
    let packet = meta_packet(&bytes, 1);
    let first = collect_reports(HCIEvent::from_packet(&packet).unwrap());
    let second = collect_reports(HCIEvent::from_packet(&packet).unwrap());
    assert_eq!(format!("{:?}", first), format!("{:?}", second));
    let cc = HCIEventPacket { evcode: 0x0E, parameters: vec![2, 0x0C, 0x20, 0x00, 0x01] };
    assert_eq!(
        format!("{:?}", HCIEvent::from_packet(&cc)),
        format!("{:?}", HCIEvent::from_packet(&cc))
    );
}

#[test]
fn unimplemented_codes_are_errors() {
    let packet = HCIEventPacket { evcode: 0x05, parameters: vec![0, 1, 2, 3] };
    assert_eq!(HCIEvent::from_packet(&packet).err(), Some(HCIEventError::UnimplementedEventCode(0x05)));
    let packet = HCIEventPacket { evcode: 0x3E, parameters: vec![0x01, 0, 0] };
    assert_eq!(
        HCIEvent::from_packet(&packet).err(),
        Some(HCIEventError::UnimplementedSubeventCode(0x01))
    );
}

#[test]
fn truncated_event_parameters() {
    let full = vec![0x01, 0x03, 0x0C];
    for i in 0..full.len() {
        let packet = HCIEventPacket { evcode: 0x0E, parameters: full[..i].to_vec() };
        assert_eq!(HCIEvent::from_packet(&packet).err(), Some(HCIEventError::Truncated));
    }
    let packet = HCIEventPacket { evcode: 0x3E, parameters: vec![] };
    assert_eq!(HCIEvent::from_packet(&packet).err(), Some(HCIEventError::Truncated));
    let packet = HCIEventPacket { evcode: 0x3E, parameters: vec![0x02] };
    assert_eq!(HCIEvent::from_packet(&packet).err(), Some(HCIEventError::Truncated));
}

#[test]
fn truncated_report_fails_then_ends() {
    let full = report_bytes(0, 1, &[0x02, 0x01, 0x06], -40);
    for i in 1..full.len() {
        let packet = meta_packet(&full[..i], 1);
        let (_, reports) = collect_reports(HCIEvent::from_packet(&packet).unwrap());
        assert_eq!(reports.len(), 1);
        assert_eq!(reports[0].as_ref().err(), Some(&HCIEventError::Truncated));
    }
}

#[test]
fn event_code_tables() {
    assert_eq!(HCIEventCode::from_u8(0x0E), Some(HCIEventCode::CommandComplete));
    assert_eq!(HCIEventCode::LEMetaEvent.into_u8(), 0x3E);
    assert_eq!(HCIEventCode::from_u8(0x0F), None);
    assert_eq!(SubeventCode::from_u8(0x02), Some(SubeventCode::AdvertisingReport));
    assert_eq!(SubeventCode::EnhancedConnectionCompleteV2.into_u8(), 0x29);
    assert_eq!(SubeventCode::from_u8(0x36), None);
    for code in 0..=255u8 {
        if let Some(s) = SubeventCode::from_u8(code) {
            assert_eq!(s.into_u8(), code);
        }
    }
}
