use ble::buffer::WriteError;
use ble::command::{
    opcode, HCICommand, ScanEnableCommand, SetAdvertisingParametersCommand,
    SetScanParametersCommand,
};
use ble::gap::AdvertisingData;
use ble::packet::{HCICommandPacket, HCIPacket};

fn encode(cmd: &HCICommand) -> Option<Vec<u8>> {
    let mut buf = vec![0; 258];
    let n = cmd.write_into(&mut buf)?;
    buf.truncate(n);
    Some(buf)
}

fn adv_params() -> SetAdvertisingParametersCommand {
    SetAdvertisingParametersCommand {
        interval_min: 0x0800,
        interval_max: 0x0801,
        advertising_type: 0x00,
        own_address_type: 0x01,
        peer_address_type: 0x00,
        peer_address: [1, 2, 3, 4, 5, 6],
        advertising_channel_map: 0x07,
        advertising_filter_policy: 0x00,
    }
}

#[test]
fn opcode_packs_group_and_command_fields() {
    assert_eq!(opcode(0x03, 0x03), 0x0C03);
    assert_eq!(opcode(0x0C, 0x08), 0x200C);
    assert_eq!(opcode(0x3FF, 0x3F), 0xFFFF);
}

#[test]
fn reset_encodes_exactly() {
    assert_eq!(encode(&HCICommand::Reset), Some(vec![0x01, 0x03, 0x0C, 0x00]));
}

#[test]
fn scan_enable_encodes_exactly() {
    let cmd = HCICommand::ScanEnable(ScanEnableCommand { scan_enable: 1, filter_duplicates: 1 });
    assert_eq!(encode(&cmd), Some(vec![0x01, 0x0C, 0x20, 0x02, 0x01, 0x01]));
}

#[test]
fn scan_parameters_encode_in_field_order() {
    let cmd = HCICommand::SetScanParameters(SetScanParametersCommand {
        scan_type: 1,
        scan_interval: 0x0010,
        scan_window: 0x0020,
        own_address_type: 0,
        scanning_filter_policy: 2,
    });
    assert_eq!(
        encode(&cmd),
        Some(vec![0x01, 0x0B, 0x20, 0x07, 0x01, 0x10, 0x00, 0x20, 0x00, 0x00, 0x02])
    );
}

#[test]
fn advertising_parameters_encode_in_field_order() {
    let cmd = HCICommand::SetAdvertisingParameters(adv_params());
    assert_eq!(
        encode(&cmd),
        Some(vec![
            0x01, 0x06, 0x20, 0x0F, 0x00, 0x08, 0x01, 0x08, 0x00, 0x01, 0x00, 1, 2, 3, 4, 5, 6,
            0x07, 0x00
        ])
    );
}

#[test]
fn parameter_sizes_are_field_width_sums() {
    assert_eq!(adv_params().size(), 15);
    let scan = SetScanParametersCommand {
        scan_type: 0,
        scan_interval: 0,
        scan_window: 0,
        own_address_type: 0,
        scanning_filter_policy: 0,
    };
    assert_eq!(scan.size(), 7);
    assert_eq!(ScanEnableCommand { scan_enable: 0, filter_duplicates: 0 }.size(), 2);
    assert_eq!(adv_params().to_parameters().len(), adv_params().size());
}

#[test]
fn advertising_enable_encodes() {
    let cmd = HCICommand::SetAdvertisingEnable { enable: 1 };
    assert_eq!(encode(&cmd), Some(vec![0x01, 0x0A, 0x20, 0x01, 0x01]));
}

#[test]
fn advertising_data_is_padded_to_its_region() {
    let data = vec![AdvertisingData::Flags(0x06), AdvertisingData::CompleteLocalName("AB".to_string())];
    let bytes = encode(&HCICommand::SetAdvertisingData { data: data.clone() }).unwrap();
    let mut expected = vec![0x01, 0x08, 0x20, 0x20, 0x07, 0x02, 0x01, 0x06, 0x03, 0x09, b'A', b'B'];
    expected.extend_from_slice(&[0; 24]);
    assert_eq!(bytes.len(), 36);
    assert_eq!(bytes, expected);

    let bytes = encode(&HCICommand::SetScanResponseData { data }).unwrap();
    expected[1] = 0x09;
    assert_eq!(bytes, expected);
}

#[test]
fn advertising_data_overflow_fails() {
    let name = "X".repeat(30);
    let cmd = HCICommand::SetAdvertisingData {
        data: vec![AdvertisingData::CompleteLocalName(name)],
    };
    assert_eq!(encode(&cmd), None);
    let cmd = HCICommand::SetAdvertisingData {
        data: vec![
            AdvertisingData::CompleteLocalName("X".repeat(27)),
            AdvertisingData::Flags(0x06),
        ],
    };
    assert_eq!(encode(&cmd), None);
    let cmd = HCICommand::SetAdvertisingData {
        data: vec![AdvertisingData::CompleteLocalName("X".repeat(29))],
    };
    assert_eq!(encode(&cmd).map(|b| b[4]), Some(31));
}

#[test]
fn command_too_long_for_buffer_leaves_it() {
    let mut buf = vec![0xAB; 3];
    assert_eq!(HCICommand::Reset.write_into(&mut buf), None);
    assert_eq!(HCICommand::Reset.write_to_buffer(&mut buf), Err(WriteError::BufferOverflow));
    assert_eq!(buf, vec![0xAB; 3]);
    let mut buf = vec![0xAB; 6];
    assert_eq!(HCICommand::Reset.write_to_buffer(&mut buf), Ok(4));
    assert_eq!(buf, vec![0x01, 0x03, 0x0C, 0x00, 0xAB, 0xAB]);
}

#[test]
fn commands_frame_back_to_opcode_and_parameters() {
    let cases: Vec<(HCICommand, u16, Vec<u8>)> = vec![
        (HCICommand::Reset, 0x0C03, vec![]),
        (HCICommand::SetAdvertisingParameters(adv_params()), 0x2006, adv_params().to_parameters()),
        (HCICommand::SetAdvertisingEnable { enable: 0 }, 0x200A, vec![0]),
        (
            HCICommand::ScanEnable(ScanEnableCommand { scan_enable: 0, filter_duplicates: 1 }),
            0x200C,
            vec![0, 1],
        ),
        (
            HCICommand::SetScanParameters(SetScanParametersCommand {
                scan_type: 0,
                scan_interval: 0x1234,
                scan_window: 0x5678,
                own_address_type: 1,
                scanning_filter_policy: 0,
            }),
            0x200B,
            vec![0, 0x34, 0x12, 0x78, 0x56, 1, 0],
        ),
    ];
    for (cmd, op, params) in cases {
        let bytes = encode(&cmd).unwrap();
        assert_eq!(
            HCIPacket::from_buf(&bytes),
            Some(HCIPacket::Command(HCICommandPacket { opcode: op, parameters: params }))
        );
    }
    let data = vec![AdvertisingData::IncompleteListOf16BitServiceUUIDs(vec![0x1809])];
    let bytes = encode(&HCICommand::SetScanResponseData { data }).unwrap();
    match HCIPacket::from_buf(&bytes) {
        Some(HCIPacket::Command(p)) => {
            assert_eq!(p.opcode, 0x2009);
            assert_eq!(p.parameters.len(), 32);
            assert_eq!(&p.parameters[..6], &[4, 3, 0x02, 0x09, 0x18, 0]);
        }
        other => panic!("unexpected {:?}", other),
    }
}
