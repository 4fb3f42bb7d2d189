use ble::packet::{
    HCIACLDataPacket, HCICommandPacket, HCIEventPacket, HCIPacket, HCIPacketError,
};

#[test]
fn frames_command_packet() {
    let buf = [0x01, 0x03, 0x0C, 0x02, 0xAA, 0xBB, 0xFF];
    let p = HCIPacket::read_from_slice(&buf).unwrap();
    assert_eq!(
        p,
        HCIPacket::Command(HCICommandPacket { opcode: 0x0C03, parameters: vec![0xAA, 0xBB] })
    );
}

#[test]
fn frames_event_packet() {
    let buf = [0x04, 0x0E, 0x04, 0x01, 0x03, 0x0C, 0x00];
    let p = HCIPacket::from_buf(&buf).unwrap();
    assert_eq!(
        p,
        HCIPacket::Event(HCIEventPacket { evcode: 0x0E, parameters: vec![0x01, 0x03, 0x0C, 0x00] })
    );
}

#[test]
fn frames_acl_header_bits() {
    let buf = [0x02, 0x2D, 0x01, 0x02, 0x00, 0xAA, 0xBB];
    let p = HCIPacket::read_from_slice(&buf).unwrap();
    assert_eq!(
        p,
        HCIPacket::ACLData(HCIACLDataPacket {
            handle: 0x012,
            packet_boundary_flag: 3,
            broadcast_flag: 1,
            data: vec![0xAA, 0xBB],
        })
    );
}

#[test]
fn unsupported_and_unknown_packet_types() {
    assert_eq!(
        HCIPacket::read_from_slice(&[0x03, 0, 0, 0]),
        Err(HCIPacketError::UnsupportedPacketType(3))
    );
    assert_eq!(
        HCIPacket::read_from_slice(&[0x05, 0, 0, 0]),
        Err(HCIPacketError::UnsupportedPacketType(5))
    );
    assert_eq!(
        HCIPacket::read_from_slice(&[0x07, 0, 0, 0]),
        Err(HCIPacketError::UnknownPacketType(7))
    );
    assert_eq!(HCIPacket::read_from_slice(&[]), Err(HCIPacketError::Truncated));
    assert!(HCIPacket::from_buf(&[0x09]).is_none());
}

#[test]
fn every_prefix_of_a_packet_is_truncated() {
    let packets: Vec<Vec<u8>> = vec![
        vec![0x01, 0x0C, 0x20, 0x02, 0x01, 0x01],
        vec![0x02, 0x2D, 0x01, 0x03, 0x00, 1, 2, 3],
        vec![0x04, 0x0E, 0x04, 0x01, 0x03, 0x0C, 0x00],
    ];
    for full in packets {
        assert!(HCIPacket::read_from_slice(&full).is_ok());
        for i in 0..full.len() {
            assert_eq!(
                HCIPacket::read_from_slice(&full[..i]),
                Err(HCIPacketError::Truncated),
                "prefix of length {}",
                i
            );
        }
    }
}

#[test]
fn packets_write_and_frame_back() {
    let packets = vec![
        HCIPacket::Command(HCICommandPacket { opcode: 0x200C, parameters: vec![1, 1] }),
        HCIPacket::ACLData(HCIACLDataPacket {
            handle: 0xABC,
            packet_boundary_flag: 2,
            broadcast_flag: 1,
            data: vec![5, 6, 7],
        }),
        HCIPacket::Event(HCIEventPacket { evcode: 0x3E, parameters: vec![] }),
    ];
    for p in packets {
        let mut buf = vec![0xEE; 16];
        let n = p.write_to_buffer(&mut buf).unwrap();
        assert_eq!(HCIPacket::read_from_slice(&buf[..n]), Ok(p.clone()));
        assert!(buf[n..].iter().all(|b| *b == 0xEE));
    }
}

#[test]
fn packet_write_exact_bytes_and_errors() {
    let p = HCIPacket::ACLData(HCIACLDataPacket {
        handle: 0x012,
        packet_boundary_flag: 3,
        broadcast_flag: 1,
        data: vec![0xAA],
    });
    let mut buf = vec![0; 6];
    assert_eq!(p.write_to_buffer(&mut buf), Ok(6));
    assert_eq!(buf, vec![0x02, 0x2D, 0x01, 0x01, 0x00, 0xAA]);

    let mut small = vec![0; 5];
    assert_eq!(p.write_to_buffer(&mut small), Err(HCIPacketError::BufferOverflow));
    assert_eq!(small, vec![0; 5]);

    let bad = HCIPacket::ACLData(HCIACLDataPacket {
        handle: 0x1000,
        packet_boundary_flag: 0,
        broadcast_flag: 0,
        data: vec![],
    });
    assert_eq!(bad.write_to_buffer(&mut buf), Err(HCIPacketError::InvalidEncoding));
    let long = HCIPacket::Event(HCIEventPacket { evcode: 1, parameters: vec![0; 256] });
    let mut big = vec![0; 300];
    assert_eq!(long.write_to_buffer(&mut big), Err(HCIPacketError::InvalidEncoding));
}

#[test]
fn packet_constructors_copy_bytes() {
    let c = HCICommandPacket::new(0x0C03, 2, &[1, 2]);
    assert_eq!(c.parameters, vec![1, 2]);
    assert_eq!(c.len(), 2);
    let e = HCIEventPacket::new(0x0E, 1, &[9]);
    assert_eq!((e.evcode, e.len()), (0x0E, 1));
    let a = HCIACLDataPacket::new(1, 2, 3, 0, &[]);
    assert_eq!((a.handle, a.packet_boundary_flag, a.broadcast_flag, a.len()), (1, 2, 3, 0));
}
