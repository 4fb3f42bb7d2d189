//! HCI packet framing: the leading packet-type byte, the type's header, and the
//! region of parameters or data that the header announces.
use crate::buffer::{
    lemma_advanced_rest, lemma_byte_span_values, lemma_le_bytes_len, lemma_le_value_of_bytes,
    lemma_overwrite_append, le_bytes, le_value, overwrite, Reader, Writer,
};
use vstd::prelude::*;
use vstd::slice::slice_to_vec;

verus! {

/// Packet-type byte of an HCI Command packet.
pub const HCI_COMMAND_PACKET_TYPE: u8 = 0x01;

/// Packet-type byte of an HCI ACL Data packet.
pub const HCI_ACL_DATA_PACKET_TYPE: u8 = 0x02;

/// Packet-type byte of an HCI Synchronous Data packet.
pub const HCI_SYNCHRONOUS_DATA_PACKET_TYPE: u8 = 0x03;

/// Packet-type byte of an HCI Event packet.
pub const HCI_EVENT_PACKET_TYPE: u8 = 0x04;

/// Packet-type byte of an HCI ISO Data packet.
pub const HCI_ISO_DATA_PACKET_TYPE: u8 = 0x05;

/// Why a buffer could not be framed as a packet, or a packet not written.
#[derive(Debug, Clone, Copy, PartialEq, Eq, Structural)]
pub enum HCIPacketError {
    /// The buffer ends before the header or the region it announces.
    Truncated,
    /// A packet type that is recognised but not handled (synchronous or ISO data).
    UnsupportedPacketType(u8),
    /// A byte that is no packet type.
    UnknownPacketType(u8),
    /// The packet does not fit in the destination buffer.
    BufferOverflow,
    /// A field of the packet is too large for its place in the header.
    InvalidEncoding,
}

/// An HCI Command packet: opcode and parameters.
#[derive(Debug, Clone, PartialEq, Eq)]
pub struct HCICommandPacket {
    pub opcode: u16,
    pub parameters: Vec<u8>,
}

/// An HCI ACL Data packet: the fields of its header and its data.
#[derive(Debug, Clone, PartialEq, Eq)]
pub struct HCIACLDataPacket {
    /// Connection handle (12 bits).
    pub handle: u16,
    /// Packet-boundary flag (2 bits).
    pub packet_boundary_flag: u8,
    /// Broadcast flag (2 bits).
    pub broadcast_flag: u8,
    pub data: Vec<u8>,
}

/// An HCI Event packet: event code and parameters.
#[derive(Debug, Clone, PartialEq, Eq)]
pub struct HCIEventPacket {
    pub evcode: u8,
    pub parameters: Vec<u8>,
}

/// A framed HCI packet.
#[derive(Debug, Clone, PartialEq, Eq)]
pub enum HCIPacket {
    Command(HCICommandPacket),
    ACLData(HCIACLDataPacket),
    Event(HCIEventPacket),
}

/// The mathematical value of an [`HCIPacket`].
pub enum PacketView {
    Command { opcode: u16, parameters: Seq<u8> },
    ACLData { handle: u16, packet_boundary_flag: u8, broadcast_flag: u8, data: Seq<u8> },
    Event { evcode: u8, parameters: Seq<u8> },
}

impl View for HCIPacket {
    type V = PacketView;

    open spec fn view(&self) -> PacketView {
        match self {
            HCIPacket::Command(p) => PacketView::Command {
                opcode: p.opcode,
                parameters: p.parameters@,
            },
            HCIPacket::ACLData(p) => PacketView::ACLData {
                handle: p.handle,
                packet_boundary_flag: p.packet_boundary_flag,
                broadcast_flag: p.broadcast_flag,
                data: p.data@,
            },
            HCIPacket::Event(p) => PacketView::Event { evcode: p.evcode, parameters: p.parameters@ },
        }
    }
}

impl HCICommandPacket {
    /// A command packet with the `len` bytes of `buf` as parameters.
    pub fn new(opcode: u16, len: usize, buf: &[u8]) -> (r: HCICommandPacket)
        requires
            len == buf@.len(),
        ensures
            r.opcode == opcode,
            r.parameters@ == buf@,
    {
        HCICommandPacket { opcode, parameters: slice_to_vec(buf) }
    }

    /// Number of parameter bytes.
    pub fn len(&self) -> (r: usize)
        ensures
            r == self.parameters@.len(),
    {
        self.parameters.len()
    }
}

impl HCIACLDataPacket {
    /// An ACL data packet with the `len` bytes of `buf` as data.
    pub fn new(
        handle: u16,
        packet_boundary_flag: u8,
        broadcast_flag: u8,
        len: usize,
        buf: &[u8],
    ) -> (r: HCIACLDataPacket)
        requires
            len == buf@.len(),
        ensures
            r.handle == handle,
            r.packet_boundary_flag == packet_boundary_flag,
            r.broadcast_flag == broadcast_flag,
            r.data@ == buf@,
    {
        HCIACLDataPacket { handle, packet_boundary_flag, broadcast_flag, data: slice_to_vec(buf) }
    }

    /// Number of data bytes.
    pub fn len(&self) -> (r: usize)
        ensures
            r == self.data@.len(),
    {
        self.data.len()
    }
}

impl HCIEventPacket {
    /// An event packet with the `len` bytes of `buf` as parameters.
    pub fn new(evcode: u8, len: usize, buf: &[u8]) -> (r: HCIEventPacket)
        requires
            len == buf@.len(),
        ensures
            r.evcode == evcode,
            r.parameters@ == buf@,
    {
        HCIEventPacket { evcode, parameters: slice_to_vec(buf) }
    }

    /// Number of parameter bytes.
    pub fn len(&self) -> (r: usize)
        ensures
            r == self.parameters@.len(),
    {
        self.parameters.len()
    }
}

/// Connection handle of an ACL header: bits 4 to 15.
pub open spec fn acl_handle(header: u16) -> u16 {
    (header & 0xFFF0) >> 4u16
}

/// Packet-boundary flag of an ACL header: bits 2 and 3.
pub open spec fn acl_packet_boundary_flag(header: u16) -> u8 {
    (((header & 0x000F) as u8) & 0x0C) >> 2u8
}

/// Broadcast flag of an ACL header: bits 0 and 1.
pub open spec fn acl_broadcast_flag(header: u16) -> u8 {
    ((header & 0x000F) as u8) & 0x03
}

/// The ACL header that carries the three fields.
pub open spec fn acl_header(handle: u16, packet_boundary_flag: u8, broadcast_flag: u8) -> u16 {
    ((handle << 4u16) | ((packet_boundary_flag as u16) << 2u16) | (broadcast_flag as u16)) as u16
}

/// The 16-bit little-endian value at `b[i]`, `b[i + 1]`.
pub open spec fn u16_at(b: Seq<u8>, i: int) -> u16 {
    le_value(b.subrange(i, i + 2)) as u16
}

/// Framing of a buffer: the packet at its start, or why there is none. Bytes
/// after the region that the header announces are ignored.
pub open spec fn parse_packet(b: Seq<u8>) -> Result<PacketView, HCIPacketError> {
    if b.len() < 1 {
        Err(HCIPacketError::Truncated)
    } else if b[0] == HCI_COMMAND_PACKET_TYPE {
        if b.len() < 4 || b.len() < 4 + b[3] {
            Err(HCIPacketError::Truncated)
        } else {
            Ok(PacketView::Command { opcode: u16_at(b, 1), parameters: b.subrange(4, 4 + b[3]) })
        }
    } else if b[0] == HCI_ACL_DATA_PACKET_TYPE {
        if b.len() < 5 || b.len() < 5 + u16_at(b, 3) {
            Err(HCIPacketError::Truncated)
        } else {
            let header = u16_at(b, 1);
            Ok(
                PacketView::ACLData {
                    handle: acl_handle(header),
                    packet_boundary_flag: acl_packet_boundary_flag(header),
                    broadcast_flag: acl_broadcast_flag(header),
                    data: b.subrange(5, 5 + u16_at(b, 3)),
                },
            )
        }
    } else if b[0] == HCI_EVENT_PACKET_TYPE {
        if b.len() < 3 || b.len() < 3 + b[2] {
            Err(HCIPacketError::Truncated)
        } else {
            Ok(PacketView::Event { evcode: b[1], parameters: b.subrange(3, 3 + b[2]) })
        }
    } else if b[0] == HCI_SYNCHRONOUS_DATA_PACKET_TYPE || b[0] == HCI_ISO_DATA_PACKET_TYPE {
        Err(HCIPacketError::UnsupportedPacketType(b[0]))
    } else {
        Err(HCIPacketError::UnknownPacketType(b[0]))
    }
}

/// The outcome of framing, with the packet replaced by its value.
pub open spec fn packet_result_view(r: Result<HCIPacket, HCIPacketError>) -> Result<
    PacketView,
    HCIPacketError,
> {
    match r {
        Ok(p) => Ok(p@),
        Err(e) => Err(e),
    }
}

/// A packet can be written when each field fits its place in the header.
pub open spec fn packet_encodable(p: PacketView) -> bool {
    match p {
        PacketView::Command { opcode, parameters } => parameters.len() <= 255,
        PacketView::ACLData { handle, packet_boundary_flag, broadcast_flag, data } => {
            &&& handle < 0x1000
            &&& packet_boundary_flag < 4
            &&& broadcast_flag < 4
            &&& data.len() <= 0xFFFF
        },
        PacketView::Event { evcode, parameters } => parameters.len() <= 255,
    }
}

/// The bytes of a packet: type byte, header, then parameters or data.
pub open spec fn packet_bytes(p: PacketView) -> Seq<u8> {
    match p {
        PacketView::Command { opcode, parameters } => seq![HCI_COMMAND_PACKET_TYPE] + le_bytes(
            opcode as nat,
            2,
        ) + seq![parameters.len() as u8] + parameters,
        PacketView::ACLData { handle, packet_boundary_flag, broadcast_flag, data } => seq![
            HCI_ACL_DATA_PACKET_TYPE,
        ] + le_bytes(acl_header(handle, packet_boundary_flag, broadcast_flag) as nat, 2)
            + le_bytes(data.len(), 2) + data,
        PacketView::Event { evcode, parameters } => seq![
            HCI_EVENT_PACKET_TYPE,
            evcode,
            parameters.len() as u8,
        ] + parameters,
    }
}

impl HCIPacket {
    /// Frames the packet at the start of `buf`.
    pub fn read_from_slice(buf: &[u8]) -> (r: Result<HCIPacket, HCIPacketError>)
        ensures
            packet_result_view(r) == parse_packet(buf@),
    {
        let mut reader = Reader::new(buf);
        let ghost v0 = reader@;
        proof {
            use_type_invariant(&reader);
        }
        let packet_type = match reader.read_u8() {
            Some(t) => t,
            None => {
                return Err(HCIPacketError::Truncated);
            },
        };
        proof {
            lemma_advanced_rest(v0, 1);
        }
        if packet_type == HCI_COMMAND_PACKET_TYPE {
            let opcode = match reader.read_u16() {
                Some(o) => o,
                None => {
                    return Err(HCIPacketError::Truncated);
                },
            };
            proof {
                lemma_advanced_rest(v0, 3);
                assert(buf@.subrange(1, 3) =~= v0.advanced(1).rest().take(2));
            }
            let len = match reader.read_u8() {
                Some(l) => l,
                None => {
                    return Err(HCIPacketError::Truncated);
                },
            };
            proof {
                lemma_advanced_rest(v0, 4);
            }
            let data = match reader.read_slice(len as usize) {
                Some(d) => d,
                None => {
                    return Err(HCIPacketError::Truncated);
                },
            };
            proof {
                assert(data@ =~= buf@.subrange(4, 4 + len));
            }
            Ok(HCIPacket::Command(HCICommandPacket::new(opcode, len as usize, data)))
        } else if packet_type == HCI_ACL_DATA_PACKET_TYPE {
            let header = match reader.read_u16() {
                Some(h) => h,
                None => {
                    return Err(HCIPacketError::Truncated);
                },
            };
            proof {
                lemma_advanced_rest(v0, 3);
                assert(buf@.subrange(1, 3) =~= v0.advanced(1).rest().take(2));
            }
            let handle = (header & 0xFFF0) >> 4u16;
            let flags = (header & 0x000F) as u8;
            let packet_boundary_flag = (flags & 0x0C) >> 2u8;
            let broadcast_flag = flags & 0x03;
            let len = match reader.read_u16() {
                Some(l) => l,
                None => {
                    return Err(HCIPacketError::Truncated);
                },
            };
            proof {
                lemma_advanced_rest(v0, 5);
                assert(buf@.subrange(3, 5) =~= v0.advanced(3).rest().take(2));
            }
            let data = match reader.read_slice(len as usize) {
                Some(d) => d,
                None => {
                    return Err(HCIPacketError::Truncated);
                },
            };
            proof {
                assert(data@ =~= buf@.subrange(5, 5 + len));
            }
            Ok(
                HCIPacket::ACLData(
                    HCIACLDataPacket::new(
                        handle,
                        packet_boundary_flag,
                        broadcast_flag,
                        len as usize,
                        data,
                    ),
                ),
            )
        } else if packet_type == HCI_EVENT_PACKET_TYPE {
            let evcode = match reader.read_u8() {
                Some(e) => e,
                None => {
                    return Err(HCIPacketError::Truncated);
                },
            };
            proof {
                lemma_advanced_rest(v0, 2);
            }
            let len = match reader.read_u8() {
                Some(l) => l,
                None => {
                    return Err(HCIPacketError::Truncated);
                },
            };
            proof {
                lemma_advanced_rest(v0, 3);
            }
            let data = match reader.read_slice(len as usize) {
                Some(d) => d,
                None => {
                    return Err(HCIPacketError::Truncated);
                },
            };
            proof {
                assert(data@ =~= buf@.subrange(3, 3 + len));
            }
            Ok(HCIPacket::Event(HCIEventPacket::new(evcode, len as usize, data)))
        } else if packet_type == HCI_SYNCHRONOUS_DATA_PACKET_TYPE || packet_type
            == HCI_ISO_DATA_PACKET_TYPE {
            Err(HCIPacketError::UnsupportedPacketType(packet_type))
        } else {
            Err(HCIPacketError::UnknownPacketType(packet_type))
        }
    }

    /// Frames the packet at the start of `buf`; nothing when that fails.
    pub fn from_buf(buf: &[u8]) -> (r: Option<HCIPacket>)
        ensures
            r is Some <==> parse_packet(buf@) is Ok,
            r matches Some(p) ==> parse_packet(buf@) == Ok::<PacketView, HCIPacketError>(p@),
    {
        match Self::read_from_slice(buf) {
            Ok(p) => Some(p),
            Err(_) => None,
        }
    }

    /// Writes the packet at the start of `buf` and returns its size. `buf` is
    /// left as it was when a field does not fit its header, or the packet does
    /// not fit in `buf`.
    pub fn write_to_buffer(&self, buf: &mut Vec<u8>) -> (r: Result<usize, HCIPacketError>)
        ensures
            !packet_encodable(self@) ==> r == Err::<usize, HCIPacketError>(
                HCIPacketError::InvalidEncoding,
            ) && final(buf)@ == old(buf)@,
            packet_encodable(self@) && packet_bytes(self@).len() > old(buf)@.len() ==> r == Err::<
                usize,
                HCIPacketError,
            >(HCIPacketError::BufferOverflow) && final(buf)@ == old(buf)@,
            packet_encodable(self@) && packet_bytes(self@).len() <= old(buf)@.len() ==> r == Ok::<
                usize,
                HCIPacketError,
            >(packet_bytes(self@).len() as usize) && final(buf)@ == overwrite(
                old(buf)@,
                0,
                packet_bytes(self@),
            ),
    {
        let total = match self {
            HCIPacket::Command(p) => {
                if p.parameters.len() > 255 {
                    return Err(HCIPacketError::InvalidEncoding);
                }
                4 + p.parameters.len()
            },
            HCIPacket::ACLData(p) => {
                if p.handle >= 0x1000 || p.packet_boundary_flag >= 4 || p.broadcast_flag >= 4
                    || p.data.len() > 0xFFFF {
                    return Err(HCIPacketError::InvalidEncoding);
                }
                5 + p.data.len()
            },
            HCIPacket::Event(p) => {
                if p.parameters.len() > 255 {
                    return Err(HCIPacketError::InvalidEncoding);
                }
                3 + p.parameters.len()
            },
        };
        proof {
            lemma_packet_bytes_len(self@);
        }
        if total > buf.len() {
            return Err(HCIPacketError::BufferOverflow);
        }
        let mut owned: Vec<u8> = Vec::new();
        core::mem::swap(buf, &mut owned);
        let mut writer = Writer::new(owned);
        let ghost b0 = writer@.buf;
        match self {
            HCIPacket::Command(p) => {
                let _ = writer.write_u8(HCI_COMMAND_PACKET_TYPE);
                let _ = writer.write_u16(p.opcode);
                let _ = writer.write_u8(p.parameters.len() as u8);
                let _ = writer.write_slice(p.parameters.as_slice());
                proof {
                    let s1 = seq![HCI_COMMAND_PACKET_TYPE];
                    let s2 = le_bytes(p.opcode as nat, 2);
                    let s3 = seq![p.parameters@.len() as u8];
                    lemma_le_bytes_len(p.opcode as nat, 2);
                    lemma_overwrite_append(b0, 0, s1, s2);
                    lemma_overwrite_append(b0, 0, s1 + s2, s3);
                    lemma_overwrite_append(b0, 0, s1 + s2 + s3, p.parameters@);
                }
            },
            HCIPacket::ACLData(p) => {
                let header = (p.handle << 4u16) | ((p.packet_boundary_flag as u16) << 2u16) | (
                p.broadcast_flag as u16);
                let _ = writer.write_u8(HCI_ACL_DATA_PACKET_TYPE);
                let _ = writer.write_u16(header);
                let _ = writer.write_u16(p.data.len() as u16);
                let _ = writer.write_slice(p.data.as_slice());
                proof {
                    let s1 = seq![HCI_ACL_DATA_PACKET_TYPE];
                    let s2 = le_bytes(header as nat, 2);
                    let s3 = le_bytes(p.data@.len(), 2);
                    lemma_le_bytes_len(header as nat, 2);
                    lemma_le_bytes_len(p.data@.len(), 2);
                    lemma_overwrite_append(b0, 0, s1, s2);
                    lemma_overwrite_append(b0, 0, s1 + s2, s3);
                    lemma_overwrite_append(b0, 0, s1 + s2 + s3, p.data@);
                }
            },
            HCIPacket::Event(p) => {
                let _ = writer.write_u8(HCI_EVENT_PACKET_TYPE);
                let _ = writer.write_u8(p.evcode);
                let _ = writer.write_u8(p.parameters.len() as u8);
                let _ = writer.write_slice(p.parameters.as_slice());
                proof {
                    let s1 = seq![HCI_EVENT_PACKET_TYPE];
                    let s2 = seq![p.evcode];
                    let s3 = seq![p.parameters@.len() as u8];
                    lemma_overwrite_append(b0, 0, s1, s2);
                    lemma_overwrite_append(b0, 0, s1 + s2, s3);
                    lemma_overwrite_append(b0, 0, s1 + s2 + s3, p.parameters@);
                    assert(s1 + s2 + s3 =~= seq![
                        HCI_EVENT_PACKET_TYPE,
                        p.evcode,
                        p.parameters@.len() as u8,
                    ]);
                }
            },
        }
        *buf = writer.into_inner();
        Ok(total)
    }
}

/// Size of a packet's bytes.
pub proof fn lemma_packet_bytes_len(p: PacketView)
    ensures
        packet_bytes(p).len() == match p {
            PacketView::Command { parameters, .. } => 4 + parameters.len(),
            PacketView::ACLData { data, .. } => 5 + data.len(),
            PacketView::Event { parameters, .. } => 3 + parameters.len(),
        },
{
    match p {
        PacketView::Command { opcode, .. } => lemma_le_bytes_len(opcode as nat, 2),
        PacketView::ACLData { handle, packet_boundary_flag, broadcast_flag, data } => {
            lemma_le_bytes_len(acl_header(handle, packet_boundary_flag, broadcast_flag) as nat, 2);
            lemma_le_bytes_len(data.len(), 2);
        },
        PacketView::Event { .. } => {},
    }
}

/// The three fields of an ACL header come back out of it.
pub proof fn lemma_acl_header_fields(handle: u16, packet_boundary_flag: u8, broadcast_flag: u8)
    requires
        handle < 0x1000,
        packet_boundary_flag < 4,
        broadcast_flag < 4,
    ensures
        acl_handle(acl_header(handle, packet_boundary_flag, broadcast_flag)) == handle,
        acl_packet_boundary_flag(acl_header(handle, packet_boundary_flag, broadcast_flag))
            == packet_boundary_flag,
        acl_broadcast_flag(acl_header(handle, packet_boundary_flag, broadcast_flag))
            == broadcast_flag,
{
    assert((((handle << 4u16) | ((packet_boundary_flag as u16) << 2u16) | (
    broadcast_flag as u16)) & 0xFFF0) >> 4u16 == handle) by (bit_vector)
        requires
            handle < 0x1000,
            packet_boundary_flag < 4,
            broadcast_flag < 4,
    ;
    assert((((((handle << 4u16) | ((packet_boundary_flag as u16) << 2u16) | (
    broadcast_flag as u16)) & 0x000F) as u8) & 0x0C) >> 2u8 == packet_boundary_flag)
        by (bit_vector)
        requires
            handle < 0x1000,
            packet_boundary_flag < 4,
            broadcast_flag < 4,
    ;
    assert(((((handle << 4u16) | ((packet_boundary_flag as u16) << 2u16) | (
    broadcast_flag as u16)) & 0x000F) as u8) & 0x03 == broadcast_flag) by (bit_vector)
        requires
            handle < 0x1000,
            packet_boundary_flag < 4,
            broadcast_flag < 4,
    ;
}

/// Framing the bytes of a packet, whatever follows them, gives the packet back.
pub proof fn lemma_packet_round_trip(p: PacketView, tail: Seq<u8>)
    requires
        packet_encodable(p),
    ensures
        parse_packet(packet_bytes(p) + tail) == Ok::<PacketView, HCIPacketError>(p),
{
    let b = packet_bytes(p) + tail;
    lemma_packet_bytes_len(p);
    lemma_byte_span_values();
    match p {
        PacketView::Command { opcode, parameters } => {
            assert(b.subrange(1, 3) =~= le_bytes(opcode as nat, 2));
            lemma_le_value_of_bytes(opcode as nat, 2);
            assert(b.subrange(4, 4 + b[3]) =~= parameters);
        },
        PacketView::ACLData { handle, packet_boundary_flag, broadcast_flag, data } => {
            let header = acl_header(handle, packet_boundary_flag, broadcast_flag);
            lemma_le_bytes_len(header as nat, 2);
            lemma_le_bytes_len(data.len(), 2);
            assert(b.subrange(1, 3) =~= le_bytes(header as nat, 2));
            lemma_le_value_of_bytes(header as nat, 2);
            assert(b.subrange(3, 5) =~= le_bytes(data.len(), 2));
            lemma_le_value_of_bytes(data.len(), 2);
            lemma_acl_header_fields(handle, packet_boundary_flag, broadcast_flag);
            assert(b.subrange(5, 5 + u16_at(b, 3)) =~= data);
        },
        PacketView::Event { evcode, parameters } => {
            assert(b.subrange(3, 3 + b[2]) =~= parameters);
        },
    }
}

/// Every proper prefix of a packet's bytes fails to frame as truncated: the
/// framer never reads past the input.
pub proof fn lemma_packet_truncated(p: PacketView, i: int)
    requires
        packet_encodable(p),
        0 <= i < packet_bytes(p).len(),
    ensures
        parse_packet(packet_bytes(p).take(i)) == Err::<PacketView, HCIPacketError>(
            HCIPacketError::Truncated,
        ),
{
    let full = packet_bytes(p);
    let b = full.take(i);
    lemma_packet_bytes_len(p);
    lemma_byte_span_values();
    match p {
        PacketView::ACLData { handle, packet_boundary_flag, broadcast_flag, data } => {
            if i >= 5 {
                lemma_le_bytes_len(acl_header(handle, packet_boundary_flag, broadcast_flag) as nat, 2);
                lemma_le_bytes_len(data.len(), 2);
                assert(b.subrange(3, 5) =~= le_bytes(data.len(), 2));
                lemma_le_value_of_bytes(data.len(), 2);
            }
        },
        _ => {},
    }
}

} // verus!
