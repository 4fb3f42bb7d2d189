//! HCI command encoding: packet type, opcode, parameter length, parameters.
use crate::buffer::{
    lemma_le_bytes_len, lemma_overwrite_append, le_bytes, overwrite, WriteError, Writer,
    WriterView,
};
use crate::gap::{ad_encodable, ad_record, AdvertisingData, AdvertisingDataView};
use crate::packet::{
    lemma_packet_round_trip, packet_bytes, parse_packet, HCIPacketError, PacketView,
    HCI_COMMAND_PACKET_TYPE,
};
use vstd::array::array_len_matches_n;
use vstd::layout::layout_of_primitives;
use vstd::prelude::*;

verus! {

broadcast use layout_of_primitives;

/// Opcode group: Controller & Baseband commands.
pub const OGF_CONTROL_AND_BASEBAND_COMMAND: u16 = 0x03;

/// Opcode group: LE Controller commands.
pub const OGF_LE_CONTROLLER_COMMAND: u16 = 0x08;

/// Reset.
pub const OCF_RESET: u16 = 0x03;

/// LE Set Advertising Parameters.
pub const OCF_SET_ADVERTISING_PARAMETERS: u16 = 0x06;

/// LE Set Advertising Data.
pub const OCF_SET_ADVERTISING_DATA: u16 = 0x08;

/// LE Set Scan Response Data.
pub const OCF_SET_SCAN_RESPONSE_DATA: u16 = 0x09;

/// LE Set Advertising Enable.
pub const OCF_SET_ADVERTISING_ENABLE: u16 = 0x0A;

/// LE Set Scan Parameters.
pub const OCF_SET_SCAN_PARAMETERS: u16 = 0x0B;

/// LE Set Scan Enable.
pub const OCF_SET_SCAN_ENABLE: u16 = 0x0C;

/// Size of the advertising (or scan response) data region of the commands
/// that carry one.
pub const AD_PAYLOAD_LEN: usize = 31;

/// The opcode of a command: the command field in the low 10 bits, the group
/// field in the upper 6.
pub open spec fn spec_opcode(ocf: u16, ogf: u16) -> u16 {
    (ocf | (ogf << 10u16)) as u16
}

/// The opcode of a command: the command field in the low 10 bits, the group
/// field in the upper 6.
pub fn opcode(ocf: u16, ogf: u16) -> (r: u16)
    ensures
        r == spec_opcode(ocf, ogf),
{
    ocf | (ogf << 10u16)
}

/// Parameters of LE Set Advertising Parameters.
#[derive(Debug, Clone, Copy, PartialEq, Eq)]
pub struct SetAdvertisingParametersCommand {
    pub interval_min: u16,
    pub interval_max: u16,
    pub advertising_type: u8,
    pub own_address_type: u8,
    pub peer_address_type: u8,
    pub peer_address: [u8; 6],
    pub advertising_channel_map: u8,
    pub advertising_filter_policy: u8,
}

/// Parameters of LE Set Scan Parameters.
#[derive(Debug, Clone, Copy, PartialEq, Eq, Structural)]
pub struct SetScanParametersCommand {
    pub scan_type: u8,
    pub scan_interval: u16,
    pub scan_window: u16,
    pub own_address_type: u8,
    pub scanning_filter_policy: u8,
}

/// Parameters of LE Set Scan Enable.
#[derive(Debug, Clone, Copy, PartialEq, Eq, Structural)]
pub struct ScanEnableCommand {
    pub scan_enable: u8,
    pub filter_duplicates: u8,
}

/// The parameter bytes of LE Set Advertising Parameters, in field order.
pub open spec fn advertising_parameters_bytes(c: SetAdvertisingParametersCommand) -> Seq<u8> {
    le_bytes(c.interval_min as nat, 2) + le_bytes(c.interval_max as nat, 2) + seq![
        c.advertising_type,
        c.own_address_type,
        c.peer_address_type,
    ] + c.peer_address@ + seq![c.advertising_channel_map, c.advertising_filter_policy]
}

/// The parameter bytes of LE Set Scan Parameters, in field order.
pub open spec fn scan_parameters_bytes(c: SetScanParametersCommand) -> Seq<u8> {
    seq![c.scan_type] + le_bytes(c.scan_interval as nat, 2) + le_bytes(c.scan_window as nat, 2)
        + seq![c.own_address_type, c.scanning_filter_policy]
}

/// The parameter bytes of LE Set Scan Enable, in field order.
pub open spec fn scan_enable_bytes(c: ScanEnableCommand) -> Seq<u8> {
    seq![c.scan_enable, c.filter_duplicates]
}

/// A buffer of `n` zero bytes.
fn zeros(n: usize) -> (r: Vec<u8>)
    ensures
        r@ == Seq::new(n as nat, |i: int| 0u8),
{
    let mut v: Vec<u8> = Vec::new();
    let mut i: usize = 0;
    while i < n
        invariant
            i <= n,
            v@ == Seq::new(i as nat, |k: int| 0u8),
        decreases n - i,
    {
        v.push(0);
        i = i + 1;
        proof {
            assert(v@ =~= Seq::new(i as nat, |k: int| 0u8));
        }
    }
    v
}

impl SetAdvertisingParametersCommand {
    /// Encoded size of the parameters: the sum of the field widths.
    pub fn size(&self) -> (r: usize)
        ensures
            r == advertising_parameters_bytes(*self).len(),
    {
        proof {
            lemma_le_bytes_len(self.interval_min as nat, 2);
            lemma_le_bytes_len(self.interval_max as nat, 2);
        }
        core::mem::size_of::<u16>() + core::mem::size_of::<u16>() + core::mem::size_of::<u8>()
            + core::mem::size_of::<u8>() + core::mem::size_of::<u8>() + self.peer_address.len()
            + core::mem::size_of::<u8>() + core::mem::size_of::<u8>()
    }

    /// The parameter bytes, in field order.
    pub fn to_parameters(&self) -> (r: Vec<u8>)
        ensures
            r@ == advertising_parameters_bytes(*self),
    {
        let n = self.size();
        let mut writer = Writer::new(zeros(n));
        let ghost b0 = writer@.buf;
        let ghost s1 = le_bytes(self.interval_min as nat, 2);
        let ghost s2 = le_bytes(self.interval_max as nat, 2);
        let ghost s3 = seq![self.advertising_type];
        let ghost s4 = seq![self.own_address_type];
        let ghost s5 = seq![self.peer_address_type];
        let ghost s6 = self.peer_address@;
        let ghost s7 = seq![self.advertising_channel_map];
        let ghost s8 = seq![self.advertising_filter_policy];
        proof {
            lemma_le_bytes_len(self.interval_min as nat, 2);
            lemma_le_bytes_len(self.interval_max as nat, 2);
        }
        let _ = writer.write_u16(self.interval_min);
        let _ = writer.write_u16(self.interval_max);
        let _ = writer.write_u8(self.advertising_type);
        let _ = writer.write_u8(self.own_address_type);
        let _ = writer.write_u8(self.peer_address_type);
        let _ = writer.write_slice(self.peer_address.as_slice());
        let _ = writer.write_u8(self.advertising_channel_map);
        let _ = writer.write_u8(self.advertising_filter_policy);
        proof {
            lemma_overwrite_append(b0, 0, s1, s2);
            lemma_overwrite_append(b0, 0, s1 + s2, s3);
            lemma_overwrite_append(b0, 0, s1 + s2 + s3, s4);
            lemma_overwrite_append(b0, 0, s1 + s2 + s3 + s4, s5);
            lemma_overwrite_append(b0, 0, s1 + s2 + s3 + s4 + s5, s6);
            lemma_overwrite_append(b0, 0, s1 + s2 + s3 + s4 + s5 + s6, s7);
            lemma_overwrite_append(b0, 0, s1 + s2 + s3 + s4 + s5 + s6 + s7, s8);
            assert(s3 + s4 + s5 =~= seq![
                self.advertising_type,
                self.own_address_type,
                self.peer_address_type,
            ]);
            assert(s7 + s8 =~= seq![self.advertising_channel_map, self.advertising_filter_policy]);
            assert(overwrite(b0, 0, s1 + s2 + s3 + s4 + s5 + s6 + s7 + s8)
                =~= advertising_parameters_bytes(*self));
        }
        writer.into_inner()
    }
}

impl SetScanParametersCommand {
    /// Encoded size of the parameters: the sum of the field widths.
    pub fn size(&self) -> (r: usize)
        ensures
            r == scan_parameters_bytes(*self).len(),
    {
        proof {
            lemma_le_bytes_len(self.scan_interval as nat, 2);
            lemma_le_bytes_len(self.scan_window as nat, 2);
        }
        core::mem::size_of::<u8>() + core::mem::size_of::<u16>() + core::mem::size_of::<u16>()
            + core::mem::size_of::<u8>() + core::mem::size_of::<u8>()
    }

    /// The parameter bytes, in field order.
    pub fn to_parameters(&self) -> (r: Vec<u8>)
        ensures
            r@ == scan_parameters_bytes(*self),
    {
        let n = self.size();
        let mut writer = Writer::new(zeros(n));
        let ghost b0 = writer@.buf;
        let ghost s1 = seq![self.scan_type];
        let ghost s2 = le_bytes(self.scan_interval as nat, 2);
        let ghost s3 = le_bytes(self.scan_window as nat, 2);
        let ghost s4 = seq![self.own_address_type];
        let ghost s5 = seq![self.scanning_filter_policy];
        proof {
            lemma_le_bytes_len(self.scan_interval as nat, 2);
            lemma_le_bytes_len(self.scan_window as nat, 2);
        }
        let _ = writer.write_u8(self.scan_type);
        let _ = writer.write_u16(self.scan_interval);
        let _ = writer.write_u16(self.scan_window);
        let _ = writer.write_u8(self.own_address_type);
        let _ = writer.write_u8(self.scanning_filter_policy);
        proof {
            lemma_overwrite_append(b0, 0, s1, s2);
            lemma_overwrite_append(b0, 0, s1 + s2, s3);
            lemma_overwrite_append(b0, 0, s1 + s2 + s3, s4);
            lemma_overwrite_append(b0, 0, s1 + s2 + s3 + s4, s5);
            assert(s4 + s5 =~= seq![self.own_address_type, self.scanning_filter_policy]);
            assert(overwrite(b0, 0, s1 + s2 + s3 + s4 + s5) =~= scan_parameters_bytes(*self));
        }
        writer.into_inner()
    }
}

impl ScanEnableCommand {
    /// Encoded size of the parameters: the sum of the field widths.
    pub fn size(&self) -> (r: usize)
        ensures
            r == scan_enable_bytes(*self).len(),
    {
        core::mem::size_of::<u8>() + core::mem::size_of::<u8>()
    }

    /// The parameter bytes, in field order.
    pub fn to_parameters(&self) -> (r: Vec<u8>)
        ensures
            r@ == scan_enable_bytes(*self),
    {
        let n = self.size();
        let mut writer = Writer::new(zeros(n));
        let ghost b0 = writer@.buf;
        let _ = writer.write_u8(self.scan_enable);
        let _ = writer.write_u8(self.filter_duplicates);
        proof {
            lemma_overwrite_append(b0, 0, seq![self.scan_enable], seq![self.filter_duplicates]);
            assert(overwrite(b0, 0, seq![self.scan_enable] + seq![self.filter_duplicates])
                =~= scan_enable_bytes(*self));
        }
        writer.into_inner()
    }
}

/// The records of `data`, back to back.
pub open spec fn ad_run(data: Seq<AdvertisingDataView>) -> Seq<u8>
    decreases data.len(),
{
    if data.len() == 0 {
        seq![]
    } else {
        ad_run(data.drop_last()) + ad_record(data.last())
    }
}

/// The parameters of a command that carries advertising data: the length of
/// the significant part, then the records of `data` padded with zeros to
/// [`AD_PAYLOAD_LEN`] bytes. Nothing when an element cannot be encoded or the
/// records do not fit.
pub open spec fn advertising_data_parameters(data: Seq<AdvertisingDataView>) -> Option<Seq<u8>> {
    if (forall|i: int| 0 <= i < data.len() ==> ad_encodable(#[trigger] data[i])) && ad_run(
        data,
    ).len() <= AD_PAYLOAD_LEN {
        Some(
            seq![ad_run(data).len() as u8] + ad_run(data) + Seq::new(
                (AD_PAYLOAD_LEN - ad_run(data).len()) as nat,
                |i: int| 0u8,
            ),
        )
    } else {
        None
    }
}

/// The runs of the first elements are prefixes of the whole run, so never longer.
pub proof fn lemma_ad_run_prefix_len(data: Seq<AdvertisingDataView>, j: int)
    requires
        0 <= j <= data.len(),
    ensures
        ad_run(data.take(j)).len() <= ad_run(data).len(),
    decreases data.len(),
{
    if j < data.len() {
        assert(data.drop_last().take(j) =~= data.take(j));
        lemma_ad_run_prefix_len(data.drop_last(), j);
    } else {
        assert(data.take(j) =~= data);
    }
}

/// The values of a list of elements.
pub open spec fn ad_views(data: Seq<AdvertisingData>) -> Seq<AdvertisingDataView> {
    data.map_values(|d: AdvertisingData| d@)
}

/// Builds the parameters of a command that carries advertising data.
fn advertising_parameters(data: &Vec<AdvertisingData>) -> (r: Option<Vec<u8>>)
    ensures
        match advertising_data_parameters(ad_views(data@)) {
            Some(p) => r matches Some(v) && v@ == p,
            None => r is None,
        },
{
    let ghost views = ad_views(data@);
    let mut scratch = Writer::new(zeros(AD_PAYLOAD_LEN));
    let ghost b0 = scratch@.buf;
    let mut i: usize = 0;
    proof {
        assert(views.take(0) =~= Seq::<AdvertisingDataView>::empty());
        assert(overwrite(b0, 0, seq![]) =~= b0);
    }
    while i < data.len()
        invariant
            i <= data@.len(),
            views == ad_views(data@),
            b0 == Seq::new(AD_PAYLOAD_LEN as nat, |k: int| 0u8),
            forall|k: int| 0 <= k < i ==> ad_encodable(#[trigger] views[k]),
            ad_run(views.take(i as int)).len() <= AD_PAYLOAD_LEN,
            scratch@ == (WriterView {
                buf: overwrite(b0, 0, ad_run(views.take(i as int))),
                pos: ad_run(views.take(i as int)).len(),
            }),
        decreases data@.len() - i,
    {
        let ghost run = ad_run(views.take(i as int));
        proof {
            assert(views.take(i + 1).drop_last() =~= views.take(i as int));
            assert(views.take(i + 1).last() == data@[i as int]@);
        }
        match data[i].write_to(&mut scratch) {
            Some(_) => {
                proof {
                    lemma_overwrite_append(b0, 0, run, ad_record(views[i as int]));
                }
            },
            None => {
                proof {
                    if ad_encodable(views[i as int]) {
                        lemma_ad_run_prefix_len(views, i + 1);
                    }
                }
                return None;
            },
        }
        i = i + 1;
    }
    let ghost run = ad_run(views);
    proof {
        assert(views.take(data@.len() as int) =~= views);
    }
    let used = scratch.pos();
    let mut params: Vec<u8> = Vec::new();
    params.push(used as u8);
    let padded = scratch.into_inner();
    params.extend_from_slice(padded.as_slice());
    proof {
        assert(params@ =~= seq![run.len() as u8] + run + Seq::new(
            (AD_PAYLOAD_LEN - run.len()) as nat,
            |k: int| 0u8,
        ));
    }
    Some(params)
}

/// A command of the supported subset.
#[derive(Debug, Clone, PartialEq, Eq)]
pub enum HCICommand {
    Reset,
    SetAdvertisingParameters(SetAdvertisingParametersCommand),
    SetAdvertisingData { data: Vec<AdvertisingData> },
    SetScanResponseData { data: Vec<AdvertisingData> },
    SetAdvertisingEnable { enable: u8 },
    SetScanParameters(SetScanParametersCommand),
    ScanEnable(ScanEnableCommand),
}

/// The opcode of a command, from its fixed group and command fields.
pub open spec fn command_opcode(c: HCICommand) -> u16 {
    match c {
        HCICommand::Reset => spec_opcode(OCF_RESET, OGF_CONTROL_AND_BASEBAND_COMMAND),
        HCICommand::SetAdvertisingParameters(_) => spec_opcode(
            OCF_SET_ADVERTISING_PARAMETERS,
            OGF_LE_CONTROLLER_COMMAND,
        ),
        HCICommand::SetAdvertisingData { .. } => spec_opcode(
            OCF_SET_ADVERTISING_DATA,
            OGF_LE_CONTROLLER_COMMAND,
        ),
        HCICommand::SetScanResponseData { .. } => spec_opcode(
            OCF_SET_SCAN_RESPONSE_DATA,
            OGF_LE_CONTROLLER_COMMAND,
        ),
        HCICommand::SetAdvertisingEnable { .. } => spec_opcode(
            OCF_SET_ADVERTISING_ENABLE,
            OGF_LE_CONTROLLER_COMMAND,
        ),
        HCICommand::SetScanParameters(_) => spec_opcode(
            OCF_SET_SCAN_PARAMETERS,
            OGF_LE_CONTROLLER_COMMAND,
        ),
        HCICommand::ScanEnable(_) => spec_opcode(OCF_SET_SCAN_ENABLE, OGF_LE_CONTROLLER_COMMAND),
    }
}

/// The parameter bytes of a command; nothing when its advertising data cannot
/// be encoded in the data region.
pub open spec fn command_parameters(c: HCICommand) -> Option<Seq<u8>> {
    match c {
        HCICommand::Reset => Some(seq![]),
        HCICommand::SetAdvertisingParameters(p) => Some(advertising_parameters_bytes(p)),
        HCICommand::SetAdvertisingData { data } => advertising_data_parameters(ad_views(data@)),
        HCICommand::SetScanResponseData { data } => advertising_data_parameters(ad_views(data@)),
        HCICommand::SetAdvertisingEnable { enable } => Some(seq![enable]),
        HCICommand::SetScanParameters(p) => Some(scan_parameters_bytes(p)),
        HCICommand::ScanEnable(p) => Some(scan_enable_bytes(p)),
    }
}

/// The bytes of a command packet: type byte, opcode (little-endian), the
/// length of the parameters, the parameters.
pub open spec fn command_bytes(c: HCICommand) -> Option<Seq<u8>> {
    match command_parameters(c) {
        Some(p) => Some(
            seq![HCI_COMMAND_PACKET_TYPE] + le_bytes(command_opcode(c) as nat, 2) + seq![
                p.len() as u8,
            ] + p,
        ),
        None => None,
    }
}

/// No command has more parameter bytes than its data region and length byte.
pub proof fn lemma_command_parameters_len(c: HCICommand)
    ensures
        command_parameters(c) matches Some(p) ==> p.len() <= AD_PAYLOAD_LEN + 1,
{
    match c {
        HCICommand::SetAdvertisingParameters(p) => {
            lemma_le_bytes_len(p.interval_min as nat, 2);
            lemma_le_bytes_len(p.interval_max as nat, 2);
            array_len_matches_n(&p.peer_address);
        },
        HCICommand::SetScanParameters(p) => {
            lemma_le_bytes_len(p.scan_interval as nat, 2);
            lemma_le_bytes_len(p.scan_window as nat, 2);
        },
        _ => {},
    }
}

impl HCICommand {
    /// The opcode and parameter bytes of this command; nothing when its
    /// advertising data cannot be encoded.
    fn opcode_and_parameters(&self) -> (r: Option<(u16, Vec<u8>)>)
        ensures
            match command_parameters(*self) {
                Some(p) => r matches Some((op, v)) && op == command_opcode(*self) && v@ == p,
                None => r is None,
            },
    {
        match self {
            HCICommand::Reset => Some(
                (opcode(OCF_RESET, OGF_CONTROL_AND_BASEBAND_COMMAND), Vec::new()),
            ),
            HCICommand::SetAdvertisingParameters(c) => Some(
                (
                    opcode(OCF_SET_ADVERTISING_PARAMETERS, OGF_LE_CONTROLLER_COMMAND),
                    c.to_parameters(),
                ),
            ),
            HCICommand::SetAdvertisingData { data } => match advertising_parameters(data) {
                Some(p) => Some((opcode(OCF_SET_ADVERTISING_DATA, OGF_LE_CONTROLLER_COMMAND), p)),
                None => None,
            },
            HCICommand::SetScanResponseData { data } => match advertising_parameters(data) {
                Some(p) => Some((opcode(OCF_SET_SCAN_RESPONSE_DATA, OGF_LE_CONTROLLER_COMMAND), p)),
                None => None,
            },
            HCICommand::SetAdvertisingEnable { enable } => {
                let mut p: Vec<u8> = Vec::new();
                p.push(*enable);
                proof {
                    assert(p@ =~= seq![*enable]);
                }
                Some((opcode(OCF_SET_ADVERTISING_ENABLE, OGF_LE_CONTROLLER_COMMAND), p))
            },
            HCICommand::SetScanParameters(c) => Some(
                (opcode(OCF_SET_SCAN_PARAMETERS, OGF_LE_CONTROLLER_COMMAND), c.to_parameters()),
            ),
            HCICommand::ScanEnable(c) => Some(
                (opcode(OCF_SET_SCAN_ENABLE, OGF_LE_CONTROLLER_COMMAND), c.to_parameters()),
            ),
        }
    }

    /// Writes this command's packet at the start of `buf` and returns its size.
    /// `buf` is left as it was, and nothing is returned, when the advertising
    /// data does not fit its region or the packet does not fit in `buf`.
    pub fn write_into(&self, buf: &mut Vec<u8>) -> (r: Option<usize>)
        ensures
            match command_bytes(*self) {
                Some(b) => {
                    &&& b.len() <= old(buf)@.len() ==> r == Some(b.len() as usize) && final(buf)@
                        == overwrite(old(buf)@, 0, b)
                    &&& b.len() > old(buf)@.len() ==> r is None && final(buf)@ == old(buf)@
                },
                None => r is None && final(buf)@ == old(buf)@,
            },
    {
        let (op, params) = match self.opcode_and_parameters() {
            Some(pair) => pair,
            None => {
                return None;
            },
        };
        proof {
            lemma_command_parameters_len(*self);
            lemma_le_bytes_len(op as nat, 2);
        }
        let total = 4 + params.len();
        if total > buf.len() {
            return None;
        }
        let mut owned: Vec<u8> = Vec::new();
        core::mem::swap(buf, &mut owned);
        let mut writer = Writer::new(owned);
        let ghost b0 = writer@.buf;
        let _ = writer.write_u8(HCI_COMMAND_PACKET_TYPE);
        let _ = writer.write_u16(op);
        let _ = writer.write_u8(params.len() as u8);
        let _ = writer.write_slice(params.as_slice());
        proof {
            let s1 = seq![HCI_COMMAND_PACKET_TYPE];
            let s2 = le_bytes(op as nat, 2);
            let s3 = seq![params@.len() as u8];
            lemma_overwrite_append(b0, 0, s1, s2);
            lemma_overwrite_append(b0, 0, s1 + s2, s3);
            lemma_overwrite_append(b0, 0, s1 + s2 + s3, params@);
        }
        *buf = writer.into_inner();
        Some(total)
    }

    /// Writes this command's packet at the start of `buf` and returns its size;
    /// fails as [`write_into`](Self::write_into) does, with a buffer overflow.
    pub fn write_to_buffer(&self, buf: &mut Vec<u8>) -> (r: Result<usize, WriteError>)
        ensures
            match command_bytes(*self) {
                Some(b) => {
                    &&& b.len() <= old(buf)@.len() ==> r == Ok::<usize, WriteError>(
                        b.len() as usize,
                    ) && final(buf)@ == overwrite(old(buf)@, 0, b)
                    &&& b.len() > old(buf)@.len() ==> r == Err::<usize, WriteError>(
                        WriteError::BufferOverflow,
                    ) && final(buf)@ == old(buf)@
                },
                None => r == Err::<usize, WriteError>(WriteError::BufferOverflow) && final(buf)@
                    == old(buf)@,
            },
    {
        match self.write_into(buf) {
            Some(n) => Ok(n),
            None => Err(WriteError::BufferOverflow),
        }
    }
}

/// Framing the encoding of a command gives back a command packet that holds
/// the command's opcode and exactly its parameter bytes as the command tables
/// lay them out.
pub proof fn lemma_command_frame_round_trip(c: HCICommand)
    requires
        command_parameters(c) is Some,
    ensures
        command_bytes(c) matches Some(b) && parse_packet(b) == Ok::<PacketView, HCIPacketError>(
            PacketView::Command {
                opcode: command_opcode(c),
                parameters: command_parameters(c)->0,
            },
        ),
{
    let p = command_parameters(c)->0;
    let packet = PacketView::Command { opcode: command_opcode(c), parameters: p };
    lemma_command_parameters_len(c);
    lemma_packet_round_trip(packet, seq![]);
    assert(packet_bytes(packet) + seq![] =~= command_bytes(c)->0);
}

} // verus!
