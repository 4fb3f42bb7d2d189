//! HCI event decoding: Command Complete, and the LE advertising reports of
//! the LE Meta event, read lazily one report at a time.
use crate::buffer::{lemma_advanced_rest, lemma_i8_bits, Reader};
use crate::gap::AdvertisingDataIterator;
use crate::packet::{u16_at, HCIEventPacket};
use vstd::prelude::*;

verus! {

/// Event codes of the events this decoder knows.
#[derive(Debug, Clone, Copy, PartialEq, Eq, Structural)]
pub enum HCIEventCode {
    CommandComplete,
    LEMetaEvent,
}

impl HCIEventCode {
    /// The code byte of this kind.
    pub open spec fn spec_code(self) -> u8 {
        match self {
            HCIEventCode::CommandComplete => 0x0E,
            HCIEventCode::LEMetaEvent => 0x3E,
        }
    }

    /// The kind whose code byte is `code`, if any.
    pub open spec fn spec_from_code(code: u8) -> Option<HCIEventCode> {
        match code {
            0x0E => Some(HCIEventCode::CommandComplete),
            0x3E => Some(HCIEventCode::LEMetaEvent),
            _ => None,
        }
    }

    /// The code byte of this kind.
    pub fn into_u8(self) -> (r: u8)
        ensures
            r == self.spec_code(),
    {
        match self {
            HCIEventCode::CommandComplete => 0x0E,
            HCIEventCode::LEMetaEvent => 0x3E,
        }
    }

    /// The kind whose code byte is `code`; nothing for a code outside the table.
    pub fn from_u8(code: u8) -> (r: Option<HCIEventCode>)
        ensures
            r == Self::spec_from_code(code),
    {
        match code {
            0x0E => Some(HCIEventCode::CommandComplete),
            0x3E => Some(HCIEventCode::LEMetaEvent),
            _ => None,
        }
    }
}

/// Sub-event codes of the LE Meta event.
#[derive(Debug, Clone, Copy, PartialEq, Eq, Structural)]
pub enum SubeventCode {
    ConnectionComplete,
    AdvertisingReport,
    ConnectionUpdateComplete,
    ReadRemoteFeaturesPage0Complete,
    LongTermKeyRequest,
    RemoteConnectionParameterRequest,
    DataLengthChange,
    ReadLocalP256PublicKeyComplete,
    GenerateDHKeyComplete,
    EnhancedConnectionCompleteV1,
    EnhancedConnectionCompleteV2,
    DirectedAdvertisingReport,
    PHYUpdateComplete,
    ExtendedAdvertisingReport,
    PeriodicAdvertisingSyncEstablished,
    PeriodicAdvertisingReport,
    PeriodicAdvertisingSyncLost,
    ScanTimeout,
    AdvertisingSetTerminated,
    ScanRequestReceived,
    ChannelSelectionAlgorithm,
    ConnectionlessIQReport,
    ConnectionIQReport,
    CTERequestFailed,
    PeriodicAdvertisingSyncTransferReceivedV1,
    PeriodicAdvertisingSyncTransferReceivedV2,
    CISEstablishedV1,
    CISEstablishedV2,
    CISRequest,
    CreateBIGComplete,
    TerminateBIGComplete,
    BIGSyncEstablished,
    BIGSyncLost,
    RequestPeerSCAComplete,
    PathLossThreshold,
    TransmitPowerReporting,
    BIGInfoAdvertisingReport,
    SubrateChange,
    PeriodicAdvertisingSubeventDataRequest,
    PeriodicAdvertisingResponseReport,
    ReadAllRemoteFeaturesComplete,
    CSReadRemoteSupportedCapabilitiesComplete,
    CSReadRemoteFAETableComplete,
    CSSecurityEnableComplete,
    CSConfigComplete,
    CSProcedureEnableComplete,
    CSSubeventResult,
    CSSubeventResultContinue,
    CSTestEndComplete,
    MonitoredAdvertisersReport,
    FrameSpaceUpdateComplete,
}

impl SubeventCode {
    /// The code byte of this kind.
    pub open spec fn spec_code(self) -> u8 {
        match self {
            SubeventCode::ConnectionComplete => 0x01,
            SubeventCode::AdvertisingReport => 0x02,
            SubeventCode::ConnectionUpdateComplete => 0x03,
            SubeventCode::ReadRemoteFeaturesPage0Complete => 0x04,
            SubeventCode::LongTermKeyRequest => 0x05,
            SubeventCode::RemoteConnectionParameterRequest => 0x06,
            SubeventCode::DataLengthChange => 0x07,
            SubeventCode::ReadLocalP256PublicKeyComplete => 0x08,
            SubeventCode::GenerateDHKeyComplete => 0x09,
            SubeventCode::EnhancedConnectionCompleteV1 => 0x0A,
            SubeventCode::EnhancedConnectionCompleteV2 => 0x29,
            SubeventCode::DirectedAdvertisingReport => 0x0B,
            SubeventCode::PHYUpdateComplete => 0x0C,
            SubeventCode::ExtendedAdvertisingReport => 0x0D,
            SubeventCode::PeriodicAdvertisingSyncEstablished => 0x0E,
            SubeventCode::PeriodicAdvertisingReport => 0x0F,
            SubeventCode::PeriodicAdvertisingSyncLost => 0x10,
            SubeventCode::ScanTimeout => 0x11,
            SubeventCode::AdvertisingSetTerminated => 0x12,
            SubeventCode::ScanRequestReceived => 0x13,
            SubeventCode::ChannelSelectionAlgorithm => 0x14,
            SubeventCode::ConnectionlessIQReport => 0x15,
            SubeventCode::ConnectionIQReport => 0x16,
            SubeventCode::CTERequestFailed => 0x17,
            SubeventCode::PeriodicAdvertisingSyncTransferReceivedV1 => 0x18,
            SubeventCode::PeriodicAdvertisingSyncTransferReceivedV2 => 0x26,
            SubeventCode::CISEstablishedV1 => 0x19,
            SubeventCode::CISEstablishedV2 => 0x2A,
            SubeventCode::CISRequest => 0x1A,
            SubeventCode::CreateBIGComplete => 0x1B,
            SubeventCode::TerminateBIGComplete => 0x1C,
            SubeventCode::BIGSyncEstablished => 0x1D,
            SubeventCode::BIGSyncLost => 0x1E,
            SubeventCode::RequestPeerSCAComplete => 0x1F,
            SubeventCode::PathLossThreshold => 0x20,
            SubeventCode::TransmitPowerReporting => 0x21,
            SubeventCode::BIGInfoAdvertisingReport => 0x22,
            SubeventCode::SubrateChange => 0x23,
            SubeventCode::PeriodicAdvertisingSubeventDataRequest => 0x27,
            SubeventCode::PeriodicAdvertisingResponseReport => 0x28,
            SubeventCode::ReadAllRemoteFeaturesComplete => 0x2B,
            SubeventCode::CSReadRemoteSupportedCapabilitiesComplete => 0x2C,
            SubeventCode::CSReadRemoteFAETableComplete => 0x2D,
            SubeventCode::CSSecurityEnableComplete => 0x2E,
            SubeventCode::CSConfigComplete => 0x2F,
            SubeventCode::CSProcedureEnableComplete => 0x30,
            SubeventCode::CSSubeventResult => 0x31,
            SubeventCode::CSSubeventResultContinue => 0x32,
            SubeventCode::CSTestEndComplete => 0x33,
            SubeventCode::MonitoredAdvertisersReport => 0x34,
            SubeventCode::FrameSpaceUpdateComplete => 0x35,
        }
    }

    /// The kind whose code byte is `code`, if any.
    pub open spec fn spec_from_code(code: u8) -> Option<SubeventCode> {
        match code {
            0x01 => Some(SubeventCode::ConnectionComplete),
            0x02 => Some(SubeventCode::AdvertisingReport),
            0x03 => Some(SubeventCode::ConnectionUpdateComplete),
            0x04 => Some(SubeventCode::ReadRemoteFeaturesPage0Complete),
            0x05 => Some(SubeventCode::LongTermKeyRequest),
            0x06 => Some(SubeventCode::RemoteConnectionParameterRequest),
            0x07 => Some(SubeventCode::DataLengthChange),
            0x08 => Some(SubeventCode::ReadLocalP256PublicKeyComplete),
            0x09 => Some(SubeventCode::GenerateDHKeyComplete),
            0x0A => Some(SubeventCode::EnhancedConnectionCompleteV1),
            0x29 => Some(SubeventCode::EnhancedConnectionCompleteV2),
            0x0B => Some(SubeventCode::DirectedAdvertisingReport),
            0x0C => Some(SubeventCode::PHYUpdateComplete),
            0x0D => Some(SubeventCode::ExtendedAdvertisingReport),
            0x0E => Some(SubeventCode::PeriodicAdvertisingSyncEstablished),
            0x0F => Some(SubeventCode::PeriodicAdvertisingReport),
            0x10 => Some(SubeventCode::PeriodicAdvertisingSyncLost),
            0x11 => Some(SubeventCode::ScanTimeout),
            0x12 => Some(SubeventCode::AdvertisingSetTerminated),
            0x13 => Some(SubeventCode::ScanRequestReceived),
            0x14 => Some(SubeventCode::ChannelSelectionAlgorithm),
            0x15 => Some(SubeventCode::ConnectionlessIQReport),
            0x16 => Some(SubeventCode::ConnectionIQReport),
            0x17 => Some(SubeventCode::CTERequestFailed),
            0x18 => Some(SubeventCode::PeriodicAdvertisingSyncTransferReceivedV1),
            0x26 => Some(SubeventCode::PeriodicAdvertisingSyncTransferReceivedV2),
            0x19 => Some(SubeventCode::CISEstablishedV1),
            0x2A => Some(SubeventCode::CISEstablishedV2),
            0x1A => Some(SubeventCode::CISRequest),
            0x1B => Some(SubeventCode::CreateBIGComplete),
            0x1C => Some(SubeventCode::TerminateBIGComplete),
            0x1D => Some(SubeventCode::BIGSyncEstablished),
            0x1E => Some(SubeventCode::BIGSyncLost),
            0x1F => Some(SubeventCode::RequestPeerSCAComplete),
            0x20 => Some(SubeventCode::PathLossThreshold),
            0x21 => Some(SubeventCode::TransmitPowerReporting),
            0x22 => Some(SubeventCode::BIGInfoAdvertisingReport),
            0x23 => Some(SubeventCode::SubrateChange),
            0x27 => Some(SubeventCode::PeriodicAdvertisingSubeventDataRequest),
            0x28 => Some(SubeventCode::PeriodicAdvertisingResponseReport),
            0x2B => Some(SubeventCode::ReadAllRemoteFeaturesComplete),
            0x2C => Some(SubeventCode::CSReadRemoteSupportedCapabilitiesComplete),
            0x2D => Some(SubeventCode::CSReadRemoteFAETableComplete),
            0x2E => Some(SubeventCode::CSSecurityEnableComplete),
            0x2F => Some(SubeventCode::CSConfigComplete),
            0x30 => Some(SubeventCode::CSProcedureEnableComplete),
            0x31 => Some(SubeventCode::CSSubeventResult),
            0x32 => Some(SubeventCode::CSSubeventResultContinue),
            0x33 => Some(SubeventCode::CSTestEndComplete),
            0x34 => Some(SubeventCode::MonitoredAdvertisersReport),
            0x35 => Some(SubeventCode::FrameSpaceUpdateComplete),
            _ => None,
        }
    }

    /// The code byte of this kind.
    pub fn into_u8(self) -> (r: u8)
        ensures
            r == self.spec_code(),
    {
        match self {
            SubeventCode::ConnectionComplete => 0x01,
            SubeventCode::AdvertisingReport => 0x02,
            SubeventCode::ConnectionUpdateComplete => 0x03,
            SubeventCode::ReadRemoteFeaturesPage0Complete => 0x04,
            SubeventCode::LongTermKeyRequest => 0x05,
            SubeventCode::RemoteConnectionParameterRequest => 0x06,
            SubeventCode::DataLengthChange => 0x07,
            SubeventCode::ReadLocalP256PublicKeyComplete => 0x08,
            SubeventCode::GenerateDHKeyComplete => 0x09,
            SubeventCode::EnhancedConnectionCompleteV1 => 0x0A,
            SubeventCode::EnhancedConnectionCompleteV2 => 0x29,
            SubeventCode::DirectedAdvertisingReport => 0x0B,
            SubeventCode::PHYUpdateComplete => 0x0C,
            SubeventCode::ExtendedAdvertisingReport => 0x0D,
            SubeventCode::PeriodicAdvertisingSyncEstablished => 0x0E,
            SubeventCode::PeriodicAdvertisingReport => 0x0F,
            SubeventCode::PeriodicAdvertisingSyncLost => 0x10,
            SubeventCode::ScanTimeout => 0x11,
            SubeventCode::AdvertisingSetTerminated => 0x12,
            SubeventCode::ScanRequestReceived => 0x13,
            SubeventCode::ChannelSelectionAlgorithm => 0x14,
            SubeventCode::ConnectionlessIQReport => 0x15,
            SubeventCode::ConnectionIQReport => 0x16,
            SubeventCode::CTERequestFailed => 0x17,
            SubeventCode::PeriodicAdvertisingSyncTransferReceivedV1 => 0x18,
            SubeventCode::PeriodicAdvertisingSyncTransferReceivedV2 => 0x26,
            SubeventCode::CISEstablishedV1 => 0x19,
            SubeventCode::CISEstablishedV2 => 0x2A,
            SubeventCode::CISRequest => 0x1A,
            SubeventCode::CreateBIGComplete => 0x1B,
            SubeventCode::TerminateBIGComplete => 0x1C,
            SubeventCode::BIGSyncEstablished => 0x1D,
            SubeventCode::BIGSyncLost => 0x1E,
            SubeventCode::RequestPeerSCAComplete => 0x1F,
            SubeventCode::PathLossThreshold => 0x20,
            SubeventCode::TransmitPowerReporting => 0x21,
            SubeventCode::BIGInfoAdvertisingReport => 0x22,
            SubeventCode::SubrateChange => 0x23,
            SubeventCode::PeriodicAdvertisingSubeventDataRequest => 0x27,
            SubeventCode::PeriodicAdvertisingResponseReport => 0x28,
            SubeventCode::ReadAllRemoteFeaturesComplete => 0x2B,
            SubeventCode::CSReadRemoteSupportedCapabilitiesComplete => 0x2C,
            SubeventCode::CSReadRemoteFAETableComplete => 0x2D,
            SubeventCode::CSSecurityEnableComplete => 0x2E,
            SubeventCode::CSConfigComplete => 0x2F,
            SubeventCode::CSProcedureEnableComplete => 0x30,
            SubeventCode::CSSubeventResult => 0x31,
            SubeventCode::CSSubeventResultContinue => 0x32,
            SubeventCode::CSTestEndComplete => 0x33,
            SubeventCode::MonitoredAdvertisersReport => 0x34,
            SubeventCode::FrameSpaceUpdateComplete => 0x35,
        }
    }

    /// The kind whose code byte is `code`; nothing for a code outside the table.
    pub fn from_u8(code: u8) -> (r: Option<SubeventCode>)
        ensures
            r == Self::spec_from_code(code),
    {
        match code {
            0x01 => Some(SubeventCode::ConnectionComplete),
            0x02 => Some(SubeventCode::AdvertisingReport),
            0x03 => Some(SubeventCode::ConnectionUpdateComplete),
            0x04 => Some(SubeventCode::ReadRemoteFeaturesPage0Complete),
            0x05 => Some(SubeventCode::LongTermKeyRequest),
            0x06 => Some(SubeventCode::RemoteConnectionParameterRequest),
            0x07 => Some(SubeventCode::DataLengthChange),
            0x08 => Some(SubeventCode::ReadLocalP256PublicKeyComplete),
            0x09 => Some(SubeventCode::GenerateDHKeyComplete),
            0x0A => Some(SubeventCode::EnhancedConnectionCompleteV1),
            0x29 => Some(SubeventCode::EnhancedConnectionCompleteV2),
            0x0B => Some(SubeventCode::DirectedAdvertisingReport),
            0x0C => Some(SubeventCode::PHYUpdateComplete),
            0x0D => Some(SubeventCode::ExtendedAdvertisingReport),
            0x0E => Some(SubeventCode::PeriodicAdvertisingSyncEstablished),
            0x0F => Some(SubeventCode::PeriodicAdvertisingReport),
            0x10 => Some(SubeventCode::PeriodicAdvertisingSyncLost),
            0x11 => Some(SubeventCode::ScanTimeout),
            0x12 => Some(SubeventCode::AdvertisingSetTerminated),
            0x13 => Some(SubeventCode::ScanRequestReceived),
            0x14 => Some(SubeventCode::ChannelSelectionAlgorithm),
            0x15 => Some(SubeventCode::ConnectionlessIQReport),
            0x16 => Some(SubeventCode::ConnectionIQReport),
            0x17 => Some(SubeventCode::CTERequestFailed),
            0x18 => Some(SubeventCode::PeriodicAdvertisingSyncTransferReceivedV1),
            0x26 => Some(SubeventCode::PeriodicAdvertisingSyncTransferReceivedV2),
            0x19 => Some(SubeventCode::CISEstablishedV1),
            0x2A => Some(SubeventCode::CISEstablishedV2),
            0x1A => Some(SubeventCode::CISRequest),
            0x1B => Some(SubeventCode::CreateBIGComplete),
            0x1C => Some(SubeventCode::TerminateBIGComplete),
            0x1D => Some(SubeventCode::BIGSyncEstablished),
            0x1E => Some(SubeventCode::BIGSyncLost),
            0x1F => Some(SubeventCode::RequestPeerSCAComplete),
            0x20 => Some(SubeventCode::PathLossThreshold),
            0x21 => Some(SubeventCode::TransmitPowerReporting),
            0x22 => Some(SubeventCode::BIGInfoAdvertisingReport),
            0x23 => Some(SubeventCode::SubrateChange),
            0x27 => Some(SubeventCode::PeriodicAdvertisingSubeventDataRequest),
            0x28 => Some(SubeventCode::PeriodicAdvertisingResponseReport),
            0x2B => Some(SubeventCode::ReadAllRemoteFeaturesComplete),
            0x2C => Some(SubeventCode::CSReadRemoteSupportedCapabilitiesComplete),
            0x2D => Some(SubeventCode::CSReadRemoteFAETableComplete),
            0x2E => Some(SubeventCode::CSSecurityEnableComplete),
            0x2F => Some(SubeventCode::CSConfigComplete),
            0x30 => Some(SubeventCode::CSProcedureEnableComplete),
            0x31 => Some(SubeventCode::CSSubeventResult),
            0x32 => Some(SubeventCode::CSSubeventResultContinue),
            0x33 => Some(SubeventCode::CSTestEndComplete),
            0x34 => Some(SubeventCode::MonitoredAdvertisersReport),
            0x35 => Some(SubeventCode::FrameSpaceUpdateComplete),
            _ => None,
        }
    }
}

/// Why an event could not be decoded.
#[derive(Debug, Clone, Copy, PartialEq, Eq, Structural)]
pub enum HCIEventError {
    /// The parameters end before a field.
    Truncated,
    /// An event code outside the decoded set.
    UnimplementedEventCode(u8),
    /// An LE Meta sub-event code other than the advertising report.
    UnimplementedSubeventCode(u8),
}

/// The Command Complete event.
#[derive(Debug)]
pub struct CommandCompleteEvent<'p> {
    /// Number of commands the host may now send.
    pub num_hci_command_packets: u8,
    /// Opcode of the command that completed.
    pub command_opcode: u16,
    /// The command's return parameters, undecoded.
    pub return_parameters: &'p [u8],
}

/// The LE Meta event, by sub-event.
#[derive(Debug)]
pub enum LEMetaEvent<'p> {
    /// Advertising reports, read one at a time.
    AdvertisingReport(AdvertisingReportIterator<'p>),
}

/// A decoded event.
#[derive(Debug)]
pub enum HCIEvent<'p> {
    CommandComplete(CommandCompleteEvent<'p>),
    LEMetaEvent(LEMetaEvent<'p>),
}

/// One discovered advertiser.
#[derive(Debug)]
pub struct AdvertisingReport<'p> {
    pub event_type: u8,
    pub address_type: u8,
    /// The six address bytes.
    pub address: &'p [u8],
    /// The advertising data, decoded on demand.
    pub data: AdvertisingDataIterator<'p>,
    pub rssi: i8,
}

/// A lazy, finite sequence of the advertising reports of an LE Meta event.
#[derive(Debug)]
pub struct AdvertisingReportIterator<'p> {
    /// The report count that the event announces.
    pub num_reports: u8,
    pub reader: Reader<'p>,
}

/// The mathematical value of a decoded event. The reports stand as the bytes
/// that are left for the report sequence to read.
pub enum EventView {
    CommandComplete { num_hci_command_packets: u8, command_opcode: u16, return_parameters: Seq<u8> },
    AdvertisingReports { num_reports: u8, reports: Seq<u8> },
}

/// The mathematical value of an [`AdvertisingReport`]; the advertising data
/// stands as the bytes its sequence reads.
pub struct ReportView {
    pub event_type: u8,
    pub address_type: u8,
    pub address: Seq<u8>,
    pub data: Seq<u8>,
    pub rssi: i8,
}

/// Decoding of the parameters `params` of an event with code `evcode`.
pub open spec fn parse_event(evcode: u8, params: Seq<u8>) -> Result<EventView, HCIEventError> {
    if evcode == HCIEventCode::CommandComplete.spec_code() {
        if params.len() < 3 {
            Err(HCIEventError::Truncated)
        } else {
            Ok(
                EventView::CommandComplete {
                    num_hci_command_packets: params[0],
                    command_opcode: u16_at(params, 1),
                    return_parameters: params.skip(3),
                },
            )
        }
    } else if evcode == HCIEventCode::LEMetaEvent.spec_code() {
        if params.len() < 1 {
            Err(HCIEventError::Truncated)
        } else if params[0] != SubeventCode::AdvertisingReport.spec_code() {
            Err(HCIEventError::UnimplementedSubeventCode(params[0]))
        } else if params.len() < 2 {
            Err(HCIEventError::Truncated)
        } else {
            Ok(EventView::AdvertisingReports { num_reports: params[1], reports: params.skip(2) })
        }
    } else {
        Err(HCIEventError::UnimplementedEventCode(evcode))
    }
}

impl<'p> HCIEvent<'p> {
    /// The value of this event.
    pub open spec fn spec_view(&self) -> EventView {
        match self {
            HCIEvent::CommandComplete(e) => EventView::CommandComplete {
                num_hci_command_packets: e.num_hci_command_packets,
                command_opcode: e.command_opcode,
                return_parameters: e.return_parameters@,
            },
            HCIEvent::LEMetaEvent(LEMetaEvent::AdvertisingReport(it)) => {
                EventView::AdvertisingReports {
                    num_reports: it.num_reports,
                    reports: it.reader@.rest(),
                }
            },
        }
    }
}

/// The outcome of a decode, with the event replaced by its value.
pub open spec fn event_result_view(r: Result<HCIEvent, HCIEventError>) -> Result<
    EventView,
    HCIEventError,
> {
    match r {
        Ok(e) => Ok(e.spec_view()),
        Err(e) => Err(e),
    }
}

impl<'p> HCIEvent<'p> {
    /// Decodes the event that `packet` carries.
    pub fn from_packet(packet: &'p HCIEventPacket) -> (r: Result<HCIEvent<'p>, HCIEventError>)
        ensures
            event_result_view(r) == parse_event(packet.evcode, packet.parameters@),
    {
        let mut reader = Reader::new(packet.parameters.as_slice());
        let ghost v0 = reader@;
        proof {
            use_type_invariant(&reader);
        }
        match HCIEventCode::from_u8(packet.evcode) {
            Some(HCIEventCode::CommandComplete) => {
                let num_hci_command_packets = match reader.read_u8() {
                    Some(n) => n,
                    None => {
                        return Err(HCIEventError::Truncated);
                    },
                };
                proof {
                    lemma_advanced_rest(v0, 1);
                }
                let command_opcode = match reader.read_u16() {
                    Some(o) => o,
                    None => {
                        return Err(HCIEventError::Truncated);
                    },
                };
                proof {
                    lemma_advanced_rest(v0, 3);
                    assert(v0.input.subrange(1, 3) =~= v0.advanced(1).rest().take(2));
                }
                let n = reader.remaining();
                let return_parameters = match reader.read_slice(n) {
                    Some(p) => p,
                    None => {
                        return Err(HCIEventError::Truncated);
                    },
                };
                proof {
                    assert(return_parameters@ =~= packet.parameters@.skip(3));
                }
                Ok(
                    HCIEvent::CommandComplete(
                        CommandCompleteEvent {
                            num_hci_command_packets,
                            command_opcode,
                            return_parameters,
                        },
                    ),
                )
            },
            Some(HCIEventCode::LEMetaEvent) => {
                let subevent = match reader.read_u8() {
                    Some(s) => s,
                    None => {
                        return Err(HCIEventError::Truncated);
                    },
                };
                proof {
                    lemma_advanced_rest(v0, 1);
                }
                if subevent != SubeventCode::AdvertisingReport.into_u8() {
                    return Err(HCIEventError::UnimplementedSubeventCode(subevent));
                }
                let num_reports = match reader.read_u8() {
                    Some(n) => n,
                    None => {
                        return Err(HCIEventError::Truncated);
                    },
                };
                proof {
                    lemma_advanced_rest(v0, 2);
                }
                let n = reader.remaining();
                let reports = match reader.read_slice(n) {
                    Some(p) => p,
                    None => {
                        return Err(HCIEventError::Truncated);
                    },
                };
                let reports_reader = Reader::new(reports);
                proof {
                    assert(reports@ =~= packet.parameters@.skip(2));
                }
                Ok(
                    HCIEvent::LEMetaEvent(
                        LEMetaEvent::AdvertisingReport(
                            AdvertisingReportIterator { num_reports, reader: reports_reader },
                        ),
                    ),
                )
            },
            None => Err(HCIEventError::UnimplementedEventCode(packet.evcode)),
        }
    }
}

/// Size of a report with `n` bytes of advertising data.
pub open spec fn report_len(n: nat) -> nat {
    10 + n
}

/// One step over the reports of an advertising-report event: the outcome of
/// the first report and the bytes after it. Nothing is left at the end of the
/// input; a report that runs past the input fails as truncated and consumes
/// the rest.
pub open spec fn report_next(rest: Seq<u8>) -> (Option<Result<ReportView, HCIEventError>>, Seq<u8>) {
    if rest.len() == 0 {
        (None, Seq::empty())
    } else if rest.len() < 9 || rest.len() < report_len(rest[8] as nat) {
        (Some(Err(HCIEventError::Truncated)), Seq::empty())
    } else {
        (
            Some(
                Ok(
                    ReportView {
                        event_type: rest[0],
                        address_type: rest[1],
                        address: rest.subrange(2, 8),
                        data: rest.subrange(9, 9 + rest[8]),
                        rssi: rest[9 + rest[8]] as i8,
                    },
                ),
            ),
            rest.skip(report_len(rest[8] as nat) as int),
        )
    }
}

/// The value of a report.
pub open spec fn report_view(r: AdvertisingReport) -> ReportView {
    ReportView {
        event_type: r.event_type,
        address_type: r.address_type,
        address: r.address@,
        data: r.data.reader@.rest(),
        rssi: r.rssi,
    }
}

/// The outcome of a step, with the report replaced by its value.
pub open spec fn report_step_view(r: Option<Result<AdvertisingReport, HCIEventError>>) -> Option<
    Result<ReportView, HCIEventError>,
> {
    match r {
        Some(Ok(rep)) => Some(Ok(report_view(rep))),
        Some(Err(e)) => Some(Err(e)),
        None => None,
    }
}

impl<'p> AdvertisingReportIterator<'p> {
    /// The next report, an error for a report that runs past the input, or
    /// nothing at the end.
    pub fn next(&mut self) -> (r: Option<Result<AdvertisingReport<'p>, HCIEventError>>)
        ensures
            final(self).num_reports == old(self).num_reports,
            (report_step_view(r), final(self).reader@.rest()) == report_next(
                old(self).reader@.rest(),
            ),
    {
        proof {
            use_type_invariant(&self.reader);
        }
        let ghost v0 = self.reader@;
        if self.reader.remaining() == 0 {
            proof {
                assert(self.reader@.rest() =~= Seq::<u8>::empty());
            }
            return None;
        }
        if self.reader.remaining() < 9 {
            self.reader.skip_to_end();
            return Some(Err(HCIEventError::Truncated));
        }
        let event_type = match self.reader.read_u8() {
            Some(v) => v,
            None => {
                return None;
            },
        };
        let address_type = match self.reader.read_u8() {
            Some(v) => v,
            None => {
                return None;
            },
        };
        let address = match self.reader.read_slice(6) {
            Some(a) => a,
            None => {
                return None;
            },
        };
        let len = match self.reader.read_u8() {
            Some(v) => v,
            None => {
                return None;
            },
        };
        proof {
            lemma_advanced_rest(v0, 1);
            lemma_advanced_rest(v0, 2);
            lemma_advanced_rest(v0, 8);
            lemma_advanced_rest(v0, 9);
            assert(address@ =~= v0.rest().subrange(2, 8));
        }
        if self.reader.remaining() < len as usize + 1 {
            self.reader.skip_to_end();
            return Some(Err(HCIEventError::Truncated));
        }
        let data = match self.reader.read_slice(len as usize) {
            Some(d) => d,
            None => {
                return None;
            },
        };
        let rssi = match self.reader.read_u8() {
            Some(v) => v,
            None => {
                return None;
            },
        };
        proof {
            lemma_advanced_rest(v0, 9 + len as nat);
            lemma_advanced_rest(v0, 10 + len as nat);
            assert(data@ =~= v0.rest().subrange(9, 9 + len));
        }
        let data = AdvertisingDataIterator::new(data);
        Some(
            Ok(
                AdvertisingReport { event_type, address_type, address, data, rssi: rssi as i8 },
            ),
        )
    }
}

/// A report that can be written: a six-byte address, and advertising data
/// whose length fits in its length byte.
pub open spec fn report_wf(r: ReportView) -> bool {
    r.address.len() == 6 && r.data.len() <= 255
}

/// The bytes of a report, in the order the decoder reads them.
pub open spec fn report_bytes(r: ReportView) -> Seq<u8> {
    seq![r.event_type, r.address_type] + r.address + seq![r.data.len() as u8] + r.data + seq![
        r.rssi as u8,
    ]
}

/// Reading the bytes of a well-formed report, whatever follows them, gives the
/// report back and leaves exactly what follows.
pub proof fn lemma_report_round_trip(r: ReportView, tail: Seq<u8>)
    requires
        report_wf(r),
    ensures
        report_next(report_bytes(r) + tail) == (
            Some(Ok::<ReportView, HCIEventError>(r)),
            tail,
        ),
{
    let b = report_bytes(r) + tail;
    let n = r.data.len() as int;
    assert(b[8] == n);
    assert(b.subrange(2, 8) =~= r.address);
    assert(b.subrange(9, 9 + n) =~= r.data);
    assert(b[9 + n] == r.rssi as u8);
    lemma_i8_bits(r.rssi);
    assert(b.skip(10 + n) =~= tail);
}

/// Every non-empty proper prefix of a report's bytes fails as truncated.
pub proof fn lemma_report_truncated(r: ReportView, i: int)
    requires
        report_wf(r),
        0 < i < report_bytes(r).len(),
    ensures
        report_next(report_bytes(r).take(i)) == (
            Some(Err::<ReportView, HCIEventError>(HCIEventError::Truncated)),
            Seq::<u8>::empty(),
        ),
{
    let b = report_bytes(r);
    assert(b.len() == 10 + r.data.len());
    if i >= 9 {
        assert(b.take(i)[8] == r.data.len());
    }
}

/// The outcomes of reading a report sequence to its end.
pub open spec fn report_outcomes(b: Seq<u8>) -> Seq<Result<ReportView, HCIEventError>>
    decreases b.len(),
{
    if b.len() == 0 {
        seq![]
    } else {
        match report_next(b).0 {
            Some(o) => seq![o] + report_outcomes(report_next(b).1),
            None => seq![],
        }
    }
}

/// The bytes of `reports`, back to back.
pub open spec fn report_run(reports: Seq<ReportView>) -> Seq<u8>
    decreases reports.len(),
{
    if reports.len() == 0 {
        seq![]
    } else {
        report_bytes(reports[0]) + report_run(reports.drop_first())
    }
}

/// A report sequence over `N` well-formed reports, back to back, yields
/// exactly those `N` reports, in order, and then ends.
pub proof fn lemma_report_sequence_cardinality(reports: Seq<ReportView>)
    requires
        forall|i: int| 0 <= i < reports.len() ==> report_wf(#[trigger] reports[i]),
    ensures
        report_outcomes(report_run(reports)) == reports.map_values(
            |r: ReportView| Ok::<ReportView, HCIEventError>(r),
        ),
        report_outcomes(report_run(reports)).len() == reports.len(),
    decreases reports.len(),
{
    if reports.len() == 0 {
        assert(reports.map_values(|r: ReportView| Ok::<ReportView, HCIEventError>(r)) =~= seq![]);
    } else {
        let rest = reports.drop_first();
        assert forall|i: int| 0 <= i < rest.len() implies report_wf(#[trigger] rest[i]) by {
            assert(rest[i] == reports[i + 1]);
        }
        lemma_report_sequence_cardinality(rest);
        lemma_report_round_trip(reports[0], report_run(rest));
        assert(report_bytes(reports[0]).len() > 0);
        assert(reports.map_values(|r: ReportView| Ok::<ReportView, HCIEventError>(r)) =~= seq![
            Ok::<ReportView, HCIEventError>(reports[0]),
        ] + rest.map_values(|r: ReportView| Ok::<ReportView, HCIEventError>(r)));
    }
}

/// Decoding depends on the event's code and parameter bytes alone: decoding the
/// same event twice gives the same event, and its report sequence the same
/// outcomes.
pub proof fn lemma_event_decode_idempotent(evcode: u8, params: Seq<u8>, again: Seq<u8>)
    requires
        again == params,
    ensures
        parse_event(evcode, params) == parse_event(evcode, again),
        parse_event(evcode, params) matches Ok(EventView::AdvertisingReports { reports, .. })
            ==> report_outcomes(reports) == report_outcomes(again.skip(2)),
{
}

/// Cutting the fixed header of a decoded event short fails as truncated: the
/// three bytes of Command Complete, and the sub-event code and report count of
/// an advertising-report event.
pub proof fn lemma_event_header_truncated(params: Seq<u8>, i: int)
    requires
        0 <= i <= params.len(),
    ensures
        i < 3 ==> parse_event(HCIEventCode::CommandComplete.spec_code(), params.take(i)) == Err::<
            EventView,
            HCIEventError,
        >(HCIEventError::Truncated),
        i < 2 && params.len() >= 1 && params[0] == SubeventCode::AdvertisingReport.spec_code()
            ==> parse_event(HCIEventCode::LEMetaEvent.spec_code(), params.take(i)) == Err::<
            EventView,
            HCIEventError,
        >(HCIEventError::Truncated),
{
    if i >= 1 {
        assert(params.take(i)[0] == params[0]);
    }
}

} // verus!
