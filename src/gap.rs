//! Advertising Data: the length-tag-value records carried in advertising and
//! scan-response payloads and in advertising reports.
use crate::buffer::{
    as_u128_slice, as_u16_slice, as_u32_slice, lemma_advanced_rest, lemma_byte_span_values,
    lemma_i8_bits, lemma_le_bytes_len, lemma_le_elems_of_list, lemma_le_list_len,
    lemma_le_value_of_bytes, lemma_overwrite_append, le_bytes, le_elems, le_list, le_value,
    nats_of_u128, nats_of_u16, nats_of_u32, overwrite, Reader, Writer, WriterView,
};
use vstd::prelude::*;
use vstd::slice::slice_to_vec;
use vstd::utf8::{
    decode_utf8, encode_utf8, encode_utf8_decode_utf8, encode_utf8_valid_utf8, valid_utf8,
};

verus! {

/// Flags bit 0: LE Limited Discoverable Mode.
pub const AD_FLAG_LIMITED_DISCOVERABLE_MODE: u8 = 0x01;

/// Flags bit 1: LE General Discoverable Mode.
pub const AD_FLAG_GENERAL_DISCOVERABLE_MODE: u8 = 0x02;

/// Flags bit 2: BR/EDR Not Supported.
pub const AD_FLAG_BR_EDR_NOT_SUPPORTED: u8 = 0x04;

/// Flags bit 3: simultaneous LE and BR/EDR to the same device (controller).
pub const AD_FLAG_SIMULTANEOUS_LE_BR_EDR_CONTROLLER: u8 = 0x08;

/// Flags bit 4: simultaneous LE and BR/EDR to the same device (host).
pub const AD_FLAG_SIMULTANEOUS_LE_BR_EDR_HOST: u8 = 0x10;

/// The AD types of the assigned-numbers registry that this codec knows.
#[derive(Debug, Clone, Copy, PartialEq, Eq, Structural)]
pub enum AdvertisingDataType {
    Flags,
    IncompleteListOf16BitServiceUUIDs,
    CompleteListOf16BitServiceUUIDs,
    IncompleteListOf32BitServiceUUIDs,
    CompleteListOf32BitServiceUUIDs,
    IncompleteListOf128BitServiceUUIDs,
    CompleteListOf128BitServiceUUIDs,
    ShortenedLocalName,
    CompleteLocalName,
    TxPowerLevel,
    ClassOfDevice,
    PeripheralConnectionIntervalRange,
    ServiceData,
    Appearance,
    LEBluetoothDeviceAddress,
    ManufacturerSpecificData,
}

impl AdvertisingDataType {
    /// The tag byte of this AD type.
    pub open spec fn spec_code(self) -> u8 {
        match self {
            AdvertisingDataType::Flags => 0x01,
            AdvertisingDataType::IncompleteListOf16BitServiceUUIDs => 0x02,
            AdvertisingDataType::CompleteListOf16BitServiceUUIDs => 0x03,
            AdvertisingDataType::IncompleteListOf32BitServiceUUIDs => 0x04,
            AdvertisingDataType::CompleteListOf32BitServiceUUIDs => 0x05,
            AdvertisingDataType::IncompleteListOf128BitServiceUUIDs => 0x06,
            AdvertisingDataType::CompleteListOf128BitServiceUUIDs => 0x07,
            AdvertisingDataType::ShortenedLocalName => 0x08,
            AdvertisingDataType::CompleteLocalName => 0x09,
            AdvertisingDataType::TxPowerLevel => 0x0A,
            AdvertisingDataType::ClassOfDevice => 0x0D,
            AdvertisingDataType::PeripheralConnectionIntervalRange => 0x12,
            AdvertisingDataType::ServiceData => 0x16,
            AdvertisingDataType::Appearance => 0x19,
            AdvertisingDataType::LEBluetoothDeviceAddress => 0x1B,
            AdvertisingDataType::ManufacturerSpecificData => 0xFF,
        }
    }

    /// The AD type whose tag byte is `code`, if any.
    pub open spec fn spec_from_code(code: u8) -> Option<AdvertisingDataType> {
        match code {
            0x01 => Some(AdvertisingDataType::Flags),
            0x02 => Some(AdvertisingDataType::IncompleteListOf16BitServiceUUIDs),
            0x03 => Some(AdvertisingDataType::CompleteListOf16BitServiceUUIDs),
            0x04 => Some(AdvertisingDataType::IncompleteListOf32BitServiceUUIDs),
            0x05 => Some(AdvertisingDataType::CompleteListOf32BitServiceUUIDs),
            0x06 => Some(AdvertisingDataType::IncompleteListOf128BitServiceUUIDs),
            0x07 => Some(AdvertisingDataType::CompleteListOf128BitServiceUUIDs),
            0x08 => Some(AdvertisingDataType::ShortenedLocalName),
            0x09 => Some(AdvertisingDataType::CompleteLocalName),
            0x0A => Some(AdvertisingDataType::TxPowerLevel),
            0x0D => Some(AdvertisingDataType::ClassOfDevice),
            0x12 => Some(AdvertisingDataType::PeripheralConnectionIntervalRange),
            0x16 => Some(AdvertisingDataType::ServiceData),
            0x19 => Some(AdvertisingDataType::Appearance),
            0x1B => Some(AdvertisingDataType::LEBluetoothDeviceAddress),
            0xFF => Some(AdvertisingDataType::ManufacturerSpecificData),
            _ => None,
        }
    }

    /// The tag byte of this AD type.
    pub fn into_u8(self) -> (r: u8)
        ensures
            r == self.spec_code(),
    {
        match self {
            AdvertisingDataType::Flags => 0x01,
            AdvertisingDataType::IncompleteListOf16BitServiceUUIDs => 0x02,
            AdvertisingDataType::CompleteListOf16BitServiceUUIDs => 0x03,
            AdvertisingDataType::IncompleteListOf32BitServiceUUIDs => 0x04,
            AdvertisingDataType::CompleteListOf32BitServiceUUIDs => 0x05,
            AdvertisingDataType::IncompleteListOf128BitServiceUUIDs => 0x06,
            AdvertisingDataType::CompleteListOf128BitServiceUUIDs => 0x07,
            AdvertisingDataType::ShortenedLocalName => 0x08,
            AdvertisingDataType::CompleteLocalName => 0x09,
            AdvertisingDataType::TxPowerLevel => 0x0A,
            AdvertisingDataType::ClassOfDevice => 0x0D,
            AdvertisingDataType::PeripheralConnectionIntervalRange => 0x12,
            AdvertisingDataType::ServiceData => 0x16,
            AdvertisingDataType::Appearance => 0x19,
            AdvertisingDataType::LEBluetoothDeviceAddress => 0x1B,
            AdvertisingDataType::ManufacturerSpecificData => 0xFF,
        }
    }

    /// The AD type whose tag byte is `code`; nothing for a tag outside the table.
    pub fn from_u8(code: u8) -> (r: Option<AdvertisingDataType>)
        ensures
            r == Self::spec_from_code(code),
    {
        match code {
            0x01 => Some(AdvertisingDataType::Flags),
            0x02 => Some(AdvertisingDataType::IncompleteListOf16BitServiceUUIDs),
            0x03 => Some(AdvertisingDataType::CompleteListOf16BitServiceUUIDs),
            0x04 => Some(AdvertisingDataType::IncompleteListOf32BitServiceUUIDs),
            0x05 => Some(AdvertisingDataType::CompleteListOf32BitServiceUUIDs),
            0x06 => Some(AdvertisingDataType::IncompleteListOf128BitServiceUUIDs),
            0x07 => Some(AdvertisingDataType::CompleteListOf128BitServiceUUIDs),
            0x08 => Some(AdvertisingDataType::ShortenedLocalName),
            0x09 => Some(AdvertisingDataType::CompleteLocalName),
            0x0A => Some(AdvertisingDataType::TxPowerLevel),
            0x0D => Some(AdvertisingDataType::ClassOfDevice),
            0x12 => Some(AdvertisingDataType::PeripheralConnectionIntervalRange),
            0x16 => Some(AdvertisingDataType::ServiceData),
            0x19 => Some(AdvertisingDataType::Appearance),
            0x1B => Some(AdvertisingDataType::LEBluetoothDeviceAddress),
            0xFF => Some(AdvertisingDataType::ManufacturerSpecificData),
            _ => None,
        }
    }
}

/// Every AD type is found again from its tag byte.
pub proof fn lemma_ad_type_code_round_trip(t: AdvertisingDataType)
    ensures
        AdvertisingDataType::spec_from_code(t.spec_code()) == Some(t),
{
}

/// Failure to decode one AD record.
#[derive(Debug, Clone, Copy, PartialEq, Eq, Structural)]
pub enum AdvertisingDataError {
    /// The record, or a fixed-width field in its payload, runs past the input.
    Truncated,
    /// The tag byte names no AD type of the table.
    UnknownType(u8),
    /// The payload is malformed: a UUID list whose length is not a multiple of
    /// the element width, or a name that is not UTF-8.
    InvalidEncoding,
}

/// The mathematical value of an [`AdvertisingData`].
pub enum AdvertisingDataView {
    Flags(u8),
    IncompleteListOf16BitServiceUUIDs(Seq<u16>),
    CompleteListOf16BitServiceUUIDs(Seq<u16>),
    IncompleteListOf32BitServiceUUIDs(Seq<u32>),
    CompleteListOf32BitServiceUUIDs(Seq<u32>),
    IncompleteListOf128BitServiceUUIDs(Seq<u128>),
    CompleteListOf128BitServiceUUIDs(Seq<u128>),
    ShortenedLocalName(Seq<char>),
    CompleteLocalName(Seq<char>),
    TxPowerLevel(i8),
    ClassOfDevice(u32),
    PeripheralConnectionIntervalRange(Seq<u8>),
    ServiceData(Seq<u8>),
    Appearance(u16),
    LEBluetoothDeviceAddress(Seq<u8>),
    ManufacturerSpecificData(Seq<u8>),
}

/// One Advertising Data element.
#[derive(Debug, Clone, PartialEq, Eq)]
pub enum AdvertisingData {
    /// Discoverability and BR/EDR capability bits (see the `AD_FLAG_*` constants).
    Flags(u8),
    IncompleteListOf16BitServiceUUIDs(Vec<u16>),
    CompleteListOf16BitServiceUUIDs(Vec<u16>),
    IncompleteListOf32BitServiceUUIDs(Vec<u32>),
    CompleteListOf32BitServiceUUIDs(Vec<u32>),
    IncompleteListOf128BitServiceUUIDs(Vec<u128>),
    CompleteListOf128BitServiceUUIDs(Vec<u128>),
    /// A UTF-8 device name, shortened.
    ShortenedLocalName(String),
    /// A UTF-8 device name, complete.
    CompleteLocalName(String),
    TxPowerLevel(i8),
    ClassOfDevice(u32),
    PeripheralConnectionIntervalRange(Vec<u8>),
    ServiceData(Vec<u8>),
    Appearance(u16),
    LEBluetoothDeviceAddress(Vec<u8>),
    ManufacturerSpecificData(Vec<u8>),
}

impl View for AdvertisingData {
    type V = AdvertisingDataView;

    open spec fn view(&self) -> AdvertisingDataView {
        match self {
            AdvertisingData::Flags(f) => AdvertisingDataView::Flags(*f),
            AdvertisingData::IncompleteListOf16BitServiceUUIDs(u) => {
                AdvertisingDataView::IncompleteListOf16BitServiceUUIDs(u@)
            },
            AdvertisingData::CompleteListOf16BitServiceUUIDs(u) => {
                AdvertisingDataView::CompleteListOf16BitServiceUUIDs(u@)
            },
            AdvertisingData::IncompleteListOf32BitServiceUUIDs(u) => {
                AdvertisingDataView::IncompleteListOf32BitServiceUUIDs(u@)
            },
            AdvertisingData::CompleteListOf32BitServiceUUIDs(u) => {
                AdvertisingDataView::CompleteListOf32BitServiceUUIDs(u@)
            },
            AdvertisingData::IncompleteListOf128BitServiceUUIDs(u) => {
                AdvertisingDataView::IncompleteListOf128BitServiceUUIDs(u@)
            },
            AdvertisingData::CompleteListOf128BitServiceUUIDs(u) => {
                AdvertisingDataView::CompleteListOf128BitServiceUUIDs(u@)
            },
            AdvertisingData::ShortenedLocalName(s) => AdvertisingDataView::ShortenedLocalName(s@),
            AdvertisingData::CompleteLocalName(s) => AdvertisingDataView::CompleteLocalName(s@),
            AdvertisingData::TxPowerLevel(l) => AdvertisingDataView::TxPowerLevel(*l),
            AdvertisingData::ClassOfDevice(c) => AdvertisingDataView::ClassOfDevice(*c),
            AdvertisingData::PeripheralConnectionIntervalRange(b) => {
                AdvertisingDataView::PeripheralConnectionIntervalRange(b@)
            },
            AdvertisingData::ServiceData(b) => AdvertisingDataView::ServiceData(b@),
            AdvertisingData::Appearance(a) => AdvertisingDataView::Appearance(*a),
            AdvertisingData::LEBluetoothDeviceAddress(b) => {
                AdvertisingDataView::LEBluetoothDeviceAddress(b@)
            },
            AdvertisingData::ManufacturerSpecificData(b) => {
                AdvertisingDataView::ManufacturerSpecificData(b@)
            },
        }
    }
}

/// The AD type of an element.
pub open spec fn ad_type_of(v: AdvertisingDataView) -> AdvertisingDataType {
    match v {
        AdvertisingDataView::Flags(_) => AdvertisingDataType::Flags,
        AdvertisingDataView::IncompleteListOf16BitServiceUUIDs(_) => {
            AdvertisingDataType::IncompleteListOf16BitServiceUUIDs
        },
        AdvertisingDataView::CompleteListOf16BitServiceUUIDs(_) => {
            AdvertisingDataType::CompleteListOf16BitServiceUUIDs
        },
        AdvertisingDataView::IncompleteListOf32BitServiceUUIDs(_) => {
            AdvertisingDataType::IncompleteListOf32BitServiceUUIDs
        },
        AdvertisingDataView::CompleteListOf32BitServiceUUIDs(_) => {
            AdvertisingDataType::CompleteListOf32BitServiceUUIDs
        },
        AdvertisingDataView::IncompleteListOf128BitServiceUUIDs(_) => {
            AdvertisingDataType::IncompleteListOf128BitServiceUUIDs
        },
        AdvertisingDataView::CompleteListOf128BitServiceUUIDs(_) => {
            AdvertisingDataType::CompleteListOf128BitServiceUUIDs
        },
        AdvertisingDataView::ShortenedLocalName(_) => AdvertisingDataType::ShortenedLocalName,
        AdvertisingDataView::CompleteLocalName(_) => AdvertisingDataType::CompleteLocalName,
        AdvertisingDataView::TxPowerLevel(_) => AdvertisingDataType::TxPowerLevel,
        AdvertisingDataView::ClassOfDevice(_) => AdvertisingDataType::ClassOfDevice,
        AdvertisingDataView::PeripheralConnectionIntervalRange(_) => {
            AdvertisingDataType::PeripheralConnectionIntervalRange
        },
        AdvertisingDataView::ServiceData(_) => AdvertisingDataType::ServiceData,
        AdvertisingDataView::Appearance(_) => AdvertisingDataType::Appearance,
        AdvertisingDataView::LEBluetoothDeviceAddress(_) => {
            AdvertisingDataType::LEBluetoothDeviceAddress
        },
        AdvertisingDataView::ManufacturerSpecificData(_) => {
            AdvertisingDataType::ManufacturerSpecificData
        },
    }
}

/// The payload bytes of an element: scalars and UUIDs little-endian at their
/// own width, names as UTF-8, byte strings unchanged.
pub open spec fn ad_payload(v: AdvertisingDataView) -> Seq<u8> {
    match v {
        AdvertisingDataView::Flags(f) => seq![f],
        AdvertisingDataView::IncompleteListOf16BitServiceUUIDs(u) => le_list(nats_of_u16(u), 2),
        AdvertisingDataView::CompleteListOf16BitServiceUUIDs(u) => le_list(nats_of_u16(u), 2),
        AdvertisingDataView::IncompleteListOf32BitServiceUUIDs(u) => le_list(nats_of_u32(u), 4),
        AdvertisingDataView::CompleteListOf32BitServiceUUIDs(u) => le_list(nats_of_u32(u), 4),
        AdvertisingDataView::IncompleteListOf128BitServiceUUIDs(u) => le_list(
            nats_of_u128(u),
            16,
        ),
        AdvertisingDataView::CompleteListOf128BitServiceUUIDs(u) => le_list(nats_of_u128(u), 16),
        AdvertisingDataView::ShortenedLocalName(s) => encode_utf8(s),
        AdvertisingDataView::CompleteLocalName(s) => encode_utf8(s),
        AdvertisingDataView::TxPowerLevel(l) => seq![l as u8],
        AdvertisingDataView::ClassOfDevice(c) => le_bytes(c as nat, 4),
        AdvertisingDataView::PeripheralConnectionIntervalRange(b) => b,
        AdvertisingDataView::ServiceData(b) => b,
        AdvertisingDataView::Appearance(a) => le_bytes(a as nat, 2),
        AdvertisingDataView::LEBluetoothDeviceAddress(b) => b,
        AdvertisingDataView::ManufacturerSpecificData(b) => b,
    }
}

/// An element can be written when its length byte (payload plus tag) fits in a byte.
pub open spec fn ad_encodable(v: AdvertisingDataView) -> bool {
    ad_payload(v).len() + 1 <= 255
}

/// The record of an element: length byte (payload plus tag), tag, payload.
pub open spec fn ad_record(v: AdvertisingDataView) -> Seq<u8> {
    seq![(ad_payload(v).len() + 1) as u8, ad_type_of(v).spec_code()] + ad_payload(v)
}

/// The element that a record with tag `tag` and payload `p` stands for.
/// Fixed-width scalars read their leading bytes and ignore any beyond.
pub open spec fn ad_decode_payload(tag: u8, p: Seq<u8>) -> Result<
    AdvertisingDataView,
    AdvertisingDataError,
> {
    match AdvertisingDataType::spec_from_code(tag) {
        None => Err(AdvertisingDataError::UnknownType(tag)),
        Some(t) => match t {
            AdvertisingDataType::Flags => if p.len() >= 1 {
                Ok(AdvertisingDataView::Flags(p[0]))
            } else {
                Err(AdvertisingDataError::Truncated)
            },
            AdvertisingDataType::IncompleteListOf16BitServiceUUIDs => if p.len() % 2 == 0 {
                Ok(
                    AdvertisingDataView::IncompleteListOf16BitServiceUUIDs(
                        le_elems(p, 2).map_values(|x: nat| x as u16),
                    ),
                )
            } else {
                Err(AdvertisingDataError::InvalidEncoding)
            },
            AdvertisingDataType::CompleteListOf16BitServiceUUIDs => if p.len() % 2 == 0 {
                Ok(
                    AdvertisingDataView::CompleteListOf16BitServiceUUIDs(
                        le_elems(p, 2).map_values(|x: nat| x as u16),
                    ),
                )
            } else {
                Err(AdvertisingDataError::InvalidEncoding)
            },
            AdvertisingDataType::IncompleteListOf32BitServiceUUIDs => if p.len() % 4 == 0 {
                Ok(
                    AdvertisingDataView::IncompleteListOf32BitServiceUUIDs(
                        le_elems(p, 4).map_values(|x: nat| x as u32),
                    ),
                )
            } else {
                Err(AdvertisingDataError::InvalidEncoding)
            },
            AdvertisingDataType::CompleteListOf32BitServiceUUIDs => if p.len() % 4 == 0 {
                Ok(
                    AdvertisingDataView::CompleteListOf32BitServiceUUIDs(
                        le_elems(p, 4).map_values(|x: nat| x as u32),
                    ),
                )
            } else {
                Err(AdvertisingDataError::InvalidEncoding)
            },
            AdvertisingDataType::IncompleteListOf128BitServiceUUIDs => if p.len() % 16 == 0 {
                Ok(
                    AdvertisingDataView::IncompleteListOf128BitServiceUUIDs(
                        le_elems(p, 16).map_values(|x: nat| x as u128),
                    ),
                )
            } else {
                Err(AdvertisingDataError::InvalidEncoding)
            },
            AdvertisingDataType::CompleteListOf128BitServiceUUIDs => if p.len() % 16 == 0 {
                Ok(
                    AdvertisingDataView::CompleteListOf128BitServiceUUIDs(
                        le_elems(p, 16).map_values(|x: nat| x as u128),
                    ),
                )
            } else {
                Err(AdvertisingDataError::InvalidEncoding)
            },
            AdvertisingDataType::ShortenedLocalName => if valid_utf8(p) {
                Ok(AdvertisingDataView::ShortenedLocalName(decode_utf8(p)))
            } else {
                Err(AdvertisingDataError::InvalidEncoding)
            },
            AdvertisingDataType::CompleteLocalName => if valid_utf8(p) {
                Ok(AdvertisingDataView::CompleteLocalName(decode_utf8(p)))
            } else {
                Err(AdvertisingDataError::InvalidEncoding)
            },
            AdvertisingDataType::TxPowerLevel => if p.len() >= 1 {
                Ok(AdvertisingDataView::TxPowerLevel(p[0] as i8))
            } else {
                Err(AdvertisingDataError::Truncated)
            },
            AdvertisingDataType::ClassOfDevice => if p.len() >= 4 {
                Ok(AdvertisingDataView::ClassOfDevice(le_value(p.take(4)) as u32))
            } else {
                Err(AdvertisingDataError::Truncated)
            },
            AdvertisingDataType::PeripheralConnectionIntervalRange => Ok(
                AdvertisingDataView::PeripheralConnectionIntervalRange(p),
            ),
            AdvertisingDataType::ServiceData => Ok(AdvertisingDataView::ServiceData(p)),
            AdvertisingDataType::Appearance => if p.len() >= 2 {
                Ok(AdvertisingDataView::Appearance(le_value(p.take(2)) as u16))
            } else {
                Err(AdvertisingDataError::Truncated)
            },
            AdvertisingDataType::LEBluetoothDeviceAddress => Ok(
                AdvertisingDataView::LEBluetoothDeviceAddress(p),
            ),
            AdvertisingDataType::ManufacturerSpecificData => Ok(
                AdvertisingDataView::ManufacturerSpecificData(p),
            ),
        },
    }
}

impl AdvertisingData {
    /// The AD type of this element.
    pub fn data_type(&self) -> (r: AdvertisingDataType)
        ensures
            r == ad_type_of(self@),
    {
        match self {
            AdvertisingData::Flags(_) => AdvertisingDataType::Flags,
            AdvertisingData::IncompleteListOf16BitServiceUUIDs(_) => {
                AdvertisingDataType::IncompleteListOf16BitServiceUUIDs
            },
            AdvertisingData::CompleteListOf16BitServiceUUIDs(_) => {
                AdvertisingDataType::CompleteListOf16BitServiceUUIDs
            },
            AdvertisingData::IncompleteListOf32BitServiceUUIDs(_) => {
                AdvertisingDataType::IncompleteListOf32BitServiceUUIDs
            },
            AdvertisingData::CompleteListOf32BitServiceUUIDs(_) => {
                AdvertisingDataType::CompleteListOf32BitServiceUUIDs
            },
            AdvertisingData::IncompleteListOf128BitServiceUUIDs(_) => {
                AdvertisingDataType::IncompleteListOf128BitServiceUUIDs
            },
            AdvertisingData::CompleteListOf128BitServiceUUIDs(_) => {
                AdvertisingDataType::CompleteListOf128BitServiceUUIDs
            },
            AdvertisingData::ShortenedLocalName(_) => AdvertisingDataType::ShortenedLocalName,
            AdvertisingData::CompleteLocalName(_) => AdvertisingDataType::CompleteLocalName,
            AdvertisingData::TxPowerLevel(_) => AdvertisingDataType::TxPowerLevel,
            AdvertisingData::ClassOfDevice(_) => AdvertisingDataType::ClassOfDevice,
            AdvertisingData::PeripheralConnectionIntervalRange(_) => {
                AdvertisingDataType::PeripheralConnectionIntervalRange
            },
            AdvertisingData::ServiceData(_) => AdvertisingDataType::ServiceData,
            AdvertisingData::Appearance(_) => AdvertisingDataType::Appearance,
            AdvertisingData::LEBluetoothDeviceAddress(_) => {
                AdvertisingDataType::LEBluetoothDeviceAddress
            },
            AdvertisingData::ManufacturerSpecificData(_) => {
                AdvertisingDataType::ManufacturerSpecificData
            },
        }
    }

    /// Size of this element's record, or nothing when its length byte would
    /// not fit in a byte.
    pub fn record_len(&self) -> (r: Option<usize>)
        ensures
            ad_encodable(self@) ==> r == Some(ad_record(self@).len() as usize),
            !ad_encodable(self@) ==> r is None,
    {
        proof {
            lemma_payload_len(self@);
        }
        match self {
            AdvertisingData::Flags(_) => Some(3),
            AdvertisingData::TxPowerLevel(_) => Some(3),
            AdvertisingData::ClassOfDevice(_) => Some(6),
            AdvertisingData::Appearance(_) => Some(4),
            AdvertisingData::IncompleteListOf16BitServiceUUIDs(u)
            | AdvertisingData::CompleteListOf16BitServiceUUIDs(u) => {
                if u.len() <= 127 {
                    Some(2 * u.len() + 2)
                } else {
                    None
                }
            },
            AdvertisingData::IncompleteListOf32BitServiceUUIDs(u)
            | AdvertisingData::CompleteListOf32BitServiceUUIDs(u) => {
                if u.len() <= 63 {
                    Some(4 * u.len() + 2)
                } else {
                    None
                }
            },
            AdvertisingData::IncompleteListOf128BitServiceUUIDs(u)
            | AdvertisingData::CompleteListOf128BitServiceUUIDs(u) => {
                if u.len() <= 15 {
                    Some(16 * u.len() + 2)
                } else {
                    None
                }
            },
            AdvertisingData::ShortenedLocalName(name) | AdvertisingData::CompleteLocalName(name) => {
                let n = name.as_str().as_bytes().len();
                if n <= 254 {
                    Some(n + 2)
                } else {
                    None
                }
            },
            AdvertisingData::PeripheralConnectionIntervalRange(b)
            | AdvertisingData::ServiceData(b)
            | AdvertisingData::LEBluetoothDeviceAddress(b)
            | AdvertisingData::ManufacturerSpecificData(b) => {
                if b.len() <= 254 {
                    Some(b.len() + 2)
                } else {
                    None
                }
            },
        }
    }

    /// Appends this element's record at the writer's position and returns its
    /// size. Nothing is written, and nothing returned, when the element cannot
    /// be encoded or its record does not fit.
    pub fn write_to(&self, writer: &mut Writer) -> (r: Option<usize>)
        ensures
            ad_encodable(self@) && old(writer)@.pos + ad_record(self@).len() <= old(
                writer,
            )@.buf.len() ==> r == Some(ad_record(self@).len() as usize) && final(writer)@ == (
            WriterView {
                buf: overwrite(old(writer)@.buf, old(writer)@.pos as int, ad_record(self@)),
                pos: old(writer)@.pos + ad_record(self@).len(),
            }),
            !(ad_encodable(self@) && old(writer)@.pos + ad_record(self@).len() <= old(
                writer,
            )@.buf.len()) ==> r is None && final(writer)@ == old(writer)@,
    {
        let n = match self.record_len() {
            Some(n) => n,
            None => {
                return None;
            },
        };
        let cap = writer.capacity();
        let pos = writer.pos();
        if pos > cap || n > cap - pos {
            return None;
        }
        let ghost b0 = writer@.buf;
        let ghost payload = ad_payload(self@);
        let ghost header = seq![(payload.len() + 1) as u8, ad_type_of(self@).spec_code()];
        let _ = writer.write_u8((n - 1) as u8);
        let _ = writer.write_u8(self.data_type().into_u8());
        proof {
            lemma_overwrite_append(b0, pos as int, seq![header[0]], seq![header[1]]);
            assert(seq![header[0]] + seq![header[1]] =~= header);
            lemma_payload_len(self@);
        }
        let _ = match self {
            AdvertisingData::Flags(f) => writer.write_u8(*f),
            AdvertisingData::IncompleteListOf16BitServiceUUIDs(u)
            | AdvertisingData::CompleteListOf16BitServiceUUIDs(u) => writer.write_u16_list(
                u.as_slice(),
            ),
            AdvertisingData::IncompleteListOf32BitServiceUUIDs(u)
            | AdvertisingData::CompleteListOf32BitServiceUUIDs(u) => writer.write_u32_list(
                u.as_slice(),
            ),
            AdvertisingData::IncompleteListOf128BitServiceUUIDs(u)
            | AdvertisingData::CompleteListOf128BitServiceUUIDs(u) => writer.write_u128_list(
                u.as_slice(),
            ),
            AdvertisingData::ShortenedLocalName(name) | AdvertisingData::CompleteLocalName(name) => {
                writer.write_slice(name.as_str().as_bytes())
            },
            AdvertisingData::TxPowerLevel(l) => writer.write_u8(*l as u8),
            AdvertisingData::ClassOfDevice(c) => writer.write_u32(*c),
            AdvertisingData::Appearance(a) => writer.write_u16(*a),
            AdvertisingData::PeripheralConnectionIntervalRange(b)
            | AdvertisingData::ServiceData(b)
            | AdvertisingData::LEBluetoothDeviceAddress(b)
            | AdvertisingData::ManufacturerSpecificData(b) => writer.write_slice(b.as_slice()),
        };
        proof {
            lemma_overwrite_append(b0, pos as int, header, payload);
        }
        Some(n)
    }

    /// Writes this element's record at the start of `buf` and returns its size.
    /// `buf` is left as it was, and nothing is returned, when the element cannot
    /// be encoded or its record is longer than `buf`.
    pub fn write_into(&self, buf: &mut Vec<u8>) -> (r: Option<usize>)
        ensures
            ad_encodable(self@) && ad_record(self@).len() <= old(buf)@.len() ==> r == Some(
                ad_record(self@).len() as usize,
            ) && final(buf)@ == overwrite(old(buf)@, 0, ad_record(self@)),
            !(ad_encodable(self@) && ad_record(self@).len() <= old(buf)@.len()) ==> r is None
                && final(buf)@ == old(buf)@,
    {
        let mut owned: Vec<u8> = Vec::new();
        core::mem::swap(buf, &mut owned);
        let mut writer = Writer::new(owned);
        let r = self.write_to(&mut writer);
        *buf = writer.into_inner();
        r
    }
}

/// The payload length of an element, and the bounds its values keep.
pub proof fn lemma_payload_len(v: AdvertisingDataView)
    ensures
        match v {
            AdvertisingDataView::Flags(_) => ad_payload(v).len() == 1,
            AdvertisingDataView::TxPowerLevel(_) => ad_payload(v).len() == 1,
            AdvertisingDataView::ClassOfDevice(_) => ad_payload(v).len() == 4,
            AdvertisingDataView::Appearance(_) => ad_payload(v).len() == 2,
            AdvertisingDataView::IncompleteListOf16BitServiceUUIDs(u) => ad_payload(v).len() == 2
                * u.len(),
            AdvertisingDataView::CompleteListOf16BitServiceUUIDs(u) => ad_payload(v).len() == 2
                * u.len(),
            AdvertisingDataView::IncompleteListOf32BitServiceUUIDs(u) => ad_payload(v).len() == 4
                * u.len(),
            AdvertisingDataView::CompleteListOf32BitServiceUUIDs(u) => ad_payload(v).len() == 4
                * u.len(),
            AdvertisingDataView::IncompleteListOf128BitServiceUUIDs(u) => ad_payload(v).len()
                == 16 * u.len(),
            AdvertisingDataView::CompleteListOf128BitServiceUUIDs(u) => ad_payload(v).len() == 16
                * u.len(),
            _ => true,
        },
{
    match v {
        AdvertisingDataView::ClassOfDevice(c) => lemma_le_bytes_len(c as nat, 4),
        AdvertisingDataView::Appearance(a) => lemma_le_bytes_len(a as nat, 2),
        AdvertisingDataView::IncompleteListOf16BitServiceUUIDs(u)
        | AdvertisingDataView::CompleteListOf16BitServiceUUIDs(u) => lemma_le_list_len(
            nats_of_u16(u),
            2,
        ),
        AdvertisingDataView::IncompleteListOf32BitServiceUUIDs(u)
        | AdvertisingDataView::CompleteListOf32BitServiceUUIDs(u) => lemma_le_list_len(
            nats_of_u32(u),
            4,
        ),
        AdvertisingDataView::IncompleteListOf128BitServiceUUIDs(u)
        | AdvertisingDataView::CompleteListOf128BitServiceUUIDs(u) => lemma_le_list_len(
            nats_of_u128(u),
            16,
        ),
        _ => {},
    }
}

/// Relies on `core::str::from_utf8`: it accepts exactly the valid UTF-8 byte
/// strings and hands back the characters they encode.
#[verifier::external_body]
fn utf8_str(bytes: &[u8]) -> (r: Option<&str>)
    ensures
        r is Some <==> valid_utf8(bytes@),
        r matches Some(s) ==> s@ == decode_utf8(bytes@),
{
    core::str::from_utf8(bytes).ok()
}

/// The outcome of a decode, with elements replaced by their values.
pub open spec fn ad_outcome_view(r: Result<AdvertisingData, AdvertisingDataError>) -> Result<
    AdvertisingDataView,
    AdvertisingDataError,
> {
    match r {
        Ok(d) => Ok(d@),
        Err(e) => Err(e),
    }
}

/// Decodes the payload `payload` of a record tagged `tag`.
pub fn decode_payload(tag: u8, payload: &[u8]) -> (r: Result<AdvertisingData, AdvertisingDataError>)
    ensures
        ad_outcome_view(r) == ad_decode_payload(tag, payload@),
{
    let mut reader = Reader::new(payload);
    let t = match AdvertisingDataType::from_u8(tag) {
        Some(t) => t,
        None => {
            return Err(AdvertisingDataError::UnknownType(tag));
        },
    };
    match t {
        AdvertisingDataType::Flags => match reader.read_u8() {
            Some(f) => Ok(AdvertisingData::Flags(f)),
            None => Err(AdvertisingDataError::Truncated),
        },
        AdvertisingDataType::IncompleteListOf16BitServiceUUIDs
        | AdvertisingDataType::CompleteListOf16BitServiceUUIDs => match as_u16_slice(payload) {
            Some(u) => {
                proof {
                    assert(u@ =~= le_elems(payload@, 2).map_values(|x: nat| x as u16)) by {
                        assert forall|i: int| 0 <= i < u@.len() implies u@[i] == (le_elems(
                            payload@,
                            2,
                        )[i] as u16) by {
                            assert(nats_of_u16(u@)[i] == u@[i] as nat);
                        }
                    }
                }
                if t == AdvertisingDataType::IncompleteListOf16BitServiceUUIDs {
                    Ok(AdvertisingData::IncompleteListOf16BitServiceUUIDs(u))
                } else {
                    Ok(AdvertisingData::CompleteListOf16BitServiceUUIDs(u))
                }
            },
            None => Err(AdvertisingDataError::InvalidEncoding),
        },
        AdvertisingDataType::IncompleteListOf32BitServiceUUIDs
        | AdvertisingDataType::CompleteListOf32BitServiceUUIDs => match as_u32_slice(payload) {
            Some(u) => {
                proof {
                    assert(u@ =~= le_elems(payload@, 4).map_values(|x: nat| x as u32)) by {
                        assert forall|i: int| 0 <= i < u@.len() implies u@[i] == (le_elems(
                            payload@,
                            4,
                        )[i] as u32) by {
                            assert(nats_of_u32(u@)[i] == u@[i] as nat);
                        }
                    }
                }
                if t == AdvertisingDataType::IncompleteListOf32BitServiceUUIDs {
                    Ok(AdvertisingData::IncompleteListOf32BitServiceUUIDs(u))
                } else {
                    Ok(AdvertisingData::CompleteListOf32BitServiceUUIDs(u))
                }
            },
            None => Err(AdvertisingDataError::InvalidEncoding),
        },
        AdvertisingDataType::IncompleteListOf128BitServiceUUIDs
        | AdvertisingDataType::CompleteListOf128BitServiceUUIDs => match as_u128_slice(payload) {
            Some(u) => {
                proof {
                    assert(u@ =~= le_elems(payload@, 16).map_values(|x: nat| x as u128)) by {
                        assert forall|i: int| 0 <= i < u@.len() implies u@[i] == (le_elems(
                            payload@,
                            16,
                        )[i] as u128) by {
                            assert(nats_of_u128(u@)[i] == u@[i] as nat);
                        }
                    }
                }
                if t == AdvertisingDataType::IncompleteListOf128BitServiceUUIDs {
                    Ok(AdvertisingData::IncompleteListOf128BitServiceUUIDs(u))
                } else {
                    Ok(AdvertisingData::CompleteListOf128BitServiceUUIDs(u))
                }
            },
            None => Err(AdvertisingDataError::InvalidEncoding),
        },
        AdvertisingDataType::ShortenedLocalName => match utf8_str(payload) {
            Some(name) => Ok(AdvertisingData::ShortenedLocalName(name.to_owned())),
            None => Err(AdvertisingDataError::InvalidEncoding),
        },
        AdvertisingDataType::CompleteLocalName => match utf8_str(payload) {
            Some(name) => Ok(AdvertisingData::CompleteLocalName(name.to_owned())),
            None => Err(AdvertisingDataError::InvalidEncoding),
        },
        AdvertisingDataType::TxPowerLevel => match reader.read_u8() {
            Some(l) => Ok(AdvertisingData::TxPowerLevel(l as i8)),
            None => Err(AdvertisingDataError::Truncated),
        },
        AdvertisingDataType::ClassOfDevice => match reader.read_u32() {
            Some(c) => Ok(AdvertisingData::ClassOfDevice(c)),
            None => Err(AdvertisingDataError::Truncated),
        },
        AdvertisingDataType::Appearance => match reader.read_u16() {
            Some(a) => Ok(AdvertisingData::Appearance(a)),
            None => Err(AdvertisingDataError::Truncated),
        },
        AdvertisingDataType::PeripheralConnectionIntervalRange => Ok(
            AdvertisingData::PeripheralConnectionIntervalRange(slice_to_vec(payload)),
        ),
        AdvertisingDataType::ServiceData => Ok(AdvertisingData::ServiceData(slice_to_vec(payload))),
        AdvertisingDataType::LEBluetoothDeviceAddress => Ok(
            AdvertisingData::LEBluetoothDeviceAddress(slice_to_vec(payload)),
        ),
        AdvertisingDataType::ManufacturerSpecificData => Ok(
            AdvertisingData::ManufacturerSpecificData(slice_to_vec(payload)),
        ),
    }
}

/// One step over a run of AD records: the outcome of the first record and the
/// bytes after it. The run ends (nothing, and nothing left) at the end of the
/// input or at a zero length byte, which closes the significant part of
/// advertising data. A record that runs past the input fails as truncated
/// and consumes the rest; any other record is consumed whole, so decoding can
/// go on after a record it could not use.
pub open spec fn ad_next(rest: Seq<u8>) -> (
    Option<Result<AdvertisingDataView, AdvertisingDataError>>,
    Seq<u8>,
) {
    if rest.len() == 0 || rest[0] == 0 {
        (None, Seq::empty())
    } else if rest.len() < rest[0] + 1 {
        (Some(Err(AdvertisingDataError::Truncated)), Seq::empty())
    } else {
        (
            Some(ad_decode_payload(rest[1], rest.subrange(2, rest[0] + 1))),
            rest.skip(rest[0] + 1),
        )
    }
}

/// The outcome of a step, with elements replaced by their values.
pub open spec fn ad_step_view(r: Option<Result<AdvertisingData, AdvertisingDataError>>) -> Option<
    Result<AdvertisingDataView, AdvertisingDataError>,
> {
    match r {
        Some(o) => Some(ad_outcome_view(o)),
        None => None,
    }
}

/// A lazy, finite sequence of the AD elements in a byte run.
#[derive(Debug)]
pub struct AdvertisingDataIterator<'p> {
    pub reader: Reader<'p>,
}

impl<'p> AdvertisingDataIterator<'p> {
    /// The elements of `bytes`.
    pub fn new(bytes: &'p [u8]) -> (r: AdvertisingDataIterator<'p>)
        ensures
            r.reader@.rest() == bytes@,
    {
        AdvertisingDataIterator { reader: Reader::new(bytes) }
    }

    /// The next element, an error for a record that cannot be decoded, or
    /// nothing at the end.
    pub fn next(&mut self) -> (r: Option<Result<AdvertisingData, AdvertisingDataError>>)
        ensures
            (ad_step_view(r), final(self).reader@.rest()) == ad_next(old(self).reader@.rest()),
    {
        proof {
            use_type_invariant(&self.reader);
        }
        let ghost v0 = self.reader@;
        if self.reader.remaining() == 0 {
            proof {
                assert(self.reader@.rest() =~= Seq::<u8>::empty());
            }
            return None;
        }
        let len = match self.reader.read_u8() {
            Some(len) => len,
            None => {
                return None;
            },
        };
        if len == 0 {
            self.reader.skip_to_end();
            return None;
        }
        proof {
            lemma_advanced_rest(v0, 1);
        }
        let tag = match self.reader.read_u8() {
            Some(tag) => tag,
            None => {
                self.reader.skip_to_end();
                return Some(Err(AdvertisingDataError::Truncated));
            },
        };
        proof {
            lemma_advanced_rest(v0, 2);
            lemma_advanced_rest(v0.advanced(1), 1);
        }
        let payload = match self.reader.read_slice((len - 1) as usize) {
            Some(payload) => payload,
            None => {
                self.reader.skip_to_end();
                return Some(Err(AdvertisingDataError::Truncated));
            },
        };
        proof {
            lemma_advanced_rest(v0, len as nat + 1);
            lemma_advanced_rest(v0.advanced(2), (len - 1) as nat);
            assert(payload@ =~= v0.rest().subrange(2, len + 1));
        }
        Some(decode_payload(tag, payload))
    }
}

/// Decoding the record of an encodable element, whatever follows it, gives
/// the element back and leaves exactly what follows.
pub proof fn lemma_ad_round_trip(v: AdvertisingDataView, tail: Seq<u8>)
    requires
        ad_encodable(v),
    ensures
        ad_next(ad_record(v) + tail) == (
            Some(Ok::<AdvertisingDataView, AdvertisingDataError>(v)),
            tail,
        ),
{
    let p = ad_payload(v);
    let r = ad_record(v) + tail;
    assert(r.subrange(2, p.len() + 2 as int) =~= p);
    assert(r.skip(p.len() + 2 as int) =~= tail);
    lemma_ad_type_code_round_trip(ad_type_of(v));
    lemma_payload_len(v);
    lemma_byte_span_values();
    match v {
        AdvertisingDataView::IncompleteListOf16BitServiceUUIDs(u)
        | AdvertisingDataView::CompleteListOf16BitServiceUUIDs(u) => {
            lemma_le_elems_of_list(nats_of_u16(u), 2);
            assert(nats_of_u16(u).map_values(|x: nat| x as u16) =~= u);
        },
        AdvertisingDataView::IncompleteListOf32BitServiceUUIDs(u)
        | AdvertisingDataView::CompleteListOf32BitServiceUUIDs(u) => {
            lemma_le_elems_of_list(nats_of_u32(u), 4);
            assert(nats_of_u32(u).map_values(|x: nat| x as u32) =~= u);
        },
        AdvertisingDataView::IncompleteListOf128BitServiceUUIDs(u)
        | AdvertisingDataView::CompleteListOf128BitServiceUUIDs(u) => {
            lemma_le_elems_of_list(nats_of_u128(u), 16);
            assert(nats_of_u128(u).map_values(|x: nat| x as u128) =~= u);
        },
        AdvertisingDataView::ShortenedLocalName(s) | AdvertisingDataView::CompleteLocalName(s) => {
            encode_utf8_valid_utf8(s);
            encode_utf8_decode_utf8(s);
        },
        AdvertisingDataView::TxPowerLevel(l) => {
            lemma_i8_bits(l);
        },
        AdvertisingDataView::ClassOfDevice(c) => {
            assert(p.take(4) =~= p);
            lemma_le_value_of_bytes(c as nat, 4);
        },
        AdvertisingDataView::Appearance(a) => {
            assert(p.take(2) =~= p);
            lemma_le_value_of_bytes(a as nat, 2);
        },
        _ => {},
    }
}

/// Every non-empty proper prefix of an encodable element's record fails as
/// truncated and ends the run.
pub proof fn lemma_ad_record_truncated(v: AdvertisingDataView, i: int)
    requires
        ad_encodable(v),
        0 < i < ad_record(v).len(),
    ensures
        ad_next(ad_record(v).take(i)) == (
            Some(Err::<AdvertisingDataView, AdvertisingDataError>(AdvertisingDataError::Truncated)),
            Seq::<u8>::empty(),
        ),
{
    assert(ad_record(v).take(i)[0] == ad_payload(v).len() + 1);
}

} // verus!
