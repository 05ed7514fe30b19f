use crate::error::{DecodeError, Error};
use vstd::prelude::*;

verus! {

/// Operational status of an adapter, one of the seven states the OS defines.
#[derive(Debug, Clone, Copy, PartialEq, Eq, Structural)]
pub enum OperStatus {
    IfOperStatusUp,
    IfOperStatusDown,
    IfOperStatusTesting,
    IfOperStatusUnknown,
    IfOperStatusDormant,
    IfOperStatusNotPresent,
    IfOperStatusLowerLayerDown,
}

/// Interface media type: a curated subset of the IANA interface types.
/// A code outside the subset is `Unsupported`, which is distinct from the
/// IANA-defined `Other`. More variants may be added.
#[derive(Debug, Clone, Copy, PartialEq, Eq, Structural)]
#[non_exhaustive]
pub enum IfType {
    Other,
    EthernetCsmacd,
    Iso88025Tokenring,
    Ppp,
    SoftwareLoopback,
    Atm,
    Ieee80211,
    Tunnel,
    Ieee1394,
    Unsupported,
}

/// An IP address, version 4 or 6, as its network-order bytes.
#[derive(Debug, Clone, Copy, PartialEq, Eq)]
pub enum IpAddress {
    V4([u8; 4]),
    V6([u8; 16]),
}

/// A snapshot of one network interface.
#[derive(Debug, Clone)]
pub struct Adapter {
    pub adapter_name: String,
    pub network_guid: [u8; 16],
    pub luid: u64,
    pub ipv4_if_index: u32,
    pub ip_addresses: Vec<IpAddress>,
    pub prefixes: Vec<(IpAddress, u32)>,
    pub gateways: Vec<IpAddress>,
    pub dns_servers: Vec<IpAddress>,
    pub description: String,
    pub friendly_name: String,
    pub physical_address: Option<Vec<u8>>,
    pub receive_link_speed: u64,
    pub transmit_link_speed: u64,
    pub oper_status: OperStatus,
    pub if_type: IfType,
    pub ipv6_if_index: u32,
    pub ipv4_metric: u32,
    pub ipv6_metric: u32,
}

/// The status that the OS code `code` stands for, if any.
pub open spec fn oper_status_of(code: u32) -> Option<OperStatus> {
    if code == 1 {
        Some(OperStatus::IfOperStatusUp)
    } else if code == 2 {
        Some(OperStatus::IfOperStatusDown)
    } else if code == 3 {
        Some(OperStatus::IfOperStatusTesting)
    } else if code == 4 {
        Some(OperStatus::IfOperStatusUnknown)
    } else if code == 5 {
        Some(OperStatus::IfOperStatusDormant)
    } else if code == 6 {
        Some(OperStatus::IfOperStatusNotPresent)
    } else if code == 7 {
        Some(OperStatus::IfOperStatusLowerLayerDown)
    } else {
        None
    }
}

/// The IANA interface-type codes that have a variant of their own.
pub open spec fn is_curated_if_type(code: u32) -> bool {
    code == 1 || code == 6 || code == 9 || code == 23 || code == 24 || code == 37 || code == 71
        || code == 131 || code == 144
}

/// The interface type that the IANA code `code` decodes to.
pub open spec fn if_type_of(code: u32) -> IfType {
    if code == 1 {
        IfType::Other
    } else if code == 6 {
        IfType::EthernetCsmacd
    } else if code == 9 {
        IfType::Iso88025Tokenring
    } else if code == 23 {
        IfType::Ppp
    } else if code == 24 {
        IfType::SoftwareLoopback
    } else if code == 37 {
        IfType::Atm
    } else if code == 71 {
        IfType::Ieee80211
    } else if code == 131 {
        IfType::Tunnel
    } else if code == 144 {
        IfType::Ieee1394
    } else {
        IfType::Unsupported
    }
}

impl OperStatus {
    /// Decodes an OS status code; a code outside the seven states is an error.
    pub fn from_code(code: u32) -> (r: Result<OperStatus, Error>)
        ensures
            match oper_status_of(code) {
                Some(s) => r == Ok::<OperStatus, Error>(s),
                None => r == Err::<OperStatus, Error>(
                    Error { kind: crate::error::ErrorKind::Decode(DecodeError::UnknownOperStatus(code)) },
                ),
            },
    {
        match code {
            1 => Ok(OperStatus::IfOperStatusUp),
            2 => Ok(OperStatus::IfOperStatusDown),
            3 => Ok(OperStatus::IfOperStatusTesting),
            4 => Ok(OperStatus::IfOperStatusUnknown),
            5 => Ok(OperStatus::IfOperStatusDormant),
            6 => Ok(OperStatus::IfOperStatusNotPresent),
            7 => Ok(OperStatus::IfOperStatusLowerLayerDown),
            _ => Err(Error::decode(DecodeError::UnknownOperStatus(code))),
        }
    }
}

impl IfType {
    /// Decodes an IANA interface-type code.
    pub fn from_code(code: u32) -> (r: IfType)
        ensures
            r == if_type_of(code),
    {
        match code {
            1 => IfType::Other,
            6 => IfType::EthernetCsmacd,
            9 => IfType::Iso88025Tokenring,
            23 => IfType::Ppp,
            24 => IfType::SoftwareLoopback,
            37 => IfType::Atm,
            71 => IfType::Ieee80211,
            131 => IfType::Tunnel,
            144 => IfType::Ieee1394,
            _ => IfType::Unsupported,
        }
    }
}

/// Every interface-type code outside the curated set decodes to
/// `Unsupported`, never to `Other`; every code inside it decodes to a
/// variant of its own.
pub proof fn lemma_unknown_if_type(code: u32)
    ensures
        !is_curated_if_type(code) ==> if_type_of(code) == IfType::Unsupported,
        if_type_of(code) == IfType::Other <==> code == 1,
        is_curated_if_type(code) ==> if_type_of(code) != IfType::Unsupported,
{
}

} // verus!
