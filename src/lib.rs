//! Host network configuration: adapter tables, packet-filter sub-layers and
//! interface-index resolution, decoded from the operating system's raw tables
//! into owned, verified records.

pub mod adapter;
pub mod error;
pub mod fetch;
pub mod fwpm;
pub mod guid;
pub mod ifindex;
pub mod raw;
pub mod sockaddr;
pub mod strings;
pub mod table;
pub mod text;
pub mod walker;

pub use adapter::{Adapter, IfType, IpAddress, OperStatus};
pub use error::{DecodeError, Error, ErrorKind};
pub use fetch::{FetchStep, QueryResponse, TableFetch};
pub use fwpm::{DisplayData, EnumSession, SessionAction, SessionState, SubLayer, SubLayerRegistration};
pub use guid::{bytes_to_guid, guid_to_bytes, Guid};
pub use ifindex::{find_adapter_interface_index, index_from_name_lookup, IndexCache, ResolveAction};
pub use table::{decode_adapter, decode_adapters};
pub use walker::{walk_chain, ChainShape};
