use vstd::prelude::*;

verus! {

/// What went wrong while turning a raw OS block into an owned record.
#[derive(Debug, Clone, Copy, PartialEq, Eq, Structural)]
pub enum DecodeError {
    /// An operational-status code outside the seven states the OS defines.
    UnknownOperStatus(u32),
    /// A link or pointer that does not land inside the fetched buffer.
    BadLink,
    /// A chain that never reaches its terminating null link.
    Cycle,
    /// A socket address that is too long, too short or of an unknown family.
    BadSocketAddress,
    /// A length field larger than the field it describes.
    BadLength,
    /// Text that is not valid in its encoding, or that is not terminated.
    BadText,
}

/// The failure classes of this library.
#[derive(Debug, Clone, Copy, PartialEq, Eq, Structural)]
pub enum ErrorKind {
    /// A failed OS call, with the status code it returned.
    Os(u32),
    /// A raw block that could not be decoded.
    Decode(DecodeError),
    /// A caller-supplied interface name that resolves to nothing.
    InvalidInterfaceName,
}

#[derive(Debug, Clone, Copy, PartialEq, Eq, Structural)]
pub struct Error {
    pub kind: ErrorKind,
}

impl Error {
    pub fn os(code: u32) -> (r: Error)
        ensures
            r.kind == ErrorKind::Os(code),
    {
        Error { kind: ErrorKind::Os(code) }
    }

    pub fn decode(what: DecodeError) -> (r: Error)
        ensures
            r.kind == ErrorKind::Decode(what),
    {
        Error { kind: ErrorKind::Decode(what) }
    }

    /// A short human-readable description of the error.
    pub fn message(&self) -> (r: String)
        ensures
            self.kind is Os ==> r@ == "os error"@,
            self.kind is Decode ==> r@ == "malformed data returned by the os"@,
            self.kind is InvalidInterfaceName ==> r@ == "invalid interface name"@,
    {
        match self.kind {
            ErrorKind::Os(_) => String::from_str("os error"),
            ErrorKind::Decode(_) => String::from_str("malformed data returned by the os"),
            ErrorKind::InvalidInterfaceName => String::from_str("invalid interface name"),
        }
    }
}

} // verus!
