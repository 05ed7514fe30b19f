use crate::error::{DecodeError, Error, ErrorKind};
use crate::guid::{
    bytes_to_guid, guid_bytes, guid_of_bytes, guid_to_bytes, lemma_guid_round_trip, Guid,
};
use crate::raw::{read_u32, u32_at};
use crate::text::{decode_utf16, utf16_text};
use vstd::prelude::*;

verus! {

/// Size of one sub-layer block as the enumeration returns it, and where its
/// flags lie in it (its key is the first 16 bytes).
pub const SUB_LAYER_BLOCK_LEN: usize = 72;
pub const SUB_LAYER_FLAGS_AT: usize = 32;

/// The weight every registered sub-layer gets: the maximum.
pub const SUB_LAYER_WEIGHT: u16 = 0xffff;

/// The status the engine reports for a call that succeeded.
pub const FWP_SUCCESS: u32 = 0;

/// Whether `s` holds no NUL character (the wire form ends a string at one).
pub open spec fn no_nul(s: Seq<char>) -> bool {
    forall|i: int| 0 <= i < s.len() ==> s[i] != '\0'
}

pub open spec fn opt_text(o: Option<String>) -> Option<Seq<char>> {
    match o {
        Some(s) => Some(s@),
        None => None,
    }
}

/// A name and an optional description that label a packet-filter object.
#[derive(Debug, Clone)]
pub struct DisplayData {
    pub name: String,
    pub desc: Option<String>,
}

impl DisplayData {
    pub fn new(name: String, desc: Option<String>) -> (r: DisplayData)
        requires
            no_nul(name@),
            match desc {
                Some(d) => no_nul(d@),
                None => true,
            },
        ensures
            r.name@ == name@,
            opt_text(r.desc) == opt_text(desc),
    {
        DisplayData { name, desc }
    }

    /// Decodes the wire form: the UTF-16 units of the name and, if present,
    /// of the description, each without its terminating NUL.
    pub fn from_wire(name: &[u16], desc: Option<&[u16]>) -> (r: Result<DisplayData, Error>)
        ensures
            match r {
                Ok(d) => {
                    &&& utf16_text(name@) == Some(d.name@)
                    &&& match desc {
                        Some(u) => utf16_text(u@) == opt_text(d.desc),
                        None => d.desc is None,
                    }
                },
                Err(e) => {
                    &&& e.kind == ErrorKind::Decode(DecodeError::BadText)
                    &&& (utf16_text(name@) is None || (desc is Some && utf16_text(desc->0@) is None))
                },
            },
    {
        let name = match decode_utf16(name) {
            Some(s) => s,
            None => return Err(Error::decode(DecodeError::BadText)),
        };
        let desc = match desc {
            Some(u) => match decode_utf16(u) {
                Some(s) => Some(s),
                None => return Err(Error::decode(DecodeError::BadText)),
            },
            None => None,
        };
        Ok(DisplayData { name, desc })
    }
}

/// One packet-filter priority layer.
#[derive(Debug, Clone)]
pub struct SubLayer {
    pub sub_layer_key: [u8; 16],
    pub display_data: DisplayData,
    pub flags: u32,
}

/// The fixed fields of the wire form a sub-layer is registered with; it
/// carries no provider key and no provider data.
#[derive(Debug, Clone, Copy)]
pub struct SubLayerRegistration {
    pub key: Guid,
    pub flags: u32,
    pub weight: u16,
}

impl SubLayer {
    /// Rebuilds a sub-layer from a copied enumeration block and its decoded
    /// display data.
    pub fn from_block(block: &[u8], display_data: DisplayData) -> (r: Result<SubLayer, Error>)
        ensures
            match r {
                Ok(l) => {
                    &&& block@.len() >= SUB_LAYER_BLOCK_LEN
                    &&& l.sub_layer_key@ == block@.subrange(0, 16)
                    &&& l.flags == u32_at(block@, SUB_LAYER_FLAGS_AT as int)
                    &&& l.display_data == display_data
                },
                Err(e) => block@.len() < SUB_LAYER_BLOCK_LEN && e.kind == ErrorKind::Decode(
                    DecodeError::BadLength,
                ),
            },
    {
        if block.len() < SUB_LAYER_BLOCK_LEN {
            return Err(Error::decode(DecodeError::BadLength));
        }
        let raw: [u8; 16] = [
            block[0], block[1], block[2], block[3], block[4], block[5], block[6], block[7],
            block[8], block[9], block[10], block[11], block[12], block[13], block[14], block[15],
        ];
        let key = bytes_to_guid(raw);
        let sub_layer_key = guid_to_bytes(&key);
        proof {
            lemma_guid_round_trip(key, raw@);
            assert(raw@ == block@.subrange(0, 16));
        }
        let flags = read_u32(block, SUB_LAYER_FLAGS_AT);
        Ok(SubLayer { sub_layer_key, display_data, flags })
    }

    /// The fixed fields to register this sub-layer with: its key as an
    /// identifier, its flags, and the maximum weight.
    pub fn registration(&self) -> (r: SubLayerRegistration)
        ensures
            r.key == guid_of_bytes(self.sub_layer_key@),
            guid_bytes(r.key) == self.sub_layer_key@,
            r.flags == self.flags,
            r.weight == SUB_LAYER_WEIGHT,
    {
        let key = bytes_to_guid(self.sub_layer_key);
        proof {
            lemma_guid_round_trip(key, self.sub_layer_key@);
        }
        SubLayerRegistration { key, flags: self.flags, weight: SUB_LAYER_WEIGHT }
    }
}

/// Where an enumeration of packet-filter objects stands.
#[derive(Debug, Clone, Copy, PartialEq, Eq, Structural)]
pub enum SessionState {
    /// Nothing is open yet; the next call opens an engine session.
    Closed,
    /// A session is open; the next call creates an enumeration cursor.
    SessionOpen,
    /// A session and a cursor are open; the next call enumerates.
    CursorOpen,
    /// The enumeration is over and everything it opened is released.
    Finished,
}

/// What the caller does next.
#[derive(Debug, Clone, Copy, PartialEq, Eq, Structural)]
pub enum SessionAction {
    /// Create the enumeration cursor on the open session.
    CreateCursor,
    /// Fetch all matching objects through the cursor.
    Enumerate,
    /// Release the cursor and/or the session as flagged, then report
    /// `error`, or the enumerated objects when there is none.
    Finish { close_cursor: bool, close_session: bool, error: Option<Error> },
}

/// The action after state `s` receives `status` (`present` tells whether an
/// enumeration handed back an array).
pub open spec fn session_step(s: SessionState, status: u32, present: bool) -> (SessionState, SessionAction) {
    match s {
        SessionState::Closed => if status == FWP_SUCCESS {
            (SessionState::SessionOpen, SessionAction::CreateCursor)
        } else {
            (
                SessionState::Finished,
                SessionAction::Finish {
                    close_cursor: false,
                    close_session: false,
                    error: Some(Error { kind: ErrorKind::Os(status) }),
                },
            )
        },
        SessionState::SessionOpen => if status == FWP_SUCCESS {
            (SessionState::CursorOpen, SessionAction::Enumerate)
        } else {
            (
                SessionState::Finished,
                SessionAction::Finish {
                    close_cursor: false,
                    close_session: true,
                    error: Some(Error { kind: ErrorKind::Os(status) }),
                },
            )
        },
        _ => (
            SessionState::Finished,
            SessionAction::Finish {
                close_cursor: true,
                close_session: true,
                error: if status != FWP_SUCCESS {
                    Some(Error { kind: ErrorKind::Os(status) })
                } else if !present {
                    Some(Error { kind: ErrorKind::Os(0) })
                } else {
                    None
                },
            },
        ),
    }
}

/// The enumeration protocol: open a session, create a cursor, enumerate,
/// and release whatever was opened on every way out.
#[derive(Debug, Clone, Copy, PartialEq, Eq, Structural)]
pub struct EnumSession {
    pub state: SessionState,
}

impl EnumSession {
    pub fn new() -> (r: EnumSession)
        ensures
            r.state == SessionState::Closed,
    {
        EnumSession { state: SessionState::Closed }
    }

    /// Takes the status of the call the last action asked for (for the
    /// enumeration, also whether it handed back an array) and says what to
    /// do next.
    pub fn on_status(&mut self, status: u32, present: bool) -> (r: SessionAction)
        requires
            old(self).state != SessionState::Finished,
        ensures
            (final(self).state, r) == session_step(old(self).state, status, present),
    {
        match self.state {
            SessionState::Closed => if status == FWP_SUCCESS {
                self.state = SessionState::SessionOpen;
                SessionAction::CreateCursor
            } else {
                self.state = SessionState::Finished;
                SessionAction::Finish {
                    close_cursor: false,
                    close_session: false,
                    error: Some(Error::os(status)),
                }
            },
            SessionState::SessionOpen => if status == FWP_SUCCESS {
                self.state = SessionState::CursorOpen;
                SessionAction::Enumerate
            } else {
                self.state = SessionState::Finished;
                SessionAction::Finish {
                    close_cursor: false,
                    close_session: true,
                    error: Some(Error::os(status)),
                }
            },
            _ => {
                self.state = SessionState::Finished;
                let error = if status != FWP_SUCCESS {
                    Some(Error::os(status))
                } else if !present {
                    Some(Error::os(0))
                } else {
                    None
                };
                SessionAction::Finish { close_cursor: true, close_session: true, error }
            },
        }
    }
}

/// Every way out of the protocol releases exactly what it opened: the
/// session once it was opened, the cursor once it was created; and success
/// is reported only after a successful enumeration.
pub proof fn lemma_finish_releases(s: SessionState, status: u32, present: bool)
    requires
        s != SessionState::Finished,
    ensures
        match session_step(s, status, present).1 {
            SessionAction::Finish { close_cursor, close_session, error } => {
                &&& session_step(s, status, present).0 == SessionState::Finished
                &&& close_session == (s != SessionState::Closed)
                &&& close_cursor == (s == SessionState::CursorOpen)
                &&& (error is None <==> (s == SessionState::CursorOpen && status == FWP_SUCCESS
                    && present))
            },
            _ => status == FWP_SUCCESS && session_step(s, status, present).0 != SessionState::Finished,
        },
{
}

} // verus!
