//! The receiver's decision logic: output directory validation, local
//! interface selection, and the single-use session that walks one inbound
//! transfer from header to completion.
//!
//! All socket and file traffic stays with the caller; the session is fed the
//! bytes that were read and says, at each step, how the transfer proceeds.

use vstd::prelude::*;

use crate::codec::append_range;
use crate::codec::decode_header;
use crate::codec::parse_header;
use crate::codec::Header;
use crate::codec::HEADER_SIZE;
use crate::codec::MAX_NAME_LEN;
use crate::errors::TransferError;

verus! {

/// What to do about the output directory before listening.
#[derive(Clone, Copy, Debug, PartialEq, Eq, Structural)]
pub enum OutputDirAction {
    /// The directory exists; use it as it is.
    UseExisting,
    /// The directory is missing and may be created recursively.
    Create,
}

/// Decides whether the output directory can be used, from what the
/// filesystem reports about it. The directory is accepted as it stands when
/// it exists as a directory, may be created only when `create_missing` asks
/// for that, and is otherwise rejected before any socket is opened.
pub fn check_output_path(exists: bool, is_dir: bool, create_missing: bool) -> (r: Result<
    OutputDirAction,
    TransferError,
>)
    ensures
        exists && is_dir ==> r == Ok::<OutputDirAction, TransferError>(
            OutputDirAction::UseExisting,
        ),
        exists && !is_dir ==> r == Err::<OutputDirAction, TransferError>(
            TransferError::OutputNotADirectory,
        ),
        !exists && create_missing ==> r == Ok::<OutputDirAction, TransferError>(
            OutputDirAction::Create,
        ),
        !exists && !create_missing ==> r == Err::<OutputDirAction, TransferError>(
            TransferError::OutputNotFound,
        ),
{
    if exists {
        if is_dir {
            Ok(OutputDirAction::UseExisting)
        } else {
            Err(TransferError::OutputNotADirectory)
        }
    } else {
        if create_missing {
            Ok(OutputDirAction::Create)
        } else {
            Err(TransferError::OutputNotFound)
        }
    }
}

/// What the receiver needs to know about one local network interface.
#[derive(Debug)]
pub struct NetInterface {
    /// Whether the interface is a loopback interface.
    pub loopback: bool,
    /// Whether the interface carries an IPv4 address.
    pub ipv4: bool,
    /// The textual form of the interface's address.
    pub address: Vec<u8>,
}

/// An interface the receiver is willing to announce: IPv4 and not loopback.
pub open spec fn announceable(iface: NetInterface) -> bool {
    !iface.loopback && iface.ipv4
}

/// Picks the first non-loopback IPv4 interface, if any.
pub fn pick_local_address(ifaces: &Vec<NetInterface>) -> (r: Option<usize>)
    ensures
        match r {
            Some(i) => {
                &&& i < ifaces@.len()
                &&& announceable(ifaces@[i as int])
                &&& forall|j: int| 0 <= j < i ==> !announceable(#[trigger] ifaces@[j])
            },
            None => forall|j: int|
                0 <= j < ifaces@.len() ==> !announceable(#[trigger] ifaces@[j]),
        },
{
    let mut i: usize = 0;
    while i < ifaces.len()
        invariant
            i <= ifaces@.len(),
            forall|j: int| 0 <= j < i ==> !announceable(#[trigger] ifaces@[j]),
        decreases ifaces@.len() - i,
    {
        if !ifaces[i].loopback && ifaces[i].ipv4 {
            return Some(i);
        }
        i += 1;
    }
    None
}

/// Where one inbound transfer stands.
#[derive(Debug)]
pub enum SessionState {
    /// Nothing read yet; the 24-byte header is owed first.
    AwaitHeader,
    /// The header was decoded; the filename bytes are owed next.
    AwaitName { header: Header },
    /// Header and filename are in hand; content bytes are being streamed.
    Streaming { header: Header, name: Vec<u8>, received: u64 },
    /// The peer closed its half of the connection; the transfer is complete
    /// and the received file may be finalized.
    Complete { header: Header, name: Vec<u8>, received: u64 },
    /// The stream ended inside the header or inside the filename.
    Failed,
}

/// One receiving transfer session: accepts the bytes of exactly one inbound
/// connection, in order, and is then done, successfully or not.
pub struct ReceiverSession {
    /// Where the transfer stands.
    pub state: SessionState,
}

impl ReceiverSession {
    /// A fresh session that has read nothing yet.
    pub fn new() -> (s: ReceiverSession)
        ensures
            s.state is AwaitHeader,
    {
        ReceiverSession { state: SessionState::AwaitHeader }
    }

    /// Feeds the bytes that were available for the fixed-size header and
    /// returns how many filename bytes are owed next. A stream that closed
    /// before 24 header bytes, or a header announcing a filename longer
    /// than `MAX_NAME_LEN`, fails the session with a protocol error.
    pub fn header_received(&mut self, bytes: &Vec<u8>) -> (r: Result<usize, TransferError>)
        requires
            old(self).state is AwaitHeader,
        ensures
            bytes@.len() >= HEADER_SIZE && parse_header(bytes@).name_len <= MAX_NAME_LEN ==> {
                &&& r == Ok::<usize, TransferError>(parse_header(bytes@).name_len as usize)
                &&& final(self).state == (SessionState::AwaitName { header: parse_header(bytes@) })
            },
            bytes@.len() < HEADER_SIZE || parse_header(bytes@).name_len > MAX_NAME_LEN ==> {
                &&& r == Err::<usize, TransferError>(TransferError::ProtocolError)
                &&& final(self).state is Failed
            },
    {
        match decode_header(bytes) {
            Err(e) => {
                self.state = SessionState::Failed;
                Err(e)
            },
            Ok(h) => {
                if h.name_len > MAX_NAME_LEN {
                    self.state = SessionState::Failed;
                    Err(TransferError::ProtocolError)
                } else {
                    self.state = SessionState::AwaitName { header: h };
                    Ok(h.name_len as usize)
                }
            },
        }
    }

    /// Feeds the bytes that were available for the filename. A stream that
    /// closed before the announced filename length fails the session with a
    /// protocol error; otherwise content streaming begins.
    pub fn name_received(&mut self, bytes: &Vec<u8>) -> (r: Result<(), TransferError>)
        requires
            old(self).state is AwaitName,
        ensures
            ({
                let h = old(self).state->AwaitName_header;
                &&& (bytes@.len() >= h.name_len ==> {
                    &&& r == Ok::<(), TransferError>(())
                    &&& final(self).state matches SessionState::Streaming { header, name, received }
                        && header == h && name@ == bytes@.subrange(0, h.name_len as int)
                        && received == 0
                })
                &&& (bytes@.len() < h.name_len ==> {
                    &&& r == Err::<(), TransferError>(TransferError::ProtocolError)
                    &&& final(self).state is Failed
                })
            }),
    {
        let h = match &self.state {
            SessionState::AwaitName { header } => *header,
            _ => vstd::pervasive::unreached(),
        };
        if (bytes.len() as u64) < h.name_len {
            self.state = SessionState::Failed;
            return Err(TransferError::ProtocolError);
        }
        let n = h.name_len as usize;
        let mut name: Vec<u8> = Vec::new();
        append_range(&mut name, bytes, 0, n);
        self.state = SessionState::Streaming { header: h, name, received: 0 };
        Ok(())
    }

    /// Notes that one content chunk of `len` bytes arrived and was written
    /// to the working file. The running byte count saturates rather than
    /// overflow.
    pub fn chunk_received(&mut self, len: usize)
        requires
            old(self).state is Streaming,
        ensures
            ({
                let r0 = old(self).state->Streaming_received;
                &&& final(self).state matches SessionState::Streaming { header, name, received }
                    && header == old(self).state->Streaming_header
                    && name == old(self).state->Streaming_name
                    && received == if r0 + len <= u64::MAX { (r0 + len) as u64 } else { u64::MAX }
            }),
    {
        match &mut self.state {
            SessionState::Streaming { received, .. } => {
                let add = len as u64;
                if *received <= u64::MAX - add {
                    *received = *received + add;
                } else {
                    *received = u64::MAX;
                }
            },
            _ => {},
        }
    }

    /// Notes that the peer closed its half of the connection: the stream
    /// closure, not the declared size, is the authoritative end of content,
    /// and only now may the received file be finalized.
    pub fn end_of_stream(&mut self)
        requires
            old(self).state is Streaming,
        ensures
            final(self).state matches SessionState::Complete { header, name, received }
                && header == old(self).state->Streaming_header
                && name == old(self).state->Streaming_name
                && received == old(self).state->Streaming_received,
    {
        let mut st = SessionState::Failed;
        core::mem::swap(&mut st, &mut self.state);
        match st {
            SessionState::Streaming { header, name, received } => {
                self.state = SessionState::Complete { header, name, received };
            },
            _ => vstd::pervasive::unreached(),
        }
    }
}

} // verus!
