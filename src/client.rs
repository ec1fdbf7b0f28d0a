use vstd::prelude::*;
use crate::codec::{decode_payload, decoded_as, may_be_refused, Encoding};
use crate::screen::Frame;
use crate::wire::{be_value, decode_length, HEADER_LEN};

verus! {

/// Why a link is not, or no longer, receiving frames.
#[derive(Clone, Copy, PartialEq, Eq, Structural, Debug)]
pub enum LinkError {
    /// The target is not a valid address.
    InvalidAddress,
    /// The connection was not established in time.
    Timeout,
    /// The connection was refused or failed otherwise.
    ConnectFailed,
    /// The hub closed the connection.
    ClosedByPeer,
    /// A payload could not be decoded.
    Malformed,
    /// Reading from the connection failed.
    ReadFailed,
}

/// What the link hands its consumer after a read.
pub enum LinkEvent {
    /// A heartbeat: nothing new this tick; the frame on display stays.
    NoUpdate,
    /// A newly decoded frame.
    Frame(Frame),
    /// The link has ended, for the given reason.
    Disconnected(LinkError),
}

/// What the runner must read next from the connection.
#[derive(Clone, Copy, PartialEq, Eq, Structural, Debug)]
pub enum ReadStep {
    /// Exactly the 4-byte length prefix of the next message.
    Header,
    /// Exactly that many payload bytes.
    Payload(u32),
    /// Nothing: the read loop ends.
    Done,
}

/// How a read asked for by `ReadStep` went.
pub enum ReadOutcome {
    /// Exactly the bytes asked for.
    Bytes(Vec<u8>),
    /// The connection ended cleanly before they all came.
    EndOfStream,
    /// Any other failure.
    Failed,
}

/// Where a link's read loop stands.
#[derive(Clone, Copy, PartialEq, Eq, Structural, Debug)]
pub enum LinkPhase {
    /// Not connected yet.
    Idle,
    /// Waiting for a length prefix.
    AwaitHeader,
    /// Waiting for a payload of this many bytes.
    AwaitPayload(u32),
    /// The loop has ended.
    Closed,
}

/// The decisions of a receiving link: which bytes to read next, what each read
/// means, and whether to go on. The runner performs the reads and delivers events.
pub struct Client {
    pub encoding: Encoding,
    pub phase: LinkPhase,
    pub shutdown_requested: bool,
}

impl Client {
    /// A link that is not connected, decoding payloads of `encoding`.
    pub fn new(encoding: Encoding) -> (r: Self)
        ensures
            r == (Client { encoding, phase: LinkPhase::Idle, shutdown_requested: false }),
    {
        Client { encoding, phase: LinkPhase::Idle, shutdown_requested: false }
    }

    /// The connection is up: clears any earlier shutdown request and waits for the
    /// first length prefix.
    pub fn start(&mut self)
        ensures
            *final(self) == (Client {
                encoding: old(self).encoding,
                phase: LinkPhase::AwaitHeader,
                shutdown_requested: false,
            }),
    {
        self.phase = LinkPhase::AwaitHeader;
        self.shutdown_requested = false;
    }

    /// Asks the read loop to stop before its next read. Asking again changes nothing
    /// more, and asking after the loop ended is harmless.
    pub fn stop(&mut self)
        ensures
            *final(self) == old(self).stopped(),
    {
        self.shutdown_requested = true;
    }

    /// The link once a stop has been asked for.
    pub open spec fn stopped(self) -> Client {
        Client { shutdown_requested: true, ..self }
    }

    /// What to read next; nothing once the loop has ended or a stop was asked for.
    pub fn next_read(&self) -> (r: ReadStep)
        ensures
            r == (if self.shutdown_requested {
                ReadStep::Done
            } else {
                match self.phase {
                    LinkPhase::AwaitHeader => ReadStep::Header,
                    LinkPhase::AwaitPayload(n) => ReadStep::Payload(n),
                    _ => ReadStep::Done,
                }
            }),
    {
        if self.shutdown_requested {
            return ReadStep::Done;
        }
        match self.phase {
            LinkPhase::AwaitHeader => ReadStep::Header,
            LinkPhase::AwaitPayload(n) => ReadStep::Payload(n),
            _ => ReadStep::Done,
        }
    }

    /// Takes in the outcome of the read that `next_read` asked for and says what, if
    /// anything, the consumer gets. A zero length is a heartbeat; any other length is
    /// followed by its payload, which is decoded. A clean end of stream, a read
    /// failure, bytes of the wrong count and an undecodable payload each end the
    /// loop with their own reason.
    pub fn on_read(&mut self, outcome: ReadOutcome) -> (r: Option<LinkEvent>)
        ensures
            final(self).encoding == old(self).encoding,
            final(self).shutdown_requested == old(self).shutdown_requested,
            !(old(self).phase is AwaitHeader || old(self).phase is AwaitPayload) ==> r is None
                && *final(self) == *old(self),
            (old(self).phase is AwaitHeader || old(self).phase is AwaitPayload) ==> match outcome {
                ReadOutcome::EndOfStream => final(self).phase == LinkPhase::Closed && r matches Some(
                    LinkEvent::Disconnected(LinkError::ClosedByPeer),
                ),
                ReadOutcome::Failed => final(self).phase == LinkPhase::Closed && r matches Some(
                    LinkEvent::Disconnected(LinkError::ReadFailed),
                ),
                ReadOutcome::Bytes(b) => match old(self).phase {
                    LinkPhase::AwaitHeader => if b@.len() != HEADER_LEN {
                        final(self).phase == LinkPhase::Closed && r matches Some(
                            LinkEvent::Disconnected(LinkError::ReadFailed),
                        )
                    } else if be_value(b@) == 0 {
                        final(self).phase == LinkPhase::AwaitHeader && r matches Some(
                            LinkEvent::NoUpdate,
                        )
                    } else {
                        final(self).phase == LinkPhase::AwaitPayload(be_value(b@) as u32)
                            && r is None
                    },
                    LinkPhase::AwaitPayload(n) => if b@.len() != n {
                        final(self).phase == LinkPhase::Closed && r matches Some(
                            LinkEvent::Disconnected(LinkError::ReadFailed),
                        )
                    } else {
                        match r {
                            Some(LinkEvent::Frame(f)) => final(self).phase == LinkPhase::AwaitHeader
                                && f.wf() && decoded_as(b@, old(self).encoding, f),
                            Some(LinkEvent::Disconnected(LinkError::Malformed)) => final(self).phase
                                == LinkPhase::Closed && may_be_refused(b@, old(self).encoding),
                            _ => false,
                        }
                    },
                    _ => false,
                },
            },
    {
        let waiting_payload: Option<u32> = match self.phase {
            LinkPhase::AwaitHeader => None,
            LinkPhase::AwaitPayload(n) => Some(n),
            _ => {
                return None;
            },
        };
        let bytes = match outcome {
            ReadOutcome::EndOfStream => {
                self.phase = LinkPhase::Closed;
                return Some(LinkEvent::Disconnected(LinkError::ClosedByPeer));
            },
            ReadOutcome::Failed => {
                self.phase = LinkPhase::Closed;
                return Some(LinkEvent::Disconnected(LinkError::ReadFailed));
            },
            ReadOutcome::Bytes(b) => b,
        };
        match waiting_payload {
            None => {
                if bytes.len() != HEADER_LEN {
                    self.phase = LinkPhase::Closed;
                    return Some(LinkEvent::Disconnected(LinkError::ReadFailed));
                }
                let header: [u8; 4] = [bytes[0], bytes[1], bytes[2], bytes[3]];
                assert(header@ =~= bytes@.subrange(0, 4));
                let n = decode_length(&header);
                if n == 0 {
                    Some(LinkEvent::NoUpdate)
                } else {
                    self.phase = LinkPhase::AwaitPayload(n);
                    None
                }
            },
            Some(n) => {
                if bytes.len() != n as usize {
                    self.phase = LinkPhase::Closed;
                    return Some(LinkEvent::Disconnected(LinkError::ReadFailed));
                }
                match decode_payload(bytes.as_slice(), self.encoding) {
                    Ok(frame) => {
                        self.phase = LinkPhase::AwaitHeader;
                        Some(LinkEvent::Frame(frame))
                    },
                    Err(_) => {
                        self.phase = LinkPhase::Closed;
                        Some(LinkEvent::Disconnected(LinkError::Malformed))
                    },
                }
            },
        }
    }
}

/// Asking a link to stop a second time in a row leaves it exactly as asking once
/// did, and a link asked to stop reads nothing more.
pub proof fn lemma_stop_idempotent(c: Client)
    ensures
        c.stopped().stopped() == c.stopped(),
        c.stopped().shutdown_requested,
        c.stopped().phase == c.phase,
        c.stopped().encoding == c.encoding,
{
}

} // verus!
