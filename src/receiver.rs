use vstd::prelude::*;
use crate::client::{LinkError, LinkEvent};
use crate::screen::Frame;

verus! {

/// What the receiving side shows: the target address, whether a link is up, the
/// last reason a link failed, and the frame on display.
pub struct Receiver {
    pub ip_address: String,
    pub connected: bool,
    pub error_message: Option<LinkError>,
    pub current_frame: Option<Frame>,
}

impl Receiver {
    /// Not connected, no address typed, nothing on display.
    pub fn new() -> (r: Self)
        ensures
            r.ip_address@ == Seq::<char>::empty(),
            !r.connected,
            r.error_message is None,
            r.current_frame is None,
    {
        Receiver {
            ip_address: String::new(),
            connected: false,
            error_message: None,
            current_frame: None,
        }
    }

    /// Whether a connect request should go out: an address is typed and no link is up.
    pub fn can_connect(&self) -> (r: bool)
        ensures
            r == (!self.connected && self.ip_address@.len() > 0),
    {
        !self.connected && !self.ip_address.as_str().is_empty()
    }

    /// Records how a connect attempt ended: on success the link is up and the error
    /// cleared, on failure its reason is kept and the link stays down.
    pub fn handle_connect(&mut self, result: Result<(), LinkError>)
        ensures
            final(self).ip_address == old(self).ip_address,
            final(self).current_frame == old(self).current_frame,
            match result {
                Ok(()) => final(self).connected && final(self).error_message is None,
                Err(e) => final(self).connected == old(self).connected
                    && final(self).error_message == Some(e),
            },
    {
        match result {
            Ok(()) => {
                self.connected = true;
                self.error_message = None;
            },
            Err(e) => {
                self.error_message = Some(e);
            },
        }
    }

    /// The user ended the link: nothing is connected or on display any more.
    pub fn handle_disconnect(&mut self)
        ensures
            !final(self).connected,
            final(self).current_frame is None,
            final(self).ip_address == old(self).ip_address,
            final(self).error_message == old(self).error_message,
    {
        self.connected = false;
        self.current_frame = None;
    }

    /// Applies what the link delivered: a new frame replaces the one on display, a
    /// heartbeat changes nothing, and an ended link clears the display and keeps
    /// the reason.
    pub fn handle_event(&mut self, event: LinkEvent)
        ensures
            final(self).ip_address == old(self).ip_address,
            match event {
                LinkEvent::NoUpdate => final(self).connected == old(self).connected
                    && final(self).current_frame == old(self).current_frame
                    && final(self).error_message == old(self).error_message,
                LinkEvent::Frame(f) => final(self).connected == old(self).connected
                    && final(self).current_frame == Some(f) && final(self).error_message == old(
                    self,
                ).error_message,
                LinkEvent::Disconnected(e) => !final(self).connected
                    && final(self).current_frame is None && final(self).error_message == Some(e),
            },
    {
        match event {
            LinkEvent::NoUpdate => {},
            LinkEvent::Frame(f) => {
                self.current_frame = Some(f);
            },
            LinkEvent::Disconnected(e) => {
                self.connected = false;
                self.current_frame = None;
                self.error_message = Some(e);
            },
        }
    }
}

} // verus!
