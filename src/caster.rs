use vstd::prelude::*;
use crate::codec::{encodes, frame_is_consistent, payload_of, Encoding};
use crate::crop_blank::{byte_in_bands, WHITE};
use crate::screen::{blank, crop, CropValues, Frame};
use crate::server::{gate_open, message_for, ClientId, HubState, Server};

verus! {

/// The bytes of the RGBA picture `data` after its border bands are whited out and,
/// when `is_blank` holds, every pixel too.
pub open spec fn processed_pixels(
    data: Seq<u8>,
    width: u32,
    height: u32,
    spec: CropValues,
    is_blank: bool,
) -> Seq<u8> {
    Seq::new(
        data.len(),
        |i: int|
            if is_blank || byte_in_bands(
                i,
                width as int,
                height as int,
                spec.left as int,
                spec.right as int,
                spec.top as int,
                spec.bottom as int,
            ) {
                WHITE
            } else {
                data[i]
            },
    )
}

/// The casting side: the hub, the live crop and blank settings, whether frames are
/// streamed or only heartbeats, and the last captured frame for local display.
pub struct Caster {
    pub server: Server,
    pub crop: CropValues,
    pub is_streaming: bool,
    pub is_blank: bool,
    pub current_frame: Option<Frame>,
}

impl Caster {
    /// Nothing cropped, blanked or streamed yet, and a hub with no client.
    pub fn new(encoding: Encoding, now_ms: u64) -> (r: Self)
        ensures
            r.server.wf(),
            r.server.clients().len() == 0,
            r.server.state() == HubState::Running,
            r.server.encoding() == encoding,
            r.server.last_publish() == now_ms,
            r.crop == (CropValues { left: 0, right: 0, top: 0, bottom: 0 }),
            !r.is_streaming,
            !r.is_blank,
            r.current_frame is None,
    {
        Caster {
            server: Server::new(encoding, now_ms),
            crop: CropValues::new(0, 0, 0, 0),
            is_streaming: false,
            is_blank: false,
            current_frame: None,
        }
    }

    /// Takes in one captured frame: keeps it for display, whites out the configured
    /// bands (and everything when blanking), and publishes the result. A frame whose
    /// buffer does not match its dimensions is dropped and the tick skipped.
    pub fn on_frame(&mut self, frame: Frame, now_ms: u64) -> (r: Option<Vec<u8>>)
        requires
            old(self).server.wf(),
        ensures
            final(self).server.wf(),
            !frame.wf() ==> r is None && *final(self) == *old(self),
            frame.wf() ==> (final(self).current_frame matches Some(f) && f.data@ == frame.data@
                && f.width == frame.width && f.height == frame.height),
            old(self).server.state() == HubState::Running && gate_open(
                old(self).server.last_publish(),
                now_ms,
            ) && frame.wf() && (old(self).is_streaming ==> encodes(
                frame.width,
                frame.height,
                old(self).server.encoding(),
            ) && 0 < payload_of(
                processed_pixels(
                    frame.data@,
                    frame.width,
                    frame.height,
                    old(self).crop,
                    old(self).is_blank,
                ),
                frame.width,
                frame.height,
                old(self).server.encoding(),
            ).len() <= u32::MAX) ==> r is Some,
            final(self).crop == old(self).crop,
            final(self).is_streaming == old(self).is_streaming,
            final(self).is_blank == old(self).is_blank,
            final(self).server.clients() == old(self).server.clients(),
            final(self).server.state() == old(self).server.state(),
            final(self).server.encoding() == old(self).server.encoding(),
            old(self).server.state() == HubState::Draining ==> r is None,
            !gate_open(old(self).server.last_publish(), now_ms) ==> r is None,
            old(self).server.state() == HubState::Running && gate_open(
                old(self).server.last_publish(),
                now_ms,
            ) && frame.wf() && !old(self).is_streaming ==> r is Some,
            r is None ==> final(self).server.last_publish() == old(self).server.last_publish()
                && final(self).server.history() == old(self).server.history(),
            r is Some ==> {
                &&& r->Some_0@ == message_for(
                    processed_pixels(
                        frame.data@,
                        frame.width,
                        frame.height,
                        old(self).crop,
                        old(self).is_blank,
                    ),
                    frame.width,
                    frame.height,
                    old(self).is_streaming,
                    old(self).server.encoding(),
                )
                &&& final(self).server.last_publish() == now_ms
                &&& final(self).server.history() == old(self).server.history().push(r->Some_0@)
            },
    {
        if !frame_is_consistent(&frame) {
            return None;
        }
        self.current_frame = Some(frame.duplicate());
        let mut out = frame;
        crop(&mut out, self.crop);
        blank(&mut out, self.is_blank);
        assert(out.data@ =~= processed_pixels(
            frame.data@,
            frame.width,
            frame.height,
            self.crop,
            self.is_blank,
        ));
        self.server.broadcast_frame(&out, self.is_streaming, now_ms)
    }

    /// Switches between streaming frames and sending heartbeats.
    pub fn toggle_streaming(&mut self)
        ensures
            final(self).is_streaming == !old(self).is_streaming,
            final(self).is_blank == old(self).is_blank,
            final(self).crop == old(self).crop,
            final(self).server == old(self).server,
            final(self).current_frame == old(self).current_frame,
    {
        self.is_streaming = !self.is_streaming;
    }

    /// Switches blanking of the outgoing picture on or off.
    pub fn toggle_blank(&mut self)
        ensures
            final(self).is_blank == !old(self).is_blank,
            final(self).is_streaming == old(self).is_streaming,
            final(self).crop == old(self).crop,
            final(self).server == old(self).server,
            final(self).current_frame == old(self).current_frame,
    {
        self.is_blank = !self.is_blank;
    }

    /// Starts disconnecting every client: streaming stops, publishing is suspended,
    /// and the clients whose sockets must be closed are returned.
    pub fn begin_disconnect(&mut self) -> (r: Vec<ClientId>)
        requires
            old(self).server.wf(),
        ensures
            final(self).server.wf(),
            !final(self).is_streaming,
            r@ == old(self).server.clients(),
            final(self).server.state() == HubState::Draining,
            final(self).server.clients() == old(self).server.clients(),
            final(self).server.count() == old(self).server.count(),
            final(self).server.last_publish() == old(self).server.last_publish(),
            final(self).server.history() == old(self).server.history(),
            final(self).server.encoding() == old(self).server.encoding(),
            final(self).is_blank == old(self).is_blank,
            final(self).crop == old(self).crop,
            final(self).current_frame == old(self).current_frame,
    {
        self.is_streaming = false;
        self.server.begin_disconnect()
    }

    /// Ends a disconnect of every client: no client is left and publishing resumes.
    pub fn disconnect(&mut self)
        requires
            old(self).server.wf(),
        ensures
            final(self).server.wf(),
            final(self).server.clients().len() == 0,
            final(self).server.count() == 0,
            final(self).server.state() == HubState::Running,
            final(self).is_streaming == old(self).is_streaming,
            final(self).is_blank == old(self).is_blank,
            final(self).crop == old(self).crop,
    {
        self.server.disconnect();
    }
}

} // verus!
