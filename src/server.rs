use vstd::prelude::*;
use crate::codec::{encode_payload, encoded_payload, encodes, payload_of, Encoding};
use crate::screen::Frame;
use crate::wire::{frame_message, heartbeat, heartbeat_message, wire_message};

verus! {

/// TCP port on which the hub listens and to which links connect.
pub const PORT: u16 = 9041;

/// Least time, in milliseconds, between two effective publishes.
pub const PUBLISH_INTERVAL_MS: u64 = 60;

/// Identifier that the hub's runner gives each accepted connection.
pub type ClientId = u64;

/// Whether the hub may publish.
#[derive(Clone, Copy, PartialEq, Eq, Structural, Debug)]
pub enum HubState {
    /// Publishing goes ahead.
    Running,
    /// Every client is being disconnected; publishing is suspended.
    Draining,
}

/// Whether a publish at `now` may take effect after the last effective one at `last`.
pub open spec fn gate_open(last: u64, now: u64) -> bool {
    now >= last && now - last >= PUBLISH_INTERVAL_MS
}

/// The message that a publish of the RGBA picture `data` hands out when it is not
/// dropped.
pub open spec fn message_for(
    data: Seq<u8>,
    width: u32,
    height: u32,
    is_streaming: bool,
    encoding: Encoding,
) -> Seq<u8> {
    if is_streaming {
        wire_message(payload_of(data, width, height, encoding))
    } else {
        heartbeat_message()
    }
}

/// Builds the wire message for one tick: the heartbeat when not streaming, else the
/// encoded frame behind its length. Gives none when the frame cannot be encoded or
/// its payload is empty or too long for the prefix.
pub fn construct_message(frame: &Frame, is_streaming: bool, encoding: Encoding) -> (r: Option<
    Vec<u8>,
>)
    ensures
        !is_streaming ==> r is Some && r->Some_0@ == heartbeat_message(),
        is_streaming && !frame.wf() ==> r is None,
        is_streaming && frame.wf() && !encodes(frame.width, frame.height, encoding) ==> r is None,
        is_streaming && frame.wf() && encodes(frame.width, frame.height, encoding) && 0
            < encoded_payload(*frame, encoding).len() <= u32::MAX ==> r is Some,
        is_streaming && frame.wf() && (encoded_payload(*frame, encoding).len() == 0
            || encoded_payload(*frame, encoding).len() > u32::MAX) ==> r is None,
        r is Some ==> r->Some_0@ == message_for(frame.data@, frame.width, frame.height, is_streaming, encoding),
        r is Some && is_streaming ==> frame.wf() && 0 < encoded_payload(*frame, encoding).len()
            <= u32::MAX,
{
    if !is_streaming {
        return Some(heartbeat());
    }
    match encode_payload(frame, encoding) {
        Ok(payload) => {
            if payload.len() == 0 {
                None
            } else {
                frame_message(payload.as_slice())
            }
        },
        Err(_) => None,
    }
}

/// Connection registry, publish rate limit and drain state of a broadcast hub. The sockets
/// themselves stay with the runner, keyed by the same identifiers.
pub struct Server {
    /// Registered clients in the order they joined; the order is what lets the
    /// history say which messages each one has been handed.
    clients: Vec<ClientId>,
    client_count: usize,
    last_publish_ms: u64,
    state: HubState,
    encoding: Encoding,
    /// Every message handed out so far, oldest first.
    history: Ghost<Seq<Seq<u8>>>,
    /// For each registered client, how many messages had been handed out when it joined.
    joined: Ghost<Map<ClientId, nat>>,
}

impl Server {
    /// Registered clients, oldest first.
    pub closed spec fn clients(&self) -> Seq<ClientId> {
        self.clients@
    }

    pub closed spec fn count(&self) -> nat {
        self.client_count as nat
    }

    pub closed spec fn last_publish(&self) -> u64 {
        self.last_publish_ms
    }

    pub closed spec fn state(&self) -> HubState {
        self.state
    }

    pub closed spec fn encoding(&self) -> Encoding {
        self.encoding
    }

    pub closed spec fn history(&self) -> Seq<Seq<u8>> {
        self.history@
    }

    /// How many messages had been handed out when client `id` joined.
    pub closed spec fn joined_at(&self, id: ClientId) -> nat {
        self.joined@[id]
    }

    /// The messages handed to client `id` since it joined, oldest first.
    pub closed spec fn received(&self, id: ClientId) -> Seq<Seq<u8>> {
        self.history@.subrange(self.joined@[id] as int, self.history@.len() as int)
    }

    /// No client is registered twice, the count is the registry's size, and every
    /// client joined at a point of the history.
    pub closed spec fn wf(&self) -> bool {
        &&& self.clients@.no_duplicates()
        &&& self.client_count == self.clients@.len()
        &&& forall|id: ClientId| #[trigger]
            self.joined@.contains_key(id) <==> self.clients@.contains(id)
        &&& forall|id: ClientId| #[trigger]
            self.joined@.contains_key(id) ==> self.joined@[id] <= self.history@.len()
    }

    /// A hub with no client, ready to publish from one interval after `now_ms`.
    pub fn new(encoding: Encoding, now_ms: u64) -> (r: Self)
        ensures
            r.wf(),
            r.clients() == Seq::<ClientId>::empty(),
            r.count() == 0,
            r.last_publish() == now_ms,
            r.state() == HubState::Running,
            r.encoding() == encoding,
            r.history() == Seq::<Seq<u8>>::empty(),
    {
        Server {
            clients: Vec::new(),
            client_count: 0,
            last_publish_ms: now_ms,
            state: HubState::Running,
            encoding,
            history: Ghost(Seq::empty()),
            joined: Ghost(Map::empty()),
        }
    }

    /// Number of registered clients.
    pub fn get_client_count(&self) -> (r: usize)
        requires
            self.wf(),
        ensures
            r == self.count(),
            r == self.clients().len(),
    {
        self.client_count
    }

    pub fn state_now(&self) -> (r: HubState)
        ensures
            r == self.state(),
    {
        self.state
    }

    /// Identifiers of the registered clients, oldest first.
    pub fn client_ids(&self) -> (r: Vec<ClientId>)
        ensures
            r@ == self.clients(),
    {
        let mut r: Vec<ClientId> = Vec::new();
        let mut i: usize = 0;
        while i < self.clients.len()
            invariant
                i <= self.clients@.len(),
                r@ == self.clients@.subrange(0, i as int),
            decreases self.clients@.len() - i,
        {
            r.push(self.clients[i]);
            i = i + 1;
            assert(r@ =~= self.clients@.subrange(0, i as int));
        }
        assert(self.clients@.subrange(0, self.clients@.len() as int) =~= self.clients@);
        r
    }

    /// Whether `id` is registered.
    pub fn is_registered(&self, id: ClientId) -> (r: bool)
        ensures
            r == self.clients().contains(id),
    {
        match self.find(id) {
            Some(_) => true,
            None => false,
        }
    }

    fn find(&self, id: ClientId) -> (r: Option<usize>)
        ensures
            match r {
                Some(i) => i < self.clients@.len() && self.clients@[i as int] == id,
                None => !self.clients@.contains(id),
            },
    {
        let mut i: usize = 0;
        while i < self.clients.len()
            invariant
                i <= self.clients@.len(),
                forall|j: int| 0 <= j < i ==> self.clients@[j] != id,
            decreases self.clients@.len() - i,
        {
            if self.clients[i] == id {
                return Some(i);
            }
            i = i + 1;
        }
        None
    }

    /// Registers an accepted connection. An identifier already registered is left as
    /// it is and reported with `false`.
    pub fn register_client(&mut self, id: ClientId) -> (r: bool)
        requires
            old(self).wf(),
            old(self).count() < usize::MAX,
        ensures
            final(self).wf(),
            r == !old(self).clients().contains(id),
            r ==> final(self).clients() == old(self).clients().push(id),
            r ==> final(self).received(id) == Seq::<Seq<u8>>::empty(),
            r ==> final(self).joined_at(id) == old(self).history().len(),
            !r ==> final(self).clients() == old(self).clients(),
            final(self).count() == final(self).clients().len(),
            forall|c: ClientId|
                old(self).clients().contains(c) ==> #[trigger] final(self).received(c)
                    == old(self).received(c) && final(self).joined_at(c) == old(self).joined_at(c),
            final(self).history() == old(self).history(),
            final(self).last_publish() == old(self).last_publish(),
            final(self).state() == old(self).state(),
            final(self).encoding() == old(self).encoding(),
    {
        if self.is_registered(id) {
            return false;
        }
        self.clients.push(id);
        self.client_count = self.client_count + 1;
        self.joined = Ghost(self.joined@.insert(id, self.history@.len()));
        proof {
            assert forall|c: ClientId| #[trigger]
                self.joined@.contains_key(c) <==> self.clients@.contains(c) by {
                if self.clients@.contains(c) {
                    let k = choose|k: int| 0 <= k < self.clients@.len() && self.clients@[k] == c;
                    if k < old(self).clients@.len() {
                        assert(old(self).clients@[k] == c);
                    }
                }
                if old(self).clients@.contains(c) {
                    let k = choose|k: int|
                        0 <= k < old(self).clients@.len() && old(self).clients@[k] == c;
                    assert(self.clients@[k] == c);
                }
                assert(self.clients@[old(self).clients@.len() as int] == id);
            }
        }
        true
    }

    /// Forgets a client whose socket failed or was closed. Reports whether it was
    /// registered.
    pub fn remove_client(&mut self, id: ClientId) -> (r: bool)
        requires
            old(self).wf(),
        ensures
            final(self).wf(),
            r == old(self).clients().contains(id),
            r ==> exists|i: int|
                0 <= i < old(self).clients().len() && old(self).clients()[i] == id
                    && final(self).clients() == old(self).clients().remove(i),
            !r ==> final(self).clients() == old(self).clients(),
            !final(self).clients().contains(id),
            final(self).count() == final(self).clients().len(),
            forall|c: ClientId|
                c != id && old(self).clients().contains(c) ==> #[trigger] final(self).received(c)
                    == old(self).received(c) && final(self).joined_at(c) == old(self).joined_at(c),
            final(self).history() == old(self).history(),
            final(self).last_publish() == old(self).last_publish(),
            final(self).state() == old(self).state(),
            final(self).encoding() == old(self).encoding(),
    {
        match self.find(id) {
            None => false,
            Some(i) => {
                self.clients.remove(i);
                self.client_count = self.client_count - 1;
                self.joined = Ghost(self.joined@.remove(id));
                proof {
                    let o = old(self).clients@;
                    assert(o[i as int] == id && self.clients@ == o.remove(i as int));
                    assert forall|a: int, b: int|
                        0 <= a < b < self.clients@.len() implies self.clients@[a]
                        != self.clients@[b] by {
                        let oa = if a < i { a } else { a + 1 };
                        let ob = if b < i { b } else { b + 1 };
                        assert(self.clients@[a] == o[oa] && self.clients@[b] == o[ob]);
                    }
                    assert forall|c: ClientId| #[trigger]
                        self.joined@.contains_key(c) <==> self.clients@.contains(c) by {
                        if self.clients@.contains(c) {
                            let k = choose|k: int|
                                0 <= k < self.clients@.len() && self.clients@[k] == c;
                            let ok = if k < i { k } else { k + 1 };
                            assert(o[ok] == c);
                            assert(ok != i);
                        }
                        if o.contains(c) && c != id {
                            let k = choose|k: int| 0 <= k < o.len() && o[k] == c;
                            assert(k != i);
                            let nk = if k < i { k } else { k - 1 };
                            assert(self.clients@[nk] == c);
                        }
                    }
                    assert(old(self).clients()[i as int] == id && self.clients() == old(
                        self,
                    ).clients().remove(i as int));
                }
                true
            },
        }
    }

    /// Publishes one tick. The call is dropped while the hub drains and when less than
    /// the publish interval has passed since the last effective publish; otherwise the
    /// tick's message is built and, if that succeeds, handed to every registered
    /// client and returned for the runner to write out.
    pub fn broadcast_frame(&mut self, frame: &Frame, is_streaming: bool, now_ms: u64) -> (r:
        Option<Vec<u8>>)
        requires
            old(self).wf(),
        ensures
            final(self).wf(),
            final(self).clients() == old(self).clients(),
            final(self).count() == old(self).count(),
            final(self).state() == old(self).state(),
            final(self).encoding() == old(self).encoding(),
            old(self).state() == HubState::Draining ==> r is None,
            !gate_open(old(self).last_publish(), now_ms) ==> r is None,
            old(self).state() == HubState::Running && gate_open(old(self).last_publish(), now_ms)
                && !is_streaming ==> r is Some,
            old(self).state() == HubState::Running && gate_open(old(self).last_publish(), now_ms)
                && is_streaming && frame.wf() && encodes(
                frame.width,
                frame.height,
                old(self).encoding(),
            ) && 0 < encoded_payload(*frame, old(self).encoding()).len() <= u32::MAX ==> r is Some,
            is_streaming && frame.wf() && !encodes(frame.width, frame.height, old(self).encoding())
                ==> r is None,
            r is None ==> final(self).last_publish() == old(self).last_publish()
                && final(self).history() == old(self).history() && forall|c: ClientId| #[trigger]
                old(self).clients().contains(c) ==> final(self).received(c) == old(
                self,
            ).received(c),
            old(self).state() == HubState::Running && !is_streaming ==> final(self).last_publish()
                == if gate_open(old(self).last_publish(), now_ms) {
                now_ms
            } else {
                old(self).last_publish()
            },
            r is Some ==> {
                &&& r->Some_0@ == message_for(
                    frame.data@,
                    frame.width,
                    frame.height,
                    is_streaming,
                    old(self).encoding(),
                )
                &&& final(self).last_publish() == now_ms
                &&& final(self).history() == old(self).history().push(r->Some_0@)
                &&& forall|c: ClientId| #[trigger]
                    old(self).clients().contains(c) ==> final(self).received(c) == old(
                        self,
                    ).received(c).push(r->Some_0@)
            },
            forall|c: ClientId| #[trigger]
                old(self).clients().contains(c) ==> final(self).joined_at(c) == old(
                    self,
                ).joined_at(c),
            is_streaming && !frame.wf() ==> r is None,
            r is Some && is_streaming ==> frame.wf() && 0 < encoded_payload(
                *frame,
                old(self).encoding(),
            ).len() <= u32::MAX,
    {
        match self.state {
            HubState::Draining => {
                return None;
            },
            HubState::Running => {},
        }
        if !(now_ms >= self.last_publish_ms && now_ms - self.last_publish_ms >= PUBLISH_INTERVAL_MS) {
            return None;
        }
        let message = construct_message(frame, is_streaming, self.encoding);
        match message {
            Some(m) => {
                let ghost h = self.history@;
                self.last_publish_ms = now_ms;
                self.history = Ghost(h.push(m@));
                proof {
                    assert forall|c: ClientId| #[trigger]
                        old(self).clients().contains(c) implies self.received(c) == old(
                            self,
                        ).received(c).push(m@) by {
                        assert(self.joined@.contains_key(c));
                        assert(self.received(c) =~= old(self).received(c).push(m@));
                    }
                }
                Some(m)
            },
            None => None,
        }
    }

    /// Starts disconnecting every client: publishing is suspended, and the clients
    /// to close are returned, oldest first.
    pub fn begin_disconnect(&mut self) -> (r: Vec<ClientId>)
        requires
            old(self).wf(),
        ensures
            final(self).wf(),
            r@ == old(self).clients(),
            final(self).state() == HubState::Draining,
            final(self).clients() == old(self).clients(),
            final(self).count() == old(self).count(),
            final(self).last_publish() == old(self).last_publish(),
            final(self).history() == old(self).history(),
            final(self).encoding() == old(self).encoding(),
            forall|c: ClientId| #[trigger]
                old(self).clients().contains(c) ==> final(self).joined_at(c) == old(
                    self,
                ).joined_at(c),
    {
        self.state = HubState::Draining;
        self.client_ids()
    }

    /// Ends a disconnect of every client: the registry is emptied, the count drops to
    /// zero and publishing resumes.
    pub fn disconnect(&mut self)
        requires
            old(self).wf(),
        ensures
            final(self).wf(),
            final(self).clients() == Seq::<ClientId>::empty(),
            final(self).count() == 0,
            final(self).state() == HubState::Running,
            final(self).last_publish() == old(self).last_publish(),
            final(self).history() == old(self).history(),
            final(self).encoding() == old(self).encoding(),
    {
        self.clients.clear();
        self.client_count = 0;
        self.joined = Ghost(Map::empty());
        self.state = HubState::Running;
    }
}

/// When the last effective publish happened after calls at each of `times`, oldest
/// first, starting from one at `last`, on a running hub whose messages all build: a
/// call takes effect exactly when a whole interval has passed since the last
/// effective one, and then becomes the last.
pub open spec fn last_publish_after(last: u64, times: Seq<u64>) -> u64
    decreases times.len(),
{
    if times.len() == 0 {
        last
    } else {
        let l = last_publish_after(last, times.drop_last());
        if gate_open(l, times.last()) {
            times.last()
        } else {
            l
        }
    }
}

/// Whether call `i` of `times` takes effect.
pub open spec fn publishes_at(last: u64, times: Seq<u64>, i: int) -> bool {
    gate_open(last_publish_after(last, times.take(i)), times[i])
}

/// Call times that never go back.
pub open spec fn ascending(times: Seq<u64>) -> bool {
    forall|a: int, b: int| 0 <= a <= b < times.len() ==> times[a] <= times[b]
}

proof fn lemma_last_publish_step(last: u64, times: Seq<u64>, k: int)
    requires
        0 < k <= times.len(),
    ensures
        last_publish_after(last, times.take(k)) == if publishes_at(last, times, k - 1) {
            times[k - 1]
        } else {
            last_publish_after(last, times.take(k - 1))
        },
{
    assert(times.take(k).drop_last() =~= times.take(k - 1));
    assert(times.take(k).last() == times[k - 1]);
}

/// After call `i` takes effect, the last effective publish never falls before it.
proof fn lemma_last_publish_stays_after(last: u64, times: Seq<u64>, i: int, k: int)
    requires
        ascending(times),
        0 <= i < k <= times.len(),
        publishes_at(last, times, i),
    ensures
        last_publish_after(last, times.take(k)) >= times[i],
    decreases k - i,
{
    lemma_last_publish_step(last, times, k);
    if k > i + 1 {
        lemma_last_publish_stays_after(last, times, i, k - 1);
    }
}

/// After call `i` takes effect, calls within the interval that follows it leave it
/// the last effective publish.
proof fn lemma_window_stays_shut(last: u64, times: Seq<u64>, i: int, k: int)
    requires
        0 <= i < k <= times.len(),
        publishes_at(last, times, i),
        forall|m: int| i < m < k ==> #[trigger] times[m] < times[i] + PUBLISH_INTERVAL_MS,
    ensures
        last_publish_after(last, times.take(k)) == times[i],
    decreases k - i,
{
    lemma_last_publish_step(last, times, k);
    if k > i + 1 {
        lemma_window_stays_shut(last, times, i, k - 1);
    }
}

/// At most one message per interval: however often publish is called, two calls
/// that both take effect are at least a publish interval apart.
pub proof fn lemma_at_most_one_per_window(last: u64, times: Seq<u64>, i: int, j: int)
    requires
        ascending(times),
        0 <= i < j < times.len(),
        publishes_at(last, times, i),
        publishes_at(last, times, j),
    ensures
        times[j] >= times[i] + PUBLISH_INTERVAL_MS,
{
    lemma_last_publish_stays_after(last, times, i, j);
}

/// At least one message per interval: after a call takes effect, the first call
/// that comes a whole interval or more later takes effect too.
pub proof fn lemma_next_window_publishes(last: u64, times: Seq<u64>, i: int, j: int)
    requires
        ascending(times),
        0 <= i < j < times.len(),
        publishes_at(last, times, i),
        times[j] >= times[i] + PUBLISH_INTERVAL_MS,
        forall|m: int| i < m < j ==> #[trigger] times[m] < times[i] + PUBLISH_INTERVAL_MS,
    ensures
        publishes_at(last, times, j),
{
    lemma_window_stays_shut(last, times, i, j);
}

/// Clients receive the published messages in one common order: of two registered
/// clients, the one that joined later has received exactly the tail of what the
/// other has received since it joined, and clients that joined together have
/// received the same sequence.
pub proof fn lemma_common_order(s: Server, a: ClientId, b: ClientId)
    requires
        s.wf(),
        s.clients().contains(a),
        s.clients().contains(b),
        s.joined_at(a) <= s.joined_at(b),
    ensures
        s.received(b) == s.received(a).subrange(
            s.joined_at(b) - s.joined_at(a),
            s.received(a).len() as int,
        ),
        s.joined_at(a) == s.joined_at(b) ==> s.received(a) == s.received(b),
{
    assert(s.joined@.contains_key(a) && s.joined@.contains_key(b));
    assert(s.received(b) =~= s.received(a).subrange(
        s.joined_at(b) - s.joined_at(a),
        s.received(a).len() as int,
    ));
}

} // verus!