//! Channel bookkeeping of a WebRTC connection.

use crate::types::SubstreamId;
use std::collections::HashMap;
use str0m::channel::ChannelId;
use tokio::sync::mpsc::Sender;
use vstd::prelude::*;

verus! {

broadcast use vstd::std_specs::hash::group_hash_axioms;

/// str0m's identifier of a data channel, carried through opaquely.
#[verifier::external_type_specification]
#[verifier::external_body]
pub struct ExChannelId(ChannelId);

/// The sending half of a tokio channel, carried through opaquely.
#[verifier::external_type_specification]
#[verifier::external_body]
#[verifier::reject_recursive_types(T)]
pub struct ExSender<T>(Sender<T>);

/// Relies on the `PartialEq` that str0m derives for `ChannelId`: two ids are
/// equal when they name the same channel.
pub assume_specification[ <ChannelId as core::cmp::PartialEq>::eq ](a: &ChannelId, b: &ChannelId) -> (r: bool)
    ensures
        r == (*a == *b),
;

/// Errors of a WebRTC connection.
#[derive(Clone, Copy, Debug, PartialEq, Eq, Structural)]
pub enum ConnectionError {
    /// A channel or substream has no mapping; fatal for the connection.
    ChannelDoesntExist,
    /// A frame could not be decoded; fatal for the connection.
    InvalidData,
    /// The WebRTC object refused a datagram; the datagram is dropped.
    InputRejected,
    /// The ICE connection went away.
    Disconnected,
    /// The remote reported a second connection.
    InvalidState,
    /// A task the connection depends on is gone.
    EssentialTaskClosed,
    /// The WebRTC object failed.
    WebRtc,
}

/// What to do with the payload of a data-channel message.
#[derive(Debug, PartialEq, Eq)]
pub enum ChannelDataStep {
    /// Nothing to hand on: the frame carried no payload.
    Ignore,
    /// The channel is not negotiated yet: the payload is its multistream-select
    /// request.
    Negotiate { request: Vec<u8> },
    /// Hand the payload to the substream that the channel carries.
    Forward { substream: SubstreamId, payload: Vec<u8> },
}

/// Binds a data channel to the sending half of its protocol-facing
/// substream.
pub struct SubstreamContext {
    pub channel_id: ChannelId,
    pub tx: Sender<Vec<u8>>,
}

impl SubstreamContext {
    pub fn new(channel_id: ChannelId, tx: Sender<Vec<u8>>) -> (r: SubstreamContext)
        ensures
            r.channel_id == channel_id,
            r.tx == tx,
    {
        SubstreamContext { channel_id, tx }
    }
}

/// The channels of one connection: which substream each negotiated channel
/// carries, and the context of each open substream.
pub struct ChannelTable {
    id_mapping: Vec<(ChannelId, SubstreamId)>,
    mapping: Ghost<Map<ChannelId, SubstreamId>>,
    channels: HashMap<SubstreamId, SubstreamContext>,
    next_substream_id: SubstreamId,
}

impl ChannelTable {
    /// The substream of each negotiated channel.
    pub closed spec fn id_mapping(&self) -> Map<ChannelId, SubstreamId> {
        self.mapping@
    }

    /// The context of each open substream.
    pub closed spec fn channels(&self) -> Map<SubstreamId, SubstreamContext> {
        self.channels@
    }

    /// The id the next negotiated channel receives.
    pub closed spec fn next_id(&self) -> SubstreamId {
        self.next_substream_id
    }

    /// The two maps are inverse to each other through the contexts' channel
    /// ids, and every substream id in use was allocated.
    pub closed spec fn wf(&self) -> bool {
        &&& forall|i: int, j: int|
            0 <= i < j < self.id_mapping@.len() ==> self.id_mapping@[i].0
                != self.id_mapping@[j].0
        &&& forall|c: ChannelId|
            #![trigger self.mapping@.contains_key(c)]
            self.mapping@.contains_key(c) <==> exists|i: int|
                0 <= i < self.id_mapping@.len() && #[trigger] self.id_mapping@[i].0 == c
        &&& forall|i: int|
            0 <= i < self.id_mapping@.len() ==> self.mapping@[#[trigger] self.id_mapping@[i].0]
                == self.id_mapping@[i].1
        &&& forall|c: ChannelId|
            #![trigger self.mapping@.contains_key(c)]
            self.mapping@.contains_key(c) ==> {
                &&& self.channels@.contains_key(self.mapping@[c])
                &&& self.channels@[self.mapping@[c]].channel_id == c
            }
        &&& forall|sid: SubstreamId|
            #![trigger self.channels@.contains_key(sid)]
            self.channels@.contains_key(sid) ==> {
                &&& sid < self.next_substream_id
                &&& self.mapping@.contains_key(self.channels@[sid].channel_id)
                &&& self.mapping@[self.channels@[sid].channel_id] == sid
            }
    }

    /// An empty table whose first substream id is `first_id`.
    pub fn new(first_id: SubstreamId) -> (r: ChannelTable)
        ensures
            r.wf(),
            r.id_mapping() == Map::<ChannelId, SubstreamId>::empty(),
            r.channels() == Map::<SubstreamId, SubstreamContext>::empty(),
            r.next_id() == first_id,
    {
        ChannelTable {
            id_mapping: Vec::new(),
            mapping: Ghost(Map::empty()),
            channels: HashMap::new(),
            next_substream_id: first_id,
        }
    }

    /// The id the next negotiated channel receives.
    pub fn next_substream_id(&self) -> (r: SubstreamId)
        ensures
            r == self.next_id(),
    {
        self.next_substream_id
    }

    fn position(&self, channel: &ChannelId) -> (r: Option<usize>)
        requires
            self.wf(),
        ensures
            match r {
                Some(i) => i < self.id_mapping@.len() && self.id_mapping@[i as int].0 == *channel
                    && self.mapping@.contains_key(*channel),
                None => !self.mapping@.contains_key(*channel),
            },
    {
        let mut i: usize = 0;
        while i < self.id_mapping.len()
            invariant
                self.wf(),
                i <= self.id_mapping@.len(),
                forall|j: int| 0 <= j < i ==> self.id_mapping@[j].0 != *channel,
            decreases self.id_mapping@.len() - i,
        {
            if self.id_mapping[i].0.eq(channel) {
                proof {
                    assert(self.id_mapping@[i as int].0 == *channel);
                }
                return Some(i);
            }
            i = i + 1;
        }
        None
    }

    /// Where data of `channel` goes: `None` while the channel is not yet
    /// negotiated, its substream after.
    pub fn route(&self, channel: &ChannelId) -> (r: Option<SubstreamId>)
        requires
            self.wf(),
        ensures
            r == (if self.id_mapping().contains_key(*channel) {
                Some(self.id_mapping()[*channel])
            } else {
                None
            }),
    {
        match self.position(channel) {
            Some(i) => Some(self.id_mapping[i].1),
            None => None,
        }
    }

    /// Demultiplexes the decoded payload of a message received on `channel`:
    /// an empty or missing payload is dropped; otherwise it is the protocol
    /// request of a channel that is not negotiated yet, or data for the
    /// substream of a negotiated one.
    pub fn on_channel_data(&self, channel: &ChannelId, payload: Option<Vec<u8>>) -> (r:
        ChannelDataStep)
        requires
            self.wf(),
        ensures
            match payload {
                Some(p) => if p@.len() == 0 {
                    r is Ignore
                } else if self.id_mapping().contains_key(*channel) {
                    r == (ChannelDataStep::Forward {
                        substream: self.id_mapping()[*channel],
                        payload: p,
                    })
                } else {
                    r == (ChannelDataStep::Negotiate { request: p })
                },
                None => r is Ignore,
            },
    {
        match deliverable_payload(payload) {
            None => ChannelDataStep::Ignore,
            Some(p) => match self.route(channel) {
                Some(substream) => ChannelDataStep::Forward { substream, payload: p },
                None => ChannelDataStep::Negotiate { request: p },
            },
        }
    }

    /// Records a freshly negotiated channel: it receives the next substream
    /// id, and `tx` becomes the sending half of that substream.
    pub fn register(&mut self, channel: ChannelId, tx: Sender<Vec<u8>>) -> (r: SubstreamId)
        requires
            old(self).wf(),
            !old(self).id_mapping().contains_key(channel),
            old(self).next_id() < u64::MAX,
        ensures
            final(self).wf(),
            r == old(self).next_id(),
            final(self).next_id() == old(self).next_id() + 1,
            final(self).id_mapping() == old(self).id_mapping().insert(channel, r),
            final(self).channels() == old(self).channels().insert(
                r,
                SubstreamContext { channel_id: channel, tx },
            ),
    {
        let id = self.next_substream_id;
        proof {
            assert(!self.channels@.contains_key(id));
        }
        self.next_substream_id = id + 1;
        self.id_mapping.push((channel, id));
        self.mapping = Ghost(self.mapping@.insert(channel, id));
        self.channels.insert(id, SubstreamContext::new(channel, tx));
        proof {
            let n = self.id_mapping@.len() - 1;
            assert(self.id_mapping@[n] == (channel, id));
            assert forall|i: int| 0 <= i < n implies #[trigger] old(self).id_mapping@[i]
                == self.id_mapping@[i] by {}
            assert forall|c: ChannelId|
                #[trigger] self.mapping@.contains_key(c) <==> exists|i: int|
                    0 <= i < self.id_mapping@.len() && #[trigger] self.id_mapping@[i].0 == c by {
                if c != channel && self.mapping@.contains_key(c) {
                    let i = choose|i: int|
                        0 <= i < old(self).id_mapping@.len() && #[trigger] old(
                            self,
                        ).id_mapping@[i].0 == c;
                    assert(self.id_mapping@[i].0 == c);
                }
                if c == channel {
                    assert(self.id_mapping@[n].0 == c);
                }
            }
            assert forall|sid: SubstreamId| #[trigger] self.channels@.contains_key(sid) implies {
                &&& sid < self.next_substream_id
                &&& self.mapping@.contains_key(self.channels@[sid].channel_id)
                &&& self.mapping@[self.channels@[sid].channel_id] == sid
            } by {
                if sid != id {
                    assert(old(self).channels@.contains_key(sid));
                    let c = old(self).channels@[sid].channel_id;
                    assert(old(self).mapping@.contains_key(c));
                }
            }
            assert forall|c: ChannelId| #[trigger] self.mapping@.contains_key(c) implies {
                &&& self.channels@.contains_key(self.mapping@[c])
                &&& self.channels@[self.mapping@[c]].channel_id == c
            } by {
                if c != channel {
                    assert(old(self).mapping@.contains_key(c));
                }
            }
        }
        id
    }

    /// The sending half of the substream that `channel` carries;
    /// `ChannelDoesntExist` when the channel is not negotiated.
    pub fn sender(&self, channel: &ChannelId) -> (r: Result<&Sender<Vec<u8>>, ConnectionError>)
        requires
            self.wf(),
        ensures
            match r {
                Ok(tx) => self.id_mapping().contains_key(*channel) && *tx == self.channels()[self.id_mapping()[*channel]].tx,
                Err(e) => !self.id_mapping().contains_key(*channel) && e == ConnectionError::ChannelDoesntExist,
            },
    {
        match self.position(channel) {
            Some(i) => {
                let id = self.id_mapping[i].1;
                match self.channels.get(&id) {
                    Some(context) => Ok(&context.tx),
                    None => Err(ConnectionError::ChannelDoesntExist),
                }
            },
            None => Err(ConnectionError::ChannelDoesntExist),
        }
    }

    /// The channel that carries `substream`; `ChannelDoesntExist` when the
    /// substream is not open.
    pub fn channel_of(&self, substream: SubstreamId) -> (r: Result<ChannelId, ConnectionError>)
        requires
            self.wf(),
        ensures
            match r {
                Ok(c) => self.channels().contains_key(substream) && c == self.channels()[substream].channel_id,
                Err(e) => !self.channels().contains_key(substream) && e == ConnectionError::ChannelDoesntExist,
            },
    {
        match self.channels.get(&substream) {
            Some(context) => Ok(context.channel_id),
            None => Err(ConnectionError::ChannelDoesntExist),
        }
    }

    /// Forgets a closed channel and its substream; returns the substream it
    /// carried, `None` when the channel was not negotiated.
    pub fn remove_channel(&mut self, channel: &ChannelId) -> (r: Option<SubstreamId>)
        requires
            old(self).wf(),
        ensures
            final(self).wf(),
            final(self).next_id() == old(self).next_id(),
            r == (if old(self).id_mapping().contains_key(*channel) {
                Some(old(self).id_mapping()[*channel])
            } else {
                None
            }),
            final(self).id_mapping() == old(self).id_mapping().remove(*channel),
            match r {
                Some(id) => final(self).channels() == old(self).channels().remove(id),
                None => final(self).channels() == old(self).channels(),
            },
    {
        match self.position(channel) {
            None => {
                proof {
                    assert(self.mapping@.remove(*channel) =~= self.mapping@);
                }
                None
            },
            Some(i) => {
                let (_, id) = self.id_mapping.remove(i);
                self.mapping = Ghost(self.mapping@.remove(*channel));
                self.channels.remove(&id);
                proof {
                    let o = old(self).id_mapping@;
                    let n = self.id_mapping@;
                    assert(n =~= o.remove(i as int));
                    assert forall|j: int| 0 <= j < n.len() implies #[trigger] n[j] == if j < i {
                        o[j]
                    } else {
                        o[j + 1]
                    } by {}
                    assert forall|c: ChannelId|
                        #[trigger] self.mapping@.contains_key(c) <==> exists|j: int|
                            0 <= j < n.len() && #[trigger] n[j].0 == c by {
                        if self.mapping@.contains_key(c) {
                            let k = choose|k: int| 0 <= k < o.len() && #[trigger] o[k].0 == c;
                            if k < i {
                                assert(n[k].0 == c);
                            } else {
                                assert(k != i);
                                assert(n[k - 1].0 == c);
                            }
                        }
                        if exists|j: int| 0 <= j < n.len() && #[trigger] n[j].0 == c {
                            let j = choose|j: int| 0 <= j < n.len() && #[trigger] n[j].0 == c;
                            if j < i {
                                assert(o[j].0 == c);
                            } else {
                                assert(o[j + 1].0 == c);
                            }
                        }
                    }
                    assert forall|j: int| 0 <= j < n.len() implies self.mapping@[#[trigger] n[j].0]
                        == n[j].1 by {
                        if j < i {
                            assert(o[j].0 != o[i as int].0);
                        } else {
                            assert(o[j + 1].0 != o[i as int].0);
                        }
                    }
                    assert forall|j: int, k: int| 0 <= j < k < n.len() implies n[j].0 != n[k].0 by {
                        if j < i {
                            if k < i {
                            } else {
                                assert(o[j].0 != o[k + 1].0);
                            }
                        } else {
                            assert(o[j + 1].0 != o[k + 1].0);
                        }
                    }
                    assert forall|sid: SubstreamId| #[trigger] self.channels@.contains_key(sid) implies {
                        &&& sid < self.next_substream_id
                        &&& self.mapping@.contains_key(self.channels@[sid].channel_id)
                        &&& self.mapping@[self.channels@[sid].channel_id] == sid
                    } by {
                        assert(old(self).channels@.contains_key(sid));
                        assert(old(self).mapping@.contains_key(old(self).channels@[sid].channel_id));
                    }
                    assert forall|c: ChannelId| #[trigger] self.mapping@.contains_key(c) implies {
                        &&& self.channels@.contains_key(self.mapping@[c])
                        &&& self.channels@[self.mapping@[c]].channel_id == c
                    } by {
                        assert(old(self).mapping@.contains_key(c));
                    }
                }
                Some(id)
            },
        }
    }
}

/// Upper bound on the wait between two polls of the WebRTC object, in
/// microseconds.
pub const MAX_POLL_DELAY_MICROS: u64 = 100_000;

/// Lower bound on the wait between two polls of the WebRTC object, in
/// microseconds.
pub const MIN_POLL_DELAY_MICROS: u64 = 1_000;

/// How long to wait before the next poll, given the time left until the
/// WebRTC object's own timeout: that time, but at most 100 ms and at least
/// 1 ms.
pub fn poll_delay_micros(until_timeout: u64) -> (r: u64)
    ensures
        r == if until_timeout > MAX_POLL_DELAY_MICROS {
            MAX_POLL_DELAY_MICROS
        } else if until_timeout < MIN_POLL_DELAY_MICROS {
            MIN_POLL_DELAY_MICROS
        } else {
            until_timeout
        },
        MIN_POLL_DELAY_MICROS <= r <= MAX_POLL_DELAY_MICROS,
{
    if until_timeout > MAX_POLL_DELAY_MICROS {
        MAX_POLL_DELAY_MICROS
    } else if until_timeout < MIN_POLL_DELAY_MICROS {
        MIN_POLL_DELAY_MICROS
    } else {
        until_timeout
    }
}

/// What the WebRTC object produced, as far as the event loop tells outputs
/// apart.
#[derive(Clone, Copy, Debug, PartialEq, Eq, Structural)]
pub enum OutputKind {
    Transmit,
    Timeout,
    IceDisconnected,
    IceStateChange,
    ChannelOpen,
    ChannelData,
    ChannelClose,
    Connected,
    Other,
}

/// What the event loop does with an output.
#[derive(Clone, Copy, Debug, PartialEq, Eq, Structural)]
pub enum OutputAction {
    /// Send the datagram to the socket.
    Transmit,
    /// Stop draining outputs and wait until the timeout.
    Wait,
    /// Route the channel data by [`ChannelTable::route`].
    Demultiplex,
    /// Forget the channel by [`ChannelTable::remove_channel`].
    ForgetChannel,
    /// Nothing to do; keep draining.
    Continue,
    /// Close the connection.
    Fail(ConnectionError),
}

pub open spec fn output_action_spec(kind: OutputKind) -> OutputAction {
    match kind {
        OutputKind::Transmit => OutputAction::Transmit,
        OutputKind::Timeout => OutputAction::Wait,
        OutputKind::IceDisconnected => OutputAction::Fail(ConnectionError::Disconnected),
        OutputKind::ChannelData => OutputAction::Demultiplex,
        OutputKind::ChannelClose => OutputAction::ForgetChannel,
        OutputKind::Connected => OutputAction::Fail(ConnectionError::InvalidState),
        _ => OutputAction::Continue,
    }
}

/// The loop's response to one output: a disconnected ICE state and a second
/// `Connected` end the connection; channel data is demultiplexed, a closed
/// channel forgotten; a timeout ends the draining.
pub fn output_action(kind: OutputKind) -> (r: OutputAction)
    ensures
        r == output_action_spec(kind),
{
    match kind {
        OutputKind::Transmit => OutputAction::Transmit,
        OutputKind::Timeout => OutputAction::Wait,
        OutputKind::IceDisconnected => OutputAction::Fail(ConnectionError::Disconnected),
        OutputKind::ChannelData => OutputAction::Demultiplex,
        OutputKind::ChannelClose => OutputAction::ForgetChannel,
        OutputKind::Connected => OutputAction::Fail(ConnectionError::InvalidState),
        _ => OutputAction::Continue,
    }
}

/// Whether an error while feeding a datagram ends the connection: only a
/// datagram that the WebRTC object refuses is dropped and the loop goes on.
pub fn input_error_is_fatal(e: ConnectionError) -> (r: bool)
    ensures
        r == (e != ConnectionError::InputRejected),
{
    match e {
        ConnectionError::InputRejected => false,
        _ => true,
    }
}

/// The payload of a decoded frame that is worth handing on: frames that
/// carry only flags, or an empty payload, are dropped.
pub fn deliverable_payload(payload: Option<Vec<u8>>) -> (r: Option<Vec<u8>>)
    ensures
        match payload {
            Some(p) => if p@.len() > 0 { r == Some(p) } else { r is None },
            None => r is None,
        },
{
    match payload {
        Some(p) => {
            if p.len() > 0 {
                Some(p)
            } else {
                None
            }
        },
        None => None,
    }
}

} // verus!
