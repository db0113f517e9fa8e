//! The outbound link to one peer, and the set of links of a server.
//!
//! A link is either connected or not. While it is connected, messages wait
//! in a queue of bounded capacity until the driver has written them; a
//! message that finds the link down or the queue full is dropped, and this
//! layer never sends it again.

use std::collections::VecDeque;
use vstd::prelude::*;
use crate::config::PeersConfig;
use crate::message::{Message, MessageView};

verus! {

/// How many messages may wait on one link.
pub const SEND_QUEUE_CAPACITY: usize = 100;

/// How long the driver waits before it connects again, in seconds.
pub const RECONNECT_BACKOFF_SECS: u64 = 2;

/// What became of a message handed to a link.
#[derive(Clone, Copy, Debug, PartialEq, Eq, Structural)]
pub enum SendOutcome {
    Queued,
    /// The peer is unreachable or its queue is full.
    Dropped,
}

/// The model of a [`PeerLink`].
pub struct LinkView {
    pub peer_id: u32,
    pub address: Seq<char>,
    pub connected: bool,
    pub queue: Seq<MessageView>,
}

impl LinkView {
    /// Whether a message handed to the link now is queued.
    pub open spec fn accepts(self) -> bool {
        self.connected && self.queue.len() < SEND_QUEUE_CAPACITY
    }

    /// The link after `message` was handed to it.
    pub open spec fn send(self, message: MessageView) -> LinkView {
        if self.accepts() {
            LinkView { queue: self.queue.push(message), ..self }
        } else {
            self
        }
    }

    /// The link after the stream was lost: down, and nothing waits any more.
    pub open spec fn disconnect(self) -> LinkView {
        LinkView { connected: false, queue: Seq::empty(), ..self }
    }

    /// The link after a stream was opened: up, with an empty queue.
    pub open spec fn connect(self) -> LinkView {
        LinkView { connected: true, queue: Seq::empty(), ..self }
    }

    pub open spec fn wf(self) -> bool {
        self.queue.len() <= SEND_QUEUE_CAPACITY && (!self.connected ==> self.queue.len() == 0)
    }
}

/// The outbound link to one peer.
pub struct PeerLink {
    peer_id: u32,
    address: String,
    connected: bool,
    queue: VecDeque<Message>,
}

impl View for PeerLink {
    type V = LinkView;

    closed spec fn view(&self) -> LinkView {
        LinkView {
            peer_id: self.peer_id,
            address: self.address@,
            connected: self.connected,
            queue: self.queue@.map_values(|m: Message| m@),
        }
    }
}

impl PeerLink {
    /// A link that is down.
    pub fn new(peer_id: u32, address: String) -> (link: Self)
        ensures
            link@ == (LinkView { peer_id, address: address@, connected: false, queue: Seq::empty() }),
            link@.wf(),
    {
        let link = PeerLink { peer_id, address, connected: false, queue: VecDeque::new() };
        assert(link@.queue =~= Seq::<MessageView>::empty());
        link
    }

    pub fn peer_id(&self) -> (id: u32)
        ensures
            id == self@.peer_id,
    {
        self.peer_id
    }

    /// The address to connect to.
    pub fn address(&self) -> (address: String)
        ensures
            address@ == self@.address,
    {
        self.address.clone()
    }

    pub fn is_connected(&self) -> (up: bool)
        ensures
            up == self@.connected,
    {
        self.connected
    }

    /// The number of messages that wait.
    pub fn pending(&self) -> (n: usize)
        ensures
            n == self@.queue.len(),
    {
        self.queue.len()
    }

    /// The driver has opened a stream to the peer.
    pub fn on_connected(&mut self)
        ensures
            final(self)@ == old(self)@.connect(),
            final(self)@.wf(),
    {
        self.queue.clear();
        self.connected = true;
        assert(self@.queue =~= Seq::<MessageView>::empty());
    }

    /// A write failed or the connection attempt did: the stream is dropped
    /// with all that waited for it. Returns the seconds to wait before the
    /// next attempt.
    pub fn on_disconnected(&mut self) -> (backoff_secs: u64)
        ensures
            final(self)@ == old(self)@.disconnect(),
            final(self)@.wf(),
            backoff_secs == RECONNECT_BACKOFF_SECS,
    {
        self.queue.clear();
        self.connected = false;
        assert(self@.queue =~= Seq::<MessageView>::empty());
        RECONNECT_BACKOFF_SECS
    }

    /// Hands a message to the link, without waiting.
    pub fn send(&mut self, message: Message) -> (outcome: SendOutcome)
        requires
            old(self)@.wf(),
        ensures
            final(self)@ == old(self)@.send(message@),
            final(self)@.wf(),
            outcome == (if old(self)@.accepts() {
                SendOutcome::Queued
            } else {
                SendOutcome::Dropped
            }),
    {
        if self.connected && self.queue.len() < SEND_QUEUE_CAPACITY {
            let ghost m = message@;
            self.queue.push_back(message);
            assert(self@.queue =~= old(self)@.queue.push(m));
            SendOutcome::Queued
        } else {
            SendOutcome::Dropped
        }
    }

    /// The message that is to be written next, in the order of sending.
    pub fn next_message(&mut self) -> (message: Option<Message>)
        requires
            old(self)@.wf(),
        ensures
            final(self)@.wf(),
            match message {
                Some(m) => old(self)@.queue.len() > 0 && m@ == old(self)@.queue[0] && final(self)@ == (LinkView {
                    queue: old(self)@.queue.skip(1),
                    ..old(self)@
                }),
                None => old(self)@.queue.len() == 0 && final(self)@ == old(self)@,
            },
    {
        let message = self.queue.pop_front();
        proof {
            if message is Some {
                assert(self@.queue =~= old(self)@.queue.skip(1));
            } else {
                assert(self@.queue =~= old(self)@.queue);
            }
        }
        message
    }
}

/// The model of a set of links: one per configured peer, in configuration order.
pub open spec fn links_view(links: Seq<PeerLink>) -> Seq<LinkView> {
    links.map_values(|l: PeerLink| l@)
}

/// The links after `message` was handed to every one of them.
pub open spec fn spec_broadcast(links: Seq<LinkView>, message: MessageView) -> Seq<LinkView> {
    links.map_values(|l: LinkView| l.send(message))
}

/// The links after `message` was handed to the first link to `peer_id`, if there is one.
pub open spec fn spec_send_to_peer(links: Seq<LinkView>, peer_id: u32, message: MessageView) -> Seq<LinkView>
    decreases links.len(),
{
    if links.len() == 0 {
        links
    } else if links[0].peer_id == peer_id {
        seq![links[0].send(message)] + links.skip(1)
    } else {
        seq![links[0]] + spec_send_to_peer(links.skip(1), peer_id, message)
    }
}

/// What becomes of a message for `peer_id`: the first link to that peer
/// decides, and without such a link the message is dropped.
pub open spec fn spec_send_outcome(links: Seq<LinkView>, peer_id: u32) -> SendOutcome
    decreases links.len(),
{
    if links.len() == 0 {
        SendOutcome::Dropped
    } else if links[0].peer_id == peer_id {
        if links[0].accepts() {
            SendOutcome::Queued
        } else {
            SendOutcome::Dropped
        }
    } else {
        spec_send_outcome(links.skip(1), peer_id)
    }
}

/// How many of the links queue a message that is handed to them now.
pub open spec fn spec_accepting(links: Seq<LinkView>) -> nat
    decreases links.len(),
{
    if links.len() == 0 {
        0
    } else {
        spec_accepting(links.drop_last()) + (if links.last().accepts() {
            1nat
        } else {
            0nat
        })
    }
}

/// The outbound links of a server.
pub struct LinkManager {
    links: Vec<PeerLink>,
}

impl View for LinkManager {
    type V = Seq<LinkView>;

    closed spec fn view(&self) -> Seq<LinkView> {
        links_view(self.links@)
    }
}

impl LinkManager {
    /// Every link keeps within its capacity.
    pub open spec fn wf(&self) -> bool {
        forall|i: int| 0 <= i < self@.len() ==> (#[trigger] self@[i]).wf()
    }

    /// One link per configured peer, all down.
    pub fn new(peers: &PeersConfig) -> (manager: Self)
        ensures
            manager.wf(),
            manager@.len() == peers.peers@.len(),
            forall|i: int|
                0 <= i < peers.peers@.len() ==> #[trigger] manager@[i] == (LinkView {
                    peer_id: peers.peers@[i].id,
                    address: peers.peers@[i].address@,
                    connected: false,
                    queue: Seq::empty(),
                }),
    {
        let mut links: Vec<PeerLink> = Vec::new();
        let mut i: usize = 0;
        while i < peers.peers.len()
            invariant
                i <= peers.peers@.len(),
                links@.len() == i,
                forall|j: int|
                    0 <= j < i ==> (#[trigger] links@[j])@ == (LinkView {
                        peer_id: peers.peers@[j].id,
                        address: peers.peers@[j].address@,
                        connected: false,
                        queue: Seq::empty(),
                    }),
            decreases peers.peers@.len() - i,
        {
            links.push(PeerLink::new(peers.peers[i].id, peers.peers[i].address.clone()));
            i += 1;
        }
        let manager = LinkManager { links };
        assert forall|j: int| 0 <= j < manager@.len() implies (#[trigger] manager@[j]).wf() by {
            assert(manager@[j] == manager.links@[j]@);
        }
        assert forall|j: int| 0 <= j < peers.peers@.len() implies #[trigger] manager@[j] == (LinkView {
            peer_id: peers.peers@[j].id,
            address: peers.peers@[j].address@,
            connected: false,
            queue: Seq::empty(),
        }) by {
            assert(manager@[j] == manager.links@[j]@);
        }
        manager
    }

    /// The number of links.
    pub fn len(&self) -> (n: usize)
        ensures
            n == self@.len(),
    {
        self.links.len()
    }

    /// The driver of link `index` has opened a stream.
    pub fn on_connected(&mut self, index: usize)
        requires
            old(self).wf(),
            index < old(self)@.len(),
        ensures
            final(self).wf(),
            final(self)@ == old(self)@.update(index as int, old(self)@[index as int].connect()),
    {
        let ghost before = self.links@;
        let mut link = self.links.remove(index);
        link.on_connected();
        self.links.insert(index, link);
        proof {
            assert(self@ =~= old(self)@.update(index as int, old(self)@[index as int].connect())) by {
                assert forall|j: int| 0 <= j < self.links@.len() implies #[trigger] links_view(self.links@)[j] == old(
                    self,
                )@.update(index as int, old(self)@[index as int].connect())[j] by {
                    if j != index {
                        assert(self.links@[j] == before[j]);
                    }
                }
            }
            assert forall|j: int| 0 <= j < self@.len() implies (#[trigger] self@[j]).wf() by {
                if j != index {
                    assert(old(self)@[j].wf());
                }
            }
        }
    }

    /// The stream of link `index` was lost, or could not be opened. Returns
    /// the seconds to wait before the next attempt.
    pub fn on_disconnected(&mut self, index: usize) -> (backoff_secs: u64)
        requires
            old(self).wf(),
            index < old(self)@.len(),
        ensures
            final(self).wf(),
            final(self)@ == old(self)@.update(index as int, old(self)@[index as int].disconnect()),
            backoff_secs == RECONNECT_BACKOFF_SECS,
    {
        let ghost before = self.links@;
        let mut link = self.links.remove(index);
        let backoff_secs = link.on_disconnected();
        self.links.insert(index, link);
        proof {
            assert(self@ =~= old(self)@.update(index as int, old(self)@[index as int].disconnect())) by {
                assert forall|j: int| 0 <= j < self.links@.len() implies #[trigger] links_view(self.links@)[j] == old(
                    self,
                )@.update(index as int, old(self)@[index as int].disconnect())[j] by {
                    if j != index {
                        assert(self.links@[j] == before[j]);
                    }
                }
            }
            assert forall|j: int| 0 <= j < self@.len() implies (#[trigger] self@[j]).wf() by {
                if j != index {
                    assert(old(self)@[j].wf());
                }
            }
        }
        backoff_secs
    }

    /// The message that link `index` is to write next.
    pub fn next_message(&mut self, index: usize) -> (message: Option<Message>)
        requires
            old(self).wf(),
            index < old(self)@.len(),
        ensures
            final(self).wf(),
            match message {
                Some(m) => old(self)@[index as int].queue.len() > 0 && m@ == old(self)@[index as int].queue[0]
                    && final(self)@ == old(self)@.update(
                    index as int,
                    LinkView { queue: old(self)@[index as int].queue.skip(1), ..old(self)@[index as int] },
                ),
                None => old(self)@[index as int].queue.len() == 0 && final(self)@ == old(self)@,
            },
    {
        let ghost before = self.links@;
        assert(old(self)@[index as int].wf());
        let mut link = self.links.remove(index);
        let message = link.next_message();
        let ghost after_link = link@;
        self.links.insert(index, link);
        proof {
            assert(self@ =~= old(self)@.update(index as int, after_link)) by {
                assert forall|j: int| 0 <= j < self.links@.len() implies #[trigger] links_view(self.links@)[j] == old(
                    self,
                )@.update(index as int, after_link)[j] by {
                    if j != index {
                        assert(self.links@[j] == before[j]);
                    }
                }
            }
            assert forall|j: int| 0 <= j < self@.len() implies (#[trigger] self@[j]).wf() by {
                if j != index {
                    assert(old(self)@[j].wf());
                }
            }
            if message is None {
                assert(old(self)@.update(index as int, after_link) =~= old(self)@);
            }
        }
        message
    }

    /// Hands a copy of `message` to every link. Returns how many queued it.
    pub fn broadcast(&mut self, message: &Message) -> (queued: usize)
        requires
            old(self).wf(),
        ensures
            final(self).wf(),
            final(self)@ == spec_broadcast(old(self)@, message@),
            queued == spec_accepting(old(self)@),
    {
        let ghost before = self@;
        let n = self.links.len();
        let mut queued: usize = 0;
        let mut i: usize = 0;
        assert(before.subrange(0, 0) =~= Seq::<LinkView>::empty());
        while i < n
            invariant
                i <= n,
                n == before.len(),
                self@.len() == n,
                queued <= i,
                queued == spec_accepting(before.subrange(0, i as int)),
                forall|j: int| 0 <= j < i ==> #[trigger] self@[j] == before[j].send(message@),
                forall|j: int| i <= j < n ==> #[trigger] self@[j] == before[j],
                forall|j: int| 0 <= j < n ==> (#[trigger] before[j]).wf(),
            decreases n - i,
        {
            let ghost rows = self.links@;
            assert(self@[i as int] == before[i as int]);
            assert(before[i as int].wf());
            let mut link = self.links.remove(i);
            let outcome = link.send(message.clone());
            let ghost sent = link@;
            self.links.insert(i, link);
            proof {
                assert forall|j: int| 0 <= j < n implies #[trigger] self@[j] == (if j == i {
                    sent
                } else {
                    links_view(rows)[j]
                }) by {
                    if j != i {
                        assert(self.links@[j] == rows[j]);
                    }
                }
                assert(before.subrange(0, i + 1).drop_last() =~= before.subrange(0, i as int));
                assert(before.subrange(0, i + 1).last() == before[i as int]);
            }
            match outcome {
                SendOutcome::Queued => {
                    queued += 1;
                },
                SendOutcome::Dropped => {},
            }
            i += 1;
        }
        proof {
            assert(before.subrange(0, n as int) =~= before);
            assert(self@ =~= spec_broadcast(before, message@));
            assert forall|j: int| 0 <= j < self@.len() implies (#[trigger] self@[j]).wf() by {
                assert(before[j].wf());
            }
        }
        queued
    }

    /// Hands `message` to the link to `peer_id`. A peer without a link gets nothing.
    pub fn send_to_peer(&mut self, peer_id: u32, message: Message) -> (outcome: SendOutcome)
        requires
            old(self).wf(),
        ensures
            final(self).wf(),
            final(self)@ == spec_send_to_peer(old(self)@, peer_id, message@),
            outcome == spec_send_outcome(old(self)@, peer_id),
    {
        let ghost before = self@;
        let ghost m = message@;
        let n = self.links.len();
        let mut i: usize = 0;
        assert(before.skip(0) =~= before);
        assert(before.subrange(0, 0) + spec_send_to_peer(before, peer_id, m) =~= spec_send_to_peer(
            before,
            peer_id,
            m,
        ));
        while i < n
            invariant
                i <= n,
                n == before.len(),
                self@ == before,
                self.wf(),
                m == message@,
                before == old(self)@,
                spec_send_outcome(before, peer_id) == spec_send_outcome(before.skip(i as int), peer_id),
                spec_send_to_peer(before, peer_id, m) == before.subrange(0, i as int) + spec_send_to_peer(
                    before.skip(i as int),
                    peer_id,
                    m,
                ),
            decreases n - i,
        {
            let ghost rest = before.skip(i as int);
            assert(self@[i as int] == self.links@[i as int]@);
            assert(rest[0] == before[i as int]);
            if self.links[i].peer_id() == peer_id {
                let ghost rows = self.links@;
                assert(before[i as int].wf());
                let mut link = self.links.remove(i);
                let outcome = link.send(message);
                let ghost sent = link@;
                self.links.insert(i, link);
                proof {
                    assert forall|j: int| 0 <= j < n implies #[trigger] self@[j] == (if j == i {
                        sent
                    } else {
                        before[j]
                    }) by {
                        if j != i {
                            assert(self.links@[j] == rows[j]);
                            assert(before[j] == rows[j]@);
                        }
                    }
                    assert(rows[i as int]@ == before[i as int]);
                    assert(rest.len() > 0 && rest[0].peer_id == peer_id);
                    assert(sent == before[i as int].send(m));
                    assert(spec_send_outcome(rest, peer_id) == outcome);
                    assert(spec_send_to_peer(rest, peer_id, m) == seq![rest[0].send(m)] + rest.skip(1));
                    assert(self@ =~= before.subrange(0, i as int) + (seq![before[i as int].send(m)] + rest.skip(1)));
                    assert forall|j: int| 0 <= j < self@.len() implies (#[trigger] self@[j]).wf() by {
                        assert(before[j].wf());
                    }
                }
                return outcome;
            }
            proof {
                assert(rest.skip(1) =~= before.skip(i + 1));
                assert(spec_send_to_peer(rest, peer_id, m) == seq![rest[0]] + spec_send_to_peer(
                    rest.skip(1),
                    peer_id,
                    m,
                ));
                assert(before.subrange(0, i as int) + (seq![rest[0]] + spec_send_to_peer(rest.skip(1), peer_id, m))
                    =~= before.subrange(0, i + 1) + spec_send_to_peer(before.skip(i + 1), peer_id, m));
            }
            i += 1;
        }
        proof {
            assert(before.skip(n as int) =~= Seq::<LinkView>::empty());
            assert(before.subrange(0, n as int) + Seq::<LinkView>::empty() =~= before);
        }
        SendOutcome::Dropped
    }
}

} // verus!
