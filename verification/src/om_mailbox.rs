//! A mailbox for onion messages to peers that are offline.
use vstd::prelude::*;

use bitcoin::secp256k1::PublicKey;
use lightning::ln::msgs::OnionMessage;
use std::collections::VecDeque;

use crate::om_mailbox_laws::{law_interception_with_room, law_longest_queue_is_evicted};
use crate::outside::same_key;

verus! {

/// The most messages that are kept for one peer.
pub const MAX_MESSAGES_PER_PEER: usize = 100;

/// The most peers that messages are kept for.
pub const MAX_PEERS: usize = 100;

/// The messages that wait for one peer, oldest first.
struct PeerQueue {
    peer: PublicKey,
    messages: VecDeque<OnionMessage>,
}

/// Keeps the latest onion messages of a bounded number of peers until the peers connect.
///
/// Its view maps each known peer to the messages that wait for it, oldest first. A peer stays
/// known, with nothing waiting, after it has connected.
pub struct OnionMessageMailbox {
    queues: Vec<PeerQueue>,
}

/// The peers of `queues`, in order.
spec fn peers_of(queues: Seq<PeerQueue>) -> Seq<PublicKey> {
    queues.map_values(|queue: PeerQueue| queue.peer)
}

/// `queues` as a map from peer to messages.
spec fn contents_of(queues: Seq<PeerQueue>) -> Map<PublicKey, Seq<OnionMessage>> {
    Map::new(
        |peer: PublicKey| peers_of(queues).contains(peer),
        |peer: PublicKey| queues[peers_of(queues).index_of(peer)].messages@,
    )
}

/// A queue after `message` was put in: a full one gives up its oldest message first.
pub open spec fn enqueued(queue: Seq<OnionMessage>, message: OnionMessage) -> Seq<OnionMessage> {
    if queue.len() >= MAX_MESSAGES_PER_PEER {
        queue.drop_first().push(message)
    } else {
        queue.push(message)
    }
}

/// What waits for `peer`: nothing, where the peer is not known.
pub open spec fn waiting(
    mailbox: Map<PublicKey, Seq<OnionMessage>>,
    peer: PublicKey,
) -> Seq<OnionMessage> {
    if mailbox.contains_key(peer) {
        mailbox[peer]
    } else {
        Seq::empty()
    }
}

/// The mailbox once `message` is queued for `peer`, before the limit on peers is enforced.
pub open spec fn queued(
    mailbox: Map<PublicKey, Seq<OnionMessage>>,
    peer: PublicKey,
    message: OnionMessage,
) -> Map<PublicKey, Seq<OnionMessage>> {
    mailbox.insert(peer, enqueued(waiting(mailbox, peer), message))
}

/// Whether no known peer has more messages waiting than the known peer `peer`.
pub open spec fn has_longest_queue(
    mailbox: Map<PublicKey, Seq<OnionMessage>>,
    peer: PublicKey,
) -> bool {
    &&& mailbox.contains_key(peer)
    &&& forall|other: PublicKey| #[trigger]
        mailbox.contains_key(other) ==> mailbox[other].len() <= mailbox[peer].len()
}

/// Whether `after` is `before` with `message` queued for `peer` and, where that makes one peer too
/// many, with one peer gone that had a longest queue. Which of several it is, is left open.
pub open spec fn intercepted(
    before: Map<PublicKey, Seq<OnionMessage>>,
    peer: PublicKey,
    message: OnionMessage,
    after: Map<PublicKey, Seq<OnionMessage>>,
) -> bool {
    let full = queued(before, peer, message);
    if full.len() > MAX_PEERS {
        exists|evicted: PublicKey| #[trigger]
            has_longest_queue(full, evicted) && after == full.remove(evicted)
    } else {
        after == full
    }
}

/// The mailbox after `peer` has connected: a known peer has nothing waiting any more.
pub open spec fn emptied(
    mailbox: Map<PublicKey, Seq<OnionMessage>>,
    peer: PublicKey,
) -> Map<PublicKey, Seq<OnionMessage>> {
    if mailbox.contains_key(peer) {
        mailbox.insert(peer, Seq::empty())
    } else {
        mailbox
    }
}

/// The limits: on the number of peers, and on the number of messages of each.
pub open spec fn within_limits(mailbox: Map<PublicKey, Seq<OnionMessage>>) -> bool {
    &&& mailbox.dom().finite()
    &&& mailbox.len() <= MAX_PEERS
    &&& forall|peer: PublicKey| #[trigger]
        mailbox.contains_key(peer) ==> mailbox[peer].len() <= MAX_MESSAGES_PER_PEER
}

impl View for OnionMessageMailbox {
    type V = Map<PublicKey, Seq<OnionMessage>>;

    closed spec fn view(&self) -> Map<PublicKey, Seq<OnionMessage>> {
        contents_of(self.queues@)
    }
}

impl OnionMessageMailbox {
    /// No peer has two queues, and the limits are kept.
    pub closed spec fn wf(&self) -> bool {
        &&& peers_of(self.queues@).no_duplicates()
        &&& within_limits(self@)
    }

    /// A mailbox that knows no peer.
    pub fn new() -> (mailbox: Self)
        ensures
            mailbox.wf(),
            mailbox@ == Map::<PublicKey, Seq<OnionMessage>>::empty(),
    {
        let mailbox = Self { queues: Vec::new() };
        assert(mailbox@ =~= Map::<PublicKey, Seq<OnionMessage>>::empty());
        mailbox
    }

    /// The place of `peer` among the queues.
    fn find(&self, peer: &PublicKey) -> (place: Option<usize>)
        ensures
            match place {
                Some(i) => i < self.queues@.len() && self.queues@[i as int].peer == *peer,
                None => !self@.contains_key(*peer),
            },
    {
        let mut i: usize = 0;
        while i < self.queues.len()
            invariant
                i <= self.queues@.len(),
                forall|j: int| 0 <= j < i ==> (#[trigger] self.queues@[j]).peer != *peer,
            decreases self.queues@.len() - i,
        {
            if same_key(&self.queues[i].peer, peer) {
                return Some(i);
            }
            i += 1;
        }
        None
    }

    /// The place of a queue that no other is longer than.
    fn find_longest(&self) -> (place: usize)
        requires
            self.queues@.len() > 0,
        ensures
            place < self.queues@.len(),
            forall|j: int|
                0 <= j < self.queues@.len() ==> (#[trigger] self.queues@[j]).messages@.len()
                    <= self.queues@[place as int].messages@.len(),
    {
        let mut longest: usize = 0;
        let mut i: usize = 1;
        while i < self.queues.len()
            invariant
                1 <= i <= self.queues@.len(),
                longest < i,
                forall|j: int|
                    0 <= j < i ==> (#[trigger] self.queues@[j]).messages@.len()
                        <= self.queues@[longest as int].messages@.len(),
            decreases self.queues@.len() - i,
        {
            if self.queues[i].messages.len() >= self.queues[longest].messages.len() {
                longest = i;
            }
            i += 1;
        }
        longest
    }

    /// Keeps `message` until `peer_node_id` connects.
    ///
    /// A peer that has [`MAX_MESSAGES_PER_PEER`] messages waiting loses the oldest of them. Where
    /// there are more than [`MAX_PEERS`] peers then, one with a longest queue is dropped, with all
    /// its messages.
    pub fn onion_message_intercepted(&mut self, peer_node_id: PublicKey, message: OnionMessage)
        requires
            old(self).wf(),
        ensures
            final(self).wf(),
            intercepted(old(self)@, peer_node_id, message, final(self)@),
            old(self)@.contains_key(peer_node_id) && old(self)@[peer_node_id].len()
                < MAX_MESSAGES_PER_PEER ==> final(self)@ == old(self)@.insert(
                peer_node_id,
                old(self)@[peer_node_id].push(message),
            ),
            old(self)@.contains_key(peer_node_id) && old(self)@[peer_node_id].len()
                == MAX_MESSAGES_PER_PEER ==> final(self)@ == old(self)@.insert(
                peer_node_id,
                old(self)@[peer_node_id].skip(1).push(message),
            ),
            !old(self)@.contains_key(peer_node_id) && old(self)@.len() < MAX_PEERS ==> final(self)@
                == old(self)@.insert(peer_node_id, seq![message]),
            !old(self)@.contains_key(peer_node_id) && old(self)@.len() == MAX_PEERS ==> (exists|
                evicted: PublicKey,
            |
                {
                    &&& final(self)@ == #[trigger] old(self)@.insert(
                        peer_node_id,
                        seq![message],
                    ).remove(evicted)
                    &&& evicted == peer_node_id || old(self)@.contains_key(evicted)
                }),
    {
        let ghost before = self.queues@;
        let place: usize = match self.find(&peer_node_id) {
            Some(i) => i,
            None => {
                self.queues.push(PeerQueue { peer: peer_node_id, messages: VecDeque::new() });
                proof {
                    lemma_push(before, self.queues@.last());
                }
                self.queues.len() - 1
            },
        };
        let ghost with_peer = self.queues@;
        proof {
            lemma_lookup(with_peer, place as int);
            assert(with_peer[place as int].messages@ =~= waiting(old(self)@, peer_node_id)) by {
                if old(self)@.contains_key(peer_node_id) {
                    lemma_lookup(before, place as int);
                }
            }
        }
        if self.queues[place].messages.len() >= MAX_MESSAGES_PER_PEER {
            self.queues[place].messages.pop_front();
        }
        self.queues[place].messages.push_back(message);
        let ghost full = self.queues@;
        proof {
            assert(full =~= with_peer.update(place as int, full[place as int]));
            lemma_update(with_peer, place as int, full[place as int]);
            assert(full[place as int].messages@ =~= enqueued(
                waiting(old(self)@, peer_node_id),
                message,
            ));
            assert(contents_of(full) =~= queued(old(self)@, peer_node_id, message));
            lemma_len(full);
            lemma_queued_dom(old(self)@, peer_node_id, message);
        }
        if self.queues.len() > MAX_PEERS {
            let longest = self.find_longest();
            proof {
                lemma_lookup(full, longest as int);
                lemma_longest(full, longest as int);
                lemma_remove(full, longest as int);
            }
            self.queues.remove(longest);
            proof {
                lemma_len(self.queues@);
                assert(has_longest_queue(contents_of(full), full[longest as int].peer));
            }
        }
        proof {
            law_interception_with_room(old(self)@, peer_node_id, message, self@);
            if !old(self)@.contains_key(peer_node_id) && old(self)@.len() == MAX_PEERS {
                let evicted = law_longest_queue_is_evicted(
                    old(self)@,
                    peer_node_id,
                    message,
                    self@,
                );
                assert(self@ == old(self)@.insert(peer_node_id, seq![message]).remove(evicted));
            }
        }
    }

    /// Hands out the messages that wait for `peer_node_id`, oldest first, and keeps none of them.
    pub fn onion_message_peer_connected(
        &mut self,
        peer_node_id: PublicKey,
    ) -> (messages: Vec<OnionMessage>)
        requires
            old(self).wf(),
        ensures
            final(self).wf(),
            messages@ == waiting(old(self)@, peer_node_id),
            final(self)@ == emptied(old(self)@, peer_node_id),
            old(self)@.contains_key(peer_node_id) ==> messages@ == old(self)@[peer_node_id]
                && final(self)@ == old(self)@.insert(peer_node_id, Seq::empty()),
            !old(self)@.contains_key(peer_node_id) ==> messages@.len() == 0 && final(self)@ == old(
                self,
            )@,
    {
        let ghost before = self.queues@;
        match self.find(&peer_node_id) {
            Some(place) => {
                let mut queue = VecDeque::new();
                std::mem::swap(&mut queue, &mut self.queues[place].messages);
                proof {
                    lemma_lookup(before, place as int);
                    assert(self.queues@ =~= before.update(place as int, self.queues@[place as int]));
                    lemma_update(before, place as int, self.queues@[place as int]);
                    lemma_len(before);
                    lemma_len(self.queues@);
                    assert(self.queues@[place as int].messages@ =~= Seq::<OnionMessage>::empty());
                }
                into_vec(queue)
            },
            None => Vec::new(),
        }
    }
}

/// A mailbox keeps the limits on peers and messages at all times.
pub proof fn law_mailbox_is_within_limits(mailbox: &OnionMessageMailbox)
    requires
        mailbox.wf(),
    ensures
        within_limits(mailbox@),
        mailbox@.dom().finite(),
        mailbox@.len() <= MAX_PEERS,
        forall|peer: PublicKey| #[trigger]
            mailbox@.contains_key(peer) ==> mailbox@[peer].len() <= MAX_MESSAGES_PER_PEER,
{
}

/// The messages of a queue as a vector, in the same order.
fn into_vec(queue: VecDeque<OnionMessage>) -> (messages: Vec<OnionMessage>)
    ensures
        messages@ == queue@,
{
    let mut rest = queue;
    let mut messages: Vec<OnionMessage> = Vec::new();
    while rest.len() > 0
        invariant
            messages@ + rest@ == queue@,
        decreases rest@.len(),
    {
        let ghost before = messages@ + rest@;
        if let Some(message) = rest.pop_front() {
            messages.push(message);
        }
        assert(messages@ + rest@ =~= before);
    }
    assert(messages@ + rest@ =~= messages@);
    messages
}

/// Each queue is found in the map under its peer.
proof fn lemma_lookup(queues: Seq<PeerQueue>, i: int)
    requires
        peers_of(queues).no_duplicates(),
        0 <= i < queues.len(),
    ensures
        contents_of(queues).contains_key(queues[i].peer),
        contents_of(queues)[queues[i].peer] == queues[i].messages@,
{
    let peers = peers_of(queues);
    assert(peers[i] == queues[i].peer);
    assert(peers.contains(queues[i].peer));
    assert(peers[peers.index_of(queues[i].peer)] == peers[i]);
}

/// The map has as many keys as there are queues.
proof fn lemma_len(queues: Seq<PeerQueue>)
    requires
        peers_of(queues).no_duplicates(),
    ensures
        contents_of(queues).dom().finite(),
        contents_of(queues).len() == queues.len(),
{
    let peers = peers_of(queues);
    peers.unique_seq_to_set();
    assert(contents_of(queues).dom() =~= peers.to_set());
    vstd::seq_lib::seq_to_set_is_finite(peers);
}

/// A map that agrees with the queues, entry by entry, is the map of the queues.
proof fn lemma_contents(queues: Seq<PeerQueue>, map: Map<PublicKey, Seq<OnionMessage>>)
    requires
        peers_of(queues).no_duplicates(),
        forall|i: int|
            0 <= i < queues.len() ==> map.contains_key((#[trigger] queues[i]).peer)
                && map[queues[i].peer] == queues[i].messages@,
        forall|peer: PublicKey| #[trigger]
            map.contains_key(peer) ==> peers_of(queues).contains(peer),
    ensures
        contents_of(queues) == map,
{
    assert forall|peer: PublicKey| contents_of(queues).contains_key(peer) implies map.contains_key(
        peer,
    ) && map[peer] == contents_of(queues)[peer] by {
        let i = peers_of(queues).index_of(peer);
        assert(queues[i].peer == peer);
    }
    assert(contents_of(queues) =~= map);
}

/// A queue for a further peer adds one entry to the map.
proof fn lemma_push(queues: Seq<PeerQueue>, queue: PeerQueue)
    requires
        peers_of(queues).no_duplicates(),
        !contents_of(queues).contains_key(queue.peer),
    ensures
        peers_of(queues.push(queue)).no_duplicates(),
        contents_of(queues.push(queue)) == contents_of(queues).insert(queue.peer, queue.messages@),
{
    let after = queues.push(queue);
    let map = contents_of(queues).insert(queue.peer, queue.messages@);
    assert(peers_of(after) =~= peers_of(queues).push(queue.peer));
    assert forall|i: int| 0 <= i < after.len() implies map.contains_key((#[trigger] after[i]).peer)
        && map[after[i].peer] == after[i].messages@ by {
        if i < queues.len() {
            lemma_lookup(queues, i);
        }
    }
    assert forall|peer: PublicKey| #[trigger] map.contains_key(peer) implies peers_of(
        after,
    ).contains(peer) by {
        if peer == queue.peer {
            assert(peers_of(after)[queues.len() as int] == peer);
        } else {
            let i = peers_of(queues).index_of(peer);
            assert(peers_of(after)[i] == peer);
        }
    }
    assert(peers_of(after).no_duplicates()) by {
        assert forall|i: int| 0 <= i < queues.len() implies peers_of(queues)[i] != queue.peer by {
            lemma_lookup(queues, i);
        }
    }
    lemma_contents(after, map);
}

/// Changing the messages of one queue changes the one entry of its peer.
proof fn lemma_update(queues: Seq<PeerQueue>, i: int, queue: PeerQueue)
    requires
        peers_of(queues).no_duplicates(),
        0 <= i < queues.len(),
        queue.peer == queues[i].peer,
    ensures
        peers_of(queues.update(i, queue)).no_duplicates(),
        contents_of(queues.update(i, queue)) == contents_of(queues).insert(
            queue.peer,
            queue.messages@,
        ),
{
    let after = queues.update(i, queue);
    let map = contents_of(queues).insert(queue.peer, queue.messages@);
    assert(peers_of(after) =~= peers_of(queues));
    assert(peers_of(after)[i] == queue.peer);
    assert forall|j: int| 0 <= j < after.len() implies map.contains_key((#[trigger] after[j]).peer)
        && map[after[j].peer] == after[j].messages@ by {
        lemma_lookup(queues, j);
        if j != i {
            assert(peers_of(queues)[j] != peers_of(queues)[i]);
        }
    }
    lemma_contents(after, map);
}

/// Dropping one queue drops the entry of its peer.
proof fn lemma_remove(queues: Seq<PeerQueue>, i: int)
    requires
        peers_of(queues).no_duplicates(),
        0 <= i < queues.len(),
    ensures
        peers_of(queues.remove(i)).no_duplicates(),
        contents_of(queues.remove(i)) == contents_of(queues).remove(queues[i].peer),
{
    let after = queues.remove(i);
    let map = contents_of(queues).remove(queues[i].peer);
    assert(peers_of(after) =~= peers_of(queues).remove(i));
    assert forall|j: int| 0 <= j < after.len() implies map.contains_key((#[trigger] after[j]).peer)
        && map[after[j].peer] == after[j].messages@ by {
        let k = if j < i {
            j
        } else {
            j + 1
        };
        lemma_lookup(queues, k);
        assert(peers_of(queues)[k] != peers_of(queues)[i]);
    }
    assert forall|peer: PublicKey| #[trigger] map.contains_key(peer) implies peers_of(
        after,
    ).contains(peer) by {
        let k = peers_of(queues).index_of(peer);
        assert(peers_of(queues)[k] == peer);
        let j = if k < i {
            k
        } else {
            k - 1
        };
        assert(peers_of(after)[j] == peer);
    }
    lemma_contents(after, map);
}

/// A queue that is longest among the queues is longest in the map.
proof fn lemma_longest(queues: Seq<PeerQueue>, i: int)
    requires
        peers_of(queues).no_duplicates(),
        0 <= i < queues.len(),
        forall|j: int|
            0 <= j < queues.len() ==> (#[trigger] queues[j]).messages@.len()
                <= queues[i].messages@.len(),
    ensures
        has_longest_queue(contents_of(queues), queues[i].peer),
{
    let map = contents_of(queues);
    lemma_lookup(queues, i);
    assert forall|other: PublicKey| #[trigger] map.contains_key(other) implies map[other].len()
        <= map[queues[i].peer].len() by {
        let j = peers_of(queues).index_of(other);
        assert(queues[j].peer == other);
        lemma_lookup(queues, j);
    }
}

/// Queueing a message adds the peer, where it is not known, and no other.
pub(crate) proof fn lemma_queued_dom(
    mailbox: Map<PublicKey, Seq<OnionMessage>>,
    peer: PublicKey,
    message: OnionMessage,
)
    requires
        mailbox.dom().finite(),
    ensures
        queued(mailbox, peer, message).dom() == mailbox.dom().insert(peer),
        queued(mailbox, peer, message).dom().finite(),
        queued(mailbox, peer, message).len() == mailbox.len() + if mailbox.contains_key(peer) {
            0int
        } else {
            1
        },
{
    assert(queued(mailbox, peer, message).dom() =~= mailbox.dom().insert(peer));
}

} // verus!
