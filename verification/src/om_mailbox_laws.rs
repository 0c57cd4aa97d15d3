//! What holds of the mailbox over several operations.
use vstd::prelude::*;

use bitcoin::secp256k1::PublicKey;
use lightning::ln::msgs::OnionMessage;

use crate::om_mailbox::{
    emptied, enqueued, has_longest_queue, intercepted, lemma_queued_dom, queued, waiting,
    within_limits, MAX_MESSAGES_PER_PEER, MAX_PEERS,
};

verus! {

/// The last messages of `messages`, as many as one peer may have waiting.
pub open spec fn latest(messages: Seq<OnionMessage>) -> Seq<OnionMessage> {
    if messages.len() <= MAX_MESSAGES_PER_PEER {
        messages
    } else {
        messages.skip(messages.len() - MAX_MESSAGES_PER_PEER)
    }
}

/// Whether `after` can come from `before` by intercepting the messages of `events` in order.
pub open spec fn intercepted_all(
    before: Map<PublicKey, Seq<OnionMessage>>,
    events: Seq<(PublicKey, OnionMessage)>,
    after: Map<PublicKey, Seq<OnionMessage>>,
) -> bool
    decreases events.len(),
{
    if events.len() == 0 {
        after == before
    } else {
        exists|between: Map<PublicKey, Seq<OnionMessage>>|
            {
                &&& intercepted_all(before, events.drop_last(), between)
                &&& #[trigger] intercepted(between, events.last().0, events.last().1, after)
            }
    }
}

/// The messages among `events` that are for `peer`, in order.
pub open spec fn messages_for(
    events: Seq<(PublicKey, OnionMessage)>,
    peer: PublicKey,
) -> Seq<OnionMessage>
    decreases events.len(),
{
    if events.len() == 0 {
        Seq::empty()
    } else if events.last().0 == peer {
        messages_for(events.drop_last(), peer).push(events.last().1)
    } else {
        messages_for(events.drop_last(), peer)
    }
}

/// The peers that `events` hold messages for.
pub open spec fn peers_in(events: Seq<(PublicKey, OnionMessage)>) -> Set<PublicKey>
    decreases events.len(),
{
    if events.len() == 0 {
        Set::empty()
    } else {
        peers_in(events.drop_last()).insert(events.last().0)
    }
}

/// Intercepting a message keeps the limits on peers and messages, whichever peer is dropped.
pub proof fn law_interception_keeps_limits(
    before: Map<PublicKey, Seq<OnionMessage>>,
    peer: PublicKey,
    message: OnionMessage,
    after: Map<PublicKey, Seq<OnionMessage>>,
)
    requires
        within_limits(before),
        intercepted(before, peer, message, after),
    ensures
        within_limits(after),
{
    let full = queued(before, peer, message);
    lemma_queued_dom(before, peer, message);
    if full.len() > MAX_PEERS {
        let evicted = choose|evicted: PublicKey| #[trigger]
            has_longest_queue(full, evicted) && after == full.remove(evicted);
        assert(after.dom() =~= full.dom().remove(evicted));
    }
}

/// A peer's connecting keeps the limits on peers and messages.
pub proof fn law_connecting_keeps_limits(
    mailbox: Map<PublicKey, Seq<OnionMessage>>,
    peer: PublicKey,
)
    requires
        within_limits(mailbox),
    ensures
        within_limits(emptied(mailbox, peer)),
{
    if mailbox.contains_key(peer) {
        assert(emptied(mailbox, peer).dom() =~= mailbox.dom());
    }
}

/// A message for a peer that is known, or that there is room for, is the last of those that the
/// peer is handed when it connects.
pub proof fn law_message_is_delivered(
    before: Map<PublicKey, Seq<OnionMessage>>,
    peer: PublicKey,
    message: OnionMessage,
    after: Map<PublicKey, Seq<OnionMessage>>,
)
    requires
        within_limits(before),
        intercepted(before, peer, message, after),
        before.contains_key(peer) || before.len() < MAX_PEERS,
    ensures
        waiting(after, peer) == enqueued(waiting(before, peer), message),
        waiting(after, peer).last() == message,
{
    lemma_queued_dom(before, peer, message);
}

/// A message for a peer that is known, or that there is room for, joins that peer's messages as the
/// newest, and every other peer keeps what it has. None of the peer's messages is lost unless it
/// has as many as it may have: then the oldest one is. A newcomer has the message and no other.
pub proof fn law_interception_with_room(
    before: Map<PublicKey, Seq<OnionMessage>>,
    peer: PublicKey,
    message: OnionMessage,
    after: Map<PublicKey, Seq<OnionMessage>>,
)
    requires
        before.dom().finite(),
        before.len() <= MAX_PEERS,
        intercepted(before, peer, message, after),
    ensures
        before.contains_key(peer) && before[peer].len() < MAX_MESSAGES_PER_PEER ==> after
            == before.insert(peer, before[peer].push(message)),
        before.contains_key(peer) && before[peer].len() >= MAX_MESSAGES_PER_PEER ==> after
            == before.insert(peer, before[peer].skip(1).push(message)),
        !before.contains_key(peer) && before.len() < MAX_PEERS ==> after == before.insert(
            peer,
            seq![message],
        ),
{
    lemma_queued_dom(before, peer, message);
    if before.contains_key(peer) {
        assert(before[peer].drop_first() =~= before[peer].skip(1));
    } else {
        assert(Seq::<OnionMessage>::empty().push(message) =~= seq![message]);
    }
}

/// Where a message for a newcomer makes another peer go, the newcomer has exactly that message
/// waiting, and every other peer that is left keeps its messages.
pub proof fn law_newcomer_keeps_its_message(
    before: Map<PublicKey, Seq<OnionMessage>>,
    peer: PublicKey,
    message: OnionMessage,
    after: Map<PublicKey, Seq<OnionMessage>>,
)
    requires
        before.dom().finite(),
        before.len() == MAX_PEERS,
        !before.contains_key(peer),
        intercepted(before, peer, message, after),
        after.contains_key(peer),
    ensures
        after[peer] == seq![message],
        forall|other: PublicKey| #[trigger]
            after.contains_key(other) && other != peer ==> before.contains_key(other)
                && after[other] == before[other],
{
    let evicted = law_longest_queue_is_evicted(before, peer, message, after);
}

/// A newcomer's message stays wherever some other peer has two messages or more waiting.
pub proof fn law_newcomer_stays_before_longer_queues(
    before: Map<PublicKey, Seq<OnionMessage>>,
    peer: PublicKey,
    message: OnionMessage,
    after: Map<PublicKey, Seq<OnionMessage>>,
    other: PublicKey,
)
    requires
        before.dom().finite(),
        before.len() == MAX_PEERS,
        !before.contains_key(peer),
        intercepted(before, peer, message, after),
        before.contains_key(other),
        before[other].len() >= 2,
    ensures
        after.contains_key(peer),
        after[peer] == seq![message],
{
    let evicted = law_longest_queue_is_evicted(before, peer, message, after);
}

/// A peer that alone has the longest queue, of two messages or more, is the one that makes room for
/// a newcomer, and nothing else changes.
pub proof fn law_sole_longest_queue_makes_room(
    before: Map<PublicKey, Seq<OnionMessage>>,
    peer: PublicKey,
    message: OnionMessage,
    after: Map<PublicKey, Seq<OnionMessage>>,
    longest: PublicKey,
)
    requires
        before.dom().finite(),
        before.len() == MAX_PEERS,
        !before.contains_key(peer),
        intercepted(before, peer, message, after),
        before.contains_key(longest),
        before[longest].len() >= 2,
        forall|other: PublicKey| #[trigger]
            before.contains_key(other) && other != longest ==> before[other].len()
                < before[longest].len(),
    ensures
        after == before.remove(longest).insert(peer, seq![message]),
{
    let evicted = law_longest_queue_is_evicted(before, peer, message, after);
    assert(before.contains_key(longest));
    assert(evicted != peer);
    assert(before.contains_key(evicted));
    assert(after =~= before.remove(longest).insert(peer, seq![message]));
}

/// What a peer is handed when it connects, and what that leaves: exactly the messages that wait
/// for it, of which none is left. A peer that is not known gets nothing and stays unknown.
pub proof fn law_connecting_hands_out_everything(
    mailbox: Map<PublicKey, Seq<OnionMessage>>,
    peer: PublicKey,
)
    ensures
        mailbox.contains_key(peer) ==> waiting(mailbox, peer) == mailbox[peer] && emptied(
            mailbox,
            peer,
        ) == mailbox.insert(peer, Seq::empty()),
        !mailbox.contains_key(peer) ==> waiting(mailbox, peer).len() == 0 && emptied(mailbox, peer)
            == mailbox,
{
}

/// A known peer with fewer messages waiting than it may have, which connects right after a further
/// one was intercepted, is handed what waited before and that one; and the next message is then the
/// only one that waits.
pub proof fn law_connecting_starts_afresh(
    before: Map<PublicKey, Seq<OnionMessage>>,
    peer: PublicKey,
    first: OnionMessage,
    between: Map<PublicKey, Seq<OnionMessage>>,
    second: OnionMessage,
    after: Map<PublicKey, Seq<OnionMessage>>,
)
    requires
        before.dom().finite(),
        before.len() <= MAX_PEERS,
        before.contains_key(peer),
        before[peer].len() < MAX_MESSAGES_PER_PEER,
        intercepted(before, peer, first, between),
        intercepted(emptied(between, peer), peer, second, after),
    ensures
        waiting(between, peer) == before[peer].push(first),
        waiting(after, peer) == seq![second],
        after == before.insert(peer, seq![second]),
{
    law_interception_with_room(before, peer, first, between);
    law_connecting_hands_out_everything(between, peer);
    let connected = emptied(between, peer);
    assert(connected.dom() =~= before.dom());
    law_interception_with_room(connected, peer, second, after);
    assert(Seq::<OnionMessage>::empty().push(second) =~= seq![second]);
    assert(after =~= before.insert(peer, seq![second]));
}

/// The limits are a hundred messages for each peer, and a hundred peers.
pub proof fn law_limits_are_a_hundred()
    ensures
        MAX_MESSAGES_PER_PEER == 100,
        MAX_PEERS == 100,
{
}

/// A peer that connects again is handed nothing, unless messages came in between.
pub proof fn law_messages_are_handed_out_once(
    mailbox: Map<PublicKey, Seq<OnionMessage>>,
    peer: PublicKey,
)
    ensures
        waiting(emptied(mailbox, peer), peer) == Seq::<OnionMessage>::empty(),
        emptied(emptied(mailbox, peer), peer) == emptied(mailbox, peer),
{
    assert(emptied(emptied(mailbox, peer), peer) =~= emptied(mailbox, peer));
}

/// A peer's connecting leaves the messages of every other peer, and the set of known peers, alone.
pub proof fn law_connecting_concerns_one_peer(
    mailbox: Map<PublicKey, Seq<OnionMessage>>,
    peer: PublicKey,
    other: PublicKey,
)
    requires
        other != peer,
    ensures
        waiting(emptied(mailbox, peer), other) == waiting(mailbox, other),
        emptied(mailbox, peer).dom() == mailbox.dom(),
{
    assert(emptied(mailbox, peer).dom() =~= mailbox.dom());
}

/// A message for one peer changes nothing that waits for another, except that the other may be
/// dropped with all that waits for it. That happens only where the message is for a peer that is
/// not known and for which there is no room.
pub proof fn law_interception_concerns_one_peer(
    before: Map<PublicKey, Seq<OnionMessage>>,
    peer: PublicKey,
    message: OnionMessage,
    after: Map<PublicKey, Seq<OnionMessage>>,
    other: PublicKey,
)
    requires
        within_limits(before),
        intercepted(before, peer, message, after),
        other != peer,
    ensures
        after.contains_key(other) ==> before.contains_key(other) && after[other] == before[other],
        before.contains_key(peer) || before.len() < MAX_PEERS ==> after.contains_key(other)
            == before.contains_key(other),
{
    lemma_queued_dom(before, peer, message);
}

/// A message for a peer that there is no room for drops exactly one peer: one that no peer had
/// more messages waiting than, the newcomer with its one message included.
pub proof fn law_longest_queue_is_evicted(
    before: Map<PublicKey, Seq<OnionMessage>>,
    peer: PublicKey,
    message: OnionMessage,
    after: Map<PublicKey, Seq<OnionMessage>>,
) -> (evicted: PublicKey)
    requires
        before.dom().finite(),
        intercepted(before, peer, message, after),
        !before.contains_key(peer),
        before.len() == MAX_PEERS,
    ensures
        after == before.insert(peer, seq![message]).remove(evicted),
        after.dom() == before.dom().insert(peer).remove(evicted),
        before.dom().insert(peer).contains(evicted),
        after.len() == MAX_PEERS,
        evicted != peer ==> before[evicted].len() >= 1 && forall|other: PublicKey| #[trigger]
            before.contains_key(other) ==> before[other].len() <= before[evicted].len(),
        evicted == peer ==> forall|other: PublicKey| #[trigger]
            before.contains_key(other) ==> before[other].len() <= 1,
{
    let full = queued(before, peer, message);
    lemma_queued_dom(before, peer, message);
    let evicted = choose|evicted: PublicKey| #[trigger]
        has_longest_queue(full, evicted) && after == full.remove(evicted);
    assert(after.dom() =~= full.dom().remove(evicted));
    assert(full.contains_key(peer) && full[peer] =~= seq![message]);
    assert(full[peer].len() == 1);
    assert(full =~= before.insert(peer, seq![message]));
    assert forall|other: PublicKey| #[trigger] before.contains_key(other) implies before[other].len()
        <= full[evicted].len() by {
        assert(full.contains_key(other));
    }
    evicted
}

/// Putting a message into a queue that holds the latest of some messages gives the latest of
/// those messages and the new one.
proof fn lemma_enqueued_latest(messages: Seq<OnionMessage>, message: OnionMessage)
    ensures
        enqueued(latest(messages), message) == latest(messages.push(message)),
{
    assert(enqueued(latest(messages), message) =~= latest(messages.push(message)));
}

/// The messages of any interleaving for no more peers than there is room for are all sorted out
/// right: each peer is handed the latest of its own messages, in the order of their arrival, up to
/// the limit.
pub proof fn law_latest_messages_arrive_in_order(
    events: Seq<(PublicKey, OnionMessage)>,
    after: Map<PublicKey, Seq<OnionMessage>>,
)
    requires
        intercepted_all(Map::empty(), events, after),
        peers_in(events).len() <= MAX_PEERS,
    ensures
        after.dom() == peers_in(events),
        forall|peer: PublicKey| #[trigger]
            waiting(after, peer) == latest(messages_for(events, peer)),
    decreases events.len(),
{
    lemma_peers_in_finite(events);
    if events.len() == 0 {
        assert(after.dom() =~= peers_in(events));
    } else {
        let earlier = events.drop_last();
        let peer = events.last().0;
        let message = events.last().1;
        let nobody = Map::<PublicKey, Seq<OnionMessage>>::empty();
        let between = choose|between: Map<PublicKey, Seq<OnionMessage>>|
            {
                &&& intercepted_all(nobody, events.drop_last(), between)
                &&& #[trigger] intercepted(between, events.last().0, events.last().1, after)
            };
        lemma_peers_in_finite(earlier);
        law_latest_messages_arrive_in_order(earlier, between);
        lemma_queued_dom(between, peer, message);
        assert(after == queued(between, peer, message));
        assert forall|other: PublicKey| #[trigger] waiting(after, other) == latest(
            messages_for(events, other),
        ) by {
            assert(waiting(between, other) == latest(messages_for(earlier, other)));
            if other == peer {
                lemma_enqueued_latest(messages_for(earlier, peer), message);
            }
        }
    }
}

/// Finitely many events are for finitely many peers.
proof fn lemma_peers_in_finite(events: Seq<(PublicKey, OnionMessage)>)
    ensures
        peers_in(events).finite(),
    decreases events.len(),
{
    if events.len() > 0 {
        lemma_peers_in_finite(events.drop_last());
    }
}

} // verus!
