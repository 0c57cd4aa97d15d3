use bitcoin::key::Secp256k1;
use bitcoin::secp256k1::{PublicKey, SecretKey};
use lightning::ln::msgs::OnionMessage;
use lightning::onion_message;

use node_store::om_mailbox::OnionMessageMailbox;

fn public_key(n: u16) -> PublicKey {
    let mut bytes = [1; 32];
    bytes[0] = (n / 256) as u8;
    bytes[1] = (n % 256) as u8;
    PublicKey::from_secret_key(&Secp256k1::new(), &SecretKey::from_slice(&bytes).unwrap())
}

fn message(n: u16) -> OnionMessage {
    OnionMessage {
        blinding_point: public_key(7),
        onion_routing_packet: onion_message::packet::Packet {
            version: 0,
            public_key: public_key(8),
            hop_data: n.to_be_bytes().to_vec(),
            hmac: [0; 32],
        },
    }
}

#[test]
fn onion_message_mailbox() {
    let mut mailbox = OnionMessageMailbox::new();

    let secp = Secp256k1::new();
    let sk_bytes = [12; 32];
    let sk = SecretKey::from_slice(&sk_bytes).unwrap();
    let peer_node_id = PublicKey::from_secret_key(&secp, &sk);

    let blinding_sk = SecretKey::from_slice(&[13; 32]).unwrap();
    let blinding_point = PublicKey::from_secret_key(&secp, &blinding_sk);

    let message_sk = SecretKey::from_slice(&[13; 32]).unwrap();
    let message_point = PublicKey::from_secret_key(&secp, &message_sk);

    let message = lightning::ln::msgs::OnionMessage {
        blinding_point,
        onion_routing_packet: onion_message::packet::Packet {
            version: 0,
            public_key: message_point,
            hop_data: vec![1, 2, 3],
            hmac: [0; 32],
        },
    };
    mailbox.onion_message_intercepted(peer_node_id, message.clone());

    let messages = mailbox.onion_message_peer_connected(peer_node_id);
    assert_eq!(messages.len(), 1);
    assert_eq!(messages[0], message);

    let messages = mailbox.onion_message_peer_connected(peer_node_id);
    assert_eq!(messages.len(), 0);
}

#[test]
fn unknown_peer_gets_nothing() {
    let mut mailbox = OnionMessageMailbox::new();
    mailbox.onion_message_intercepted(public_key(1), message(1));
    assert_eq!(mailbox.onion_message_peer_connected(public_key(2)), vec![]);
    assert_eq!(mailbox.onion_message_peer_connected(public_key(1)), vec![message(1)]);
}

#[test]
fn messages_of_several_peers_are_told_apart() {
    let mut mailbox = OnionMessageMailbox::new();
    for n in 0..9 {
        mailbox.onion_message_intercepted(public_key(n % 3), message(n));
    }
    assert_eq!(
        mailbox.onion_message_peer_connected(public_key(1)),
        vec![message(1), message(4), message(7)]
    );
    assert_eq!(
        mailbox.onion_message_peer_connected(public_key(0)),
        vec![message(0), message(3), message(6)]
    );
    assert_eq!(
        mailbox.onion_message_peer_connected(public_key(2)),
        vec![message(2), message(5), message(8)]
    );
}

#[test]
fn the_same_key_from_other_bytes_is_the_same_peer() {
    let mut mailbox = OnionMessageMailbox::new();
    let peer = public_key(5);
    mailbox.onion_message_intercepted(peer, message(1));
    let parsed = PublicKey::from_slice(&peer.serialize_uncompressed()).unwrap();
    assert_eq!(mailbox.onion_message_peer_connected(parsed), vec![message(1)]);
}

#[test]
fn full_queue_loses_its_oldest_message() {
    let mut mailbox = OnionMessageMailbox::new();
    for n in 0..103 {
        mailbox.onion_message_intercepted(public_key(1), message(n));
    }
    let messages = mailbox.onion_message_peer_connected(public_key(1));
    assert_eq!(messages.len(), 100);
    assert_eq!(messages[0], message(3));
    assert_eq!(messages[99], message(102));
}

#[test]
fn hundred_messages_fit() {
    let mut mailbox = OnionMessageMailbox::new();
    for n in 0..100 {
        mailbox.onion_message_intercepted(public_key(1), message(n));
    }
    let messages = mailbox.onion_message_peer_connected(public_key(1));
    assert_eq!(messages.len(), 100);
    assert_eq!(messages[0], message(0));
}

#[test]
fn hundred_peers_fit() {
    let mut mailbox = OnionMessageMailbox::new();
    for n in 0..100 {
        mailbox.onion_message_intercepted(public_key(n), message(n));
    }
    for n in 0..100 {
        assert_eq!(mailbox.onion_message_peer_connected(public_key(n)), vec![message(n)]);
    }
}

#[test]
fn longest_queue_makes_room() {
    let mut mailbox = OnionMessageMailbox::new();
    for n in 0..100 {
        mailbox.onion_message_intercepted(public_key(n), message(n));
    }
    mailbox.onion_message_intercepted(public_key(42), message(200));
    mailbox.onion_message_intercepted(public_key(100), message(100));
    assert_eq!(mailbox.onion_message_peer_connected(public_key(42)), vec![]);
    for n in 0..101 {
        if n != 42 {
            assert_eq!(mailbox.onion_message_peer_connected(public_key(n)), vec![message(n)]);
        }
    }
}

#[test]
fn exactly_one_of_equal_queues_makes_room() {
    let mut mailbox = OnionMessageMailbox::new();
    for n in 0..101 {
        mailbox.onion_message_intercepted(public_key(n), message(n));
    }
    let mut gone = 0;
    for n in 0..101 {
        if mailbox.onion_message_peer_connected(public_key(n)).is_empty() {
            gone += 1;
        }
    }
    assert_eq!(gone, 1);
}

#[test]
fn connected_peers_still_take_room() {
    let mut mailbox = OnionMessageMailbox::new();
    for n in 0..100 {
        mailbox.onion_message_intercepted(public_key(n), message(n));
        mailbox.onion_message_peer_connected(public_key(n));
    }
    // All known peers have nothing waiting, so the newcomer has the longest queue.
    mailbox.onion_message_intercepted(public_key(100), message(100));
    assert_eq!(mailbox.onion_message_peer_connected(public_key(100)), vec![]);
    mailbox.onion_message_intercepted(public_key(3), message(3));
    assert_eq!(mailbox.onion_message_peer_connected(public_key(3)), vec![message(3)]);
}
