use bitcoin::secp256k1::{PublicKey, Secp256k1, SecretKey};
use lightning::blinded_path::message::BlindedMessagePath;
use lightning::blinded_path::payment::{BlindedPayInfo, BlindedPaymentPath};
use lightning::blinded_path::BlindedHop;
use lightning::ln::inbound_payment::ExpandedKey;
use lightning::offers::nonce::Nonce;
use lightning::offers::offer::OfferBuilder;
use lightning::offers::static_invoice::{StaticInvoice, StaticInvoiceBuilder};
use lightning::sign::EntropySource;
use lightning::types::features::BlindedHopFeatures;
use lightning::util::ser::Writeable;

use node_store::errors::ErrorKind;
use node_store::hex_utils;
use node_store::persistence::StoreOperation;
use node_store::static_invoice_store::{
    InvoiceRequest, RateLimiterKind, RateLimiterSettings, StaticInvoiceError,
    StaticInvoiceStore,
};

struct FixedEntropy;

impl EntropySource for FixedEntropy {
    fn get_secure_random_bytes(&self) -> [u8; 32] {
        [42; 32]
    }
}

fn pubkey(byte: u8) -> PublicKey {
    let secret = SecretKey::from_slice(&[byte; 32]).unwrap();
    PublicKey::from_secret_key(&Secp256k1::new(), &secret)
}

fn hops() -> Vec<BlindedHop> {
    vec![
        BlindedHop { blinded_node_id: pubkey(42), encrypted_payload: vec![0; 43] },
        BlindedHop { blinded_node_id: pubkey(43), encrypted_payload: vec![0; 44] },
    ]
}

fn invoice_with(created_at: u64, message_hops: Vec<BlindedHop>) -> StaticInvoice {
    let expanded_key = ExpandedKey::new([42; 32]);
    let nonce = Nonce::from_entropy_source(&FixedEntropy);
    let secp_ctx = Secp256k1::new();
    let path = BlindedMessagePath::from_blinded_path(pubkey(40), pubkey(41), hops());
    let offer = OfferBuilder::deriving_signing_pubkey(pubkey(43), &expanded_key, nonce, &secp_ctx)
        .path(path)
        .build()
        .unwrap();
    let payment_path = BlindedPaymentPath::from_blinded_path_and_payinfo(
        pubkey(40),
        pubkey(41),
        hops(),
        BlindedPayInfo {
            fee_base_msat: 1,
            fee_proportional_millionths: 1_000,
            cltv_expiry_delta: 42,
            htlc_minimum_msat: 100,
            htlc_maximum_msat: 1_000_000_000_000,
            features: BlindedHopFeatures::empty(),
        },
    );
    StaticInvoiceBuilder::for_offer_using_derived_keys(
        &offer,
        vec![payment_path],
        vec![BlindedMessagePath::from_blinded_path(pubkey(40), pubkey(41), message_hops)],
        std::time::Duration::from_secs(created_at),
        &expanded_key,
        nonce,
        &secp_ctx,
    )
    .unwrap()
    .build_and_sign(&secp_ctx)
    .unwrap()
}

fn invoice(created_at: u64) -> StaticInvoice {
    invoice_with(created_at, hops())
}

#[test]
fn hex_is_lower_case_and_padded() {
    assert_eq!(hex_utils::to_string(&[]), "");
    assert_eq!(hex_utils::to_string(&[0x00, 0x1f, 0xa0, 0xff]), "001fa0ff");
    assert_eq!(
        hex_utils::to_string(&[0x01, 0x23, 0x45, 0x67, 0x89, 0xab, 0xcd, 0xef]),
        "0123456789abcdef"
    );
}

#[test]
fn storage_location_of_the_example() {
    let (namespace, key) = StaticInvoiceStore::get_storage_location(0x1f, vec![1, 2, 3]);
    assert_eq!(namespace, "039058c6f2c0cb492c533b0a4d14ef77cc0f78abccced5287d84a1a2011cfb81");
    assert_eq!(key, "001f");
}

#[test]
fn storage_location_of_no_bytes() {
    let (namespace, key) = StaticInvoiceStore::get_storage_location(u16::MAX, vec![]);
    assert_eq!(namespace, "e3b0c44298fc1c149afbf4c8996fb92427ae41e4649b934ca495991b7852b855");
    assert_eq!(key, "ffff");
}

#[test]
fn storage_location_of_a_digest() {
    let (namespace, key) = StaticInvoiceStore::storage_location_of_digest(0x1200, &[0xab; 32]);
    assert_eq!(namespace, "ab".repeat(32));
    assert_eq!(key, "1200");
}

#[test]
fn rate_limiters_have_the_same_settings() {
    let store = StaticInvoiceStore::new();
    let settings =
        RateLimiterSettings { capacity: 5, refill_interval_millis: 100, max_idle_secs: 600 };
    assert_eq!(store.rate_limiter(RateLimiterKind::Request), settings);
    assert_eq!(store.rate_limiter(RateLimiterKind::Persist), settings);
}

#[test]
fn request_asks_its_limiter_and_reads() {
    let store = StaticInvoiceStore::new();
    let request = store.handle_static_invoice_requested(vec![1, 2, 3], 31);
    assert_eq!(request.rate_limit(), (RateLimiterKind::Request, &vec![1, 2, 3]));
    let location = request.proceed(true).ok().unwrap();
    assert_eq!(location.primary_namespace, "static_invoices");
    assert_eq!(
        location.secondary_namespace,
        "039058c6f2c0cb492c533b0a4d14ef77cc0f78abccced5287d84a1a2011cfb81"
    );
    assert_eq!(location.key, "001f");
}

#[test]
fn refused_request_does_not_read() {
    let store = StaticInvoiceStore::new();
    let request = store.handle_static_invoice_requested(vec![1, 2, 3], 31);
    let error = request.proceed(false).err().unwrap();
    assert!(matches!(error, StaticInvoiceError::RateLimitExceeded));
    assert_eq!(error.describe(), Some((ErrorKind::Other, "Rate limit exceeded".to_string())));
}

#[test]
fn refused_invoice_is_not_written() {
    let store = StaticInvoiceStore::new();
    let persist = store.handle_persist_static_invoice(invoice(1), 31, vec![1, 2, 3]);
    assert_eq!(persist.rate_limit(), (RateLimiterKind::Persist, &vec![1, 2, 3]));
    let error = persist.proceed(false).err().unwrap();
    assert!(matches!(error, StaticInvoiceError::RateLimitExceeded));
}

#[test]
fn persisted_invoice_is_returned() {
    let store = StaticInvoiceStore::new();
    let invoice = invoice(1_700_000_000);
    let persist = store.handle_persist_static_invoice(invoice.clone(), 31, vec![1, 2, 3]);
    let location =
        store.handle_static_invoice_requested(vec![1, 2, 3], 31).proceed(true).ok().unwrap();
    match persist.proceed(true) {
        Ok(StoreOperation::Write { primary_namespace, secondary_namespace, key, value }) => {
            assert_eq!(primary_namespace, location.primary_namespace);
            assert_eq!(secondary_namespace, location.secondary_namespace);
            assert_eq!(key, location.key);
            assert_eq!(value, invoice.encode());
            let found = InvoiceRequest::finish(Ok(value)).ok().unwrap().unwrap();
            assert_eq!(found, invoice);
        }
        _ => panic!("the invoice is written"),
    }
}

#[test]
fn invoices_are_told_apart() {
    let (first, second) = (invoice(1), invoice(2));
    assert_ne!(first, second);
    let found = InvoiceRequest::finish(Ok(second.encode())).ok().unwrap().unwrap();
    assert_eq!(found, second);
    assert_ne!(found, first);
}

#[test]
fn stored_garbage_is_no_invoice() {
    let error = InvoiceRequest::finish(Ok(vec![1, 2, 3])).err().unwrap();
    let (kind, text) = error.describe().unwrap();
    assert_eq!(kind, ErrorKind::InvalidData);
    assert_eq!(text, "Failed to parse static invoice: Decode(ShortRead)");
}

#[test]
fn changed_invoice_is_no_invoice() {
    let mut bytes = invoice(1).encode();
    let last = bytes.len() - 1;
    bytes[last] ^= 1;
    let error = InvoiceRequest::finish(Ok(bytes)).err().unwrap();
    let text = error.describe().unwrap().1;
    assert!(text.starts_with("Failed to parse static invoice: InvalidSignature("), "{}", text);
}

#[test]
fn invoice_that_is_not_parsed_again_is_not_returned() {
    let invoice = invoice_with(1, vec![]);
    let error = InvoiceRequest::finish(Ok(invoice.encode())).err().unwrap();
    assert!(matches!(error, StaticInvoiceError::InvalidInvoice(_)));
}

#[test]
fn parser_result_is_the_answer() {
    let invoice = invoice(1);
    let answer = InvoiceRequest::finish_parsed(Ok(invoice.clone()));
    assert_eq!(answer.ok().unwrap(), Some(invoice));
    match InvoiceRequest::finish_parsed(Err("reason".to_string())) {
        Err(StaticInvoiceError::InvalidInvoice(text)) => assert_eq!(text, "reason"),
        _ => panic!("the reason is handed on"),
    }
}

#[test]
fn store_error_is_handed_on() {
    let error = lightning::io::Error::new(lightning::io::ErrorKind::NotFound, "gone");
    match InvoiceRequest::finish(Err(error)) {
        Err(e) => {
            assert_eq!(e.describe(), None);
            match e {
                StaticInvoiceError::Store(e) => {
                    assert_eq!(e.kind(), lightning::io::ErrorKind::NotFound)
                }
                _ => panic!("the store's error is handed on"),
            }
        }
        Ok(_) => panic!("there is no invoice"),
    }
}

#[test]
fn locations_are_told_apart() {
    let (namespace, key) = StaticInvoiceStore::get_storage_location(0x0100, vec![1]);
    let (other_namespace, other_key) = StaticInvoiceStore::get_storage_location(0x0001, vec![2]);
    assert_ne!(namespace, other_namespace);
    assert_ne!(key, other_key);
    assert_eq!((namespace.len(), key.len()), (64, 4));
    assert!(namespace.chars().chain(key.chars()).all(|c| matches!(c, '0'..='9' | 'a'..='f')));
    assert_eq!(StaticInvoiceStore::get_storage_location(0x0100, vec![1]), (namespace, key));
}

#[test]
fn returned_invoice_can_be_persisted() {
    let store = StaticInvoiceStore::new();
    let bytes = invoice(5).encode();
    let found = InvoiceRequest::finish(Ok(bytes.clone())).ok().unwrap().unwrap();
    match store.handle_persist_static_invoice(found, 0, vec![]).proceed(true) {
        Ok(StoreOperation::Write { value, .. }) => assert_eq!(value, bytes),
        _ => panic!("the invoice is written"),
    }
}
