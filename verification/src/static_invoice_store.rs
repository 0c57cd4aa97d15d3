//! The store of static invoices that a node serves on behalf of recipients which are offline.
//!
//! A call is answered in steps. First a rate limiter is asked whether the recipient may go on, then
//! the key-value store is read or written. Both are asked by the caller, who hands the answers in.
use vstd::prelude::*;
use vstd::string::*;

use lightning::io::Error;
use lightning::offers::static_invoice::StaticInvoice;

use crate::errors::ErrorKind;
use crate::hex_utils;
use crate::hex_utils::hex;
use crate::outside::{
    hash_sha256, parse_static_invoice, sha256_digest, static_invoice_bytes,
    static_invoice_rejection, write_static_invoice,
};
use crate::persistence::{StoreChange, StoreOperation};

verus! {

/// The namespace of all static invoices. They are stored at
/// `static_invoices/<sha256(recipient_id)>/<invoice_slot>`, for example at
/// `static_invoices/039058c6f2c0cb492c533b0a4d14ef77cc0f78abccced5287d84a1a2011cfb81/001f`.
pub const PRIMARY_NAMESPACE: &'static str = "static_invoices";

/// The bucket capacity of the rate limiters.
pub const RATE_LIMITER_BUCKET_CAPACITY: u32 = 5;

/// The refill interval of the rate limiters, in milliseconds.
pub const RATE_LIMITER_REFILL_INTERVAL_MILLIS: u64 = 100;

/// The longest idle time of the rate limiters, in seconds.
pub const RATE_LIMITER_MAX_IDLE_SECS: u64 = 600;

/// What a rate limiter is set up with.
#[derive(Clone, Copy, PartialEq, Eq, Structural, Debug)]
pub struct RateLimiterSettings {
    pub capacity: u32,
    pub refill_interval_millis: u64,
    pub max_idle_secs: u64,
}

/// The two rate limiters. They know nothing of each other.
#[derive(Clone, Copy, PartialEq, Eq, Structural, Debug)]
pub enum RateLimiterKind {
    /// The one that is asked when an invoice is requested.
    Request,
    /// The one that is asked when an invoice is to be persisted.
    Persist,
}

/// Why a call was not served.
pub enum StaticInvoiceError {
    /// The rate limiter refused the recipient.
    RateLimitExceeded,
    /// What is stored is no static invoice. The parser's error says why.
    InvalidInvoice(String),
    /// The key-value store failed, with this error.
    Store(Error),
}

impl StaticInvoiceError {
    /// The kind and the text of the error. There are none where the error is one of the key-value
    /// store, which stands for itself.
    pub fn describe(&self) -> (description: Option<(ErrorKind, String)>)
        ensures
            match *self {
                StaticInvoiceError::RateLimitExceeded => {
                    &&& description matches Some((kind, text))
                    &&& kind == ErrorKind::Other
                    &&& text@ == "Rate limit exceeded"@
                },
                StaticInvoiceError::InvalidInvoice(reason) => {
                    &&& description matches Some((kind, text))
                    &&& kind == ErrorKind::InvalidData
                    &&& text@ == "Failed to parse static invoice: "@ + reason@
                },
                StaticInvoiceError::Store(_) => description is None,
            },
    {
        match self {
            StaticInvoiceError::RateLimitExceeded => {
                Some((ErrorKind::Other, "Rate limit exceeded".to_owned()))
            },
            StaticInvoiceError::InvalidInvoice(reason) => {
                let mut text = "Failed to parse static invoice: ".to_owned();
                text.append(reason.as_str());
                Some((ErrorKind::InvalidData, text))
            },
            StaticInvoiceError::Store(_) => None,
        }
    }
}

/// The two bytes of an invoice slot, the high one first.
pub open spec fn slot_bytes(invoice_slot: u16) -> Seq<u8> {
    seq![(invoice_slot / 256) as u8, (invoice_slot % 256) as u8]
}

/// The secondary namespace of a recipient whose id has the given digest.
pub open spec fn recipient_namespace(digest: Seq<u8>) -> Seq<char> {
    hex(digest)
}

/// The key of an invoice slot.
pub open spec fn slot_key(invoice_slot: u16) -> Seq<char> {
    hex(slot_bytes(invoice_slot))
}

/// Where in the key-value store something is.
pub struct StoreLocation {
    pub primary_namespace: String,
    pub secondary_namespace: String,
    pub key: String,
}

/// A [`StoreLocation`] as plain sequences.
pub struct Place {
    pub primary_namespace: Seq<char>,
    pub secondary_namespace: Seq<char>,
    pub key: Seq<char>,
}

impl View for StoreLocation {
    type V = Place;

    open spec fn view(&self) -> Place {
        Place {
            primary_namespace: self.primary_namespace@,
            secondary_namespace: self.secondary_namespace@,
            key: self.key@,
        }
    }
}

/// The place of the invoice in slot `invoice_slot` of the recipient `recipient_id`.
pub open spec fn invoice_place(invoice_slot: u16, recipient_id: Seq<u8>) -> Place {
    Place {
        primary_namespace: PRIMARY_NAMESPACE@,
        secondary_namespace: recipient_namespace(sha256_digest(recipient_id)),
        key: slot_key(invoice_slot),
    }
}

/// The change to the key-value store that puts `value` at `place`.
pub open spec fn write_at(place: Place, value: Seq<u8>) -> StoreChange {
    StoreChange::Write {
        primary_namespace: place.primary_namespace,
        secondary_namespace: place.secondary_namespace,
        key: place.key,
        value,
    }
}

/// Whether `answer` is what a request is answered with, when the key-value store gave `read`: the
/// invoice, the parser's error, or the store's error. It is never that there is no invoice.
pub open spec fn answers(
    read: Result<Seq<u8>, Error>,
    answer: Result<Option<StaticInvoice>, StaticInvoiceError>,
) -> bool {
    match read {
        Ok(data) => match static_invoice_rejection(data) {
            None => answer matches Ok(Some(invoice)) && static_invoice_bytes(invoice) == data,
            Some(reason) => answer matches Err(StaticInvoiceError::InvalidInvoice(text)) && text@
                == reason,
        },
        Err(e) => answer == Err::<Option<StaticInvoice>, StaticInvoiceError>(
            StaticInvoiceError::Store(e),
        ),
    }
}

/// Serves and takes in static invoices, at a limited rate for each recipient.
pub struct StaticInvoiceStore {
    request_rate_limiter: RateLimiterSettings,
    persist_rate_limiter: RateLimiterSettings,
}

impl StaticInvoiceStore {
    /// How the rate limiter of each kind is set up.
    pub closed spec fn settings(&self, kind: RateLimiterKind) -> RateLimiterSettings {
        match kind {
            RateLimiterKind::Request => self.request_rate_limiter,
            RateLimiterKind::Persist => self.persist_rate_limiter,
        }
    }

    /// A store with two rate limiters of the same settings.
    pub fn new() -> (store: Self)
        ensures
            forall|kind: RateLimiterKind| #[trigger]
                store.settings(kind) == (RateLimiterSettings {
                    capacity: RATE_LIMITER_BUCKET_CAPACITY,
                    refill_interval_millis: RATE_LIMITER_REFILL_INTERVAL_MILLIS,
                    max_idle_secs: RATE_LIMITER_MAX_IDLE_SECS,
                }),
            forall|kind: RateLimiterKind| #[trigger]
                store.settings(kind) == (RateLimiterSettings {
                    capacity: 5,
                    refill_interval_millis: 100,
                    max_idle_secs: 600,
                }),
    {
        Self {
            request_rate_limiter: RateLimiterSettings {
                capacity: RATE_LIMITER_BUCKET_CAPACITY,
                refill_interval_millis: RATE_LIMITER_REFILL_INTERVAL_MILLIS,
                max_idle_secs: RATE_LIMITER_MAX_IDLE_SECS,
            },
            persist_rate_limiter: RateLimiterSettings {
                capacity: RATE_LIMITER_BUCKET_CAPACITY,
                refill_interval_millis: RATE_LIMITER_REFILL_INTERVAL_MILLIS,
                max_idle_secs: RATE_LIMITER_MAX_IDLE_SECS,
            },
        }
    }

    /// What to set the rate limiter of each kind up with.
    pub fn rate_limiter(&self, kind: RateLimiterKind) -> (settings: RateLimiterSettings)
        ensures
            settings == self.settings(kind),
    {
        match kind {
            RateLimiterKind::Request => self.request_rate_limiter,
            RateLimiterKind::Persist => self.persist_rate_limiter,
        }
    }

    /// Turns a rate limiter's refusal into an error.
    fn check_rate_limit(allowed: bool) -> (checked: Result<(), StaticInvoiceError>)
        ensures
            checked == if allowed {
                Ok(())
            } else {
                Err(StaticInvoiceError::RateLimitExceeded)
            },
    {
        if !allowed {
            Err(StaticInvoiceError::RateLimitExceeded)
        } else {
            Ok(())
        }
    }

    /// Takes the request of a payer for the invoice in slot `invoice_slot` of `recipient_id`.
    pub fn handle_static_invoice_requested(
        &self,
        recipient_id: Vec<u8>,
        invoice_slot: u16,
    ) -> (request: InvoiceRequest)
        ensures
            request.recipient() == recipient_id@,
            request.slot() == invoice_slot,
    {
        InvoiceRequest { recipient_id, invoice_slot }
    }

    /// Takes an invoice that is to be kept in slot `invoice_slot` of `recipient_id`.
    pub fn handle_persist_static_invoice(
        &self,
        invoice: StaticInvoice,
        invoice_slot: u16,
        recipient_id: Vec<u8>,
    ) -> (persist: InvoicePersist)
        ensures
            persist.invoice() == invoice,
            persist.slot() == invoice_slot,
            persist.recipient() == recipient_id@,
    {
        InvoicePersist { invoice, invoice_slot, recipient_id }
    }

    /// The secondary namespace and the key of the invoice in slot `invoice_slot` of
    /// `recipient_id`.
    pub fn get_storage_location(
        invoice_slot: u16,
        recipient_id: Vec<u8>,
    ) -> (location: (String, String))
        ensures
            location.0@ == recipient_namespace(sha256_digest(recipient_id@)),
            location.0@.len() == 64,
            location.1@ == slot_key(invoice_slot),
    {
        let hash = hash_sha256(recipient_id.as_slice());
        Self::storage_location_of_digest(invoice_slot, &hash)
    }

    /// The secondary namespace and the key of the invoice in slot `invoice_slot` of the recipient
    /// whose id has the digest `hash`.
    pub fn storage_location_of_digest(
        invoice_slot: u16,
        hash: &[u8; 32],
    ) -> (location: (String, String))
        ensures
            location.0@ == recipient_namespace(hash@),
            location.1@ == slot_key(invoice_slot),
    {
        let secondary_namespace = hex_utils::to_string(hash);
        let slot: [u8; 2] = [(invoice_slot / 256) as u8, (invoice_slot % 256) as u8];
        assert(slot@ =~= slot_bytes(invoice_slot));
        let key = hex_utils::to_string(&slot);
        (secondary_namespace, key)
    }

    /// Where the invoice in slot `invoice_slot` of `recipient_id` is.
    fn locate(invoice_slot: u16, recipient_id: Vec<u8>) -> (location: StoreLocation)
        ensures
            location@ == invoice_place(invoice_slot, recipient_id@),
            location.primary_namespace@ == "static_invoices"@,
            location.secondary_namespace@ == recipient_namespace(sha256_digest(recipient_id@)),
            location.secondary_namespace@.len() == 64,
            location.key@ == slot_key(invoice_slot),
    {
        let (secondary_namespace, key) = Self::get_storage_location(invoice_slot, recipient_id);
        StoreLocation {
            primary_namespace: PRIMARY_NAMESPACE.to_owned(),
            secondary_namespace,
            key,
        }
    }
}

/// A request that waits for the answer of a rate limiter.
pub struct InvoiceRequest {
    recipient_id: Vec<u8>,
    invoice_slot: u16,
}

impl InvoiceRequest {
    /// Whose invoice is requested.
    pub closed spec fn recipient(&self) -> Seq<u8> {
        self.recipient_id@
    }

    /// The slot that is requested.
    pub closed spec fn slot(&self) -> u16 {
        self.invoice_slot
    }

    /// The rate limiter to ask, and the recipient to ask it about.
    pub fn rate_limit(&self) -> (question: (RateLimiterKind, &Vec<u8>))
        ensures
            question.0 == RateLimiterKind::Request,
            question.1@ == self.recipient(),
    {
        (RateLimiterKind::Request, &self.recipient_id)
    }

    /// Goes on once the rate limiter has answered: to what is to be read from the key-value store.
    /// What came of that goes to [`InvoiceRequest::finish`].
    pub fn proceed(self, allowed: bool) -> (location: Result<StoreLocation, StaticInvoiceError>)
        ensures
            match location {
                Ok(location) => {
                    &&& allowed
                    &&& location@ == invoice_place(self.slot(), self.recipient())
                    &&& location.primary_namespace@ == "static_invoices"@
                    &&& location.secondary_namespace@ == recipient_namespace(
                        sha256_digest(self.recipient()),
                    )
                    &&& location.secondary_namespace@.len() == 64
                    &&& location.key@ == slot_key(self.slot())
                },
                Err(e) => !allowed && e == StaticInvoiceError::RateLimitExceeded,
            },
    {
        match StaticInvoiceStore::check_rate_limit(allowed) {
            Ok(_) => Ok(StaticInvoiceStore::locate(self.invoice_slot, self.recipient_id)),
            Err(e) => Err(e),
        }
    }

    /// The answer to the request, from what the key-value store gave.
    pub fn finish(
        read: Result<Vec<u8>, Error>,
    ) -> (answer: Result<Option<StaticInvoice>, StaticInvoiceError>)
        ensures
            answers(
                match read {
                    Ok(data) => Ok(data@),
                    Err(e) => Err(e),
                },
                answer,
            ),
            match read {
                Ok(data) => {
                    &&& answer is Ok <==> static_invoice_rejection(data@) is None
                    &&& match answer {
                        Ok(Some(invoice)) => static_invoice_bytes(invoice) == data@,
                        Ok(None) => false,
                        Err(StaticInvoiceError::InvalidInvoice(text)) => static_invoice_rejection(
                            data@,
                        ) == Some(text@),
                        Err(_) => false,
                    }
                },
                Err(e) => answer == Err::<Option<StaticInvoice>, StaticInvoiceError>(
                    StaticInvoiceError::Store(e),
                ),
            },
    {
        match read {
            Ok(data) => Self::finish_parsed(parse_static_invoice(data)),
            Err(e) => Err(StaticInvoiceError::Store(e)),
        }
    }

    /// The answer to the request, from what the parser made of the stored bytes.
    pub fn finish_parsed(
        parsed: Result<StaticInvoice, String>,
    ) -> (answer: Result<Option<StaticInvoice>, StaticInvoiceError>)
        ensures
            answer == (match parsed {
                Ok(invoice) => Ok(Some(invoice)),
                Err(text) => Err(StaticInvoiceError::InvalidInvoice(text)),
            }),
    {
        match parsed {
            Ok(invoice) => Ok(Some(invoice)),
            Err(text) => Err(StaticInvoiceError::InvalidInvoice(text)),
        }
    }
}

/// An invoice to be kept, that waits for the answer of a rate limiter.
pub struct InvoicePersist {
    invoice: StaticInvoice,
    invoice_slot: u16,
    recipient_id: Vec<u8>,
}

impl InvoicePersist {
    /// The invoice.
    pub closed spec fn invoice(&self) -> StaticInvoice {
        self.invoice
    }

    /// Whose invoice it is.
    pub closed spec fn recipient(&self) -> Seq<u8> {
        self.recipient_id@
    }

    /// The slot that it is for.
    pub closed spec fn slot(&self) -> u16 {
        self.invoice_slot
    }

    /// The rate limiter to ask, and the recipient to ask it about.
    pub fn rate_limit(&self) -> (question: (RateLimiterKind, &Vec<u8>))
        ensures
            question.0 == RateLimiterKind::Persist,
            question.1@ == self.recipient(),
    {
        (RateLimiterKind::Persist, &self.recipient_id)
    }

    /// Goes on once the rate limiter has answered: to the write that keeps the invoice. What the
    /// key-value store says to it is the answer.
    pub fn proceed(self, allowed: bool) -> (write: Result<StoreOperation, StaticInvoiceError>)
        ensures
            match write {
                Ok(operation) => {
                    &&& allowed
                    &&& operation@ == write_at(
                        invoice_place(self.slot(), self.recipient()),
                        static_invoice_bytes(self.invoice()),
                    )
                    &&& operation matches StoreOperation::Write {
                        primary_namespace,
                        secondary_namespace,
                        key,
                        value,
                    }
                    &&& primary_namespace@ == "static_invoices"@
                    &&& secondary_namespace@ == recipient_namespace(
                        sha256_digest(self.recipient()),
                    )
                    &&& secondary_namespace@.len() == 64
                    &&& key@ == slot_key(self.slot())
                    &&& value@ == static_invoice_bytes(self.invoice())
                },
                Err(e) => !allowed && e == StaticInvoiceError::RateLimitExceeded,
            },
    {
        match StaticInvoiceStore::check_rate_limit(allowed) {
            Ok(_) => {},
            Err(e) => {
                return Err(e);
            },
        }
        let location = StaticInvoiceStore::locate(self.invoice_slot, self.recipient_id);
        match write_static_invoice(&self.invoice) {
            Ok(value) => Ok(
                StoreOperation::Write {
                    primary_namespace: location.primary_namespace,
                    secondary_namespace: location.secondary_namespace,
                    key: location.key,
                    value,
                },
            ),
            Err(e) => Err(StaticInvoiceError::Store(e)),
        }
    }
}

} // verus!
