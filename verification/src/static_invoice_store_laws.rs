//! What holds of the store of static invoices over several calls.
use vstd::prelude::*;

use lightning::io::Error;
use lightning::offers::static_invoice::StaticInvoice;

use crate::hex_utils::{hex, hex_digit, law_hex_is_injective, law_hex_reads_back};
use crate::outside::{sha256_digest, static_invoice_bytes, static_invoice_rejection};
use crate::persistence::{StoreChange, StoreOperation};
use crate::static_invoice_store::{
    answers, invoice_place, recipient_namespace, slot_bytes, slot_key, write_at, Place,
    StaticInvoiceError, StoreLocation,
};

verus! {

/// What a key-value store holds after `change`.
pub open spec fn applied(contents: Map<Place, Seq<u8>>, change: StoreChange) -> Map<
    Place,
    Seq<u8>,
> {
    match change {
        StoreChange::Write { primary_namespace, secondary_namespace, key, value } => {
            contents.insert(Place { primary_namespace, secondary_namespace, key }, value)
        },
        StoreChange::Remove { primary_namespace, secondary_namespace, key } => {
            contents.remove(Place { primary_namespace, secondary_namespace, key })
        },
    }
}

/// Whether `c` can stand in a namespace or a key: it is a digit or a lower-case letter up to `f`.
pub open spec fn is_hex_char(c: char) -> bool {
    '0' <= c <= '9' || 'a' <= c <= 'f'
}

/// The bytes of a slot are the number of the slot, the high byte first.
pub proof fn law_slot_bytes_are_the_slot(invoice_slot: u16)
    ensures
        slot_bytes(invoice_slot).len() == 2,
        slot_bytes(invoice_slot)[0] * 256 + slot_bytes(invoice_slot)[1] == invoice_slot,
{
}

/// The key of a slot is the number of the slot in four hexadecimal digits, the most significant one
/// first.
pub proof fn law_key_is_the_slot_in_hex(invoice_slot: u16)
    ensures
        slot_key(invoice_slot).len() == 4,
        ({
            let worth = |c: char|
                if c <= '9' {
                    c as int - '0' as int
                } else {
                    c as int - 'a' as int + 10
                };
            let key = slot_key(invoice_slot);
            worth(key[0]) * 4096 + worth(key[1]) * 256 + worth(key[2]) * 16 + worth(key[3])
                == invoice_slot
        }),
        forall|i: int|
            0 <= i < 4 ==> ('0' <= #[trigger] slot_key(invoice_slot)[i] <= '9' || 'a' <= slot_key(
                invoice_slot,
            )[i] <= 'f'),
{
    law_slot_bytes_are_the_slot(invoice_slot);
    law_hex_reads_back(slot_bytes(invoice_slot), 0);
    law_hex_reads_back(slot_bytes(invoice_slot), 1);
    law_keys_are_short_text(invoice_slot);
}

/// A higher slot has the higher key, digit by digit: where two keys differ first, the higher slot
/// has the higher digit.
pub proof fn law_keys_are_ordered_as_slots(a: u16, b: u16, i: int)
    requires
        0 <= i < 4,
        forall|j: int| 0 <= j < i ==> #[trigger] slot_key(a)[j] == slot_key(b)[j],
        slot_key(a)[i] < slot_key(b)[i],
    ensures
        a < b,
{
    law_key_is_the_slot_in_hex(a);
    law_key_is_the_slot_in_hex(b);
    let ka = slot_key(a);
    let kb = slot_key(b);
    assert('0' <= ka[0] <= '9' || 'a' <= ka[0] <= 'f');
    assert('0' <= ka[1] <= '9' || 'a' <= ka[1] <= 'f');
    assert('0' <= ka[2] <= '9' || 'a' <= ka[2] <= 'f');
    assert('0' <= ka[3] <= '9' || 'a' <= ka[3] <= 'f');
    assert('0' <= kb[0] <= '9' || 'a' <= kb[0] <= 'f');
    assert('0' <= kb[1] <= '9' || 'a' <= kb[1] <= 'f');
    assert('0' <= kb[2] <= '9' || 'a' <= kb[2] <= 'f');
    assert('0' <= kb[3] <= '9' || 'a' <= kb[3] <= 'f');
    assert(i == 0 || ka[0] == kb[0]);
    assert(i <= 1 || ka[1] == kb[1]);
    assert(i <= 2 || ka[2] == kb[2]);
}

/// The secondary namespace of a recipient is read, two hexadecimal digits at a time, as the bytes
/// of the digest.
pub proof fn law_namespace_is_the_digest_in_hex(digest: Seq<u8>, i: int)
    requires
        0 <= i < digest.len(),
    ensures
        recipient_namespace(digest).len() == 2 * digest.len(),
        ({
            let worth = |c: char|
                if c <= '9' {
                    c as int - '0' as int
                } else {
                    c as int - 'a' as int + 10
                };
            let namespace = recipient_namespace(digest);
            worth(namespace[2 * i]) * 16 + worth(namespace[2 * i + 1]) == digest[i]
        }),
{
    law_hex_reads_back(digest, i);
}

/// The place of an invoice: all are in one primary namespace, each recipient has the secondary
/// namespace of the digest of its id, and the key is that of the slot.
pub proof fn law_place_is_recipient_and_slot(invoice_slot: u16, recipient_id: Seq<u8>)
    ensures
        invoice_place(invoice_slot, recipient_id).primary_namespace == "static_invoices"@,
        invoice_place(invoice_slot, recipient_id).secondary_namespace == recipient_namespace(
            sha256_digest(recipient_id),
        ),
        invoice_place(invoice_slot, recipient_id).key == slot_key(invoice_slot),
{
}

/// A place is what the location says, field by field.
pub proof fn law_place_is_what_the_location_says(location: StoreLocation)
    ensures
        location@.primary_namespace == location.primary_namespace@,
        location@.secondary_namespace == location.secondary_namespace@,
        location@.key == location.key@,
{
}

/// What is persisted for a recipient and a slot is written under the very names under which a
/// request for that recipient and slot reads.
pub proof fn law_requests_read_where_invoices_are_written(
    location: StoreLocation,
    operation: StoreOperation,
    invoice_slot: u16,
    recipient_id: Seq<u8>,
    bytes: Seq<u8>,
)
    requires
        location@ == invoice_place(invoice_slot, recipient_id),
        operation@ == write_at(invoice_place(invoice_slot, recipient_id), bytes),
    ensures
        operation matches StoreOperation::Write {
            primary_namespace,
            secondary_namespace,
            key,
            value,
        } && primary_namespace@ == location.primary_namespace@ && secondary_namespace@
            == location.secondary_namespace@ && key@ == location.key@ && value@ == bytes,
{
}

/// A request is answered with an invoice exactly where the key-value store gave bytes that are one,
/// and then with an invoice of those bytes. Bytes that are none are answered with the parser's
/// reason, and an error of the key-value store is handed on.
pub proof fn law_answer_follows_the_store(
    read: Result<Seq<u8>, Error>,
    answer: Result<Option<StaticInvoice>, StaticInvoiceError>,
)
    requires
        answers(read, answer),
    ensures
        read is Ok && static_invoice_rejection(read->Ok_0) is None <==> answer is Ok,
        read is Ok && answer is Ok ==> (answer matches Ok(Some(invoice)) && static_invoice_bytes(
            invoice,
        ) == read->Ok_0),
        read is Ok && answer is Err ==> (answer matches Err(
            StaticInvoiceError::InvalidInvoice(text),
        ) && static_invoice_rejection(read->Ok_0) == Some(text@)),
        read is Err ==> (answer matches Err(StaticInvoiceError::Store(e)) && e == read->Err_0),
{
}

/// Each slot of a recipient has a key of its own.
pub proof fn law_slots_have_different_keys(a: u16, b: u16)
    requires
        slot_key(a) == slot_key(b),
    ensures
        a == b,
{
    law_hex_is_injective(slot_bytes(a), slot_bytes(b));
    assert(slot_bytes(a)[0] == slot_bytes(b)[0]);
    assert(slot_bytes(a)[1] == slot_bytes(b)[1]);
}

/// Two invoices have the same place only where they are for the same slot and their recipients'
/// ids have the same digest.
pub proof fn law_places_are_kept_apart(
    slot_a: u16,
    recipient_a: Seq<u8>,
    slot_b: u16,
    recipient_b: Seq<u8>,
)
    ensures
        invoice_place(slot_a, recipient_a) == invoice_place(slot_b, recipient_b) <==> slot_a
            == slot_b && sha256_digest(recipient_a) == sha256_digest(recipient_b),
{
    if invoice_place(slot_a, recipient_a) == invoice_place(slot_b, recipient_b) {
        law_slots_have_different_keys(slot_a, slot_b);
        law_hex_is_injective(sha256_digest(recipient_a), sha256_digest(recipient_b));
    }
}

/// A key has four hexadecimal digits.
pub proof fn law_keys_are_short_text(invoice_slot: u16)
    ensures
        slot_key(invoice_slot).len() == 4,
        forall|i: int| 0 <= i < 4 ==> is_hex_char(#[trigger] slot_key(invoice_slot)[i]),
{
    lemma_hex_chars(slot_bytes(invoice_slot));
}

/// The secondary namespace of a recipient has two hexadecimal digits for each byte of the digest.
pub proof fn law_namespaces_are_short_text(digest: Seq<u8>)
    ensures
        recipient_namespace(digest).len() == 2 * digest.len(),
        forall|i: int|
            0 <= i < 2 * digest.len() ==> is_hex_char(#[trigger] recipient_namespace(digest)[i]),
{
    lemma_hex_chars(digest);
}

/// Hexadecimal text is made of hexadecimal digits.
proof fn lemma_hex_chars(bytes: Seq<u8>)
    ensures
        hex(bytes).len() == 2 * bytes.len(),
        forall|i: int| 0 <= i < 2 * bytes.len() ==> is_hex_char(#[trigger] hex(bytes)[i]),
{
    assert forall|n: int| 0 <= n < 16 implies is_hex_char(#[trigger] hex_digit(n)) by {}
    assert forall|i: int| 0 <= i < 2 * bytes.len() implies is_hex_char(#[trigger] hex(bytes)[i]) by {
        let byte = bytes[i / 2] as int;
        assert(0 <= byte / 16 < 16 && 0 <= byte % 16 < 16);
    }
}

/// A request for the slot in which an invoice was persisted last is answered with that invoice:
/// with one that is written as the same bytes. This is said of every invoice that is parsed again
/// from the bytes that it is written as.
pub proof fn law_persisted_invoice_is_returned(
    contents: Map<Place, Seq<u8>>,
    invoice: StaticInvoice,
    invoice_slot: u16,
    recipient_id: Seq<u8>,
    answer: Result<Option<StaticInvoice>, StaticInvoiceError>,
)
    requires
        static_invoice_rejection(static_invoice_bytes(invoice)) is None,
        ({
            let place = invoice_place(invoice_slot, recipient_id);
            let after = applied(contents, write_at(place, static_invoice_bytes(invoice)));
            answers(Ok(after[place]), answer)
        }),
    ensures
        answer matches Ok(Some(found)) && static_invoice_bytes(found) == static_invoice_bytes(
            invoice,
        ),
{
}

/// An invoice that a request was answered with is parsed again from the bytes that it is written
/// as: persisted elsewhere, it is returned from there.
pub proof fn law_returned_invoice_can_be_persisted(
    read: Result<Seq<u8>, Error>,
    answer: Result<Option<StaticInvoice>, StaticInvoiceError>,
)
    requires
        answers(read, answer),
        answer is Ok,
    ensures
        answer matches Ok(Some(found)) && static_invoice_rejection(static_invoice_bytes(found))
            is None,
{
}

/// Persisting an invoice leaves alone what is stored for every other slot, and for every recipient
/// whose id has another digest.
pub proof fn law_persisting_concerns_one_place(
    contents: Map<Place, Seq<u8>>,
    invoice: StaticInvoice,
    invoice_slot: u16,
    recipient_id: Seq<u8>,
    other_slot: u16,
    other_recipient: Seq<u8>,
)
    requires
        other_slot != invoice_slot || sha256_digest(other_recipient) != sha256_digest(recipient_id),
    ensures
        ({
            let place = invoice_place(invoice_slot, recipient_id);
            let other = invoice_place(other_slot, other_recipient);
            let after = applied(contents, write_at(place, static_invoice_bytes(invoice)));
            &&& after.contains_key(other) == contents.contains_key(other)
            &&& after[other] == contents[other]
        }),
{
    law_places_are_kept_apart(invoice_slot, recipient_id, other_slot, other_recipient);
}

/// A request is never answered with "no invoice": there is an invoice or an error.
pub proof fn law_request_finds_an_invoice_or_fails(
    read: Result<Seq<u8>, Error>,
    answer: Result<Option<StaticInvoice>, StaticInvoiceError>,
)
    requires
        answers(read, answer),
    ensures
        answer != Ok::<Option<StaticInvoice>, StaticInvoiceError>(None),
        read is Err ==> answer is Err,
{
}

} // verus!
