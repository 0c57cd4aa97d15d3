//! What the library takes from other crates: the types it carries and the calls it makes.
use vstd::prelude::*;

use bitcoin::hashes::sha256;
use bitcoin::secp256k1::PublicKey;
use lightning::io::Error;
use lightning::offers::static_invoice::StaticInvoice;
use lightning::util::ser::Writeable;

verus! {

/// A node's public key: opaque, told apart only by [`same_key`].
#[verifier::external_type_specification]
#[verifier::external_body]
pub struct ExPublicKey(bitcoin::secp256k1::PublicKey);

/// An onion message: carried from the sender to the recipient, never looked into.
#[verifier::external_type_specification]
#[verifier::external_body]
pub struct ExOnionMessage(lightning::ln::msgs::OnionMessage);

/// Compares two public keys with `PartialEq::eq` of `secp256k1::PublicKey`.
///
/// Claimed: the answer is whether both are the same key. The comparison goes over the compressed
/// encodings of the two curve points, and a point has exactly one of them.
#[verifier::external_body]
pub(crate) fn same_key(a: &PublicKey, b: &PublicKey) -> (same: bool)
    ensures
        same == (*a == *b),
{
    a == b
}

/// A static invoice: opaque, known by the bytes that it is written as.
#[verifier::external_type_specification]
#[verifier::external_body]
pub struct ExStaticInvoice(lightning::offers::static_invoice::StaticInvoice);

/// An error of reading or writing: handed on as it is.
#[verifier::external_type_specification]
#[verifier::external_body]
pub struct ExIoError(lightning::io::Error);

/// The SHA-256 digest of `data`.
pub uninterp spec fn sha256_digest(data: Seq<u8>) -> Seq<u8>;

/// Hashes `data` with `bitcoin::hashes::sha256::Hash::hash`.
///
/// Claimed: the 32 bytes depend on `data` alone. What the digest of given data is, is not said.
#[verifier::external_body]
pub(crate) fn hash_sha256(data: &[u8]) -> (digest: [u8; 32])
    ensures
        digest@ == sha256_digest(data@),
{
    let digest = <sha256::Hash as bitcoin::hashes::Hash>::hash(data);
    bitcoin::hashes::Hash::to_byte_array(digest)
}

/// The bytes that a static invoice is written as.
pub uninterp spec fn static_invoice_bytes(invoice: StaticInvoice) -> Seq<u8>;

/// Why `data` is not a static invoice, in the words of the parser's error; `None` where it is one.
pub uninterp spec fn static_invoice_rejection(data: Seq<u8>) -> Option<Seq<char>>;

/// Writes an invoice into memory with `Writeable::write` of `StaticInvoice`.
///
/// Claimed: that succeeds, as writing into a vector does, and the bytes depend on the invoice
/// alone. They are those that the invoice was parsed from or signed with.
#[verifier::external_body]
pub(crate) fn write_static_invoice(invoice: &StaticInvoice) -> (written: Result<Vec<u8>, Error>)
    ensures
        written is Ok,
        written->Ok_0@ == static_invoice_bytes(*invoice),
{
    let mut buf = Vec::new();
    invoice.write(&mut buf)?;
    Ok(buf)
}

/// Parses an invoice with `TryFrom<Vec<u8>>::try_from` of `StaticInvoice`, and gives its error as
/// the text that `Debug` makes of it.
///
/// Claimed: whether `data` is accepted, and the text where it is not, depend on `data` alone, and
/// an invoice that was parsed is written as the bytes that it was parsed from: it keeps them. What
/// data are accepted is not said.
#[verifier::external_body]
pub(crate) fn parse_static_invoice(data: Vec<u8>) -> (parsed: Result<StaticInvoice, String>)
    ensures
        match parsed {
            Ok(invoice) => static_invoice_rejection(data@) is None && static_invoice_bytes(invoice)
                == data@,
            Err(text) => static_invoice_rejection(data@) == Some(text@),
        },
{
    match StaticInvoice::try_from(data) {
        Ok(invoice) => Ok(invoice),
        Err(e) => Err(format!("{:?}", e)),
    }
}

} // verus!
