//! Attachments: sealing bytes for upload, and opening what was downloaded.

use std::io::Read;

use matrix_sdk_crypto::{AttachmentDecryptor, AttachmentEncryptor};
use vstd::prelude::*;

use crate::json::raw_text;

verus! {

/// Why an attachment was not sealed or opened.
#[derive(Clone, Copy, Debug, PartialEq, Eq, Structural)]
pub enum AttachmentError {
    /// The secret is not one that a sealed attachment comes with.
    MalformedSecret,
    /// The bytes are not the ones the secret was made for.
    NotWhatWasAnnounced,
    /// The attachment could not be sealed.
    Failed,
}

/// A sealed attachment: what to upload, and what opens it again.
#[derive(Clone, PartialEq, Eq)]
pub struct SealedAttachment {
    pub ciphertext: Vec<u8>,
    /// What opens the attachment, as JSON. Whoever has it can read the
    /// attachment.
    pub secret: String,
}

/// Where opening an attachment failed.
#[derive(Clone, Copy, Debug, PartialEq, Eq, Structural)]
pub enum OpenFault {
    /// The secret is not of the form.
    Form,
    /// The secret is of the form and says what cannot be used.
    Substance,
    /// The bytes do not have the hash that the secret gives.
    Hash,
}

/// The hash that the bytes have to have according to a secret, or why the secret
/// gives none.
pub uninterp spec fn announced(secret: Seq<char>) -> Result<Seq<u8>, OpenFault>;

/// The hash of some bytes.
pub uninterp spec fn hash_of(bytes: Seq<u8>) -> Seq<u8>;

/// What some bytes are deciphered to with the key of a secret.
pub uninterp spec fn deciphered(ciphertext: Seq<u8>, secret: Seq<char>) -> Seq<u8>;

/// Seals bytes with `AttachmentEncryptor::new`, its `read_to_end` and its
/// `finish`, and writes the secret with `serde_json::to_string`.
///
/// Trusted: the key is drawn at random. Reading from bytes in memory does not
/// fail, and neither does writing the secret, which is an object of texts. The
/// secret is JSON, and announces the hash of the ciphertext. The ciphertext is as
/// long as the plaintext, and the key of the secret deciphers it to the plaintext.
#[verifier::external_body]
fn seal(plaintext: &[u8]) -> (sealed: Option<SealedAttachment>)
    ensures
        sealed matches Some(sealed) && {
            &&& sealed.ciphertext@.len() == plaintext@.len()
            &&& raw_text(sealed.secret@) is Some
            &&& announced(sealed.secret@) == Ok::<Seq<u8>, OpenFault>(hash_of(sealed.ciphertext@))
            &&& deciphered(sealed.ciphertext@, sealed.secret@) == plaintext@
        },
{
    let mut source = plaintext;
    let mut encryptor = AttachmentEncryptor::new(&mut source);
    let mut ciphertext = Vec::new();
    encryptor.read_to_end(&mut ciphertext).ok()?;
    let secret = serde_json::to_string(&encryptor.finish()).ok()?;
    Some(SealedAttachment { ciphertext, secret })
}

/// Opens bytes with `AttachmentDecryptor::new` and its `read_to_end`, the secret
/// read with `serde_json::from_str`.
///
/// Trusted: the hash that the secret announces, or why it announces none, is a
/// function of the secret alone, named [`announced`]; a secret that is not JSON is
/// not of the form. Bytes with another hash are refused; the hash is SHA-256, named
/// [`hash_of`]. Any others are deciphered, which is a function of the bytes and of
/// the secret alone, named [`deciphered`], and comes out as long as it went in.
#[verifier::external_body]
fn open(ciphertext: &[u8], secret: &str) -> (plaintext: Result<Vec<u8>, OpenFault>)
    ensures
        match plaintext {
            Ok(plaintext) => {
                &&& announced(secret@) == Ok::<Seq<u8>, OpenFault>(hash_of(ciphertext@))
                &&& plaintext@ == deciphered(ciphertext@, secret@)
                &&& plaintext@.len() == ciphertext@.len()
                &&& raw_text(secret@) is Some
            },
            Err(OpenFault::Hash) => {
                &&& announced(secret@) matches Ok(hash) && hash != hash_of(ciphertext@)
                &&& raw_text(secret@) is Some
            },
            Err(fault) => {
                &&& announced(secret@) == Err::<Seq<u8>, OpenFault>(fault)
                &&& raw_text(secret@) is None ==> fault is Form
            },
        },
{
    let info = serde_json::from_str(secret).map_err(|_| OpenFault::Form)?;
    let mut source = ciphertext;
    let decryptor = AttachmentDecryptor::new(&mut source, info);
    let mut decryptor = decryptor.map_err(|_| OpenFault::Substance)?;
    let mut plaintext = Vec::new();
    decryptor.read_to_end(&mut plaintext).map_err(|_| OpenFault::Hash)?;
    Ok(plaintext)
}

/// What a failure to open is reported as.
pub open spec fn open_error(fault: OpenFault) -> AttachmentError {
    match fault {
        OpenFault::Form => AttachmentError::MalformedSecret,
        OpenFault::Substance => AttachmentError::MalformedSecret,
        OpenFault::Hash => AttachmentError::NotWhatWasAnnounced,
    }
}

/// What opening an attachment comes to: the secret is looked at first, and then
/// the bytes are held against the hash that it announces.
pub open spec fn decrypted(ciphertext: Seq<u8>, secret: Seq<char>) -> Result<
    Seq<u8>,
    AttachmentError,
> {
    if raw_text(secret) is None {
        Err(AttachmentError::MalformedSecret)
    } else {
        match announced(secret) {
            Err(_) => Err(AttachmentError::MalformedSecret),
            Ok(hash) => if hash == hash_of(ciphertext) {
                Ok(deciphered(ciphertext, secret))
            } else {
                Err(AttachmentError::NotWhatWasAnnounced)
            },
        }
    }
}

/// Seals bytes for upload under a key drawn for them. What was sealed opens to
/// exactly what went in.
pub fn encrypt_attachment(plaintext: &[u8]) -> (result: Result<SealedAttachment, AttachmentError>)
    ensures
        result matches Ok(sealed) && {
            &&& sealed.ciphertext@.len() == plaintext@.len()
            &&& decrypted(sealed.ciphertext@, sealed.secret@) == Ok::<Seq<u8>, AttachmentError>(
                plaintext@,
            )
        },
{
    match seal(plaintext) {
        Some(sealed) => Ok(sealed),
        None => Err(AttachmentError::Failed),
    }
}

/// Opens what was downloaded. A secret that is none is told apart from bytes
/// that are not the ones it was made for.
pub fn decrypt_attachment(ciphertext: &[u8], secret: &str) -> (result: Result<
    Vec<u8>,
    AttachmentError,
>)
    ensures
        match result {
            Ok(plaintext) => decrypted(ciphertext@, secret@) == Ok::<Seq<u8>, AttachmentError>(
                plaintext@,
            ) && plaintext@.len() == ciphertext@.len(),
            Err(error) => decrypted(ciphertext@, secret@) == Err::<Seq<u8>, AttachmentError>(error),
        },
{
    match open(ciphertext, secret) {
        Ok(plaintext) => Ok(plaintext),
        Err(fault) => Err(report(fault)),
    }
}

/// Reports a failure to open.
pub fn report(fault: OpenFault) -> (error: AttachmentError)
    ensures
        error == open_error(fault),
{
    match fault {
        OpenFault::Form | OpenFault::Substance => AttachmentError::MalformedSecret,
        OpenFault::Hash => AttachmentError::NotWhatWasAnnounced,
    }
}

/// Bytes with another hash than those that a secret opens are not what the secret
/// announced.
pub proof fn law_changed_bytes_are_not_what_was_announced(
    ciphertext: Seq<u8>,
    secret: Seq<char>,
    changed: Seq<u8>,
)
    requires
        decrypted(ciphertext, secret) is Ok,
        hash_of(changed) != hash_of(ciphertext),
    ensures
        decrypted(changed, secret) == Err::<Seq<u8>, AttachmentError>(
            AttachmentError::NotWhatWasAnnounced,
        ),
{
}

/// A secret that is not JSON is malformed, whatever the bytes.
pub proof fn law_a_secret_is_json(ciphertext: Seq<u8>, secret: Seq<char>)
    requires
        raw_text(secret) is None,
    ensures
        decrypted(ciphertext, secret) == Err::<Seq<u8>, AttachmentError>(
            AttachmentError::MalformedSecret,
        ),
{
}

} // verus!
