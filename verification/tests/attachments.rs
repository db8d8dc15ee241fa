//! Sealing and opening attachments.

use matrix_crypto_core::attachment::{report, OpenFault};
use matrix_crypto_core::{decrypt_attachment, encrypt_attachment, AttachmentError};

const PLAINTEXT: &[u8] = b"a photograph, or something shaped like one";

#[test]
fn what_is_uploaded_is_not_what_was_given() {
    let sealed = encrypt_attachment(PLAINTEXT).unwrap();
    assert_ne!(
        sealed.ciphertext, PLAINTEXT,
        "the bytes to upload must not be the plaintext"
    );
    assert!(
        !sealed.secret.is_empty(),
        "a secret is needed to open it again"
    );
}

#[test]
fn a_round_trip_gives_back_exactly_what_went_in() {
    let sealed = encrypt_attachment(PLAINTEXT).unwrap();
    let opened = decrypt_attachment(&sealed.ciphertext, &sealed.secret).unwrap();
    assert_eq!(opened, PLAINTEXT);
}

#[test]
fn an_empty_attachment_round_trips_rather_than_failing() {
    let sealed = encrypt_attachment(b"").unwrap();
    let opened = decrypt_attachment(&sealed.ciphertext, &sealed.secret).unwrap();
    assert!(opened.is_empty());
}

#[test]
fn every_call_draws_a_new_key() {
    let once = encrypt_attachment(PLAINTEXT).unwrap();
    let twice = encrypt_attachment(PLAINTEXT).unwrap();
    assert_ne!(
        once.ciphertext, twice.ciphertext,
        "the same bytes encrypted twice must not give the same ciphertext"
    );
    assert_ne!(once.secret, twice.secret);
}

#[test]
fn one_changed_byte_is_refused_as_not_what_was_announced() {
    let sealed = encrypt_attachment(PLAINTEXT).unwrap();
    let mut tampered = sealed.ciphertext.clone();
    tampered[0] ^= 0x01;
    assert_eq!(
        decrypt_attachment(&tampered, &sealed.secret),
        Err(AttachmentError::NotWhatWasAnnounced),
        "a tampered ciphertext must be named as such, not as a generic failure"
    );
}

#[test]
fn a_truncated_download_is_refused_too() {
    let sealed = encrypt_attachment(PLAINTEXT).unwrap();
    let short = &sealed.ciphertext[..sealed.ciphertext.len() - 1];
    assert_eq!(
        decrypt_attachment(short, &sealed.secret),
        Err(AttachmentError::NotWhatWasAnnounced)
    );
}

#[test]
fn a_secret_that_is_not_json_is_refused_as_malformed() {
    let sealed = encrypt_attachment(PLAINTEXT).unwrap();
    assert_eq!(
        decrypt_attachment(&sealed.ciphertext, "not json"),
        Err(AttachmentError::MalformedSecret)
    );
}

#[test]
fn a_secret_from_another_attachment_is_refused() {
    let mine = encrypt_attachment(PLAINTEXT).unwrap();
    let theirs = encrypt_attachment(b"a different file").unwrap();
    assert_eq!(
        decrypt_attachment(&mine.ciphertext, &theirs.secret),
        Err(AttachmentError::NotWhatWasAnnounced)
    );
}

#[test]
fn the_ciphertext_is_as_long_as_the_plaintext() {
    let sealed = encrypt_attachment(PLAINTEXT).unwrap();
    assert_eq!(sealed.ciphertext.len(), PLAINTEXT.len());
}

#[test]
fn a_known_secret_opens_what_it_was_made_for() {
    let ciphertext: [u8; 26] = [
        179, 154, 118, 127, 186, 127, 110, 33, 203, 33, 33, 134, 67, 100, 173, 46, 235, 27, 215,
        172, 36, 26, 75, 47, 33, 160,
    ];
    let secret = r#"{"v":"v2","key":{"kty":"oct","alg":"A256CTR","ext":true,
        "k":"Voq2nkPme_x8no5-Tjq_laDAdxE6iDbxnlQXxwFPgE4","key_ops":["decrypt","encrypt"]},
        "iv":"i0DovxYdJEcAAAAAAAAAAA",
        "hashes":{"sha256":"ANdt819a8bZl4jKy3Z+jcqtiNICa2y0AW4BBJ/iQRAU"}}"#;
    assert_eq!(
        decrypt_attachment(&ciphertext, secret).unwrap(),
        b"It's a secret to everybody"
    );
}

#[test]
fn a_secret_without_a_hash_is_malformed() {
    let secret = r#"{"v":"v2","key":{"kty":"oct","alg":"A256CTR","ext":true,
        "k":"Voq2nkPme_x8no5-Tjq_laDAdxE6iDbxnlQXxwFPgE4","key_ops":["decrypt","encrypt"]},
        "iv":"i0DovxYdJEcAAAAAAAAAAA","hashes":{}}"#;
    assert_eq!(
        decrypt_attachment(b"anything", secret),
        Err(AttachmentError::MalformedSecret)
    );
}

#[test]
fn only_the_hash_speaks_of_the_bytes() {
    assert_eq!(report(OpenFault::Form), AttachmentError::MalformedSecret);
    assert_eq!(report(OpenFault::Substance), AttachmentError::MalformedSecret);
    assert_eq!(report(OpenFault::Hash), AttachmentError::NotWhatWasAnnounced);
}
