//! What holds of attachments.

use vstd::prelude::*;

use crate::attachment::{announced, deciphered, decrypt_attachment, encrypt_attachment, hash_of,
    report, AttachmentError, OpenFault, SealedAttachment};
use crate::json::raw_text;

verus! {

/// What was sealed opens to exactly what went in. Sealing always succeeds, and what
/// is uploaded is as long as what was given. Any other bytes that are held against
/// the secret are not what was announced, unless they have the same hash.
pub proof fn law_sealing_and_opening_an_attachment(
    plaintext: &[u8],
    sealed: Result<SealedAttachment, AttachmentError>,
    ciphertext: &[u8],
    secret: &str,
    opened: Result<Vec<u8>, AttachmentError>,
)
    requires
        call_ensures(encrypt_attachment, (plaintext,), sealed),
        sealed is Ok ==> secret@ == sealed->Ok_0.secret@,
        call_ensures(decrypt_attachment, (ciphertext, secret), opened),
    ensures
        sealed is Ok,
        sealed->Ok_0.ciphertext@.len() == plaintext@.len(),
        ciphertext@ == sealed->Ok_0.ciphertext@ ==> (opened matches Ok(bytes) && bytes@
            == plaintext@),
        hash_of(ciphertext@) != hash_of(sealed->Ok_0.ciphertext@) ==> opened is Err && opened->Err_0
            == AttachmentError::NotWhatWasAnnounced,
{
}

/// What opening an attachment comes to: a secret that is not JSON, or that announces
/// no hash, is malformed whatever the bytes are; bytes with another hash are not what
/// was announced; any others are deciphered, all of them.
pub proof fn law_what_opening_an_attachment_comes_to(
    ciphertext: &[u8],
    secret: &str,
    opened: Result<Vec<u8>, AttachmentError>,
)
    requires
        call_ensures(decrypt_attachment, (ciphertext, secret), opened),
    ensures
        raw_text(secret@) is None || announced(secret@) is Err ==> opened is Err && opened->Err_0
            == AttachmentError::MalformedSecret,
        raw_text(secret@) is Some ==> (announced(secret@) matches Ok(hash) ==> {
            &&& hash != hash_of(ciphertext@) ==> opened is Err && opened->Err_0
                == AttachmentError::NotWhatWasAnnounced
            &&& hash == hash_of(ciphertext@) ==> (opened matches Ok(bytes) && bytes@ == deciphered(
                ciphertext@,
                secret@,
            ) && bytes@.len() == ciphertext@.len())
        }),
{
}

/// Bytes with the wrong hash are the bytes' fault, and everything else is the
/// secret's.
pub proof fn law_whose_fault_a_locked_attachment_is(fault: OpenFault, error: AttachmentError)
    requires
        call_ensures(report, (fault,), error),
    ensures
        fault is Hash ==> error == AttachmentError::NotWhatWasAnnounced,
        fault is Form || fault is Substance ==> error == AttachmentError::MalformedSecret,
{
}

} // verus!
