//! The decisions of a Matrix crypto bridge, stated as contracts and proved.
//!
//! An encryption machine holds the keys; a product carries its requests to the
//! homeserver and hands the answers back. This crate is what stands between
//! the two: which request goes out when, which answer is believed, which
//! failure is reported as which, and how recovery data, backups, vaults,
//! history bundles and attachments are read and written. It never touches a
//! store or a network. Whoever drives the machine hands this crate plain values
//! and acts on the plain values it gets back.

pub mod attachment;
pub mod attachment_laws;
pub mod backup;
pub mod backup_laws;
pub mod batch_laws;
pub mod history;
pub mod history_laws;
pub mod identifiers;
pub mod json;
pub mod ledger;
pub mod machine;
pub mod pump;
pub mod queue_laws;
pub mod recovery;
pub mod recovery_laws;
pub mod registry;
pub mod registry_laws;
pub mod request_laws;
pub mod requests;
pub mod response_laws;
pub mod responses;
pub mod session;
pub mod session_laws;
pub mod state;
pub mod text;
pub mod text_laws;
pub mod vault;
pub mod vault_laws;

pub use attachment::{decrypt_attachment, encrypt_attachment, AttachmentError, SealedAttachment};
pub use backup::{backup_state, create_backup, disable_backup, enable_backup, restore_backup,
    restore_key_matches, BackupError, BackupImport, BackupSetup, BackupState};
pub use history::{build_history_bundle, offered_history_bundle, receive_history_bundle,
    share_history_bundle, HistoryBundle, HistoryError, HistoryImport, HistoryOffer};
pub use machine::{MachineError, Trip};
pub use recovery::{create_recovery, recover_identity, AccountDataEntry, RecoverySetup};
pub use registry::OutgoingRequest;
pub use session::{decrypt_event, encrypt_event, receive_sync_changes, share_scope_key, Envelope,
    SenderTrustRequirement, SenderVerification, SessionError, SyncOutcome};
pub use state::RequestState;
pub use vault::{create_key_vault, open_key_vault, VaultError};
