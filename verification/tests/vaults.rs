//! Sealing and opening key vaults.

use matrix_crypto_core::vault::{report_vault_import, seal_keys, KeyExportFault, ROUNDS};
use matrix_crypto_core::{create_key_vault, open_key_vault, BackupImport, MachineError, Trip,
    VaultError};
use matrix_sdk_crypto::vodozemac::{base64_decode, base64_encode};

/// A vault that another client wrote, under the passphrase `1234`.
const VAULT: &str = "\
    -----BEGIN MEGOLM SESSION DATA-----\n\
    Af7mGhlzQ+eGvHu93u0YXd3D/+vYMs3E7gQqOhuCtkvGAAAAASH7pEdWvFyAP1JUisAcpEo\n\
    Xke2Q7Kr9hVl/SCc6jXBNeJCZcrUbUV4D/tRQIl3E9L4fOk928YI1J+3z96qiH0uE7hpsCI\n\
    CkHKwjPU+0XTzFdIk1X8H7sZ+MD/2Sg/q3y8rtUjz7uEj4GUTnb+9SCOTVmJsRfqgUpM1CU\n\
    bDLytHf1JkohY4tWEgpsCc67xdzgodjr12qYrfg/zNm3LGpxlrffJknw4rk5QFTj4kMbqbD\n\
    ZZgDTni+HxRTDGge2J620lMOiznvXX+H09Rwruqx5aJvvaaKd86jWRpiO2oSFqHn4u5ONl9\n\
    41uzm62Sj0eIm6ZbA9NQs87jQw4LxsejhZVL+NdjIg80zVSBTWhTdo0DTnbFSNP4ReOiz0U\n\
    XosOF8A5T8Vdx2nvA0GXltfcHKVKQYh/LJAkNQ7P9UYL4ae/5TtQZkhB1KxCLTRWqADCl53\n\
    uBMGpG53EMgY6G6K2DEIOkcv7sdXQF5WpemiSWZqJRWj+cjfs9BpCTbkp/rszWFl2TniWpR\n\
    RqIbT2jORlN4rTvdtF0F4z1pqP4qWyR3sLNTkXm9CFRzWADNG0RDZKxbCoo6RPvtaCTfaHo\n\
    SwfvzBS6CjfAG+FOugpV48o7+XetaUUPZ6/tZSPhCdeV8eP9q5r0QwWeXFogzoNzWt4HYx9\n\
    MdXxzD+f0mtg5gzehrrEEARwI2bCvPpHxlt/Na9oW/GBpkjwR1LSKgg4CtpRyWngPjdEKpZ\n\
    GYW19pdjg0qdXNk/eqZsQTsNWVo6A\n\
    -----END MEGOLM SESSION DATA-----\
";

fn framed(payload: &str) -> String {
    format!("-----BEGIN MEGOLM SESSION DATA-----\n{payload}\n-----END MEGOLM SESSION DATA-----")
}

#[test]
fn a_vault_is_the_format_every_client_reads() {
    let vault = create_key_vault("a passphrase", Trip::NoMachine);

    assert_eq!(
        vault,
        Err(VaultError::NotInitialised),
        "without a machine there are no keys to put in a file, and that is \
         not a passphrase problem"
    );
}

#[test]
fn a_file_that_is_not_a_vault_is_told_apart_from_a_passphrase_that_is_wrong() {
    assert_eq!(
        VaultError::from(KeyExportFault::InvalidMac),
        VaultError::WrongPassphrase
    );
    assert_eq!(
        VaultError::from(KeyExportFault::InvalidHeaders),
        VaultError::MalformedPayload
    );
    assert_eq!(
        VaultError::from(KeyExportFault::UnsupportedVersion),
        VaultError::MalformedPayload
    );
}

#[test]
fn a_vault_that_opens_onto_something_that_is_not_keys_is_not_a_passphrase_fault() {
    assert_eq!(
        VaultError::from(KeyExportFault::Json),
        VaultError::MalformedPayload
    );
}

#[test]
fn nothing_that_is_not_the_format_gets_as_far_as_the_passphrase() {
    for input in ["", "not a vault", "-----BEGIN SOMETHING ELSE-----"] {
        assert_eq!(
            open_key_vault(input, "a passphrase"),
            Err(VaultError::MalformedPayload),
            "{input:?} is not a vault and must be refused as one"
        );
    }
}

#[test]
fn an_error_never_echoes_the_passphrase_or_the_file() {
    let passphrase = "correct-horse-battery-staple-marker";
    let vault = "-----BEGIN MEGOLM SESSION DATA-----\nmarker\n-----END MEGOLM SESSION DATA-----";

    let rendered = open_key_vault(vault, passphrase).unwrap_err().message();

    assert!(
        !rendered.contains(passphrase) && !rendered.contains("marker"),
        "rendered error must carry neither the passphrase nor the file: {rendered}"
    );
}

#[test]
fn every_other_fault_is_one_of_the_file() {
    for fault in [KeyExportFault::InvalidUtf8, KeyExportFault::Decode, KeyExportFault::Io] {
        assert_eq!(VaultError::from(fault), VaultError::MalformedPayload);
    }
}

#[test]
fn a_vault_of_another_client_opens() {
    let keys = open_key_vault(VAULT, "1234").unwrap();
    assert_eq!(keys.len(), 1);
    let key: serde_json::Value = serde_json::from_str(&keys[0]).unwrap();
    assert_eq!(key["algorithm"], "m.megolm.v1.aes-sha2");
}

#[test]
fn a_vault_does_not_open_to_another_passphrase() {
    assert_eq!(
        open_key_vault(VAULT, "12345"),
        Err(VaultError::WrongPassphrase)
    );
}

#[test]
fn what_is_put_into_a_vault_comes_out_of_it() {
    let keys = open_key_vault(VAULT, "1234").unwrap();
    let vault = seal_keys("another passphrase", &keys, 1).unwrap();
    assert!(vault.starts_with("-----BEGIN MEGOLM SESSION DATA-----"));
    assert!(vault.ends_with("-----END MEGOLM SESSION DATA-----"));
    assert_ne!(vault, VAULT);
    assert_eq!(open_key_vault(&vault, "another passphrase"), Ok(keys));
    assert_eq!(open_key_vault(&vault, "1234"), Err(VaultError::WrongPassphrase));
}

#[test]
fn a_vault_with_nothing_in_it_opens() {
    let vault = seal_keys("a passphrase", &Vec::new(), 1).unwrap();
    assert_eq!(open_key_vault(&vault, "a passphrase"), Ok(Vec::new()));
}

#[test]
fn what_is_not_an_exported_key_is_not_sealed() {
    assert_eq!(
        create_key_vault("a passphrase", Trip::Done(vec!["{}".to_string()])),
        Err(VaultError::Failed)
    );
    assert_eq!(
        create_key_vault("a passphrase", Trip::Refused),
        Err(VaultError::Failed)
    );
}

#[test]
fn a_vault_with_no_room_for_keys_has_another_passphrase() {
    // Forty bytes: a version of one, and zeros.
    let forty = format!("AQAA{}", "A".repeat(50));
    assert_eq!(
        open_key_vault(&framed(&forty), "a passphrase"),
        Err(VaultError::WrongPassphrase)
    );
    assert_eq!(
        open_key_vault(&format!("\n{}\n\n", framed(&forty)), "a passphrase"),
        Err(VaultError::WrongPassphrase)
    );
}

#[test]
fn a_file_with_no_room_for_keys_that_is_no_vault_is_malformed() {
    let unknown_version = format!("AgAA{}", "A".repeat(50));
    assert_eq!(
        open_key_vault(&framed(&unknown_version), "a passphrase"),
        Err(VaultError::MalformedPayload)
    );
    let unframed = format!("AQAA{}", "A".repeat(50));
    assert_eq!(
        open_key_vault(&unframed, "a passphrase"),
        Err(VaultError::MalformedPayload)
    );
}

#[test]
fn a_file_that_is_too_short_is_malformed() {
    // Thirty-six bytes.
    assert_eq!(
        open_key_vault(&framed(&format!("AQAA{}", "A".repeat(44))), "a passphrase"),
        Err(VaultError::MalformedPayload)
    );
}

#[test]
fn an_import_from_a_vault_reports_what_was_offered_and_what_was_new() {
    assert_eq!(
        report_vault_import(4, Trip::Done(3)),
        Ok(BackupImport { offered: 4, imported: 3 })
    );
    assert_eq!(report_vault_import(4, Trip::Refused), Err(VaultError::Failed));
    assert_eq!(
        report_vault_import(4, Trip::NoMachine),
        Err(VaultError::NotInitialised)
    );
    assert_eq!(
        VaultError::from(MachineError::NotInitialised),
        VaultError::NotInitialised
    );
}

#[test]
fn the_passphrase_is_stretched_half_a_million_times() {
    assert_eq!(ROUNDS, 500_000);
}

#[test]
fn a_vault_says_how_often_its_passphrase_is_stretched() {
    let vault = seal_keys("a passphrase", &Vec::new(), 258).unwrap();
    let payload: String = vault.lines().filter(|line| !line.starts_with("-----")).collect();
    let bytes = base64_decode(payload).unwrap();
    assert_eq!(bytes[33..37], [0, 0, 1, 2]);
}

#[test]
fn white_space_around_a_vault_is_what_unicode_says_it_is() {
    let vault = framed(&format!("AQAA{}", "A".repeat(50)));
    for c in (0..0x3100).filter_map(char::from_u32) {
        let expected = if c.is_whitespace() {
            VaultError::WrongPassphrase
        } else {
            VaultError::MalformedPayload
        };
        assert_eq!(open_key_vault(&format!("{vault}{c}"), "a passphrase"), Err(expected), "{c:?}");
    }
}

#[test]
fn a_vault_whose_code_was_changed_has_another_passphrase() {
    let vault = seal_keys("a passphrase", &Vec::new(), 1).unwrap();
    let payload: String = vault.lines().filter(|line| !line.starts_with("-----")).collect();
    let mut bytes = base64_decode(payload).unwrap();
    let last = bytes.len() - 1;
    bytes[last] ^= 1;
    assert_eq!(
        open_key_vault(&framed(&base64_encode(bytes)), "a passphrase"),
        Err(VaultError::WrongPassphrase)
    );
}
