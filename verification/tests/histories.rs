//! Sharing and taking in history bundles.

use matrix_crypto_core::history::{built_bundle, check_offer, found_offer, report_bundle_import,
    BuiltBundle, SenderData};
use matrix_crypto_core::registry::ToDeviceMessage;
use matrix_crypto_core::requests::Part;
use matrix_crypto_core::{build_history_bundle, offered_history_bundle, receive_history_bundle,
    share_history_bundle, HistoryBundle, HistoryError, HistoryImport, HistoryOffer, MachineError,
    RequestState, SessionError, Trip};

const BAD_SCOPE: &str = "not-a-valid-scope";
const BAD_USER: &str = "not-a-valid-user";
const GOOD_SCOPE: &str = "!scope:example.org";
const GOOD_USER: &str = "@entrant:example.org";

const FILE: &str = r#"{"url":"mxc://example.org/bundle","v":"v2",
    "key":{"kty":"oct","alg":"A256CTR","ext":true,
    "k":"Voq2nkPme_x8no5-Tjq_laDAdxE6iDbxnlQXxwFPgE4","key_ops":["decrypt","encrypt"]},
    "iv":"i0DovxYdJEcAAAAAAAAAAA",
    "hashes":{"sha256":"ANdt819a8bZl4jKy3Z+jcqtiNICa2y0AW4BBJ/iQRAU"}}"#;

#[test]
fn an_unparseable_scope_is_an_identifier_fault_in_every_call() {
    for error in [
        build_history_bundle(BAD_SCOPE).err(),
        share_history_bundle(BAD_SCOPE, GOOD_USER, "{}").err(),
        offered_history_bundle(BAD_SCOPE, GOOD_USER).err(),
        receive_history_bundle(BAD_SCOPE, GOOD_USER, "{}").err(),
    ] {
        assert_eq!(error, Some(HistoryError::MalformedIdentifier));
    }
}

#[test]
fn an_unparseable_user_is_an_identifier_fault_too() {
    for error in [
        share_history_bundle(GOOD_SCOPE, BAD_USER, "{}").err(),
        offered_history_bundle(GOOD_SCOPE, BAD_USER).err(),
        receive_history_bundle(GOOD_SCOPE, BAD_USER, "{}").err(),
    ] {
        assert_eq!(error, Some(HistoryError::MalformedIdentifier));
    }
}

#[test]
fn a_file_description_that_is_not_one_is_a_payload_fault() {
    let error = share_history_bundle(GOOD_SCOPE, GOOD_USER, "not json").err();
    assert_eq!(error, Some(HistoryError::MalformedPayload));
}

#[test]
fn a_bundle_that_is_not_one_is_a_payload_fault() {
    let error = receive_history_bundle(GOOD_SCOPE, GOOD_USER, "not json").err();
    assert_eq!(error, Some(HistoryError::MalformedPayload));
}

#[test]
fn json_of_the_wrong_shape_is_refused_as_a_payload() {
    let error =
        share_history_bundle(GOOD_SCOPE, GOOD_USER, r#"{"not":"an encrypted file"}"#).err();
    assert_eq!(error, Some(HistoryError::MalformedPayload));
}

#[test]
fn an_error_never_echoes_the_bundle_that_caused_it() {
    let secret_like_bundle = "super-secret-session-key-marker";
    let rendered = receive_history_bundle(GOOD_SCOPE, GOOD_USER, secret_like_bundle)
        .err()
        .unwrap()
        .message();

    assert!(
        !rendered.contains(secret_like_bundle),
        "rendered error must not contain the bundle: {rendered}"
    );
}

#[test]
fn the_session_conversion_keeps_an_identifier_fault_an_identifier_fault() {
    assert_eq!(
        HistoryError::from(SessionError::MalformedIdentifier),
        HistoryError::MalformedIdentifier
    );
    assert_eq!(
        HistoryError::from(SessionError::MalformedPayload),
        HistoryError::Failed
    );
}

#[test]
fn what_parses_is_passed_on() {
    assert_eq!(build_history_bundle(GOOD_SCOPE).unwrap(), GOOD_SCOPE);
    let call = share_history_bundle(GOOD_SCOPE, GOOD_USER, FILE).ok().unwrap();
    assert_eq!(call.room_id, GOOD_SCOPE);
    assert_eq!(call.user_id, GOOD_USER);
    assert_eq!(call.file_json, FILE);
    let ids = offered_history_bundle(GOOD_SCOPE, GOOD_USER).ok().unwrap();
    assert_eq!((ids.room_id.as_str(), ids.user_id.as_str()), (GOOD_SCOPE, GOOD_USER));
}

#[test]
fn a_bundle_with_nothing_in_it_is_a_bundle() {
    let call = receive_history_bundle(GOOD_SCOPE, GOOD_USER, r#"{"room_keys":[],"withheld":[]}"#)
        .ok()
        .unwrap();
    assert_eq!(call.room_id, GOOD_SCOPE);
    assert_eq!(call.user_id, GOOD_USER);
    assert_eq!(call.offered, 0);
    assert_eq!(call.bundle_json, r#"{"room_keys":[],"withheld":[]}"#);
    assert_eq!(
        report_bundle_import(&call, Trip::Done(0)),
        Ok(HistoryImport { offered: 0, imported: 0 })
    );
    assert_eq!(report_bundle_import(&call, Trip::Refused), Err(HistoryError::Failed));
    assert_eq!(
        report_bundle_import(&call, Trip::NoMachine),
        Err(HistoryError::NotInitialised)
    );
}

#[test]
fn only_a_device_its_owner_signed_is_trusted() {
    assert_eq!(check_offer(Trip::Done(Some(SenderData::SenderVerified))), Ok(()));
    assert_eq!(check_offer(Trip::Done(Some(SenderData::SenderUnverified))), Ok(()));
    for sender in [
        SenderData::UnknownDevice,
        SenderData::DeviceInfo,
        SenderData::VerificationViolation,
    ] {
        assert_eq!(
            check_offer(Trip::Done(Some(sender))),
            Err(HistoryError::SenderNotTrusted)
        );
    }
    assert_eq!(check_offer(Trip::Done(None)), Err(HistoryError::NoOffer));
    assert_eq!(check_offer(Trip::Refused), Err(HistoryError::Failed));
    assert_eq!(check_offer(Trip::NoMachine), Err(HistoryError::NotInitialised));
}

#[test]
fn a_built_bundle_is_counted() {
    let built = BuiltBundle { room_keys: 2, withheld: 1, json: Some("{}".to_string()) };
    assert_eq!(
        built_bundle(Trip::Done(built)),
        Ok(HistoryBundle { json: "{}".to_string(), shared: 2, withheld: 1 })
    );
    let built = BuiltBundle { room_keys: 2, withheld: 1, json: None };
    assert_eq!(built_bundle(Trip::Done(built)), Err(HistoryError::Failed));
    assert_eq!(built_bundle(Trip::Refused), Err(HistoryError::Failed));
    assert_eq!(built_bundle(Trip::NoMachine), Err(HistoryError::NotInitialised));
}

#[test]
fn an_offer_is_handed_on_or_there_is_none() {
    assert_eq!(found_offer(Trip::Done(None)), Ok(None));
    assert_eq!(
        found_offer(Trip::Done(Some(Some(FILE.to_string())))),
        Ok(Some(HistoryOffer { file_json: FILE.to_string() }))
    );
    assert_eq!(found_offer(Trip::Done(Some(None))), Err(HistoryError::Failed));
    assert_eq!(found_offer(Trip::Refused), Err(HistoryError::Failed));
    assert_eq!(found_offer(Trip::NoMachine), Err(HistoryError::NotInitialised));
}

#[test]
fn the_messages_about_a_bundle_are_queued() {
    let mut state = RequestState::new();
    assert_eq!(
        state.record_bundle_share(Trip::NoMachine),
        Err(HistoryError::NotInitialised)
    );
    assert_eq!(state.record_bundle_share(Trip::Refused), Err(HistoryError::Failed));
    let message = ToDeviceMessage {
        id: "about-a-bundle".to_string(),
        request: Part::Json("{}".to_string()),
    };
    assert_eq!(state.record_bundle_share(Trip::Done(vec![message])), Ok(()));
    let out = state
        .take_outgoing_requests("@alice:example.org", &Vec::new())
        .unwrap();
    assert_eq!(out.len(), 1);
    assert_eq!(out[0].id, "about-a-bundle");
    assert_eq!(out[0].kind, "to_device");
    assert_eq!(out[0].body, "{}");
}

#[test]
fn without_a_machine_a_history_call_says_so() {
    assert_eq!(
        HistoryError::from(MachineError::UnknownFlow),
        HistoryError::NotInitialised
    );
    assert_eq!(
        HistoryError::NoOffer.message(),
        "no bundle has been offered by that sender for that scope"
    );
}
