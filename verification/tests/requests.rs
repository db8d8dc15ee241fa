//! Requests: what is sent, in what order, and which answers are believed.

use matrix_crypto_core::identifiers::{parse_scope, parse_user, parse_users};
use matrix_crypto_core::registry::{OfferedRequest, ToDeviceMessage};
use matrix_crypto_core::requests::{account_scoped, describe_keys_claim, describe_keys_query,
    describe_outgoing, describe_signing_keys, KeysClaimParts, KeysQueryParts, KeysUploadParts,
    MapPart, OutgoingParts, Part, PendingKind, RoomMessageParts, SigningKeysParts};
use matrix_crypto_core::responses::{answer_about_this_account, claims_an_identity,
    is_a_failure_status, is_about_this_account, is_same_master, mark_sent, read_response, refuse_a_non_response,
    AccountReading, AnswerAboutAccount, KeysQueryAnswer, MasterKey, ReadResponse,
    StoredIdentity, Taken};
use matrix_crypto_core::session::{collect_strategy, Claim, CollectStrategy, OwnIdentity,
    ShareOutcome};
use matrix_crypto_core::{Envelope, OutgoingRequest, RequestState, SenderVerification,
    SessionError, Trip};

const ALICE: &str = "@alice:example.org";

const KINDS: [PendingKind; 10] = [
    PendingKind::KeysUpload,
    PendingKind::KeysQuery,
    PendingKind::AccountKeysQuery,
    PendingKind::AccountKeysQueryOutOfBand,
    PendingKind::PeerKeysQueryOutOfBand,
    PendingKind::KeysClaim,
    PendingKind::ToDevice,
    PendingKind::SignatureUpload,
    PendingKind::RoomMessage,
    PendingKind::SigningKeysUpload,
];

fn json(text: &str) -> Part {
    Part::Json(text.to_string())
}

fn message(id: &str) -> ToDeviceMessage {
    ToDeviceMessage { id: id.to_string(), request: json(&format!(r#"{{"id":"{id}"}}"#)) }
}

fn action(id: &str) -> OutgoingParts {
    OutgoingParts::ToDevice(json(&format!(r#"{{"action":"{id}"}}"#)))
}

fn query(users: &[&str]) -> KeysQueryParts {
    let listed: Vec<String> = users.iter().map(|user| format!(r#""{user}":[]"#)).collect();
    KeysQueryParts {
        users: users.iter().map(|user| user.to_string()).collect(),
        device_keys: Part::Json(format!("{{{}}}", listed.join(","))),
        timeout_millis: None,
    }
}

fn claim() -> KeysClaimParts {
    KeysClaimParts { one_time_keys: json("{}"), timeout_millis: Some(10_000) }
}

fn upload() -> OutgoingParts {
    OutgoingParts::KeysUpload(KeysUploadParts {
        device_keys: None,
        one_time_keys: MapPart { entries: 0, json: json("{}") },
        fallback_keys: MapPart { entries: 0, json: json("{}") },
    })
}

fn signing_keys(master: &str) -> SigningKeysParts {
    SigningKeysParts {
        master_key: Some(json(&format!(r#""{master}""#))),
        self_signing_key: None,
        user_signing_key: None,
    }
}

fn offered(id: &str, request: OutgoingParts) -> OfferedRequest {
    OfferedRequest { id: id.to_string(), request }
}

fn take(state: &mut RequestState, offers: Vec<OfferedRequest>) -> Vec<OutgoingRequest> {
    assert!(state.has_places_for(offers.len()));
    state.take_outgoing_requests(ALICE, &offers).unwrap()
}

fn ids(list: &[OutgoingRequest]) -> Vec<&str> {
    list.iter().map(|request| request.id.as_str()).collect()
}

#[test]
fn envelope_and_outgoing_request_debug_output_never_contains_the_secret_fields() {
    let envelope = Envelope {
        scope: "!s:example.org".to_string(),
        algorithm: "m.megolm.v1.aes-sha2".to_string(),
        event_type: "m.room.message".to_string(),
        ciphertext: b"super-secret-ciphertext-marker".to_vec(),
        sender: "@alice:example.org".to_string(),
        sender_verification: Some(SenderVerification::MismatchedSender),
    };
    let rendered = envelope.debug_text();
    assert!(
        !rendered.contains("super-secret-ciphertext-marker"),
        "{rendered}"
    );
    assert!(!rendered.contains("@alice:example.org"), "{rendered}");
    assert!(rendered.contains("!s:example.org"));
    assert!(rendered.contains("m.room.message"));
    assert!(rendered.contains("MismatchedSender"), "{rendered}");

    let request = OutgoingRequest {
        id: "some-transaction-id".to_string(),
        kind: "to_device".to_string(),
        body: r#"{"messages":{"@bob:example.org":{"BOBDEVICE":{"ciphertext":"secret-payload-marker"}}}}"#
            .to_string(),
    };
    let rendered = request.debug_text();
    assert!(!rendered.contains("secret-payload-marker"), "{rendered}");
    assert!(!rendered.contains("@bob:example.org"), "{rendered}");
    assert!(rendered.contains("some-transaction-id"));
    assert!(rendered.contains("to_device"));
}

#[test]
fn what_is_shown_is_shown_as_debug_shows_it() {
    let envelope = Envelope {
        scope: "!a \"b\"".to_string(),
        algorithm: String::new(),
        event_type: "m.x".to_string(),
        ciphertext: vec![0; 120],
        sender: "@alice:example.org".to_string(),
        sender_verification: None,
    };
    assert_eq!(
        envelope.debug_text(),
        r#"Envelope { scope: "!a \"b\"", algorithm: "", event_type: "m.x", ciphertext_len: 120, sender: "[redacted]", sender_verification: None }"#
    );
    let request = OutgoingRequest {
        id: "i".to_string(),
        kind: "to_device".to_string(),
        body: "\u{e9}".to_string(),
    };
    assert_eq!(
        request.debug_text(),
        r#"OutgoingRequest { id: "i", kind: "to_device", body_len: 2 }"#
    );
}

#[test]
fn every_kind_goes_out_under_its_tag() {
    let tags: Vec<&str> = KINDS.iter().map(|kind| kind.tag()).collect();
    assert_eq!(
        tags,
        [
            "keys_upload",
            "keys_query",
            "keys_query",
            "keys_query",
            "keys_query",
            "keys_claim",
            "to_device",
            "signature_upload",
            "room_message",
            "signing_keys_upload",
        ]
    );
}

#[test]
fn only_standing_needs_are_superseded() {
    let groups: Vec<Option<&str>> = KINDS.iter().map(|kind| kind.eviction_group()).collect();
    assert_eq!(
        groups,
        [
            Some("keys_upload"),
            Some("keys_query"),
            Some("keys_query"),
            Some("account_keys_query_out_of_band"),
            None,
            Some("keys_claim"),
            None,
            None,
            None,
            Some("signing_keys_upload"),
        ]
    );
}

#[test]
fn a_response_carries_what_its_endpoint_answers_with() {
    assert_eq!(PendingKind::KeysUpload.declared_response_fields(), ["one_time_key_counts"]);
    assert_eq!(
        PendingKind::KeysQuery.declared_response_fields(),
        ["failures", "device_keys", "master_keys", "self_signing_keys", "user_signing_keys"]
    );
    assert_eq!(PendingKind::KeysClaim.declared_response_fields(), ["failures", "one_time_keys"]);
    assert_eq!(PendingKind::SignatureUpload.declared_response_fields(), ["failures"]);
    assert_eq!(PendingKind::RoomMessage.declared_response_fields(), ["event_id"]);
    assert!(PendingKind::ToDevice.declared_response_fields().is_empty());
    assert!(PendingKind::SigningKeysUpload.declared_response_fields().is_empty());
}

#[test]
fn a_key_upload_leaves_out_what_is_empty() {
    assert_eq!(
        describe_outgoing(&upload()),
        Ok((PendingKind::KeysUpload, "{}".to_string()))
    );
    let full = OutgoingParts::KeysUpload(KeysUploadParts {
        device_keys: Some(json(r#"{"d":1}"#)),
        one_time_keys: MapPart { entries: 1, json: json(r#"{"o":2}"#) },
        fallback_keys: MapPart { entries: 1, json: json(r#"{"f":3}"#) },
    });
    assert_eq!(
        describe_outgoing(&full),
        Ok((
            PendingKind::KeysUpload,
            r#"{"device_keys":{"d":1},"fallback_keys":{"f":3},"one_time_keys":{"o":2}}"#
                .to_string()
        ))
    );
}

#[test]
fn a_key_query_always_names_its_users() {
    assert_eq!(
        describe_keys_query(&query(&[])),
        Ok(r#"{"device_keys":{}}"#.to_string())
    );
    let mut timed = query(&["@bob:example.org"]);
    timed.timeout_millis = Some(1_500);
    assert_eq!(
        describe_keys_query(&timed),
        Ok(r#"{"device_keys":{"@bob:example.org":[]},"timeout":1500}"#.to_string())
    );
}

#[test]
fn a_timeout_is_sent_as_sixty_four_bits_hold_it() {
    let long = KeysClaimParts {
        one_time_keys: json("{}"),
        timeout_millis: Some(u64::MAX as u128 + 1),
    };
    assert_eq!(
        describe_keys_claim(&long),
        Ok(r#"{"one_time_keys":{},"timeout":0}"#.to_string())
    );
}

#[test]
fn signing_keys_that_are_absent_are_left_out() {
    assert_eq!(
        describe_signing_keys(&signing_keys("m")),
        Ok(r#"{"master_key":"m"}"#.to_string())
    );
    let full = SigningKeysParts {
        master_key: Some(json("1")),
        self_signing_key: Some(json("2")),
        user_signing_key: Some(json("3")),
    };
    assert_eq!(
        describe_signing_keys(&full),
        Ok(r#"{"master_key":1,"self_signing_key":2,"user_signing_key":3}"#.to_string())
    );
}

#[test]
fn what_does_not_serialise_is_refused_whole() {
    let request = OutgoingParts::RoomMessage(RoomMessageParts {
        room_id: json(r#""!s:example.org""#),
        event_type: json(r#""m.room.message""#),
        txn_id: Part::Unserialisable,
        content: json("{}"),
    });
    assert_eq!(describe_outgoing(&request), Err(SessionError::Failed));
    assert_eq!(
        describe_outgoing(&OutgoingParts::ToDevice(json("not json"))),
        Err(SessionError::Failed)
    );
}

#[test]
fn a_query_about_this_account_is_told_apart() {
    let about_alice = OutgoingParts::KeysQuery(query(&["@bob:example.org", ALICE]));
    let about_bob = OutgoingParts::KeysQuery(query(&["@bob:example.org"]));
    assert_eq!(
        account_scoped(PendingKind::KeysQuery, &about_alice, ALICE),
        PendingKind::AccountKeysQuery
    );
    assert_eq!(
        account_scoped(PendingKind::KeysQuery, &about_bob, ALICE),
        PendingKind::KeysQuery
    );
    assert_eq!(
        account_scoped(PendingKind::KeysUpload, &about_alice, ALICE),
        PendingKind::KeysUpload
    );
}

#[test]
fn identifiers_are_parsed_or_refused() {
    assert_eq!(parse_scope("!s:example.org").unwrap(), "!s:example.org");
    assert_eq!(parse_scope("!s").unwrap(), "!s");
    for scope in ["", "s:example.org", "!a\0b"] {
        assert_eq!(parse_scope(scope), Err(SessionError::MalformedIdentifier));
    }
    assert_eq!(parse_user(ALICE).unwrap(), ALICE);
    for user in ["", "alice:example.org", "@alice"] {
        assert_eq!(parse_user(user), Err(SessionError::MalformedIdentifier));
    }
    let users = [ALICE.to_string(), "bob".to_string()];
    assert_eq!(parse_users(&users), Err(SessionError::MalformedIdentifier));
    assert_eq!(parse_users(&users[..1]).unwrap(), [ALICE]);
}

#[test]
fn a_batch_leaves_in_the_order_it_was_produced() {
    let mut state = RequestState::new();
    state.queue_action_request("zzzz".to_string(), action("zzzz"));
    state.queue_action_request("aaaa".to_string(), action("aaaa"));
    state.queue_account_key_query("account".to_string(), query(&[ALICE]));
    state.queue_to_device_requests(vec![message("t2"), message("t1")]);
    state.queue_claim("claim".to_string(), claim());
    state.queue_peer_key_query("peer".to_string(), query(&["@bob:example.org"]));
    state.queue_signing_keys_under("keys".to_string(), signing_keys("m"));
    assert_eq!(state.next_place(), 4);

    let out = take(&mut state, vec![offered("upload", upload())]);

    assert_eq!(
        ids(&out),
        ["zzzz", "aaaa", "account", "keys", "upload", "t1", "t2", "claim", "peer"]
    );
    assert_eq!(state.next_place(), 9);
    assert_eq!(state.pending_count(), 9);
    assert!(take(&mut state, Vec::new()).is_empty());
    assert_eq!(state.pending_count(), 9);
}

#[test]
fn a_request_that_is_offered_again_keeps_its_place() {
    let mut state = RequestState::new();
    let first = take(&mut state, vec![offered("again", action("again"))]);
    assert_eq!(ids(&first), ["again"]);
    state.queue_action_request("later".to_string(), action("later"));
    let second = take(
        &mut state,
        vec![offered("new", action("new")), offered("again", action("again"))],
    );
    assert_eq!(ids(&second), ["again", "later", "new"]);
}

#[test]
fn an_action_is_not_queued_while_it_waits_or_is_pending() {
    let mut state = RequestState::new();
    state.queue_action_request("once".to_string(), action("once"));
    state.queue_action_request("once".to_string(), action("once"));
    assert_eq!(ids(&take(&mut state, Vec::new())), ["once"]);
    state.queue_action_request("once".to_string(), action("once"));
    assert!(take(&mut state, Vec::new()).is_empty());
    assert_eq!(state.next_place(), 1);
}

#[test]
fn what_replaces_a_waiting_request_takes_its_place() {
    let mut state = RequestState::new();
    state.queue_signing_keys_under("first".to_string(), signing_keys("1"));
    state.queue_account_key_query("query-1".to_string(), query(&[ALICE]));
    state.queue_action_request("action".to_string(), action("action"));
    state.queue_account_key_query("query-2".to_string(), query(&[ALICE]));
    state.queue_signing_keys_under("second".to_string(), signing_keys("2"));
    let out = take(&mut state, Vec::new());
    assert_eq!(ids(&out), ["second", "query-2", "action"]);
    assert_eq!(out[0].body, r#"{"master_key":"2"}"#);
}

#[test]
fn a_signing_keys_upload_gets_an_identifier_of_its_own() {
    let mut state = RequestState::new();
    let first = state.queue_signing_keys_request(signing_keys("1"));
    let second = state.queue_signing_keys_request(signing_keys("2"));
    assert!(!first.is_empty());
    assert_ne!(first, second);
    let out = take(&mut state, Vec::new());
    assert_eq!(ids(&out), [second.as_str()]);
    assert_eq!(out[0].kind, "signing_keys_upload");
}

#[test]
fn messages_under_one_identifier_are_one_message() {
    let mut state = RequestState::new();
    state.queue_to_device_requests(vec![message("b"), message("a")]);
    state.queue_to_device_requests(vec![
        ToDeviceMessage { id: "b".to_string(), request: json(r#"{"newer":true}"#) },
        message("c"),
    ]);
    let out = take(&mut state, Vec::new());
    assert_eq!(ids(&out), ["a", "b", "c"]);
    assert_eq!(out[1].body, r#"{"newer":true}"#);
}

#[test]
fn a_newer_batch_supersedes_standing_needs_and_nothing_else() {
    let mut state = RequestState::new();
    state.queue_peer_key_query("peer".to_string(), query(&["@bob:example.org"]));
    state.queue_to_device_requests(vec![message("message")]);
    state.queue_account_key_query("asked".to_string(), query(&[ALICE]));
    take(
        &mut state,
        vec![
            offered("upload-1", upload()),
            offered("query-1", OutgoingParts::KeysQuery(query(&[ALICE]))),
            offered("signatures", OutgoingParts::SignatureUpload(json("{}"))),
        ],
    );
    assert_eq!(state.pending_count(), 6);

    take(
        &mut state,
        vec![
            offered("upload-2", upload()),
            offered("query-2", OutgoingParts::KeysQuery(query(&["@bob:example.org"]))),
        ],
    );

    for id in ["upload-1", "query-1"] {
        assert!(!state.is_pending(id), "{id}");
    }
    for id in ["peer", "message", "asked", "signatures", "upload-2", "query-2"] {
        assert!(state.is_pending(id), "{id}");
    }

    state.queue_account_key_query("asked-again".to_string(), query(&[ALICE]));
    take(&mut state, Vec::new());
    assert!(!state.is_pending("asked"));
    assert!(state.is_pending("asked-again"));
    assert!(state.is_pending("query-2"));
}

#[test]
fn nothing_is_handed_out_where_something_does_not_serialise() {
    let mut state = RequestState::new();
    state.queue_action_request("good".to_string(), action("good"));
    state.queue_to_device_requests(vec![ToDeviceMessage {
        id: "bad".to_string(),
        request: Part::Unserialisable,
    }]);
    let offers = vec![offered("upload", upload())];
    assert!(matches!(
        state.take_outgoing_requests(ALICE, &offers),
        Err(SessionError::Failed)
    ));
    assert_eq!(state.pending_count(), 0);
    assert_eq!(state.next_place(), 1);
    state.queue_to_device_requests(vec![message("bad")]);
    assert_eq!(ids(&take(&mut state, offers)), ["good", "upload", "bad"]);
}

#[test]
fn a_body_that_cannot_be_a_response_is_refused() {
    for kind in KINDS {
        assert_eq!(refuse_a_non_response(kind, ""), Ok(()), "{kind:?}");
        assert_eq!(refuse_a_non_response(kind, "{}"), Ok(()), "{kind:?}");
        for body in [
            "not json",
            "null",
            "[]",
            "\"ok\"",
            r#"{"errcode":"M_UNKNOWN"}"#,
            r#"{"error":"nope"}"#,
            r#"{"flows":[]}"#,
            r#"{"unheard":"of"}"#,
        ] {
            assert_eq!(
                refuse_a_non_response(kind, body),
                Err(SessionError::MalformedPayload),
                "{kind:?} {body}"
            );
        }
    }
    assert_eq!(
        refuse_a_non_response(PendingKind::KeysQuery, r#"{"device_keys":{},"extra":1}"#),
        Ok(())
    );
    assert_eq!(
        refuse_a_non_response(PendingKind::KeysQuery, r#"{"device_keys":{},"error":"x"}"#),
        Err(SessionError::MalformedPayload)
    );
    assert_eq!(
        refuse_a_non_response(PendingKind::ToDevice, r#"{"device_keys":{}}"#),
        Err(SessionError::MalformedPayload)
    );
}

#[test]
fn an_answer_is_read_as_what_was_asked() {
    assert!(matches!(
        read_response(PendingKind::KeysUpload, r#"{"one_time_key_counts":{}}"#),
        Ok(ReadResponse::KeysUpload(_))
    ));
    assert!(matches!(
        read_response(PendingKind::KeysClaim, r#"{"one_time_keys":{}}"#),
        Ok(ReadResponse::KeysClaim(_))
    ));
    assert!(matches!(
        read_response(PendingKind::ToDevice, "anything"),
        Ok(ReadResponse::ToDevice(_))
    ));
    assert!(matches!(
        read_response(PendingKind::SignatureUpload, "{}"),
        Ok(ReadResponse::SignatureUpload(_))
    ));
    assert!(matches!(
        read_response(PendingKind::RoomMessage, r#"{"event_id":"$e:example.org"}"#),
        Ok(ReadResponse::RoomMessage(_))
    ));
    assert!(matches!(
        read_response(PendingKind::SigningKeysUpload, ""),
        Ok(ReadResponse::SigningKeysUpload(_))
    ));
    for (kind, body) in [
        (PendingKind::KeysUpload, "{}"),
        (PendingKind::KeysQuery, r#"{"device_keys":1}"#),
        (PendingKind::KeysClaim, "{}"),
        (PendingKind::SignatureUpload, r#"{"failures":1}"#),
        (PendingKind::RoomMessage, "{}"),
    ] {
        assert!(
            matches!(read_response(kind, body), Err(SessionError::MalformedPayload)),
            "{kind:?} {body}"
        );
    }
}

#[test]
fn an_answer_to_a_key_query_says_whom_it_speaks_of() {
    let body = r#"{"device_keys":{"@bob:example.org":{},"@alice:example.org":{}}}"#;
    match read_response(PendingKind::AccountKeysQuery, body) {
        Ok(ReadResponse::KeysQuery { response, answer, body: text }) => {
            assert_eq!(answer.device_keys, [ALICE, "@bob:example.org"]);
            assert!(answer.master_keys.is_empty());
            assert!(answer.self_signing_keys.is_empty());
            assert!(answer.user_signing_keys.is_empty());
            assert_eq!(text, body);
            assert_eq!(response.device_keys.len(), 2);
        }
        _ => panic!("a key query's answer is read as one"),
    }
}

fn answer(devices: &[&str], masters: &[&str], rest: &[&str]) -> KeysQueryAnswer {
    let texts = |list: &[&str]| list.iter().map(|user| user.to_string()).collect::<Vec<_>>();
    KeysQueryAnswer {
        device_keys: texts(devices),
        master_keys: texts(masters),
        self_signing_keys: texts(rest),
        user_signing_keys: texts(rest),
    }
}

fn master(user: &str, key: &str) -> MasterKey {
    MasterKey {
        user: user.to_string(),
        usage: vec!["master".to_string()],
        key_ids: vec![format!("ed25519:{key}")],
        keys: vec![key.to_string()],
    }
}

fn stored(own: Option<MasterKey>, unpublished: bool) -> StoredIdentity {
    StoredIdentity::Stored { own, unpublished }
}

#[test]
fn an_answer_settles_only_what_the_machine_holds_too() {
    let asserted = Some(master(ALICE, "a"));
    let settled = |answer: &KeysQueryAnswer, stored: StoredIdentity| {
        answer_about_this_account(answer, ALICE, &asserted, &stored).settled
    };
    let none = answer(&[ALICE], &[], &[]);
    let whole = answer(&[], &[ALICE], &[ALICE]);
    assert_eq!(settled(&none, StoredIdentity::Missing), AnswerAboutAccount::Settled);
    assert_eq!(
        settled(&none, stored(Some(master(ALICE, "a")), true)),
        AnswerAboutAccount::Settled
    );
    assert_eq!(
        settled(&none, stored(Some(master(ALICE, "a")), false)),
        AnswerAboutAccount::Unsettled
    );
    assert_eq!(settled(&none, StoredIdentity::Unreadable), AnswerAboutAccount::Unsettled);
    assert_eq!(
        settled(&answer(&["@bob:example.org"], &[], &[]), StoredIdentity::Missing),
        AnswerAboutAccount::Unsettled
    );
    assert_eq!(
        settled(&whole, stored(Some(master(ALICE, "a")), false)),
        AnswerAboutAccount::Settled
    );
    for held in [
        StoredIdentity::Missing,
        StoredIdentity::Unreadable,
        stored(None, false),
        stored(Some(master(ALICE, "b")), false),
    ] {
        assert_eq!(settled(&whole, held.clone()), AnswerAboutAccount::Unsettled, "{held:?}");
    }
    let held = stored(Some(master(ALICE, "a")), false);
    assert_eq!(
        answer_about_this_account(&whole, ALICE, &None, &held).settled,
        AnswerAboutAccount::Unsettled
    );
}

#[test]
fn a_master_key_is_its_user_its_usage_and_its_keys() {
    let key = master(ALICE, "a");
    assert!(is_same_master(&key, &master(ALICE, "a")));
    assert!(!is_same_master(&key, &master("@bob:example.org", "a")));
    assert!(!is_same_master(&key, &master(ALICE, "b")));
    assert!(!is_same_master(
        &key,
        &MasterKey { usage: vec!["self_signing".to_string()], ..master(ALICE, "a") }
    ));
    assert!(!is_same_master(
        &key,
        &MasterKey { key_ids: vec!["ed25519:b".to_string()], ..master(ALICE, "a") }
    ));
    assert!(!is_same_master(
        &key,
        &MasterKey {
            keys: vec!["a".to_string(), "b".to_string()],
            ..master(ALICE, "a")
        }
    ));
}

#[test]
fn the_master_key_of_an_answer_is_read_from_its_body() {
    let key = "nqOvzeuGWT/sRx3h7+MHoInYj3Uk2LD/unI9kDYcHwk";
    let body = |user: &str, usage: &str| {
        format!(
            "{{\"master_keys\":{{\"{user}\":{{\"user_id\":\"{user}\",\"usage\":[\"{usage}\"],\
             \"keys\":{{\"ed25519:{key}\":\"{key}\"}},\"signatures\":{{\"{user}\":{{}}}}}}}},\
             \"self_signing_keys\":{{\"{user}\":{{}}}}}}"
        )
    };
    let settled = |body: &str, held: MasterKey| {
        let read = read_response(PendingKind::AccountKeysQuery, body).ok().unwrap();
        let taken = Taken { account: ALICE.to_string(), stored: stored(Some(held), true) };
        let reading = mark_sent(PendingKind::AccountKeysQuery, &read, Trip::Done(taken));
        reading.ok().unwrap().settled
    };
    assert_eq!(settled(&body(ALICE, "master"), master(ALICE, key)), AnswerAboutAccount::Settled);
    assert_eq!(settled(&body(ALICE, "master"), master(ALICE, "a")), AnswerAboutAccount::Unsettled);
    assert_eq!(
        settled(&body(ALICE, "self_signing"), master(ALICE, key)),
        AnswerAboutAccount::Unsettled
    );
    assert_eq!(
        settled(&body("@bob:example.org", "master"), master("@bob:example.org", key)),
        AnswerAboutAccount::Unsettled
    );
}

#[test]
fn an_identity_is_published_once_the_whole_of_it_is_shown() {
    let held = stored(Some(master(ALICE, "a")), true);
    let asserted = Some(master(ALICE, "a"));
    let read = |answer: KeysQueryAnswer| {
        answer_about_this_account(&answer, ALICE, &asserted, &held)
    };
    assert!(read(answer(&[], &[ALICE], &[ALICE])).published);
    let part = read(answer(&[], &[ALICE], &[]));
    assert!(!part.published);
    assert_eq!(part.settled, AnswerAboutAccount::Settled);
    assert!(!read(answer(&[ALICE], &[], &[])).published);
}

#[test]
fn any_part_of_an_identity_claims_one() {
    assert!(claims_an_identity(&answer(&[], &[ALICE], &[]), ALICE));
    assert!(claims_an_identity(&answer(&[], &[], &[ALICE]), ALICE));
    assert!(!claims_an_identity(&answer(&[ALICE], &["@bob:example.org"], &[]), ALICE));
}

#[test]
fn only_a_query_about_this_account_is_asked_of() {
    for kind in KINDS {
        assert_eq!(
            is_about_this_account(kind),
            kind == PendingKind::AccountKeysQuery
                || kind == PendingKind::AccountKeysQueryOutOfBand
        );
    }
    let read = read_response(PendingKind::KeysQuery, r#"{"device_keys":{"@alice:example.org":{}}}"#)
        .ok()
        .unwrap();
    let taken = || {
        Trip::Done(Taken { account: ALICE.to_string(), stored: StoredIdentity::Missing })
    };
    let ordinary = mark_sent(PendingKind::KeysQuery, &read, taken()).ok().unwrap();
    assert_eq!(ordinary.settled, AnswerAboutAccount::NotAsked);
    let asked = mark_sent(PendingKind::AccountKeysQuery, &read, taken()).ok().unwrap();
    assert_eq!(asked.settled, AnswerAboutAccount::Settled);
    assert_eq!(
        mark_sent(PendingKind::AccountKeysQuery, &read, Trip::NoMachine).err(),
        Some(SessionError::NotInitialised)
    );
    assert_eq!(
        mark_sent(PendingKind::AccountKeysQuery, &read, Trip::Refused).err(),
        Some(SessionError::Failed)
    );
}

#[test]
fn a_status_is_a_failure_where_a_refusal_can_carry_it() {
    for status in [0, 300, 404, 599] {
        assert!(is_a_failure_status(status), "{status}");
    }
    for status in [1, 200, 299, 600, u16::MAX] {
        assert!(!is_a_failure_status(status), "{status}");
    }
}

fn reading(settled: AnswerAboutAccount) -> Result<AccountReading, SessionError> {
    Ok(AccountReading { settled, published: false })
}

#[test]
fn a_reported_answer_resolves_its_request() {
    let mut state = RequestState::new();
    take(&mut state, vec![offered("upload", upload()), offered("other", action("other"))]);
    assert_eq!(
        state.mark_request_sent("upload", r#"{"one_time_key_counts":{}}"#),
        Ok(PendingKind::KeysUpload)
    );
    assert!(state.is_pending("upload"));
    assert_eq!(
        state.finish_mark("upload", Err(SessionError::Failed)),
        Err(SessionError::Failed)
    );
    assert!(state.is_pending("upload"));
    assert_eq!(state.finish_mark("upload", reading(AnswerAboutAccount::NotAsked)), Ok(()));
    assert!(!state.is_pending("upload"));
    assert!(state.is_pending("other"));
    assert_eq!(
        state.mark_request_sent("upload", "{}"),
        Err(SessionError::UnknownRequest)
    );
    assert_eq!(
        state.mark_request_sent("other", r#"{"error":"no"}"#),
        Err(SessionError::MalformedPayload)
    );
}

#[test]
fn a_reported_refusal_changes_nothing() {
    let mut state = RequestState::new();
    take(&mut state, vec![offered("upload", upload())]);
    assert_eq!(state.mark_request_failed("upload", 500), Ok(()));
    assert_eq!(state.mark_request_failed("upload", 0), Ok(()));
    assert_eq!(
        state.mark_request_failed("upload", 200),
        Err(SessionError::NotAFailureStatus)
    );
    assert_eq!(
        state.mark_request_failed("unheard-of", 200),
        Err(SessionError::UnknownRequest)
    );
    assert!(state.is_pending("upload"));
}

#[test]
fn what_an_answer_settled_stays_settled() {
    let mut state = RequestState::new();
    assert!(!state.account_keys_answered());
    state.finish_mark("a", reading(AnswerAboutAccount::Unsettled)).unwrap();
    assert!(!state.account_keys_answered());
    assert!(state.account_keys_answer_unsettled());
    state.finish_mark("b", reading(AnswerAboutAccount::Settled)).unwrap();
    assert!(state.account_keys_answered());
    assert!(!state.account_keys_answer_unsettled());
    state.finish_mark("c", reading(AnswerAboutAccount::Unsettled)).unwrap();
    assert!(state.account_keys_answered());
    assert!(!state.account_keys_answer_unsettled());
    state.forget_account_keys_answered();
    assert!(!state.account_keys_answered());
}

#[test]
fn a_registry_that_is_reset_has_forgotten_everything() {
    let mut state = RequestState::new();
    take(&mut state, vec![offered("upload", upload())]);
    state.queue_action_request("action".to_string(), action("action"));
    state.finish_mark("x", reading(AnswerAboutAccount::Settled)).unwrap();
    state.reset();
    assert_eq!(state.pending_count(), 0);
    assert_eq!(state.next_place(), 0);
    assert!(!state.account_keys_answered());
    assert!(take(&mut state, Vec::new()).is_empty());
}

#[test]
fn sharing_is_recorded_up_to_what_failed() {
    let missing = || {
        Trip::Done(Some(Claim { id: "claim".to_string(), request: claim() }))
    };
    let mut state = RequestState::new();
    assert_eq!(
        state.record_share(ShareOutcome {
            missing: missing(),
            shared: Trip::Done(vec![message("key")]),
            tracking: Trip::Done(()),
        }),
        Ok(())
    );
    assert_eq!(ids(&take(&mut state, Vec::new())), ["key", "claim"]);

    let mut state = RequestState::new();
    assert_eq!(
        state.record_share(ShareOutcome {
            missing: missing(),
            shared: Trip::Refused,
            tracking: Trip::Done(()),
        }),
        Err(SessionError::Failed)
    );
    assert_eq!(ids(&take(&mut state, Vec::new())), ["claim"]);

    let mut state = RequestState::new();
    assert_eq!(
        state.record_share(ShareOutcome {
            missing: Trip::Done(None),
            shared: Trip::Done(vec![message("key")]),
            tracking: Trip::Refused,
        }),
        Err(SessionError::Failed)
    );
    assert_eq!(ids(&take(&mut state, Vec::new())), ["key"]);

    let mut state = RequestState::new();
    assert_eq!(
        state.record_share(ShareOutcome {
            missing: Trip::NoMachine,
            shared: Trip::Done(vec![message("key")]),
            tracking: Trip::Done(()),
        }),
        Err(SessionError::NotInitialised)
    );
    assert!(take(&mut state, Vec::new()).is_empty());
}

#[test]
fn a_verified_account_shares_by_identity() {
    assert_eq!(
        collect_strategy(OwnIdentity::Known { verified: true }),
        CollectStrategy::IdentityBasedStrategy
    );
    for identity in [
        OwnIdentity::Known { verified: false },
        OwnIdentity::Missing,
        OwnIdentity::Unreadable,
    ] {
        assert_eq!(collect_strategy(identity), CollectStrategy::AllDevices);
    }
}
