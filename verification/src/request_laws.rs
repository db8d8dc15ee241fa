//! What holds of the requests that are sent.

use vstd::prelude::*;

use crate::json::{object_text, raw_text};
use crate::requests::{account_scoped, describe_keys_claim, describe_keys_query, describe_outgoing,
    describe_signing_keys, names, no_members, unless_empty, with_part, with_timeout, KeysClaimParts,
    KeysQueryParts, KeysUploadParts, OutgoingParts, Part, PendingKind, RoomMessageParts,
    SigningKeysParts};
use crate::session::SessionError;
use crate::text::decimal;

verus! {

/// Whether a part is JSON, and this is the text that is sent for it.
pub open spec fn is_sent_as(part: Part, text: Seq<char>) -> bool {
    part matches Part::Json(json) && raw_text(json@) == Some(text)
}

/// Whether nothing can be sent for a part.
pub open spec fn cannot_be_sent(part: Part) -> bool {
    part matches Part::Json(json) ==> raw_text(json@) is None
}

/// The names of the members that are sent are different.
pub(crate) proof fn lemma_names_differ()
    ensures
        "device_keys"@ != "one_time_keys"@,
        "device_keys"@ != "fallback_keys"@,
        "one_time_keys"@ != "fallback_keys"@,
        "device_keys"@ != "timeout"@,
        "one_time_keys"@ != "timeout"@,
        "master_key"@ != "self_signing_key"@,
        "master_key"@ != "user_signing_key"@,
        "self_signing_key"@ != "user_signing_key"@,
        "room_id"@ != "event_type"@,
        "room_id"@ != "txn_id"@,
        "room_id"@ != "content"@,
        "event_type"@ != "txn_id"@,
        "event_type"@ != "content"@,
        "txn_id"@ != "content"@,
{
    reveal_strlit("device_keys");
    reveal_strlit("one_time_keys");
    reveal_strlit("fallback_keys");
    reveal_strlit("timeout");
    reveal_strlit("master_key");
    reveal_strlit("self_signing_key");
    reveal_strlit("user_signing_key");
    reveal_strlit("room_id");
    reveal_strlit("event_type");
    reveal_strlit("txn_id");
    reveal_strlit("content");
    assert("device_keys"@[0] == 'd');
    assert("one_time_keys"@[0] == 'o');
    assert("fallback_keys"@[0] == 'f');
    assert("timeout"@[0] == 't');
    assert("master_key"@[0] == 'm');
    assert("self_signing_key"@[0] == 's');
    assert("user_signing_key"@[0] == 'u');
    assert("room_id"@[0] == 'r');
    assert("event_type"@[0] == 'e');
    assert("txn_id"@[0] == 't');
    assert("content"@[0] == 'c');
}

/// A key upload is an object with the device keys exactly where there are any,
/// and with the one-time keys and the fallback keys exactly where their maps have
/// entries, each whatever becomes of the others.
pub proof fn law_a_key_upload_sends_what_it_has(
    r: KeysUploadParts,
    result: Result<(PendingKind, String), SessionError>,
    sent: Map<Seq<char>, Seq<char>>,
)
    requires
        call_ensures(describe_outgoing, (&OutgoingParts::KeysUpload(r),), result),
        forall|name: Seq<char>| #[trigger]
            sent.contains_key(name) <==> {
                ||| name == "device_keys"@ && r.device_keys is Some
                ||| name == "one_time_keys"@ && r.one_time_keys.entries > 0
                ||| name == "fallback_keys"@ && r.fallback_keys.entries > 0
            },
        r.device_keys matches Some(part) ==> is_sent_as(part, sent["device_keys"@]),
        r.one_time_keys.entries > 0 ==> is_sent_as(r.one_time_keys.json, sent["one_time_keys"@]),
        r.fallback_keys.entries > 0 ==> is_sent_as(r.fallback_keys.json, sent["fallback_keys"@]),
    ensures
        result matches Ok((kind, body)) && kind == PendingKind::KeysUpload && body@ == object_text(
            sent,
        ),
{
    lemma_names_differ();
    let built = with_part(
        with_part(
            with_part(no_members(), "device_keys"@, r.device_keys),
            "one_time_keys"@,
            unless_empty(r.one_time_keys),
        ),
        "fallback_keys"@,
        unless_empty(r.fallback_keys),
    );
    assert(built->0 =~= sent);
}

/// A key query is an object with the users that are asked about, and with the
/// timeout in milliseconds exactly where there is one.
pub proof fn law_a_key_query_sends_what_it_has(
    r: KeysQueryParts,
    described: Result<String, SessionError>,
    outgoing: Result<(PendingKind, String), SessionError>,
    sent: Map<Seq<char>, Seq<char>>,
)
    requires
        call_ensures(describe_keys_query, (&r,), described),
        call_ensures(describe_outgoing, (&OutgoingParts::KeysQuery(r),), outgoing),
        forall|name: Seq<char>| #[trigger]
            sent.contains_key(name) <==> name == "device_keys"@ || name == "timeout"@
                && r.timeout_millis is Some,
        is_sent_as(r.device_keys, sent["device_keys"@]),
        r.timeout_millis matches Some(millis) ==> sent["timeout"@] == decimal(
            (millis % 0x1_0000_0000_0000_0000u128) as nat,
        ),
    ensures
        described matches Ok(body) && body@ == object_text(sent),
        outgoing matches Ok((kind, body)) && kind == PendingKind::KeysQuery && body@ == object_text(
            sent,
        ),
{
    lemma_names_differ();
    lemma_truncation(r.timeout_millis);
    let built = with_timeout(
        with_part(no_members(), "device_keys"@, Some(r.device_keys)),
        r.timeout_millis,
    );
    assert(built->0 =~= sent);
}

/// Sixty-four bits hold what is left of a number after division by their range.
proof fn lemma_truncation(millis: Option<u128>)
    ensures
        millis matches Some(millis) ==> (millis as u64) == millis % 0x1_0000_0000_0000_0000u128,
{
    if let Some(millis) = millis {
        assert((millis as u64) == millis % 0x1_0000_0000_0000_0000u128) by (bit_vector);
    }
}

/// A key claim is an object with the keys that are claimed, and with the timeout in
/// milliseconds exactly where there is one.
pub proof fn law_a_key_claim_sends_what_it_has(
    r: KeysClaimParts,
    described: Result<String, SessionError>,
    outgoing: Result<(PendingKind, String), SessionError>,
    sent: Map<Seq<char>, Seq<char>>,
)
    requires
        call_ensures(describe_keys_claim, (&r,), described),
        call_ensures(describe_outgoing, (&OutgoingParts::KeysClaim(r),), outgoing),
        forall|name: Seq<char>| #[trigger]
            sent.contains_key(name) <==> name == "one_time_keys"@ || name == "timeout"@
                && r.timeout_millis is Some,
        is_sent_as(r.one_time_keys, sent["one_time_keys"@]),
        r.timeout_millis matches Some(millis) ==> sent["timeout"@] == decimal(
            (millis % 0x1_0000_0000_0000_0000u128) as nat,
        ),
    ensures
        described matches Ok(body) && body@ == object_text(sent),
        outgoing matches Ok((kind, body)) && kind == PendingKind::KeysClaim && body@ == object_text(
            sent,
        ),
{
    lemma_names_differ();
    lemma_truncation(r.timeout_millis);
    let built = with_timeout(
        with_part(no_members(), "one_time_keys"@, Some(r.one_time_keys)),
        r.timeout_millis,
    );
    assert(built->0 =~= sent);
}

/// A signing-keys upload is an object with each of the three keys exactly where it
/// is there.
pub proof fn law_a_signing_keys_upload_sends_what_it_has(
    r: SigningKeysParts,
    result: Result<String, SessionError>,
    sent: Map<Seq<char>, Seq<char>>,
)
    requires
        call_ensures(describe_signing_keys, (&r,), result),
        forall|name: Seq<char>| #[trigger]
            sent.contains_key(name) <==> {
                ||| name == "master_key"@ && r.master_key is Some
                ||| name == "self_signing_key"@ && r.self_signing_key is Some
                ||| name == "user_signing_key"@ && r.user_signing_key is Some
            },
        r.master_key matches Some(part) ==> is_sent_as(part, sent["master_key"@]),
        r.self_signing_key matches Some(part) ==> is_sent_as(part, sent["self_signing_key"@]),
        r.user_signing_key matches Some(part) ==> is_sent_as(part, sent["user_signing_key"@]),
    ensures
        result matches Ok(body) && body@ == object_text(sent),
{
    lemma_names_differ();
    let built = with_part(
        with_part(
            with_part(no_members(), "master_key"@, r.master_key),
            "self_signing_key"@,
            r.self_signing_key,
        ),
        "user_signing_key"@,
        r.user_signing_key,
    );
    assert(built->0 =~= sent);
}

/// A room message is an object with the scope, the type of the event, the
/// transaction and the content, and with nothing else.
pub proof fn law_a_room_message_sends_what_it_has(
    r: RoomMessageParts,
    result: Result<(PendingKind, String), SessionError>,
    sent: Map<Seq<char>, Seq<char>>,
)
    requires
        call_ensures(describe_outgoing, (&OutgoingParts::RoomMessage(r),), result),
        forall|name: Seq<char>| #[trigger]
            sent.contains_key(name) <==> name == "room_id"@ || name == "event_type"@ || name
                == "txn_id"@ || name == "content"@,
        is_sent_as(r.room_id, sent["room_id"@]),
        is_sent_as(r.event_type, sent["event_type"@]),
        is_sent_as(r.txn_id, sent["txn_id"@]),
        is_sent_as(r.content, sent["content"@]),
    ensures
        result matches Ok((kind, body)) && kind == PendingKind::RoomMessage && body@ == object_text(
            sent,
        ),
{
    lemma_names_differ();
    let built = with_part(
        with_part(
            with_part(
                with_part(no_members(), "room_id"@, Some(r.room_id)),
                "event_type"@,
                Some(r.event_type),
            ),
            "txn_id"@,
            Some(r.txn_id),
        ),
        "content"@,
        Some(r.content),
    );
    assert(built->0 =~= sent);
}

/// A to-device message and a signature upload are sent as the JSON they are.
pub proof fn law_a_whole_body_is_sent_as_it_is(
    part: Part,
    message: Result<(PendingKind, String), SessionError>,
    upload: Result<(PendingKind, String), SessionError>,
    text: Seq<char>,
)
    requires
        call_ensures(describe_outgoing, (&OutgoingParts::ToDevice(part),), message),
        call_ensures(describe_outgoing, (&OutgoingParts::SignatureUpload(part),), upload),
        is_sent_as(part, text),
    ensures
        message matches Ok((kind, body)) && kind == PendingKind::ToDevice && body@ == text,
        upload matches Ok((kind, body)) && kind == PendingKind::SignatureUpload && body@ == text,
{
}

/// A request is refused exactly where nothing can be sent for a part that it has to
/// send, and then as a failure. A map without entries is not sent, so it refuses
/// nothing.
pub proof fn law_a_request_is_refused_whole(
    request: OutgoingParts,
    result: Result<(PendingKind, String), SessionError>,
)
    requires
        call_ensures(describe_outgoing, (&request,), result),
    ensures
        result is Err ==> result->Err_0 == SessionError::Failed,
        result is Err <==> match request {
            OutgoingParts::KeysUpload(r) => {
                ||| r.device_keys is Some && cannot_be_sent(r.device_keys->0)
                ||| r.one_time_keys.entries > 0 && cannot_be_sent(r.one_time_keys.json)
                ||| r.fallback_keys.entries > 0 && cannot_be_sent(r.fallback_keys.json)
            },
            OutgoingParts::KeysQuery(r) => cannot_be_sent(r.device_keys),
            OutgoingParts::KeysClaim(r) => cannot_be_sent(r.one_time_keys),
            OutgoingParts::ToDevice(part) => cannot_be_sent(part),
            OutgoingParts::SignatureUpload(part) => cannot_be_sent(part),
            OutgoingParts::RoomMessage(r) => {
                ||| cannot_be_sent(r.room_id)
                ||| cannot_be_sent(r.event_type)
                ||| cannot_be_sent(r.txn_id)
                ||| cannot_be_sent(r.content)
            },
        },
{
}

/// What is asked for by name is refused exactly where nothing can be sent for a
/// part of it.
pub proof fn law_a_named_request_is_refused_whole(
    query: KeysQueryParts,
    claim: KeysClaimParts,
    keys: SigningKeysParts,
    queried: Result<String, SessionError>,
    claimed: Result<String, SessionError>,
    uploaded: Result<String, SessionError>,
)
    requires
        call_ensures(describe_keys_query, (&query,), queried),
        call_ensures(describe_keys_claim, (&claim,), claimed),
        call_ensures(describe_signing_keys, (&keys,), uploaded),
    ensures
        queried is Err <==> cannot_be_sent(query.device_keys),
        claimed is Err <==> cannot_be_sent(claim.one_time_keys),
        uploaded is Err <==> {
            ||| keys.master_key is Some && cannot_be_sent(keys.master_key->0)
            ||| keys.self_signing_key is Some && cannot_be_sent(keys.self_signing_key->0)
            ||| keys.user_signing_key is Some && cannot_be_sent(keys.user_signing_key->0)
        },
        queried is Err ==> queried->Err_0 == SessionError::Failed,
        claimed is Err ==> claimed->Err_0 == SessionError::Failed,
        uploaded is Err ==> uploaded->Err_0 == SessionError::Failed,
{
}

/// A key query that the machine offers is told apart exactly where it names this
/// account; no other kind changes, and neither does a request that is no query.
pub proof fn law_only_a_query_about_this_account_is_told_apart(
    kind: PendingKind,
    request: OutgoingParts,
    account: &str,
    narrowed: PendingKind,
)
    requires
        call_ensures(account_scoped, (kind, &request, account), narrowed),
    ensures
        (kind == PendingKind::KeysQuery && (request matches OutgoingParts::KeysQuery(r) && exists|
            i: int,
        |
            0 <= i < r.users@.len() && (#[trigger] r.users@[i])@ == account@)) ==> narrowed
            == PendingKind::AccountKeysQuery,
        !(kind == PendingKind::KeysQuery && (request matches OutgoingParts::KeysQuery(r) && exists|
            i: int,
        |
            0 <= i < r.users@.len() && (#[trigger] r.users@[i])@ == account@)) ==> narrowed == kind,
{
    if let OutgoingParts::KeysQuery(r) = request {
        let users = names(r.users@);
        if users.contains(account@) {
            let i = choose|i: int| 0 <= i < users.len() && users[i] == account@;
            assert(r.users@[i]@ == account@);
        }
        if exists|i: int| 0 <= i < r.users@.len() && (#[trigger] r.users@[i])@ == account@ {
            let i = choose|i: int| 0 <= i < r.users@.len() && (#[trigger] r.users@[i])@ == account@;
            assert(users[i] == account@);
        }
    }
}

/// What each kind is called on the wire. The four key queries go by one name, and
/// no two of the others do.
pub proof fn law_tags_tell_the_endpoints_apart(kind: PendingKind, tag: &'static str)
    requires
        call_ensures(PendingKind::tag, (kind,), tag),
    ensures
        tag@ == "keys_upload"@ <==> kind is KeysUpload,
        tag@ == "keys_query"@ <==> kind is KeysQuery || kind is AccountKeysQuery || kind
            is AccountKeysQueryOutOfBand || kind is PeerKeysQueryOutOfBand,
        tag@ == "keys_claim"@ <==> kind is KeysClaim,
        tag@ == "to_device"@ <==> kind is ToDevice,
        tag@ == "signature_upload"@ <==> kind is SignatureUpload,
        tag@ == "room_message"@ <==> kind is RoomMessage,
        tag@ == "signing_keys_upload"@ <==> kind is SigningKeysUpload,
{
    reveal_strlit("keys_upload");
    reveal_strlit("keys_query");
    reveal_strlit("keys_claim");
    reveal_strlit("to_device");
    reveal_strlit("signature_upload");
    reveal_strlit("room_message");
    reveal_strlit("signing_keys_upload");
    assert("keys_upload"@[5] == 'u');
    assert("keys_query"@[5] == 'q');
    assert("keys_claim"@[5] == 'c');
    assert("to_device"@[5] == 'v');
    assert("signature_upload"@[5] == 't');
    assert("room_message"@[5] == 'm');
    assert("signing_keys_upload"@[5] == 'n');
}

/// Two kinds supersede each other exactly where they are one standing need: the
/// same upload, claim or query. The query that the machine volunteers about this
/// account is the same need as its ordinary one; the one that was asked for by name
/// is not. A message, a signature upload and a query owed to a person are needs of
/// their own, and supersede nothing.
pub proof fn law_what_supersedes_what(
    a: PendingKind,
    b: PendingKind,
    group_a: Option<&'static str>,
    group_b: Option<&'static str>,
)
    requires
        call_ensures(PendingKind::eviction_group, (a,), group_a),
        call_ensures(PendingKind::eviction_group, (b,), group_b),
    ensures
        group_a is None <==> a is ToDevice || a is SignatureUpload || a is RoomMessage || a
            is PeerKeysQueryOutOfBand,
        group_a is Some && group_b is Some ==> (group_a->0@ == group_b->0@ <==> {
            ||| a == b
            ||| a is KeysQuery && b is AccountKeysQuery
            ||| a is AccountKeysQuery && b is KeysQuery
        }),
{
    reveal_strlit("keys_upload");
    reveal_strlit("keys_query");
    reveal_strlit("keys_claim");
    reveal_strlit("signing_keys_upload");
    reveal_strlit("account_keys_query_out_of_band");
    assert("keys_upload"@[5] == 'u');
    assert("keys_query"@[5] == 'q');
    assert("keys_claim"@[5] == 'c');
    assert("signing_keys_upload"@[5] == 'n');
    assert("account_keys_query_out_of_band"@[4] == 'u');
    assert("keys_upload"@[4] == '_');
    assert("keys_query"@[4] == '_');
    assert("keys_claim"@[4] == '_');
    assert("signing_keys_upload"@[4] == 'i');
}

} // verus!
