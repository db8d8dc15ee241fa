//! The requests the machine wants carried to the homeserver: what kinds there
//! are, and what is sent for each.

use vstd::prelude::*;

use crate::json::{all_json, is_json, members, object_text, raw_text, read_raw, write_number,
    write_object, Member};
use crate::session::SessionError;
use crate::text::{decimal, same_text};

verus! {

/// What a request is, and so what its answer has to be read as.
///
/// Four of these are key queries and go out under one tag. They are told apart
/// because an answer about this account settles something that an answer about
/// others does not, and because not every one of them is superseded by the next.
#[derive(Clone, Copy, Debug, PartialEq, Eq, Structural)]
pub enum PendingKind {
    KeysUpload,
    /// A key query that does not ask about this account.
    KeysQuery,
    /// A key query the machine volunteered that asks about this account.
    AccountKeysQuery,
    /// A key query about this account that was asked for by name.
    AccountKeysQueryOutOfBand,
    /// A key query owed to a person who was just verified.
    PeerKeysQueryOutOfBand,
    KeysClaim,
    ToDevice,
    SignatureUpload,
    RoomMessage,
    SigningKeysUpload,
}

/// The tag under which a request of this kind goes out.
pub open spec fn tag_of(kind: PendingKind) -> Seq<char> {
    match kind {
        PendingKind::KeysUpload => "keys_upload"@,
        PendingKind::KeysQuery => "keys_query"@,
        PendingKind::AccountKeysQuery => "keys_query"@,
        PendingKind::AccountKeysQueryOutOfBand => "keys_query"@,
        PendingKind::PeerKeysQueryOutOfBand => "keys_query"@,
        PendingKind::KeysClaim => "keys_claim"@,
        PendingKind::ToDevice => "to_device"@,
        PendingKind::SignatureUpload => "signature_upload"@,
        PendingKind::RoomMessage => "room_message"@,
        PendingKind::SigningKeysUpload => "signing_keys_upload"@,
    }
}

/// The top-level fields that a success response to a request of this kind can
/// carry.
pub open spec fn response_fields(kind: PendingKind) -> Seq<Seq<char>> {
    match kind {
        PendingKind::KeysUpload => seq!["one_time_key_counts"@],
        PendingKind::KeysClaim => seq!["failures"@, "one_time_keys"@],
        PendingKind::SignatureUpload => seq!["failures"@],
        PendingKind::RoomMessage => seq!["event_id"@],
        PendingKind::ToDevice => seq![],
        PendingKind::SigningKeysUpload => seq![],
        _ => seq![
            "failures"@,
            "device_keys"@,
            "master_keys"@,
            "self_signing_keys"@,
            "user_signing_keys"@,
        ],
    }
}

/// The group within which a newer request supersedes the older ones, if the
/// kind has one.
pub open spec fn group_of(kind: PendingKind) -> Option<Seq<char>> {
    match kind {
        PendingKind::AccountKeysQueryOutOfBand => Some("account_keys_query_out_of_band"@),
        PendingKind::ToDevice => None,
        PendingKind::SignatureUpload => None,
        PendingKind::RoomMessage => None,
        PendingKind::PeerKeysQueryOutOfBand => None,
        _ => Some(tag_of(kind)),
    }
}

/// The views of a list of texts.
pub open spec fn texts(list: Seq<&str>) -> Seq<Seq<char>> {
    list.map_values(|text: &str| text@)
}

impl PendingKind {
    /// The tag under which a request of this kind goes out.
    pub fn tag(self) -> (tag: &'static str)
        ensures
            tag@ == tag_of(self),
    {
        match self {
            PendingKind::KeysUpload => "keys_upload",
            PendingKind::KeysQuery
            | PendingKind::AccountKeysQuery
            | PendingKind::AccountKeysQueryOutOfBand
            | PendingKind::PeerKeysQueryOutOfBand => "keys_query",
            PendingKind::KeysClaim => "keys_claim",
            PendingKind::ToDevice => "to_device",
            PendingKind::SignatureUpload => "signature_upload",
            PendingKind::RoomMessage => "room_message",
            PendingKind::SigningKeysUpload => "signing_keys_upload",
        }
    }

    /// The top-level fields that a success response to a request of this kind
    /// can carry. Two kinds are answered with an empty object and have none.
    pub fn declared_response_fields(self) -> (fields: &'static [&'static str])
        ensures
            texts(fields@) == response_fields(self),
    {
        let fields: &'static [&'static str] = match self {
            PendingKind::KeysUpload => &["one_time_key_counts"],
            PendingKind::KeysQuery
            | PendingKind::AccountKeysQuery
            | PendingKind::AccountKeysQueryOutOfBand
            | PendingKind::PeerKeysQueryOutOfBand => &[
                "failures",
                "device_keys",
                "master_keys",
                "self_signing_keys",
                "user_signing_keys",
            ],
            PendingKind::KeysClaim => &["failures", "one_time_keys"],
            PendingKind::SignatureUpload => &["failures"],
            PendingKind::RoomMessage => &["event_id"],
            PendingKind::ToDevice | PendingKind::SigningKeysUpload => &[],
        };
        assert(texts(fields@) =~= response_fields(self));
        fields
    }

    /// The group within which a newer request supersedes the older ones.
    ///
    /// The machine mints a new identifier for the same standing need whenever it
    /// is asked, so an identifier from an earlier batch would otherwise never
    /// leave the list. A to-device message, a signature upload, a room message
    /// and a query owed to a verified person are each a need of their own.
    pub fn eviction_group(self) -> (group: Option<&'static str>)
        ensures
            match group {
                Some(group) => group_of(self) == Some(group@),
                None => group_of(self) is None,
            },
    {
        match self {
            PendingKind::KeysUpload
            | PendingKind::KeysQuery
            | PendingKind::AccountKeysQuery
            | PendingKind::KeysClaim
            | PendingKind::SigningKeysUpload => Some(self.tag()),
            PendingKind::AccountKeysQueryOutOfBand => Some("account_keys_query_out_of_band"),
            PendingKind::ToDevice
            | PendingKind::SignatureUpload
            | PendingKind::RoomMessage
            | PendingKind::PeerKeysQueryOutOfBand => None,
        }
    }
}

/// One value of a request, serialised.
pub enum Part {
    /// Its JSON text.
    Json(String),
    /// It would not serialise.
    Unserialisable,
}

/// The JSON text of a part, if it has one.
pub open spec fn part_text(part: Part) -> Option<Seq<char>> {
    match part {
        Part::Json(text) => raw_text(text@),
        Part::Unserialisable => None,
    }
}

/// A map of a request: how many entries it has, and the map serialised.
pub struct MapPart {
    pub entries: usize,
    pub json: Part,
}

/// An upload of device keys, one-time keys and fallback keys.
pub struct KeysUploadParts {
    pub device_keys: Option<Part>,
    pub one_time_keys: MapPart,
    pub fallback_keys: MapPart,
}

/// A query for the keys of users.
pub struct KeysQueryParts {
    /// The users the query asks about.
    pub users: Vec<String>,
    /// The same users, with the devices asked about, serialised.
    pub device_keys: Part,
    pub timeout_millis: Option<u128>,
}

/// A claim of one-time keys.
pub struct KeysClaimParts {
    pub one_time_keys: Part,
    pub timeout_millis: Option<u128>,
}

/// An upload of the public signing keys of an identity.
pub struct SigningKeysParts {
    pub master_key: Option<Part>,
    pub self_signing_key: Option<Part>,
    pub user_signing_key: Option<Part>,
}

/// A message to a room.
pub struct RoomMessageParts {
    pub room_id: Part,
    pub event_type: Part,
    pub txn_id: Part,
    pub content: Part,
}

/// A request of the machine, taken apart into what is sent.
pub enum OutgoingParts {
    KeysUpload(KeysUploadParts),
    KeysQuery(KeysQueryParts),
    KeysClaim(KeysClaimParts),
    /// A to-device message, serialised as a whole.
    ToDevice(Part),
    /// The signed keys, which are the whole body.
    SignatureUpload(Part),
    RoomMessage(RoomMessageParts),
}

/// Adds a member to what there is of an object, unless the part is absent.
/// There is no object left if the part did not serialise.
pub open spec fn with_part(
    object: Option<Map<Seq<char>, Seq<char>>>,
    name: Seq<char>,
    part: Option<Part>,
) -> Option<Map<Seq<char>, Seq<char>>> {
    match (object, part) {
        (None, _) => None,
        (Some(object), None) => Some(object),
        (Some(object), Some(part)) => match part_text(part) {
            None => None,
            Some(text) => Some(object.insert(name, text)),
        },
    }
}

/// Adds the timeout in milliseconds, as 64 bits hold it, if there is one.
pub open spec fn with_timeout(
    object: Option<Map<Seq<char>, Seq<char>>>,
    millis: Option<u128>,
) -> Option<Map<Seq<char>, Seq<char>>> {
    match (object, millis) {
        (Some(object), Some(millis)) => Some(
            object.insert("timeout"@, decimal((millis as u64) as nat)),
        ),
        _ => object,
    }
}

/// The text of what there is of an object.
pub open spec fn object_body(object: Option<Map<Seq<char>, Seq<char>>>) -> Option<Seq<char>> {
    match object {
        Some(object) => Some(object_text(object)),
        None => None,
    }
}

/// No members yet.
pub open spec fn no_members() -> Option<Map<Seq<char>, Seq<char>>> {
    Some(Map::empty())
}

/// The map, unless it has no entries.
pub open spec fn unless_empty(map: MapPart) -> Option<Part> {
    if map.entries == 0 {
        None
    } else {
        Some(map.json)
    }
}

/// The body of a key upload: what is absent or empty is left out.
pub open spec fn keys_upload_body(r: KeysUploadParts) -> Option<Seq<char>> {
    object_body(
        with_part(
            with_part(
                with_part(no_members(), "device_keys"@, r.device_keys),
                "one_time_keys"@,
                unless_empty(r.one_time_keys),
            ),
            "fallback_keys"@,
            unless_empty(r.fallback_keys),
        ),
    )
}

/// The body of a key query: the users always, even none, and the timeout if
/// there is one.
pub open spec fn keys_query_body(r: KeysQueryParts) -> Option<Seq<char>> {
    object_body(
        with_timeout(
            with_part(no_members(), "device_keys"@, Some(r.device_keys)),
            r.timeout_millis,
        ),
    )
}

/// The body of a key claim: the keys always, and the timeout if there is one.
pub open spec fn keys_claim_body(r: KeysClaimParts) -> Option<Seq<char>> {
    object_body(
        with_timeout(
            with_part(no_members(), "one_time_keys"@, Some(r.one_time_keys)),
            r.timeout_millis,
        ),
    )
}

/// The body of a signing-keys upload: the keys that are there.
pub open spec fn signing_keys_body(r: SigningKeysParts) -> Option<Seq<char>> {
    object_body(
        with_part(
            with_part(
                with_part(no_members(), "master_key"@, r.master_key),
                "self_signing_key"@,
                r.self_signing_key,
            ),
            "user_signing_key"@,
            r.user_signing_key,
        ),
    )
}

/// The body of a room message: the three values its address is made of, and the
/// content.
pub open spec fn room_message_body(r: RoomMessageParts) -> Option<Seq<char>> {
    object_body(
        with_part(
            with_part(
                with_part(
                    with_part(no_members(), "room_id"@, Some(r.room_id)),
                    "event_type"@,
                    Some(r.event_type),
                ),
                "txn_id"@,
                Some(r.txn_id),
            ),
            "content"@,
            Some(r.content),
        ),
    )
}

/// The body of a request that is one serialised value as a whole.
pub open spec fn whole_body(part: Part) -> Option<Seq<char>> {
    part_text(part)
}

/// The kind a request goes out as, before it is asked whom it is about.
pub open spec fn kind_of(request: OutgoingParts) -> PendingKind {
    match request {
        OutgoingParts::KeysUpload(_) => PendingKind::KeysUpload,
        OutgoingParts::KeysQuery(_) => PendingKind::KeysQuery,
        OutgoingParts::KeysClaim(_) => PendingKind::KeysClaim,
        OutgoingParts::ToDevice(_) => PendingKind::ToDevice,
        OutgoingParts::SignatureUpload(_) => PendingKind::SignatureUpload,
        OutgoingParts::RoomMessage(_) => PendingKind::RoomMessage,
    }
}

/// The body a request goes out with, if all of it serialised.
pub open spec fn body_of(request: OutgoingParts) -> Option<Seq<char>> {
    match request {
        OutgoingParts::KeysUpload(r) => keys_upload_body(r),
        OutgoingParts::KeysQuery(r) => keys_query_body(r),
        OutgoingParts::KeysClaim(r) => keys_claim_body(r),
        OutgoingParts::ToDevice(part) => whole_body(part),
        OutgoingParts::SignatureUpload(part) => whole_body(part),
        OutgoingParts::RoomMessage(r) => room_message_body(r),
    }
}

/// What there is of an object while its members are being gathered.
pub open spec fn gathered(list: Option<Vec<Member>>) -> Option<Map<Seq<char>, Seq<char>>> {
    match list {
        Some(list) => Some(members(list@)),
        None => None,
    }
}

/// Whether what has been gathered can be written.
pub open spec fn writable(list: Option<Vec<Member>>) -> bool {
    list matches Some(list) ==> all_json(list@)
}

/// Starts an object with no members.
fn gather() -> (list: Option<Vec<Member>>)
    ensures
        gathered(list) == no_members(),
        writable(list),
{
    Some(Vec::new())
}

/// Adds one member to the list.
fn add_member(list: Vec<Member>, name: &str, json: String) -> (grown: Vec<Member>)
    requires
        all_json(list@),
        is_json(json@),
    ensures
        members(grown@) == members(list@).insert(name@, json@),
        all_json(grown@),
{
    let mut grown: Vec<Member> = list;
    let ghost before = grown@;
    grown.push(Member { name: name.to_owned(), json });
    assert(grown@.drop_last() =~= before);
    grown
}

/// The JSON text of a part.
pub(crate) fn part_json(part: &Part) -> (json: Option<String>)
    ensures
        match json {
            Some(json) => part_text(*part) == Some(json@) && is_json(json@),
            None => part_text(*part) is None,
        },
{
    match part {
        Part::Json(text) => read_raw(text.as_str()),
        Part::Unserialisable => None,
    }
}

/// Adds a part under a name, unless it is absent.
fn add_part(list: Option<Vec<Member>>, name: &str, part: Option<&Part>) -> (grown: Option<
    Vec<Member>,
>)
    requires
        writable(list),
    ensures
        gathered(grown) == with_part(
            gathered(list),
            name@,
            match part {
                Some(part) => Some(*part),
                None => None,
            },
        ),
        writable(grown),
{
    match (list, part) {
        (None, _) => None,
        (Some(list), None) => Some(list),
        (Some(list), Some(part)) => match part_json(part) {
            None => None,
            Some(json) => Some(add_member(list, name, json)),
        },
    }
}

/// Adds the timeout, if there is one.
fn add_timeout(list: Option<Vec<Member>>, millis: Option<u128>) -> (grown: Option<Vec<Member>>)
    requires
        writable(list),
    ensures
        gathered(grown) == with_timeout(gathered(list), millis),
        writable(grown),
{
    match (list, millis) {
        (Some(list), Some(millis)) => {
            let number: u64 = #[verifier::truncate]
            (millis as u64);
            Some(add_member(list, "timeout", write_number(number)))
        },
        (list, _) => list,
    }
}

/// Writes what was gathered.
fn finish_object(list: Option<Vec<Member>>) -> (body: Option<String>)
    requires
        writable(list),
    ensures
        match body {
            Some(body) => object_body(gathered(list)) == Some(body@),
            None => object_body(gathered(list)) is None,
        },
{
    match list {
        Some(list) => write_object(list),
        None => None,
    }
}

/// Turns what there is of a body into a result.
fn body_or_failed(body: Option<String>) -> (result: Result<String, SessionError>)
    ensures
        match result {
            Ok(text) => body == Some(text),
            Err(error) => body is None && error is Failed,
        },
{
    match body {
        Some(body) => Ok(body),
        None => Err(SessionError::Failed),
    }
}

/// The body of a key claim.
pub fn describe_keys_claim(r: &KeysClaimParts) -> (result: Result<String, SessionError>)
    ensures
        match result {
            Ok(body) => keys_claim_body(*r) == Some(body@),
            Err(error) => keys_claim_body(*r) is None && error is Failed,
        },
{
    let list = add_part(gather(), "one_time_keys", Some(&r.one_time_keys));
    body_or_failed(finish_object(add_timeout(list, r.timeout_millis)))
}

/// The body of a key query.
pub fn describe_keys_query(r: &KeysQueryParts) -> (result: Result<String, SessionError>)
    ensures
        match result {
            Ok(body) => keys_query_body(*r) == Some(body@),
            Err(error) => keys_query_body(*r) is None && error is Failed,
        },
{
    let list = add_part(gather(), "device_keys", Some(&r.device_keys));
    body_or_failed(finish_object(add_timeout(list, r.timeout_millis)))
}

/// The body of a signing-keys upload.
pub fn describe_signing_keys(r: &SigningKeysParts) -> (result: Result<String, SessionError>)
    ensures
        match result {
            Ok(body) => signing_keys_body(*r) == Some(body@),
            Err(error) => signing_keys_body(*r) is None && error is Failed,
        },
{
    let list = add_part(gather(), "master_key", r.master_key.as_ref());
    let list = add_part(list, "self_signing_key", r.self_signing_key.as_ref());
    let list = add_part(list, "user_signing_key", r.user_signing_key.as_ref());
    body_or_failed(finish_object(list))
}

/// The part of a map, unless it has no entries.
fn entries_of(map: &MapPart) -> (part: Option<&Part>)
    ensures
        match part {
            Some(part) => unless_empty(*map) == Some(*part),
            None => unless_empty(*map) is None,
        },
{
    if map.entries == 0 {
        None
    } else {
        Some(&map.json)
    }
}

/// The kind a request goes out as and the body it is sent with. A request part
/// of which would not serialise is refused whole.
pub fn describe_outgoing(request: &OutgoingParts) -> (result: Result<
    (PendingKind, String),
    SessionError,
>)
    ensures
        match result {
            Ok((kind, body)) => kind == kind_of(*request) && body_of(*request) == Some(body@),
            Err(error) => body_of(*request) is None && error is Failed,
        },
{
    let (kind, body): (PendingKind, Option<String>) = match request {
        OutgoingParts::KeysUpload(r) => {
            let list = add_part(gather(), "device_keys", r.device_keys.as_ref());
            let list = add_part(list, "one_time_keys", entries_of(&r.one_time_keys));
            let list = add_part(list, "fallback_keys", entries_of(&r.fallback_keys));
            (PendingKind::KeysUpload, finish_object(list))
        },
        OutgoingParts::KeysQuery(r) => match describe_keys_query(r) {
            Ok(body) => (PendingKind::KeysQuery, Some(body)),
            Err(_) => (PendingKind::KeysQuery, None),
        },
        OutgoingParts::KeysClaim(r) => match describe_keys_claim(r) {
            Ok(body) => (PendingKind::KeysClaim, Some(body)),
            Err(_) => (PendingKind::KeysClaim, None),
        },
        OutgoingParts::ToDevice(part) => (PendingKind::ToDevice, part_json(part)),
        OutgoingParts::SignatureUpload(part) => (PendingKind::SignatureUpload, part_json(part)),
        OutgoingParts::RoomMessage(r) => {
            let list = add_part(gather(), "room_id", Some(&r.room_id));
            let list = add_part(list, "event_type", Some(&r.event_type));
            let list = add_part(list, "txn_id", Some(&r.txn_id));
            let list = add_part(list, "content", Some(&r.content));
            (PendingKind::RoomMessage, finish_object(list))
        },
    };
    match body_or_failed(body) {
        Ok(body) => Ok((kind, body)),
        Err(error) => Err(error),
    }
}

/// The views of a list of owned texts.
pub open spec fn names(list: Seq<String>) -> Seq<Seq<char>> {
    list.map_values(|name: String| name@)
}

/// The users a request asks about, if it is a key query.
pub open spec fn asks_about(request: OutgoingParts) -> Seq<Seq<char>> {
    match request {
        OutgoingParts::KeysQuery(r) => names(r.users@),
        _ => seq![],
    }
}

/// A key query that asks about this account is an account query; every other
/// request is what it was.
pub open spec fn scoped(kind: PendingKind, users: Seq<Seq<char>>, account: Seq<char>) -> PendingKind {
    if kind is KeysQuery && users.contains(account) {
        PendingKind::AccountKeysQuery
    } else {
        kind
    }
}

/// Whether the list names the text.
pub(crate) fn lists(list: &Vec<String>, text: &str) -> (found: bool)
    ensures
        found == names(list@).contains(text@),
{
    let mut i: usize = 0;
    while i < list.len()
        invariant
            i <= list@.len(),
            forall|j: int| 0 <= j < i ==> list@[j]@ != text@,
        decreases list@.len() - i,
    {
        if same_text(list[i].as_str(), text) {
            assert(names(list@)[i as int] == text@);
            return true;
        }
        i = i + 1;
    }
    assert forall|j: int| 0 <= j < names(list@).len() implies names(list@)[j] != text@ by {
        assert(list@[j]@ != text@);
    }
    false
}

/// The kind of a request, narrowed to an account query where it asks about this
/// account.
pub fn account_scoped(kind: PendingKind, request: &OutgoingParts, account: &str) -> (narrowed:
    PendingKind)
    ensures
        narrowed == scoped(kind, asks_about(*request), account@),
{
    match (kind, request) {
        (PendingKind::KeysQuery, OutgoingParts::KeysQuery(r)) => if lists(&r.users, account) {
            PendingKind::AccountKeysQuery
        } else {
            kind
        },
        (kind, _) => {
            kind
        },
    }
}

} // verus!
