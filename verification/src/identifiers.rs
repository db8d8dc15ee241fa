//! Identifiers of scopes and users.

use matrix_sdk_common::ruma::{OwnedRoomId, OwnedUserId, TransactionId};
use vstd::prelude::*;

use crate::requests::names;
use crate::session::SessionError;

verus! {

/// What a scope identifier is: a text that begins with `!` and holds no NUL.
pub open spec fn is_scope(text: Seq<char>) -> bool {
    text.len() > 0 && text[0] == '!' && !text.contains('\0')
}

/// What a user identifier is.
pub uninterp spec fn is_user(text: Seq<char>) -> bool;

/// Parses a scope identifier with `ruma`'s `OwnedRoomId::from_str`.
///
/// Trusted: it accepts what begins with `!` and holds no NUL, of any length,
/// which is how the feature that `matrix-sdk-crypto` switches on leaves it.
#[verifier::external_body]
fn reads_as_scope(text: &str) -> (answer: bool)
    ensures
        answer == is_scope(text@),
{
    text.parse::<OwnedRoomId>().is_ok()
}

/// Parses a user identifier with `ruma`'s `OwnedUserId::from_str`.
///
/// Trusted: whether it accepts is a function of the text alone, named
/// [`is_user`]. What it accepts begins with `@` and holds a colon.
#[verifier::external_body]
fn reads_as_user(text: &str) -> (answer: bool)
    ensures
        answer == is_user(text@),
        answer ==> text@.len() > 0 && text@[0] == '@' && text@.contains(':'),
{
    text.parse::<OwnedUserId>().is_ok()
}

/// Draws a transaction identifier with `ruma`'s `TransactionId::new`.
///
/// Trusted: nothing. The identifier is drawn at random.
#[verifier::external_body]
pub(crate) fn fresh_transaction_id() -> String {
    TransactionId::new().to_string()
}

/// Parses a scope identifier.
pub fn parse_scope(scope: &str) -> (result: Result<String, SessionError>)
    ensures
        match result {
            Ok(id) => is_scope(scope@) && id@ == scope@,
            Err(error) => !is_scope(scope@) && error is MalformedIdentifier,
        },
{
    if reads_as_scope(scope) {
        Ok(scope.to_owned())
    } else {
        Err(SessionError::MalformedIdentifier)
    }
}

/// Parses a user identifier. What is one begins with `@` and holds a colon.
pub fn parse_user(user: &str) -> (result: Result<String, SessionError>)
    ensures
        match result {
            Ok(id) => {
                &&& is_user(user@)
                &&& id@ == user@
                &&& user@.len() > 0 && user@[0] == '@'
                &&& user@.contains(':')
            },
            Err(error) => !is_user(user@) && error is MalformedIdentifier,
        },
{
    if reads_as_user(user) {
        Ok(user.to_owned())
    } else {
        Err(SessionError::MalformedIdentifier)
    }
}

/// Whether every text of the list is a user identifier.
pub open spec fn all_users(list: Seq<Seq<char>>) -> bool {
    forall|i: int| 0 <= i < list.len() ==> is_user(#[trigger] list[i])
}

/// Parses a list of user identifiers.
pub fn parse_users(users: &[String]) -> (result: Result<Vec<String>, SessionError>)
    ensures
        match result {
            Ok(ids) => all_users(names(users@)) && names(ids@) == names(users@),
            Err(error) => !all_users(names(users@)) && error is MalformedIdentifier,
        },
{
    let mut ids: Vec<String> = Vec::new();
    let mut i: usize = 0;
    while i < users.len()
        invariant
            i <= users@.len(),
            names(ids@) == names(users@).take(i as int),
            forall|j: int| 0 <= j < i ==> is_user(#[trigger] names(users@)[j]),
        decreases users@.len() - i,
    {
        assert(names(users@)[i as int] == users@[i as int]@);
        match parse_user(users[i].as_str()) {
            Ok(id) => {
                let ghost before = names(ids@);
                ids.push(id);
                assert(names(ids@) =~= before.push(id@));
                assert(names(users@).take(i + 1) =~= names(users@).take(i as int).push(
                    users@[i as int]@,
                ));
            },
            Err(error) => {
                return Err(error);
            },
        }
        i = i + 1;
    }
    assert(names(users@).take(i as int) =~= names(users@));
    Ok(ids)
}

} // verus!
