//! What holds of history bundles and of identifiers.

use vstd::prelude::*;
use vstd::std_specs::convert::FromSpec;

use crate::history::{build_history_bundle, built_bundle, check_offer, found_offer,
    is_encrypted_file, keys_in_bundle, offered_history_bundle, receive_history_bundle,
    report_bundle_import, share_history_bundle, BuiltBundle, HistoryBundle, HistoryError,
    HistoryImport, HistoryOffer, ReceiveCall, ScopeAndUser, SenderData, ShareBundleCall};
use crate::identifiers::{is_user, parse_scope, parse_user, parse_users};
use crate::machine::{MachineError, Trip};
use crate::requests::names;
use crate::response_laws::same_texts;
use crate::session::SessionError;
use crate::session_laws::{all_name_users, lemma_all_name_users, lemma_low_bits, lemma_names_a_scope,
    names_a_scope};

verus! {

/// An identifier that is one is given back as it is; any other is refused as one.
pub proof fn law_identifiers_are_parsed_or_refused(
    scope: &str,
    user: &str,
    users: &[String],
    parsed_scope: Result<String, SessionError>,
    parsed_user: Result<String, SessionError>,
    parsed_users: Result<Vec<String>, SessionError>,
)
    requires
        call_ensures(parse_scope, (scope,), parsed_scope),
        call_ensures(parse_user, (user,), parsed_user),
        call_ensures(parse_users, (users,), parsed_users),
    ensures
        names_a_scope(scope@) ==> (parsed_scope matches Ok(id) && id@ == scope@),
        !names_a_scope(scope@) ==> parsed_scope is Err && parsed_scope->Err_0
            == SessionError::MalformedIdentifier,
        is_user(user@) ==> (parsed_user matches Ok(id) && id@ == user@),
        !is_user(user@) ==> parsed_user is Err && parsed_user->Err_0
            == SessionError::MalformedIdentifier,
        all_name_users(users@) ==> (parsed_users matches Ok(ids) && same_texts(ids@, users@)),
        !all_name_users(users@) ==> parsed_users is Err && parsed_users->Err_0
            == SessionError::MalformedIdentifier,
{
    lemma_names_a_scope(scope@);
    lemma_all_name_users(users@);
    if let Ok(ids) = parsed_users {
        assert(names(ids@).len() == names(users@).len());
        assert forall|i: int| 0 <= i < ids@.len() implies (#[trigger] ids@[i])@ == users@[i]@ by {
            assert(names(ids@)[i] == names(users@)[i]);
        }
    }
}

/// A bundle is built for the scope that was given, if it is one.
pub proof fn law_for_which_scope_a_bundle_is_built(
    scope: &str,
    result: Result<String, HistoryError>,
)
    requires
        call_ensures(build_history_bundle, (scope,), result),
    ensures
        names_a_scope(scope@) ==> (result matches Ok(room_id) && room_id@ == scope@),
        !names_a_scope(scope@) ==> result is Err && result->Err_0
            == HistoryError::MalformedIdentifier,
{
    lemma_names_a_scope(scope@);
}

/// A bundle that the machine built is handed on as it is, with how many keys it shares
/// and how many it withholds, as far as 32 bits can count.
pub proof fn law_a_built_bundle_is_handed_on(
    built: Trip<BuiltBundle>,
    result: Result<HistoryBundle, HistoryError>,
)
    requires
        call_ensures(built_bundle, (built,), result),
    ensures
        built is NoMachine ==> result == Err::<HistoryBundle, HistoryError>(
            HistoryError::NotInitialised,
        ),
        built is Refused ==> result == Err::<HistoryBundle, HistoryError>(HistoryError::Failed),
        built matches Trip::Done(made) ==> {
            &&& made.json is None ==> result == Err::<HistoryBundle, HistoryError>(
                HistoryError::Failed,
            )
            &&& made.json matches Some(json) ==> (result matches Ok(bundle) && {
                &&& bundle.json@ == json@
                &&& made.room_keys <= u32::MAX ==> bundle.shared == made.room_keys
                &&& made.withheld <= u32::MAX ==> bundle.withheld == made.withheld
                &&& (bundle.shared - made.room_keys) % 0x1_0000_0000 == 0
                &&& (bundle.withheld - made.withheld) % 0x1_0000_0000 == 0
            })
        },
{
    if let Trip::Done(made) = built {
        lemma_low_bits(made.room_keys);
        lemma_low_bits(made.withheld);
    }
}

/// A bundle is shared in the scope, with the user and with the description that were
/// given. The identifiers are looked at before the description is.
pub proof fn law_how_a_bundle_is_shared(
    scope: &str,
    user: &str,
    file_json: &str,
    result: Result<ShareBundleCall, HistoryError>,
)
    requires
        call_ensures(share_history_bundle, (scope, user, file_json), result),
    ensures
        !(names_a_scope(scope@) && is_user(user@)) ==> result is Err && result->Err_0
            == HistoryError::MalformedIdentifier,
        names_a_scope(scope@) && is_user(user@) && !is_encrypted_file(file_json@) ==> result is Err
            && result->Err_0 == HistoryError::MalformedPayload,
        names_a_scope(scope@) && is_user(user@) && is_encrypted_file(file_json@) ==> (
        result matches Ok(call) && call.room_id@ == scope@ && call.user_id@ == user@
            && call.file_json@ == file_json@),
{
    lemma_names_a_scope(scope@);
}

/// An offer is looked up for the scope and the sender that were given.
pub proof fn law_whose_offer_is_looked_up(
    scope: &str,
    sender: &str,
    result: Result<ScopeAndUser, HistoryError>,
)
    requires
        call_ensures(offered_history_bundle, (scope, sender), result),
    ensures
        names_a_scope(scope@) && is_user(sender@) ==> (result matches Ok(ids) && ids.room_id@
            == scope@ && ids.user_id@ == sender@),
        !(names_a_scope(scope@) && is_user(sender@)) ==> result is Err && result->Err_0
            == HistoryError::MalformedIdentifier,
{
    lemma_names_a_scope(scope@);
}

/// An offer that was found is handed on as it is; that there is none is no error.
pub proof fn law_an_offer_is_handed_on(
    stored: Trip<Option<Option<String>>>,
    result: Result<Option<HistoryOffer>, HistoryError>,
)
    requires
        call_ensures(found_offer, (stored,), result),
    ensures
        stored is NoMachine ==> result is Err && result->Err_0 == HistoryError::NotInitialised,
        stored is Refused ==> result is Err && result->Err_0 == HistoryError::Failed,
        stored matches Trip::Done(None) ==> (result matches Ok(offer) && offer is None),
        stored matches Trip::Done(Some(None)) ==> result is Err && result->Err_0
            == HistoryError::Failed,
        stored matches Trip::Done(Some(Some(file))) ==> (result matches Ok(Some(offer))
            && offer.file_json@ == file@),
{
}

/// A bundle is taken in for the scope and from the sender that were given, as it is,
/// and with the number of keys that it shares. The identifiers are looked at before
/// the bundle is.
pub proof fn law_which_bundle_is_taken_in(
    scope: &str,
    sender: &str,
    bundle_json: &str,
    result: Result<ReceiveCall, HistoryError>,
)
    requires
        call_ensures(receive_history_bundle, (scope, sender, bundle_json), result),
    ensures
        !(names_a_scope(scope@) && is_user(sender@)) ==> result is Err && result->Err_0
            == HistoryError::MalformedIdentifier,
        names_a_scope(scope@) && is_user(sender@) && keys_in_bundle(bundle_json@) is None ==> result
            is Err && result->Err_0 == HistoryError::MalformedPayload,
        names_a_scope(scope@) && is_user(sender@) ==> (keys_in_bundle(bundle_json@) matches Some(
            count,
        ) ==> (result matches Ok(call) && call.room_id@ == scope@ && call.user_id@ == sender@
            && call.bundle_json@ == bundle_json@ && call.offered == count)),
{
    lemma_names_a_scope(scope@);
}

/// A bundle may be taken in exactly where it was offered by a device that its owner
/// has signed and whose owner has not changed identity.
pub proof fn law_which_offers_are_taken_up(
    stored: Trip<Option<SenderData>>,
    result: Result<(), HistoryError>,
)
    requires
        call_ensures(check_offer, (stored,), result),
    ensures
        result is Ok <==> stored == Trip::Done(Some(SenderData::SenderUnverified)) || stored
            == Trip::Done(Some(SenderData::SenderVerified)),
        stored is NoMachine ==> result == Err::<(), HistoryError>(HistoryError::NotInitialised),
        stored is Refused ==> result == Err::<(), HistoryError>(HistoryError::Failed),
        stored matches Trip::Done(None) ==> result == Err::<(), HistoryError>(
            HistoryError::NoOffer,
        ),
        stored matches Trip::Done(Some(sender)) && (sender is UnknownDevice || sender is DeviceInfo
            || sender is VerificationViolation) ==> result == Err::<(), HistoryError>(
            HistoryError::SenderNotTrusted,
        ),
{
}

/// Taking in a bundle reports the number of keys that it shares and the number that
/// the machine took in.
pub proof fn law_what_taking_in_a_bundle_reports(
    call: ReceiveCall,
    imported: Trip<u32>,
    result: Result<HistoryImport, HistoryError>,
)
    requires
        call_ensures(report_bundle_import, (&call, imported), result),
    ensures
        imported is NoMachine ==> result == Err::<HistoryImport, HistoryError>(
            HistoryError::NotInitialised,
        ),
        imported is Refused ==> result == Err::<HistoryImport, HistoryError>(HistoryError::Failed),
        imported matches Trip::Done(count) ==> (result matches Ok(report) && {
            &&& report.imported == count
            &&& call.offered <= u32::MAX ==> report.offered == call.offered
            &&& (report.offered - call.offered) % 0x1_0000_0000 == 0
        }),
{
    lemma_low_bits(call.offered);
}

/// What each error says. A machine error is that there is no machine, and of the
/// session errors only a bad identifier keeps its meaning.
pub proof fn law_what_a_history_error_says(
    machine: MachineError,
    session: SessionError,
    error: HistoryError,
    text: &'static str,
)
    requires
        call_ensures(HistoryError::message, (error,), text),
    ensures
        HistoryError::from_spec(machine) == HistoryError::NotInitialised,
        session is MalformedIdentifier ==> HistoryError::from_spec(session)
            == HistoryError::MalformedIdentifier,
        !(session is MalformedIdentifier) ==> HistoryError::from_spec(session)
            == HistoryError::Failed,
        error is MalformedIdentifier ==> text@ == "an identifier could not be parsed"@,
        error is MalformedPayload ==> text@ == "the payload could not be parsed"@,
        error is NotInitialised ==> text@ == "no crypto machine has been created"@,
        error is Failed ==> text@ == "the crypto operation failed"@,
        error is NoOffer ==> text@ == "no bundle has been offered by that sender for that scope"@,
        error is SenderNotTrusted ==> text@
            == "the sender is not trusted enough for this bundle to be imported"@,
{
}

} // verus!
