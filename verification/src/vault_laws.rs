//! What holds of key vaults.

use vstd::prelude::*;
use vstd::std_specs::convert::FromSpec;

use crate::backup::BackupImport;
use crate::machine::{MachineError, Trip};
use crate::requests::names;
use crate::session_laws::lemma_low_bits;
use crate::text::is_space;
use crate::vault::{all_exported, base64_bytes, create_key_vault, exported_keys, first_line,
    is_exported_key, later_lines, line_length, open_key_vault, payload, payload_of_line,
    report_vault_import, rewritten_key, seal_keys, trimmed_end, trimmed_start, vault_code,
    KeyExportFault, VaultError};

verus! {

/// Whether a text is another between white space.
pub open spec fn is_spaced(text: Seq<char>, before: Seq<char>, inner: Seq<char>, after: Seq<char>) -> bool {
    &&& text == before + inner + after
    &&& forall|i: int| 0 <= i < before.len() ==> is_space(#[trigger] before[i])
    &&& forall|i: int| 0 <= i < after.len() ==> is_space(#[trigger] after[i])
    &&& inner.len() > 0
    &&& !is_space(inner[0])
    &&& !is_space(inner.last())
}

/// The line a vault begins with.
pub open spec fn first_of_frame() -> Seq<char> {
    "-----BEGIN MEGOLM SESSION DATA-----"@
}

/// The line a vault ends with.
pub open spec fn last_of_frame() -> Seq<char> {
    "-----END MEGOLM SESSION DATA-----"@
}

proof fn lemma_trimmed_start(before: Seq<char>, rest: Seq<char>)
    requires
        forall|i: int| 0 <= i < before.len() ==> is_space(#[trigger] before[i]),
        rest.len() > 0,
        !is_space(rest[0]),
    ensures
        trimmed_start(before + rest) == rest,
    decreases before.len(),
{
    if before.len() == 0 {
        assert(before + rest =~= rest);
    } else {
        let text = before + rest;
        assert(text[0] == before[0]);
        assert(text.skip(1) =~= before.skip(1) + rest);
        assert forall|i: int| 0 <= i < before.skip(1).len() implies is_space(
            #[trigger] before.skip(1)[i],
        ) by {
            assert(before.skip(1)[i] == before[i + 1]);
        }
        lemma_trimmed_start(before.skip(1), rest);
    }
}

proof fn lemma_trimmed_end(rest: Seq<char>, after: Seq<char>)
    requires
        forall|i: int| 0 <= i < after.len() ==> is_space(#[trigger] after[i]),
        rest.len() > 0,
        !is_space(rest.last()),
    ensures
        trimmed_end(rest + after) == rest,
    decreases after.len(),
{
    if after.len() == 0 {
        assert(rest + after =~= rest);
    } else {
        let text = rest + after;
        assert(text.last() == after.last());
        assert(after[after.len() - 1] == after.last());
        assert(text.drop_last() =~= rest + after.drop_last());
        assert forall|i: int| 0 <= i < after.drop_last().len() implies is_space(
            #[trigger] after.drop_last()[i],
        ) by {
            assert(after.drop_last()[i] == after[i]);
        }
        lemma_trimmed_end(rest, after.drop_last());
    }
}

proof fn lemma_line_length(line: Seq<char>, rest: Seq<char>)
    requires
        forall|i: int| 0 <= i < line.len() ==> #[trigger] line[i] != '\n',
        rest.len() == 0 || rest[0] == '\n',
    ensures
        line_length(line + rest) == line.len(),
    decreases line.len(),
{
    let text = line + rest;
    if line.len() > 0 {
        assert(text[0] == line[0]);
        assert(text.skip(1) =~= line.skip(1) + rest);
        assert forall|i: int| 0 <= i < line.skip(1).len() implies #[trigger] line.skip(1)[i]
            != '\n' by {
            assert(line.skip(1)[i] == line[i + 1]);
        }
        lemma_line_length(line.skip(1), rest);
    } else {
        assert(text =~= rest);
    }
}

/// What a line that ends in a line break adds to the payload: nothing if it begins as
/// the frame does, and else all of it, without a carriage return at its end.
pub open spec fn is_added(line: Seq<char>, added: Seq<char>) -> bool {
    let bare = if line.len() > 0 && line.last() == '\r' {
        line.drop_last()
    } else {
        line
    };
    if first_of_frame().is_prefix_of(bare) || last_of_frame().is_prefix_of(bare) {
        added.len() == 0
    } else {
        added == bare
    }
}

/// The payload of a file is what its lines add, one after the other.
pub proof fn law_a_payload_is_gathered_line_by_line(
    line: Seq<char>,
    rest: Seq<char>,
    added: Seq<char>,
)
    requires
        forall|i: int| 0 <= i < line.len() ==> #[trigger] line[i] != '\n',
        is_added(line, added),
    ensures
        payload(line.push('\n') + rest) == added + payload(rest),
{
    let text = line.push('\n') + rest;
    let tail = seq!['\n'] + rest;
    assert(text =~= line + tail);
    assert(tail[0] == '\n');
    lemma_line_length(line, tail);
    assert(text[line.len() as int] == '\n');
    if line.len() > 0 {
        assert(text[line.len() - 1] == line.last());
    }
    assert(text.take(line.len() as int) =~= line);
    if line.len() > 0 {
        assert(text.take(line.len() - 1) =~= line.drop_last());
    }
    assert(later_lines(text) =~= rest);
    assert(added =~= payload_of_line(first_line(text)));
}

/// The last line of a file adds itself to the payload unless it begins as the frame
/// does; nothing is taken from its end.
pub proof fn law_the_last_line_of_a_payload(line: Seq<char>)
    requires
        forall|i: int| 0 <= i < line.len() ==> #[trigger] line[i] != '\n',
    ensures
        first_of_frame().is_prefix_of(line) || last_of_frame().is_prefix_of(line) ==> payload(
            line,
        ).len() == 0,
        !first_of_frame().is_prefix_of(line) && !last_of_frame().is_prefix_of(line) ==> payload(
            line,
        ) == line,
{
    assert(line + Seq::<char>::empty() =~= line);
    lemma_line_length(line, Seq::empty());
    assert(line.take(line.len() as int) =~= line);
    if line.len() > 0 {
        assert(later_lines(line) =~= Seq::empty());
        assert(payload(Seq::<char>::empty()) =~= Seq::empty());
        assert(payload(line) =~= payload_of_line(line));
    } else {
        assert(payload(line) =~= line);
    }
}

/// Whether a file, between white space, begins with the first line of the frame and
/// ends with the last.
pub open spec fn is_in_a_frame(inner: Seq<char>) -> bool {
    first_of_frame().is_prefix_of(inner) && last_of_frame().is_suffix_of(inner)
}

/// What opening a vault comes to, whatever white space is around it. A file out of
/// its frame, one that is not base64, one too short for what comes before the keys
/// and one of another version is malformed, whatever the passphrase. Any other has
/// another passphrase where it has no room for keys, or where the passphrase does
/// not give the authentication code at its end. Where it does, the keys come out, all
/// of them and as they are, or are malformed.
pub proof fn law_what_opening_a_vault_comes_to(
    vault: &str,
    passphrase: &str,
    result: Result<Vec<String>, VaultError>,
    before: Seq<char>,
    inner: Seq<char>,
    after: Seq<char>,
)
    requires
        call_ensures(open_key_vault, (vault, passphrase), result),
        is_spaced(vault@, before, inner, after),
    ensures
        ({
            let malformed = Err::<Vec<String>, VaultError>(VaultError::MalformedPayload);
            let wrong = Err::<Vec<String>, VaultError>(VaultError::WrongPassphrase);
            let decoded = base64_bytes(payload(vault@));
            &&& !is_in_a_frame(inner) || decoded is None ==> result == malformed
            &&& is_in_a_frame(inner) ==> (decoded matches Some(bytes) ==> {
                &&& bytes.len() < 37 || bytes[0] != 1 ==> result == malformed
                &&& bytes.len() >= 37 && bytes[0] == 1 ==> {
                    let fits = bytes.len() >= 69 && vault_code(vault@, passphrase@) == bytes.skip(
                        bytes.len() - 32,
                    );
                    &&& !fits ==> result == wrong
                    &&& fits ==> match exported_keys(vault@, passphrase@) {
                        Err(_) => result == malformed,
                        Ok(keys) => result matches Ok(list) && list@.len() == keys.len()
                            && forall|i: int|
                            0 <= i < keys.len() ==> (#[trigger] list@[i])@ == keys[i],
                    }
                }
            })
        }),
{
    assert(vault@ =~= before + (inner + after));
    assert((inner + after)[0] == inner[0]);
    lemma_trimmed_start(before, inner + after);
    assert((before + inner).last() == inner.last());
    lemma_trimmed_end(before + inner, after);
    lemma_frame(before, inner, after);
    if let Ok(list) = result {
        assert(names(list@).len() == list@.len());
        assert forall|i: int| 0 <= i < list@.len() implies (#[trigger] list@[i])@ == names(
            list@,
        )[i] by {
        }
    }
}

/// White space around a file does not matter to its frame.
proof fn lemma_frame(before: Seq<char>, inner: Seq<char>, after: Seq<char>)
    requires
        is_spaced(before + inner + after, before, inner, after),
    ensures
        first_of_frame().is_prefix_of(inner + after) == first_of_frame().is_prefix_of(inner),
        last_of_frame().is_suffix_of(before + inner) == last_of_frame().is_suffix_of(inner),
{
    let head = first_of_frame();
    let foot = last_of_frame();
    reveal_strlit("-----BEGIN MEGOLM SESSION DATA-----");
    reveal_strlit("-----END MEGOLM SESSION DATA-----");
    assert(head.len() == 35);
    assert(foot.len() == 33);
    if inner.len() >= head.len() {
        assert((inner + after).subrange(0, head.len() as int) =~= inner.subrange(
            0,
            head.len() as int,
        ));
    } else if head.is_prefix_of(inner + after) {
        assert(head[34] == '-');
        let wide = inner + after;
        assert(wide.subrange(0, 35) == head);
        assert(wide[34] == head[34]);
        assert(wide[34] == after[34 - inner.len()]);
        assert(false);
    }
    let wide = before + inner;
    if inner.len() >= foot.len() {
        assert(wide.subrange(wide.len() - foot.len(), wide.len() as int) =~= inner.subrange(
            inner.len() - foot.len(),
            inner.len() as int,
        ));
    } else if foot.is_suffix_of(wide) {
        assert(foot[0] == '-');
        assert(wide.subrange(wide.len() - 33, wide.len() as int) == foot);
        assert(wide[wide.len() - 33] == foot[0]);
        assert(wide[wide.len() - 33] == before[wide.len() - 33]);
        assert(false);
    }
}

/// Whether `serde_json` writes an exported key as it reads it, for every text.
pub open spec fn are_exported(keys: Seq<String>) -> bool {
    forall|i: int| 0 <= i < keys.len() ==> rewritten_key((#[trigger] keys[i])@) == Some(keys[i]@)
}

proof fn lemma_are_exported(keys: Seq<String>)
    ensures
        all_exported(names(keys)) == are_exported(keys),
{
    if all_exported(names(keys)) {
        assert forall|i: int| 0 <= i < keys.len() implies rewritten_key((#[trigger] keys[i])@)
            == Some(keys[i]@) by {
            assert(is_exported_key(names(keys)[i]));
        }
    }
    if are_exported(keys) {
        assert forall|i: int| 0 <= i < names(keys).len() implies is_exported_key(
            #[trigger] names(keys)[i],
        ) by {
            assert(rewritten_key(keys[i]@) == Some(keys[i]@));
        }
    }
}

/// Whether a vault says that its passphrase is stretched so many times: the four
/// bytes after the version, the salt and the initialisation vector are the number.
pub open spec fn says_rounds(vault: Seq<char>, rounds: int) -> bool {
    &&& base64_bytes(payload(vault)) matches Some(bytes)
    &&& bytes.len() >= 37
    &&& ((bytes[33] * 256 + bytes[34]) * 256 + bytes[35]) * 256 + bytes[36] == rounds
}

/// What is put into a vault comes out of it: sealing succeeds exactly for exported
/// keys, the vault is in its frame and says how often the passphrase is stretched,
/// and opening it with that passphrase gives the keys back, all of them, in their
/// order and as they were.
pub proof fn law_sealing_and_opening(
    passphrase: &str,
    keys: Vec<String>,
    rounds: u32,
    sealed: Result<String, VaultError>,
    vault: &str,
    opened: Result<Vec<String>, VaultError>,
)
    requires
        call_ensures(seal_keys, (passphrase, &keys, rounds), sealed),
        sealed is Ok ==> vault@ == sealed->Ok_0@,
        call_ensures(open_key_vault, (vault, passphrase), opened),
    ensures
        sealed is Ok <==> are_exported(keys@),
        sealed is Err ==> sealed->Err_0 == VaultError::Failed,
        sealed is Ok ==> {
            &&& is_in_a_frame(vault@)
            &&& says_rounds(vault@, rounds as int)
            &&& opened matches Ok(list) && list@.len() == keys@.len() && forall|i: int|
                0 <= i < keys@.len() ==> (#[trigger] list@[i])@ == keys@[i]@
        },
{
    lemma_are_exported(keys@);
    if sealed is Ok {
        let list = opened->Ok_0;
        assert(names(list@) == names(keys@));
        assert(names(list@).len() == list@.len() && names(keys@).len() == keys@.len());
        assert forall|i: int| 0 <= i < keys@.len() implies (#[trigger] list@[i])@ == keys@[i]@ by {
            assert(names(list@)[i] == names(keys@)[i]);
        }
    }
}

/// A vault of all that the machine holds is sealed with half a million rounds, and
/// its passphrase gives the keys back. Without a machine there is none, and where the
/// machine refused, or what it gave are not keys, making it failed.
pub proof fn law_creating_and_opening(
    passphrase: &str,
    keys: Trip<Vec<String>>,
    created: Result<String, VaultError>,
    vault: &str,
    opened: Result<Vec<String>, VaultError>,
)
    requires
        call_ensures(create_key_vault, (passphrase, keys), created),
        created is Ok ==> vault@ == created->Ok_0@,
        call_ensures(open_key_vault, (vault, passphrase), opened),
    ensures
        keys is NoMachine ==> created == Err::<String, VaultError>(VaultError::NotInitialised),
        keys is Refused ==> created == Err::<String, VaultError>(VaultError::Failed),
        keys matches Trip::Done(held) ==> {
            &&& !are_exported(held@) ==> created == Err::<String, VaultError>(VaultError::Failed)
            &&& are_exported(held@) ==> {
                &&& created is Ok
                &&& is_in_a_frame(vault@)
                &&& says_rounds(vault@, 500_000)
                &&& opened matches Ok(list) && list@.len() == held@.len() && forall|i: int|
                    0 <= i < held@.len() ==> (#[trigger] list@[i])@ == held@[i]@
            }
        },
{
    if let Trip::Done(held) = keys {
        lemma_are_exported(held@);
        if are_exported(held@) {
            let list = opened->Ok_0;
            assert(names(list@) == names(held@));
            assert(names(list@).len() == list@.len() && names(held@).len() == held@.len());
            assert forall|i: int| 0 <= i < held@.len() implies (#[trigger] list@[i])@
                == held@[i]@ by {
                assert(names(list@)[i] == names(held@)[i]);
            }
        }
    }
}

/// An import from a vault reports the number that were offered and the number that
/// the machine found to be new, as far as 32 bits can count.
pub proof fn law_what_an_import_from_a_vault_reports(
    offered: usize,
    imported: Trip<usize>,
    result: Result<BackupImport, VaultError>,
)
    requires
        call_ensures(report_vault_import, (offered, imported), result),
    ensures
        imported is NoMachine ==> result == Err::<BackupImport, VaultError>(
            VaultError::NotInitialised,
        ),
        imported is Refused ==> result == Err::<BackupImport, VaultError>(VaultError::Failed),
        imported matches Trip::Done(count) ==> (result matches Ok(report) && {
            &&& offered <= u32::MAX ==> report.offered == offered
            &&& count <= u32::MAX ==> report.imported == count
            &&& (report.offered - offered) % 0x1_0000_0000 == 0
            &&& (report.imported - count) % 0x1_0000_0000 == 0
        }),
{
    lemma_low_bits(offered);
    if let Trip::Done(count) = imported {
        lemma_low_bits(count);
    }
}

/// Only an authentication code that does not fit is the passphrase's fault, and every
/// other is the file's; a machine error is that there is no machine. Each error says
/// what it is.
pub proof fn law_what_a_vault_error_says(
    fault: KeyExportFault,
    machine: MachineError,
    error: VaultError,
    text: &'static str,
)
    requires
        call_ensures(VaultError::message, (error,), text),
    ensures
        fault is InvalidMac ==> VaultError::from_spec(fault) == VaultError::WrongPassphrase,
        !(fault is InvalidMac) ==> VaultError::from_spec(fault) == VaultError::MalformedPayload,
        VaultError::from_spec(machine) == VaultError::NotInitialised,
        error is NotInitialised ==> text@ == "no crypto machine has been created"@,
        error is Failed ==> text@ == "the crypto operation failed"@,
        error is MalformedPayload ==> text@ == "the payload could not be parsed"@,
        error is WrongPassphrase ==> text@ == "the passphrase did not open this vault"@,
{
}

} // verus!
