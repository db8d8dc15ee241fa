//! Key vaults: every session key a machine holds, in one file under a
//! passphrase.

use std::io::Cursor;

use matrix_sdk_crypto::olm::ExportedRoomKey;
use matrix_sdk_crypto::vodozemac::base64_decode;
use matrix_sdk_crypto::{decrypt_room_key_export, encrypt_room_key_export, KeyExportError};
use vstd::prelude::*;
use vstd::std_specs::convert::FromSpecImpl;

use crate::backup::BackupImport;
use crate::machine::{MachineError, Trip};
use crate::requests::names;
use crate::text::{is_space, is_white_space, same_text};

verus! {

/// How often the passphrase is stretched.
pub const ROUNDS: u32 = 500_000;

/// Why a vault call did not do what was asked.
#[derive(Clone, Copy, Debug, PartialEq, Eq, Structural)]
pub enum VaultError {
    /// There is no machine.
    NotInitialised,
    /// The machine, or the store behind it, refused.
    Failed,
    /// The file is not a vault, or holds what are not keys.
    MalformedPayload,
    /// The file is a vault, and the passphrase is not its own.
    WrongPassphrase,
}

/// The text of a vault error.
pub open spec fn vault_message(error: VaultError) -> Seq<char> {
    match error {
        VaultError::NotInitialised => "no crypto machine has been created"@,
        VaultError::Failed => "the crypto operation failed"@,
        VaultError::MalformedPayload => "the payload could not be parsed"@,
        VaultError::WrongPassphrase => "the passphrase did not open this vault"@,
    }
}

impl VaultError {
    /// The text of the error.
    pub fn message(self) -> (message: &'static str)
        ensures
            message@ == vault_message(self),
    {
        match self {
            VaultError::NotInitialised => "no crypto machine has been created",
            VaultError::Failed => "the crypto operation failed",
            VaultError::MalformedPayload => "the payload could not be parsed",
            VaultError::WrongPassphrase => "the passphrase did not open this vault",
        }
    }
}

impl From<MachineError> for VaultError {
    fn from(_error: MachineError) -> (converted: VaultError) {
        VaultError::NotInitialised
    }
}

impl FromSpecImpl<MachineError> for VaultError {
    open spec fn obeys_from_spec() -> bool {
        true
    }

    open spec fn from_spec(_error: MachineError) -> VaultError {
        VaultError::NotInitialised
    }
}

/// Why a file did not open.
#[derive(Clone, Copy, Debug, PartialEq, Eq, Structural)]
pub enum KeyExportFault {
    /// It does not begin and end as a vault does.
    InvalidHeaders,
    /// It is of a version that is not known.
    UnsupportedVersion,
    /// Its authentication code does not fit the passphrase.
    InvalidMac,
    /// What it holds is not UTF-8.
    InvalidUtf8,
    /// What it holds is not a list of keys.
    Json,
    /// It is not base64.
    Decode,
    /// It is too short.
    Io,
}

/// What a file that did not open is reported as. The authentication code alone
/// speaks of the passphrase.
pub open spec fn vault_error(fault: KeyExportFault) -> VaultError {
    match fault {
        KeyExportFault::InvalidMac => VaultError::WrongPassphrase,
        _ => VaultError::MalformedPayload,
    }
}

impl From<KeyExportFault> for VaultError {
    fn from(fault: KeyExportFault) -> (converted: VaultError) {
        match fault {
            KeyExportFault::InvalidMac => VaultError::WrongPassphrase,
            KeyExportFault::InvalidHeaders
            | KeyExportFault::UnsupportedVersion
            | KeyExportFault::InvalidUtf8
            | KeyExportFault::Json
            | KeyExportFault::Decode
            | KeyExportFault::Io => VaultError::MalformedPayload,
        }
    }
}

impl FromSpecImpl<KeyExportFault> for VaultError {
    open spec fn obeys_from_spec() -> bool {
        true
    }

    open spec fn from_spec(fault: KeyExportFault) -> VaultError {
        vault_error(fault)
    }
}

/// The line a vault begins with.
pub open spec fn header() -> Seq<char> {
    "-----BEGIN MEGOLM SESSION DATA-----"@
}

/// The line a vault ends with.
pub open spec fn footer() -> Seq<char> {
    "-----END MEGOLM SESSION DATA-----"@
}

/// A text without the white space it begins with.
pub open spec fn trimmed_start(text: Seq<char>) -> Seq<char>
    decreases text.len(),
{
    if text.len() > 0 && is_space(text[0]) {
        trimmed_start(text.skip(1))
    } else {
        text
    }
}

/// A text without the white space it ends with.
pub open spec fn trimmed_end(text: Seq<char>) -> Seq<char>
    decreases text.len(),
{
    if text.len() > 0 && is_space(text.last()) {
        trimmed_end(text.drop_last())
    } else {
        text
    }
}

/// Whether a text begins and ends as a vault does.
pub open spec fn is_framed(text: Seq<char>) -> bool {
    header().is_prefix_of(trimmed_start(text)) && footer().is_suffix_of(trimmed_end(text))
}

/// How long the first line of a text is.
pub open spec fn line_length(text: Seq<char>) -> nat
    decreases text.len(),
{
    if text.len() == 0 || text[0] == '\n' {
        0
    } else {
        1 + line_length(text.skip(1))
    }
}

/// The first line of a text, without what ends it.
pub open spec fn first_line(text: Seq<char>) -> Seq<char> {
    let n = line_length(text);
    if n < text.len() && n > 0 && text[n - 1] == '\r' {
        text.take(n - 1)
    } else {
        text.take(n as int)
    }
}

/// What follows the first line of a text.
pub open spec fn later_lines(text: Seq<char>) -> Seq<char> {
    let n = line_length(text);
    if n < text.len() {
        text.skip((n + 1) as int)
    } else {
        Seq::empty()
    }
}

/// What a line adds to the payload: itself, unless it is part of the frame.
pub open spec fn payload_of_line(line: Seq<char>) -> Seq<char> {
    if header().is_prefix_of(line) || footer().is_prefix_of(line) {
        Seq::empty()
    } else {
        line
    }
}

/// The payload of a vault: its lines without the frame.
pub open spec fn payload(text: Seq<char>) -> Seq<char>
    decreases text.len(),
{
    if text.len() == 0 {
        Seq::empty()
    } else {
        payload_of_line(first_line(text)) + payload(later_lines(text))
    }
}

/// The bytes that a base64 text stands for.
pub uninterp spec fn base64_bytes(text: Seq<char>) -> Option<Seq<u8>>;

/// Decodes base64 with `vodozemac::base64_decode`.
///
/// Trusted: what comes out is a function of the text alone, named
/// [`base64_bytes`].
#[verifier::external_body]
fn decode_base64(text: &Vec<char>) -> (bytes: Option<Vec<u8>>)
    ensures
        match bytes {
            Some(bytes) => base64_bytes(text@) == Some(bytes@),
            None => base64_bytes(text@) is None,
        },
{
    base64_decode(text.iter().collect::<String>()).ok()
}

/// Whether a file is a vault: it is framed as one, it decodes, it holds all that
/// comes before the keys, and its version is known.
pub open spec fn is_vault(vault: Seq<char>) -> bool {
    &&& is_framed(vault)
    &&& base64_bytes(payload(vault)) matches Some(bytes)
    &&& bytes.len() >= 37
    &&& bytes[0] == 1
}

/// Whether a file holds all that comes before the keys and after them, and has
/// no room for keys in between.
pub open spec fn is_cut_short(vault: Seq<char>) -> bool {
    base64_bytes(payload(vault)) matches Some(bytes) && 37 <= bytes.len() < 69
}

/// The number of rounds that a vault says its passphrase is stretched, which comes
/// after the version, the salt and the initialisation vector.
pub open spec fn rounds_of(vault: Seq<char>) -> int {
    let bytes = base64_bytes(payload(vault))->0;
    bytes[33] * 0x1000000 + bytes[34] * 0x10000 + bytes[35] * 0x100 + bytes[36]
}

/// The authentication code that a vault carries after the keys.
pub open spec fn carried_code(vault: Seq<char>) -> Seq<u8> {
    let bytes = base64_bytes(payload(vault))->0;
    bytes.skip(bytes.len() - 32)
}

/// The authentication code that a passphrase gives for all that comes before the
/// code in a vault.
pub uninterp spec fn vault_code(vault: Seq<char>, passphrase: Seq<char>) -> Seq<u8>;

/// The keys that a passphrase opens a vault to, each as the JSON of an exported
/// key.
pub uninterp spec fn exported_keys(vault: Seq<char>, passphrase: Seq<char>) -> Result<
    Seq<Seq<char>>,
    KeyExportFault,
>;

/// The JSON of an exported key, as `serde_json` writes what it reads.
pub uninterp spec fn rewritten_key(text: Seq<char>) -> Option<Seq<char>>;

/// Whether a text is the JSON of an exported key, as `serde_json` writes it.
pub open spec fn is_exported_key(text: Seq<char>) -> bool {
    rewritten_key(text) == Some(text)
}

/// Opens a vault with `decrypt_room_key_export`, and writes each key with
/// `serde_json`.
///
/// Trusted: what comes out, or why nothing does, is a function of the two texts
/// alone, named [`exported_keys`]. The frame, the base64, the length and the
/// version are looked at before the passphrase is. Then the authentication code
/// that the passphrase gives, named [`vault_code`], is compared with the one that
/// the vault carries: where they differ the code is found not to fit, and where
/// they do not, what is left to fail is reading the keys. The outside function
/// reads past the end of a file that has no room for keys, so that such a file
/// must not be given to it.
#[verifier::external_body]
fn open_export(vault: &str, passphrase: &str) -> (keys: Result<Vec<String>, KeyExportFault>)
    requires
        !is_cut_short(vault@),
    ensures
        match keys {
            Ok(keys) => exported_keys(vault@, passphrase@) == Ok::<
                Seq<Seq<char>>,
                KeyExportFault,
            >(names(keys@)),
            Err(fault) => exported_keys(vault@, passphrase@) == Err::<
                Seq<Seq<char>>,
                KeyExportFault,
            >(fault),
        },
        match keys {
            Ok(_)
            | Err(KeyExportFault::InvalidUtf8)
            | Err(KeyExportFault::Json) => is_vault(vault@) && vault_code(vault@, passphrase@)
                == carried_code(vault@),
            Err(KeyExportFault::InvalidMac) => is_vault(vault@) && vault_code(vault@, passphrase@)
                != carried_code(vault@),
            Err(_) => !is_vault(vault@),
        },
{
    match decrypt_room_key_export(Cursor::new(vault), passphrase) {
        Ok(keys) => {
            let texts = keys.iter().map(serde_json::to_string);
            texts.collect::<Result<_, _>>().map_err(|_| KeyExportFault::Json)
        },
        Err(KeyExportError::InvalidHeaders) => Err(KeyExportFault::InvalidHeaders),
        Err(KeyExportError::UnsupportedVersion) => Err(KeyExportFault::UnsupportedVersion),
        Err(KeyExportError::InvalidMac) => Err(KeyExportFault::InvalidMac),
        Err(KeyExportError::InvalidUtf8(_)) => Err(KeyExportFault::InvalidUtf8),
        Err(KeyExportError::Json(_)) => Err(KeyExportFault::Json),
        Err(KeyExportError::Decode(_)) => Err(KeyExportFault::Decode),
        Err(KeyExportError::Io(_)) => Err(KeyExportFault::Io),
    }
}

/// Reads an exported key with `serde_json`, and writes it again.
///
/// Trusted: what is written is a function of the text alone, named
/// [`rewritten_key`].
#[verifier::external_body]
fn rewrite_key(text: &str) -> (written: Option<String>)
    ensures
        match written {
            Some(written) => rewritten_key(text@) == Some(written@),
            None => rewritten_key(text@) is None,
        },
{
    serde_json::to_string(&serde_json::from_str::<ExportedRoomKey>(text).ok()?).ok()
}

/// Whether every text is an exported key.
pub open spec fn all_exported(keys: Seq<Seq<char>>) -> bool {
    forall|i: int| 0 <= i < keys.len() ==> is_exported_key(#[trigger] keys[i])
}

/// Seals keys with `encrypt_room_key_export`, each read with `serde_json`.
///
/// Trusted: the vault is drawn at random. It begins and ends as a vault does, is
/// one, has room for keys, says how many rounds there were, and carries the
/// authentication code that the passphrase gives. Where every text is an exported
/// key there is a vault, since what has been written once is written again, and
/// the passphrase opens it to those keys.
#[verifier::external_body]
fn seal_export(keys: &Vec<String>, passphrase: &str, rounds: u32) -> (vault: Option<String>)
    ensures
        all_exported(names(keys@)) ==> vault is Some,
        vault matches Some(vault) ==> {
            &&& header().is_prefix_of(vault@)
            &&& footer().is_suffix_of(vault@)
            &&& is_vault(vault@)
            &&& !is_cut_short(vault@)
            &&& rounds_of(vault@) == rounds
            &&& carried_code(vault@) == vault_code(vault@, passphrase@)
            &&& all_exported(names(keys@)) ==> exported_keys(vault@, passphrase@) == Ok::<
                Seq<Seq<char>>,
                KeyExportFault,
            >(names(keys@))
        },
{
    let keys = keys.iter().map(|key| serde_json::from_str::<ExportedRoomKey>(key));
    let keys = keys.collect::<Result<Vec<_>, _>>().ok()?;
    encrypt_room_key_export(&keys, passphrase, rounds).ok()
}

/// The characters of a text.
fn characters(text: &str) -> (chars: Vec<char>)
    ensures
        chars@ == text@,
{
    let mut chars: Vec<char> = Vec::new();
    for c in iter: text.chars()
        invariant
            chars@ == text@.take(iter.index()),
            iter.seq() == text@,
    {
        chars.push(c);
        assert(text@.take(iter.index() + 1) =~= text@.take(iter.index()).push(c));
    }
    assert(text@.take(text@.len() as int) =~= text@);
    chars
}

/// Whether a stretch of characters begins with a text.
fn begins_with(chars: &Vec<char>, from: usize, to: usize, prefix: &Vec<char>) -> (answer: bool)
    requires
        from <= to <= chars@.len(),
    ensures
        answer == prefix@.is_prefix_of(chars@.subrange(from as int, to as int)),
{
    if to - from < prefix.len() {
        return false;
    }
    let mut i: usize = 0;
    while i < prefix.len()
        invariant
            from <= to <= chars@.len(),
            prefix@.len() <= to - from,
            i <= prefix@.len(),
            forall|j: int| 0 <= j < i ==> #[trigger] prefix@[j] == chars@[from + j],
        decreases prefix@.len() - i,
    {
        if prefix[i] != chars[from + i] {
            assert(chars@.subrange(from as int, to as int)[i as int] == chars@[from + i]);
            return false;
        }
        i = i + 1;
    }
    assert(prefix@ =~= chars@.subrange(from as int, to as int).subrange(0, prefix@.len() as int));
    true
}

/// Where the line that begins somewhere ends.
fn line_end(chars: &Vec<char>, from: usize) -> (end: usize)
    requires
        from <= chars@.len(),
    ensures
        from <= end <= chars@.len(),
        end - from == line_length(chars@.skip(from as int)),
{
    let mut end: usize = from;
    while end < chars.len() && chars[end] != '\n'
        invariant
            from <= end <= chars@.len(),
            line_length(chars@.skip(from as int)) == (end - from) + line_length(
                chars@.skip(end as int),
            ),
        decreases chars@.len() - end,
    {
        assert(chars@.skip(end as int).skip(1) =~= chars@.skip(end + 1));
        assert(chars@.skip(end as int)[0] == chars@[end as int]);
        end = end + 1;
    }
    if end < chars.len() {
        assert(chars@.skip(end as int)[0] == chars@[end as int]);
    }
    end
}

/// The payload of a vault.
fn read_payload(chars: &Vec<char>) -> (out: Vec<char>)
    ensures
        out@ == payload(chars@),
{
    let head: Vec<char> = characters("-----BEGIN MEGOLM SESSION DATA-----");
    let foot: Vec<char> = characters("-----END MEGOLM SESSION DATA-----");
    let ghost text = chars@;
    let mut out: Vec<char> = Vec::new();
    let mut pos: usize = 0;
    assert(text.skip(0) =~= text);
    assert(out@ + payload(text.skip(0)) =~= payload(text));
    while pos < chars.len()
        invariant
            text == chars@,
            head@ == header(),
            foot@ == footer(),
            pos <= text.len(),
            out@ + payload(text.skip(pos as int)) == payload(text),
        decreases text.len() - pos,
    {
        let ghost rest = text.skip(pos as int);
        let end: usize = line_end(chars, pos);
        let stop: usize = if end < chars.len() && end > pos && chars[end - 1] == '\r' {
            end - 1
        } else {
            end
        };
        let ghost line = text.subrange(pos as int, stop as int);
        assert(line =~= first_line(rest)) by {
            if end > pos {
                assert(rest[end - pos - 1] == text[end - 1]);
            }
        }
        let ghost before = out@;
        if !begins_with(chars, pos, stop, &head) && !begins_with(chars, pos, stop, &foot) {
            let mut i: usize = pos;
            while i < stop
                invariant
                    text == chars@,
                    pos <= i <= stop <= text.len(),
                    out@ == before + text.subrange(pos as int, i as int),
                decreases stop - i,
            {
                out.push(chars[i]);
                i = i + 1;
                assert(out@ =~= before + text.subrange(pos as int, i as int));
            }
        }
        assert(out@ =~= before + payload_of_line(line));
        let next: usize = if end < chars.len() {
            end + 1
        } else {
            end
        };
        assert(later_lines(rest) =~= text.skip(next as int));
        assert(out@ + payload(text.skip(next as int)) =~= before + payload(rest));
        pos = next;
    }
    assert(text.skip(pos as int).len() == 0);
    assert(out@ =~= out@ + payload(text.skip(pos as int)));
    out
}

/// Whether a text begins and ends as a vault does.
fn reads_as_framed(chars: &Vec<char>) -> (answer: bool)
    ensures
        answer == is_framed(chars@),
{
    let head: Vec<char> = characters("-----BEGIN MEGOLM SESSION DATA-----");
    let foot: Vec<char> = characters("-----END MEGOLM SESSION DATA-----");
    let ghost text = chars@;
    let mut i: usize = 0;
    assert(text.skip(0) =~= text);
    while i < chars.len() && is_white_space(chars[i])
        invariant
            text == chars@,
            i <= text.len(),
            trimmed_start(text) == trimmed_start(text.skip(i as int)),
        decreases text.len() - i,
    {
        assert(text.skip(i as int)[0] == text[i as int]);
        assert(text.skip(i as int).skip(1) =~= text.skip(i + 1));
        i = i + 1;
    }
    assert(trimmed_start(text) == text.skip(i as int)) by {
        if i < text.len() {
            assert(text.skip(i as int)[0] == text[i as int]);
        }
    }
    assert(text.skip(i as int) =~= text.subrange(i as int, text.len() as int));
    if !begins_with(chars, i, chars.len(), &head) {
        return false;
    }
    let mut j: usize = chars.len();
    assert(text.take(j as int) =~= text);
    while j > 0 && is_white_space(chars[j - 1])
        invariant
            text == chars@,
            j <= text.len(),
            trimmed_end(text) == trimmed_end(text.take(j as int)),
        decreases j,
    {
        assert(text.take(j as int).last() == text[j - 1]);
        assert(text.take(j as int).drop_last() =~= text.take(j - 1));
        j = j - 1;
    }
    assert(trimmed_end(text) == text.take(j as int)) by {
        if j > 0 {
            assert(text.take(j as int).last() == text[j - 1]);
        }
    }
    let ghost kept = text.take(j as int);
    if j < foot.len() {
        return false;
    }
    let answer: bool = begins_with(chars, j - foot.len(), j, &foot);
    proof {
        let at = j - foot@.len();
        assert(text.subrange(at, j as int) =~= kept.subrange(at, kept.len() as int));
        assert(text.subrange(at, j as int).subrange(0, foot@.len() as int) =~= text.subrange(
            at,
            j as int,
        ));
    }
    answer
}

/// What opening a vault comes to.
///
/// A file that is not a vault is malformed, whatever the passphrase. A vault whose
/// authentication code is not the one that the passphrase gives has another
/// passphrase, as far as can be said; so has one with no room for keys.
pub open spec fn opened_vault(vault: Seq<char>, passphrase: Seq<char>) -> Result<
    Seq<Seq<char>>,
    VaultError,
> {
    if !is_vault(vault) {
        Err(VaultError::MalformedPayload)
    } else if is_cut_short(vault) || vault_code(vault, passphrase) != carried_code(vault) {
        Err(VaultError::WrongPassphrase)
    } else {
        match exported_keys(vault, passphrase) {
            Ok(keys) => Ok(keys),
            Err(_) => Err(VaultError::MalformedPayload),
        }
    }
}

/// A file that is not a vault is malformed and is never said to have another
/// passphrase.
pub proof fn law_what_is_no_vault_is_malformed(file: Seq<char>, passphrase: Seq<char>)
    requires
        !is_vault(file),
    ensures
        opened_vault(file, passphrase) == Err::<Seq<Seq<char>>, VaultError>(
            VaultError::MalformedPayload,
        ),
{
}

/// A vault that one passphrase opens is said to have another passphrase when it is
/// opened with one that gives another authentication code for it.
pub proof fn law_another_passphrase_is_wrong(
    vault: Seq<char>,
    passphrase: Seq<char>,
    another: Seq<char>,
)
    requires
        opened_vault(vault, passphrase) is Ok,
        vault_code(vault, another) != vault_code(vault, passphrase),
    ensures
        opened_vault(vault, another) == Err::<Seq<Seq<char>>, VaultError>(
            VaultError::WrongPassphrase,
        ),
{
}

/// Opens a vault, ready for the machine to import. The file is looked at before
/// the machine is.
pub fn open_key_vault(vault: &str, passphrase: &str) -> (result: Result<Vec<String>, VaultError>)
    ensures
        match result {
            Ok(keys) => opened_vault(vault@, passphrase@) == Ok::<Seq<Seq<char>>, VaultError>(
                names(keys@),
            ),
            Err(error) => opened_vault(vault@, passphrase@) == Err::<Seq<Seq<char>>, VaultError>(
                error,
            ),
        },
{
    let chars: Vec<char> = characters(vault);
    if let Some(bytes) = decode_base64(&read_payload(&chars)) {
        if 37 <= bytes.len() && bytes.len() < 69 {
            return if reads_as_framed(&chars) && bytes[0] == 1 {
                Err(VaultError::WrongPassphrase)
            } else {
                Err(VaultError::MalformedPayload)
            };
        }
    }
    match open_export(vault, passphrase) {
        Ok(keys) => Ok(keys),
        Err(fault) => Err(VaultError::from(fault)),
    }
}

/// What an import from a vault came to: the number that were offered, and the
/// number that the machine found to be new.
pub fn report_vault_import(offered: usize, imported: Trip<usize>) -> (result: Result<
    BackupImport,
    VaultError,
>)
    ensures
        match imported {
            Trip::NoMachine => result == Err::<BackupImport, VaultError>(
                VaultError::NotInitialised,
            ),
            Trip::Refused => result == Err::<BackupImport, VaultError>(VaultError::Failed),
            Trip::Done(count) => result == Ok::<BackupImport, VaultError>(
                BackupImport { offered: offered as u32, imported: count as u32 },
            ),
        },
{
    match imported {
        Trip::NoMachine => Err(VaultError::from(MachineError::NotInitialised)),
        Trip::Refused => Err(VaultError::Failed),
        Trip::Done(count) => Ok(
            BackupImport {
                offered: #[verifier::truncate]
                (offered as u32),
                imported: #[verifier::truncate]
                (count as u32),
            },
        ),
    }
}

/// Whether every text is an exported key.
fn read_as_exported(keys: &Vec<String>) -> (answer: bool)
    ensures
        answer == all_exported(names(keys@)),
{
    let mut i: usize = 0;
    while i < keys.len()
        invariant
            i <= keys@.len(),
            forall|j: int| 0 <= j < i ==> is_exported_key(#[trigger] names(keys@)[j]),
        decreases keys@.len() - i,
    {
        assert(names(keys@)[i as int] == keys@[i as int]@);
        let kept: bool = match rewrite_key(keys[i].as_str()) {
            Some(written) => same_text(written.as_str(), keys[i].as_str()),
            None => false,
        };
        if !kept {
            return false;
        }
        i = i + 1;
    }
    true
}

/// Seals keys, each given as JSON, under a passphrase that is stretched so many
/// times.
pub fn seal_keys(passphrase: &str, keys: &Vec<String>, rounds: u32) -> (result: Result<
    String,
    VaultError,
>)
    ensures
        match result {
            Ok(vault) => {
                &&& all_exported(names(keys@))
                &&& header().is_prefix_of(vault@)
                &&& footer().is_suffix_of(vault@)
                &&& rounds_of(vault@) == rounds
                &&& opened_vault(vault@, passphrase@) == Ok::<Seq<Seq<char>>, VaultError>(
                    names(keys@),
                )
            },
            Err(error) => !all_exported(names(keys@)) && error is Failed,
        },
{
    if !read_as_exported(keys) {
        return Err(VaultError::Failed);
    }
    match seal_export(keys, passphrase, rounds) {
        Some(vault) => Ok(vault),
        None => Err(VaultError::Failed),
    }
}

/// Seals every key the machine holds under a passphrase. The keys are given as
/// the machine's export has them, each as JSON.
pub fn create_key_vault(passphrase: &str, keys: Trip<Vec<String>>) -> (result: Result<
    String,
    VaultError,
>)
    ensures
        match (keys, result) {
            (Trip::NoMachine, Err(error)) => error is NotInitialised,
            (Trip::Refused, Err(error)) => error is Failed,
            (Trip::Done(keys), Ok(vault)) => {
                &&& all_exported(names(keys@))
                &&& header().is_prefix_of(vault@)
                &&& footer().is_suffix_of(vault@)
                &&& rounds_of(vault@) == ROUNDS
                &&& opened_vault(vault@, passphrase@) == Ok::<Seq<Seq<char>>, VaultError>(
                    names(keys@),
                )
            },
            (Trip::Done(keys), Err(error)) => !all_exported(names(keys@)) && error is Failed,
            _ => false,
        },
{
    match keys {
        Trip::NoMachine => Err(VaultError::from(MachineError::NotInitialised)),
        Trip::Refused => Err(VaultError::Failed),
        Trip::Done(keys) => seal_keys(passphrase, &keys, ROUNDS),
    }
}

} // verus!
