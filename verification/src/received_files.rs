//! Where received files go: their names, the directories of a transfer, the room they need, and
//! the records that a receiver keeps of an invitation.

use crate::authorization::saturating_sum;
use crate::bytes::{append, append_u64, be_bytes, bytes_equal, read_32};
use crate::crypto::{constant_time_equal, digest_of, sha256_digest};
use crate::encoding::{hex, hex_text, uuid_string, uuid_text};
use crate::file_transfer::DestinationChoice;
use crate::paths::{
    file_name_of, first_name, is_child, is_child_of, is_plain, join_path, joined_path, keeps_start,
    law_joined_names_are_children, next_name, nth_name, same_start, slice_chars, split_extension,
    stem_of, NameChoice, PathStyle, LAST_DUPLICATE_INDEX,
};
use crate::platform_handles::{contains_control, has_control, state_root};
use crate::text::{
    append_text, chars_of, decimal, decimal_text, same_text, text_of, to_upper, upper_text,
};
use vstd::prelude::*;
use vstd::utf8::encode_utf8;

verus! {

/// `FQINVRECEIPT0004`, which every import receipt starts with.
pub const RECEIPT_MAGIC: [u8; 16] = [
    0x46,
    0x51,
    0x49,
    0x4e,
    0x56,
    0x52,
    0x45,
    0x43,
    0x45,
    0x49,
    0x50,
    0x54,
    0x30,
    0x30,
    0x30,
    0x34,
];

/// The version of the record that says how long an incoming transfer is kept.
pub const INCOMING_RETENTION_VERSION: u16 = 1;

/// How long an incoming transfer is kept at most: seven days.
pub const MAX_INCOMING_RETENTION_MS: u64 = 604_800_000;

/// Whether a name holds a character that separates paths or drives.
pub open spec fn has_forbidden(name: Seq<char>) -> bool {
    exists|i: int|
        0 <= i < name.len() && (#[trigger] name[i] == '/' || name[i] == '\\' || name[i] == ':')
}

fn contains_forbidden(name: &str) -> (found: bool)
    ensures
        found == has_forbidden(name@),
{
    let chars = chars_of(name);
    let mut index: usize = 0;
    while index < chars.len()
        invariant
            index <= chars.len(),
            chars@ == name@,
            forall|i: int|
                0 <= i < index ==> #[trigger] name@[i] != '/' && name@[i] != '\\' && name@[i]
                    != ':',
        decreases chars.len() - index,
    {
        if chars[index] == '/' || chars[index] == '\\' || chars[index] == ':' {
            assert(name@[index as int] == '/' || name@[index as int] == '\\' || name@[index as int]
                == ':');
            return true;
        }
        index += 1;
    }
    false
}

/// `name` without the spaces and dots at its end.
pub open spec fn without_tail(name: Seq<char>) -> Seq<char>
    decreases name.len(),
{
    if name.len() > 0 && (name.last() == ' ' || name.last() == '.') {
        without_tail(name.drop_last())
    } else {
        name
    }
}

proof fn lemma_without_tail(name: Seq<char>)
    ensures
        without_tail(name).len() <= name.len(),
        without_tail(name) == name.take(without_tail(name).len() as int),
        without_tail(name).len() > 0 ==> without_tail(name).last() != ' ' && without_tail(
            name,
        ).last() != '.',
    decreases name.len(),
{
    if name.len() > 0 && (name.last() == ' ' || name.last() == '.') {
        lemma_without_tail(name.drop_last());
        let n = without_tail(name).len() as int;
        assert(name.drop_last().take(n) =~= name.take(n));
    } else {
        assert(name.take(name.len() as int) =~= name);
    }
}

proof fn lemma_without_tail_at(name: Seq<char>, at: int)
    requires
        0 <= at <= name.len(),
        at == 0 || (name[at - 1] != ' ' && name[at - 1] != '.'),
        forall|i: int| at <= i < name.len() ==> name[i] == ' ' || name[i] == '.',
    ensures
        without_tail(name) == name.take(at),
    decreases name.len(),
{
    if at < name.len() {
        assert(name[name.len() - 1] == ' ' || name[name.len() - 1] == '.');
        lemma_without_tail_at(name.drop_last(), at);
        assert(name.drop_last().take(at) =~= name.take(at));
    } else {
        assert(name.take(at) =~= name);
    }
}

fn trim_tail(name: &Vec<char>) -> (trimmed: Vec<char>)
    ensures
        trimmed@ == without_tail(name@),
{
    let mut at: usize = name.len();
    while at > 0 && (name[at - 1] == ' ' || name[at - 1] == '.')
        invariant
            at <= name.len(),
            forall|i: int| at <= i < name.len() ==> name@[i] == ' ' || name@[i] == '.',
        decreases at,
    {
        at -= 1;
    }
    proof {
        lemma_without_tail_at(name@, at as int);
        assert(name@.subrange(0, at as int) =~= name@.take(at as int));
    }
    slice_chars(name, 0, at)
}

/// Whether a stem in capitals is the name of a device on some systems.
pub open spec fn is_reserved(stem: Seq<char>) -> bool {
    ||| stem == "CON"@
    ||| stem == "PRN"@
    ||| stem == "AUX"@
    ||| stem == "NUL"@
    ||| stem == "CLOCK$"@
    ||| stem.len() == 4 && (stem.take(3) == "COM"@ || stem.take(3) == "LPT"@) && '1' <= stem[3]
        <= '9'
}

/// Whether a stem in capitals is the name of a device on some systems.
pub fn is_windows_reserved_name(stem: &str) -> (reserved: bool)
    ensures
        reserved == is_reserved(stem@),
{
    if same_text(stem, "CON") || same_text(stem, "PRN") || same_text(stem, "AUX") || same_text(
        stem,
        "NUL",
    ) || same_text(stem, "CLOCK$") {
        return true;
    }
    let chars = chars_of(stem);
    if chars.len() != 4 || chars[3] < '1' || chars[3] > '9' {
        return false;
    }
    proof {
        reveal_strlit("COM");
        reveal_strlit("LPT");
    }
    let com: bool = chars[0] == 'C' && chars[1] == 'O' && chars[2] == 'M';
    let lpt: bool = chars[0] == 'L' && chars[1] == 'P' && chars[2] == 'T';
    proof {
        let head = stem@.take(3);
        assert(head.len() == 3 && head[0] == stem@[0] && head[1] == stem@[1] && head[2]
            == stem@[2]);
        if com {
            assert(head =~= "COM"@);
        }
        if lpt {
            assert(head =~= "LPT"@);
        }
    }
    com || lpt
}

/// The stem of a name, as device names are compared with it.
pub open spec fn device_stem(name: Seq<char>) -> Seq<char> {
    upper_text(without_tail(stem_of(name)))
}

/// Why a file cannot be received under a name, if it cannot.
pub open spec fn filename_defect(value: Seq<char>) -> Option<Seq<char>> {
    if value.len() == 0 || encode_utf8(value).len() > 255 || value.len() > 240 || has_control(
        value,
    ) || has_forbidden(value) || without_tail(value).len() == 0 {
        Some("native-incoming-filename-unsafe"@)
    } else if is_reserved(device_stem(without_tail(value))) {
        Some("native-incoming-filename-reserved"@)
    } else {
        None
    }
}

/// The name under which a file is received: without spaces and dots at its end. Paths, control
/// characters and the names of devices are refused.
pub fn sanitize_received_filename(value: &str) -> (result: Result<String, String>)
    ensures
        match result {
            Ok(name) => filename_defect(value@) is None && name@ == without_tail(value@),
            Err(error) => filename_defect(value@) == Some(error@),
        },
{
    let chars = chars_of(value);
    let length: usize = value.as_bytes().len();
    if chars.len() == 0 || length > 255 || chars.len() > 240 || contains_control(value)
        || contains_forbidden(value) {
        return Err("native-incoming-filename-unsafe".to_owned());
    }
    let normalized = trim_tail(&chars);
    if normalized.len() == 0 {
        return Err("native-incoming-filename-unsafe".to_owned());
    }
    let (stem, _) = split_extension(&normalized);
    let bare = trim_tail(&stem);
    let device = to_upper(text_of(&bare).as_str());
    if is_windows_reserved_name(device.as_str()) {
        return Err("native-incoming-filename-reserved".to_owned());
    }
    Ok(text_of(&normalized))
}

proof fn lemma_prefix_size(text: Seq<char>, n: int)
    requires
        0 <= n <= text.len(),
    ensures
        encode_utf8(text.take(n)).len() <= encode_utf8(text).len(),
    decreases n,
{
    if n > 0 {
        lemma_prefix_size(text.drop_first(), n - 1);
        assert(text.take(n).drop_first() =~= text.drop_first().take(n - 1));
        assert(text.take(n)[0] == text[0]);
    }
}

/// A name under which a file is received names one entry of a directory: it is not empty, it
/// holds no separator, drive or control character, it ends neither with a space nor with a dot,
/// and it is not a device.
pub proof fn law_received_names_are_safe(value: Seq<char>)
    requires
        filename_defect(value) is None,
    ensures
        0 < without_tail(value).len() <= 240,
        encode_utf8(without_tail(value)).len() <= 255,
        !has_forbidden(without_tail(value)),
        !has_control(without_tail(value)),
        without_tail(value).last() != ' ',
        without_tail(value).last() != '.',
        !is_reserved(device_stem(without_tail(value))),
{
    lemma_without_tail(value);
    let name = without_tail(value);
    lemma_prefix_size(value, name.len() as int);
    assert forall|i: int| 0 <= i < name.len() implies name[i] == value[i] by {
        assert(value.take(name.len() as int)[i] == value[i]);
    }
    if has_forbidden(name) {
        let i = choose|i: int|
            0 <= i < name.len() && (#[trigger] name[i] == '/' || name[i] == '\\' || name[i] == ':');
        assert(value[i] == '/' || value[i] == '\\' || value[i] == ':');
    }
    if has_control(name) {
        let i = choose|i: int|
            0 <= i < name.len() && crate::text::is_control_char(#[trigger] name[i]);
        assert(crate::text::is_control_char(value[i]));
    }
}

/// A name that was made safe is received as it is.
pub proof fn law_sanitizing_again_changes_nothing(value: Seq<char>)
    requires
        filename_defect(value) is None,
    ensures
        filename_defect(without_tail(value)) is None,
        without_tail(without_tail(value)) == without_tail(value),
{
    law_received_names_are_safe(value);
}

/// A name under which a file is received is plain: it names one entry on every system.
pub proof fn law_received_names_are_plain(value: Seq<char>)
    requires
        filename_defect(value) is None,
    ensures
        is_plain(without_tail(value)),
{
    law_received_names_are_safe(value);
    let name = without_tail(value);
    assert forall|i: int| 0 <= i < name.len() implies #[trigger] name[i] != '/' && name[i] != '\\'
        && name[i] != ':' by {
        if name[i] == '/' || name[i] == '\\' || name[i] == ':' {
            assert(has_forbidden(name));
        }
    }
    if name == seq!['.'] || name == seq!['.', '.'] {
        assert(name.last() == '.');
    }
}

/// A file under a safe name stands directly in the directory that it is put into, and the name is
/// that of the file, as long as the path still starts where the directory does. It does so in
/// every directory of Unix, and on Windows in relative paths, on drives and on shares.
pub proof fn law_received_files_stay_in_their_directory(
    style: PathStyle,
    directory: Seq<char>,
    value: Seq<char>,
)
    requires
        filename_defect(value) is None,
    ensures
        ({
            let name = without_tail(value);
            let path = joined_path(style, directory, name);
            &&& is_child_of(style, path, directory) == same_start(style, path, directory)
            &&& is_child_of(style, path, directory) ==> file_name_of(style, path) == Some(name)
            &&& keeps_start(style, directory) ==> is_child_of(style, path, directory)
        }),
{
    law_received_names_are_plain(value);
    law_joined_names_are_children(style, directory, without_tail(value));
}

/// Refuses a path that does not stand directly in the directory.
pub fn ensure_contained_destination(style: PathStyle, directory: &str, target: &str) -> (result:
    Result<(), String>)
    ensures
        match result {
            Ok(()) => is_child_of(style, target@, directory@),
            Err(error) => !is_child_of(style, target@, directory@) && error@
                == "native-incoming-destination-escaped"@,
        },
{
    if !is_child(style, target, directory) {
        return Err("native-incoming-destination-escaped".to_owned());
    }
    Ok(())
}

/// One step of the search for the path of a received file in `directory`. The first step has no
/// `answer`; each later one brings the number of the path that was asked about and whether
/// something exists there.
pub fn duplicate_destination_name(
    style: PathStyle,
    directory: &str,
    filename: &str,
    overwrite: bool,
    answer: Option<(u32, bool)>,
) -> (result: Result<DestinationChoice, String>)
    ensures
        match answer {
            None => if overwrite {
                result matches Ok(DestinationChoice::Use(path)) && path@ == joined_path(
                    style,
                    directory@,
                    filename@,
                )
            } else {
                result matches Ok(DestinationChoice::Probe(index, path)) && index == 0 && path@
                    == joined_path(style, directory@, filename@)
            },
            Some((index, exists)) => if !exists {
                result matches Ok(DestinationChoice::Use(path)) && path@ == joined_path(
                    style,
                    directory@,
                    nth_name(style, filename@, index),
                )
            } else if index < LAST_DUPLICATE_INDEX {
                result matches Ok(DestinationChoice::Probe(next, path)) && next == index + 1
                    && path@ == joined_path(style, directory@, nth_name(style, filename@, next))
            } else {
                result matches Err(error) && error@ == "native-incoming-destination-name-exhausted"@
            },
        },
{
    let choice = match answer {
        None => first_name(filename, overwrite),
        Some((index, exists)) => next_name(style, filename, index, exists),
    };
    match choice {
        NameChoice::Use(text) => Ok(
            DestinationChoice::Use(join_path(style, directory, text.as_str())),
        ),
        NameChoice::Probe(index, text) => Ok(
            DestinationChoice::Probe(index, join_path(style, directory, text.as_str())),
        ),
        NameChoice::Exhausted => Err("native-incoming-destination-name-exhausted".to_owned()),
    }
}

/// What is said when there is not enough room for a file.
pub open spec fn no_room_text(required: u64, available: u64) -> Seq<char> {
    "native-incoming-insufficient-space: required-bytes="@ + decimal_text(required as nat)
        + "; available-bytes="@ + decimal_text(available as nat)
}

/// Checks that there is room for a file, where it is known how much there is.
pub fn ensure_incoming_storage_capacity(required_bytes: u64, available_bytes: Option<u64>) -> (
    result: Result<(), String>)
    ensures
        match result {
            Ok(()) => available_bytes matches Some(available) ==> available >= required_bytes,
            Err(error) => available_bytes matches Some(available) && available < required_bytes
                && error@ == no_room_text(required_bytes, available),
        },
{
    if let Some(available) = available_bytes {
        if available < required_bytes {
            let mut text: String =
                "native-incoming-insufficient-space: required-bytes=".to_owned();
            append_text(&mut text, decimal(required_bytes).as_str());
            append_text(&mut text, "; available-bytes=");
            append_text(&mut text, decimal(available).as_str());
            return Err(text);
        }
    }
    Ok(())
}

/// The directory of a transfer below the directory that its file is received in.
pub open spec fn artifact_path(
    style: PathStyle,
    destination: Seq<char>,
    transfer_id: Seq<u8>,
) -> Seq<char> {
    joined_path(
        style,
        joined_path(style, destination, ".flowshare-native"@),
        uuid_text(transfer_id),
    )
}

/// The directory of a transfer below the directory that its file is received in.
pub fn incoming_artifact_directory(
    style: PathStyle,
    destination: &str,
    transfer_id: &[u8; 16],
) -> (path: String)
    ensures
        path@ == artifact_path(style, destination@, transfer_id@),
{
    join_path(
        style,
        join_path(style, destination, ".flowshare-native").as_str(),
        uuid_string(transfer_id).as_str(),
    )
}

/// The directory with the state of all transfers of one direction.
pub open spec fn state_path(
    style: PathStyle,
    root: Seq<char>,
    direction: Seq<char>,
) -> Seq<char> {
    joined_path(
        style,
        joined_path(style, joined_path(style, root, "FlowGet"@), "flowshare-native"@),
        direction,
    )
}

fn state_directory(style: PathStyle, root: &str, direction: &str) -> (path: String)
    ensures
        path@ == state_path(style, root@, direction@),
{
    join_path(
        style,
        join_path(style, join_path(style, root, "FlowGet").as_str(), "flowshare-native").as_str(),
        direction,
    )
}

/// The directory with the state of all incoming transfers.
pub fn incoming_state_root(
    style: PathStyle,
    configured: &Option<String>,
    data_local_dir: Option<String>,
) -> (result: Result<String, String>)
    ensures
        match result {
            Ok(path) => match (*configured, data_local_dir) {
                (Some(root), _) => path@ == state_path(style, root@, "incoming"@),
                (None, Some(root)) => path@ == state_path(style, root@, "incoming"@),
                (None, None) => false,
            },
            Err(error) => *configured is None && data_local_dir is None && error@
                == "native-incoming-state-directory-unavailable"@,
        },
{
    match state_root(configured, data_local_dir) {
        Ok(root) => Ok(state_directory(style, root.as_str(), "incoming")),
        Err(_) => Err("native-incoming-state-directory-unavailable".to_owned()),
    }
}

/// The directory with the state of all outgoing transfers.
pub fn outgoing_state_root(
    style: PathStyle,
    configured: &Option<String>,
    data_local_dir: Option<String>,
) -> (result: Result<String, String>)
    ensures
        match result {
            Ok(path) => match (*configured, data_local_dir) {
                (Some(root), _) => path@ == state_path(style, root@, "outgoing"@),
                (None, Some(root)) => path@ == state_path(style, root@, "outgoing"@),
                (None, None) => false,
            },
            Err(error) => *configured is None && data_local_dir is None && error@
                == "native-outgoing-state-directory-unavailable"@,
        },
{
    match state_root(configured, data_local_dir) {
        Ok(root) => Ok(state_directory(style, root.as_str(), "outgoing")),
        Err(_) => Err("native-outgoing-state-directory-unavailable".to_owned()),
    }
}

/// How long an incoming transfer is kept.
#[derive(Debug, Clone, PartialEq, Eq)]
pub struct PersistedIncomingRetention {
    pub version: u16,
    pub transfer_id: String,
    pub destination_directory: String,
    pub created_unix_ms: u64,
    pub expires_unix_ms: u64,
}

impl PersistedIncomingRetention {
    /// Whether the record is one for the given transfer: of the known version, and kept for some
    /// time but not too long.
    pub open spec fn is_for(self, transfer_id: Seq<u8>) -> bool {
        &&& self.version == INCOMING_RETENTION_VERSION
        &&& self.transfer_id@ == uuid_text(transfer_id)
        &&& self.created_unix_ms < self.expires_unix_ms <= saturating_sum(
            self.created_unix_ms,
            MAX_INCOMING_RETENTION_MS,
        )
    }

    /// The record of a new transfer.
    pub fn of(
        transfer_id: &[u8; 16],
        destination_directory: String,
        created_unix_ms: u64,
        expires_unix_ms: u64,
    ) -> (retention: Self)
        ensures
            retention.version == INCOMING_RETENTION_VERSION,
            retention.transfer_id@ == uuid_text(transfer_id@),
            retention.destination_directory == destination_directory,
            retention.created_unix_ms == created_unix_ms,
            retention.expires_unix_ms == expires_unix_ms,
    {
        PersistedIncomingRetention {
            version: INCOMING_RETENTION_VERSION,
            transfer_id: uuid_string(transfer_id),
            destination_directory,
            created_unix_ms,
            expires_unix_ms,
        }
    }

    /// Whether the record is one for the given transfer.
    pub fn applies_to(&self, transfer_id: &[u8; 16]) -> (applies: bool)
        ensures
            applies == self.is_for(transfer_id@),
    {
        let id = uuid_string(transfer_id);
        self.version == INCOMING_RETENTION_VERSION && same_text(
            self.transfer_id.as_str(),
            id.as_str(),
        ) && self.expires_unix_ms > self.created_unix_ms && self.expires_unix_ms
            <= self.created_unix_ms.saturating_add(MAX_INCOMING_RETENTION_MS)
    }
}

/// Picks the record to go by from the present one and the one before it, as far as they could be
/// read.
pub fn choose_retention(
    current: Option<PersistedIncomingRetention>,
    previous: Option<PersistedIncomingRetention>,
    transfer_id: &[u8; 16],
) -> (result: Result<PersistedIncomingRetention, String>)
    ensures
        match result {
            Ok(retention) => {
                &&& retention.is_for(transfer_id@)
                &&& if current matches Some(first) && first.is_for(transfer_id@) {
                    current == Some(retention)
                } else {
                    previous == Some(retention)
                }
            },
            Err(error) => {
                &&& error@ == "native-incoming-retention-invalid"@
                &&& !(current matches Some(first) && first.is_for(transfer_id@))
                &&& !(previous matches Some(second) && second.is_for(transfer_id@))
            },
        },
{
    if let Some(retention) = current {
        if retention.applies_to(transfer_id) {
            return Ok(retention);
        }
    }
    if let Some(retention) = previous {
        if retention.applies_to(transfer_id) {
            return Ok(retention);
        }
    }
    Err("native-incoming-retention-invalid".to_owned())
}

/// When a transfer that is imported now is no longer kept.
pub open spec fn retention_expiry(requested: Option<u64>, created: u64) -> u64 {
    let latest = saturating_sum(created, MAX_INCOMING_RETENTION_MS);
    match requested {
        Some(expiry) => if expiry <= latest {
            expiry
        } else {
            latest as u64
        },
        None => latest as u64,
    }
}

/// When a transfer that is imported now is no longer kept. One that would end at once is
/// refused.
pub fn incoming_retention_expiry(requested: Option<u64>, created_unix_ms: u64) -> (result: Result<
    u64,
    String,
>)
    ensures
        match result {
            Ok(expiry) => expiry == retention_expiry(requested, created_unix_ms) && expiry
                > created_unix_ms,
            Err(error) => retention_expiry(requested, created_unix_ms) <= created_unix_ms && error@
                == "share-offline-or-expired"@,
        },
{
    let latest: u64 = created_unix_ms.saturating_add(MAX_INCOMING_RETENTION_MS);
    let expiry: u64 = match requested {
        Some(expiry) => if expiry <= latest {
            expiry
        } else {
            latest
        },
        None => latest,
    };
    if expiry <= created_unix_ms {
        return Err("share-offline-or-expired".to_owned());
    }
    Ok(expiry)
}

/// A retention that was granted is one that is accepted when it is read back.
pub proof fn law_granted_retention_is_accepted(
    retention: PersistedIncomingRetention,
    transfer_id: Seq<u8>,
    requested: Option<u64>,
)
    requires
        retention.version == INCOMING_RETENTION_VERSION,
        retention.transfer_id@ == uuid_text(transfer_id),
        retention.expires_unix_ms == retention_expiry(requested, retention.created_unix_ms),
        retention.expires_unix_ms > retention.created_unix_ms,
    ensures
        retention.is_for(transfer_id),
{
}

/// What an import receipt says before its checksum.
pub open spec fn receipt_head(digest: Seq<u8>, time: u64) -> Seq<u8> {
    RECEIPT_MAGIC@ + digest + be_bytes(time as nat, 8)
}

/// The bytes of an import receipt.
pub open spec fn receipt_bytes(digest: Seq<u8>, time: u64) -> Seq<u8> {
    receipt_head(digest, time) + sha256_digest(receipt_head(digest, time))@
}

/// The receipt for the import of a package with the given digest.
pub fn encode_import_receipt(digest: &[u8; 32], now: u64) -> (bytes: Vec<u8>)
    ensures
        bytes@ == receipt_bytes(digest@, now),
        bytes@.len() == 88,
{
    let mut bytes: Vec<u8> = Vec::new();
    append(&mut bytes, &RECEIPT_MAGIC);
    append(&mut bytes, digest);
    append_u64(&mut bytes, now);
    let ghost head = bytes@;
    proof {
        crate::bytes::lemma_be_bytes_len(now as nat, 8);
        assert(head =~= receipt_head(digest@, now));
    }
    let checksum: [u8; 32] = digest_of(bytes.as_slice());
    append(&mut bytes, &checksum);
    bytes
}

/// Whether bytes are a receipt: its length, its start and its checksum are right.
pub open spec fn is_receipt(bytes: Seq<u8>) -> bool {
    &&& bytes.len() == 88
    &&& bytes.subrange(0, 16) == RECEIPT_MAGIC@
    &&& bytes.subrange(56, 88) == sha256_digest(bytes.subrange(0, 56))@
}

/// The digest of the package that a receipt is for.
pub fn decode_import_receipt(bytes: &[u8]) -> (result: Result<[u8; 32], String>)
    ensures
        match result {
            Ok(digest) => is_receipt(bytes@) && digest@ == bytes@.subrange(16, 48),
            Err(error) => !is_receipt(bytes@) && error@ == "native-manual-package-receipt-failed"@,
        },
{
    if bytes.len() != 88 || !bytes_equal(&bytes[0..16], &RECEIPT_MAGIC) {
        return Err("native-manual-package-receipt-failed".to_owned());
    }
    let expected: [u8; 32] = digest_of(&bytes[0..56]);
    if !constant_time_equal(&expected, &bytes[56..88]) {
        return Err("native-manual-package-receipt-failed".to_owned());
    }
    Ok(read_32(bytes, 16))
}

/// A receipt reads back as it was written: it is accepted, and its digest is the one that went
/// into it.
pub proof fn law_receipt_round_trip(digest: [u8; 32], time: u64)
    ensures
        is_receipt(receipt_bytes(digest@, time)),
        receipt_bytes(digest@, time).subrange(16, 48) == digest@,
{
    crate::bytes::lemma_be_bytes_len(time as nat, 8);
    let head = receipt_head(digest@, time);
    let bytes = receipt_bytes(digest@, time);
    assert(head.len() == 56);
    assert(bytes.subrange(0, 56) =~= head);
    assert(bytes.subrange(56, 88) =~= sha256_digest(head)@);
    assert(bytes.subrange(0, 16) =~= RECEIPT_MAGIC@);
    assert(bytes.subrange(16, 48) =~= digest@);
}

/// Only receipts are accepted: what is accepted is the receipt of some package at some time.
pub proof fn law_accepted_receipts_are_receipts(bytes: Seq<u8>)
    requires
        is_receipt(bytes),
    ensures
        exists|time: u64| bytes == #[trigger] receipt_bytes(bytes.subrange(16, 48), time),
{
    let field = bytes.subrange(48, 56);
    crate::bytes::lemma_capacities();
    crate::bytes::lemma_be_bytes_of_be_value(field);
    let time = crate::bytes::be_value(field) as u64;
    let digest = bytes.subrange(16, 48);
    assert(be_bytes(time as nat, 8) == field);
    assert(receipt_head(digest, time) =~= bytes.subrange(0, 56));
    assert(bytes =~= receipt_bytes(digest, time));
}

/// The name of a receipt while it is being written.
pub fn pending_receipt_name(filename: &str, unique: &[u8; 16]) -> (name: String)
    ensures
        name@ == "."@ + filename@ + "."@ + hex_text(unique@) + ".pending"@,
{
    let mut name: String = ".".to_owned();
    append_text(&mut name, filename);
    append_text(&mut name, ".");
    append_text(&mut name, hex(unique).as_str());
    append_text(&mut name, ".pending");
    name
}

} // verus!
