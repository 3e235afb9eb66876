//! Settings, history and credentials as they are kept.

use vstd::prelude::*;
use vstd::string::*;

use crate::arith::{capped, capped_u64, saturating_sum_u64};
use crate::contract::dto::HistoryEntry;
use crate::contract::settings::{
    default_settings, settings_problem, settings_valid, Settings,
};
use crate::decimal::{decimal, digits, parse_usize, parsed, reading_undoes_writing};
use crate::paths::{join_path, path_join};
use crate::text::{blank, chars_of, is_blank};

verus! {

broadcast use vstd::string::group_string_axioms;

#[derive(Clone, PartialEq, Eq, Debug)]
pub enum StorageError {
    Io(String),
    Json(String),
    Validation { field: &'static str, message: &'static str },
    Conflict { expected: u64, current: u64 },
    Poisoned,
    CredentialValidation { field: &'static str, message: &'static str },
    Credential(String),
}

/// What a storage error says to a reader.
pub open spec fn storage_error_text(error: StorageError) -> Seq<char> {
    match error {
        StorageError::Io(reason) => "storage I/O failed: "@ + reason@,
        StorageError::Json(reason) => "stored JSON is invalid: "@ + reason@,
        StorageError::Validation { field, message } => "settings validation failed at "@ + field@
            + ": "@ + message@,
        StorageError::Conflict { expected, current } => "settings revision conflict: expected "@
            + digits(expected as nat) + ", current "@ + digits(current as nat),
        StorageError::Poisoned => "repository lock is poisoned"@,
        StorageError::CredentialValidation { field, message } => "credential validation failed at "@
            + field@ + ": "@ + message@,
        StorageError::Credential(reason) => "secure credential storage failed: "@ + reason@,
    }
}

fn located(start: &str, field: &str, message: &str) -> (result: String)
    ensures
        result@ == start@ + field@ + ": "@ + message@,
{
    let mut text = String::from_str(start);
    text.append(field);
    text.append(": ");
    text.append(message);
    text
}

impl StorageError {
    /// What the error says to a reader.
    pub fn message(&self) -> (result: String)
        ensures
            result@ == storage_error_text(*self),
    {
        match self {
            StorageError::Io(reason) => {
                let mut text = String::from_str("storage I/O failed: ");
                text.append(reason.as_str());
                text
            },
            StorageError::Json(reason) => {
                let mut text = String::from_str("stored JSON is invalid: ");
                text.append(reason.as_str());
                text
            },
            StorageError::Validation { field, message } => {
                located("settings validation failed at ", field, message)
            },
            StorageError::Conflict { expected, current } => {
                let mut text = String::from_str("settings revision conflict: expected ");
                text.append(decimal(*expected).as_str());
                text.append(", current ");
                text.append(decimal(*current).as_str());
                text
            },
            StorageError::Poisoned => String::from_str("repository lock is poisoned"),
            StorageError::CredentialValidation { field, message } => {
                located("credential validation failed at ", field, message)
            },
            StorageError::Credential(reason) => {
                let mut text = String::from_str("secure credential storage failed: ");
                text.append(reason.as_str());
                text
            },
        }
    }
}

// ---------------------------------------------------------------------------
// Settings
// ---------------------------------------------------------------------------

/// Settings and how often they have been replaced.
#[derive(Clone, PartialEq, Eq, Debug)]
pub struct RevisionedSettings {
    pub revision: u64,
    pub settings: Settings,
}

/// Checks settings before they are stored or used.
pub fn validate_settings(settings: &Settings) -> (result: Result<(), StorageError>)
    ensures
        match result {
            Ok(()) => settings_valid(*settings),
            Err(StorageError::Validation { field, message }) => settings_problem(*settings)
                == Some((field@, message@)),
            Err(_) => false,
        },
{
    match settings.validate() {
        Ok(()) => Ok(()),
        Err(error) => Err(
            StorageError::Validation { field: error.field, message: error.message },
        ),
    }
}

/// Settings kept in one file.
#[derive(Debug)]
pub struct JsonSettingsRepository {
    pub path: String,
}

/// What loading settings from what the file holds may return: the defaults where there is
/// no file, and nothing that is not valid.
pub open spec fn loads(
    file: Option<Result<RevisionedSettings, StorageError>>,
    result: Result<RevisionedSettings, StorageError>,
) -> bool {
    match file {
        None => result matches Ok(stored) && stored.revision == 0 && default_settings(
            stored.settings,
        ),
        Some(Err(error)) => result == Err::<RevisionedSettings, StorageError>(error),
        Some(Ok(stored)) => match result {
            Ok(loaded) => loaded == stored && settings_valid(stored.settings),
            Err(StorageError::Validation { field, message }) => settings_problem(stored.settings)
                == Some((field@, message@)),
            Err(_) => false,
        },
    }
}

/// What replacing the settings in a file may return: an error where the new settings are
/// not valid, where the current ones cannot be loaded or where the caller knew another
/// revision, and otherwise the new settings under the next revision.
pub open spec fn replaces(
    file: Option<Result<RevisionedSettings, StorageError>>,
    expected_revision: u64,
    settings: Settings,
    result: Result<RevisionedSettings, StorageError>,
) -> bool {
    match settings_problem(settings) {
        Some(problem) => result matches Err(StorageError::Validation { field, message })
            && problem == (field@, message@),
        None => exists|current: Result<RevisionedSettings, StorageError>| #[trigger]
            loads(file, current) && match current {
                Err(error) => result == Err::<RevisionedSettings, StorageError>(error),
                Ok(stored) => if stored.revision != expected_revision {
                    result == Err::<RevisionedSettings, StorageError>(
                        StorageError::Conflict {
                            expected: expected_revision,
                            current: stored.revision,
                        },
                    )
                } else {
                    result matches Ok(updated) && updated.settings == settings
                        && updated.revision == capped_u64(stored.revision + 1)
                },
            },
    }
}

impl JsonSettingsRepository {
    /// A repository in the file at a path.
    #[must_use]
    pub fn new(path: String) -> (result: Self)
        ensures
            result.path == path,
    {
        Self { path }
    }

    /// The settings in force, given what the file holds (`None`: there is no file).
    pub fn load(&self, file: Option<Result<RevisionedSettings, StorageError>>) -> (result: Result<
        RevisionedSettings,
        StorageError,
    >)
        ensures
            loads(file, result),
            result matches Ok(stored) ==> settings_valid(stored.settings),
    {
        match file {
            None => Ok(RevisionedSettings { revision: 0, settings: Settings::default() }),
            Some(Err(error)) => Err(error),
            Some(Ok(stored)) => {
                match validate_settings(&stored.settings) {
                    Ok(()) => Ok(stored),
                    Err(error) => Err(error),
                }
            },
        }
    }

    /// What is to be written in place of what the file holds: the new settings under the
    /// next revision, if they are valid and the caller knew the current revision.
    pub fn replace(
        &self,
        file: Option<Result<RevisionedSettings, StorageError>>,
        expected_revision: u64,
        settings: Settings,
    ) -> (result: Result<RevisionedSettings, StorageError>)
        ensures
            replaces(file, expected_revision, settings, result),
            result matches Ok(updated) ==> settings_valid(updated.settings),
    {
        match validate_settings(&settings) {
            Ok(()) => {},
            Err(error) => {
                return Err(error);
            },
        }
        let loaded = self.load(file);
        let ghost current = loaded;
        assert(loads(file, current));
        match loaded {
            Err(error) => Err(error),
            Ok(stored) => {
                if stored.revision != expected_revision {
                    return Err(
                        StorageError::Conflict {
                            expected: expected_revision,
                            current: stored.revision,
                        },
                    );
                }
                Ok(
                    RevisionedSettings {
                        revision: saturating_sum_u64(stored.revision, 1),
                        settings,
                    },
                )
            },
        }
    }
}

/// What was written is read back: once a replacement is written, loading the file returns
/// the settings that were given, under the revision after the one that was expected.
pub proof fn a_replacement_reads_back(
    file: Option<Result<RevisionedSettings, StorageError>>,
    expected_revision: u64,
    settings: Settings,
    updated: RevisionedSettings,
)
    requires
        replaces(file, expected_revision, settings, Ok(updated)),
    ensures
        updated.settings == settings,
        updated.revision == capped_u64(expected_revision + 1),
        forall|loaded: Result<RevisionedSettings, StorageError>|
            loads(Some(Ok(updated)), loaded) ==> loaded == Ok::<RevisionedSettings, StorageError>(
                updated,
            ),
{
}

/// Of two callers that replace the same revision, the second is refused: what the first
/// wrote is under another revision.
pub proof fn a_stale_replacement_conflicts(
    file: Option<Result<RevisionedSettings, StorageError>>,
    seen: u64,
    first: Settings,
    written: RevisionedSettings,
    second: Settings,
    result: Result<RevisionedSettings, StorageError>,
)
    requires
        seen < u64::MAX,
        replaces(file, seen, first, Ok(written)),
        settings_valid(second),
        replaces(Some(Ok(written)), seen, second, result),
    ensures
        result == Err::<RevisionedSettings, StorageError>(
            StorageError::Conflict { expected: seen, current: written.revision },
        ),
{
}

// ---------------------------------------------------------------------------
// History
// ---------------------------------------------------------------------------

/// History kept in one file, one entry a line, the oldest first.
#[derive(Debug)]
pub struct JsonlHistoryRepository {
    pub path: String,
}

/// Where a page starts: at the number that the cursor writes, and at the newest entry
/// without one.
pub open spec fn page_offset(cursor: Option<Seq<char>>) -> nat {
    match cursor {
        Some(text) => match parsed(text, usize::MAX as nat) {
            Some(n) => n,
            None => 0,
        },
        None => 0,
    }
}

/// The entries from a place on, the newest first.
pub open spec fn newest_from(entries: Seq<HistoryEntry>, offset: nat) -> Seq<HistoryEntry> {
    if offset >= entries.len() {
        Seq::empty()
    } else {
        entries.reverse().skip(offset as int)
    }
}

/// At most so many entries from a place on, the newest first.
pub open spec fn page(entries: Seq<HistoryEntry>, offset: nat, limit: nat) -> Seq<HistoryEntry> {
    let rest = newest_from(entries, offset);
    if limit < rest.len() {
        rest.take(limit as int)
    } else {
        rest
    }
}

/// Where the page after it starts, if anything is left.
pub open spec fn next_offset(entries: Seq<HistoryEntry>, offset: nat, limit: nat) -> Option<nat> {
    let next = capped((offset + page(entries, offset, limit).len()) as int);
    if next < entries.len() {
        Some(next as nat)
    } else {
        None
    }
}

/// The contents of an optional text.
pub open spec fn opt_str_view(value: Option<&str>) -> Option<Seq<char>> {
    match value {
        Some(s) => Some(s@),
        None => None,
    }
}

/// Whether a line of the file is to be read at all.
pub fn holds_entry(line: &str) -> (result: bool)
    ensures
        result == !is_blank(line@),
{
    !blank(line)
}

impl JsonlHistoryRepository {
    /// A repository in the file at a path.
    #[must_use]
    pub fn new(path: String) -> (result: Self)
        ensures
            result.path == path,
    {
        Self { path }
    }

    /// One page of the entries of the file, the newest first, and the cursor of the page
    /// after it.
    pub fn list(
        &self,
        entries: Vec<HistoryEntry>,
        limit: usize,
        cursor: Option<&str>,
    ) -> (result: (Vec<HistoryEntry>, Option<String>))
        ensures
            result.0@ == page(entries@, page_offset(opt_str_view(cursor)), limit as nat),
            match result.1 {
                Some(text) => match next_offset(
                    entries@,
                    page_offset(opt_str_view(cursor)),
                    limit as nat,
                ) {
                    Some(next) => text@ == digits(next),
                    None => false,
                },
                None => next_offset(
                    entries@,
                    page_offset(opt_str_view(cursor)),
                    limit as nat,
                ) is None,
            },
    {
        let offset: usize = match cursor {
            Some(text) => match parse_usize(text) {
                Some(n) => n,
                None => 0,
            },
            None => 0,
        };
        let ghost all = entries@;
        let ghost newest = all.reverse();
        let total: usize = entries.len();
        let mut entries = entries;
        if offset >= total {
            let none: Vec<HistoryEntry> = Vec::new();
            assert(none@ =~= page(all, offset as nat, limit as nat));
            return (none, None);
        }
        entries.truncate(total - offset);
        let mut chosen: Vec<HistoryEntry> = Vec::new();
        assert(chosen@ =~= newest.subrange(offset as int, offset as int));
        while chosen.len() < limit && entries.len() > 0
            invariant
                newest == all.reverse(),
                total == all.len(),
                offset < total,
                chosen@.len() <= limit,
                entries@.len() == total - offset - chosen@.len(),
                entries@ =~= all.take(entries@.len() as int),
                chosen@ == newest.subrange(offset as int, offset + chosen@.len()),
            decreases entries@.len(),
        {
            let ghost before = chosen@;
            match entries.pop() {
                Some(entry) => {
                    chosen.push(entry);
                    assert(chosen@ =~= newest.subrange(offset as int, offset + chosen@.len())) by {
                        assert(newest[offset + before.len()] == all[total - 1 - (offset
                            + before.len())]);
                    }
                },
                None => {},
            }
        }
        proof {
            let rest = newest_from(all, offset as nat);
            assert(rest == newest.skip(offset as int));
            if limit < rest.len() {
                assert(chosen@ =~= rest.take(limit as int));
            } else {
                assert(chosen@ =~= rest);
            }
        }
        let next: usize = offset + chosen.len();
        let cursor = if next < total {
            Some(decimal(next as u64))
        } else {
            None
        };
        (chosen, cursor)
    }
}

/// Pages follow each other without gap or overlap: a page and what its cursor leads to are
/// what there was from the place where the page starts, and a page without a cursor is all
/// that was left.
pub proof fn pages_follow_each_other(entries: Seq<HistoryEntry>, offset: nat, limit: nat)
    requires
        entries.len() <= usize::MAX,
        offset <= usize::MAX,
    ensures
        match next_offset(entries, offset, limit) {
            Some(next) => {
                &&& page_offset(Some(digits(next))) == next
                &&& page(entries, offset, limit) + newest_from(entries, next) == newest_from(
                    entries,
                    offset,
                )
            },
            None => page(entries, offset, limit) == newest_from(entries, offset),
        },
        newest_from(entries, 0) == entries.reverse(),
{
    assert(newest_from(entries, 0) =~= entries.reverse());
    let rest = newest_from(entries, offset);
    match next_offset(entries, offset, limit) {
        Some(next) => {
            reading_undoes_writing(next, usize::MAX as nat);
            assert(page(entries, offset, limit) + newest_from(entries, next) =~= rest);
        },
        None => {},
    }
}

/// The entry that was added last comes first.
pub proof fn the_newest_entry_comes_first(
    entries: Seq<HistoryEntry>,
    added: HistoryEntry,
    limit: nat,
)
    requires
        limit > 0,
    ensures
        page(entries.push(added), 0, limit).len() > 0,
        page(entries.push(added), 0, limit)[0] == added,
{
    assert(newest_from(entries.push(added), 0)[0] == added);
}

/// A page is not empty while anything is left, so that following the cursors ends.
pub proof fn pages_make_progress(entries: Seq<HistoryEntry>, offset: nat, limit: nat)
    requires
        limit > 0,
        offset < entries.len(),
        entries.len() <= usize::MAX,
    ensures
        page(entries, offset, limit).len() > 0,
        next_offset(entries, offset, limit) matches Some(next) ==> next > offset,
{
}

/// The pages that following the cursors leads through, from a cursor on. A cursor that did
/// not lead on would end the walk.
pub open spec fn walk(entries: Seq<HistoryEntry>, cursor: Option<Seq<char>>, limit: nat) -> Seq<
    Seq<HistoryEntry>,
>
    decreases entries.len() - page_offset(cursor),
{
    let offset = page_offset(cursor);
    let first = page(entries, offset, limit);
    match next_offset(entries, offset, limit) {
        Some(next) => {
            let following = Some(digits(next));
            if offset < page_offset(following) <= entries.len() {
                seq![first] + walk(entries, following, limit)
            } else {
                seq![first]
            }
        },
        None => seq![first],
    }
}

/// Following the cursors from the first page on leads through the whole history: every
/// entry once, the newest first, in pages that are full but for the last.
pub proof fn following_the_cursors_gives_everything(entries: Seq<HistoryEntry>, limit: nat)
    requires
        limit > 0,
        entries.len() <= usize::MAX,
    ensures
        walk(entries, None, limit).flatten() == entries.reverse(),
        full_but_for_the_last(walk(entries, None, limit), limit),
{
    walk_from(entries, None, limit);
    assert(newest_from(entries, 0) =~= entries.reverse());
}

/// Every page but the last holds as many entries as a page may, and the last no more.
pub open spec fn full_but_for_the_last(pages: Seq<Seq<HistoryEntry>>, limit: nat) -> bool {
    &&& pages.len() > 0
    &&& forall|i: int| 0 <= i < pages.len() - 1 ==> (#[trigger] pages[i]).len() == limit
    &&& pages.last().len() <= limit
}

proof fn walk_from(entries: Seq<HistoryEntry>, cursor: Option<Seq<char>>, limit: nat)
    requires
        limit > 0,
        entries.len() <= usize::MAX,
        page_offset(cursor) <= entries.len(),
    ensures
        walk(entries, cursor, limit).flatten() == newest_from(entries, page_offset(cursor)),
        full_but_for_the_last(walk(entries, cursor, limit), limit),
    decreases entries.len() - page_offset(cursor),
{
    let offset = page_offset(cursor);
    let first = page(entries, offset, limit);
    pages_follow_each_other(entries, offset, limit);
    match next_offset(entries, offset, limit) {
        Some(next) => {
            let following = Some(digits(next));
            let rest = walk(entries, following, limit);
            if offset < entries.len() {
                pages_make_progress(entries, offset, limit);
            }
            walk_from(entries, following, limit);
            let all = seq![first] + rest;
            assert(all.first() == first);
            assert(all.drop_first() =~= rest);
            assert(all.flatten() == first + rest.flatten());
            assert forall|i: int| 0 <= i < all.len() - 1 implies (#[trigger] all[i]).len()
                == limit by {
                if i > 0 {
                    assert(all[i] == rest[i - 1]);
                }
            }
            assert(all.last() == rest.last());
        },
        None => {
            let all = seq![first];
            assert(all.first() == first);
            assert(all.drop_first() =~= Seq::<Seq<HistoryEntry>>::empty());
            assert(all.drop_first().flatten() =~= Seq::<HistoryEntry>::empty());
            assert(all.flatten() =~= first);
        },
    }
}

// ---------------------------------------------------------------------------
// Credentials
// ---------------------------------------------------------------------------

/// Checks the name of a credential.
pub fn check_credential_id(credential_id: &str) -> (result: Result<(), StorageError>)
    ensures
        match result {
            Ok(()) => !is_blank(credential_id@),
            Err(StorageError::CredentialValidation { field, message }) => is_blank(credential_id@)
                && field@ == "credential_id"@ && message@ == "must not be empty"@,
            Err(_) => false,
        },
{
    if blank(credential_id) {
        Err(
            StorageError::CredentialValidation {
                field: "credential_id",
                message: "must not be empty",
            },
        )
    } else {
        Ok(())
    }
}

/// Checks a credential before it is stored: first the secret, then its name.
pub fn check_credential(credential_id: &str, secret: &str) -> (result: Result<(), StorageError>)
    ensures
        match result {
            Ok(()) => secret@.len() > 0 && !is_blank(credential_id@),
            Err(StorageError::CredentialValidation { field, message }) => {
                &&& message@ == "must not be empty"@
                &&& secret@.len() == 0 ==> field@ == "secret"@
                &&& secret@.len() > 0 ==> is_blank(credential_id@) && field@ == "credential_id"@
            },
            Err(_) => false,
        },
{
    let size: usize = chars_of(secret).len();
    if size == 0 {
        return Err(
            StorageError::CredentialValidation { field: "secret", message: "must not be empty" },
        );
    }
    check_credential_id(credential_id)
}

/// Where settings and history are kept below the user's directories.
#[must_use]
pub fn default_paths(data_dir: &str, config_dir: &str) -> (result: (String, String))
    ensures
        result.0@ == path_join(config_dir@, "speakiput/settings.json"@),
        result.1@ == path_join(data_dir@, "speakiput/history.jsonl"@),
{
    (
        join_path(config_dir, "speakiput/settings.json"),
        join_path(data_dir, "speakiput/history.jsonl"),
    )
}

/// Where nothing is stored the defaults are in force, at revision nought; what is stored is
/// in force as it is if it is valid, and otherwise not at all.
pub proof fn stored_settings_are_in_force(
    stored: RevisionedSettings,
    result: Result<RevisionedSettings, StorageError>,
)
    ensures
        loads(None, result) ==> {
            &&& result is Ok
            &&& result->Ok_0.revision == 0
            &&& default_settings(result->Ok_0.settings)
        },
        loads(Some(Ok(stored)), result) ==> (result is Ok <==> settings_valid(stored.settings)),
        loads(Some(Ok(stored)), result) && result is Ok ==> result->Ok_0 == stored,
        loads(Some(Ok(stored)), result) && result is Err ==> result->Err_0 is Validation,
{
}

/// Settings are replaced exactly if they are valid and nobody replaced those that they were
/// made from; invalid ones are refused whatever the revision.
pub proof fn settings_are_replaced_from_the_known_revision(
    stored: RevisionedSettings,
    expected_revision: u64,
    settings: Settings,
    result: Result<RevisionedSettings, StorageError>,
)
    requires
        settings_valid(stored.settings),
        replaces(Some(Ok(stored)), expected_revision, settings, result),
    ensures
        result is Ok <==> settings_valid(settings) && expected_revision == stored.revision,
        !settings_valid(settings) ==> result->Err_0 is Validation,
        settings_valid(settings) && expected_revision != stored.revision ==> result->Err_0
            == (StorageError::Conflict {
            expected: expected_revision,
            current: stored.revision,
        }),
        result is Ok && stored.revision < u64::MAX ==> result->Ok_0.revision == stored.revision + 1,
{
}

/// A page starts where its cursor says, and at the front without a cursor or with one that is
/// no number.
pub proof fn cursors_say_where_a_page_starts(n: nat, text: Seq<char>, at: int)
    requires
        n <= usize::MAX,
        0 < at < text.len(),
        !('0' <= text[at] <= '9'),
    ensures
        page_offset(None) == 0,
        page_offset(Some(digits(n))) == n,
        page_offset(Some(text)) == 0,
        page_offset(Some(Seq::empty())) == 0,
{
    reading_undoes_writing(n, usize::MAX as nat);
    let body = crate::decimal::number_body(text);
    assert(!crate::decimal::is_number(text)) by {
        if text[0] == '+' {
            assert(body[at - 1] == text[at]);
        } else {
            assert(body[at] == text[at]);
        }
    }
}

} // verus!
