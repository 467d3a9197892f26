//! How a store in a database is opened.
use vstd::prelude::*;

use crate::text;
use crate::user_store;
use crate::user_store::StoreError;

verus! {

/// What `SqliteConnectOptions::from_str` finds wrong with an address that has parameters or
/// escapes, in words.
pub uninterp spec fn sqlite_url_fault(url: Seq<char>) -> Option<Seq<char>>;

/// Whether an address has neither parameters nor escapes.
pub open spec fn is_plain(url: Seq<char>) -> bool {
    !url.contains('?') && !url.contains('%')
}

/// `sqlx::sqlite::SqliteConnectOptions::from_str`: reads the address of a database. The result
/// is the text of its error, which depends on nothing but the address. An address without
/// parameters and without escapes is never refused; which others are is not stated.
#[verifier::external_body]
fn sqlite_url_error(url: &str) -> (r: Option<String>)
    ensures
        is_plain(url@) ==> r is None,
        !is_plain(url@) ==> match r {
            Some(what) => sqlite_url_fault(url@) == Some(what@),
            None => sqlite_url_fault(url@) is None,
        },
{
    match url.parse::<sqlx::sqlite::SqliteConnectOptions>() {
        Ok(_) => None,
        Err(e) => Some(format!("{e}")),
    }
}

/// How a database keeps its journal.
#[derive(Debug, Clone, Copy, PartialEq, Eq, Structural)]
pub enum JournalMode {
    Wal,
}

/// How a database is opened.
#[derive(Debug, Clone, PartialEq, Eq)]
pub struct ConnectSettings {
    pub url: String,
    pub create_if_missing: bool,
    pub journal_mode: JournalMode,
}

/// What is wrong with the address of a database.
pub open spec fn url_fault(url: Seq<char>) -> Option<Seq<char>> {
    if !text::begins_with(url, "sqlite:"@) {
        Some("invalid sqlite url: "@ + url)
    } else if is_plain(url) {
        None
    } else {
        match sqlite_url_fault(url) {
            Some(what) => Some("invalid sqlite url: "@ + what),
            None => None,
        }
    }
}

/// How the database at `url` is opened: it is made if it is not there, and writes ahead.
pub fn connect_options(url: &str) -> (r: Result<ConnectSettings, StoreError>)
    ensures
        match r {
            Ok(settings) => {
                &&& url_fault(url@) is None
                &&& settings.url@ == url@
                &&& settings.create_if_missing
                &&& settings.journal_mode == JournalMode::Wal
            },
            Err(e) => user_store::reports(e, url_fault(url@)),
        },
{
    if !text::starts_with(url, "sqlite:") {
        return Err(StoreError::InvalidInput(text::join2("invalid sqlite url: ", url)));
    }
    checked_url(url, sqlite_url_error(url))
}

/// How the database at `url` is opened, from what was found wrong with the address.
pub fn checked_url(url: &str, fault: Option<String>) -> (r: Result<ConnectSettings, StoreError>)
    ensures
        match (r, fault) {
            (Ok(settings), None) => {
                &&& settings.url@ == url@
                &&& settings.create_if_missing
                &&& settings.journal_mode == JournalMode::Wal
            },
            (Err(e), Some(what)) => user_store::reports(
                e,
                Some("invalid sqlite url: "@ + what@),
            ),
            _ => false,
        },
{
    match fault {
        Some(what) => Err(
            StoreError::InvalidInput(text::join2("invalid sqlite url: ", what.as_str())),
        ),
        None => Ok(
            ConnectSettings {
                url: url.to_string(),
                create_if_missing: true,
                journal_mode: JournalMode::Wal,
            },
        ),
    }
}

/// An address is refused as a whole if it does not begin as that of a database does; one that
/// does, and has neither parameters nor escapes, is always taken; and any other is refused for
/// what was found wrong with it, if anything was.
pub proof fn law_address_of_a_database_is_looked_at(url: Seq<char>, rest: Seq<char>)
    ensures
        url.len() < 7 || url.take(7) != seq!['s', 'q', 'l', 'i', 't', 'e', ':'] ==> url_fault(url)
            == Some("invalid sqlite url: "@ + url),
        !rest.contains('?') && !rest.contains('%') ==> url_fault(
            seq!['s', 'q', 'l', 'i', 't', 'e', ':'] + rest,
        ) is None,
        rest.contains('?') || rest.contains('%') ==> url_fault(
            seq!['s', 'q', 'l', 'i', 't', 'e', ':'] + rest,
        ) == match sqlite_url_fault(seq!['s', 'q', 'l', 'i', 't', 'e', ':'] + rest) {
            Some(what) => Some("invalid sqlite url: "@ + what),
            None => None,
        },
{
    reveal_strlit("sqlite:");
    let head = seq!['s', 'q', 'l', 'i', 't', 'e', ':'];
    assert("sqlite:"@ =~= head);
    let whole = head + rest;
    assert(whole.take(7) =~= head);
    if !rest.contains('?') && !rest.contains('%') {
        assert forall|i: int| 0 <= i < whole.len() implies #[trigger] whole[i] != '?' && whole[i]
            != '%' by {
            if i < 7 {
                assert(whole[i] == head[i]);
            } else {
                assert(whole[i] == rest[i - 7]);
            }
        }
    } else {
        let i = choose|i: int| 0 <= i < rest.len() && (rest[i] == '?' || rest[i] == '%');
        assert(whole[i + 7] == rest[i]);
    }
}

} // verus!
