//! Where the server keeps its users: a name each, and a hash of the password.
use vstd::prelude::*;

use crate::text;

pub mod memory;
pub mod sqlite;

verus! {

/// Why a store did not do what was asked of it.
#[derive(Debug, Clone, PartialEq, Eq)]
pub enum StoreError {
    Io(String),
    InvalidInput(String),
}

impl StoreError {
    /// The text of the error.
    pub open spec fn text(self) -> Seq<char> {
        match self {
            StoreError::Io(what) => "store io error: "@ + what@,
            StoreError::InvalidInput(what) => "invalid input: "@ + what@,
        }
    }

    /// The error in words.
    pub fn message(&self) -> (r: String)
        ensures
            r@ == self.text(),
    {
        match self {
            StoreError::Io(what) => text::join2("store io error: ", what.as_str()),
            StoreError::InvalidInput(what) => text::join2("invalid input: ", what.as_str()),
        }
    }
}

/// What `PasswordHashString::new` finds wrong with a password hash that begins with a dollar
/// sign, in words.
pub uninterp spec fn phc_fault(phc: Seq<char>) -> Option<Seq<char>>;

/// Whether a text begins as a password hash does.
pub open spec fn begins_as_hash(phc: Seq<char>) -> bool {
    phc.len() > 0 && phc[0] == '$'
}

/// What is wrong with a password hash.
pub open spec fn hash_fault(phc: Seq<char>) -> Option<Seq<char>> {
    if begins_as_hash(phc) {
        phc_fault(phc)
    } else {
        Some("password hash string missing field"@)
    }
}

/// `argon2::password_hash::PasswordHashString::new`: reads a password hash in the PHC string
/// format. The result is the text of its error, which depends on nothing but the hash. A hash
/// that does not begin with a dollar sign is always refused, as one that misses a field; which
/// others are is not stated.
#[verifier::external_body]
pub(crate) fn phc_error(phc: &str) -> (r: Option<String>)
    ensures
        begins_as_hash(phc@) ==> match r {
            Some(what) => phc_fault(phc@) == Some(what@),
            None => phc_fault(phc@) is None,
        },
        !begins_as_hash(phc@) ==> match r {
            Some(what) => what@ == "password hash string missing field"@,
            None => false,
        },
{
    match argon2::password_hash::PasswordHashString::new(phc) {
        Ok(_) => None,
        Err(e) => Some(format!("{e}")),
    }
}

/// What is wrong with a user that is to be stored.
pub open spec fn upsert_fault(username: Seq<char>, phc: Seq<char>) -> Option<Seq<char>> {
    if username.len() == 0 {
        Some("empty username"@)
    } else {
        match hash_fault(phc) {
            Some(what) => Some("invalid phc: "@ + what),
            None => None,
        }
    }
}

/// Whether an error says what `fault` says.
pub open spec fn reports(e: StoreError, fault: Option<Seq<char>>) -> bool {
    match e {
        StoreError::InvalidInput(what) => fault == Some(what@),
        StoreError::Io(_) => false,
    }
}

/// Looks at a user that is to be stored: the name must not be empty, and the hash must be one.
pub fn validate_upsert(username: &str, phc: &str) -> (r: Result<(), StoreError>)
    ensures
        match r {
            Ok(()) => upsert_fault(username@, phc@) is None,
            Err(e) => reports(e, upsert_fault(username@, phc@)),
        },
{
    if username.is_empty() {
        return Err(StoreError::InvalidInput("empty username".to_string()));
    }
    checked_hash(phc_error(phc))
}

/// What a look at the hash amounts to, from what was found wrong with it.
pub fn checked_hash(fault: Option<String>) -> (r: Result<(), StoreError>)
    ensures
        match fault {
            None => r is Ok,
            Some(what) => match r {
                Ok(()) => false,
                Err(e) => reports(e, Some("invalid phc: "@ + what@)),
            },
        },
{
    match fault {
        Some(what) => Err(StoreError::InvalidInput(text::join2("invalid phc: ", what.as_str()))),
        None => Ok(()),
    }
}

/// A store of users. Whatever else may go wrong in it, what it answers is so.
pub trait UserStore {
    /// The hash of each user, by name.
    spec fn users(&self) -> Map<Seq<char>, Seq<char>>;

    /// Whether the store is in order.
    spec fn wf(&self) -> bool;

    /// The hash of a user, if there is one of that name.
    fn password_hash(&self, username: &str) -> (r: Result<Option<String>, StoreError>)
        requires
            self.wf(),
        ensures
            match r {
                Ok(Some(phc)) => self.users().dom().contains(username@) && self.users()[username@]
                    == phc@,
                Ok(None) => !self.users().dom().contains(username@),
                Err(e) => e is Io,
            },
    ;

    /// Stores a user, in place of any other of that name. One with an empty name, or with a
    /// hash that is none, is refused, and nothing changes.
    fn upsert(&mut self, username: &str, phc: &str) -> (r: Result<(), StoreError>)
        requires
            old(self).wf(),
        ensures
            final(self).wf(),
            match r {
                Ok(()) => {
                    &&& upsert_fault(username@, phc@) is None
                    &&& final(self).users() == old(self).users().insert(username@, phc@)
                },
                Err(StoreError::InvalidInput(what)) => {
                    &&& upsert_fault(username@, phc@) == Some(what@)
                    &&& final(self).users() == old(self).users()
                },
                Err(StoreError::Io(_)) => upsert_fault(username@, phc@) is None,
            },
    ;

    /// Forgets a user, and tells whether there was one of that name.
    fn delete(&mut self, username: &str) -> (r: Result<bool, StoreError>)
        requires
            old(self).wf(),
        ensures
            final(self).wf(),
            match r {
                Ok(was_there) => {
                    &&& was_there == old(self).users().dom().contains(username@)
                    &&& final(self).users() == old(self).users().remove(username@)
                },
                Err(e) => e is Io,
            },
    ;

    /// The names of all users, in order.
    fn list(&self) -> (r: Result<Vec<String>, StoreError>)
        requires
            self.wf(),
        ensures
            match r {
                Ok(names) => lists(names@, self.users()),
                Err(e) => e is Io,
            },
    ;
}

/// Whether names stand in order, each once.
pub open spec fn in_order(names: Seq<String>) -> bool {
    forall|i: int, j: int|
        0 <= i < j < names.len() ==> text::comes_before((#[trigger] names[i])@, (
        #[trigger] names[j])@)
}

/// Whether `names` are those of all users, in order.
pub open spec fn lists(names: Seq<String>, users: Map<Seq<char>, Seq<char>>) -> bool {
    &&& in_order(names)
    &&& forall|i: int| 0 <= i < names.len() ==> users.dom().contains((#[trigger] names[i])@)
    &&& forall|name: Seq<char>| #[trigger]
        users.dom().contains(name) ==> exists|i: int|
            0 <= i < names.len() && (#[trigger] names[i])@ == name
}

/// The error of a store whose lock was held by a task that did not end well.
pub fn poisoned() -> (e: StoreError)
    ensures
        match e {
            StoreError::Io(what) => what@ == "lock poisoned"@,
            StoreError::InvalidInput(_) => false,
        },
{
    StoreError::Io("lock poisoned".to_string())
}

/// A user that was stored is found with the hash that it was stored with, and storing it again
/// replaces nothing but its hash.
pub proof fn law_stored_hash_is_found(
    users: Map<Seq<char>, Seq<char>>,
    name: Seq<char>,
    first: Seq<char>,
    second: Seq<char>,
    other: Seq<char>,
)
    ensures
        users.insert(name, first).dom().contains(name),
        users.insert(name, first)[name] == first,
        users.insert(name, first).insert(name, second) == users.insert(name, second),
        other != name ==> (users.insert(name, first).dom().contains(other)
            == users.dom().contains(other)),
        other != name && users.dom().contains(other) ==> users.insert(name, first)[other]
            == users[other],
{
    assert(users.insert(name, first).insert(name, second) =~= users.insert(name, second));
}

/// A user that was forgotten is not found, and forgetting a user that was only just stored
/// leaves the store as it was.
pub proof fn law_deleted_user_is_gone(
    users: Map<Seq<char>, Seq<char>>,
    name: Seq<char>,
    phc: Seq<char>,
)
    ensures
        !users.remove(name).dom().contains(name),
        !users.dom().contains(name) ==> users.insert(name, phc).remove(name) == users,
{
    if !users.dom().contains(name) {
        assert(users.insert(name, phc).remove(name) =~= users);
    }
}

/// There is only one list of a store's users.
pub proof fn law_list_is_stable(
    a: Seq<String>,
    b: Seq<String>,
    users: Map<Seq<char>, Seq<char>>,
)
    requires
        lists(a, users),
        lists(b, users),
    ensures
        a.len() == b.len(),
        forall|i: int| 0 <= i < a.len() ==> (#[trigger] a[i])@ == b[i]@,
{
    lemma_lists_agree(a, b, users, 0);
    lemma_lists_agree(b, a, users, 0);
}

/// From a place on up to which two lists agree, the first goes on no longer than the second,
/// and agrees with it.
proof fn lemma_lists_agree(
    a: Seq<String>,
    b: Seq<String>,
    users: Map<Seq<char>, Seq<char>>,
    from: int,
)
    requires
        lists(a, users),
        lists(b, users),
        0 <= from <= a.len(),
        from <= b.len(),
        forall|i: int| 0 <= i < from ==> (#[trigger] a[i])@ == b[i]@,
    ensures
        a.len() <= b.len(),
        forall|i: int| 0 <= i < a.len() ==> (#[trigger] a[i])@ == b[i]@,
    decreases a.len() - from,
{
    if from < a.len() {
        let name = a[from]@;
        assert(users.dom().contains(name));
        let j = choose|j: int| 0 <= j < b.len() && (#[trigger] b[j])@ == name;
        if j < from {
            assert(a[j]@ == b[j]@);
            text::lemma_order_total(a[j]@, a[from]@);
        }
        if from < j {
            let other = b[from]@;
            assert(users.dom().contains(other));
            let k = choose|k: int| 0 <= k < a.len() && (#[trigger] a[k])@ == other;
            text::lemma_order_total(other, name);
            assert(text::comes_before(b[from]@, b[j]@));
            if from < k {
                assert(text::comes_before(a[from]@, a[k]@));
            } else if k < from {
                assert(a[k]@ == b[k]@);
                text::lemma_order_total(b[k]@, b[from]@);
            }
        }
        lemma_lists_agree(a, b, users, from + 1);
    }
}

/// A user can be stored if and only if its name is not empty and its hash is one. An empty name
/// is found before the hash is looked at, and a hash that is none is refused with what is wrong
/// with it.
pub proof fn law_name_and_hash_are_looked_at(name: Seq<char>, phc: Seq<char>)
    ensures
        upsert_fault(name, phc) is None <==> name.len() > 0 && hash_fault(phc) is None,
        name.len() == 0 ==> upsert_fault(name, phc) == Some("empty username"@),
        name.len() > 0 && hash_fault(phc) is Some ==> upsert_fault(name, phc) == Some(
            "invalid phc: "@ + hash_fault(phc).unwrap(),
        ),
        phc.len() == 0 || phc[0] != '$' ==> hash_fault(phc) == Some(
            "password hash string missing field"@,
        ),
        phc.len() > 0 && phc[0] == '$' ==> hash_fault(phc) == phc_fault(phc),
{
}

/// What is wrong with what is to be stored is told by the error for input, and by no other.
pub proof fn law_fault_is_told_as_it_is(what: String, fault: Option<Seq<char>>)
    ensures
        reports(StoreError::InvalidInput(what), fault) <==> fault == Some(what@),
        !reports(StoreError::Io(what), fault),
        StoreError::Io(what).text() == "store io error: "@ + what@,
        StoreError::InvalidInput(what).text() == "invalid input: "@ + what@,
{
}

/// The list of a store's users has every name once, in the order of the names, and no other.
pub proof fn law_list_has_each_user_once(
    names: Seq<String>,
    users: Map<Seq<char>, Seq<char>>,
    i: int,
    j: int,
)
    requires
        lists(names, users),
        0 <= i < names.len(),
        0 <= j < names.len(),
    ensures
        users.dom().contains(names[i]@),
        i < j ==> text::comes_before(names[i]@, names[j]@),
        i != j ==> names[i]@ != names[j]@,
        forall|name: Seq<char>| #[trigger]
            users.dom().contains(name) ==> exists|k: int|
                0 <= k < names.len() && (#[trigger] names[k])@ == name,
{
    if i < j {
        text::lemma_order_total(names[i]@, names[j]@);
    }
    if j < i {
        text::lemma_order_total(names[j]@, names[i]@);
    }
}

} // verus!
