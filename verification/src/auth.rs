//! The users that a server's configuration names.
use vstd::prelude::*;

use crate::text;
use crate::user_store;

verus! {

/// Why a user, or a list of users, is refused.
#[derive(Debug, Clone, PartialEq, Eq)]
pub enum AuthError {
    InvalidCredentials,
    EmptyUsername,
    DuplicateUser(String),
    InvalidHash,
}

/// What is wrong with a user in a list.
pub enum UserProblem {
    Empty,
    Duplicate(Seq<char>),
    Hash,
}

/// Whether the name of user `i` is that of a user before it.
pub open spec fn named_before(users: Seq<(String, String)>, i: int) -> bool {
    exists|j: int| 0 <= j < i && (#[trigger] users[j]).0@ == users[i].0@
}

/// What is wrong with user `i`: its name is empty, or taken, or its hash is none.
pub open spec fn problem_of(users: Seq<(String, String)>, i: int) -> Option<UserProblem> {
    if users[i].0@.len() == 0 {
        Some(UserProblem::Empty)
    } else if named_before(users, i) {
        Some(UserProblem::Duplicate(users[i].0@))
    } else if user_store::hash_fault(users[i].1@) is Some {
        Some(UserProblem::Hash)
    } else {
        None
    }
}

/// What is wrong with the first of the first `n` users with which something is wrong.
pub open spec fn first_problem(users: Seq<(String, String)>, n: int) -> Option<UserProblem>
    decreases n,
{
    if n <= 0 {
        None
    } else {
        match first_problem(users, n - 1) {
            Some(p) => Some(p),
            None => problem_of(users, n - 1),
        }
    }
}

/// Whether an error says what `problem` says.
pub open spec fn tells(e: AuthError, problem: Option<UserProblem>) -> bool {
    match e {
        AuthError::InvalidCredentials => false,
        AuthError::EmptyUsername => problem == Some(UserProblem::Empty),
        AuthError::DuplicateUser(name) => problem == Some(UserProblem::Duplicate(name@)),
        AuthError::InvalidHash => problem == Some(UserProblem::Hash),
    }
}

/// The users of a server, each with a name of its own and a password hash.
#[derive(Debug)]
pub struct UserStore {
    users: Vec<(String, String)>,
}

impl UserStore {
    /// The names and hashes, as they were given.
    pub closed spec fn users(&self) -> Seq<(String, String)> {
        self.users@
    }

    /// The users of a list, unless something is wrong with one of them.
    pub fn from_users(users: Vec<(String, String)>) -> (r: Result<UserStore, AuthError>)
        ensures
            match r {
                Ok(store) => {
                    &&& first_problem(users@, users@.len() as int) is None
                    &&& store.users() == users@
                },
                Err(e) => tells(e, first_problem(users@, users@.len() as int)),
            },
    {
        let mut i: usize = 0;
        while i < users.len()
            invariant
                i <= users@.len(),
                first_problem(users@, i as int) is None,
            decreases users@.len() - i,
        {
            if let Some(e) = user_error(&users, i) {
                proof {
                    lemma_first_problem_stays(users@, i + 1, users@.len() as int);
                }
                return Err(e);
            }
            i = i + 1;
        }
        Ok(UserStore { users })
    }
}

/// What is wrong with user `i` of a list.
fn user_error(users: &Vec<(String, String)>, i: usize) -> (r: Option<AuthError>)
    requires
        i < users@.len(),
    ensures
        match r {
            Some(e) => problem_of(users@, i as int) is Some && tells(
                e,
                problem_of(users@, i as int),
            ),
            None => problem_of(users@, i as int) is None,
        },
{
    let name = users[i].0.as_str();
    if name.is_empty() {
        return Some(AuthError::EmptyUsername);
    }
    let mut j: usize = 0;
    while j < i
        invariant
            j <= i < users@.len(),
            name@ == users@[i as int].0@,
            name@.len() > 0,
            forall|k: int| 0 <= k < j ==> (#[trigger] users@[k]).0@ != name@,
        decreases i - j,
    {
        if text::same_text(users[j].0.as_str(), name) {
            return Some(AuthError::DuplicateUser(name.to_string()));
        }
        j = j + 1;
    }
    match user_store::phc_error(users[i].1.as_str()) {
        Some(_) => Some(AuthError::InvalidHash),
        None => None,
    }
}

/// A problem among the first users is the first problem of all.
proof fn lemma_first_problem_stays(users: Seq<(String, String)>, m: int, n: int)
    requires
        0 <= m <= n,
        first_problem(users, m) is Some,
    ensures
        first_problem(users, n) == first_problem(users, m),
    decreases n,
{
    if m < n {
        lemma_first_problem_stays(users, m, n - 1);
    }
}

/// In a list with which nothing is wrong no name is empty, and no two are the same.
pub proof fn law_accepted_names_differ(users: Seq<(String, String)>, i: int, j: int)
    requires
        first_problem(users, users.len() as int) is None,
        0 <= i < j < users.len(),
    ensures
        users[i].0@.len() > 0,
        users[j].0@.len() > 0,
        users[i].0@ != users[j].0@,
{
    lemma_no_problem_at(users, users.len() as int, i);
    lemma_no_problem_at(users, users.len() as int, j);
    assert(!named_before(users, j));
}

proof fn lemma_no_problem_at(users: Seq<(String, String)>, n: int, i: int)
    requires
        first_problem(users, n) is None,
        0 <= i < n,
    ensures
        problem_of(users, i) is None,
    decreases n,
{
    if i < n - 1 {
        lemma_no_problem_at(users, n - 1, i);
    }
}

/// A list is accepted if no name in it is empty, no two are the same, and every hash is one.
pub proof fn law_list_in_order_is_accepted(users: Seq<(String, String)>, n: int)
    requires
        0 <= n <= users.len(),
        forall|i: int| 0 <= i < n ==> (#[trigger] users[i]).0@.len() > 0,
        forall|i: int, j: int|
            0 <= i < j < n ==> (#[trigger] users[i]).0@ != (#[trigger] users[j]).0@,
        forall|i: int| 0 <= i < n ==> user_store::hash_fault((#[trigger] users[i]).1@) is None,
    ensures
        first_problem(users, n) is None,
    decreases n,
{
    if n > 0 {
        law_list_in_order_is_accepted(users, n - 1);
        let i = n - 1;
        assert(users[i].0@.len() > 0);
        if named_before(users, i) {
            let j = choose|j: int| 0 <= j < i && (#[trigger] users[j]).0@ == users[i].0@;
            assert(users[j].0@ != users[i].0@);
        }
    }
}

/// The first user with which something is wrong decides: an empty name comes before a name that
/// was there already, and that before a hash that is none. What is behind that user is not
/// looked at.
pub proof fn law_first_faulty_user_decides(users: Seq<(String, String)>, k: int, twin: int)
    requires
        0 <= k < users.len(),
        forall|i: int| 0 <= i < k ==> (#[trigger] users[i]).0@.len() > 0,
        forall|i: int, j: int|
            0 <= i < j < k ==> (#[trigger] users[i]).0@ != (#[trigger] users[j]).0@,
        forall|i: int| 0 <= i < k ==> user_store::hash_fault((#[trigger] users[i]).1@) is None,
    ensures
        users[k].0@.len() == 0 ==> first_problem(users, users.len() as int) == Some(
            UserProblem::Empty,
        ),
        users[k].0@.len() > 0 && 0 <= twin < k && users[twin].0@ == users[k].0@ ==> first_problem(
            users,
            users.len() as int,
        ) == Some(UserProblem::Duplicate(users[k].0@)),
        users[k].0@.len() > 0 && (forall|j: int|
            0 <= j < k ==> (#[trigger] users[j]).0@ != users[k].0@) && user_store::hash_fault(
            users[k].1@,
        ) is Some ==> first_problem(users, users.len() as int) == Some(UserProblem::Hash),
{
    law_list_in_order_is_accepted(users, k);
    if problem_of(users, k) is Some {
        assert(first_problem(users, k + 1) == problem_of(users, k));
        lemma_first_problem_stays(users, k + 1, users.len() as int);
    }
    if 0 <= twin < k && users[twin].0@ == users[k].0@ {
        assert(named_before(users, k));
    }
}

/// Each problem has an error of its own, and the error of a name that was there already carries
/// the name.
pub proof fn law_each_problem_has_its_error(name: String, e: AuthError)
    ensures
        tells(e, Some(UserProblem::Empty)) <==> e == AuthError::EmptyUsername,
        tells(AuthError::DuplicateUser(name), Some(UserProblem::Duplicate(name@))),
        tells(e, Some(UserProblem::Duplicate(name@))) ==> (e
            matches AuthError::DuplicateUser(s) && s@ == name@),
        tells(e, Some(UserProblem::Hash)) <==> e == AuthError::InvalidHash,
        !tells(e, None),
{
}

} // verus!
