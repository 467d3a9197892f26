//! A store that is lost when the server stops.
use vstd::prelude::*;

use crate::text;
use crate::user_store;
use crate::user_store::{StoreError, UserStore};

verus! {

/// The names and hashes, in the order of the names.
#[derive(Debug)]
pub struct InMemoryUserStore {
    entries: Vec<(String, String)>,
}

/// Whether the names stand in order, each once.
spec fn sorted(s: Seq<(String, String)>) -> bool {
    forall|i: int, j: int|
        0 <= i < j < s.len() ==> text::comes_before((#[trigger] s[i]).0@, (#[trigger] s[j]).0@)
}

/// Whether there is a user of that name.
spec fn has_name(s: Seq<(String, String)>, name: Seq<char>) -> bool {
    exists|i: int| 0 <= i < s.len() && (#[trigger] s[i]).0@ == name
}

/// The hash of the user of that name.
spec fn hash_of(s: Seq<(String, String)>, name: Seq<char>) -> Seq<char> {
    s[choose|i: int| 0 <= i < s.len() && (#[trigger] s[i]).0@ == name].1@
}

/// The users as a map.
spec fn users_of(s: Seq<(String, String)>) -> Map<Seq<char>, Seq<char>> {
    Map::new(|name: Seq<char>| has_name(s, name), |name: Seq<char>| hash_of(s, name))
}

proof fn lemma_user_at(s: Seq<(String, String)>, i: int)
    requires
        sorted(s),
        0 <= i < s.len(),
    ensures
        users_of(s).dom().contains(s[i].0@),
        users_of(s)[s[i].0@] == s[i].1@,
{
    assert(has_name(s, s[i].0@));
    let j = choose|j: int| 0 <= j < s.len() && (#[trigger] s[j]).0@ == s[i].0@;
    if j < i {
        text::lemma_order_total(s[j].0@, s[i].0@);
    } else if i < j {
        text::lemma_order_total(s[i].0@, s[j].0@);
    }
}

/// Pairs as they come in: a later one takes the place of an earlier one with the same name.
pub open spec fn pairs_as_users(pairs: Seq<(String, String)>) -> Map<Seq<char>, Seq<char>>
    decreases pairs.len(),
{
    if pairs.len() == 0 {
        Map::empty()
    } else {
        pairs_as_users(pairs.drop_last()).insert(pairs.last().0@, pairs.last().1@)
    }
}

/// What is wrong with the first pair that cannot be stored.
pub open spec fn first_fault(pairs: Seq<(String, String)>) -> Option<Seq<char>>
    decreases pairs.len(),
{
    if pairs.len() == 0 {
        None
    } else {
        match user_store::upsert_fault(pairs[0].0@, pairs[0].1@) {
            Some(what) => Some(what),
            None => first_fault(pairs.drop_first()),
        }
    }
}

impl InMemoryUserStore {
    /// A store without users.
    pub fn new() -> (r: InMemoryUserStore)
        ensures
            r.wf(),
            r.users() == Map::<Seq<char>, Seq<char>>::empty(),
    {
        let r = InMemoryUserStore { entries: Vec::new() };
        assert(r.users() =~= Map::<Seq<char>, Seq<char>>::empty());
        r
    }

    /// A store with the users of `pairs`. The first that cannot be stored is refused.
    pub fn from_pairs(pairs: Vec<(String, String)>) -> (r: Result<InMemoryUserStore, StoreError>)
        ensures
            match r {
                Ok(store) => {
                    &&& store.wf()
                    &&& first_fault(pairs@) is None
                    &&& store.users() == pairs_as_users(pairs@)
                },
                Err(e) => user_store::reports(e, first_fault(pairs@)),
            },
    {
        let mut store = InMemoryUserStore::new();
        let mut i: usize = 0;
        assert(pairs@.skip(0) =~= pairs@);
        assert(pairs@.take(0) =~= Seq::<(String, String)>::empty());
        while i < pairs.len()
            invariant
                i <= pairs@.len(),
                store.wf(),
                first_fault(pairs@.skip(i as int)) == first_fault(pairs@),
                store.users() == pairs_as_users(pairs@.take(i as int)),
            decreases pairs@.len() - i,
        {
            proof {
                let rest = pairs@.skip(i as int);
                assert(rest[0] == pairs@[i as int]);
                assert(rest.drop_first() =~= pairs@.skip(i + 1));
                assert(pairs@.take(i + 1).drop_last() =~= pairs@.take(i as int));
            }
            match store.upsert(pairs[i].0.as_str(), pairs[i].1.as_str()) {
                Ok(()) => {},
                Err(e) => {
                    return Err(e);
                },
            }
            i = i + 1;
        }
        assert(pairs@.take(i as int) =~= pairs@);
        Ok(store)
    }

    /// The first place whose name does not come before `username`, and whether it is that name.
    fn place(&self, username: &str) -> (r: (usize, bool))
        requires
            self.wf(),
        ensures
            r.0 <= self.entries@.len(),
            r.1 == has_name(self.entries@, username@),
            r.1 ==> r.0 < self.entries@.len() && self.entries@[r.0 as int].0@ == username@,
            forall|i: int|
                0 <= i < r.0 ==> text::comes_before(
                    (#[trigger] self.entries@[i]).0@,
                    username@,
                ),
            !r.1 ==> forall|i: int|
                r.0 <= i < self.entries@.len() ==> text::comes_before(
                    username@,
                    (#[trigger] self.entries@[i]).0@,
                ),
    {
        let mut i: usize = 0;
        let ghost s = self.entries@;
        while i < self.entries.len() && text::less(self.entries[i].0.as_str(), username)
            invariant
                self.wf(),
                s == self.entries@,
                i <= s.len(),
                forall|j: int| 0 <= j < i ==> text::comes_before((#[trigger] s[j]).0@, username@),
            decreases s.len() - i,
        {
            i = i + 1;
        }
        let found = i < self.entries.len() && text::same_text(
            self.entries[i].0.as_str(),
            username,
        );
        proof {
            if i < s.len() {
                text::lemma_order_total(s[i as int].0@, username@);
                if !found {
                    assert forall|j: int| i <= j < s.len() implies text::comes_before(
                        username@,
                        (#[trigger] s[j]).0@,
                    ) by {
                        if i < j {
                            text::lemma_order_transitive(username@, s[i as int].0@, s[j].0@);
                        }
                    }
                }
            }
            if has_name(s, username@) {
                let j = choose|j: int| 0 <= j < s.len() && (#[trigger] s[j]).0@ == username@;
                text::lemma_order_total(s[j].0@, username@);
            }
        }
        (i, found)
    }
}

impl Default for InMemoryUserStore {
    fn default() -> (r: InMemoryUserStore)
        ensures
            r.wf(),
            r.users() == Map::<Seq<char>, Seq<char>>::empty(),
    {
        InMemoryUserStore::new()
    }
}

/// What follows from putting a pair where its name belongs.
proof fn lemma_put(
    before: Seq<(String, String)>,
    after: Seq<(String, String)>,
    at: int,
    fresh: bool,
)
    requires
        sorted(before),
        0 <= at <= before.len(),
        at < after.len(),
        fresh ==> after == before.insert(at, after[at]),
        !fresh ==> at < before.len() && before[at].0@ == after[at].0@ && after == before.update(
            at,
            after[at],
        ),
        forall|i: int|
            0 <= i < at ==> text::comes_before((#[trigger] before[i]).0@, after[at].0@),
        fresh ==> forall|i: int|
            at <= i < before.len() ==> text::comes_before(
                after[at].0@,
                (#[trigger] before[i]).0@,
            ),
    ensures
        sorted(after),
        users_of(after) == users_of(before).insert(after[at].0@, after[at].1@),
{
    // Where a pair of the new row stood in the old one.
    let was = |i: int| if fresh && i > at { i - 1 } else { i };
    let is = |i: int| if fresh && i >= at { i + 1 } else { i };
    assert forall|i: int| 0 <= i < after.len() && i != at implies #[trigger] after[i] == before[was(
        i,
    )] by {}
    assert forall|i: int| 0 <= i < before.len() && (fresh || i != at) implies #[trigger] before[i]
        == after[is(i)] by {}
    assert forall|i: int, j: int| 0 <= i < j < after.len() implies text::comes_before(
        (#[trigger] after[i]).0@,
        (#[trigger] after[j]).0@,
    ) by {
        if i == at {
            if fresh {
                assert(after[j] == before[j - 1]);
            } else {
                assert(after[j] == before[j]);
                assert(text::comes_before(before[at].0@, before[j].0@));
            }
        } else if j == at {
            assert(after[i] == before[i]);
        } else {
            assert(after[i] == before[was(i)]);
            assert(after[j] == before[was(j)]);
        }
    }
    let name = after[at].0@;
    let m = users_of(after);
    let want = users_of(before).insert(name, after[at].1@);
    assert forall|k: Seq<char>| m.dom().contains(k) == want.dom().contains(k) by {
        if has_name(after, k) {
            let i = choose|i: int| 0 <= i < after.len() && (#[trigger] after[i]).0@ == k;
            if i != at {
                assert(before[was(i)].0@ == k);
            }
        }
        if has_name(before, k) && k != name {
            let i = choose|i: int| 0 <= i < before.len() && (#[trigger] before[i]).0@ == k;
            assert(fresh || i != at);
            assert(after[is(i)].0@ == k);
        }
        assert(has_name(after, name));
    }
    assert forall|k: Seq<char>| m.dom().contains(k) implies m[k] == want[k] by {
        let i = choose|i: int| 0 <= i < after.len() && (#[trigger] after[i]).0@ == k;
        lemma_user_at(after, i);
        if i != at {
            lemma_user_at(before, was(i));
            if k == name {
                if i < at {
                    assert(text::comes_before(after[i].0@, after[at].0@));
                } else {
                    assert(text::comes_before(after[at].0@, after[i].0@));
                }
                text::lemma_order_total(after[i].0@, after[at].0@);
                text::lemma_order_total(after[at].0@, after[i].0@);
            }
        }
    }
    assert(m =~= want);
}

/// What follows from taking a pair away.
proof fn lemma_take_away(before: Seq<(String, String)>, at: int)
    requires
        sorted(before),
        0 <= at < before.len(),
    ensures
        sorted(before.remove(at)),
        users_of(before.remove(at)) == users_of(before).remove(before[at].0@),
{
    let after = before.remove(at);
    let was = |i: int| if i >= at { i + 1 } else { i };
    let name = before[at].0@;
    assert forall|i: int| 0 <= i < after.len() implies #[trigger] after[i] == before[was(i)] by {}
    assert forall|i: int, j: int| 0 <= i < j < after.len() implies text::comes_before(
        (#[trigger] after[i]).0@,
        (#[trigger] after[j]).0@,
    ) by {
        assert(after[i] == before[was(i)]);
        assert(after[j] == before[was(j)]);
    }
    let m = users_of(after);
    let want = users_of(before).remove(name);
    assert forall|k: Seq<char>| m.dom().contains(k) == want.dom().contains(k) by {
        if has_name(after, k) {
            let i = choose|i: int| 0 <= i < after.len() && (#[trigger] after[i]).0@ == k;
            assert(before[was(i)].0@ == k);
            text::lemma_order_total(before[was(i)].0@, before[at].0@);
            text::lemma_order_total(before[at].0@, before[was(i)].0@);
        }
        if has_name(before, k) && k != name {
            let i = choose|i: int| 0 <= i < before.len() && (#[trigger] before[i]).0@ == k;
            if i < at {
                assert(after[i] == before[i]);
            } else {
                assert(after[i - 1] == before[i]);
            }
        }
    }
    assert forall|k: Seq<char>| m.dom().contains(k) implies m[k] == want[k] by {
        let i = choose|i: int| 0 <= i < after.len() && (#[trigger] after[i]).0@ == k;
        lemma_user_at(after, i);
        lemma_user_at(before, was(i));
    }
    assert(m =~= want);
}

impl UserStore for InMemoryUserStore {
    closed spec fn users(&self) -> Map<Seq<char>, Seq<char>> {
        users_of(self.entries@)
    }

    closed spec fn wf(&self) -> bool {
        sorted(self.entries@)
    }

    fn password_hash(&self, username: &str) -> (r: Result<Option<String>, StoreError>)
        ensures
            r is Ok,
    {
        let (at, found) = self.place(username);
        if found {
            proof {
                lemma_user_at(self.entries@, at as int);
            }
            Ok(Some(self.entries[at].1.clone()))
        } else {
            Ok(None)
        }
    }

    fn upsert(&mut self, username: &str, phc: &str) -> (r: Result<(), StoreError>)
        ensures
            r is Ok <==> user_store::upsert_fault(username@, phc@) is None,
    {
        match user_store::validate_upsert(username, phc) {
            Ok(()) => {},
            Err(e) => {
                return Err(e);
            },
        }
        let ghost before = self.entries@;
        let (at, found) = self.place(username);
        let pair = (username.to_string(), phc.to_string());
        if found {
            self.entries.set(at, pair);
        } else {
            self.entries.insert(at, pair);
        }
        proof {
            assert(self.entries@[at as int] == pair);
            lemma_put(before, self.entries@, at as int, !found);
        }
        Ok(())
    }

    fn delete(&mut self, username: &str) -> (r: Result<bool, StoreError>)
        ensures
            r is Ok,
    {
        let (at, found) = self.place(username);
        if found {
            proof {
                lemma_take_away(self.entries@, at as int);
            }
            let _ = self.entries.remove(at);
            Ok(true)
        } else {
            assert(self.users().remove(username@) =~= self.users());
            Ok(false)
        }
    }

    fn list(&self) -> (r: Result<Vec<String>, StoreError>)
        ensures
            r is Ok,
    {
        let mut names: Vec<String> = Vec::new();
        let mut i: usize = 0;
        let ghost s = self.entries@;
        while i < self.entries.len()
            invariant
                s == self.entries@,
                i <= s.len(),
                names@.len() == i,
                forall|j: int| 0 <= j < i ==> (#[trigger] names@[j])@ == s[j].0@,
            decreases s.len() - i,
        {
            names.push(self.entries[i].0.clone());
            i = i + 1;
        }
        proof {
            assert forall|j: int| 0 <= j < names@.len() implies self.users().dom().contains(
                (#[trigger] names@[j])@,
            ) by {
                lemma_user_at(s, j);
            }
            assert forall|name: Seq<char>| #[trigger] self.users().dom().contains(
                name,
            ) implies exists|j: int| 0 <= j < names@.len() && (#[trigger] names@[j])@ == name by {
                let j = choose|j: int| 0 <= j < s.len() && (#[trigger] s[j]).0@ == name;
                assert(names@[j]@ == name);
            }
            assert forall|a: int, b: int| 0 <= a < b < names@.len() implies text::comes_before(
                (#[trigger] names@[a])@,
                (#[trigger] names@[b])@,
            ) by {
                assert(text::comes_before(s[a].0@, s[b].0@));
            }
        }
        Ok(names)
    }
}

/// A store made from pairs has every name that occurs in them, with the hash of the last pair of
/// that name, and no other.
pub proof fn law_last_pair_of_a_name_counts(pairs: Seq<(String, String)>, i: int, name: Seq<char>)
    ensures
        pairs_as_users(pairs).dom().contains(name) <==> exists|k: int|
            0 <= k < pairs.len() && (#[trigger] pairs[k]).0@ == name,
        0 <= i < pairs.len() && pairs[i].0@ == name && (forall|k: int|
            i < k < pairs.len() ==> (#[trigger] pairs[k]).0@ != name) ==> pairs_as_users(
            pairs,
        )[name] == pairs[i].1@,
    decreases pairs.len(),
{
    if pairs.len() > 0 {
        let before = pairs.drop_last();
        law_last_pair_of_a_name_counts(before, i, name);
        if pairs_as_users(pairs).dom().contains(name) {
            if pairs.last().0@ == name {
                assert(pairs[pairs.len() - 1].0@ == name);
            } else {
                let k = choose|k: int| 0 <= k < before.len() && (#[trigger] before[k]).0@ == name;
                assert(pairs[k].0@ == name);
            }
        }
        if exists|k: int| 0 <= k < pairs.len() && (#[trigger] pairs[k]).0@ == name {
            let k = choose|k: int| 0 <= k < pairs.len() && (#[trigger] pairs[k]).0@ == name;
            if k < before.len() {
                assert(before[k].0@ == name);
            }
        }
        if 0 <= i < before.len() && pairs[i].0@ == name && (forall|k: int|
            i < k < pairs.len() ==> (#[trigger] pairs[k]).0@ != name) {
            assert(before[i].0@ == name);
            assert(pairs[pairs.len() - 1].0@ != name);
            assert forall|k: int| i < k < before.len() implies (#[trigger] before[k]).0@ != name by {
                assert(pairs[k].0@ != name);
            }
            assert(before[i] == pairs[i]);
        }
    }
}

/// The first pair that cannot be stored decides: where all before it can, what is wrong with it
/// is what is wrong with the whole; where all can be stored, nothing is wrong.
pub proof fn law_first_faulty_pair_decides(pairs: Seq<(String, String)>, k: int)
    requires
        0 <= k <= pairs.len(),
        forall|i: int|
            0 <= i < k ==> user_store::upsert_fault(
                (#[trigger] pairs[i]).0@,
                pairs[i].1@,
            ) is None,
    ensures
        k == pairs.len() ==> first_fault(pairs) is None,
        k < pairs.len() && user_store::upsert_fault(pairs[k].0@, pairs[k].1@) is Some
            ==> first_fault(pairs) == user_store::upsert_fault(pairs[k].0@, pairs[k].1@),
    decreases pairs.len(),
{
    if pairs.len() > 0 && k > 0 {
        let rest = pairs.drop_first();
        assert forall|i: int| 0 <= i < k - 1 implies user_store::upsert_fault(
            (#[trigger] rest[i]).0@,
            rest[i].1@,
        ) is None by {
            assert(rest[i] == pairs[i + 1]);
        }
        assert(user_store::upsert_fault(pairs[0].0@, pairs[0].1@) is None);
        law_first_faulty_pair_decides(rest, k - 1);
        if k < pairs.len() {
            assert(rest[k - 1] == pairs[k]);
        }
    }
}

} // verus!
