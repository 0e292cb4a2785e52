//! GitHub profiles of commit authors, cached: the most recently used are
//! kept, up to a fixed number.

use vstd::prelude::*;
use lru::LruCache;
use std::collections::hash_map::RandomState;
use std::num::NonZeroUsize;

verus! {

/// A GitHub profile, as far as messages use it.
pub struct User {
    pub html_url: String,
}

/// How many profiles the cache keeps.
pub const CACHE_CAPACITY: usize = 100;

#[verifier::external_type_specification]
#[verifier::external_body]
#[verifier::reject_recursive_types(K)]
#[verifier::reject_recursive_types(V)]
#[verifier::reject_recursive_types(S)]
pub struct ExLruCache<K, V, S>(LruCache<K, V, S>);

/// The entries of a cache of profile URLs by login, most recently used first.
pub uninterp spec fn lru_entries(c: LruCache<String, String, RandomState>) -> Seq<(Seq<char>, Seq<char>)>;

/// The number of entries that a cache keeps.
pub uninterp spec fn lru_capacity(c: LruCache<String, String, RandomState>) -> nat;

/// No login occurs twice among the entries.
pub open spec fn distinct_keys(entries: Seq<(Seq<char>, Seq<char>)>) -> bool {
    forall|a: int, b: int| #![trigger entries[a], entries[b]] 0 <= a < b < entries.len() ==> entries[a].0 != entries[b].0
}

/// The position of `key` among `entries`, if it is there.
pub open spec fn key_position(entries: Seq<(Seq<char>, Seq<char>)>, key: Seq<char>) -> Option<int> {
    if exists|i: int| 0 <= i < entries.len() && #[trigger] entries[i].0 == key {
        Some(choose|i: int| 0 <= i < entries.len() && #[trigger] entries[i].0 == key)
    } else {
        None
    }
}

/// The entries after `key` was used: moved to the front.
pub open spec fn touched(entries: Seq<(Seq<char>, Seq<char>)>, i: int) -> Seq<(Seq<char>, Seq<char>)> {
    seq![entries[i]] + entries.remove(i)
}

/// The entries after `put`: an entry for `key` is replaced and moved to the
/// front; a new one goes to the front, and the last is dropped if the cache
/// was full.
pub open spec fn put_entries(entries: Seq<(Seq<char>, Seq<char>)>, capacity: nat, key: Seq<char>, value: Seq<char>) -> Seq<
    (Seq<char>, Seq<char>),
> {
    match key_position(entries, key) {
        Some(i) => seq![(key, value)] + entries.remove(i),
        None => if entries.len() >= capacity {
            seq![(key, value)] + entries.drop_last()
        } else {
            seq![(key, value)] + entries
        },
    }
}

/// `items` in reverse order.
pub open spec fn reversed(items: Seq<(Seq<char>, Seq<char>)>) -> Seq<(Seq<char>, Seq<char>)> {
    Seq::new(items.len(), |i: int| items[items.len() - 1 - i])
}

/// The entries after putting each of `items` in turn.
pub open spec fn put_all(entries: Seq<(Seq<char>, Seq<char>)>, capacity: nat, items: Seq<(Seq<char>, Seq<char>)>) -> Seq<
    (Seq<char>, Seq<char>),
>
    decreases items.len(),
{
    if items.len() == 0 {
        entries
    } else {
        put_entries(put_all(entries, capacity, items.drop_last()), capacity, items.last().0, items.last().1)
    }
}

pub proof fn lemma_key_position_unique(entries: Seq<(Seq<char>, Seq<char>)>, i: int)
    requires
        distinct_keys(entries),
        0 <= i < entries.len(),
    ensures
        key_position(entries, entries[i].0) == Some(i),
{
    let k = entries[i].0;
    assert(entries[i].0 == k);
    let j = choose|j: int| 0 <= j < entries.len() && #[trigger] entries[j].0 == k;
    if j < i {
        assert(entries[j].0 != entries[i].0);
    } else if j > i {
        assert(entries[i].0 != entries[j].0);
    }
}

/// Putting keeps the logins distinct and within the capacity, and puts the
/// new entry first.
pub proof fn lemma_put_entries(entries: Seq<(Seq<char>, Seq<char>)>, capacity: nat, key: Seq<char>, value: Seq<char>)
    requires
        distinct_keys(entries),
        entries.len() <= capacity,
        capacity > 0,
    ensures
        distinct_keys(put_entries(entries, capacity, key, value)),
        put_entries(entries, capacity, key, value).len() <= capacity,
        put_entries(entries, capacity, key, value)[0] == (key, value),
        key_position(put_entries(entries, capacity, key, value), key) == Some(0int),
{
    let new_e = put_entries(entries, capacity, key, value);
    match key_position(entries, key) {
        Some(i) => {
            assert forall|a: int, b: int| #![trigger new_e[a], new_e[b]] 0 <= a < b < new_e.len() implies new_e[a].0 != new_e[b].0 by {
                let ib = if b - 1 < i { b - 1 } else { b };
                assert(new_e[b] == entries[ib]);
                if a > 0 {
                    let ia = if a - 1 < i { a - 1 } else { a };
                    assert(new_e[a] == entries[ia]);
                }
            }
        },
        None => {
            assert forall|a: int, b: int| #![trigger new_e[a], new_e[b]] 0 <= a < b < new_e.len() implies new_e[a].0 != new_e[b].0 by {
                assert(new_e[b] == entries[b - 1]);
                if a > 0 {
                    assert(new_e[a] == entries[a - 1]);
                }
            }
        },
    }
    lemma_key_position_unique(new_e, 0);
}

/// A profile that was just stored is found by the next lookup, with no fetch.
pub proof fn lemma_stored_is_cached(entries: Seq<(Seq<char>, Seq<char>)>, login: Seq<char>, url: Seq<char>)
    requires
        distinct_keys(entries),
        entries.len() <= CACHE_CAPACITY,
    ensures
        ({
            let stored = put_entries(entries, CACHE_CAPACITY as nat, login, url);
            key_position(stored, login) == Some(0int) && stored[0].1 == url
        }),
{
    lemma_put_entries(entries, CACHE_CAPACITY as nat, login, url);
}

/// Storing distinct logins, no more than the capacity, into an empty cache
/// keeps every one of them, the last stored first.
pub proof fn lemma_fill(capacity: nat, items: Seq<(Seq<char>, Seq<char>)>)
    requires
        distinct_keys(items),
        items.len() <= capacity,
    ensures
        put_all(Seq::empty(), capacity, items) == reversed(items),
    decreases items.len(),
{
    if items.len() > 0 {
        let init = items.drop_last();
        assert(distinct_keys(init)) by {
            assert forall|a: int, b: int| #![trigger init[a], init[b]] 0 <= a < b < init.len() implies init[a].0 != init[b].0 by {
                assert(init[a] == items[a] && init[b] == items[b]);
            }
        }
        lemma_fill(capacity, init);
        let prev = reversed(init);
        let last = items.last();
        assert forall|i: int| 0 <= i < prev.len() implies #[trigger] prev[i].0 != last.0 by {
            assert(prev[i] == items[items.len() - 2 - i]);
        }
        assert(key_position(prev, last.0) is None);
        assert(put_all(Seq::empty(), capacity, items) =~= reversed(items));
    }
}

/// Once the cache is full of distinct logins, storing one more drops the
/// least recently used: the first one stored.
pub proof fn lemma_evicts_least_recent(items: Seq<(Seq<char>, Seq<char>)>)
    requires
        distinct_keys(items),
        items.len() == CACHE_CAPACITY + 1,
    ensures
        key_position(put_all(Seq::empty(), CACHE_CAPACITY as nat, items), items[0].0) is None,
        put_all(Seq::empty(), CACHE_CAPACITY as nat, items) == reversed(items.subrange(1, items.len() as int)),
{
    let cap = CACHE_CAPACITY as nat;
    let init = items.drop_last();
    assert(distinct_keys(init)) by {
        assert forall|a: int, b: int| #![trigger init[a], init[b]] 0 <= a < b < init.len() implies init[a].0 != init[b].0 by {
            assert(init[a] == items[a] && init[b] == items[b]);
        }
    }
    lemma_fill(cap, init);
    let prev = reversed(init);
    let last = items.last();
    assert forall|i: int| 0 <= i < prev.len() implies #[trigger] prev[i].0 != last.0 by {
        assert(prev[i] == items[items.len() - 2 - i]);
    }
    assert(key_position(prev, last.0) is None);
    let result = put_all(Seq::empty(), cap, items);
    assert(result =~= reversed(items.subrange(1, items.len() as int)));
    assert forall|i: int| 0 <= i < result.len() implies #[trigger] result[i].0 != items[0].0 by {
        assert(result[i] == items[items.len() - 1 - i]);
    }
}

/// Storing a new login in a full cache drops exactly the least recently used
/// entry, the last one; every other entry stays, one place further back.
pub proof fn lemma_full_cache_drops_least_recent(entries: Seq<(Seq<char>, Seq<char>)>, login: Seq<char>, url: Seq<char>)
    requires
        distinct_keys(entries),
        entries.len() == CACHE_CAPACITY,
        key_position(entries, login) is None,
    ensures
        ({
            let stored = put_entries(entries, CACHE_CAPACITY as nat, login, url);
            &&& stored.len() == CACHE_CAPACITY
            &&& key_position(stored, login) == Some(0int)
            &&& key_position(stored, entries.last().0) is None
            &&& forall|i: int| 0 <= i < entries.len() - 1 ==> key_position(stored, #[trigger] entries[i].0) == Some(i + 1)
        }),
{
    let stored = put_entries(entries, CACHE_CAPACITY as nat, login, url);
    lemma_put_entries(entries, CACHE_CAPACITY as nat, login, url);
    assert forall|i: int| 0 <= i < entries.len() - 1 implies key_position(stored, #[trigger] entries[i].0) == Some(i + 1) by {
        assert(stored[i + 1] == entries[i]);
        lemma_key_position_unique(stored, i + 1);
    }
    assert forall|j: int| 0 <= j < stored.len() implies #[trigger] stored[j].0 != entries.last().0 by {
        if j == 0 {
            if login == entries.last().0 {
                assert(entries[entries.len() - 1].0 == login);
            }
        } else {
            assert(stored[j] == entries[j - 1]);
            assert(entries[j - 1].0 != entries[entries.len() - 1].0);
        }
    }
}

/// Relies on lru::LruCache::with_hasher: an empty cache that keeps `capacity`
/// entries.
#[verifier::external_body]
fn lru_new(capacity: usize) -> (r: LruCache<String, String, RandomState>)
    requires
        capacity > 0,
    ensures
        lru_entries(r) == Seq::<(Seq<char>, Seq<char>)>::empty(),
        lru_capacity(r) == capacity,
{
    LruCache::with_hasher(NonZeroUsize::new(capacity).unwrap(), RandomState::new())
}

/// Relies on lru::LruCache::get: the value for `key`, which becomes the most
/// recently used entry; nothing changes where there is none.
#[verifier::external_body]
fn lru_get(c: &mut LruCache<String, String, RandomState>, key: &str) -> (r: Option<String>)
    ensures
        lru_capacity(*final(c)) == lru_capacity(*old(c)),
        match key_position(lru_entries(*old(c)), key@) {
            Some(i) => r matches Some(v) && v@ == lru_entries(*old(c))[i].1 && lru_entries(*final(c))
                == touched(lru_entries(*old(c)), i),
            None => r is None && lru_entries(*final(c)) == lru_entries(*old(c)),
        },
{
    c.get(key).cloned()
}

/// Relies on lru::LruCache::put: the entry for `key` gets `value` and becomes
/// the most recently used; where `key` is new and the cache full, the least
/// recently used entry goes.
#[verifier::external_body]
fn lru_put(c: &mut LruCache<String, String, RandomState>, key: String, value: String)
    ensures
        lru_capacity(*final(c)) == lru_capacity(*old(c)),
        lru_entries(*final(c)) == put_entries(lru_entries(*old(c)), lru_capacity(*old(c)), key@, value@),
{
    c.put(key, value);
}

/// The credentials for GitHub's API and the profiles it gave.
pub struct GitHubApi {
    user: String,
    password: String,
    cache: LruCache<String, String, RandomState>,
}


impl GitHubApi {
    pub fn new(user: String, password: String) -> (r: GitHubApi)
        ensures
            r.user_spec() == user@,
            r.password_spec() == password@,
            r.entries() == Seq::<(Seq<char>, Seq<char>)>::empty(),
            r.wf(),
    {
        GitHubApi { user, password, cache: lru_new(CACHE_CAPACITY) }
    }

    pub closed spec fn user_spec(&self) -> Seq<char> {
        self.user@
    }

    pub closed spec fn password_spec(&self) -> Seq<char> {
        self.password@
    }

    /// The login for GitHub's API.
    pub fn user(&self) -> (r: &str)
        ensures
            r@ == self.user_spec(),
    {
        self.user.as_str()
    }

    pub fn password(&self) -> (r: &str)
        ensures
            r@ == self.password_spec(),
    {
        self.password.as_str()
    }

    /// The cached profile URLs by login, most recently used first.
    pub closed spec fn entries(&self) -> Seq<(Seq<char>, Seq<char>)> {
        lru_entries(self.cache)
    }

    /// The number of profiles that the cache keeps.
    pub closed spec fn capacity(&self) -> nat {
        lru_capacity(self.cache)
    }

    /// The cache keeps its capacity, stays within it, and holds each login once.
    pub open spec fn wf(&self) -> bool {
        &&& self.capacity() == CACHE_CAPACITY
        &&& self.entries().len() <= CACHE_CAPACITY
        &&& distinct_keys(self.entries())
    }

    /// The address of `login`'s profile in GitHub's API.
    pub open spec fn user_url_spec(login: Seq<char>) -> Seq<char> {
        "https://api.github.com/users/"@ + login
    }

    pub fn user_url(login: &str) -> (r: String)
        ensures
            r@ == Self::user_url_spec(login@),
    {
        let mut r = String::from_str("https://api.github.com/users/");
        r.append(login);
        r
    }

    /// The cached profile of `login`, which becomes the most recently used;
    /// `None` means that it has to be fetched.
    pub fn cached_user(&mut self, login: &str) -> (r: Option<User>)
        requires
            old(self).wf(),
        ensures
            final(self).wf(),
            final(self).user_spec() == old(self).user_spec(),
            final(self).password_spec() == old(self).password_spec(),
            match key_position(old(self).entries(), login@) {
                Some(i) => r matches Some(u) && u.html_url@ == old(self).entries()[i].1 && final(self).entries()
                    == touched(old(self).entries(), i),
                None => r is None && final(self).entries() == old(self).entries(),
            },
    {
        let r = lru_get(&mut self.cache, login);
        proof {
            let old_e = old(self).entries();
            if let Some(i) = key_position(old_e, login@) {
                let new_e = self.entries();
                assert forall|a: int, b: int| #![trigger new_e[a], new_e[b]] 0 <= a < b < new_e.len() implies new_e[a].0 != new_e[b].0 by {
                    let ia = if a == 0 { i } else if a - 1 < i { a - 1 } else { a };
                    let ib = if b - 1 < i { b - 1 } else { b };
                    assert(new_e[a] == old_e[ia]);
                    assert(new_e[b] == old_e[ib]);
                }
            }
        }
        match r {
            Some(url) => Some(User { html_url: url }),
            None => None,
        }
    }

    /// Records the profile fetched for `login` as the most recently used.
    pub fn store_user(&mut self, login: String, user: User)
        requires
            old(self).wf(),
        ensures
            final(self).wf(),
            final(self).user_spec() == old(self).user_spec(),
            final(self).password_spec() == old(self).password_spec(),
            final(self).entries() == put_entries(old(self).entries(), CACHE_CAPACITY as nat, login@, user.html_url@),
    {
        proof {
            lemma_put_entries(self.entries(), CACHE_CAPACITY as nat, login@, user.html_url@);
        }
        lru_put(&mut self.cache, login, user.html_url);
    }
}

} // verus!
