//! Recovery keys together with the document each one is kept for.

use std::collections::{BTreeMap, BTreeSet};
use vstd::prelude::*;
use vstd::std_specs::btree::spec_keys_iter;
use vstd::std_specs::iter::IteratorSpec;

verus! {

broadcast use vstd::std_specs::btree::group_btree_axioms;

/// Identity of an open document.
pub type DocumentId = u64;

/// Identity of the durable record that protects a document's text.
pub type RecoveryKey = u64;

/// A recovery key and the document it is kept for; `None` when the origin is
/// unknown or disputed.
pub type ScopedKey = (RecoveryKey, Option<DocumentId>);

/// Recovery keys, each with its scope.
pub type Scopes = Map<RecoveryKey, Option<DocumentId>>;

/// The scope that `key` has once `document` has claimed it: a second, different
/// claim leaves the key without an owner.
pub open spec fn claimed_scope(
    scopes: Scopes,
    key: RecoveryKey,
    document: Option<DocumentId>,
) -> Option<DocumentId> {
    if scopes.contains_key(key) && scopes[key] != document {
        None
    } else {
        document
    }
}

/// `scopes` after `document` has claimed `key`.
pub open spec fn with_claim(
    scopes: Scopes,
    key: RecoveryKey,
    document: Option<DocumentId>,
) -> Scopes {
    scopes.insert(key, claimed_scope(scopes, key, document))
}

/// `scopes` after every claim of `claims`, in order.
pub open spec fn with_claims(scopes: Scopes, claims: Seq<ScopedKey>) -> Scopes
    decreases claims.len(),
{
    if claims.len() == 0 {
        scopes
    } else {
        with_claim(
            with_claims(scopes, claims.drop_last()),
            claims.last().0,
            claims.last().1,
        )
    }
}

/// The keys of `list`, in order.
pub open spec fn named(list: Seq<ScopedKey>) -> Seq<RecoveryKey> {
    list.map_values(|entry: ScopedKey| entry.0)
}

/// Whether `order` holds each element of `keys` exactly once.
pub open spec fn enumerates(order: Seq<RecoveryKey>, keys: Set<RecoveryKey>) -> bool {
    order.no_duplicates() && order.to_set() == keys
}

/// Whether `list` holds each entry of `scopes` exactly once.
pub open spec fn lists(list: Seq<ScopedKey>, scopes: Scopes) -> bool {
    &&& forall|i: int, j: int|
        #![trigger list[i], list[j]]
        0 <= i < j < list.len() ==> list[i].0 != list[j].0
    &&& forall|i: int|
        #![trigger list[i]]
        0 <= i < list.len() ==> scopes.contains_key(list[i].0) && scopes[list[i].0] == list[i].1
    &&& forall|key: RecoveryKey| #[trigger]
        scopes.contains_key(key) ==> list.contains((key, scopes[key]))
}

/// `scopes` after every entry of `claims` has been claimed, in whatever order.
pub open spec fn with_scopes(scopes: Scopes, claims: Scopes) -> Scopes {
    Map::new(
        |key: RecoveryKey| scopes.contains_key(key) || claims.contains_key(key),
        |key: RecoveryKey|
            if claims.contains_key(key) {
                claimed_scope(scopes, key, claims[key])
            } else {
                scopes[key]
            },
    )
}

/// Claiming the entries of a list, one by one, claims the entries.
pub proof fn lemma_listed_claims(scopes: Scopes, list: Seq<ScopedKey>, claims: Scopes)
    requires
        lists(list, claims),
    ensures
        with_claims(scopes, list) == with_scopes(scopes, claims),
    decreases list.len(),
{
    if list.len() == 0 {
        assert forall|key: RecoveryKey| !claims.contains_key(key) by {
            if claims.contains_key(key) {
                assert(list.contains((key, claims[key])));
            }
        }
        assert(with_scopes(scopes, claims) =~= scopes);
    } else {
        let shorter = list.drop_last();
        let (key, scope) = list.last();
        let fewer = claims.remove(key);
        assert forall|i: int|
            #![trigger shorter[i]]
            0 <= i < shorter.len() implies fewer.contains_key(shorter[i].0) && fewer[shorter[i].0]
            == shorter[i].1 by {
            assert(shorter[i] == list[i]);
            assert(list[i].0 != list[list.len() - 1].0);
        }
        assert forall|other: RecoveryKey| #[trigger] fewer.contains_key(
            other,
        ) implies shorter.contains((other, fewer[other])) by {
            assert(claims.contains_key(other));
            let at = list.index_of((other, claims[other]));
            assert(list[at] == (other, claims[other]));
            assert(shorter[at] == list[at]);
        }
        assert forall|i: int, j: int|
            #![trigger shorter[i], shorter[j]]
            0 <= i < j < shorter.len() implies shorter[i].0 != shorter[j].0 by {
            assert(shorter[i] == list[i] && shorter[j] == list[j]);
        }
        lemma_listed_claims(scopes, shorter, fewer);
        assert(list[list.len() - 1] == (key, scope));
        assert(with_claims(scopes, list) =~= with_scopes(scopes, claims));
    }
}

/// A listing mentions exactly the keys that it lists.
pub proof fn lemma_listed_keys(list: Seq<ScopedKey>, scopes: Scopes)
    requires
        lists(list, scopes),
    ensures
        forall|key: RecoveryKey| #[trigger]
            scopes.contains_key(key) <==> exists|i: int|
                0 <= i < list.len() && (#[trigger] list[i]).0 == key,
        list.len() == 0 <==> scopes.dom() == Set::<RecoveryKey>::empty(),
        named(list).to_set() == scopes.dom(),
{
    assert forall|key: RecoveryKey| #[trigger] scopes.contains_key(key) <==> exists|i: int|
        0 <= i < list.len() && (#[trigger] list[i]).0 == key by {
        if scopes.contains_key(key) {
            let i = list.index_of((key, scopes[key]));
            assert(list[i].0 == key);
        }
    }
    if list.len() == 0 {
        assert(scopes.dom() =~= Set::<RecoveryKey>::empty());
    } else {
        assert(scopes.contains_key(list[0].0));
    }
    assert forall|key: RecoveryKey| named(list).to_set().contains(key) <==> scopes.dom().contains(
        key,
    ) by {
        if scopes.contains_key(key) {
            let i = choose|i: int| 0 <= i < list.len() && (#[trigger] list[i]).0 == key;
            assert(named(list)[i] == key);
        }
        if named(list).contains(key) {
            assert(list[named(list).index_of(key)].0 == key);
        }
    }
    assert(named(list).to_set() =~= scopes.dom());
}

/// Claims never give a key back to a document once it is disputed, and a key
/// ends up with the one scope that all of its claims agree on.
pub proof fn law_scope_is_unanimous(
    scopes: Scopes,
    claims: Seq<ScopedKey>,
    key: RecoveryKey,
    scope: Option<DocumentId>,
)
    ensures
        with_claims(scopes, claims).contains_key(key) <==> scopes.contains_key(key) || exists|
            i: int,
        |
            0 <= i < claims.len() && (#[trigger] claims[i]).0 == key,
        with_claims(scopes, claims).contains_key(key) && with_claims(scopes, claims)[key] is Some
            ==> {
            &&& scopes.contains_key(key) ==> scopes[key] == with_claims(scopes, claims)[key]
            &&& forall|i: int|
                0 <= i < claims.len() && (#[trigger] claims[i]).0 == key ==> claims[i].1
                    == with_claims(scopes, claims)[key]
        },
        with_claims(scopes, claims).contains_key(key) && (scopes.contains_key(key) ==> scopes[key]
            == scope) && (forall|i: int|
            0 <= i < claims.len() && (#[trigger] claims[i]).0 == key ==> claims[i].1 == scope)
            ==> with_claims(scopes, claims)[key] == scope,
    decreases claims.len(),
{
    if claims.len() > 0 {
        let earlier = claims.drop_last();
        law_scope_is_unanimous(scopes, earlier, key, scope);
        assert forall|i: int| 0 <= i < earlier.len() implies earlier[i] == #[trigger] claims[i] by {}
        assert(claims[claims.len() - 1] == claims.last());
        if exists|i: int| 0 <= i < earlier.len() && (#[trigger] earlier[i]).0 == key {
            let i = choose|i: int| 0 <= i < earlier.len() && (#[trigger] earlier[i]).0 == key;
            assert(claims[i].0 == key);
        }
        assert forall|i: int| 0 <= i < claims.len() && (#[trigger] claims[i]).0 == key implies i
            == claims.len() - 1 || earlier[i] == claims[i] by {}
    }
}

/// Pushing an element adds exactly that element.
pub proof fn lemma_push_contains<T>(s: Seq<T>, x: T)
    ensures
        s.push(x).to_set() == s.to_set().insert(x),
        forall|y: T| #[trigger] s.push(x).contains(y) <==> s.contains(y) || y == x,
        s.no_duplicates() && !s.contains(x) ==> s.push(x).no_duplicates(),
{
    assert forall|y: T| #[trigger] s.push(x).contains(y) <==> s.contains(y) || y == x by {
        if s.contains(y) {
            assert(s.push(x)[s.index_of(y)] == y);
        }
        if y == x {
            assert(s.push(x)[s.len() as int] == y);
        }
    }
    assert(s.push(x).to_set() =~= s.to_set().insert(x));
}

/// Claim `key` for `document`, giving back the scope the key has now.
pub fn insert_scoped_recovery_key(
    keys: &mut BTreeMap<RecoveryKey, Option<DocumentId>>,
    key: RecoveryKey,
    document: Option<DocumentId>,
) -> (scope: Option<DocumentId>)
    ensures
        final(keys)@ == with_claim(old(keys)@, key, document),
        scope == claimed_scope(old(keys)@, key, document),
{
    let scope = match keys.get(&key) {
        Some(current) => if *current == document {
            document
        } else {
            None
        },
        None => document,
    };
    keys.insert(key, scope);
    scope
}

/// Claim every entry of `claims`, in order.
pub fn claim_each(
    keys: &mut BTreeMap<RecoveryKey, Option<DocumentId>>,
    claims: &Vec<ScopedKey>,
)
    ensures
        final(keys)@ == with_claims(old(keys)@, claims@),
{
    let mut i: usize = 0;
    while i < claims.len()
        invariant
            i <= claims.len(),
            keys@ == with_claims(old(keys)@, claims@.take(i as int)),
        decreases claims.len() - i,
    {
        let (key, document) = claims[i];
        insert_scoped_recovery_key(keys, key, document);
        assert(claims@.take(i + 1).drop_last() =~= claims@.take(i as int));
        i = i + 1;
    }
    assert(claims@.take(claims.len() as int) =~= claims@);
}

/// The entries of `map`, each once.
pub fn scoped_list(map: &BTreeMap<RecoveryKey, Option<DocumentId>>) -> (list: Vec<ScopedKey>)
    ensures
        lists(list@, map@),
{
    let keys = keys_of(map);
    let mut list: Vec<ScopedKey> = Vec::new();
    let mut i: usize = 0;
    while i < keys.len()
        invariant
            i <= keys.len(),
            list.len() == i,
            keys@.no_duplicates(),
            forall|j: int| 0 <= j < keys.len() ==> map@.contains_key(#[trigger] keys[j]),
            forall|j: int|
                #![trigger list[j]]
                0 <= j < i ==> list[j].0 == keys[j] && list[j].1 == map@[keys[j]],
        decreases keys.len() - i,
    {
        let key: RecoveryKey = keys[i];
        assert(map@.contains_key(keys[i as int]));
        match map.get(&key) {
            Some(scope) => {
                list.push((key, *scope));
            },
            None => {
                list.push((key, None));
            },
        }
        i = i + 1;
    }
    proof {
        assert forall|key: RecoveryKey| #[trigger] map@.contains_key(key) implies list@.contains(
            (key, map@[key]),
        ) by {
            let at = keys@.index_of(key);
            assert(keys@.contains(key));
            assert(list[at] == (key, map@[key]));
        }
    }
    list
}

/// The keys of `list`, in order.
pub fn keys_in(list: &Vec<ScopedKey>) -> (keys: Vec<RecoveryKey>)
    ensures
        keys@ == named(list@),
{
    let mut keys: Vec<RecoveryKey> = Vec::new();
    let mut i: usize = 0;
    while i < list.len()
        invariant
            i <= list.len(),
            keys.len() == i,
            forall|j: int| 0 <= j < i ==> keys[j] == (#[trigger] list[j]).0,
        decreases list.len() - i,
    {
        keys.push(list[i].0);
        i = i + 1;
    }
    assert(keys@ =~= named(list@));
    keys
}

/// The set of the keys of `list`.
pub fn key_set(list: &Vec<ScopedKey>) -> (keys: BTreeSet<RecoveryKey>)
    ensures
        keys@ == named(list@).to_set(),
        forall|scopes: Scopes| #[trigger] lists(list@, scopes) ==> keys@ == scopes.dom(),
{
    let mut keys: BTreeSet<RecoveryKey> = BTreeSet::new();
    let mut i: usize = 0;
    while i < list.len()
        invariant
            i <= list.len(),
            keys@ == named(list@).take(i as int).to_set(),
        decreases list.len() - i,
    {
        keys.insert(list[i].0);
        proof {
            assert(named(list@).take(i + 1) =~= named(list@).take(i as int).push(list[i as int].0));
            lemma_push_contains(named(list@).take(i as int), list[i as int].0);
        }
        i = i + 1;
    }
    proof {
        assert(named(list@).take(list.len() as int) =~= named(list@));
        assert forall|scopes: Scopes| #[trigger] lists(list@, scopes) implies keys@
            == scopes.dom() by {
            lemma_listed_keys(list@, scopes);
        }
    }
    keys
}

/// The keys of `map`, each once.
pub fn keys_of<V>(map: &BTreeMap<u64, V>) -> (keys: Vec<u64>)
    ensures
        keys@.no_duplicates(),
        keys@.to_set() == map@.dom(),
        forall|i: int| 0 <= i < keys.len() ==> map@.contains_key(#[trigger] keys[i]),
        forall|key: u64| #[trigger] map@.contains_key(key) ==> keys@.contains(key),
{
    let mut keys: Vec<u64> = Vec::new();
    for key in it: map.keys()
        invariant
            it.seq() == spec_keys_iter(map).remaining(),
            keys.len() == it.index(),
            forall|i: int| 0 <= i < keys.len() ==> keys[i] == *it.seq()[i],
    {
        keys.push(*key);
    }
    proof {
        assert(keys@ =~= spec_keys_iter(map).remaining().unref());
        assert forall|i: int| 0 <= i < keys.len() implies map@.contains_key(#[trigger] keys[i]) by {
            assert(keys@.to_set().contains(keys[i]));
        }
        assert forall|key: u64| #[trigger] map@.contains_key(key) implies keys@.contains(key) by {
            assert(map@.dom().contains(key));
        }
    }
    keys
}

/// The keys that `map` sends to `value`, each once.
pub fn keys_with_value(map: &BTreeMap<u64, u64>, value: u64) -> (keys: Vec<u64>)
    ensures
        keys@.no_duplicates(),
        keys@.to_set() == map@.dom().filter(|key: u64| map@[key] == value),
        forall|key: u64| #[trigger]
            keys@.contains(key) <==> map@.contains_key(key) && map@[key] == value,
{
    let all = keys_of(map);
    let mut keys: Vec<u64> = Vec::new();
    let mut i: usize = 0;
    while i < all.len()
        invariant
            i <= all.len(),
            all@.no_duplicates(),
            forall|j: int| 0 <= j < all.len() ==> map@.contains_key(#[trigger] all[j]),
            keys@.no_duplicates(),
            forall|key: u64| #[trigger]
                keys@.contains(key) <==> all@.take(i as int).contains(key) && map@[key] == value,
        decreases all.len() - i,
    {
        let key: u64 = all[i];
        proof {
            assert(all@.take(i + 1) =~= all@.take(i as int).push(key));
            lemma_push_contains(all@.take(i as int), key);
            assert(!all@.take(i as int).contains(key));
            lemma_push_contains(keys@, key);
        }
        match map.get(&key) {
            Some(found) => {
                if *found == value {
                    keys.push(key);
                }
            },
            None => {},
        }
        i = i + 1;
    }
    proof {
        assert(all@.take(all.len() as int) =~= all@);
        assert forall|key: u64| #[trigger]
            keys@.contains(key) <==> map@.contains_key(key) && map@[key] == value by {
            if all@.contains(key) {
                assert(map@.contains_key(all[all@.index_of(key)]));
            }
        }
        assert(keys@.to_set() =~= map@.dom().filter(|key: u64| map@[key] == value));
    }
    keys
}

/// Remove every key of `keys` from `map`.
pub fn remove_each<V>(map: &mut BTreeMap<u64, V>, keys: &Vec<u64>)
    ensures
        final(map)@ == old(map)@.remove_keys(keys@.to_set()),
{
    let mut i: usize = 0;
    while i < keys.len()
        invariant
            i <= keys.len(),
            map@ == old(map)@.remove_keys(keys@.take(i as int).to_set()),
        decreases keys.len() - i,
    {
        let key: u64 = keys[i];
        map.remove(&key);
        proof {
            assert(keys@.take(i + 1) =~= keys@.take(i as int).push(key));
            lemma_push_contains(keys@.take(i as int), key);
            assert(map@ =~= old(map)@.remove_keys(keys@.take(i + 1).to_set()));
        }
        i = i + 1;
    }
    proof {
        assert(keys@.take(keys.len() as int) =~= keys@);
    }
}

/// Remove every key of `keys` from `set`.
pub fn withdraw_each(set: &mut BTreeSet<u64>, keys: &Vec<u64>)
    ensures
        final(set)@ == old(set)@.difference(keys@.to_set()),
{
    let mut i: usize = 0;
    while i < keys.len()
        invariant
            i <= keys.len(),
            set@ == old(set)@.difference(keys@.take(i as int).to_set()),
        decreases keys.len() - i,
    {
        let key: u64 = keys[i];
        set.remove(&key);
        proof {
            assert(keys@.take(i + 1) =~= keys@.take(i as int).push(key));
            lemma_push_contains(keys@.take(i as int), key);
            assert(set@ =~= old(set)@.difference(keys@.take(i + 1).to_set()));
        }
        i = i + 1;
    }
    proof {
        assert(keys@.take(keys.len() as int) =~= keys@);
    }
}

/// Add every key of `keys` to `set`.
pub fn enter_each(set: &mut BTreeSet<u64>, keys: &Vec<u64>)
    ensures
        final(set)@ == old(set)@.union(keys@.to_set()),
{
    let mut i: usize = 0;
    while i < keys.len()
        invariant
            i <= keys.len(),
            set@ == old(set)@.union(keys@.take(i as int).to_set()),
        decreases keys.len() - i,
    {
        let key: u64 = keys[i];
        set.insert(key);
        proof {
            assert(keys@.take(i + 1) =~= keys@.take(i as int).push(key));
            lemma_push_contains(keys@.take(i as int), key);
            assert(set@ =~= old(set)@.union(keys@.take(i + 1).to_set()));
        }
        i = i + 1;
    }
    proof {
        assert(keys@.take(keys.len() as int) =~= keys@);
    }
}

} // verus!
