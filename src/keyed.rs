//! Vectors of records that are keyed by a string, viewed as finite maps.
use vstd::prelude::*;

verus! {

/// A record that carries its own string key.
pub trait Keyed: Sized {
    type Value;

    spec fn key_view(&self) -> Seq<char>;

    spec fn value_view(&self) -> Self::Value;

    fn key(&self) -> (r: &String)
        ensures
            r@ == self.key_view(),
    ;
}

/// No two records of `s` share a key.
pub open spec fn keys_unique<T: Keyed>(s: Seq<T>) -> bool {
    forall|i: int, j: int|
        0 <= i < s.len() && 0 <= j < s.len() && i != j ==> #[trigger] s[i].key_view()
            != #[trigger] s[j].key_view()
}

/// The map from key to value that `s` holds; a later record wins over an
/// earlier one with the same key.
pub open spec fn keyed_map<T: Keyed>(s: Seq<T>) -> Map<Seq<char>, T::Value>
    decreases s.len(),
{
    if s.len() == 0 {
        Map::empty()
    } else {
        keyed_map(s.drop_last()).insert(s.last().key_view(), s.last().value_view())
    }
}

/// Where keys are unique, the map holds exactly the keys of `s`, each with
/// the value of its record.
pub proof fn lemma_keyed_map_lookup<T: Keyed>(s: Seq<T>)
    requires
        keys_unique(s),
    ensures
        forall|k: Seq<char>|
            #[trigger] keyed_map(s).contains_key(k) <==> exists|i: int|
                0 <= i < s.len() && s[i].key_view() == k,
        forall|i: int|
            0 <= i < s.len() ==> #[trigger] keyed_map(s)[s[i].key_view()] == s[i].value_view(),
    decreases s.len(),
{
    if s.len() > 0 {
        let p = s.drop_last();
        assert(keys_unique(p)) by {
            assert forall|i: int, j: int|
                0 <= i < p.len() && 0 <= j < p.len() && i != j implies #[trigger] p[i].key_view()
                != #[trigger] p[j].key_view() by {
                assert(p[i] == s[i] && p[j] == s[j]);
            }
        }
        lemma_keyed_map_lookup(p);
        let m = keyed_map(p).insert(s.last().key_view(), s.last().value_view());
        assert(keyed_map(s) == m);
        assert forall|k: Seq<char>| #[trigger] keyed_map(s).contains_key(k) implies exists|i: int|
            0 <= i < s.len() && s[i].key_view() == k by {
            if k != s.last().key_view() {
                assert(keyed_map(p).contains_key(k));
                let i = choose|i: int| 0 <= i < p.len() && p[i].key_view() == k;
                assert(s[i] == p[i]);
            } else {
                assert(s[s.len() - 1].key_view() == k);
            }
        }
        assert forall|k: Seq<char>|
            (exists|i: int| 0 <= i < s.len() && s[i].key_view() == k) implies #[trigger] keyed_map(
            s,
        ).contains_key(k) by {
            let i = choose|i: int| 0 <= i < s.len() && s[i].key_view() == k;
            if i < s.len() - 1 {
                assert(p[i] == s[i]);
                assert(keyed_map(p).contains_key(p[i].key_view()));
            }
        }
        assert forall|i: int| 0 <= i < s.len() implies #[trigger] keyed_map(s)[s[i].key_view()]
            == s[i].value_view() by {
            if i < s.len() - 1 {
                assert(p[i] == s[i]);
                assert(s[i].key_view() != s[s.len() - 1].key_view());
                assert(keyed_map(p)[p[i].key_view()] == p[i].value_view());
            }
        }
    }
}

/// Replacing the record at `j` by one with the same key replaces the value
/// under that key and keeps the keys unique.
pub proof fn lemma_keyed_map_update<T: Keyed>(s: Seq<T>, j: int, x: T)
    requires
        keys_unique(s),
        0 <= j < s.len(),
        x.key_view() == s[j].key_view(),
    ensures
        keys_unique(s.update(j, x)),
        keyed_map(s.update(j, x)) == keyed_map(s).insert(x.key_view(), x.value_view()),
{
    let t = s.update(j, x);
    assert forall|a: int, b: int|
        0 <= a < t.len() && 0 <= b < t.len() && a != b implies #[trigger] t[a].key_view()
        != #[trigger] t[b].key_view() by {
        assert(t[a].key_view() == s[a].key_view());
        assert(t[b].key_view() == s[b].key_view());
    }
    lemma_keyed_map_lookup(s);
    lemma_keyed_map_lookup(t);
    let m = keyed_map(s).insert(x.key_view(), x.value_view());
    assert forall|k: Seq<char>| #[trigger] keyed_map(t).contains_key(k) <==> m.contains_key(k) by {
        if keyed_map(t).contains_key(k) {
            let i = choose|i: int| 0 <= i < t.len() && t[i].key_view() == k;
            assert(s[i].key_view() == k);
        }
        if m.contains_key(k) && k != x.key_view() {
            let i = choose|i: int| 0 <= i < s.len() && s[i].key_view() == k;
            assert(t[i].key_view() == k);
        }
        if k == x.key_view() {
            assert(t[j].key_view() == k);
        }
    }
    assert forall|k: Seq<char>| #[trigger] keyed_map(t).contains_key(k) implies keyed_map(t)[k]
        == m[k] by {
        let i = choose|i: int| 0 <= i < t.len() && t[i].key_view() == k;
        assert(keyed_map(t)[t[i].key_view()] == t[i].value_view());
        if i != j {
            assert(keyed_map(s)[s[i].key_view()] == s[i].value_view());
        }
    }
    assert(keyed_map(t) =~= m);
}

/// Appending a record whose key is new adds that key and keeps the keys
/// unique.
pub proof fn lemma_keyed_map_push<T: Keyed>(s: Seq<T>, x: T)
    requires
        keys_unique(s),
        forall|i: int| 0 <= i < s.len() ==> s[i].key_view() != x.key_view(),
    ensures
        keys_unique(s.push(x)),
        keyed_map(s.push(x)) == keyed_map(s).insert(x.key_view(), x.value_view()),
{
    let t = s.push(x);
    assert(t.drop_last() =~= s);
    assert forall|a: int, b: int|
        0 <= a < t.len() && 0 <= b < t.len() && a != b implies #[trigger] t[a].key_view()
        != #[trigger] t[b].key_view() by {
        if a < s.len() {
            assert(t[a] == s[a]);
        }
        if b < s.len() {
            assert(t[b] == s[b]);
        }
    }
}

/// The position of the record with key `key`, if any.
pub fn find_key<T: Keyed>(v: &Vec<T>, key: &String) -> (r: Option<usize>)
    ensures
        match r {
            Some(i) => i < v.len() && v@[i as int].key_view() == key@,
            None => forall|i: int| 0 <= i < v.len() ==> v@[i].key_view() != key@,
        },
{
    let mut i: usize = 0;
    while i < v.len()
        invariant
            i <= v.len(),
            forall|k: int| 0 <= k < i ==> v@[k].key_view() != key@,
        decreases v.len() - i,
    {
        if v[i].key().eq(key) {
            return Some(i);
        }
        i = i + 1;
    }
    None
}

/// Stores `x` under its key, replacing the record that had that key.
pub fn upsert<T: Keyed>(v: &mut Vec<T>, x: T)
    requires
        keys_unique(old(v)@),
    ensures
        keys_unique(final(v)@),
        keyed_map(final(v)@) == keyed_map(old(v)@).insert(x.key_view(), x.value_view()),
{
    match find_key(v, x.key()) {
        Some(j) => {
            proof {
                lemma_keyed_map_update(v@, j as int, x);
            }
            v.set(j, x);
        },
        None => {
            proof {
                lemma_keyed_map_push(v@, x);
            }
            v.push(x);
        },
    }
}

} // verus!
