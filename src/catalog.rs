//! The catalog: normalizing raw records and indexing them by hash.
use crate::keyed::{
    find_key, keyed_map, keys_unique, lemma_keyed_map_lookup, lemma_keyed_map_push,
    lemma_keyed_map_update, upsert, Keyed,
};
use crate::model::{
    CharacteristicGroup, DifficultyEntry, Grouping, NormalizedSong, RawSong, SongView,
};
use std::collections::HashMap;
use vstd::prelude::*;
use vstd::utf8::encode_utf8;

verus! {

broadcast use vstd::std_specs::hash::group_hash_axioms;

/// The grouping of `entries` by characteristic, then by difficulty name; a
/// later entry replaces an earlier one with the same pair.
pub open spec fn grouping_of(entries: Seq<DifficultyEntry>) -> Grouping
    decreases entries.len(),
{
    if entries.len() == 0 {
        Map::empty()
    } else {
        let g = grouping_of(entries.drop_last());
        let e = entries.last();
        let inner = if g.contains_key(e.characteristic@) {
            g[e.characteristic@]
        } else {
            Map::empty()
        };
        g.insert(e.characteristic@, inner.insert(e.difficulty@, e))
    }
}

/// The normalized form of one raw record.
pub open spec fn song_view_of(raw: RawSong) -> SongView {
    SongView {
        hash: raw.hash@,
        key: raw.key@,
        song_name: raw.song_name@,
        level_author_name: raw.level_author_name@,
        grouping: grouping_of(raw.diffs@),
    }
}

/// The catalog built from `raws`, keyed by hash; a later record replaces an
/// earlier one with the same hash.
pub open spec fn catalog_of(raws: Seq<RawSong>) -> Map<Seq<char>, SongView>
    decreases raws.len(),
{
    if raws.len() == 0 {
        Map::empty()
    } else {
        catalog_of(raws.drop_last()).insert(raws.last().hash@, song_view_of(raws.last()))
    }
}

/// A digest of a byte string: the bytes read as the digits of a number in
/// base 31, modulo 2^64.
pub open spec fn bytes_digest(b: Seq<u8>) -> u64
    decreases b.len(),
{
    if b.len() == 0 {
        0
    } else {
        ((bytes_digest(b.drop_last()) as int * 31 + b.last() as int) % 0x1_0000_0000_0000_0000) as u64
    }
}

/// The digest of the UTF-8 bytes of a text.
pub open spec fn digest_of(k: Seq<char>) -> u64 {
    bytes_digest(encode_utf8(k))
}

/// Computes `digest_of(s@)`.
fn digest(s: &str) -> (r: u64)
    ensures
        r == digest_of(s@),
{
    let b = s.as_bytes();
    let mut h: u64 = 0;
    let mut i: usize = 0;
    while i < b.len()
        invariant
            i <= b@.len(),
            b@ == encode_utf8(s@),
            h == bytes_digest(b@.take(i as int)),
        decreases b@.len() - i,
    {
        proof {
            assert(b@.take(i + 1).drop_last() =~= b@.take(i as int));
        }
        h = ((h as u128 * 31 + b[i] as u128) % 0x1_0000_0000_0000_0000u128) as u64;
        i = i + 1;
    }
    assert(b@.take(i as int) =~= b@);
    h
}

/// `index` lists, under each digest, the positions of exactly the songs
/// whose hash has that digest.
pub open spec fn index_ok(songs: Seq<NormalizedSong>, index: Map<u64, Vec<usize>>) -> bool {
    &&& forall|i: int|
        0 <= i < songs.len() ==> index.contains_key(digest_of(#[trigger] songs[i].hash@))
            && exists|k: int|
            0 <= k < index[digest_of(songs[i].hash@)]@.len() && index[digest_of(
                songs[i].hash@,
            )]@[k] as int == i
    &&& forall|d: u64, j: int|
        index.contains_key(d) && 0 <= j < index[d]@.len() ==> #[trigger] index[d]@[j] < songs.len()
            && digest_of(songs[index[d]@[j] as int].hash@) == d
}

/// The normalized songs, keyed by hash, with an index from the digest of a
/// hash to the positions of the songs that have it.
#[derive(Debug)]
pub struct Database {
    pub songs: Vec<NormalizedSong>,
    pub index: HashMap<u64, Vec<usize>>,
}

impl View for Database {
    type V = Map<Seq<char>, SongView>;

    open spec fn view(&self) -> Map<Seq<char>, SongView> {
        keyed_map(self.songs@)
    }
}

impl Database {
    /// Hashes are unique, every song is well formed, and the index is exact.
    pub open spec fn wf(&self) -> bool {
        &&& keys_unique(self.songs@)
        &&& forall|i: int| 0 <= i < self.songs@.len() ==> (#[trigger] self.songs@[i]).wf()
        &&& index_ok(self.songs@, self.index@)
    }

    /// An empty database.
    pub fn new() -> (r: Database)
        ensures
            r.wf(),
            r@ == Map::<Seq<char>, SongView>::empty(),
    {
        Database { songs: Vec::new(), index: HashMap::new() }
    }

    /// The number of songs.
    pub fn len(&self) -> (r: usize)
        requires
            self.wf(),
        ensures
            r == self@.len(),
    {
        proof {
            lemma_database_len(self.songs@);
        }
        self.songs.len()
    }

    /// The position of the song whose hash is `key`, if any.
    fn position_of(&self, key: &str) -> (r: Option<usize>)
        requires
            self.wf(),
        ensures
            match r {
                Some(i) => i < self.songs@.len() && self.songs@[i as int].hash@ == key@,
                None => forall|i: int|
                    0 <= i < self.songs@.len() ==> self.songs@[i].hash@ != key@,
            },
    {
        let d = digest(key);
        let owned = key.to_owned();
        match self.index.get(&d) {
            None => None,
            Some(positions) => {
                assert(self.index@.contains_key(d));
                assert(*positions == self.index@[d]);
                let mut j: usize = 0;
                while j < positions.len()
                    invariant
                        j <= positions@.len(),
                        self.wf(),
                        d == digest_of(key@),
                        owned@ == key@,
                        self.index@.contains_key(d),
                        *positions == self.index@[d],
                        forall|k: int|
                            0 <= k < j ==> self.songs@[positions@[k] as int].hash@ != key@,
                    decreases positions@.len() - j,
                {
                    let p = positions[j];
                    assert(self.index@[d]@[j as int] == p);
                    if self.songs[p].hash.eq(&owned) {
                        return Some(p);
                    }
                    j = j + 1;
                }
                assert forall|i: int| 0 <= i < self.songs@.len() implies self.songs@[i].hash@
                    != key@ by {
                    if self.songs@[i].hash@ == key@ {
                        let k = choose|k: int|
                            0 <= k < positions@.len() && positions@[k] as int == i;
                        assert(self.songs@[positions@[k] as int].hash@ != key@);
                    }
                }
                None
            },
        }
    }

    /// Stores `song` under its hash, replacing the song that had that hash.
    pub fn insert(&mut self, song: NormalizedSong)
        requires
            old(self).wf(),
            song.wf(),
        ensures
            final(self).wf(),
            final(self)@ == old(self)@.insert(song.hash@, song@),
    {
        let ghost s = self.songs@;
        match self.position_of(song.hash.as_str()) {
            Some(j) => {
                proof {
                    lemma_keyed_map_update(s, j as int, song);
                }
                self.songs.set(j, song);
                assert forall|i: int| 0 <= i < self.songs@.len() implies (#[trigger] self.songs@[i]).wf() by {
                    if i != j {
                        assert(self.songs@[i] == s[i]);
                    }
                }
                assert forall|i: int| 0 <= i < self.songs@.len() implies #[trigger] self.songs@[i].hash@
                    == s[i].hash@ by {}
            },
            None => {
                let n = self.songs.len();
                let d = digest(song.hash.as_str());
                let ghost old_index = self.index@;
                let mut positions = match self.index.remove(&d) {
                    Some(v) => v,
                    None => Vec::new(),
                };
                let ghost before = positions@;
                positions.push(n);
                self.index.insert(d, positions);
                proof {
                    lemma_keyed_map_push(s, song);
                }
                self.songs.push(song);
                let ghost t = self.songs@;
                assert forall|i: int| 0 <= i < t.len() implies (#[trigger] t[i]).wf() by {
                    if i < s.len() {
                        assert(t[i] == s[i]);
                    }
                }
                assert forall|i: int| 0 <= i < t.len() implies self.index@.contains_key(
                    digest_of(#[trigger] t[i].hash@),
                ) && exists|k: int|
                    0 <= k < self.index@[digest_of(t[i].hash@)]@.len() && self.index@[digest_of(
                        t[i].hash@,
                    )]@[k] as int == i by {
                    if i < s.len() {
                        assert(t[i] == s[i]);
                        let e = digest_of(s[i].hash@);
                        let k = choose|k: int| 0 <= k < old_index[e]@.len() && old_index[e]@[k] as int == i;
                        if e == d {
                            assert(self.index@[d]@[k] as int == i);
                        } else {
                            assert(self.index@[e] == old_index[e]);
                        }
                    } else {
                        assert(self.index@[d]@[before.len() as int] == n);
                    }
                }
                assert forall|e: u64, k: int|
                    self.index@.contains_key(e) && 0 <= k < self.index@[e]@.len() implies #[trigger] self.index@[e]@[k]
                    < t.len() && digest_of(t[self.index@[e]@[k] as int].hash@) == e by {
                    let p = self.index@[e]@[k];
                    if e != d || k < before.len() {
                        assert(old_index.contains_key(e));
                        assert(p == old_index[e]@[k]);
                        assert(t[p as int] == s[p as int]);
                    }
                }
            },
        }
    }

    /// The song whose hash is exactly `hash`, if there is one.
    pub fn get(&self, hash: &str) -> (r: Option<&NormalizedSong>)
        requires
            self.wf(),
        ensures
            r is Some <==> self@.contains_key(hash@),
            r matches Some(s) ==> s.wf() && s.hash@ == hash@ && s@ == self@[hash@],
    {
        proof {
            lemma_keyed_map_lookup(self.songs@);
        }
        match self.position_of(hash) {
            Some(i) => {
                assert(self.songs@[i as int].wf());
                assert(self@[self.songs@[i as int].key_view()] == self.songs@[i as int]@);
                Some(&self.songs[i])
            },
            None => None,
        }
    }
}

/// A collection with unique keys has one entry per element.
proof fn lemma_database_len(s: Seq<NormalizedSong>)
    requires
        keys_unique(s),
    ensures
        keyed_map(s).dom().finite(),
        keyed_map(s).len() == s.len(),
    decreases s.len(),
{
    if s.len() > 0 {
        let p = s.drop_last();
        assert(keys_unique(p)) by {
            assert forall|i: int, j: int|
                0 <= i < p.len() && 0 <= j < p.len() && i != j implies #[trigger] p[i].key_view()
                != #[trigger] p[j].key_view() by {
                assert(p[i] == s[i] && p[j] == s[j]);
            }
        }
        lemma_database_len(p);
        lemma_keyed_map_lookup(p);
        assert forall|i: int| 0 <= i < p.len() implies p[i].key_view() != s.last().key_view() by {
            assert(p[i] == s[i]);
        }
        assert(!keyed_map(p).contains_key(s.last().key_view()));
    }
}

/// Files `e` under its characteristic and difficulty name.
fn insert_entry(groups: &mut Vec<CharacteristicGroup>, e: DifficultyEntry)
    requires
        keys_unique(old(groups)@),
        forall|i: int|
            0 <= i < old(groups)@.len() ==> keys_unique(#[trigger] old(groups)@[i].difficulties@),
    ensures
        keys_unique(final(groups)@),
        forall|i: int|
            0 <= i < final(groups)@.len() ==> keys_unique(
                #[trigger] final(groups)@[i].difficulties@,
            ),
        ({
            let g = keyed_map(old(groups)@);
            let c = e.characteristic@;
            let inner = if g.contains_key(c) {
                g[c]
            } else {
                Map::empty()
            };
            keyed_map(final(groups)@) == g.insert(c, inner.insert(e.difficulty@, e))
        }),
{
    let ghost s = groups@;
    proof {
        lemma_keyed_map_lookup(s);
    }
    match find_key(groups, &e.characteristic) {
        Some(j) => {
            let ghost inner = keyed_map(s[j as int].difficulties@);
            assert(keyed_map(s)[s[j as int].key_view()] == inner);
            upsert(&mut groups[j].difficulties, e);
            assert(groups@[j as int].characteristic == s[j as int].characteristic);
            assert(keyed_map(groups@[j as int].difficulties@) == inner.insert(e.difficulty@, e));
            proof {
                lemma_keyed_map_update(s, j as int, groups@[j as int]);
                assert(groups@ == s.update(j as int, groups@[j as int]));
            }
        },
        None => {
            let c = e.characteristic.clone();
            let mut d: Vec<DifficultyEntry> = Vec::new();
            d.push(e);
            let group = CharacteristicGroup { characteristic: c, difficulties: d };
            proof {
                assert(d@ =~= Seq::empty().push(e));
                assert(Seq::<DifficultyEntry>::empty().push(e).drop_last() =~= Seq::empty());
                assert(keys_unique(d@));
                assert(keyed_map(d@) == keyed_map(Seq::<DifficultyEntry>::empty()).insert(e.difficulty@, e));
                lemma_keyed_map_push(s, group);
            }
            groups.push(group);
            assert(keyed_map(s).contains_key(c@) == false);
        },
    }
}

/// Normalizes one raw record: its identifying fields, and its difficulties
/// grouped by characteristic and name.
pub fn normalize_song(raw: &RawSong) -> (r: NormalizedSong)
    ensures
        r.wf(),
        r@ == song_view_of(*raw),
{
    let mut groups: Vec<CharacteristicGroup> = Vec::new();
    let mut i: usize = 0;
    while i < raw.diffs.len()
        invariant
            i <= raw.diffs@.len(),
            keys_unique(groups@),
            forall|k: int| 0 <= k < groups@.len() ==> keys_unique(#[trigger] groups@[k].difficulties@),
            keyed_map(groups@) == grouping_of(raw.diffs@.take(i as int)),
        decreases raw.diffs@.len() - i,
    {
        let e = raw.diffs[i].copy_entry();
        insert_entry(&mut groups, e);
        proof {
            let t = raw.diffs@.take(i + 1);
            assert(t.drop_last() =~= raw.diffs@.take(i as int));
            assert(t.last() == e);
        }
        i = i + 1;
    }
    assert(raw.diffs@.take(i as int) =~= raw.diffs@);
    NormalizedSong {
        hash: raw.hash.clone(),
        key: raw.key.clone(),
        song_name: raw.song_name.clone(),
        level_author_name: raw.level_author_name.clone(),
        characteristics: groups,
    }
}

/// Builds the database from raw records: each is normalized and stored under
/// its hash, a later record replacing an earlier one with the same hash.
pub fn parse_beatstar(songs: &[RawSong]) -> (r: Database)
    ensures
        r.wf(),
        r@ == catalog_of(songs@),
{
    let mut db = Database::new();
    let mut i: usize = 0;
    while i < songs.len()
        invariant
            i <= songs@.len(),
            db.wf(),
            db@ == catalog_of(songs@.take(i as int)),
        decreases songs@.len() - i,
    {
        let song = normalize_song(&songs[i]);
        db.insert(song);
        proof {
            let t = songs@.take(i + 1);
            assert(t.drop_last() =~= songs@.take(i as int));
            assert(t.last() == songs@[i as int]);
        }
        i = i + 1;
    }
    assert(songs@.take(i as int) =~= songs@);
    db
}


/// The catalog holds exactly the hashes of the records it was built from.
pub proof fn lemma_catalog_keys(raws: Seq<RawSong>)
    ensures
        forall|k: Seq<char>|
            #[trigger] catalog_of(raws).contains_key(k) <==> exists|i: int|
                0 <= i < raws.len() && raws[i].hash@ == k,
    decreases raws.len(),
{
    if raws.len() > 0 {
        let p = raws.drop_last();
        lemma_catalog_keys(p);
        assert forall|k: Seq<char>| #[trigger] catalog_of(raws).contains_key(k) implies exists|i: int|
            0 <= i < raws.len() && raws[i].hash@ == k by {
            if k != raws.last().hash@ {
                assert(catalog_of(p).contains_key(k));
                let i = choose|i: int| 0 <= i < p.len() && p[i].hash@ == k;
                assert(raws[i] == p[i]);
            } else {
                assert(raws[raws.len() - 1].hash@ == k);
            }
        }
        assert forall|k: Seq<char>|
            (exists|i: int| 0 <= i < raws.len() && raws[i].hash@ == k) implies #[trigger] catalog_of(
            raws,
        ).contains_key(k) by {
            let i = choose|i: int| 0 <= i < raws.len() && raws[i].hash@ == k;
            if i < raws.len() - 1 {
                assert(p[i] == raws[i]);
                assert(catalog_of(p).contains_key(k));
            }
        }
    }
}

/// Looking up the hash of a record that no later record shares gives that
/// record, normalized: the same hash, and its difficulties grouped.
pub proof fn lemma_catalog_lookup(raws: Seq<RawSong>, i: int)
    requires
        0 <= i < raws.len(),
        forall|j: int| i < j < raws.len() ==> #[trigger] raws[j].hash@ != raws[i].hash@,
    ensures
        catalog_of(raws).contains_key(raws[i].hash@),
        catalog_of(raws)[raws[i].hash@] == song_view_of(raws[i]),
        catalog_of(raws)[raws[i].hash@].hash == raws[i].hash@,
        catalog_of(raws)[raws[i].hash@].grouping == grouping_of(raws[i].diffs@),
    decreases raws.len(),
{
    if i < raws.len() - 1 {
        let p = raws.drop_last();
        assert(raws[raws.len() - 1].hash@ != raws[i].hash@);
        assert forall|j: int| i < j < p.len() implies #[trigger] p[j].hash@ != p[i].hash@ by {
            assert(p[j] == raws[j]);
        }
        lemma_catalog_lookup(p, i);
        assert(p[i] == raws[i]);
    }
}

/// Every difficulty entry of a song can be reached by its characteristic
/// and difficulty name, and what is found under a pair of those is an entry
/// of the song that carries exactly that pair: so each entry has exactly one
/// path, and entries with different pairs never collide.
pub proof fn lemma_grouping_paths(entries: Seq<DifficultyEntry>)
    ensures
        forall|i: int|
            0 <= i < entries.len() ==> #[trigger] grouping_of(entries).contains_key(
                entries[i].characteristic@,
            ) && grouping_of(entries)[entries[i].characteristic@].contains_key(
                entries[i].difficulty@,
            ),
        forall|c: Seq<char>, d: Seq<char>|
            grouping_of(entries).contains_key(c) && #[trigger] grouping_of(
                entries,
            )[c].contains_key(d) ==> {
                let e = grouping_of(entries)[c][d];
                &&& e.characteristic@ == c
                &&& e.difficulty@ == d
                &&& entries.contains(e)
            },
    decreases entries.len(),
{
    if entries.len() > 0 {
        let p = entries.drop_last();
        let e = entries.last();
        lemma_grouping_paths(p);
        let g = grouping_of(p);
        assert forall|i: int| 0 <= i < entries.len() implies #[trigger] grouping_of(
            entries,
        ).contains_key(entries[i].characteristic@) && grouping_of(
            entries,
        )[entries[i].characteristic@].contains_key(entries[i].difficulty@) by {
            if i < entries.len() - 1 {
                assert(p[i] == entries[i]);
                assert(g.contains_key(p[i].characteristic@));
            }
        }
        assert forall|c: Seq<char>, d: Seq<char>|
            grouping_of(entries).contains_key(c) && #[trigger] grouping_of(
                entries,
            )[c].contains_key(d) implies {
            let x = grouping_of(entries)[c][d];
            &&& x.characteristic@ == c
            &&& x.difficulty@ == d
            &&& entries.contains(x)
        } by {
            let x = grouping_of(entries)[c][d];
            if c == e.characteristic@ && d == e.difficulty@ {
                assert(entries[entries.len() - 1] == x);
            } else {
                assert(g.contains_key(c) && g[c].contains_key(d));
                assert(x == g[c][d]);
                let k = choose|k: int| 0 <= k < p.len() && p[k] == x;
                assert(entries[k] == x);
            }
        }
    }
}

} // verus!
