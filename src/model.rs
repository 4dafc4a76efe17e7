//! Song records: as received, and normalized with their difficulties grouped.
use crate::keyed::{keyed_map, keys_unique, Keyed};
use vstd::prelude::*;

verus! {

/// One playable difficulty of a song.
#[derive(Debug)]
pub struct DifficultyEntry {
    /// The game mode the difficulty belongs to (its type tag).
    pub characteristic: String,
    /// The difficulty's name within that mode.
    pub difficulty: String,
    pub notes: u64,
    pub bombs: u64,
    pub obstacles: u64,
    pub ranked: bool,
}

/// One catalog entry as received: identifying fields and a flat list of
/// difficulties.
#[derive(Debug)]
pub struct RawSong {
    pub hash: String,
    pub key: String,
    pub song_name: String,
    pub level_author_name: String,
    pub diffs: Vec<DifficultyEntry>,
}

/// The difficulties of one characteristic, keyed by difficulty name.
#[derive(Debug)]
pub struct CharacteristicGroup {
    pub characteristic: String,
    pub difficulties: Vec<DifficultyEntry>,
}

/// A song with its difficulties grouped by characteristic, then by name.
#[derive(Debug)]
pub struct NormalizedSong {
    pub hash: String,
    pub key: String,
    pub song_name: String,
    pub level_author_name: String,
    pub characteristics: Vec<CharacteristicGroup>,
}

/// Difficulties by characteristic, then by difficulty name.
pub type Grouping = Map<Seq<char>, Map<Seq<char>, DifficultyEntry>>;

/// What a normalized song stands for.
pub struct SongView {
    pub hash: Seq<char>,
    pub key: Seq<char>,
    pub song_name: Seq<char>,
    pub level_author_name: Seq<char>,
    pub grouping: Grouping,
}

impl DifficultyEntry {
    /// A field-by-field copy.
    pub fn copy_entry(&self) -> (r: DifficultyEntry)
        ensures
            r == *self,
    {
        DifficultyEntry {
            characteristic: self.characteristic.clone(),
            difficulty: self.difficulty.clone(),
            notes: self.notes,
            bombs: self.bombs,
            obstacles: self.obstacles,
            ranked: self.ranked,
        }
    }
}

impl Keyed for DifficultyEntry {
    type Value = DifficultyEntry;

    open spec fn key_view(&self) -> Seq<char> {
        self.difficulty@
    }

    open spec fn value_view(&self) -> DifficultyEntry {
        *self
    }

    fn key(&self) -> (r: &String) {
        &self.difficulty
    }
}

impl Keyed for CharacteristicGroup {
    type Value = Map<Seq<char>, DifficultyEntry>;

    open spec fn key_view(&self) -> Seq<char> {
        self.characteristic@
    }

    open spec fn value_view(&self) -> Map<Seq<char>, DifficultyEntry> {
        keyed_map(self.difficulties@)
    }

    fn key(&self) -> (r: &String) {
        &self.characteristic
    }
}

impl NormalizedSong {
    /// Characteristics are unique, and so are difficulty names within each.
    pub open spec fn wf(&self) -> bool {
        &&& keys_unique(self.characteristics@)
        &&& forall|i: int|
            0 <= i < self.characteristics@.len() ==> keys_unique(
                #[trigger] self.characteristics@[i].difficulties@,
            )
    }

    pub open spec fn grouping(&self) -> Grouping {
        keyed_map(self.characteristics@)
    }
}

impl View for NormalizedSong {
    type V = SongView;

    open spec fn view(&self) -> SongView {
        SongView {
            hash: self.hash@,
            key: self.key@,
            song_name: self.song_name@,
            level_author_name: self.level_author_name@,
            grouping: self.grouping(),
        }
    }
}

impl Keyed for NormalizedSong {
    type Value = SongView;

    open spec fn key_view(&self) -> Seq<char> {
        self.hash@
    }

    open spec fn value_view(&self) -> SongView {
        self@
    }

    fn key(&self) -> (r: &String) {
        &self.hash
    }
}

} // verus!
