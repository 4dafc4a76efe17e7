use beatstar::boundary::{decode_key, failure_code, ERROR_DECODE, ERROR_NONE, ERROR_TRANSPORT};
use beatstar::cache::{Action, Cache, CacheState, Event, FetchFailure, HTTP_OK};
use beatstar::catalog::{normalize_song, parse_beatstar, Database};
use beatstar::model::{DifficultyEntry, NormalizedSong, RawSong};
use beatstar::query::{beatstar_get_song, beatstar_retrieve_database};

fn entry(characteristic: &str, difficulty: &str, notes: u64) -> DifficultyEntry {
    DifficultyEntry {
        characteristic: characteristic.to_string(),
        difficulty: difficulty.to_string(),
        notes,
        bombs: 0,
        obstacles: 0,
        ranked: false,
    }
}

fn song(hash: &str, diffs: Vec<DifficultyEntry>) -> RawSong {
    RawSong {
        hash: hash.to_string(),
        key: format!("key-{}", hash),
        song_name: format!("name-{}", hash),
        level_author_name: "mapper".to_string(),
        diffs,
    }
}

fn two_songs() -> Vec<RawSong> {
    vec![
        song("AAA", vec![entry("Standard", "Hard", 100)]),
        song("BBB", vec![entry("OneSaber", "Expert", 200)]),
    ]
}

fn find<'a>(s: &'a NormalizedSong, c: &str, d: &str) -> Option<&'a DifficultyEntry> {
    s.characteristics
        .iter()
        .find(|g| g.characteristic == c)
        .and_then(|g| g.difficulties.iter().find(|e| e.difficulty == d))
}

fn ready_cache(songs: Vec<RawSong>) -> Cache {
    let mut c = Cache::new();
    assert!(matches!(c.step(Event::Requested), Action::Fetch));
    let a = c.step(Event::Responded { status: HTTP_OK, body: "[]".to_string() });
    assert!(matches!(a, Action::Decode { ref body } if body == "[]"));
    assert!(matches!(c.step(Event::Decoded { songs }), Action::Serve));
    c
}

#[test]
fn two_song_scenario() {
    let c = ready_cache(two_songs());
    let found = beatstar_get_song(&c, None, "AAA").unwrap().unwrap();
    assert_eq!(found.hash, "AAA");
    assert_eq!(found.key, "key-AAA");
    let e = find(found, "Standard", "Hard").unwrap();
    assert_eq!(e.notes, 100);
    assert!(find(found, "OneSaber", "Expert").is_none());
    assert!(beatstar_get_song(&c, None, "CCC").unwrap().is_none());
    let db = beatstar_retrieve_database(&c, None).unwrap();
    assert_eq!(db.len(), 2);
}

#[test]
fn absent_hash_is_not_an_error() {
    let c = ready_cache(two_songs());
    assert!(matches!(beatstar_get_song(&c, None, "does-not-exist"), Ok(None)));
}

#[test]
fn lookup_is_case_sensitive() {
    let c = ready_cache(two_songs());
    assert!(beatstar_get_song(&c, None, "aaa").unwrap().is_none());
}

#[test]
fn every_song_is_found_by_its_hash() {
    let raws = vec![
        song("h1", vec![entry("Standard", "Easy", 1), entry("Standard", "Hard", 2)]),
        song("h2", vec![entry("Lawless", "Expert", 3)]),
        song("h3", vec![]),
    ];
    let db = parse_beatstar(&raws);
    for raw in &raws {
        let s = db.get(&raw.hash).unwrap();
        assert_eq!(s.hash, raw.hash);
        let expected = normalize_song(raw);
        assert_eq!(s.characteristics.len(), expected.characteristics.len());
        for e in &raw.diffs {
            assert_eq!(find(s, &e.characteristic, &e.difficulty).unwrap().notes, e.notes);
        }
    }
}

#[test]
fn grouping_keeps_each_pair_once() {
    let raw = song(
        "X",
        vec![
            entry("Standard", "Easy", 1),
            entry("OneSaber", "Easy", 2),
            entry("Standard", "Expert", 3),
            entry("Standard", "Easy", 4),
        ],
    );
    let s = normalize_song(&raw);
    assert_eq!(s.characteristics.len(), 2);
    let standard = s.characteristics.iter().find(|g| g.characteristic == "Standard").unwrap();
    assert_eq!(standard.difficulties.len(), 2);
    for g in &s.characteristics {
        for e in &g.difficulties {
            assert_eq!(e.characteristic, g.characteristic);
        }
    }
    // the later entry under the same pair wins
    assert_eq!(find(&s, "Standard", "Easy").unwrap().notes, 4);
    assert_eq!(find(&s, "OneSaber", "Easy").unwrap().notes, 2);
    assert_eq!(find(&s, "Standard", "Expert").unwrap().notes, 3);
}

#[test]
fn duplicate_hash_keeps_the_later_record() {
    let raws = vec![
        song("D", vec![entry("Standard", "Easy", 1)]),
        song("D", vec![entry("Standard", "Hard", 2)]),
    ];
    let db = parse_beatstar(&raws);
    assert_eq!(db.len(), 1);
    let s = db.get("D").unwrap();
    assert!(find(s, "Standard", "Easy").is_none());
    assert_eq!(find(s, "Standard", "Hard").unwrap().notes, 2);
}

#[test]
fn empty_catalog() {
    let db: Database = parse_beatstar(&[]);
    assert_eq!(db.len(), 0);
    assert!(db.get("").is_none());
}

#[test]
fn failed_fetch_leaves_cache_empty_and_retries() {
    let mut c = Cache::new();
    assert!(matches!(c.step(Event::Requested), Action::Fetch));
    let a = c.step(Event::Responded { status: 503, body: "unavailable".to_string() });
    match a {
        Action::Fail { failure: FetchFailure::TransportFailure { status, body } } => {
            assert_eq!(status, Some(503));
            assert_eq!(body, "unavailable");
        }
        other => panic!("unexpected {:?}", other),
    }
    assert!(matches!(c.state, CacheState::Empty));
    assert!(matches!(c.step(Event::Requested), Action::Fetch));
    c.step(Event::Responded { status: HTTP_OK, body: String::new() });
    assert!(matches!(c.step(Event::Decoded { songs: two_songs() }), Action::Serve));
    assert_eq!(c.database().unwrap().len(), 2);
}

#[test]
fn unreachable_and_undecodable_fail() {
    let mut c = Cache::new();
    c.step(Event::Requested);
    let a = c.step(Event::Unreachable { detail: "timed out".to_string() });
    assert!(matches!(a, Action::Fail { failure: FetchFailure::TransportFailure { status: None, .. } }));
    assert!(matches!(c.state, CacheState::Empty));
    c.step(Event::Requested);
    c.step(Event::Responded { status: HTTP_OK, body: "{".to_string() });
    let a = c.step(Event::Undecodable { detail: "eof".to_string() });
    match a {
        Action::Fail { failure: FetchFailure::DecodeFailure { detail } } => assert_eq!(detail, "eof"),
        other => panic!("unexpected {:?}", other),
    }
    assert!(matches!(c.state, CacheState::Empty));
}

#[test]
fn requests_fetch_exactly_once() {
    let mut c = Cache::new();
    let mut fetches = 0;
    for _ in 0..8 {
        if let Action::Fetch = c.step(Event::Requested) {
            fetches += 1;
        }
    }
    assert_eq!(fetches, 1);
    c.step(Event::Responded { status: HTTP_OK, body: String::new() });
    c.step(Event::Decoded { songs: two_songs() });
    for _ in 0..8 {
        assert!(matches!(c.step(Event::Requested), Action::Serve));
        assert_eq!(c.database().unwrap().len(), 2);
        assert!(c.database().unwrap().get("BBB").is_some());
    }
}

#[test]
fn failure_is_handed_back_by_queries() {
    let c = Cache::new();
    let r = beatstar_get_song(&c, Some(FetchFailure::DecodeFailure { detail: "bad".to_string() }), "AAA");
    assert!(matches!(r, Err(FetchFailure::DecodeFailure { .. })));
    let r = beatstar_retrieve_database(&c, Some(FetchFailure::TransportFailure { status: Some(503), body: String::new() }));
    assert!(matches!(r, Err(FetchFailure::TransportFailure { status: Some(503), .. })));
}

#[test]
fn key_validation() {
    assert_eq!(decode_key(None), None);
    assert_eq!(decode_key(Some(&[0xff, 0xfe][..])), None);
    assert_eq!(decode_key(Some(b"AAA".as_slice())), Some("AAA".to_string()));
    assert_eq!(decode_key(Some("é".as_bytes())), Some("é".to_string()));
}

#[test]
fn many_songs_are_indexed() {
    let raws: Vec<RawSong> = (0..500)
        .map(|i| song(&format!("{:040x}", i * 7919), vec![entry("Standard", "Expert", i)]))
        .collect();
    let db = parse_beatstar(&raws);
    assert_eq!(db.len(), 500);
    for (i, raw) in raws.iter().enumerate() {
        let s = db.get(&raw.hash).unwrap();
        assert_eq!(s.hash, raw.hash);
        assert_eq!(find(s, "Standard", "Expert").unwrap().notes, i as u64);
    }
    assert!(db.get(&format!("{:040x}", 1)).is_none());
}

#[test]
fn insert_replaces_same_hash() {
    let mut db = Database::new();
    db.insert(normalize_song(&song("Q", vec![entry("Standard", "Easy", 1)])));
    db.insert(normalize_song(&song("R", vec![])));
    db.insert(normalize_song(&song("Q", vec![entry("Standard", "Easy", 9)])));
    assert_eq!(db.len(), 2);
    assert_eq!(find(db.get("Q").unwrap(), "Standard", "Easy").unwrap().notes, 9);
}

#[test]
fn failure_codes() {
    assert_eq!(failure_code(None), ERROR_NONE);
    let t = FetchFailure::TransportFailure { status: Some(503), body: String::new() };
    assert_eq!(failure_code(Some(&t)), ERROR_TRANSPORT);
    let d = FetchFailure::DecodeFailure { detail: String::new() };
    assert_eq!(failure_code(Some(&d)), ERROR_DECODE);
    assert_eq!((ERROR_NONE, ERROR_TRANSPORT, ERROR_DECODE), (0, 1, 2));
}
