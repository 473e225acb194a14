use loopmachine::loops::{assign_short_ids, Library, SavedLoop};

fn saved(label: &str, short_id: Option<&str>) -> SavedLoop {
    SavedLoop {
        label: label.to_string(),
        short_id: short_id.map(|s| s.to_string()),
        loop_a_secs: 0.0f32.to_bits(),
        loop_b_secs: 5.0f32.to_bits(),
        pitch_semitones: 0.0f32.to_bits(),
        tempo: 1.0f32.to_bits(),
        notes: String::new(),
    }
}

#[test]
fn test_library_empty() {
    let lib = Library::empty();
    assert!(lib.tracks.is_empty());
}

#[test]
fn test_library_track_for_path_creates_new() {
    let mut lib = Library::empty();
    let track = lib.track_for_path("/test/file.wav");
    assert_eq!(track.track_path, "/test/file.wav");
    assert_eq!(track.label, "file");
    assert!(track.loops.is_empty());
    assert!(track.markers.is_empty());
}

#[test]
fn test_library_track_for_path_reuses_existing() {
    let mut lib = Library::empty();
    lib.track_for_path("/test/file.wav");
    let len_before = lib.tracks.len();
    let _ = lib.track_for_path("/test/file.wav");
    assert_eq!(
        lib.tracks.len(),
        len_before,
        "zelfde pad mag geen nieuwe track aanmaken"
    );
}

#[test]
fn test_generate_label_first_loop() {
    let mut lib = Library::empty();
    lib.track_for_path("/test/song.wav");
    let label = lib.generate_label("/test/song.wav");
    assert_eq!(label, "song - Loop 1");
}

#[test]
fn test_generate_label_increment() {
    let mut lib = Library::empty();
    let track_path = "/test/song.wav";
    lib.track_for_path(track_path);

    let saved = SavedLoop {
        label: "first".to_string(),
        short_id: None,
        loop_a_secs: 0.0f32.to_bits(),
        loop_b_secs: 5.0f32.to_bits(),
        pitch_semitones: 0.0f32.to_bits(),
        tempo: 1.0f32.to_bits(),
        notes: String::new(),
    };
    lib.add_loop(track_path, saved);

    let label = lib.generate_label(track_path);
    assert_eq!(label, "song - Loop 2");
}

#[test]
fn test_add_loop_assigns_short_id() {
    let mut lib = Library::empty();
    let track_path = "/test/song.wav";
    lib.track_for_path(track_path);

    let saved = SavedLoop {
        label: "first".to_string(),
        short_id: None,
        loop_a_secs: 0.0f32.to_bits(),
        loop_b_secs: 5.0f32.to_bits(),
        pitch_semitones: 0.0f32.to_bits(),
        tempo: 1.0f32.to_bits(),
        notes: String::new(),
    };
    lib.add_loop(track_path, saved);

    let track = lib.track_for_path(track_path);
    assert_eq!(track.loops.len(), 1);
    assert_eq!(track.loops[0].short_id, Some("a".to_string()));
}

#[test]
fn test_add_loop_increments_and_assigns_sequential_ids() {
    let mut lib = Library::empty();
    let track_path = "/test/song.wav";
    lib.track_for_path(track_path);

    for i in 0..3 {
        let saved = SavedLoop {
            label: format!("loop {}", i),
            short_id: None,
            loop_a_secs: 0.0f32.to_bits(),
            loop_b_secs: 5.0f32.to_bits(),
            pitch_semitones: 0.0f32.to_bits(),
            tempo: 1.0f32.to_bits(),
            notes: String::new(),
        };
        lib.add_loop(track_path, saved);
    }

    let track = lib.track_for_path(track_path);
    assert_eq!(track.loops.len(), 3);
    assert_eq!(track.loops[0].short_id, Some("a".to_string()));
    assert_eq!(track.loops[1].short_id, Some("b".to_string()));
    assert_eq!(track.loops[2].short_id, Some("c".to_string()));
}

#[test]
fn test_assign_short_ids_fixes_duplicates() {
    let mut lib = Library::empty();
    let track = lib.track_for_path("/test/dupes.wav");
    track.loops.push(SavedLoop {
        label: "dup1".to_string(),
        short_id: Some("a".to_string()),
        loop_a_secs: 0.0f32.to_bits(),
        loop_b_secs: 5.0f32.to_bits(),
        pitch_semitones: 0.0f32.to_bits(),
        tempo: 1.0f32.to_bits(),
        notes: String::new(),
    });
    track.loops.push(SavedLoop {
        label: "dup2".to_string(),
        short_id: Some("a".to_string()),
        loop_a_secs: 0.0f32.to_bits(),
        loop_b_secs: 5.0f32.to_bits(),
        pitch_semitones: 0.0f32.to_bits(),
        tempo: 1.0f32.to_bits(),
        notes: String::new(),
    });
    track.loops.push(SavedLoop {
        label: "dup3".to_string(),
        short_id: None,
        loop_a_secs: 0.0f32.to_bits(),
        loop_b_secs: 5.0f32.to_bits(),
        pitch_semitones: 0.0f32.to_bits(),
        tempo: 1.0f32.to_bits(),
        notes: String::new(),
    });

    assign_short_ids(&mut lib);

    let ids: Vec<Option<String>> = lib.tracks[0]
        .loops
        .iter()
        .map(|l| l.short_id.clone())
        .collect();
    assert_eq!(ids[0].as_deref(), Some("a"));
    assert_eq!(ids[1].as_deref(), Some("b"));
    assert_eq!(ids[2].as_deref(), Some("c"));

    let mut unique: Vec<&str> = ids.iter().filter_map(|o| o.as_deref()).collect();
    unique.sort();
    unique.dedup();
    assert_eq!(unique.len(), ids.len(), "IDs mogen geen duplicaten hebben");
}

#[test]
fn track_without_stem_is_labelled_onbekend() {
    let mut lib = Library::empty();
    assert_eq!(lib.track_for_path("").label, "Onbekend");
    assert_eq!(lib.track_for_path("/").label, "Onbekend");
    assert_eq!(lib.track_for_path("/music/archive.tar.gz").label, "archive.tar");
    assert_eq!(lib.track_for_path("/music/.hidden").label, ".hidden");
    assert_eq!(lib.tracks.len(), 4);
}

#[test]
fn track_for_path_labelled_uses_given_label_only_for_new_tracks() {
    let mut lib = Library::empty();
    assert_eq!(lib.track_for_path_labelled("/x.wav", "first".to_string()).label, "first");
    assert_eq!(lib.track_for_path_labelled("/x.wav", "second".to_string()).label, "first");
    assert_eq!(lib.tracks.len(), 1);
}

#[test]
fn label_for_new_loop_counts_loops_of_all_tracks_with_the_path() {
    let mut lib = Library::empty();
    lib.add_loop("/a.wav", saved("x", None));
    lib.add_loop("/a.wav", saved("y", None));
    lib.add_loop("/b.wav", saved("z", None));
    assert_eq!(lib.label_for_new_loop("/a.wav", "Stem"), "Stem - Loop 3");
    assert_eq!(lib.label_for_new_loop("/b.wav", "B"), "B - Loop 2");
    assert_eq!(lib.label_for_new_loop("/c.wav", "C"), "C - Loop 1");
    assert_eq!(lib.generate_label("/a.wav"), "a - Loop 3");
}

#[test]
fn add_loop_creates_track_and_skips_taken_ids() {
    let mut lib = Library::empty();
    assert_eq!(lib.add_loop("/new.wav", saved("one", Some("zz"))), 1);
    assert_eq!(lib.tracks.len(), 1);
    assert_eq!(lib.tracks[0].label, "new");
    assert_eq!(lib.tracks[0].loops[0].short_id.as_deref(), Some("a"));
    lib.tracks[0].loops[0].short_id = Some("b".to_string());
    assert_eq!(lib.add_loop("/new.wav", saved("two", None)), 2);
    assert_eq!(lib.tracks[0].loops[1].short_id.as_deref(), Some("a"));
    assert_eq!(lib.add_loop("/new.wav", saved("three", None)), 3);
    assert_eq!(lib.tracks[0].loops[2].short_id.as_deref(), Some("c"));
    assert_eq!(lib.tracks[0].loops[2].label, "three");
}

#[test]
fn assign_short_ids_reports_changes() {
    let mut lib = Library::empty();
    lib.track_for_path("/t.wav").loops.push(saved("a", Some("a")));
    lib.track_for_path("/t.wav").loops.push(saved("b", Some("b")));
    assert!(!assign_short_ids(&mut lib));
    lib.track_for_path("/t.wav").loops.push(saved("c", None));
    assert!(assign_short_ids(&mut lib));
    assert_eq!(lib.tracks[0].loops[2].short_id.as_deref(), Some("c"));
    assert!(!assign_short_ids(&mut lib));
}

#[test]
fn assign_short_ids_avoids_later_kept_ids() {
    // A missing identifier before a loop that holds "a": "a" stays with the
    // second loop, so the first one gets "b".
    let mut lib = Library::empty();
    lib.track_for_path("/t.wav").loops.push(saved("first", None));
    lib.track_for_path("/t.wav").loops.push(saved("second", Some("a")));
    assert!(assign_short_ids(&mut lib));
    assert_eq!(lib.tracks[0].loops[0].short_id.as_deref(), Some("b"));
    assert_eq!(lib.tracks[0].loops[1].short_id.as_deref(), Some("a"));
}

#[test]
fn assign_short_ids_mixed_track_has_no_duplicates() {
    let mut lib = Library::empty();
    for (label, id) in [("p", Some("b")), ("q", None), ("r", Some("b")), ("s", Some("a")), ("t", None), ("u", Some("c"))] {
        lib.track_for_path("/mix.wav").loops.push(saved(label, id));
    }
    assert!(assign_short_ids(&mut lib));
    let ids: Vec<&str> = lib.tracks[0].loops.iter().map(|l| l.short_id.as_deref().unwrap()).collect();
    // Kept: b (first), a, c. Handed out in order, avoiding a, b, c: d, e, f.
    assert_eq!(ids, vec!["b", "d", "e", "a", "f", "c"]);
    let mut unique = ids.clone();
    unique.sort();
    unique.dedup();
    assert_eq!(unique.len(), ids.len());
}

#[test]
fn assign_short_ids_works_per_track() {
    let mut lib = Library::empty();
    lib.track_for_path("/1.wav").loops.push(saved("x", None));
    lib.track_for_path("/2.wav").loops.push(saved("y", None));
    lib.track_for_path("/2.wav").loops.push(saved("z", Some("a")));
    assign_short_ids(&mut lib);
    assert_eq!(lib.tracks[0].loops[0].short_id.as_deref(), Some("a"));
    assert_eq!(lib.tracks[1].loops[0].short_id.as_deref(), Some("b"));
    assert_eq!(lib.tracks[1].loops[1].short_id.as_deref(), Some("a"));
}

fn old_loop(path: &str, label: &str, a: f32) -> loopmachine::loops::OldSavedLoop {
    loopmachine::loops::OldSavedLoop {
        track_path: path.to_string(),
        label: label.to_string(),
        loop_a_secs: a.to_bits(),
        loop_b_secs: 3.0f32.to_bits(),
        pitch_semitones: 0.0f32.to_bits(),
        tempo: 1.0f32.to_bits(),
    }
}

#[test]
fn migrate_old_loops_groups_by_track_in_first_order() {
    let lib = loopmachine::loops::migrate_old_loops(vec![
        old_loop("/m/one.wav", "x", 1.0),
        old_loop("/m/two.wav", "y", 2.0),
        old_loop("/m/one.wav", "z", 4.0),
    ]);
    assert_eq!(lib.tracks.len(), 2);
    assert_eq!(lib.tracks[0].track_path, "/m/one.wav");
    assert_eq!(lib.tracks[0].label, "one");
    assert_eq!(lib.tracks[1].track_path, "/m/two.wav");
    let one: Vec<(&str, Option<&str>, f32)> = lib.tracks[0]
        .loops
        .iter()
        .map(|l| (l.label.as_str(), l.short_id.as_deref(), f32::from_bits(l.loop_a_secs)))
        .collect();
    assert_eq!(one, vec![("x", Some("a"), 1.0), ("z", Some("b"), 4.0)]);
    assert_eq!(lib.tracks[1].loops[0].short_id.as_deref(), Some("a"));
    assert!(lib.tracks.iter().all(|t| t.loops.iter().all(|l| l.notes.is_empty())));
    assert!(lib.tracks.iter().all(|t| t.markers.is_empty()));
}

#[test]
fn migrate_no_old_loops_gives_empty_library() {
    assert!(loopmachine::loops::migrate_old_loops(Vec::new()).tracks.is_empty());
}

/// The file name of a path whose parts are separated by '/' alone: its last
/// component, passing over trailing '/'s and "." components.
fn portable_file_name(p: &[char]) -> Option<Vec<char>> {
    if p.is_empty() {
        return None;
    }
    if *p.last().unwrap() == '/' {
        return portable_file_name(&p[..p.len() - 1]);
    }
    let start = p.iter().rposition(|&c| c == '/').map(|i| i + 1).unwrap_or(0);
    let (rest, seg) = p.split_at(start);
    if seg == ['.'] {
        if rest.is_empty() {
            None
        } else {
            portable_file_name(rest)
        }
    } else if seg == ['.', '.'] {
        None
    } else {
        Some(seg.to_vec())
    }
}

fn portable_stem(p: &str) -> Option<String> {
    let chars: Vec<char> = p.chars().collect();
    portable_file_name(&chars).map(|name| {
        match name.iter().rposition(|&c| c == '.') {
            Some(k) if k > 0 => name[..k].iter().collect(),
            _ => name.iter().collect(),
        }
    })
}

const PORTABLE_PATHS: [&str; 27] = [
    "/test/file.wav",
    "song.mp3",
    "a/b/c.tar.gz",
    ".hidden",
    "dir/.hidden.txt",
    "x/..",
    "x/.",
    "x/./",
    ".",
    "./",
    "",
    "/",
    "a//b.wav",
    "a/b/",
    "..a",
    "...",
    "foo.",
    "/.",
    "./.",
    "../up.wav",
    "a/../b.c",
    "muziek/ñandú.flac",
    "a.b/c",
    "/opnames/take 1.final.wav/",
    "./track.ogg",
    "..",
    "/a/b/../..",
];

#[test]
fn file_stem_matches_std_on_portable_paths() {
    for p in PORTABLE_PATHS {
        let std_stem = std::path::Path::new(p)
            .file_stem()
            .map(|s| s.to_string_lossy().into_owned());
        assert_eq!(portable_stem(p), std_stem, "path {:?}", p);
    }
}

#[test]
fn stem_label_is_the_file_stem_or_onbekend() {
    for p in PORTABLE_PATHS {
        let expected = portable_stem(p).unwrap_or_else(|| "Onbekend".to_string());
        assert_eq!(loopmachine::loops::stem_label(p), expected, "path {:?}", p);
    }
    assert_eq!(loopmachine::loops::stem_label("/test/file.wav"), "file");
    assert_eq!(loopmachine::loops::stem_label("/music/"), "music");
    assert_eq!(loopmachine::loops::stem_label("/music/.."), "Onbekend");
}

#[test]
fn new_track_labels_follow_the_path() {
    let mut lib = Library::empty();
    assert_eq!(lib.track_for_path("/x/a.b.wav").label, "a.b");
    assert_eq!(lib.track_for_path("/x/.cfg").label, ".cfg");
    assert_eq!(lib.track_for_path("/").label, "Onbekend");
    assert_eq!(lib.generate_label("/y/song.wav"), "song - Loop 1");
}

#[test]
fn loop_with_short_id_finds_the_first_match() {
    let mut lib = Library::empty();
    let track = lib.track_for_path("/t.wav");
    track.loops.push(saved("one", None));
    track.loops.push(saved("two", Some("b")));
    track.loops.push(saved("three", Some("b")));
    let track = lib.track_for_path("/t.wav");
    assert_eq!(track.loop_with_short_id("b"), Some(1));
    assert_eq!(track.loop_with_short_id("a"), None);
    assert_eq!(track.loop_with_short_id(""), None);
}
