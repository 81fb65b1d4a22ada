use maolan_player::names::{next_playlist_name, resolve_tab_name};
use maolan_player::path::SongPath;
use maolan_player::playlist::{decode_current, encode_current, PlayerState, Playlist, Playlists};

fn path(text: &str) -> SongPath {
    SongPath::new(text)
}

fn paths(n: usize) -> Vec<SongPath> {
    (0..n)
        .map(|i| path(&format!("/music/song{i}.flac")))
        .collect()
}

fn named(names: &[&str]) -> Vec<Playlist> {
    names
        .iter()
        .map(|name| Playlist {
            name: (*name).to_string(),
            entries: Vec::new(),
        })
        .collect()
}

fn tab(name: &str, entries: Vec<SongPath>) -> Playlist {
    Playlist {
        name: String::from(name),
        entries,
    }
}

#[test]
fn shuffled_preserves_entries() {
    let mut playlist = tab("Playlist 1", paths(10));
    let original = playlist.entries.clone();
    let shuffled = playlist.shuffled();
    assert_eq!(shuffled.len(), original.len());
    let mut a: Vec<Vec<u8>> = shuffled.iter().map(|p| p.bytes.clone()).collect();
    let mut b: Vec<Vec<u8>> = original.iter().map(|p| p.bytes.clone()).collect();
    a.sort();
    b.sort();
    assert_eq!(a, b);
    // Does not mutate the playlist itself.
    assert_eq!(playlist.entries, original);
    let _ = &mut playlist;
}

#[test]
fn shuffle_follows_the_generator() {
    // The two numbers drawn from seed 1 are 0x47e4ce4b896cdd1d and
    // 0xabcfa6a8e079651d: positions 2 and 1 change places with 1 and 1.
    let playlist = tab("x", paths(3));
    let order = playlist.shuffled_with(1);
    let first: u64 = 0x47e4_ce4b_896c_dd1d;
    let second: u64 = 0xabcf_a6a8_e079_651d;
    let mut expected = playlist.entries.clone();
    expected.swap(2, (first % 3) as usize);
    expected.swap(1, (second % 2) as usize);
    assert_eq!(order, expected);
    // Seed 0 counts as 1.
    assert_eq!(playlist.shuffled_with(0), order);
}

#[test]
fn sorted_by_titles_orders_case_insensitively() {
    let playlist = tab(
        "Playlist 1",
        vec![
            path("/m/zeta.flac"),
            path("/m/Alpha.flac"),
            path("/m/beta.flac"),
        ],
    );
    let titles = vec![
        String::from("Zeta"),
        String::from("alpha"),
        String::from("Beta"),
    ];
    let sorted = playlist.sorted_by_titles(&titles);
    assert_eq!(
        sorted,
        vec![
            path("/m/Alpha.flac"),
            path("/m/beta.flac"),
            path("/m/zeta.flac"),
        ]
    );
}

#[test]
fn sort_breaks_ties_by_path_and_falls_back_to_stems() {
    let playlist = tab(
        "x",
        vec![
            path("/m/b.flac"),
            path("/m/a.flac"),
            path("/a/Älter.flac"),
            path("/m/0.flac"),
        ],
    );
    let titles = vec![String::from("SAME"), String::from("same")];
    assert_eq!(
        playlist.sorted_by_titles(&titles),
        vec![
            path("/m/0.flac"),
            path("/m/a.flac"),
            path("/m/b.flac"),
            path("/a/Älter.flac"),
        ]
    );
    // Paths are compared piece by piece.
    let pieces = tab("x", vec![path("/a.b/x.mp3"), path("/a/x.mp3")]);
    assert_eq!(
        pieces.sorted_by_texts(&vec![String::new(), String::new()]),
        vec![path("/a/x.mp3"), path("/a.b/x.mp3")]
    );
}

#[test]
fn next_index_advances_until_end() {
    let playlist = tab("Playlist 1", paths(3));
    assert_eq!(playlist.next(0), Some(1));
    assert_eq!(playlist.next(1), Some(2));
    assert_eq!(playlist.next(2), None);
}

#[test]
fn previous_index_goes_to_start() {
    let playlist = tab("Playlist 1", paths(3));
    assert_eq!(playlist.previous(2), Some(1));
    assert_eq!(playlist.previous(1), Some(0));
    assert_eq!(playlist.previous(0), None);
    assert_eq!(playlist.previous(9), None);
    // The two lead back to each other.
    assert_eq!(playlist.next(0).and_then(|i| playlist.previous(i)), Some(0));
    assert_eq!(playlist.previous(2).and_then(|i| playlist.next(i)), Some(2));
}

#[test]
fn add_deduplicates_and_remove_shifts() {
    let mut playlist = tab("Playlist 1", paths(2));
    playlist.add(vec![path("/music/song0.flac")]);
    assert_eq!(playlist.entries.len(), 2);
    playlist.add(vec![path("/music/new.mp3")]);
    assert_eq!(playlist.entries.len(), 3);
    assert!(playlist.remove(0));
    assert_eq!(playlist.entries.len(), 2);
    assert!(!playlist.remove(5));
}

#[test]
fn adding_twice_changes_nothing_and_returns_the_old_length() {
    let mut playlist = tab("x", paths(2));
    // The same path, written otherwise.
    assert_eq!(
        playlist.add(vec![path("/music//./song1.flac"), path("/n.mp3"), path("/n.mp3")]),
        2
    );
    assert_eq!(playlist.entries.len(), 3);
    assert_eq!(playlist.add(vec![path("/n.mp3")]), 3);
    assert_eq!(playlist.entries.len(), 3);
}

#[test]
fn titles_are_file_stems() {
    let playlist = tab("x", vec![path("/m/01. Song.flac"), path("/"), path("/m/.hidden")]);
    assert_eq!(playlist.title(0), "01. Song");
    assert_eq!(playlist.title(1), "Unknown");
    assert_eq!(playlist.title(2), ".hidden");
    assert_eq!(playlist.title(3), "Unknown");
}

#[test]
fn remove_entry_shifts_and_clears_current() {
    let mut store = Playlists {
        playlists: vec![tab("Rock", paths(3))],
        active_tab: 0,
        current_tab: 0,
        current: Some(2),
    };
    // Removing an earlier row shifts the current index down.
    assert!(store.remove_entry(0, 0));
    assert_eq!(store.current, Some(1));
    // Removing the current row clears it.
    assert!(store.remove_entry(0, 1));
    assert_eq!(store.current, None);
    // Removing after the current row leaves it alone.
    let mut store = Playlists {
        playlists: vec![tab("Rock", paths(3))],
        active_tab: 0,
        current_tab: 0,
        current: Some(0),
    };
    assert!(store.remove_entry(0, 2));
    assert_eq!(store.current, Some(0));
    // A removal in another tab does not touch the current song.
    let mut store = Playlists {
        playlists: vec![tab("Rock", paths(3)), tab("Chill", paths(3))],
        active_tab: 1,
        current_tab: 0,
        current: Some(1),
    };
    assert!(store.remove_entry(1, 0));
    assert_eq!(store.current, Some(1));
    assert!(!store.remove_entry(2, 0));
    assert!(!store.remove_entry(0, 3));
}

#[test]
fn clamp_drops_or_moves_the_current_song() {
    let mut store = Playlists {
        playlists: vec![tab("Rock", paths(3)), tab("Empty", Vec::new())],
        active_tab: 0,
        current_tab: 0,
        current: Some(7),
    };
    store.clamp_current();
    assert_eq!(store.current, Some(2));
    store.current_tab = 1;
    store.clamp_current();
    assert_eq!(store.current, None);
    store.current = Some(0);
    store.current_tab = 2;
    store.clamp_current();
    assert_eq!(store.current, None);
}

#[test]
fn active_tab_can_be_changed() {
    let mut store = Playlists {
        playlists: vec![tab("Rock", paths(1)), tab("Chill", Vec::new())],
        active_tab: 1,
        current_tab: 0,
        current: None,
    };
    store.active_mut().add(paths(2));
    assert_eq!(store.active().entries.len(), 2);
    assert_eq!(store.playlists[0].entries.len(), 1);
    let copy = store.clone();
    assert_eq!(copy, store);
    store.active_mut().reorder(Vec::new());
    assert!(copy != store);
}

#[test]
fn current_song_is_stored_as_a_number() {
    assert_eq!(encode_current(Some(3)), 3);
    assert_eq!(encode_current(None), -1);
    assert_eq!(decode_current(Some(3)), Some(3));
    assert_eq!(decode_current(Some(-1)), None);
    assert_eq!(decode_current(Some(-7)), None);
    assert_eq!(decode_current(None), None);
    assert_eq!(
        PlayerState::default(),
        PlayerState {
            active_tab: 0,
            current_tab: 0,
            current: None
        }
    );
}

#[test]
fn next_playlist_name_skips_taken_names() {
    let playlists = named(&["Playlist 1", "Playlist 2"]);
    assert_eq!(next_playlist_name(&playlists), "Playlist 3");
    assert_eq!(next_playlist_name(&[]), "Playlist 1");
    assert_eq!(next_playlist_name(&named(&["Playlist 2"])), "Playlist 1");
}

#[test]
fn resolve_tab_name_trims_and_keeps_unique_names() {
    let playlists = named(&["Rock", "Chill"]);
    assert_eq!(resolve_tab_name(&playlists, 0, "  Jazz  "), "Jazz");
    // Unchanged name is fine for the tab itself.
    assert_eq!(resolve_tab_name(&playlists, 0, "Rock"), "Rock");
    // Whitespace-only or empty draft reverts to the current name.
    assert_eq!(resolve_tab_name(&playlists, 0, "   "), "Rock");
    assert_eq!(resolve_tab_name(&playlists, 1, ""), "Chill");
    // No tab, no name to keep.
    assert_eq!(resolve_tab_name(&playlists, 5, " "), "");
}

#[test]
fn resolve_tab_name_suffixes_collisions() {
    let playlists = named(&["Rock", "Chill"]);
    assert_eq!(resolve_tab_name(&playlists, 1, "Rock"), "Rock (2)");
    let playlists = named(&["Rock", "Rock (2)", "Chill"]);
    assert_eq!(resolve_tab_name(&playlists, 2, "Rock"), "Rock (3)");
    // Renaming the tab that already owns the suffixed name keeps it.
    assert_eq!(resolve_tab_name(&playlists, 1, "Rock (2)"), "Rock (2)");
}
