use maolan_player::path::SongPath;
use maolan_player::playlist::{decode_current, encode_current, PlayerState, Playlist, Playlists};
use maolan_player::pls::{pls_decode, pls_encode};

fn path(text: &str) -> SongPath {
    SongPath::new(text)
}

fn paths(n: usize) -> Vec<SongPath> {
    (0..n)
        .map(|i| path(&format!("/music/song{i}.flac")))
        .collect()
}

fn tab(name: &str, entries: Vec<SongPath>) -> Playlist {
    Playlist {
        name: String::from(name),
        entries,
    }
}

/// What comes back after the store was kept.
fn kept(store: &Playlists) -> Playlists {
    let home = || Some(path("/home/me"));
    let (_, text) = store.save_playlists(home()).expect("save playlists");
    let (_, state) = store.save_state(home()).expect("save state");
    Playlists::load_from(Some(&text), Some(state))
}

#[test]
fn playlist_save_load_round_trip() {
    let store = Playlists {
        playlists: vec![tab("Playlist 1", paths(3)), tab("Playlist 2", paths(2))],
        active_tab: 1,
        current_tab: 0,
        current: Some(1),
    };
    let (file, text) = store
        .save_playlists(Some(path("/home/me")))
        .expect("save playlists");
    let (state_file, state) = store
        .save_state(Some(path("/home/me")))
        .expect("save state");
    assert_eq!(file.display(), "/home/me/.config/maolan/player/playlist.pls");
    assert_eq!(
        state_file.display(),
        "/home/me/.config/maolan/player/player-state.toml"
    );
    // The store is a multi-section Winamp .pls file with playlist
    // sections only — no [player] section, no CurrentN keys.
    assert!(text.contains("[Playlist 1]"));
    assert!(text.contains("[Playlist 2]"));
    assert!(!text.contains("[player]"));
    assert!(!text.contains("Current"));
    assert!(!text.contains("ActiveTab"));
    assert!(text.contains("NumberOfEntries=3"));
    assert!(text.contains("Length1=-1"));
    let loaded = Playlists::load_from(Some(&text), Some(state));
    assert_eq!(loaded, store);
}

#[test]
fn state_round_trips_through_toml_file() {
    let store = Playlists {
        playlists: vec![tab("Rock", paths(3)), tab("Chill", paths(2))],
        active_tab: 1,
        current_tab: 0,
        current: Some(2),
    };
    let (_, state) = store.save_state(Some(path("/h"))).expect("save state");
    assert_eq!(state.active_tab, 1);
    assert_eq!(state.current_tab, 0);
    assert_eq!(encode_current(state.current), 2);
    assert_eq!(kept(&store), store);
}

#[test]
fn state_clamps_across_tabs() {
    let text = "[Rock]\nNumberOfEntries=2\nFile1=/music/song0.flac\nFile2=/music/song1.flac\n\n\
                [Chill]\nNumberOfEntries=3\nFile1=/music/song0.flac\nFile2=/music/song1.flac\nFile3=/music/song2.flac\n";
    let state = PlayerState {
        active_tab: 5,
        current_tab: 7,
        current: decode_current(Some(3)),
    };
    let loaded = Playlists::load_from(Some(text), Some(state));
    assert_eq!(loaded.active_tab, 1);
    assert_eq!(loaded.current_tab, 1);
    assert_eq!(loaded.current, Some(2));
}

#[test]
fn missing_state_file_defaults_to_no_current_tab_zero() {
    let text = "[Rock]\nNumberOfEntries=2\nFile1=/music/song0.flac\nFile2=/music/song1.flac\n";
    let loaded = Playlists::load_from(Some(text), None);
    assert_eq!(loaded.playlists.len(), 1);
    assert_eq!(loaded.active_tab, 0);
    assert_eq!(loaded.current, None);
}

#[test]
fn remove_and_reorder_persist_updated_state() {
    let mut store = Playlists {
        playlists: vec![tab("Rock", paths(3))],
        active_tab: 0,
        current_tab: 0,
        current: Some(2),
    };
    // Removing an earlier entry shifts the current index down; the
    // in-memory change is what save_state persists.
    assert!(store.remove_entry(0, 0));
    assert_eq!(store.current, Some(1));
    assert_eq!(kept(&store).current, Some(1));

    // A reorder remaps the current song to its new index (the app
    // matches paths against the pre-reorder order).
    let before = store.playlists[0].entries.clone();
    let reversed: Vec<SongPath> = store.playlists[0].entries.iter().rev().cloned().collect();
    let current_path = store.current.and_then(|index| before.get(index)).cloned();
    store.playlists[0].reorder(reversed);
    store.current = current_path.and_then(|path| {
        store.playlists[0]
            .entries
            .iter()
            .position(|entry| *entry == path)
    });
    let loaded = kept(&store);
    assert_eq!(loaded.current, store.current);
    assert!(loaded.current.is_some());
}

#[test]
fn pls_decode_reads_standard_single_section_file() {
    // A classic single-[playlist] .pls (as other apps write it) loads
    // as one unnamed tab.
    let text = "[playlist]\n\
                NumberOfEntries=2\n\
                File1=/music/a.flac\n\
                Title1=Alpha\n\
                Length1=-1\n\
                File2=/music/b.mp3\n\
                Title2=Beta\n\
                Length2=180\n";
    let store = pls_decode(text).expect("decode .pls");
    assert_eq!(store.playlists.len(), 1);
    assert_eq!(
        store.playlists[0].entries,
        vec![path("/music/a.flac"), path("/music/b.mp3")]
    );
    assert_eq!(store.playlists[0].name, "");
    assert_eq!(store.active_tab, 0);
}

#[test]
fn only_a_single_section_is_unnamed() {
    let one = "[playlist]\nNumberOfEntries=0\n";
    let two = format!("{one}[Rock]\nNumberOfEntries=0\n");
    let names = |text: &str| -> Vec<String> {
        let store = pls_decode(text).expect("decode .pls");
        store.playlists.into_iter().map(|p| p.name).collect()
    };
    assert_eq!(names(one), vec![""]);
    assert_eq!(names(&two), vec!["playlist", "Rock"]);
    assert_eq!(names("[Rock]\nNumberOfEntries=0\n"), vec!["Rock"]);
    // An unnamed tab is kept as one.
    let store = Playlists {
        playlists: vec![tab("", paths(2))],
        ..Default::default()
    };
    assert_eq!(kept(&store).playlists, store.playlists);
}

#[test]
fn pls_round_trip_preserves_tabs() {
    let store = Playlists {
        playlists: vec![
            tab("Rock", vec![path("/music/a b.flac")]),
            tab("Chill", paths(2)),
        ],
        active_tab: 1,
        ..Default::default()
    };
    let decoded = pls_decode(&pls_encode(&store)).expect("decode");
    // .pls carries playlist content only; state lives elsewhere.
    assert_eq!(decoded.playlists, store.playlists);
    assert_eq!(decoded.active_tab, 0);
}

#[test]
fn pls_decode_rejects_non_pls_text() {
    assert!(pls_decode("").is_none());
    assert!(pls_decode("{\"playlists\": []}").is_none());
    assert!(pls_decode("no equals sign here").is_none());
    assert!(pls_decode("[player]\nActiveTab=0\n").is_none());
    assert!(pls_decode("[Rock]\nNumberOfEntries=1\n").is_none());
}

#[test]
fn pls_text_is_exact() {
    let store = Playlists {
        playlists: vec![
            tab("Rock", vec![path("/m/01. One.flac"), path("/m/two.mp3")]),
            tab("", Vec::new()),
        ],
        ..Default::default()
    };
    assert_eq!(
        pls_encode(&store),
        "[Rock]\nNumberOfEntries=2\nFile1=/m/01. One.flac\nTitle1=01. One\nLength1=-1\n\
         File2=/m/two.mp3\nTitle2=two\nLength2=-1\n\n[]\nNumberOfEntries=0\n\n"
    );
}

#[test]
fn pls_decode_is_lenient_about_layout() {
    let text = "; a comment\n# another\r\n\n  [ Rock ]  \nnumberofentries = 1 \r\n\
                File1 = /m/a=b.flac \nfile2=/no.flac\n[PLAYER]\nanything=1\n";
    let store = pls_decode(text).expect("decode");
    assert_eq!(store.playlists.len(), 1);
    assert_eq!(store.playlists[0].name, "Rock");
    assert_eq!(store.playlists[0].entries, vec![path("/m/a=b.flac")]);
    // A key before any section, a count that is no number, a missing file.
    assert!(pls_decode("File1=/a\n[Rock]\nNumberOfEntries=0\n").is_none());
    assert!(pls_decode("[Rock]\nNumberOfEntries=-1\n").is_none());
    assert!(pls_decode("[Rock]\nNumberOfEntries=1\nfile1=/a\n").is_none());
    // The first of two counts decides, and the first of two files.
    let twice = pls_decode("[R]\nNumberOfEntries=+1\nNumberOfEntries=2\nFile1=/a\nFile1=/b\n");
    assert_eq!(twice.unwrap().playlists[0].entries, vec![path("/a")]);
}

#[test]
fn load_always_keeps_at_least_one_playlist() {
    let loaded = Playlists::load_from(None, None);
    assert_eq!(loaded.playlists.len(), 1);
    assert_eq!(loaded.active_tab, 0);
    let broken = Playlists::load_from(Some("nonsense"), None);
    assert_eq!(broken, Playlists::default());
    let state = PlayerState {
        active_tab: 3,
        current_tab: 1,
        current: Some(4),
    };
    assert_eq!(Playlists::load_from(None, Some(state)), Playlists::default());
}

#[test]
fn nothing_is_kept_without_a_home() {
    let store = Playlists::default();
    assert_eq!(
        store.save_playlists(None).err(),
        Some(String::from("No home directory."))
    );
    assert_eq!(
        store.save_state(None).err(),
        Some(String::from("No home directory."))
    );
    assert!(Playlists::playlist_file(None).is_none());
    assert_eq!(
        Playlists::state_file(Some(path("/h/"))).unwrap().display(),
        "/h/.config/maolan/player/player-state.toml"
    );
}
