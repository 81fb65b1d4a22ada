use maolan_player::files::{
    audio_extensions, collect_audio_files, filter_audio_files, is_supported_audio_file, DirEntry,
};
use maolan_player::path::SongPath;
use maolan_player::text::{is_whitespace, trim};
use maolan_player::title::{
    format_song_title, render_title, song_title, tray_song, AudioMetadata,
};

fn path(text: &str) -> SongPath {
    SongPath::new(text)
}

fn meta(artist: Option<&str>, title: Option<&str>) -> AudioMetadata {
    AudioMetadata {
        artist: artist.map(String::from),
        title: title.map(String::from),
        ..Default::default()
    }
}

#[test]
fn render_title_formats_artist_and_song() {
    let result = render_title(
        &meta(Some("Audioslave"), Some("Cochise")),
        "{artist} - {song}",
        "fallback",
    );
    assert_eq!(result, "Audioslave - Cochise");
}

#[test]
fn render_title_uses_fallback_when_tags_missing() {
    assert_eq!(
        render_title(&meta(None, None), "{artist} - {song}", "01. Cochise"),
        "01. Cochise"
    );
    // A missing artist leaves no dangling separator.
    assert_eq!(
        render_title(
            &meta(None, Some("Cochise")),
            "{artist} - {song}",
            "fallback"
        ),
        "Cochise"
    );
}

#[test]
fn render_title_supports_other_placeholders() {
    let mut m = meta(Some("A"), Some("T"));
    m.album = Some("Album".into());
    m.track_number = Some("3".into());
    m.date = Some("2002".into());
    m.genre = Some("Rock".into());
    assert_eq!(
        render_title(&m, "{track}. {song} ({album}, {date}) [{genre}]", "x"),
        "3. T (Album, 2002) [Rock]"
    );
}

#[test]
fn render_title_collapses_separators_around_missing_tags() {
    let m = meta(Some("A"), Some("T"));
    assert_eq!(render_title(&m, "{artist} - {album} - {song}", "x"), "A - T");
    assert_eq!(render_title(&m, "{artist} - {album} | {song}", "x"), "A - T");
    assert_eq!(render_title(&m, "{artist} - {album} - {date} - {song}", "x"), "A - T");
    assert_eq!(render_title(&m, "{artist} - {album}{date} - {song}", "x"), "A - T");
    assert_eq!(render_title(&m, "{album} - {artist} - {song}", "x"), "A - T");
    assert_eq!(render_title(&m, "{artist} - {song} - {album}", "x"), "A - T");
    assert_eq!(render_title(&m, "{album} - {date}", "x"), "x");
    // A single separator stays between what is there.
    assert_eq!(render_title(&m, "{artist} - {album}{song}", "x"), "A - T");
    assert_eq!(render_title(&m, "{artist}{album} - {song}", "x"), "A - T");
    // Separators that no missing tag stands between stay.
    assert_eq!(render_title(&m, "{artist} -- {song}", "x"), "A -- T");
}

#[test]
fn render_title_keeps_loose_braces_and_drops_unknown_keys() {
    let m = meta(Some("A"), Some("T"));
    assert_eq!(render_title(&m, "{title} {nope}!", "x"), "T !");
    assert_eq!(render_title(&m, "{song} {artist", "x"), "T {artist");
    assert_eq!(render_title(&m, "plain", "x"), "plain");
    assert_eq!(render_title(&m, " -|~ ", "x"), "x");
}

#[test]
fn song_titles_fall_back_to_the_stem() {
    assert_eq!(
        format_song_title(&meta(None, None), &path("/m/a.flac"), "{artist} - {song}"),
        "a"
    );
    assert_eq!(song_title(&path("/m/x.y.mp3")), "x.y");
    assert_eq!(song_title(&path("..")), "Unknown");
    let invalid = SongPath::from_bytes(vec![b'/', 0xff, b'.', b'm', b'p', b'3']);
    assert_eq!(song_title(&invalid), "Unknown");
    assert_eq!(invalid.display(), "/\u{fffd}.mp3");
}

#[test]
fn tray_song_prefers_a_title_that_is_not_blank() {
    assert_eq!(
        tray_song(&meta(Some("A"), Some(" T ")), &path("/m/a.mp3")),
        (String::from("A"), String::from(" T "))
    );
    assert_eq!(
        tray_song(&meta(None, Some("  ")), &path("/m/a.mp3")),
        (String::new(), String::from("a"))
    );
}

#[test]
fn filter_keeps_audio_extensions_case_insensitively() {
    let files = vec![
        path("a.wav"),
        path("b.FLAC"),
        path("c.mp3"),
        path("d.txt"),
        path("e"),
    ];
    let filtered = filter_audio_files(files);
    assert_eq!(
        filtered,
        vec![path("a.wav"), path("b.FLAC"), path("c.mp3")]
    );
    let again = filter_audio_files(filtered.clone());
    assert_eq!(again, filtered);
}

#[test]
fn supported_extensions_are_case_insensitive() {
    assert!(is_supported_audio_file(&path("song.FLAC")));
    assert!(is_supported_audio_file(&path("song.wav")));
    assert!(is_supported_audio_file(&path("song.Opus")));
    assert!(is_supported_audio_file(&path("song.mp4")));
    assert!(!is_supported_audio_file(&path("notes.txt")));
    assert!(!is_supported_audio_file(&path("no_extension")));
    assert!(!is_supported_audio_file(&path(".hidden")));
    for ext in audio_extensions() {
        assert!(is_supported_audio_file(&path(&format!("song.{ext}"))));
    }
    assert_eq!(audio_extensions().len(), 9);
}

#[test]
fn collect_audio_files_walks_recursively_and_sorts() {
    let deep = vec![
        DirEntry::File(path("/t/nested/deep/d.ogg")),
        DirEntry::File(path("/t/nested/deep/cover.png")),
    ];
    let nested = vec![
        DirEntry::File(path("/t/nested/c.WAV")),
        DirEntry::Directory(deep),
    ];
    let dir = vec![
        DirEntry::File(path("/t/b.mp3")),
        DirEntry::Directory(nested),
        DirEntry::Other,
        DirEntry::File(path("/t/a.flac")),
        DirEntry::File(path("/t/notes.txt")),
    ];
    assert_eq!(
        collect_audio_files(&dir),
        vec![
            path("/t/a.flac"),
            path("/t/b.mp3"),
            path("/t/nested/c.WAV"),
            path("/t/nested/deep/d.ogg"),
        ]
    );
}

#[test]
fn collect_audio_files_skips_unreadable_and_empty_dirs() {
    assert!(collect_audio_files(&Vec::new()).is_empty());
    assert!(collect_audio_files(&vec![DirEntry::Directory(Vec::new())]).is_empty());
}

#[test]
fn white_space_is_that_of_char() {
    for code in 0..=0x10_ffffu32 {
        if let Some(c) = char::from_u32(code) {
            assert_eq!(is_whitespace(c), c.is_whitespace(), "{code:x}");
        }
    }
    assert_eq!(trim("\u{3000} a b\t\n"), "a b");
}

#[test]
fn paths_are_the_same_by_their_pieces() {
    let same = |a: &str, b: &str| {
        let expected = std::path::Path::new(a) == std::path::Path::new(b);
        assert_eq!(path(a) == path(b), expected, "{a} {b}");
    };
    for a in ["", ".", "/", "//", "a", "./a", "a/", "a/.", "/a", "a//b", "a/./b", "a/../b", "b"] {
        for b in ["", ".", "/", "//", "a", "./a", "a/", "a/.", "/a", "a//b", "a/./b", "a/../b", "b"] {
            same(a, b);
        }
    }
}

#[test]
fn stems_and_extensions_are_those_of_std() {
    for text in ["", "/", "a", "a.b", "a.b.c", ".a", ".a.b", "..", "x/..", "x/.", "a.", "x/a.mp3/"] {
        let std_path = std::path::Path::new(text);
        let stem = std_path.file_stem().map(|s| s.to_str().unwrap().as_bytes().to_vec());
        let ext = std_path.extension().map(|s| s.to_str().unwrap().as_bytes().to_vec());
        assert_eq!(path(text).file_stem(), stem, "{text}");
        assert_eq!(path(text).extension(), ext, "{text}");
    }
}
