use maolan_player::app::{
    Effect, LoadedSong, Message, PlayerApp, Readings, SeekPoint, TransportSnapshot,
};
use maolan_player::device::{Backend, Host, Platform};
use maolan_player::engine::EngineRequest;
use maolan_player::input::{key_message, resumed_message, shortcut, tray_message, KeyPress};
use maolan_player::path::SongPath;
use maolan_player::playlist::{Playlist, Playlists};
use maolan_player::settings::{Level, Settings};
use maolan_player::setup::SetupAction;
use maolan_player::title::AudioMetadata;
use maolan_player::tray::TrayEvent;
use maolan_player::update::{can_update, new, update};
use maolan_player::view::{format_time, playlist_rows, view};

fn path(text: &str) -> SongPath {
    SongPath::new(text)
}

fn host() -> Host {
    Host {
        platform: Platform::Linux,
        sound_unit: None,
        descriptors: Vec::new(),
        pcm_listing: String::from("00-03: HDMI 0 : HDMI 0 : playback 1\n"),
    }
}

fn at(now_nanos: u64) -> Readings {
    Readings {
        now_nanos,
        transport: None,
        levels: None,
        host: host(),
    }
}

fn playing_at(sample: usize) -> Readings {
    Readings {
        transport: Some(TransportSnapshot {
            playing: true,
            sample,
        }),
        ..at(0)
    }
}

fn level(db: f32) -> Level {
    Level { bits: db.to_bits() }
}

fn tab(name: &str, songs: &[&str]) -> Playlist {
    Playlist {
        name: String::from(name),
        entries: songs.iter().map(|s| path(s)).collect(),
    }
}

/// A player with one empty playlist tab.
fn test_app() -> PlayerApp {
    PlayerApp {
        engine_ready: false,
        status: String::new(),
        playlists: Playlists {
            playlists: vec![Playlist::default()],
            active_tab: 0,
            current_tab: 0,
            current: None,
        },
        titles: Vec::new(),
        selected: None,
        playing: false,
        paused: false,
        paused_position: None,
        song_length_frames: 0,
        position_frames: 0,
        seek: None,
        last_row_press: None,
        last_tab_press: None,
        renaming_tab: None,
        rename_draft: String::new(),
        volume_db: level(0.0),
        levels_db: vec![level(-90.0), level(-90.0)],
        loop_playlist: false,
        title_format_edit: String::new(),
        playlist_revision: 0,
        main_window: None,
        settings: Settings::default_on(&host()),
        device_override: None,
        show_settings: false,
        setup: None,
        tray_song: None,
        tray_pushed_secs: None,
    }
}

/// A player with two tabs, an engine and titles.
fn busy_app() -> PlayerApp {
    let mut app = test_app();
    app.engine_ready = true;
    app.playlists.playlists = vec![
        tab("Rock", &["/m/a.flac", "/m/b.flac", "/m/c.flac"]),
        tab("Chill", &["/n/x.mp3", "/n/y.mp3"]),
    ];
    app.titles = vec![String::from("A"), String::from("B"), String::from("C")];
    app
}

/// Handles a message, and the reads that follow at once.
fn tell(app: &mut PlayerApp, message: Message, readings: &Readings) -> Vec<String> {
    let effects = update(app, message, readings);
    let mut told = Vec::new();
    for effect in effects {
        told.push(shorthand(&effect));
        match effect {
            Effect::ReadTitles(paths) => {
                let tags = paths.iter().map(|_| AudioMetadata::default()).collect();
                assert!(update(app, Message::TitlesRead(tags), readings).is_empty());
            }
            Effect::ReadSongTags(path) => {
                let tags = AudioMetadata {
                    artist: Some(String::from("Artist")),
                    ..Default::default()
                };
                assert!(update(app, Message::SongTagsRead(path, tags), readings).is_empty());
            }
            Effect::PlayIndex(index) => told.extend(tell(app, Message::PlayIndex(index), readings)),
            _ => {}
        }
    }
    told
}

fn shorthand(effect: &Effect) -> String {
    match effect {
        Effect::PickFiles => String::from("pick files"),
        Effect::PickFolder => String::from("pick folder"),
        Effect::SavePlaylists(text) => format!("save {} lines", text.lines().count()),
        Effect::SaveState(state) => format!(
            "state {}/{}/{:?}",
            state.active_tab, state.current_tab, state.current
        ),
        Effect::SaveSettings { settings, report } => {
            format!("settings {} {report}", settings.device_id)
        }
        Effect::ReadTitles(paths) => format!("titles {}", paths.len()),
        Effect::ReadSongTags(path) => format!("tags {}", path.display()),
        Effect::PlayIndex(index) => format!("index {index}"),
        Effect::PushTooltip(info) => format!(
            "tooltip {:?} {}/{}",
            info.song, info.elapsed_secs, info.total_secs
        ),
        Effect::SendEngine(request) => match request {
            EngineRequest::Stop => String::from("stop"),
            EngineRequest::TransportPosition(frames) => format!("seek {frames}"),
            EngineRequest::TrackLevel(track, level) => {
                format!("level {track} {}", f32::from_bits(level.bits))
            }
            _ => unreachable!(),
        },
        Effect::PlaySong(path) => format!("play {}", path.display()),
        Effect::ResumeSong(frames) => format!("resume {frames}"),
        Effect::OpenEngine { device, .. } => format!("open {device}"),
        Effect::ReopenEngine {
            device,
            period_frames,
            n_periods,
            ring_buffer_multiplier,
        } => format!("reopen {device} {period_frames}x{n_periods} {ring_buffer_multiplier}"),
        Effect::InitTray => String::from("tray"),
        Effect::FocusRenameInput => String::from("focus input"),
        Effect::OpenWindow => String::from("open window"),
        Effect::FocusWindow(id) => format!("focus {id}"),
        Effect::CloseWindow(id) => format!("close {id}"),
        Effect::Exit => String::from("exit"),
    }
}

fn rows(titles: &[&str]) -> usize {
    let entries: Vec<SongPath> = (0..titles.len())
        .map(|i| path(&format!("/music/song{i}.flac")))
        .collect();
    let titles: Vec<String> = titles.iter().map(|title| (*title).to_string()).collect();
    playlist_rows(&entries, &titles, None, None, true, true).len()
}

#[test]
fn appending_rows_reconciles_tree() {
    assert_eq!(rows(&["a", "b"]), 2);
    assert_eq!(rows(&["a", "b", "c"]), 3);
}

#[test]
fn removing_rows_reconciles_tree() {
    assert_eq!(rows(&["a", "b", "c"]), 3);
    assert_eq!(rows(&["a"]), 1);
}

#[test]
fn unchanged_revision_keeps_cached_rows() {
    let mut app = test_app();
    app.engine_ready = true;
    app.playlists.playlists[0].entries = vec![path("/music/song0.flac"), path("/music/song1.flac")];
    app.titles = vec![String::from("a"), String::from("b")];
    app.playlist_revision = 7;
    let key = view(&app).rows_key;
    // A meter tick: the view is rebuilt with the same revision.
    for _ in 0..10 {
        tell(&mut app, Message::MeterTick, &at(0));
        assert_eq!(view(&app).rows_key, key);
        assert_eq!(view(&app).rows.len(), 2);
    }
}

#[test]
fn files_added_rows_reconcile_in_real_view() {
    let mut app = test_app();
    assert!(view(&app).shows_hint);
    assert_eq!(view(&app).rows.len(), 0);
    let files = vec![path("/nonexistent/a.flac"), path("/nonexistent/b.flac")];
    let told = tell(&mut app, Message::FilesAdded(files), &at(0));
    assert_eq!(told, vec!["save 9 lines", "titles 2"]);
    // The empty-state hint is replaced by one row per entry.
    assert!(!view(&app).shows_hint);
    assert_eq!(view(&app).rows.len(), 2);
    assert_eq!(app.selected, Some(0));
    assert_eq!(app.status, "Files added.");
}

#[test]
fn files_added_after_unchanged_redraws_reconciles() {
    let mut app = test_app();
    tell(
        &mut app,
        Message::FilesAdded(vec![path("/nonexistent/a.flac")]),
        &at(0),
    );
    for _ in 0..10 {
        assert_eq!(view(&app).rows.len(), 1);
    }
    let before = view(&app).rows_key;
    tell(
        &mut app,
        Message::FilesAdded(vec![path("/nonexistent/b.flac")]),
        &at(0),
    );
    assert!(view(&app).rows_key != before);
    assert_eq!(view(&app).rows.len(), 2);
}

#[test]
fn selection_change_rebuilds_rows() {
    let mut app = test_app();
    app.playlists
        .active_mut()
        .add(vec![path("/nonexistent/a.flac")]);
    let revision_before = app.playlist_revision;
    let _ = update(&mut app, Message::Select(0), &at(0));
    assert!(app.playlist_revision > revision_before);
    // One entry: the hint is gone, one row remains.
    let shown = view(&app);
    assert!(!shown.shows_hint);
    assert_eq!(shown.rows.len(), 1);
    assert!(shown.rows[0].is_selected);
    assert!(!shown.rows[0].enabled);
}

#[test]
fn added_entries_get_titles() {
    let mut app = test_app();
    tell(
        &mut app,
        Message::FilesAdded(vec![path("/nonexistent/a.flac")]),
        &at(0),
    );
    assert_eq!(app.titles.len(), app.playlists.active().entries.len());
    assert_eq!(app.titles[0], "a");
    // Tags that are missing leave the stem.
    update(&mut app, Message::TitlesRead(Vec::new()), &at(0));
    assert_eq!(app.titles, vec!["a"]);
}

#[test]
fn a_new_player_is_hidden_and_opens_its_engine() {
    let mut settings = Settings::default_on(&host());
    settings.volume_db = level(-6.0);
    settings.loop_playlist = true;
    let (app, effects) = new(Playlists::default(), settings, Some(String::from("jack")));
    let told: Vec<String> = effects.iter().map(shorthand).collect();
    assert_eq!(told, vec!["titles 0", "tray", "open jack"]);
    assert_eq!(app.status, "Starting audio engine...");
    assert_eq!(app.main_window, None);
    assert!(app.loop_playlist);
    assert_eq!(app.volume_db, level(-6.0));
    assert_eq!(app.levels_db, vec![level(-90.0), level(-90.0)]);
    assert_eq!(app.settings.device_id, "default");
}

#[test]
fn engine_reports_are_shown() {
    let mut app = test_app();
    app.volume_db = level(-12.0);
    tell(
        &mut app,
        Message::EngineReady(Err(String::from("no device"))),
        &at(0),
    );
    assert_eq!(app.status, "Engine error: no device");
    assert!(!app.engine_ready);
    let told = tell(&mut app, Message::EngineReady(Ok(())), &at(0));
    assert_eq!(told, vec!["level hw:out -12"]);
    assert_eq!(app.status, "Ready.");
    assert!(app.engine_ready);
}

#[test]
fn files_without_songs_are_refused() {
    let mut app = busy_app();
    let told = tell(&mut app, Message::FilesAdded(vec![path("/a.txt")]), &at(0));
    assert!(told.is_empty());
    assert_eq!(app.status, "No supported audio files found.");
    assert_eq!(tell(&mut app, Message::AddFilesPressed, &at(0)), vec!["pick files"]);
    assert_eq!(tell(&mut app, Message::AddFolderPressed, &at(0)), vec!["pick folder"]);
}

#[test]
fn a_double_click_plays_a_row() {
    let mut app = busy_app();
    assert!(tell(&mut app, Message::RowPressed(1), &at(1_000_000_000)).is_empty());
    assert_eq!(app.selected, Some(1));
    // Another row, and the same row too late.
    assert!(tell(&mut app, Message::RowPressed(2), &at(1_100_000_000)).is_empty());
    assert!(tell(&mut app, Message::RowPressed(2), &at(1_500_000_000)).is_empty());
    let told = tell(&mut app, Message::RowPressed(2), &at(1_899_999_999));
    assert_eq!(
        told,
        vec!["tags /m/c.flac", "state 0/0/Some(2)", "play /m/c.flac"]
    );
    assert_eq!(app.status, "Loading C...");
    assert_eq!(app.tray_song, Some((String::from("Artist"), String::from("c"))));
    // The third press is a first one again.
    assert!(tell(&mut app, Message::RowPressed(2), &at(1_900_000_000)).is_empty());
}

#[test]
fn a_song_that_loads_plays_from_its_beginning() {
    let mut app = busy_app();
    tell(&mut app, Message::PlayIndex(1), &at(0));
    let told = tell(
        &mut app,
        Message::SongLoaded(Ok(LoadedSong {
            length_frames: 96_000,
        })),
        &at(0),
    );
    assert_eq!(told, vec!["tooltip Some(\"b\") 0/2"]);
    assert!(app.playing && !app.paused);
    assert_eq!(app.status, "B");
    assert!(view(&app).rows[1].is_current);
    assert!(view(&app).controls.shows_pause);
    let told = tell(&mut app, Message::SongLoaded(Err(String::from("broken"))), &at(0));
    assert_eq!(told, vec!["tooltip None 0/2"]);
    assert_eq!(app.status, "broken");
    assert!(!app.playing);
}

#[test]
fn vain_requests_to_play_change_nothing() {
    let mut app = busy_app();
    assert!(tell(&mut app, Message::PlayIndex(3), &at(0)).is_empty());
    assert!(tell(&mut app, Message::PlaySelected, &at(0)).is_empty());
    assert!(tell(&mut app, Message::PlayCurrent, &at(0)).is_empty());
    app.engine_ready = false;
    assert!(tell(&mut app, Message::PlayIndex(0), &at(0)).is_empty());
    assert_eq!(app.playlists.current, None);
}

#[test]
fn pause_remembers_and_stop_forgets() {
    let mut app = busy_app();
    app.playing = true;
    assert_eq!(tell(&mut app, Message::PausePressed, &playing_at(4800)), vec!["stop"]);
    assert_eq!(app.paused_position, Some(4800));
    // Pausing twice does nothing; the toggle goes on.
    assert!(tell(&mut app, Message::PausePressed, &playing_at(9)).is_empty());
    assert_eq!(tell(&mut app, Message::PlayToggled, &playing_at(9)), vec!["resume 4800"]);
    assert!(app.playing && !app.paused);
    assert_eq!(app.position_frames, 4800);
    assert!(tell(&mut app, Message::PlayPressed, &at(0)).is_empty());
    // Without a snapshot the last position counts.
    assert_eq!(tell(&mut app, Message::PlayToggled, &at(0)), vec!["stop"]);
    assert_eq!(app.paused_position, Some(4800));
    assert_eq!(
        tell(&mut app, Message::StopPressed, &at(0)),
        vec!["tooltip None 0/0", "stop"]
    );
    assert_eq!(app.paused_position, None);
    app.selected = Some(0);
    let told = tell(&mut app, Message::PlayPressed, &at(0));
    assert_eq!(told.last().unwrap(), "play /m/a.flac");
}

#[test]
fn a_seek_while_paused_moves_the_resume_point() {
    let mut app = busy_app();
    app.playing = true;
    tell(&mut app, Message::PausePressed, &playing_at(10));
    assert!(tell(&mut app, Message::PositionReleased, &at(0)).is_empty());
    let point = SeekPoint {
        seconds_bits: 2.0f32.to_bits(),
        frames: 96_000,
    };
    tell(&mut app, Message::PositionChanged(point), &at(0));
    assert_eq!(app.seek, Some(point));
    assert_eq!(tell(&mut app, Message::PositionReleased, &at(0)), vec!["seek 96000"]);
    assert_eq!(app.seek, None);
    assert_eq!(tell(&mut app, Message::PlayPressed, &at(0)), vec!["resume 96000"]);
}

#[test]
fn playing_goes_on_where_it_was_paused() {
    let mut app = busy_app();
    app.playing = true;
    app.position_frames = 7;
    let told = app.pause_as_stop(None);
    assert_eq!(told.iter().map(shorthand).collect::<Vec<_>>(), vec!["stop"]);
    assert!(app.paused);
    assert_eq!(app.paused_position, Some(7));
    let told = app.resume_playback();
    assert_eq!(told.iter().map(shorthand).collect::<Vec<_>>(), vec!["resume 7"]);
    assert!(app.playing && !app.paused);
    assert_eq!(app.position_frames, 7);
    assert_eq!(app.paused_position, None);
    // Nothing is left to go on with.
    assert!(app.resume_playback().is_empty());
}

#[test]
fn switching_songs_forgets_the_paused_position() {
    let mut app = busy_app();
    app.playing = true;
    app.playlists.current = Some(0);
    tell(&mut app, Message::PausePressed, &playing_at(10));
    let told = tell(&mut app, Message::NextPressed, &at(0));
    assert_eq!(told.last().unwrap(), "play /m/b.flac");
    assert_eq!(app.paused_position, None);
}

#[test]
fn next_and_previous_switch_songs() {
    let mut app = busy_app();
    // No current song: next starts with the first one.
    assert_eq!(
        tell(&mut app, Message::NextPressed, &at(0)).last().unwrap(),
        "play /m/a.flac"
    );
    assert!(tell(&mut app, Message::PreviousPressed, &at(0)).is_empty());
    tell(&mut app, Message::PlayIndex(2), &at(0));
    // After the last song the first one follows.
    assert_eq!(
        tell(&mut app, Message::NextPressed, &at(0)).last().unwrap(),
        "play /m/a.flac"
    );
    tell(&mut app, Message::PlayIndex(2), &at(0));
    assert_eq!(
        tell(&mut app, Message::PreviousPressed, &at(0)).last().unwrap(),
        "play /m/b.flac"
    );
    // A single song has no next one.
    app.playlists.playlists[0].entries.truncate(1);
    app.playlists.current = Some(0);
    assert_eq!(
        tell(&mut app, Message::NextPressed, &at(0)),
        vec!["tooltip None 0/0", "stop"]
    );
}

#[test]
fn songs_follow_each_other() {
    let mut app = busy_app();
    app.playing = true;
    app.song_length_frames = 48_000;
    app.playlists.current = Some(1);
    app.tray_pushed_secs = Some(0);
    assert!(tell(&mut app, Message::Tick, &playing_at(47_999)).is_empty());
    assert_eq!(app.position_frames, 47_999);
    let told = tell(&mut app, Message::Tick, &playing_at(48_000));
    assert_eq!(
        told,
        vec![
            "tooltip None 1/1",
            "tags /m/c.flac",
            "state 0/0/Some(2)",
            "play /m/c.flac"
        ]
    );
    // After the last one, only a loop goes on.
    let told = tell(&mut app, Message::Tick, &playing_at(50_000));
    assert_eq!(told, vec!["tooltip None 0/1", "stop"]);
    assert!(!app.playing);
    app.playing = true;
    tell(&mut app, Message::LoopToggled, &at(0));
    assert!(app.settings.loop_playlist);
    let told = tell(&mut app, Message::Tick, &playing_at(50_000));
    assert_eq!(told.last().unwrap(), "play /m/a.flac");
}

#[test]
fn neighbours_are_songs_of_the_current_tab() {
    let elsewhere = || {
        let mut app = busy_app();
        app.playing = true;
        app.song_length_frames = 10;
        app.tray_pushed_secs = Some(0);
        app.playlists.current = Some(1);
        app.playlists.active_tab = 1;
        app.titles = vec![String::from("X"), String::from("Y")];
        app
    };
    let follow = |song: &str, index: usize| {
        vec![
            format!("state 0/0/{:?}", Some(1)),
            String::from("titles 3"),
            format!("index {index}"),
            format!("tags {song}"),
            format!("state 0/0/{:?}", Some(index)),
            format!("play {song}"),
        ]
    };
    let mut app = elsewhere();
    assert_eq!(tell(&mut app, Message::NextPressed, &at(0)), follow("/m/c.flac", 2));
    assert_eq!(app.playlists.active_tab, 0);
    assert_eq!(app.status, "Loading c...");
    let mut app = elsewhere();
    assert_eq!(tell(&mut app, Message::PreviousPressed, &at(0)), follow("/m/a.flac", 0));
    let mut app = elsewhere();
    assert_eq!(tell(&mut app, Message::Tick, &playing_at(10)), follow("/m/c.flac", 2));
    // An empty tab is shown while the song ends.
    let mut app = elsewhere();
    app.playlists.playlists[1].entries.clear();
    app.titles.clear();
    assert_eq!(tell(&mut app, Message::Tick, &playing_at(10)), follow("/m/c.flac", 2));
    // Without an engine nothing happens.
    let mut app = elsewhere();
    app.engine_ready = false;
    assert!(tell(&mut app, Message::NextPressed, &at(0)).is_empty());
    assert_eq!(app.playlists.active_tab, 1);
    // Without a current song the tab that is shown counts.
    let mut app = elsewhere();
    app.playlists.current = None;
    assert_eq!(
        tell(&mut app, Message::NextPressed, &at(0)).last().unwrap(),
        "play /n/x.mp3"
    );
    assert_eq!(app.playlists.current_tab, 1);
}

#[test]
fn the_next_song_needs_its_tab() {
    let mut app = busy_app();
    app.playing = true;
    app.song_length_frames = 10;
    app.playlists.active_tab = 1;
    app.playlists.current_tab = 1;
    app.playlists.current = Some(0);
    assert!(can_update(&app, &Message::NextPressed, &at(0)));
    // The tab of the current song is closed, and it was the last one.
    tell(&mut app, Message::TabClosePressed(1), &at(0));
    assert_eq!(app.playlists.current, None);
    assert!(!can_update(&app, &Message::NextPressed, &at(0)));
    assert!(!can_update(&app, &Message::PreviousPressed, &at(0)));
    assert!(!can_update(&app, &Message::Tick, &playing_at(10)));
    assert!(can_update(&app, &Message::Tick, &playing_at(9)));
    assert!(can_update(&app, &Message::StopPressed, &at(0)));
    app.playlist_revision = u64::MAX;
    assert!(!can_update(&app, &Message::StopPressed, &at(0)));
}

#[test]
fn ticks_follow_the_transport() {
    let mut app = busy_app();
    assert!(tell(&mut app, Message::Tick, &playing_at(5)).is_empty());
    assert_eq!(app.position_frames, 0);
    app.playing = true;
    assert!(tell(&mut app, Message::Tick, &at(0)).is_empty());
    let stopped = Readings {
        transport: Some(TransportSnapshot {
            playing: false,
            sample: 7,
        }),
        ..at(0)
    };
    tell(&mut app, Message::Tick, &stopped);
    assert!(!app.playing);
    assert_eq!(app.status, "Stopped.");
}

#[test]
fn tabs_are_switched_renamed_and_closed() {
    let mut app = busy_app();
    app.playlists.current = Some(2);
    app.selected = Some(1);
    // A press switches, a second one soon after renames.
    assert_eq!(
        tell(&mut app, Message::TabPressed(1), &at(0)),
        vec!["titles 2", "state 1/0/Some(2)"]
    );
    assert_eq!(app.selected, None);
    assert!(!view(&app).rows.iter().any(|row| row.is_current));
    assert_eq!(tell(&mut app, Message::TabPressed(1), &at(1)), vec!["focus input"]);
    assert_eq!(app.rename_draft, "Chill");
    assert!(view(&app).tabs[1].is_renaming);
    // A press of the tab itself goes to its input.
    assert!(tell(&mut app, Message::TabPressed(1), &at(2)).is_empty());
    tell(&mut app, Message::TabRenameChanged(String::from(" Rock ")), &at(3));
    // Another tab commits the draft first.
    assert_eq!(
        tell(&mut app, Message::TabPressed(0), &at(2_000_000_000)),
        vec!["save 21 lines", "titles 3", "state 0/0/Some(2)"]
    );
    assert_eq!(app.playlists.playlists[1].name, "Rock (2)");
    assert_eq!(app.renaming_tab, None);
    assert!(tell(&mut app, Message::TabPressed(9), &at(0)).is_empty());
    // Closing the tab of the current song drops it.
    app.renaming_tab = Some(1);
    assert_eq!(
        tell(&mut app, Message::TabClosePressed(0), &at(0)),
        vec!["save 9 lines", "state 0/0/None", "titles 2"]
    );
    assert_eq!(app.renaming_tab, Some(0));
    // The last tab gives way to an empty one.
    tell(&mut app, Message::TabClosePressed(0), &at(0));
    assert_eq!(app.playlists.playlists, vec![Playlist::default()]);
    assert_eq!(app.renaming_tab, None);
    assert!(tell(&mut app, Message::TabClosePressed(1), &at(0)).is_empty());
    tell(&mut app, Message::TabAddPressed, &at(0));
    tell(&mut app, Message::TabAddPressed, &at(0));
    let names: Vec<&str> = app
        .playlists
        .playlists
        .iter()
        .map(|p| p.name.as_str())
        .collect();
    assert_eq!(names, vec!["", "Playlist 1", "Playlist 2"]);
    assert_eq!(app.playlists.active_tab, 2);
}

#[test]
fn closing_another_tab_keeps_the_current_song() {
    let mut app = busy_app();
    app.playlists.active_tab = 1;
    app.playlists.current_tab = 1;
    app.playlists.current = Some(1);
    tell(&mut app, Message::TabClosePressed(0), &at(0));
    assert_eq!(app.playlists.current_tab, 0);
    assert_eq!(app.playlists.active_tab, 0);
    assert_eq!(app.playlists.current, Some(1));
}

#[test]
fn a_rename_can_be_submitted_or_cancelled() {
    let mut app = busy_app();
    app.renaming_tab = Some(0);
    app.rename_draft = String::from("Jazz");
    assert!(tell(&mut app, Message::TabRenameCancelled, &at(0)).is_empty());
    assert_eq!(app.playlists.playlists[0].name, "Rock");
    assert_eq!(app.rename_draft, "");
    app.renaming_tab = Some(0);
    assert!(tell(&mut app, Message::TabRenameSubmitted, &at(0)).is_empty());
    assert_eq!(app.playlists.playlists[0].name, "Rock");
    app.renaming_tab = Some(0);
    app.rename_draft = String::from("Jazz");
    assert_eq!(
        tell(&mut app, Message::TabRenameSubmitted, &at(0)),
        vec!["save 21 lines"]
    );
    assert_eq!(app.playlists.playlists[0].name, "Jazz");
}

#[test]
fn the_current_song_of_another_tab_is_played_there() {
    let mut app = busy_app();
    app.playlists.current_tab = 1;
    app.playlists.current = Some(1);
    let told = tell(&mut app, Message::PlayToggled, &at(0));
    assert_eq!(
        told,
        vec![
            "state 1/1/Some(1)",
            "titles 2",
            "index 1",
            "tags /n/y.mp3",
            "state 1/1/Some(1)",
            "play /n/y.mp3"
        ]
    );
    // The title is that of the tab it is in.
    assert_eq!(app.status, "Loading y...");
}

#[test]
fn removing_the_current_song_stops_it() {
    let mut app = busy_app();
    app.playing = true;
    app.playlists.current = Some(1);
    assert!(tell(&mut app, Message::RemovePressed, &at(0)).is_empty());
    app.selected = Some(0);
    assert_eq!(
        tell(&mut app, Message::RemovePressed, &at(0)),
        vec!["save 18 lines", "state 0/0/Some(0)", "titles 2"]
    );
    assert!(app.playing);
    app.selected = Some(0);
    assert_eq!(
        tell(&mut app, Message::RemovePressed, &at(0)),
        vec![
            "save 15 lines",
            "state 0/0/None",
            "titles 1",
            "tooltip None 0/0",
            "stop"
        ]
    );
    assert!(!app.playing);
    assert_eq!(app.selected, None);
}

#[test]
fn orders_keep_the_current_song_and_the_selection() {
    let mut app = busy_app();
    app.titles = vec![String::from("z"), String::from("Y"), String::from("x")];
    app.playlists.current = Some(0);
    app.selected = Some(2);
    let told = tell(&mut app, Message::SortPressed, &at(0));
    assert_eq!(told, vec!["save 21 lines", "state 0/0/Some(2)", "titles 3"]);
    assert_eq!(
        app.playlists.playlists[0].entries,
        vec![path("/m/c.flac"), path("/m/b.flac"), path("/m/a.flac")]
    );
    assert_eq!(app.selected, Some(0));
    for _ in 0..5 {
        tell(&mut app, Message::ShufflePressed, &at(0));
        let entries = &app.playlists.playlists[0].entries;
        assert_eq!(entries.len(), 3);
        assert_eq!(entries[app.playlists.current.unwrap()], path("/m/a.flac"));
        assert_eq!(entries[app.selected.unwrap()], path("/m/c.flac"));
    }
    let reversed = vec![path("/m/c.flac"), path("/m/a.flac"), path("/m/b.flac")];
    let effects = app.reorder_active(reversed);
    assert_eq!(effects.len(), 3);
    assert_eq!(app.playlists.current, Some(1));
    // The current song of another tab is left alone, the selection is not.
    let mut other = busy_app();
    other.playlists.active_tab = 1;
    other.playlists.current = Some(2);
    other.selected = Some(0);
    other.reorder_active(vec![path("/n/y.mp3"), path("/n/x.mp3")]);
    assert_eq!(other.playlists.current, Some(2));
    assert_eq!(other.selected, Some(1));
    // A single song has no order.
    app.playlists.playlists[0].entries.truncate(1);
    assert!(tell(&mut app, Message::ShufflePressed, &at(0)).is_empty());
    assert!(tell(&mut app, Message::SortPressed, &at(0)).is_empty());
}

#[test]
fn the_title_format_can_be_changed() {
    let mut app = busy_app();
    tell(&mut app, Message::TitleFormatChanged(String::from("  {song}! ")), &at(0));
    assert_eq!(
        tell(&mut app, Message::TitleFormatSubmitted, &at(0)),
        vec!["settings default true", "titles 3"]
    );
    assert_eq!(app.settings.title_format, "{song}!");
    assert_eq!(app.titles[0], "!");
    tell(&mut app, Message::TitleFormatChanged(String::from(" ")), &at(0));
    tell(&mut app, Message::TitleFormatSubmitted, &at(0));
    assert_eq!(app.settings.title_format, "{artist} - {song}");
    assert_eq!(app.title_format_edit, "{artist} - {song}");
    assert_eq!(app.titles[0], "a");
    tell(&mut app, Message::SettingsSaveFailed(String::from("disk full")), &at(0));
    assert_eq!(app.status, "disk full");
}

#[test]
fn the_volume_is_sent_and_kept() {
    let mut app = busy_app();
    assert_eq!(
        tell(&mut app, Message::VolumeChanged(level(-3.0)), &at(0)),
        vec!["level hw:out -3"]
    );
    assert_eq!(
        tell(&mut app, Message::VolumeReleased, &at(0)),
        vec!["settings default true"]
    );
    assert_eq!(app.settings.volume_db, level(-3.0));
    app.engine_ready = false;
    assert!(tell(&mut app, Message::VolumeChanged(level(1.0)), &at(0)).is_empty());
    let metered = Readings {
        levels: Some(vec![level(-1.0)]),
        ..at(0)
    };
    tell(&mut app, Message::MeterTick, &metered);
    assert_eq!(app.levels_db.len(), 2);
    app.engine_ready = true;
    tell(&mut app, Message::MeterTick, &metered);
    assert_eq!(app.levels_db, vec![level(-1.0)]);
}

#[test]
fn new_audio_settings_restart_the_engine() {
    let mut app = busy_app();
    app.playing = true;
    app.playlists.current = Some(1);
    app.volume_db = level(-7.0);
    assert!(tell(&mut app, Message::SettingsAction(SetupAction::Start), &at(0)).is_empty());
    tell(&mut app, Message::SettingsPressed, &at(0));
    assert!(view(&app).shows_settings);
    assert_eq!(
        app.setup.as_ref().unwrap().selected_output_device.as_ref().unwrap().id,
        "hw:00,03"
    );
    tell(
        &mut app,
        Message::SettingsAction(SetupAction::BackendSelected(Backend::Jack)),
        &at(0),
    );
    tell(
        &mut app,
        Message::SettingsAction(SetupAction::PeriodFramesSelected(256)),
        &at(0),
    );
    tell(&mut app, Message::SettingsAction(SetupAction::Other), &at(0));
    let told = tell(&mut app, Message::SettingsAction(SetupAction::Start), &at(0));
    assert_eq!(
        told,
        vec![
            "settings jack false",
            "state 0/0/None",
            "tooltip None 0/0",
            "reopen jack 256x2 8"
        ]
    );
    assert_eq!(app.status, "Reopening audio device...");
    assert!(!app.engine_ready && !app.playing && !app.show_settings);
    assert_eq!(app.settings.volume_db, level(-7.0));
    assert_eq!(app.playlists.current, None);
    // The device of the command line wins.
    app.device_override = Some(String::from("hw:9,9"));
    tell(&mut app, Message::SettingsPressed, &at(0));
    let device = app.setup.as_ref().unwrap().output_devices[0].clone();
    tell(
        &mut app,
        Message::SettingsAction(SetupAction::OutputDeviceSelected(device)),
        &at(0),
    );
    let told = tell(&mut app, Message::SettingsAction(SetupAction::Start), &at(0));
    assert_eq!(told[0], "settings hw:00,03 false");
    assert_eq!(told[3], "reopen hw:9,9 256x2 8");
    tell(&mut app, Message::SettingsPressed, &at(0));
    tell(&mut app, Message::SettingsClosed, &at(0));
    assert!(app.setup.is_none() && !app.show_settings);
}

#[test]
fn the_window_comes_and_goes() {
    let mut app = test_app();
    assert_eq!(tell(&mut app, Message::TrayShowRequested, &at(0)), vec!["open window"]);
    tell(&mut app, Message::WindowOpened(4), &at(0));
    assert_eq!(tell(&mut app, Message::TrayShowRequested, &at(0)), vec!["focus 4"]);
    assert_eq!(tell(&mut app, Message::WindowCloseRequested(4), &at(0)), vec!["close 4"]);
    assert_eq!(app.main_window, None);
    assert_eq!(tell(&mut app, Message::QuitRequested, &at(0)), vec!["exit"]);
    assert_eq!(tell(&mut app, Message::TrayQuitRequested, &at(0)), vec!["exit"]);
    assert!(tell(&mut app, Message::Ignored, &at(0)).is_empty());
}

#[test]
fn buttons_are_enabled_when_they_can_do_something() {
    let mut app = busy_app();
    let controls = view(&app).controls;
    assert!(controls.previous && controls.next);
    assert!(!controls.play_toggle && !controls.stop && !controls.remove && !controls.loop_on);
    app.playlists.current = Some(0);
    assert!(view(&app).controls.play_toggle);
    app.selected = Some(0);
    assert!(view(&app).controls.remove);
    app.paused = true;
    assert!(view(&app).controls.stop);
    app.engine_ready = false;
    let controls = view(&app).controls;
    assert!(!controls.previous && !controls.next && !controls.play_toggle);
    let tabs = view(&app).tabs;
    assert!(tabs[0].is_active && !tabs[1].is_active);
    assert_eq!(tabs[1].name, "Chill");
}

#[test]
fn keys_drive_the_transport() {
    let key = |text: &str, control: bool| {
        key_message(&KeyPress::Character {
            text: String::from(text),
            control,
            other_modifier: false,
        })
    };
    assert!(matches!(key("z", false), Message::PreviousPressed));
    assert!(matches!(key("X", false), Message::PlayPressed));
    assert!(matches!(key("c", false), Message::PausePressed));
    assert!(matches!(key("V", false), Message::StopPressed));
    assert!(matches!(key("b", false), Message::NextPressed));
    assert!(matches!(key("q", false), Message::Ignored));
    assert!(matches!(key("Q", true), Message::QuitRequested));
    assert!(matches!(key("z", true), Message::Ignored));
    let held = |text: &str, control: bool| {
        key_message(&KeyPress::Character {
            text: String::from(text),
            control,
            other_modifier: true,
        })
    };
    for text in ["z", "X", "c", "v", "b", "q"] {
        assert!(matches!(held(text, false), Message::Ignored));
    }
    assert!(matches!(held("z", true), Message::Ignored));
    assert!(matches!(held("Q", true), Message::QuitRequested));
    assert!(matches!(key_message(&KeyPress::Escape), Message::TabRenameCancelled));
    assert!(matches!(key_message(&KeyPress::Other), Message::Ignored));
    // The text is in lower case already.
    assert!(matches!(shortcut("x"), Message::PlayPressed));
    assert!(matches!(shortcut("X"), Message::Ignored));
}

#[test]
fn the_tray_and_the_engine_have_messages() {
    assert!(matches!(
        tray_message(TrayEvent::ShowRequested),
        Message::TrayShowRequested
    ));
    assert!(matches!(
        tray_message(TrayEvent::PlayToggleRequested),
        Message::PlayToggled
    ));
    assert!(matches!(
        tray_message(TrayEvent::QuitRequested),
        Message::TrayQuitRequested
    ));
    assert!(matches!(resumed_message(Ok(())), Message::Tick));
    assert!(matches!(
        resumed_message(Err(String::from("x"))),
        Message::SongLoaded(Err(text)) if text == "x"
    ));
}

#[test]
fn positions_are_shown_in_minutes() {
    assert_eq!(format_time(0, 48_000), "0:00");
    assert_eq!(format_time(48_000 * 61, 48_000), "1:01");
    assert_eq!(format_time(48_000 * 61 - 1, 48_000), "1:00");
    assert_eq!(format_time(7, 0), "0:07");
    assert_eq!(format_time(usize::MAX, 1), format!("{}:{:02}", usize::MAX / 60, usize::MAX % 60));
    for frames in [1usize, 47_999, 2_879_999, 2_880_000, 123_456_789, 1 << 50] {
        for rate in [1u32, 44_100, 48_000] {
            let seconds = frames as f64 / rate as f64;
            let minutes = (seconds / 60.0) as u64;
            let seconds = (seconds as u64) % 60;
            assert_eq!(format_time(frames, rate), format!("{minutes}:{seconds:02}"));
        }
    }
}
