//! What the controls of the player do, message by message.
use vstd::prelude::*;

use crate::app::{AppModel, EffectModel, LoadedSong, Message, Outcome, Readings, SeekPoint};
use crate::engine::RequestModel;
use crate::playlist::{PlayerState, StoreModel};
use crate::settings::{Level, SettingsModel};
use crate::title::title_of;
use crate::tray::InfoModel;

verus! {

// Playing.

/// A song that is asked for by its row becomes the current one and is played
/// from its beginning: its tags are read, the state is kept, and the engine
/// is given the song of that row. Nothing else changes.
pub proof fn law_row_is_played(app: AppModel, readings: Readings, row: usize, outcome: Outcome)
    requires
        app.wf(),
        app.engine_ready,
        row < app.playlists.playlists[app.playlists.active_tab as int].entries.len(),
        app.leads_to(Message::PlayIndex(row), readings, outcome),
    ensures
        ({
            let tab = app.playlists.active_tab;
            let song = app.playlists.playlists[tab as int].entries[row as int];
            let title = if row < app.titles.len() {
                app.titles[row as int]
            } else {
                title_of(song)
            };
            &&& outcome.app == AppModel {
                status: "Loading "@ + title + "..."@,
                playlists: StoreModel { current_tab: tab, current: Some(row), ..app.playlists },
                paused_position: None,
                playlist_revision: (app.playlist_revision + 1) as u64,
                ..app
            }
            &&& outcome.effects == seq![
                EffectModel::ReadSongTags(song),
                EffectModel::SaveState(
                    PlayerState { active_tab: tab, current_tab: tab, current: Some(row) },
                ),
                EffectModel::PlaySong(song),
            ]
        }),
{
}

/// A row that does not exist, or one without an engine, is not played, and
/// nothing changes.
pub proof fn law_no_row_is_not_played(
    app: AppModel,
    readings: Readings,
    row: usize,
    outcome: Outcome,
)
    requires
        app.wf(),
        !app.engine_ready || row
            >= app.playlists.playlists[app.playlists.active_tab as int].entries.len(),
        app.leads_to(Message::PlayIndex(row), readings, outcome),
    ensures
        outcome.app == app,
        outcome.effects.len() == 0,
{
}

/// A message that starts playing where nothing plays.
pub open spec fn starts(message: Message) -> bool {
    message is PlayPressed || message is PlayToggled
}

/// While nothing plays, play and the toggle start the selected song, whatever
/// song is current. It is played as a press of its row would.
pub proof fn law_play_starts_the_selected_song(
    app: AppModel,
    message: Message,
    readings: Readings,
    row: usize,
    outcome: Outcome,
)
    requires
        app.wf(),
        app.engine_ready,
        app.selected == Some(row),
        row < app.playlists.playlists[app.playlists.active_tab as int].entries.len(),
        message is PlaySelected || starts(message) && !app.playing && !app.paused,
        app.leads_to(message, readings, outcome),
    ensures
        ({
            let tab = app.playlists.active_tab;
            let song = app.playlists.playlists[tab as int].entries[row as int];
            &&& outcome.effects.last() == EffectModel::PlaySong(song)
            &&& outcome.app.playlists.current == Some(row)
            &&& outcome.app.playlists.current_tab == tab
            &&& outcome.app.playlists.playlists == app.playlists.playlists
            &&& outcome.app.selected == app.selected
            &&& app.leads_to(Message::PlayIndex(row), readings, outcome)
        }),
{
}

/// With nothing selected, play and the toggle start the current song, in its
/// tab. Without a current song they do nothing.
pub proof fn law_play_starts_the_current_song(
    app: AppModel,
    message: Message,
    readings: Readings,
    outcome: Outcome,
)
    requires
        app.wf(),
        app.engine_ready,
        message is PlayCurrent || starts(message) && !app.playing && !app.paused
            && app.selected is None,
        app.leads_to(message, readings, outcome),
    ensures
        app.playlists.current matches Some(song) ==> {
            let tab = app.playlists.current_tab;
            let songs = app.playlists.playlists[tab as int].entries;
            &&& outcome.app.playlists.active_tab == tab
            &&& app.playlists.active_tab == tab ==> outcome.effects.last()
                == EffectModel::PlaySong(songs[song as int])
            &&& app.playlists.active_tab != tab ==> {
                &&& outcome.effects == seq![
                    EffectModel::SaveState(
                        PlayerState { active_tab: tab, current_tab: tab, current: Some(song) },
                    ),
                    EffectModel::ReadTitles(songs),
                    EffectModel::PlayIndex(song),
                ]
                &&& outcome.app == AppModel {
                    playlists: StoreModel { active_tab: tab, ..app.playlists },
                    playlist_revision: (app.playlist_revision + 1) as u64,
                    ..app
                }
            }
        },
        app.playlists.current is None ==> outcome.app == app && outcome.effects.len() == 0,
{
}

/// Whatever row is selected, play and the toggle do with it what a press of it
/// would, while nothing plays.
pub proof fn law_play_asks_for_the_selected_row(
    app: AppModel,
    message: Message,
    readings: Readings,
    row: usize,
    outcome: Outcome,
)
    requires
        app.wf(),
        app.selected == Some(row),
        message is PlaySelected || starts(message) && !app.playing && !app.paused,
        app.leads_to(message, readings, outcome),
    ensures
        app.leads_to(Message::PlayIndex(row), readings, outcome),
{
}

/// While a song plays, the play key does nothing; and with nothing selected,
/// there is no selected song to play.
pub proof fn law_play_does_not_start_twice(app: AppModel, readings: Readings)
    requires
        app.wf(),
    ensures
        app.playing && !app.paused ==> app.leads_to(
            Message::PlayPressed,
            readings,
            (Outcome { app, effects: Seq::empty() }),
        ),
        app.selected is None ==> app.leads_to(
            Message::PlaySelected,
            readings,
            (Outcome { app, effects: Seq::empty() }),
        ),
{
}

/// A song that was loaded plays from its beginning, with its length, and the
/// status line and the tray show it.
pub proof fn law_loaded_song_plays(
    app: AppModel,
    readings: Readings,
    song: LoadedSong,
    outcome: Outcome,
)
    requires
        app.wf(),
        app.leads_to(Message::SongLoaded(Ok(song)), readings, outcome),
    ensures
        ({
            let entries = app.playlists.playlists[app.playlists.active_tab as int].entries;
            &&& outcome.app == AppModel {
                playing: true,
                paused: false,
                paused_position: None,
                song_length_frames: song.length_frames,
                position_frames: 0,
                seek: None,
                status: match app.playlists.current {
                    Some(row) => if row < app.titles.len() {
                        app.titles[row as int]
                    } else if row < entries.len() {
                        title_of(entries[row as int])
                    } else {
                        "Unknown"@
                    },
                    None => "Playing"@,
                },
                tray_pushed_secs: Some(0),
                ..app
            }
            &&& outcome.effects == seq![
                EffectModel::PushTooltip(
                    InfoModel {
                        artist: match app.tray_song {
                            Some(tags) => tags.0,
                            None => Seq::empty(),
                        },
                        song: match app.tray_song {
                            Some(tags) => Some(tags.1),
                            None => None,
                        },
                        elapsed_secs: 0,
                        total_secs: (song.length_frames / 48_000) as u64,
                    },
                ),
            ]
        }),
{
}

/// A song that could not be loaded does not play. Its error is the status,
/// and the tray shows no song.
pub proof fn law_failed_song_does_not_play(
    app: AppModel,
    readings: Readings,
    error: String,
    outcome: Outcome,
)
    requires
        app.wf(),
        app.leads_to(Message::SongLoaded(Err(error)), readings, outcome),
    ensures
        outcome.app == (AppModel {
            playing: false,
            paused: false,
            paused_position: None,
            tray_song: None,
            status: error@,
            ..app
        }),
        outcome.effects == seq![
            EffectModel::PushTooltip(
                InfoModel {
                    artist: Seq::empty(),
                    song: None,
                    elapsed_secs: (app.position_frames / 48_000) as u64,
                    total_secs: (app.song_length_frames / 48_000) as u64,
                },
            ),
        ],
{
}

// Pausing and stopping.

/// A pause stops the engine and keeps the frame where the transport is. It
/// comes from the pause key and from the toggle alike.
pub proof fn law_pause_stops_the_engine(
    app: AppModel,
    message: Message,
    readings: Readings,
    outcome: Outcome,
)
    requires
        app.wf(),
        app.playing,
        !app.paused,
        message is PausePressed || message is PlayToggled,
        app.leads_to(message, readings, outcome),
    ensures
        ({
            let frames = match readings.transport {
                Some(snapshot) => if app.engine_ready {
                    snapshot.sample
                } else {
                    app.position_frames
                },
                None => app.position_frames,
            };
            &&& outcome.app == AppModel {
                paused: true,
                paused_position: Some(frames),
                position_frames: frames,
                ..app
            }
            &&& app.engine_ready ==> outcome.effects == seq![
                EffectModel::SendEngine(RequestModel::Stop),
            ]
            &&& !app.engine_ready ==> outcome.effects.len() == 0
        }),
{
}

/// The pause key does nothing while nothing plays, nor a second time.
pub proof fn law_pause_needs_a_playing_song(app: AppModel, readings: Readings, outcome: Outcome)
    requires
        app.wf(),
        !app.playing || app.paused,
        app.leads_to(Message::PausePressed, readings, outcome),
    ensures
        outcome.app == app,
        outcome.effects.len() == 0,
{
}

/// After a pause, play and the toggle go on from the frame that was kept, and
/// nothing but the state of playing changes.
pub proof fn law_play_goes_on_after_a_pause(
    app: AppModel,
    message: Message,
    readings: Readings,
    frames: usize,
    outcome: Outcome,
)
    requires
        app.wf(),
        app.engine_ready,
        app.paused,
        app.paused_position == Some(frames),
        starts(message),
        app.leads_to(message, readings, outcome),
    ensures
        outcome.app == (AppModel {
            playing: true,
            paused: false,
            paused_position: None,
            position_frames: frames,
            ..app
        }),
        outcome.effects == seq![EffectModel::ResumeSong(frames)],
{
}

/// Without an engine, or without a frame that was kept, a paused song does not
/// go on.
pub proof fn law_nothing_to_go_on_with(
    app: AppModel,
    message: Message,
    readings: Readings,
    outcome: Outcome,
)
    requires
        app.wf(),
        app.paused,
        !app.engine_ready || app.paused_position is None,
        starts(message),
        app.leads_to(message, readings, outcome),
    ensures
        outcome.app == app,
        outcome.effects.len() == 0,
{
}

/// A stop forgets the position and the song of the tray, and stops the
/// engine. The playlists and the current song stay.
pub proof fn law_stop_stops_the_engine(app: AppModel, readings: Readings, outcome: Outcome)
    requires
        app.wf(),
        app.leads_to(Message::StopPressed, readings, outcome),
    ensures
        ({
            let shown = EffectModel::PushTooltip(
                InfoModel {
                    artist: Seq::empty(),
                    song: None,
                    elapsed_secs: 0,
                    total_secs: (app.song_length_frames / 48_000) as u64,
                },
            );
            &&& outcome.app == AppModel {
                playing: false,
                paused: false,
                paused_position: None,
                position_frames: 0,
                seek: None,
                tray_song: None,
                tray_pushed_secs: None,
                ..app
            }
            &&& app.engine_ready ==> outcome.effects == seq![
                shown,
                EffectModel::SendEngine(RequestModel::Stop),
            ]
            &&& !app.engine_ready ==> outcome.effects == seq![shown]
        }),
{
}

// The position slider.

/// While the slider is dragged only its place is noted.
pub proof fn law_dragging_moves_the_slider_only(
    app: AppModel,
    readings: Readings,
    point: SeekPoint,
    outcome: Outcome,
)
    requires
        app.wf(),
        app.leads_to(Message::PositionChanged(point), readings, outcome),
    ensures
        outcome.app == (AppModel { seek: Some(point), ..app }),
        outcome.effects.len() == 0,
{
}

/// When the slider is released, the engine is sent to its frame, whether a
/// song plays or is paused, and the position is that frame. While paused it
/// is also where playing goes on.
pub proof fn law_releasing_the_slider_seeks(
    app: AppModel,
    readings: Readings,
    point: SeekPoint,
    outcome: Outcome,
)
    requires
        app.wf(),
        app.seek == Some(point),
        app.leads_to(Message::PositionReleased, readings, outcome),
    ensures
        app.engine_ready ==> outcome.effects == seq![
            EffectModel::SendEngine(RequestModel::TransportPosition(point.frames)),
        ],
        !app.engine_ready ==> outcome.effects.len() == 0,
        outcome.app.position_frames == point.frames,
        app.paused ==> outcome.app == (AppModel {
            seek: None,
            position_frames: point.frames,
            paused_position: Some(point.frames),
            ..app
        }),
        !app.paused ==> outcome.app == (AppModel {
            seek: None,
            position_frames: point.frames,
            ..app
        }),
{
}

/// A slider that was not dragged does nothing when it is released.
pub proof fn law_release_without_drag(app: AppModel, readings: Readings, outcome: Outcome)
    requires
        app.wf(),
        app.seek is None,
        app.leads_to(Message::PositionReleased, readings, outcome),
    ensures
        outcome.app == app,
        outcome.effects.len() == 0,
{
}

// The passing of time.

/// While a song plays on, a tick moves the position to that of the transport,
/// and the tray is told of a new second, and only then.
pub proof fn law_tick_follows_the_transport(
    app: AppModel,
    readings: Readings,
    sample: usize,
    outcome: Outcome,
)
    requires
        app.wf(),
        app.engine_ready,
        app.playing,
        !app.paused,
        readings.transport matches Some(snapshot) && snapshot.playing && snapshot.sample == sample,
        app.song_length_frames == 0 || sample < app.song_length_frames,
        app.leads_to(Message::Tick, readings, outcome),
    ensures
        ({
            let secs = (sample / 48_000) as u64;
            &&& outcome.app == AppModel {
                position_frames: sample,
                tray_pushed_secs: Some(secs),
                ..app
            }
            &&& app.tray_pushed_secs == Some(secs) ==> outcome.effects.len() == 0
            &&& app.tray_pushed_secs != Some(secs) ==> outcome.effects == seq![
                EffectModel::PushTooltip(
                    InfoModel {
                        artist: match app.tray_song {
                            Some(tags) => tags.0,
                            None => Seq::empty(),
                        },
                        song: match app.tray_song {
                            Some(tags) => Some(tags.1),
                            None => None,
                        },
                        elapsed_secs: secs,
                        total_secs: (app.song_length_frames / 48_000) as u64,
                    },
                ),
            ]
        }),
{
    assert(outcome.app =~= AppModel {
        position_frames: sample,
        tray_pushed_secs: Some((sample / 48_000) as u64),
        ..app
    });
}

/// A transport that has stopped is told by the status. Without a playing
/// song, or without a transport, a tick does nothing.
pub proof fn law_tick_without_a_song(app: AppModel, readings: Readings, outcome: Outcome)
    requires
        app.wf(),
        app.leads_to(Message::Tick, readings, outcome),
    ensures
        !app.playing || app.paused || !app.engine_ready || readings.transport is None
            ==> outcome.app == app && outcome.effects.len() == 0,
        app.playing && !app.paused && app.engine_ready && (readings.transport matches Some(
            snapshot,
        ) && !snapshot.playing) ==> outcome.effects.len() == 0 && outcome.app == (AppModel {
            playing: false,
            status: "Stopped."@,
            ..app
        }),
{
    if app.playing && !app.paused && app.engine_ready && (readings.transport matches Some(
        snapshot,
    ) && !snapshot.playing) {
        assert(outcome.app =~= AppModel { playing: false, status: "Stopped."@, ..app });
    }
}

/// A song of the current tab comes to be played: at once, as a press of its
/// row would, where that tab is shown; else the tab is shown first, which is
/// kept, its titles are read, and then the row is played.
pub open spec fn is_played_in_its_tab(
    app: AppModel,
    readings: Readings,
    row: usize,
    outcome: Outcome,
) -> bool {
    let tab = app.playlists.current_tab;
    if app.playlists.active_tab == tab {
        app.leads_to(Message::PlayIndex(row), readings, outcome)
    } else {
        &&& outcome.app == AppModel {
            playlists: StoreModel { active_tab: tab, ..app.playlists },
            playlist_revision: (app.playlist_revision + 1) as u64,
            ..app
        }
        &&& outcome.effects == seq![
            EffectModel::SaveState(
                PlayerState {
                    active_tab: tab,
                    current_tab: tab,
                    current: app.playlists.current,
                },
            ),
            EffectModel::ReadTitles(app.playlists.playlists[tab as int].entries),
            EffectModel::PlayIndex(row),
        ]
    }
}

/// When a song ends, the position is where it ended, the tray is told of a
/// new second, and then the next song of its playlist follows; after the last
/// one the first one does, if the playlist is looped, and else playing stops.
/// Where its tab was closed, a loop goes on with the first row that is shown.
pub proof fn law_end_of_song(
    app: AppModel,
    readings: Readings,
    sample: usize,
    outcome: Outcome,
)
    requires
        app.wf(),
        app.engine_ready,
        app.playing,
        !app.paused,
        readings.transport matches Some(snapshot) && snapshot.playing && snapshot.sample == sample,
        app.song_length_frames > 0,
        sample >= app.song_length_frames,
        app.playlists.current_tab < app.playlists.playlists.len(),
        app.leads_to(Message::Tick, readings, outcome),
    ensures
        ({
            let songs = app.playlists.playlists[app.playlists.current_tab as int].entries;
            let secs = (sample / 48_000) as u64;
            let moved = AppModel { position_frames: sample, tray_pushed_secs: Some(secs), ..app };
            let told: int = if app.tray_pushed_secs == Some(secs) {
                0
            } else {
                1
            };
            let rest = Outcome { app: outcome.app, effects: outcome.effects.skip(told) };
            &&& told == 1 ==> outcome.effects[0] is PushTooltip
            &&& app.playlists.current matches Some(song) ==> {
                &&& song + 1 < songs.len() ==> is_played_in_its_tab(
                    moved,
                    readings,
                    (song + 1) as usize,
                    rest,
                )
                &&& song + 1 >= songs.len() && app.loop_playlist ==> is_played_in_its_tab(
                    moved,
                    readings,
                    0,
                    rest,
                )
            }
            &&& app.playlists.current is None && app.loop_playlist && songs.len() > 0
                ==> moved.leads_to(Message::PlayIndex(0), readings, rest)
            &&& (app.playlists.current is None || app.playlists.current->0 + 1 >= songs.len())
                && (!app.loop_playlist || songs.len() == 0) ==> moved.leads_to(
                Message::StopPressed,
                readings,
                rest,
            )
        }),
{
    let secs = (sample / 48_000) as u64;
    let first = app.moved_to(sample);
    assert(first.app =~= AppModel {
        position_frames: sample,
        tray_pushed_secs: Some(secs),
        ..app
    });
    let second = match first.app.following_song() {
        Some(row) => first.app.neighbour_played(row),
        None => first.app.stopped(),
    };
    assert(outcome.effects.skip(first.effects.len() as int) =~= second.effects);
}

// Next and previous.

/// Next plays the song after the current one in its playlist, and the first
/// one after the last. Where no song is current, it starts with the first row
/// of the active tab. A single song is stopped.
pub proof fn law_next(app: AppModel, readings: Readings, outcome: Outcome)
    requires
        app.wf(),
        app.engine_ready,
        app.playlists.current_tab < app.playlists.playlists.len(),
        app.leads_to(Message::NextPressed, readings, outcome),
    ensures
        ({
            let songs = app.playlists.playlists[app.playlists.current_tab as int].entries;
            &&& app.playlists.current matches Some(song) ==> {
                &&& song + 1 < songs.len() ==> is_played_in_its_tab(
                    app,
                    readings,
                    (song + 1) as usize,
                    outcome,
                )
                &&& song + 1 >= songs.len() && songs.len() > 1 ==> is_played_in_its_tab(
                    app,
                    readings,
                    0,
                    outcome,
                )
            }
            &&& app.playlists.current is None && songs.len() > 1 ==> app.leads_to(
                Message::PlayIndex(0),
                readings,
                outcome,
            )
            &&& songs.len() <= 1 ==> app.leads_to(Message::StopPressed, readings, outcome)
        }),
{
}

/// Previous plays the song before the current one in its playlist. Before the
/// first one, and without a current song, it does nothing.
pub proof fn law_previous(app: AppModel, readings: Readings, outcome: Outcome)
    requires
        app.wf(),
        app.engine_ready,
        app.leads_to(Message::PreviousPressed, readings, outcome),
    ensures
        app.playlists.current is Some && app.playlists.current->0 > 0 ==> is_played_in_its_tab(
            app,
            readings,
            (app.playlists.current->0 - 1) as usize,
            outcome,
        ),
        app.playlists.current is None || app.playlists.current == Some(0usize) ==> outcome.app
            == app && outcome.effects.len() == 0,
{
}

/// Without an engine, next and previous play nothing.
pub proof fn law_neighbours_need_an_engine(
    app: AppModel,
    message: Message,
    readings: Readings,
    song: usize,
    outcome: Outcome,
)
    requires
        app.wf(),
        !app.engine_ready,
        app.playlists.current == Some(song),
        app.playlists.playlists[app.playlists.current_tab as int].entries.len() > 1,
        message is NextPressed || message is PreviousPressed,
        app.leads_to(message, readings, outcome),
    ensures
        outcome.app == app,
        outcome.effects.len() == 0,
{
}

// Loop, volume and meter.

/// The loop button turns looping on and off, and the settings keep it.
pub proof fn law_loop_is_toggled_and_kept(app: AppModel, readings: Readings, outcome: Outcome)
    requires
        app.wf(),
        app.leads_to(Message::LoopToggled, readings, outcome),
    ensures
        ({
            let settings = SettingsModel { loop_playlist: !app.loop_playlist, ..app.settings };
            &&& outcome.app == AppModel { loop_playlist: !app.loop_playlist, settings, ..app }
            &&& outcome.effects == seq![EffectModel::SaveSettings { settings, report: true }]
        }),
{
}

/// The volume is that of the fader at once, and is kept when it is released.
pub proof fn law_volume(app: AppModel, readings: Readings, level: Level, outcome: Outcome)
    requires
        app.wf(),
    ensures
        app.leads_to(Message::VolumeChanged(level), readings, outcome) ==> {
            &&& outcome.app == AppModel { volume_db: level, ..app }
            &&& app.engine_ready ==> outcome.effects == seq![
                EffectModel::SendEngine(RequestModel::TrackLevel("hw:out"@, level)),
            ]
            &&& !app.engine_ready ==> outcome.effects.len() == 0
        },
        app.leads_to(Message::VolumeReleased, readings, outcome) ==> {
            let settings = SettingsModel { volume_db: app.volume_db, ..app.settings };
            &&& outcome.app == AppModel { settings, ..app }
            &&& outcome.effects == seq![EffectModel::SaveSettings { settings, report: true }]
        },
{
}

/// The meter shows the levels that the engine reports, and nothing else
/// changes.
pub proof fn law_meter_shows_levels(app: AppModel, readings: Readings, outcome: Outcome)
    requires
        app.wf(),
        app.leads_to(Message::MeterTick, readings, outcome),
    ensures
        outcome.effects.len() == 0,
        app.engine_ready && readings.levels is Some ==> outcome.app == (AppModel {
            levels_db: readings.levels->0@,
            ..app
        }),
        !app.engine_ready || readings.levels is None ==> outcome.app == app,
{
}

// The engine, the window and the tray.

/// An engine that is ready gets the volume, and the rows can be pressed. The
/// error of one that is not is the status.
pub proof fn law_engine_is_ready(
    app: AppModel,
    readings: Readings,
    error: String,
    outcome: Outcome,
)
    requires
        app.wf(),
    ensures
        app.leads_to(Message::EngineReady(Ok(())), readings, outcome) ==> {
            &&& outcome.app == AppModel {
                engine_ready: true,
                status: "Ready."@,
                playlist_revision: (app.playlist_revision + 1) as u64,
                ..app
            }
            &&& outcome.effects == seq![
                EffectModel::SendEngine(RequestModel::TrackLevel("hw:out"@, app.volume_db)),
            ]
        },
        app.leads_to(Message::EngineReady(Err(error)), readings, outcome) ==> {
            &&& outcome.app == AppModel { status: "Engine error: "@ + error@, ..app }
            &&& outcome.effects.len() == 0
        },
{
}

/// The window comes and goes without the songs; the tray opens it or brings
/// it to the front; and both quit.
pub proof fn law_window_and_tray(
    app: AppModel,
    readings: Readings,
    window: u64,
    outcome: Outcome,
)
    requires
        app.wf(),
    ensures
        app.leads_to(Message::WindowOpened(window), readings, outcome) ==> outcome.app
            == (AppModel { main_window: Some(window), ..app }) && outcome.effects.len() == 0,
        app.leads_to(Message::WindowCloseRequested(window), readings, outcome) ==> outcome.app
            == (AppModel { main_window: None, ..app }) && outcome.effects == seq![
            EffectModel::CloseWindow(window),
        ],
        app.leads_to(Message::TrayShowRequested, readings, outcome) ==> outcome.app == app
            && outcome.effects == seq![
            match app.main_window {
                Some(open) => EffectModel::FocusWindow(open),
                None => EffectModel::OpenWindow,
            },
        ],
        app.leads_to(Message::TrayQuitRequested, readings, outcome) || app.leads_to(
            Message::QuitRequested,
            readings,
            outcome,
        ) ==> outcome.app == app && outcome.effects == seq![EffectModel::Exit],
        app.leads_to(Message::Ignored, readings, outcome) ==> outcome.app == app
            && outcome.effects.len() == 0,
{
}

} // verus!
