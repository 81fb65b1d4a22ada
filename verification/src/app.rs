//! The player: its state, the messages it handles and what it has done to
//! the world around it.
use vstd::prelude::*;
use vstd::string::*;

use crate::device::{device_backend, discovered, Host};
use crate::engine::{EngineRequest, RequestModel, SAMPLE_RATE_HZ};
use crate::files::audio_files;
use crate::names::{fresh_name, resolved_name};
use crate::path::{paths_view, SongPath};
use crate::playlist::{
    entry_title, first_same, next_index, previous_index, with_added, PlayerState,
    PlaylistModel, Playlists, StoreModel,
};
use crate::pls::pls_text;
use crate::reorder::{lowered_titles, shuffled_by, sorted_songs, texts_view};
use crate::settings::{Level, Settings, SettingsModel, DEFAULT_N_PERIODS};
use crate::setup::{
    fragment_known, host_fragments_known, setup_of, AudioSetup, SetupAction, SetupModel,
};
use crate::text::trimmed;
use crate::title::{
    display_title_of, no_tags, text_view, tray_song_of, AudioMetadata, TagsModel,
};
use crate::tray::{InfoModel, TrayInfo};

verus! {

/// Two presses within this time are a double click.
pub const DOUBLE_CLICK_NANOS: u64 = 400_000_000;

// Messages.

/// A song that was loaded.
#[derive(Debug, Clone, Copy)]
pub struct LoadedSong {
    pub length_frames: usize,
}

/// A point in the song that the position slider is at: the bits of the
/// 32-bit float with its seconds, and the frame it stands for.
#[derive(Debug, Clone, Copy, PartialEq, Eq, Structural)]
pub struct SeekPoint {
    pub seconds_bits: u32,
    pub frames: usize,
}

/// What the player is told.
#[derive(Debug)]
pub enum Message {
    EngineReady(Result<(), String>),
    AddFilesPressed,
    AddFolderPressed,
    FilesAdded(Vec<SongPath>),
    Select(usize),
    PlaySelected,
    /// Play the current song of the last session.
    PlayCurrent,
    PlayIndex(usize),
    SongLoaded(Result<LoadedSong, String>),
    PlayToggled,
    /// Start or go on, but do not pause.
    PlayPressed,
    /// Pause, but do not go on.
    PausePressed,
    StopPressed,
    NextPressed,
    PreviousPressed,
    RemovePressed,
    Tick,
    SettingsPressed,
    SettingsClosed,
    SettingsAction(SetupAction),
    VolumeChanged(Level),
    VolumeReleased,
    PositionChanged(SeekPoint),
    PositionReleased,
    RowPressed(usize),
    TabPressed(usize),
    TabRenameChanged(String),
    TabRenameSubmitted,
    TabRenameCancelled,
    TabClosePressed(usize),
    TabAddPressed,
    MeterTick,
    LoopToggled,
    ShufflePressed,
    SortPressed,
    TitleFormatChanged(String),
    TitleFormatSubmitted,
    WindowOpened(u64),
    WindowCloseRequested(u64),
    TrayShowRequested,
    TrayQuitRequested,
    QuitRequested,
    /// The tags of the songs of the active tab.
    TitlesRead(Vec<AudioMetadata>),
    /// The tags of the song that is about to play.
    SongTagsRead(SongPath, AudioMetadata),
    /// The settings could not be kept.
    SettingsSaveFailed(String),
    Ignored,
}

/// Where the transport of the engine is.
#[derive(Debug, Clone, Copy)]
pub struct TransportSnapshot {
    pub playing: bool,
    pub sample: usize,
}

/// What was read of the world when a message is handled.
#[derive(Debug)]
pub struct Readings {
    pub now_nanos: u64,
    pub transport: Option<TransportSnapshot>,
    /// The levels of the master output.
    pub levels: Option<Vec<Level>>,
    pub host: Host,
}

// Effects.

/// What is to be done, in this order.
#[derive(Debug)]
pub enum Effect {
    /// Let the user choose files, and report `FilesAdded`.
    PickFiles,
    /// Let the user choose a folder, and report its songs by `FilesAdded`.
    PickFolder,
    /// Write the playlist file.
    SavePlaylists(String),
    /// Write the state file.
    SaveState(PlayerState),
    /// Write the settings file; if asked to, report `SettingsSaveFailed`.
    SaveSettings { settings: Settings, report: bool },
    /// Read the tags of these songs, and report `TitlesRead` at once.
    ReadTitles(Vec<SongPath>),
    /// Read the tags of this song, and report `SongTagsRead` at once.
    ReadSongTags(SongPath),
    /// Report `PlayIndex` at once.
    PlayIndex(usize),
    /// Show this in the tray.
    PushTooltip(TrayInfo),
    /// Send a request to the engine, and report `Tick`.
    SendEngine(EngineRequest),
    /// Play a song, and report `SongLoaded`.
    PlaySong(SongPath),
    /// Go on with a song from a frame; report `Tick`, or `SongLoaded` with
    /// the error.
    ResumeSong(usize),
    /// Open the engine, and report `EngineReady`.
    OpenEngine {
        device: String,
        period_frames: usize,
        n_periods: usize,
        ring_buffer_multiplier: usize,
    },
    /// Drop the engine, wait for it to release the device, and open it anew.
    ReopenEngine {
        device: String,
        period_frames: usize,
        n_periods: usize,
        ring_buffer_multiplier: usize,
    },
    /// Register the tray icon.
    InitTray,
    FocusRenameInput,
    /// Open the window, and report `WindowOpened`.
    OpenWindow,
    FocusWindow(u64),
    CloseWindow(u64),
    Exit,
}

#[verifier::ext_equal]
pub enum EffectModel {
    PickFiles,
    PickFolder,
    SavePlaylists(Seq<char>),
    SaveState(PlayerState),
    SaveSettings { settings: SettingsModel, report: bool },
    ReadTitles(Seq<Seq<u8>>),
    ReadSongTags(Seq<u8>),
    PlayIndex(usize),
    PushTooltip(InfoModel),
    SendEngine(RequestModel),
    PlaySong(Seq<u8>),
    ResumeSong(usize),
    OpenEngine {
        device: Seq<char>,
        period_frames: usize,
        n_periods: usize,
        ring_buffer_multiplier: usize,
    },
    ReopenEngine {
        device: Seq<char>,
        period_frames: usize,
        n_periods: usize,
        ring_buffer_multiplier: usize,
    },
    InitTray,
    FocusRenameInput,
    OpenWindow,
    FocusWindow(u64),
    CloseWindow(u64),
    Exit,
}

impl View for Effect {
    type V = EffectModel;

    open spec fn view(&self) -> EffectModel {
        match *self {
            Effect::PickFiles => EffectModel::PickFiles,
            Effect::PickFolder => EffectModel::PickFolder,
            Effect::SavePlaylists(text) => EffectModel::SavePlaylists(text@),
            Effect::SaveState(state) => EffectModel::SaveState(state),
            Effect::SaveSettings { settings, report } => EffectModel::SaveSettings {
                settings: settings@,
                report,
            },
            Effect::ReadTitles(paths) => EffectModel::ReadTitles(paths_view(paths@)),
            Effect::ReadSongTags(path) => EffectModel::ReadSongTags(path@),
            Effect::PlayIndex(index) => EffectModel::PlayIndex(index),
            Effect::PushTooltip(info) => EffectModel::PushTooltip(info@),
            Effect::SendEngine(request) => EffectModel::SendEngine(request@),
            Effect::PlaySong(path) => EffectModel::PlaySong(path@),
            Effect::ResumeSong(frames) => EffectModel::ResumeSong(frames),
            Effect::OpenEngine { device, period_frames, n_periods, ring_buffer_multiplier } =>
                EffectModel::OpenEngine {
                device: device@,
                period_frames,
                n_periods,
                ring_buffer_multiplier,
            },
            Effect::ReopenEngine { device, period_frames, n_periods, ring_buffer_multiplier } =>
                EffectModel::ReopenEngine {
                device: device@,
                period_frames,
                n_periods,
                ring_buffer_multiplier,
            },
            Effect::InitTray => EffectModel::InitTray,
            Effect::FocusRenameInput => EffectModel::FocusRenameInput,
            Effect::OpenWindow => EffectModel::OpenWindow,
            Effect::FocusWindow(id) => EffectModel::FocusWindow(id),
            Effect::CloseWindow(id) => EffectModel::CloseWindow(id),
            Effect::Exit => EffectModel::Exit,
        }
    }
}

pub open spec fn effects_view(effects: Seq<Effect>) -> Seq<EffectModel> {
    effects.map_values(|e: Effect| e@)
}

// The state.

/// The state of the player.
#[derive(Debug)]
pub struct PlayerApp {
    pub engine_ready: bool,
    pub status: String,
    pub playlists: Playlists,
    /// The titles of the songs of the active tab.
    pub titles: Vec<String>,
    pub selected: Option<usize>,
    pub playing: bool,
    pub paused: bool,
    /// The frame to go on from after a pause.
    pub paused_position: Option<usize>,
    pub song_length_frames: usize,
    pub position_frames: usize,
    /// Where the position slider is dragged to.
    pub seek: Option<SeekPoint>,
    pub last_row_press: Option<(usize, u64)>,
    pub last_tab_press: Option<(usize, u64)>,
    /// The tab whose name is edited.
    pub renaming_tab: Option<usize>,
    pub rename_draft: String,
    pub volume_db: Level,
    pub levels_db: Vec<Level>,
    pub loop_playlist: bool,
    pub title_format_edit: String,
    pub main_window: Option<u64>,
    pub settings: Settings,
    pub device_override: Option<String>,
    pub show_settings: bool,
    pub setup: Option<AudioSetup>,
    /// Grows with every change of how the rows look.
    pub playlist_revision: u64,
    /// Artist and title of the song that is loaded.
    pub tray_song: Option<(String, String)>,
    /// The seconds that the tray shows.
    pub tray_pushed_secs: Option<u64>,
}

#[verifier::ext_equal]
pub struct AppModel {
    pub engine_ready: bool,
    pub status: Seq<char>,
    pub playlists: StoreModel,
    pub titles: Seq<Seq<char>>,
    pub selected: Option<usize>,
    pub playing: bool,
    pub paused: bool,
    pub paused_position: Option<usize>,
    pub song_length_frames: usize,
    pub position_frames: usize,
    pub seek: Option<SeekPoint>,
    pub last_row_press: Option<(usize, u64)>,
    pub last_tab_press: Option<(usize, u64)>,
    pub renaming_tab: Option<usize>,
    pub rename_draft: Seq<char>,
    pub volume_db: Level,
    pub levels_db: Seq<Level>,
    pub loop_playlist: bool,
    pub title_format_edit: Seq<char>,
    pub main_window: Option<u64>,
    pub settings: SettingsModel,
    pub device_override: Option<Seq<char>>,
    pub show_settings: bool,
    pub setup: Option<SetupModel>,
    pub playlist_revision: u64,
    pub tray_song: Option<(Seq<char>, Seq<char>)>,
    pub tray_pushed_secs: Option<u64>,
}

pub open spec fn setup_view(setup: Option<AudioSetup>) -> Option<SetupModel> {
    match setup {
        Some(setup) => Some(setup@),
        None => None,
    }
}

pub open spec fn song_view(song: Option<(String, String)>) -> Option<(Seq<char>, Seq<char>)> {
    match song {
        Some((artist, title)) => Some((artist@, title@)),
        None => None,
    }
}

impl View for PlayerApp {
    type V = AppModel;

    open spec fn view(&self) -> AppModel {
        AppModel {
            engine_ready: self.engine_ready,
            status: self.status@,
            playlists: self.playlists@,
            titles: texts_view(self.titles@),
            selected: self.selected,
            playing: self.playing,
            paused: self.paused,
            paused_position: self.paused_position,
            song_length_frames: self.song_length_frames,
            position_frames: self.position_frames,
            seek: self.seek,
            last_row_press: self.last_row_press,
            last_tab_press: self.last_tab_press,
            renaming_tab: self.renaming_tab,
            rename_draft: self.rename_draft@,
            volume_db: self.volume_db,
            levels_db: self.levels_db@,
            loop_playlist: self.loop_playlist,
            title_format_edit: self.title_format_edit@,
            main_window: self.main_window,
            settings: self.settings@,
            device_override: text_view(self.device_override),
            show_settings: self.show_settings,
            setup: setup_view(self.setup),
            playlist_revision: self.playlist_revision,
            tray_song: song_view(self.tray_song),
            tray_pushed_secs: self.tray_pushed_secs,
        }
    }
}

// What messages do.

/// The state after a message, and what is to be done.
#[verifier::ext_equal]
pub struct Outcome {
    pub app: AppModel,
    pub effects: Seq<EffectModel>,
}

/// Nothing is to be done.
pub open spec fn quiet(app: AppModel) -> Outcome {
    Outcome { app, effects: Seq::empty() }
}

/// One thing is to be done.
pub open spec fn doing(app: AppModel, effect: EffectModel) -> Outcome {
    Outcome { app, effects: seq![effect] }
}

/// More is to be done first.
pub open spec fn preceded(effects: Seq<EffectModel>, outcome: Outcome) -> Outcome {
    Outcome { app: outcome.app, effects: effects + outcome.effects }
}

/// Whole seconds of a number of frames.
pub open spec fn whole_seconds(frames: usize) -> u64 {
    (frames as int / SAMPLE_RATE_HZ as int) as u64
}

/// A press of the same item soon after the last one.
pub open spec fn is_double_click(last: Option<(usize, u64)>, index: usize, now: u64) -> bool {
    match last {
        Some((pressed, at)) => pressed == index && now < at + DOUBLE_CLICK_NANOS,
        None => false,
    }
}

/// The position of the same song after a new order.
pub open spec fn remapped(
    before: Seq<Seq<u8>>,
    after: Seq<Seq<u8>>,
    position: Option<usize>,
) -> Option<usize> {
    match position {
        Some(index) => if index < before.len() {
            first_same(after, before[index as int], 0)
        } else {
            None
        },
        None => None,
    }
}

/// The titles of songs for tags that were read; a song whose tags are
/// missing is shown without any.
pub open spec fn titles_of(
    entries: Seq<Seq<u8>>,
    tags: Seq<TagsModel>,
    format: Seq<char>,
) -> Seq<Seq<char>> {
    Seq::new(
        entries.len(),
        |i: int|
            display_title_of(
                if i < tags.len() {
                    tags[i]
                } else {
                    no_tags()
                },
                entries[i],
                format,
            ),
    )
}

pub open spec fn tags_view(tags: Seq<AudioMetadata>) -> Seq<TagsModel> {
    tags.map_values(|m: AudioMetadata| m@)
}

impl AppModel {
    /// The store is well formed, and there is room to count on.
    pub open spec fn wf(self) -> bool {
        &&& self.playlists.wf()
        &&& self.playlists.playlists.len() < usize::MAX - 2
        &&& self.playlist_revision < u64::MAX
    }

    /// The rows look different.
    pub open spec fn rows_changed(self) -> AppModel {
        AppModel { playlist_revision: (self.playlist_revision + 1) as u64, ..self }
    }

    /// The songs of the active tab.
    pub open spec fn shown_entries(self) -> Seq<Seq<u8>> {
        self.playlists.shown().entries
    }

    /// The title of a song of the active tab.
    pub open spec fn display_title(self, index: int) -> Seq<char> {
        if index < self.titles.len() {
            self.titles[index]
        } else {
            entry_title(self.shown_entries(), index)
        }
    }

    /// What the tray shows.
    pub open spec fn tray_info(self) -> InfoModel {
        InfoModel {
            artist: match self.tray_song {
                Some((artist, _)) => artist,
                None => Seq::empty(),
            },
            song: match self.tray_song {
                Some((_, title)) => Some(title),
                None => None,
            },
            elapsed_secs: whole_seconds(self.position_frames),
            total_secs: whole_seconds(self.song_length_frames),
        }
    }

    /// The settings with the device of the command line.
    pub open spec fn effective(self) -> SettingsModel {
        match self.device_override {
            Some(device_id) => SettingsModel { device_id, ..self.settings },
            None => self.settings,
        }
    }

    /// Writing the playlist file.
    pub open spec fn saving_playlists(self) -> EffectModel {
        EffectModel::SavePlaylists(pls_text(self.playlists.playlists))
    }

    /// Writing the state file.
    pub open spec fn saving_state(self) -> EffectModel {
        EffectModel::SaveState(PlayerState::of_store(self.playlists))
    }

    /// Writing the settings file, with errors reported.
    pub open spec fn saving_settings(self) -> EffectModel {
        EffectModel::SaveSettings { settings: self.settings, report: true }
    }

    /// Reading the tags of the active tab.
    pub open spec fn reading_titles(self) -> EffectModel {
        EffectModel::ReadTitles(self.shown_entries())
    }

    /// The transport, while there is an engine.
    pub open spec fn transport(self, readings: Readings) -> Option<TransportSnapshot> {
        if self.engine_ready {
            readings.transport
        } else {
            None
        }
    }

    /// Sending a request, while there is an engine.
    pub open spec fn requesting(self, request: RequestModel) -> Outcome {
        if self.engine_ready {
            doing(self, EffectModel::SendEngine(request))
        } else {
            quiet(self)
        }
    }

    pub open spec fn engine_opened(self) -> Outcome {
        doing(
            (AppModel { engine_ready: true, status: "Ready."@, ..self }).rows_changed(),
            EffectModel::SendEngine(RequestModel::TrackLevel("hw:out"@, self.volume_db)),
        )
    }

    pub open spec fn engine_failed(self, error: Seq<char>) -> Outcome {
        quiet(AppModel { status: "Engine error: "@ + error, ..self })
    }

    pub open spec fn files_added(self, paths: Seq<Seq<u8>>) -> Outcome {
        let songs = audio_files(paths);
        if songs.len() == 0 {
            quiet(AppModel { status: "No supported audio files found."@, ..self })
        } else {
            let entries = self.shown_entries();
            let app = (AppModel {
                playlists: self.playlists.with_entries(
                    self.playlists.active_tab as int,
                    with_added(entries, songs),
                ),
                selected: Some(entries.len() as usize),
                status: "Files added."@,
                ..self
            }).rows_changed();
            Outcome { app, effects: seq![app.saving_playlists(), app.reading_titles()] }
        }
    }

    pub open spec fn row_selected(self, index: usize) -> Outcome {
        quiet((AppModel { selected: Some(index), ..self }).rows_changed())
    }

    pub open spec fn row_pressed(self, index: usize, now: u64) -> Outcome {
        if is_double_click(self.last_row_press, index, now) {
            (AppModel { last_row_press: None, ..self }).played(index)
        } else {
            (AppModel { last_row_press: Some((index, now)), ..self }).row_selected(index)
        }
    }

    pub open spec fn tab_pressed(self, index: usize, now: u64) -> Outcome {
        if index >= self.playlists.playlists.len() {
            quiet(self)
        } else {
            let noted = AppModel { last_tab_press: Some((index, now)), ..self };
            if self.renaming_tab == Some(index) {
                quiet(noted)
            } else {
                let committed = noted.rename_committed();
                preceded(
                    committed.effects,
                    if is_double_click(self.last_tab_press, index, now) {
                        committed.app.rename_begun(index)
                    } else {
                        committed.app.tab_shown(index)
                    },
                )
            }
        }
    }

    pub open spec fn rename_begun(self, index: usize) -> Outcome {
        doing(
            AppModel {
                last_tab_press: None,
                renaming_tab: Some(index),
                rename_draft: self.playlists.playlists[index as int].name,
                ..self
            },
            EffectModel::FocusRenameInput,
        )
    }

    pub open spec fn tab_shown(self, index: usize) -> Outcome {
        if index == self.playlists.active_tab {
            quiet(self)
        } else {
            let app = (AppModel {
                playlists: StoreModel { active_tab: index, ..self.playlists },
                selected: None,
                ..self
            }).rows_changed();
            Outcome { app, effects: seq![app.reading_titles(), app.saving_state()] }
        }
    }

    pub open spec fn rename_cancelled(self) -> AppModel {
        AppModel { renaming_tab: None, rename_draft: Seq::empty(), ..self }
    }

    pub open spec fn rename_committed(self) -> Outcome {
        match self.renaming_tab {
            Some(index) => {
                let tabs = self.playlists.playlists;
                let name = resolved_name(tabs, index as int, self.rename_draft);
                if index < tabs.len() && name != tabs[index as int].name {
                    let app = AppModel {
                        playlists: StoreModel {
                            playlists: tabs.update(
                                index as int,
                                PlaylistModel { name, ..tabs[index as int] },
                            ),
                            ..self.playlists
                        },
                        ..self.rename_cancelled()
                    };
                    doing(app, app.saving_playlists())
                } else {
                    quiet(self.rename_cancelled())
                }
            },
            None => quiet(self),
        }
    }

    pub open spec fn tab_closed(self, index: usize) -> Outcome {
        if index >= self.playlists.playlists.len() {
            quiet(self)
        } else {
            let app = (AppModel {
                playlists: self.playlists.without_tab(index as int),
                renaming_tab: match self.renaming_tab {
                    Some(renaming) => if renaming == index {
                        None
                    } else if index < renaming {
                        Some((renaming - 1) as usize)
                    } else {
                        Some(renaming)
                    },
                    None => None,
                },
                rename_draft: if self.renaming_tab == Some(index) {
                    Seq::empty()
                } else {
                    self.rename_draft
                },
                ..self
            }).rows_changed();
            Outcome {
                app,
                effects: seq![app.saving_playlists(), app.saving_state(), app.reading_titles()],
            }
        }
    }

    pub open spec fn tab_added(self) -> Outcome {
        let tabs = self.playlists.playlists;
        let app = (AppModel {
            playlists: StoreModel {
                playlists: tabs.push(
                    PlaylistModel { name: fresh_name(tabs), entries: Seq::empty() },
                ),
                active_tab: tabs.len() as usize,
                ..self.playlists
            },
            selected: None,
            ..self
        }).rows_changed();
        Outcome {
            app,
            effects: seq![app.saving_playlists(), app.saving_state(), app.reading_titles()],
        }
    }

    pub open spec fn selected_played(self) -> Outcome {
        match self.selected {
            Some(index) => self.played(index),
            None => quiet(self),
        }
    }

    pub open spec fn current_played(self) -> Outcome {
        match self.playlists.current {
            Some(index) => if self.playlists.active_tab == self.playlists.current_tab {
                self.played(index)
            } else {
                self.current_tab_shown(index)
            },
            None => quiet(self),
        }
    }

    /// The tab of the current song is shown, and a song of it is to be played
    /// once its titles are known.
    pub open spec fn current_tab_shown(self, index: usize) -> Outcome {
        let app = (AppModel {
            playlists: StoreModel { active_tab: self.playlists.current_tab, ..self.playlists },
            ..self
        }).rows_changed();
        Outcome {
            app,
            effects: seq![
                app.saving_state(),
                app.reading_titles(),
                EffectModel::PlayIndex(index),
            ],
        }
    }

    /// Another song of the playlist of the current one is to be played. Its
    /// tab is shown first. Where no song is current, it is one of the active
    /// tab.
    pub open spec fn neighbour_played(self, index: usize) -> Outcome {
        if self.playlists.current is None || self.playlists.active_tab
            == self.playlists.current_tab {
            self.played(index)
        } else if self.engine_ready {
            self.current_tab_shown(index)
        } else {
            quiet(self)
        }
    }

    /// A song of the active tab is to be played, from its beginning.
    pub open spec fn played(self, index: usize) -> Outcome {
        if !self.engine_ready || index >= self.shown_entries().len() {
            quiet(self)
        } else {
            let path = self.shown_entries()[index as int];
            let app = (AppModel {
                status: "Loading "@ + self.display_title(index as int) + "..."@,
                playlists: StoreModel {
                    current_tab: self.playlists.active_tab,
                    current: Some(index),
                    ..self.playlists
                },
                paused_position: None,
                ..self
            }).rows_changed();
            Outcome {
                app,
                effects: seq![
                    EffectModel::ReadSongTags(path),
                    app.saving_state(),
                    EffectModel::PlaySong(path),
                ],
            }
        }
    }

    pub open spec fn song_started(self, length_frames: usize) -> Outcome {
        let app = AppModel {
            playing: true,
            paused: false,
            paused_position: None,
            song_length_frames: length_frames,
            position_frames: 0,
            seek: None,
            status: match self.playlists.current {
                Some(index) => self.display_title(index as int),
                None => "Playing"@,
            },
            tray_pushed_secs: Some(0),
            ..self
        };
        doing(app, EffectModel::PushTooltip(app.tray_info()))
    }

    pub open spec fn song_failed(self, error: Seq<char>) -> Outcome {
        let app = AppModel {
            playing: false,
            paused: false,
            paused_position: None,
            tray_song: None,
            status: error,
            ..self
        };
        doing(app, EffectModel::PushTooltip(app.tray_info()))
    }

    /// Pausing: the engine is stopped and the position kept.
    pub open spec fn paused_at(self, transport: Option<TransportSnapshot>) -> Outcome {
        let frames = match transport {
            Some(snapshot) => snapshot.sample,
            None => self.position_frames,
        };
        (AppModel {
            paused: true,
            paused_position: Some(frames),
            position_frames: frames,
            ..self
        }).requesting(RequestModel::Stop)
    }

    /// Going on from the position that was kept.
    pub open spec fn resumed(self) -> Outcome {
        match self.paused_position {
            Some(frames) => if self.engine_ready {
                doing(
                    AppModel {
                        paused: false,
                        playing: true,
                        paused_position: None,
                        position_frames: frames,
                        ..self
                    },
                    EffectModel::ResumeSong(frames),
                )
            } else {
                quiet(self)
            },
            None => quiet(self),
        }
    }

    /// Starting: the selected song, or the current one.
    pub open spec fn begun(self) -> Outcome {
        if self.selected is Some {
            self.selected_played()
        } else {
            self.current_played()
        }
    }

    pub open spec fn play_toggled(self, readings: Readings) -> Outcome {
        if self.playing && !self.paused {
            self.paused_at(self.transport(readings))
        } else if self.paused {
            self.resumed()
        } else {
            self.begun()
        }
    }

    pub open spec fn play_pressed(self) -> Outcome {
        if self.paused {
            self.resumed()
        } else if !self.playing {
            self.begun()
        } else {
            quiet(self)
        }
    }

    pub open spec fn pause_pressed(self, readings: Readings) -> Outcome {
        if self.playing && !self.paused {
            self.paused_at(self.transport(readings))
        } else {
            quiet(self)
        }
    }

    pub open spec fn stopped(self) -> Outcome {
        let app = AppModel {
            playing: false,
            paused: false,
            paused_position: None,
            position_frames: 0,
            seek: None,
            tray_song: None,
            tray_pushed_secs: None,
            ..self
        };
        preceded(
            seq![EffectModel::PushTooltip(app.tray_info())],
            app.requesting(RequestModel::Stop),
        )
    }

    /// The songs of the tab of the current song.
    pub open spec fn current_entries(self) -> Seq<Seq<u8>> {
        self.playlists.playlists[self.playlists.current_tab as int].entries
    }

    /// The song after the current one in its tab.
    pub open spec fn next_song(self) -> Option<usize> {
        match self.playlists.current {
            Some(index) => next_index(self.current_entries().len(), index),
            None => None,
        }
    }

    pub open spec fn next_pressed(self) -> Outcome {
        match self.next_song() {
            Some(index) => self.neighbour_played(index),
            None => if self.current_entries().len() > 1 {
                self.neighbour_played(0)
            } else {
                self.stopped()
            },
        }
    }

    pub open spec fn previous_pressed(self) -> Outcome {
        match self.playlists.current {
            Some(index) => match previous_index(self.current_entries().len(), index) {
                Some(previous) => self.neighbour_played(previous),
                None => quiet(self),
            },
            None => quiet(self),
        }
    }

    pub open spec fn selected_removed(self) -> Outcome {
        match self.selected {
            Some(index) => {
                let tab = self.playlists.active_tab;
                let app = (AppModel {
                    playlists: self.playlists.without_entry(tab as int, index as int),
                    selected: None,
                    ..self
                }).rows_changed();
                preceded(
                    seq![app.saving_playlists(), app.saving_state(), app.reading_titles()],
                    if self.playlists.current_tab == tab && self.playlists.current == Some(index) {
                        app.stopped()
                    } else {
                        quiet(app)
                    },
                )
            },
            None => quiet(self),
        }
    }

    pub open spec fn loop_toggled(self) -> Outcome {
        let app = AppModel {
            loop_playlist: !self.loop_playlist,
            settings: SettingsModel { loop_playlist: !self.loop_playlist, ..self.settings },
            ..self
        };
        doing(app, app.saving_settings())
    }

    /// The songs of the active tab in a new order. The selection stays the
    /// same song, and so does the current song where it is in this tab.
    pub open spec fn reordered(self, entries: Seq<Seq<u8>>) -> Outcome {
        let before = self.shown_entries();
        let tab = self.playlists.active_tab;
        let store = self.playlists.with_entries(tab as int, entries);
        let app = (AppModel {
            playlists: StoreModel {
                current: if self.playlists.current_tab == tab {
                    remapped(before, entries, self.playlists.current)
                } else {
                    self.playlists.current
                },
                ..store
            },
            selected: remapped(before, entries, self.selected),
            ..self
        }).rows_changed();
        Outcome {
            app,
            effects: seq![app.saving_playlists(), app.saving_state(), app.reading_titles()],
        }
    }

    pub open spec fn shuffled(self, seed: u64) -> Outcome {
        if self.shown_entries().len() > 1 {
            self.reordered(shuffled_by(self.shown_entries(), seed))
        } else {
            quiet(self)
        }
    }

    pub open spec fn sorted(self) -> Outcome {
        let entries = self.shown_entries();
        if entries.len() > 1 {
            self.reordered(sorted_songs(entries, lowered_titles(entries, self.titles)))
        } else {
            quiet(self)
        }
    }

    pub open spec fn title_format_submitted(self) -> Outcome {
        let format = trimmed(self.title_format_edit);
        let app = (if format.len() == 0 {
            AppModel {
                settings: SettingsModel { title_format: "{artist} - {song}"@, ..self.settings },
                title_format_edit: "{artist} - {song}"@,
                ..self
            }
        } else {
            AppModel {
                settings: SettingsModel { title_format: format, ..self.settings },
                ..self
            }
        }).rows_changed();
        Outcome { app, effects: seq![app.saving_settings(), app.reading_titles()] }
    }

    pub open spec fn tray_show_requested(self) -> Outcome {
        match self.main_window {
            Some(id) => doing(self, EffectModel::FocusWindow(id)),
            None => doing(self, EffectModel::OpenWindow),
        }
    }

    pub open spec fn metered(self, readings: Readings) -> AppModel {
        match readings.levels {
            Some(levels) => if self.engine_ready {
                AppModel { levels_db: levels@, ..self }
            } else {
                self
            },
            None => self,
        }
    }

    /// The song that follows when one ends: the next one, or the first one
    /// where the playlist is to be looped.
    pub open spec fn following_song(self) -> Option<usize> {
        if self.current_entries().len() == 0 {
            None
        } else {
            match self.next_song() {
                Some(index) => Some(index),
                None => if self.loop_playlist {
                    Some(0)
                } else {
                    None
                },
            }
        }
    }

    /// The song has come to its end.
    pub open spec fn is_over_at(self, sample: usize) -> bool {
        self.song_length_frames > 0 && sample >= self.song_length_frames
    }

    pub open spec fn ticked(self, readings: Readings) -> Outcome {
        match self.transport(readings) {
            Some(snapshot) => if !self.playing || self.paused {
                quiet(self)
            } else if !snapshot.playing {
                quiet(AppModel { playing: false, paused: false, status: "Stopped."@, ..self })
            } else {
                let moved = self.moved_to(snapshot.sample);
                if self.is_over_at(snapshot.sample) {
                    preceded(
                        moved.effects,
                        match moved.app.following_song() {
                            Some(index) => moved.app.neighbour_played(index),
                            None => moved.app.stopped(),
                        },
                    )
                } else {
                    moved
                }
            },
            None => quiet(self),
        }
    }

    /// The transport has moved; the tray is told of every new second.
    pub open spec fn moved_to(self, sample: usize) -> Outcome {
        let secs = whole_seconds(sample);
        let moved = AppModel { position_frames: sample, ..self };
        if self.tray_pushed_secs == Some(secs) {
            quiet(moved)
        } else {
            let app = AppModel { tray_pushed_secs: Some(secs), ..moved };
            doing(app, EffectModel::PushTooltip(app.tray_info()))
        }
    }

    pub open spec fn position_released(self) -> Outcome {
        match self.seek {
            Some(point) => (AppModel {
                seek: None,
                position_frames: point.frames,
                paused_position: if self.paused {
                    Some(point.frames)
                } else {
                    self.paused_position
                },
                ..self
            }).requesting(RequestModel::TransportPosition(point.frames)),
            None => quiet(self),
        }
    }

    pub open spec fn volume_changed(self, level: Level) -> Outcome {
        (AppModel { volume_db: level, ..self }).requesting(
            RequestModel::TrackLevel("hw:out"@, level),
        )
    }

    pub open spec fn volume_released(self) -> Outcome {
        let app = AppModel {
            settings: SettingsModel { volume_db: self.volume_db, ..self.settings },
            ..self
        };
        doing(app, app.saving_settings())
    }

    pub open spec fn settings_opened(self, host: Host) -> Outcome {
        let settings = self.effective();
        let backend = device_backend(host.platform, settings.device_id);
        quiet(
            AppModel {
                show_settings: true,
                setup: Some(setup_of(host.platform, settings, discovered(host, backend))),
                ..self
            },
        )
    }

    pub open spec fn setup_changed(self, action: SetupAction, host: Host) -> Outcome {
        match self.setup {
            Some(setup) => match action {
                SetupAction::BackendSelected(backend) => quiet(
                    AppModel {
                        setup: Some(setup.with_backend(backend, discovered(host, backend))),
                        ..self
                    },
                ),
                SetupAction::OutputDeviceSelected(device) => quiet(
                    AppModel { setup: Some(setup.with_device(device@)), ..self },
                ),
                SetupAction::PeriodFramesSelected(frames) => quiet(
                    AppModel {
                        setup: Some(
                            SetupModel { selected_period_frames: Some(frames), ..setup },
                        ),
                        ..self
                    },
                ),
                SetupAction::Start => self.restarted(setup, host),
                SetupAction::Other => quiet(self),
            },
            None => quiet(self),
        }
    }

    /// The settings of the screen are taken over, and the engine is opened
    /// anew with them.
    pub open spec fn restarted(self, setup: SetupModel, host: Host) -> Outcome {
        let settings = SettingsModel {
            device_id: setup.device_to_open(host.sound_unit),
            period_frames: setup.period_to_open(),
            n_periods: DEFAULT_N_PERIODS,
            ring_buffer_multiplier: 8,
            volume_db: self.volume_db,
            title_format: self.settings.title_format,
            loop_playlist: self.loop_playlist,
        };
        let app = (AppModel {
            setup: None,
            settings,
            show_settings: false,
            playing: false,
            paused: false,
            paused_position: None,
            playlists: StoreModel { current: None, ..self.playlists },
            song_length_frames: 0,
            tray_song: None,
            tray_pushed_secs: None,
            engine_ready: false,
            status: "Reopening audio device..."@,
            ..self
        }).rows_changed();
        let effective = app.effective();
        Outcome {
            app,
            effects: seq![
                EffectModel::SaveSettings { settings, report: false },
                app.saving_state(),
                EffectModel::PushTooltip(app.tray_info()),
                EffectModel::ReopenEngine {
                    device: effective.device_id,
                    period_frames: effective.period_frames,
                    n_periods: effective.n_periods,
                    ring_buffer_multiplier: effective.ring_buffer_multiplier,
                },
            ],
        }
    }

    pub open spec fn titled(self, tags: Seq<TagsModel>) -> Outcome {
        quiet(
            (AppModel {
                titles: titles_of(self.shown_entries(), tags, self.settings.title_format),
                ..self
            }).rows_changed(),
        )
    }

    /// What a message does, for every message but a shuffle, which rests on
    /// the time.
    pub open spec fn stepped(self, message: Message, readings: Readings) -> Outcome {
        match message {
            Message::EngineReady(Ok(_)) => self.engine_opened(),
            Message::EngineReady(Err(error)) => self.engine_failed(error@),
            Message::AddFilesPressed => doing(self, EffectModel::PickFiles),
            Message::AddFolderPressed => doing(self, EffectModel::PickFolder),
            Message::FilesAdded(paths) => self.files_added(paths_view(paths@)),
            Message::Select(index) => self.row_selected(index),
            Message::PlaySelected => self.selected_played(),
            Message::PlayCurrent => self.current_played(),
            Message::PlayIndex(index) => self.played(index),
            Message::SongLoaded(Ok(song)) => self.song_started(song.length_frames),
            Message::SongLoaded(Err(error)) => self.song_failed(error@),
            Message::PlayToggled => self.play_toggled(readings),
            Message::PlayPressed => self.play_pressed(),
            Message::PausePressed => self.pause_pressed(readings),
            Message::StopPressed => self.stopped(),
            Message::NextPressed => self.next_pressed(),
            Message::PreviousPressed => self.previous_pressed(),
            Message::RemovePressed => self.selected_removed(),
            Message::Tick => self.ticked(readings),
            Message::SettingsPressed => self.settings_opened(readings.host),
            Message::SettingsClosed => quiet(
                AppModel { show_settings: false, setup: None, ..self },
            ),
            Message::SettingsAction(action) => self.setup_changed(action, readings.host),
            Message::VolumeChanged(level) => self.volume_changed(level),
            Message::VolumeReleased => self.volume_released(),
            Message::PositionChanged(point) => quiet(AppModel { seek: Some(point), ..self }),
            Message::PositionReleased => self.position_released(),
            Message::RowPressed(index) => self.row_pressed(index, readings.now_nanos),
            Message::TabPressed(index) => self.tab_pressed(index, readings.now_nanos),
            Message::TabRenameChanged(draft) => quiet(
                AppModel { rename_draft: draft@, ..self },
            ),
            Message::TabRenameSubmitted => self.rename_committed(),
            Message::TabRenameCancelled => quiet(self.rename_cancelled()),
            Message::TabClosePressed(index) => self.tab_closed(index),
            Message::TabAddPressed => self.tab_added(),
            Message::MeterTick => quiet(self.metered(readings)),
            Message::LoopToggled => self.loop_toggled(),
            Message::ShufflePressed => quiet(self),
            Message::SortPressed => self.sorted(),
            Message::TitleFormatChanged(text) => quiet(
                AppModel { title_format_edit: text@, ..self },
            ),
            Message::TitleFormatSubmitted => self.title_format_submitted(),
            Message::WindowOpened(id) => quiet(AppModel { main_window: Some(id), ..self }),
            Message::WindowCloseRequested(id) => doing(
                AppModel { main_window: None, ..self },
                EffectModel::CloseWindow(id),
            ),
            Message::TrayShowRequested => self.tray_show_requested(),
            Message::TrayQuitRequested => doing(self, EffectModel::Exit),
            Message::QuitRequested => doing(self, EffectModel::Exit),
            Message::TitlesRead(tags) => self.titled(tags_view(tags@)),
            Message::SongTagsRead(path, tags) => quiet(
                AppModel { tray_song: Some(tray_song_of(tags@, path@)), ..self },
            ),
            Message::SettingsSaveFailed(error) => quiet(AppModel { status: error@, ..self }),
            Message::Ignored => quiet(self),
        }
    }

    /// A message may have this outcome.
    pub open spec fn leads_to(
        self,
        message: Message,
        readings: Readings,
        outcome: Outcome,
    ) -> bool {
        if message is ShufflePressed {
            exists|seed: u64| outcome == #[trigger] self.shuffled(seed)
        } else {
            outcome == self.stepped(message, readings)
        }
    }

    /// The tab of the current song exists. It may not after it was closed as
    /// the last one.
    pub open spec fn has_current_tab(self) -> bool {
        self.playlists.current_tab < self.playlists.playlists.len()
    }

    /// The message can be handled.
    pub open spec fn can_handle(self, message: Message, readings: Readings) -> bool {
        match message {
            Message::NextPressed => self.has_current_tab(),
            Message::PreviousPressed => self.has_current_tab(),
            Message::Tick => match self.transport(readings) {
                Some(snapshot) => self.playing && !self.paused && snapshot.playing
                    && self.is_over_at(snapshot.sample) ==> self.has_current_tab(),
                None => true,
            },
            Message::SettingsPressed => host_fragments_known(readings.host),
            Message::SettingsAction(SetupAction::BackendSelected(_)) => self.setup is Some
                ==> host_fragments_known(readings.host),
            Message::SettingsAction(SetupAction::OutputDeviceSelected(device)) => self.setup is Some
                ==> fragment_known(Some(device@)),
            _ => true,
        }
    }
}

/// The level that the meter shows of silence: -90 dB.
pub const SILENT_LEVEL_BITS: u32 = 0xc2b4_0000;

/// The player at its start, with the playlists and settings of the last
/// session. No window is open.
pub open spec fn started(
    playlists: StoreModel,
    settings: SettingsModel,
    device_override: Option<Seq<char>>,
) -> Outcome {
    let effective = match device_override {
        Some(device_id) => SettingsModel { device_id, ..settings },
        None => settings,
    };
    let silent = Level { bits: SILENT_LEVEL_BITS };
    let app = AppModel {
        engine_ready: false,
        status: "Starting audio engine..."@,
        playlists,
        titles: Seq::empty(),
        selected: None,
        playing: false,
        paused: false,
        paused_position: None,
        song_length_frames: 0,
        position_frames: 0,
        seek: None,
        last_row_press: None,
        last_tab_press: None,
        renaming_tab: None,
        rename_draft: Seq::empty(),
        volume_db: settings.volume_db,
        levels_db: seq![silent, silent],
        loop_playlist: settings.loop_playlist,
        title_format_edit: settings.title_format,
        main_window: None,
        settings,
        device_override,
        show_settings: false,
        setup: None,
        playlist_revision: 1,
        tray_song: None,
        tray_pushed_secs: None,
    };
    Outcome {
        app,
        effects: seq![
            app.reading_titles(),
            EffectModel::InitTray,
            EffectModel::OpenEngine {
                device: effective.device_id,
                period_frames: effective.period_frames,
                n_periods: effective.n_periods,
                ring_buffer_multiplier: effective.ring_buffer_multiplier,
            },
        ],
    }
}

} // verus!
