//! Handling of messages.
use vstd::prelude::*;
use vstd::string::*;

use crate::app::{
    effects_view, is_double_click, quiet, remapped, started, tags_view, titles_of, whole_seconds,
    AppModel, Effect, EffectModel, Message, Outcome, PlayerApp, Readings, TransportSnapshot,
    DOUBLE_CLICK_NANOS, SILENT_LEVEL_BITS,
};
use crate::device::{lemma_discovered, Host};
use crate::engine::{EngineRequest, SAMPLE_RATE_HZ};
use crate::files::filter_audio_files;
use crate::laws::{
    is_sound, law_adding_keeps_store, law_closing_keeps_store, law_every_message_is_sound,
    law_removal_keeps_store, law_reorder_keeps_store,
};
use crate::names::{
    lemma_fresh_name, lemma_resolved_name, next_playlist_name, resolve_tab_name,
};
use crate::path::{paths_view, SongPath};
use crate::playlist::{
    copy_paths, lemma_lengths, path_position, PlayerState, Playlist, PlaylistModel, Playlists,
};
use crate::pls::pls_encode;
use crate::reorder::{lemma_sorted_songs, lowered_titles, shuffled_by, texts_view};
use crate::settings::{
    default_ring_buffer_multiplier, default_title_format, Level, Settings, DEFAULT_N_PERIODS,
};
use crate::setup::{
    build_setup, device_is_plausible, few_channels, fragment_known, host_fragments_known,
    host_is_plausible, AudioSetup, SetupAction,
};
use crate::text::{chars_of, same_text, trim};
use crate::title::{format_song_title, text_view, tray_song, AudioMetadata};
use crate::tray::TrayInfo;

verus! {

/// What came of a message.
pub open spec fn outcome_of(app: PlayerApp, effects: Seq<Effect>) -> Outcome {
    Outcome { app: app@, effects: effects_view(effects) }
}

fn nothing() -> (r: Vec<Effect>)
    ensures
        effects_view(r@) == Seq::<EffectModel>::empty(),
{
    let r: Vec<Effect> = Vec::new();
    assert(effects_view(r@) =~= Seq::empty());
    r
}

fn only(effect: Effect) -> (r: Vec<Effect>)
    ensures
        effects_view(r@) == seq![effect@],
{
    let mut r: Vec<Effect> = Vec::new();
    r.push(effect);
    assert(effects_view(r@) =~= seq![effect@]);
    r
}

/// Adds one thing to be done.
fn note(effects: &mut Vec<Effect>, effect: Effect)
    ensures
        effects_view(final(effects)@) == effects_view(old(effects)@).push(effect@),
{
    effects.push(effect);
    assert(effects_view(effects@) =~= effects_view(old(effects)@).push(effect@));
}

/// Adds more to be done.
fn note_all(effects: &mut Vec<Effect>, more: Vec<Effect>)
    ensures
        effects_view(final(effects)@) == effects_view(old(effects)@) + effects_view(more@),
{
    let mut more = more;
    let ghost added = more@;
    effects.append(&mut more);
    assert(effects_view(effects@) =~= effects_view(old(effects)@) + effects_view(added));
}

fn double_click(last: Option<(usize, u64)>, index: usize, now: u64) -> (r: bool)
    ensures
        r == is_double_click(last, index, now),
{
    match last {
        Some((pressed, at)) => pressed == index && (now < at || now - at < DOUBLE_CLICK_NANOS),
        None => false,
    }
}

/// The position of the same song after a new order.
fn remap(before: &Vec<SongPath>, after: &Vec<SongPath>, position: Option<usize>) -> (r: Option<
    usize,
>)
    ensures
        r == remapped(paths_view(before@), paths_view(after@), position),
{
    match position {
        Some(index) => if index < before.len() {
            assert(paths_view(before@)[index as int] == before@[index as int]@);
            path_position(after, &before[index])
        } else {
            None
        },
        None => None,
    }
}

impl PlayerApp {
    // What is asked of the world.

    fn playlists_text(&self) -> (r: Effect)
        ensures
            r@ == self@.saving_playlists(),
    {
        Effect::SavePlaylists(pls_encode(&self.playlists))
    }

    fn state_to_save(&self) -> (r: Effect)
        ensures
            r@ == self@.saving_state(),
    {
        Effect::SaveState(PlayerState::from_store(&self.playlists))
    }

    fn settings_to_save(&self) -> (r: Effect)
        ensures
            r@ == self@.saving_settings(),
    {
        Effect::SaveSettings { settings: self.settings.clone(), report: true }
    }

    fn titles_to_read(&self) -> (r: Effect)
        requires
            self@.playlists.wf(),
        ensures
            r@ == self@.reading_titles(),
    {
        Effect::ReadTitles(copy_paths(&self.playlists.active().entries))
    }

    /// The playlist file, the state file and the titles.
    fn store_changed(&self) -> (r: Vec<Effect>)
        requires
            self@.playlists.wf(),
        ensures
            effects_view(r@) == seq![
                self@.saving_playlists(),
                self@.saving_state(),
                self@.reading_titles(),
            ],
    {
        let mut r = only(self.playlists_text());
        let state = self.state_to_save();
        note(&mut r, state);
        let titles = self.titles_to_read();
        note(&mut r, titles);
        assert(effects_view(r@) =~= seq![
            self@.saving_playlists(),
            self@.saving_state(),
            self@.reading_titles(),
        ]);
        r
    }

    fn request(&self, request: EngineRequest) -> (r: Vec<Effect>)
        ensures
            outcome_of(*self, r@) == self@.requesting(request@),
    {
        if self.engine_ready {
            only(Effect::SendEngine(request))
        } else {
            nothing()
        }
    }

    // What the state tells.

    /// The title of a song of the active tab.
    pub fn display_title(&self, index: usize) -> (r: String)
        requires
            self@.playlists.wf(),
        ensures
            r@ == self@.display_title(index as int),
    {
        if index < self.titles.len() {
            self.titles[index].clone()
        } else {
            self.playlists.active().title(index)
        }
    }

    /// The settings with the device of the command line.
    pub fn effective_settings(&self) -> (r: Settings)
        ensures
            r@ == self@.effective(),
    {
        match &self.device_override {
            Some(device_id) => self.settings.with_device_override(device_id.as_str()),
            None => self.settings.clone(),
        }
    }

    /// What the tray shows.
    pub fn tray_info(&self) -> (r: TrayInfo)
        ensures
            r@ == self@.tray_info(),
    {
        let (artist, song) = match &self.tray_song {
            Some((artist, title)) => (artist.clone(), Some(title.clone())),
            None => (String::new(), None),
        };
        let r = TrayInfo {
            artist,
            song,
            elapsed_secs: seconds_of(self.position_frames),
            total_secs: seconds_of(self.song_length_frames),
        };
        assert(r@ =~= self@.tray_info());
        r
    }

    fn transport_of(&self, readings: &Readings) -> (r: Option<TransportSnapshot>)
        ensures
            r == self@.transport(*readings),
    {
        if self.engine_ready {
            readings.transport
        } else {
            None
        }
    }

    // The engine.

    fn on_engine_opened(&mut self) -> (r: Vec<Effect>)
        requires
            old(self)@.wf(),
        ensures
            outcome_of(*final(self), r@) == old(self)@.engine_opened(),
    {
        self.engine_ready = true;
        self.status = "Ready.".to_owned();
        self.playlist_revision = self.playlist_revision + 1;
        let r = only(
            Effect::SendEngine(EngineRequest::TrackLevel("hw:out".to_owned(), self.volume_db)),
        );
        assert(self@ =~= old(self)@.engine_opened().app);
        r
    }

    fn on_engine_failed(&mut self, error: &str) -> (r: Vec<Effect>)
        ensures
            outcome_of(*final(self), r@) == old(self)@.engine_failed(error@),
    {
        let mut status = "Engine error: ".to_owned();
        status.append(error);
        self.status = status;
        assert(self@ =~= old(self)@.engine_failed(error@).app);
        nothing()
    }

    // Songs and tabs.

    fn on_files_added(&mut self, files: Vec<SongPath>) -> (r: Vec<Effect>)
        requires
            old(self)@.wf(),
        ensures
            outcome_of(*final(self), r@) == old(self)@.files_added(paths_view(files@)),
    {
        let ghost expected = self@.files_added(paths_view(files@));
        let songs = filter_audio_files(files);
        if songs.len() == 0 {
            self.status = "No supported audio files found.".to_owned();
            assert(self@ =~= expected.app);
            return nothing();
        }
        let ghost tab = self.playlists.active_tab as int;
        assert(self@.playlists.playlists[tab] == self.playlists.playlists@[tab]@);
        let first: usize = self.playlists.active_mut().add(songs);
        assert(self@.playlists =~= old(self)@.playlists.with_entries(
            tab,
            expected.app.playlists.playlists[tab].entries,
        ));
        self.selected = Some(first);
        self.status = "Files added.".to_owned();
        self.playlist_revision = self.playlist_revision + 1;
        assert(self@ =~= expected.app);
        proof {
            lemma_lengths(self.playlists);
            law_adding_keeps_store(old(self)@.playlists, paths_view(songs@));
        }
        let mut effects = only(self.playlists_text());
        let titles = self.titles_to_read();
        note(&mut effects, titles);
        assert(effects_view(effects@) =~= expected.effects);
        effects
    }

    fn on_select(&mut self, index: usize) -> (r: Vec<Effect>)
        requires
            old(self)@.wf(),
        ensures
            outcome_of(*final(self), r@) == old(self)@.row_selected(index),
    {
        self.selected = Some(index);
        self.playlist_revision = self.playlist_revision + 1;
        assert(self@ =~= old(self)@.row_selected(index).app);
        nothing()
    }

    fn on_row_pressed(&mut self, index: usize, now: u64) -> (r: Vec<Effect>)
        requires
            old(self)@.wf(),
        ensures
            outcome_of(*final(self), r@) == old(self)@.row_pressed(index, now),
    {
        if double_click(self.last_row_press, index, now) {
            self.last_row_press = None;
            assert(self@ =~= AppModel { last_row_press: None, ..old(self)@ });
            self.on_play_index(index)
        } else {
            self.last_row_press = Some((index, now));
            assert(self@ =~= AppModel { last_row_press: Some((index, now)), ..old(self)@ });
            self.on_select(index)
        }
    }

    fn on_tab_pressed(&mut self, index: usize, now: u64) -> (r: Vec<Effect>)
        requires
            old(self)@.wf(),
        ensures
            outcome_of(*final(self), r@) == old(self)@.tab_pressed(index, now),
    {
        let ghost expected = self@.tab_pressed(index, now);
        if index >= self.playlists.playlists.len() {
            return nothing();
        }
        let twice: bool = double_click(self.last_tab_press, index, now);
        self.last_tab_press = Some((index, now));
        let ghost noted = AppModel { last_tab_press: Some((index, now)), ..old(self)@ };
        assert(self@ =~= noted);
        if let Some(renaming) = self.renaming_tab {
            if renaming == index {
                return nothing();
            }
        }
        let mut effects = self.commit_tab_rename();
        let ghost committed = noted.rename_committed();
        let more = if twice {
            self.begin_rename(index)
        } else {
            self.show_tab(index)
        };
        note_all(&mut effects, more);
        effects
    }

    fn begin_rename(&mut self, index: usize) -> (r: Vec<Effect>)
        requires
            index < old(self)@.playlists.playlists.len(),
        ensures
            outcome_of(*final(self), r@) == old(self)@.rename_begun(index),
    {
        self.last_tab_press = None;
        self.renaming_tab = Some(index);
        assert(self@.playlists.playlists[index as int]
            == self.playlists.playlists@[index as int]@);
        self.rename_draft = self.playlists.playlists[index].name.clone();
        assert(self@ =~= old(self)@.rename_begun(index).app);
        only(Effect::FocusRenameInput)
    }

    fn show_tab(&mut self, index: usize) -> (r: Vec<Effect>)
        requires
            old(self)@.wf(),
            index < old(self)@.playlists.playlists.len(),
        ensures
            outcome_of(*final(self), r@) == old(self)@.tab_shown(index),
    {
        if index == self.playlists.active_tab {
            return nothing();
        }
        self.playlists.active_tab = index;
        self.selected = None;
        self.playlist_revision = self.playlist_revision + 1;
        let ghost expected = old(self)@.tab_shown(index);
        assert(self@ =~= expected.app);
        let mut effects = only(self.titles_to_read());
        let state = self.state_to_save();
        note(&mut effects, state);
        assert(effects_view(effects@) =~= expected.effects);
        effects
    }

    fn cancel_rename(&mut self)
        ensures
            final(self)@ == old(self)@.rename_cancelled(),
            final(self).playlists == old(self).playlists,
    {
        self.renaming_tab = None;
        self.rename_draft = String::new();
        assert(self@ =~= old(self)@.rename_cancelled());
    }

    /// Ends the renaming of a tab, if there is one: the draft gives the tab
    /// its name.
    pub fn commit_tab_rename(&mut self) -> (r: Vec<Effect>)
        requires
            old(self)@.wf(),
        ensures
            outcome_of(*final(self), r@) == old(self)@.rename_committed(),
            final(self)@.wf(),
            final(self)@.playlists.playlists.len() == old(self)@.playlists.playlists.len(),
    {
        let ghost expected = self@.rename_committed();
        let index: usize = match self.renaming_tab {
            Some(index) => index,
            None => {
                return nothing();
            },
        };
        let draft = self.rename_draft.clone();
        self.cancel_rename();
        if index >= self.playlists.playlists.len() {
            return nothing();
        }
        let name = resolve_tab_name(&self.playlists.playlists, index, draft.as_str());
        let ghost tabs = self@.playlists.playlists;
        proof {
            lemma_resolved_name(tabs, index as int, draft@, name@);
        }
        assert(tabs[index as int] == self.playlists.playlists@[index as int]@);
        if same_text(name.as_str(), self.playlists.playlists[index].name.as_str()) {
            return nothing();
        }
        let ghost renamed = tabs.update(
            index as int,
            PlaylistModel { name: name@, ..tabs[index as int] },
        );
        self.playlists.playlists[index].name = name;
        assert(self@.playlists.playlists =~= renamed);
        assert(self@ =~= expected.app);
        only(self.playlists_text())
    }

    fn on_tab_closed(&mut self, index: usize) -> (r: Vec<Effect>)
        requires
            old(self)@.wf(),
        ensures
            outcome_of(*final(self), r@) == old(self)@.tab_closed(index),
    {
        let ghost expected = self@.tab_closed(index);
        if index >= self.playlists.playlists.len() {
            return nothing();
        }
        match self.renaming_tab {
            Some(renaming) => {
                if renaming == index {
                    self.cancel_rename();
                } else if index < renaming {
                    self.renaming_tab = Some(renaming - 1);
                }
            },
            None => {},
        }
        self.playlists.close_tab(index);
        self.playlist_revision = self.playlist_revision + 1;
        assert(self@ =~= expected.app);
        proof {
            law_closing_keeps_store(old(self)@.playlists, index as int);
        }
        self.store_changed()
    }

    fn on_tab_added(&mut self) -> (r: Vec<Effect>)
        requires
            old(self)@.wf(),
        ensures
            outcome_of(*final(self), r@) == old(self)@.tab_added(),
    {
        let ghost expected = self@.tab_added();
        let ghost tabs = self@.playlists.playlists;
        let name = next_playlist_name(&self.playlists.playlists);
        proof {
            lemma_fresh_name(tabs, name@);
        }
        let count: usize = self.playlists.playlists.len();
        let playlist = Playlist { name, entries: Vec::new() };
        assert(playlist@ =~= PlaylistModel { name: name@, entries: Seq::empty() });
        self.playlists.playlists.push(playlist);
        assert(self@.playlists.playlists =~= tabs.push(playlist@));
        self.playlists.active_tab = count;
        self.selected = None;
        self.playlist_revision = self.playlist_revision + 1;
        assert(self@ =~= expected.app);
        self.store_changed()
    }

    // Playing.

    fn on_play_index(&mut self, index: usize) -> (r: Vec<Effect>)
        requires
            old(self)@.wf(),
        ensures
            outcome_of(*final(self), r@) == old(self)@.played(index),
    {
        let ghost expected = self@.played(index);
        if !self.engine_ready || index >= self.playlists.active().entries.len() {
            return nothing();
        }
        let mut status = "Loading ".to_owned();
        let title = self.display_title(index);
        status.append(title.as_str());
        status.append("...");
        let path = self.playlists.active().entries[index].clone();
        assert(path@ == self@.shown_entries()[index as int]);
        self.status = status;
        self.playlists.current_tab = self.playlists.active_tab;
        self.playlists.current = Some(index);
        self.paused_position = None;
        self.playlist_revision = self.playlist_revision + 1;
        assert(self@ =~= expected.app);
        let mut effects = only(Effect::ReadSongTags(path.clone()));
        let state = self.state_to_save();
        note(&mut effects, state);
        note(&mut effects, Effect::PlaySong(path));
        assert(effects_view(effects@) =~= expected.effects);
        effects
    }

    fn on_play_selected(&mut self) -> (r: Vec<Effect>)
        requires
            old(self)@.wf(),
        ensures
            outcome_of(*final(self), r@) == old(self)@.selected_played(),
    {
        match self.selected {
            Some(index) => self.on_play_index(index),
            None => nothing(),
        }
    }

    fn on_play_current(&mut self) -> (r: Vec<Effect>)
        requires
            old(self)@.wf(),
        ensures
            outcome_of(*final(self), r@) == old(self)@.current_played(),
    {
        match self.playlists.current {
            Some(index) => if self.playlists.active_tab == self.playlists.current_tab {
                self.on_play_index(index)
            } else {
                self.show_current_tab(index)
            },
            None => nothing(),
        }
    }

    fn show_current_tab(&mut self, index: usize) -> (r: Vec<Effect>)
        requires
            old(self)@.wf(),
            old(self)@.has_current_tab(),
        ensures
            outcome_of(*final(self), r@) == old(self)@.current_tab_shown(index),
    {
        let ghost expected = self@.current_tab_shown(index);
        self.playlists.active_tab = self.playlists.current_tab;
        self.playlist_revision = self.playlist_revision + 1;
        assert(self@ =~= expected.app);
        let mut effects = only(self.state_to_save());
        let titles = self.titles_to_read();
        note(&mut effects, titles);
        note(&mut effects, Effect::PlayIndex(index));
        assert(effects_view(effects@) =~= expected.effects);
        effects
    }

    fn play_neighbour(&mut self, index: usize) -> (r: Vec<Effect>)
        requires
            old(self)@.wf(),
        ensures
            outcome_of(*final(self), r@) == old(self)@.neighbour_played(index),
    {
        if self.playlists.current.is_none() || self.playlists.active_tab
            == self.playlists.current_tab {
            self.on_play_index(index)
        } else if self.engine_ready {
            self.show_current_tab(index)
        } else {
            nothing()
        }
    }

    fn on_song_started(&mut self, length_frames: usize) -> (r: Vec<Effect>)
        requires
            old(self)@.wf(),
        ensures
            outcome_of(*final(self), r@) == old(self)@.song_started(length_frames),
    {
        self.status = match self.playlists.current {
            Some(index) => self.display_title(index),
            None => "Playing".to_owned(),
        };
        self.playing = true;
        self.paused = false;
        self.paused_position = None;
        self.song_length_frames = length_frames;
        self.position_frames = 0;
        self.seek = None;
        self.tray_pushed_secs = Some(0);
        assert(self@ =~= old(self)@.song_started(length_frames).app);
        only(Effect::PushTooltip(self.tray_info()))
    }

    fn on_song_failed(&mut self, error: String) -> (r: Vec<Effect>)
        ensures
            outcome_of(*final(self), r@) == old(self)@.song_failed(error@),
    {
        self.playing = false;
        self.paused = false;
        self.paused_position = None;
        self.tray_song = None;
        self.status = error;
        assert(self@ =~= old(self)@.song_failed(error@).app);
        only(Effect::PushTooltip(self.tray_info()))
    }

    /// Pauses by stopping the engine, and keeps the position. The pause of
    /// the engine only mutes clips.
    pub fn pause_as_stop(&mut self, transport: Option<TransportSnapshot>) -> (r: Vec<Effect>)
        ensures
            outcome_of(*final(self), r@) == old(self)@.paused_at(transport),
    {
        let frames: usize = match transport {
            Some(snapshot) => snapshot.sample,
            None => self.position_frames,
        };
        self.paused = true;
        self.paused_position = Some(frames);
        self.position_frames = frames;
        assert(self@ =~= AppModel {
            paused: true,
            paused_position: Some(frames),
            position_frames: frames,
            ..old(self)@
        });
        self.request(EngineRequest::Stop)
    }

    /// Goes on from the position that was kept.
    pub fn resume_playback(&mut self) -> (r: Vec<Effect>)
        ensures
            outcome_of(*final(self), r@) == old(self)@.resumed(),
    {
        if !self.engine_ready {
            return nothing();
        }
        match self.paused_position {
            Some(frames) => {
                self.paused_position = None;
                self.paused = false;
                self.playing = true;
                self.position_frames = frames;
                assert(self@ =~= old(self)@.resumed().app);
                only(Effect::ResumeSong(frames))
            },
            None => nothing(),
        }
    }

    fn begin(&mut self) -> (r: Vec<Effect>)
        requires
            old(self)@.wf(),
        ensures
            outcome_of(*final(self), r@) == old(self)@.begun(),
    {
        if self.selected.is_some() {
            self.on_play_selected()
        } else {
            self.on_play_current()
        }
    }

    fn on_play_toggled(&mut self, readings: &Readings) -> (r: Vec<Effect>)
        requires
            old(self)@.wf(),
        ensures
            outcome_of(*final(self), r@) == old(self)@.play_toggled(*readings),
    {
        if self.playing && !self.paused {
            let transport = self.transport_of(readings);
            self.pause_as_stop(transport)
        } else if self.paused {
            self.resume_playback()
        } else {
            self.begin()
        }
    }

    fn on_play_pressed(&mut self) -> (r: Vec<Effect>)
        requires
            old(self)@.wf(),
        ensures
            outcome_of(*final(self), r@) == old(self)@.play_pressed(),
    {
        if self.paused {
            self.resume_playback()
        } else if !self.playing {
            self.begin()
        } else {
            nothing()
        }
    }

    fn on_pause_pressed(&mut self, readings: &Readings) -> (r: Vec<Effect>)
        ensures
            outcome_of(*final(self), r@) == old(self)@.pause_pressed(*readings),
    {
        if self.playing && !self.paused {
            let transport = self.transport_of(readings);
            self.pause_as_stop(transport)
        } else {
            nothing()
        }
    }

    fn on_stop(&mut self) -> (r: Vec<Effect>)
        ensures
            outcome_of(*final(self), r@) == old(self)@.stopped(),
    {
        let ghost expected = self@.stopped();
        self.playing = false;
        self.paused = false;
        self.paused_position = None;
        self.position_frames = 0;
        self.seek = None;
        self.tray_song = None;
        self.tray_pushed_secs = None;
        assert(self@ =~= expected.app);
        let mut effects = only(Effect::PushTooltip(self.tray_info()));
        let more = self.request(EngineRequest::Stop);
        note_all(&mut effects, more);
        effects
    }

    /// The song after the current one in its tab.
    fn song_after(&self) -> (r: Option<usize>)
        requires
            self@.wf(),
            self@.has_current_tab(),
        ensures
            r == self@.next_song(),
    {
        match self.playlists.current {
            Some(index) => {
                let playlist = &self.playlists.playlists[self.playlists.current_tab];
                assert(self@.current_entries() == playlist@.entries);
                playlist.next(index)
            },
            None => None,
        }
    }

    fn on_next(&mut self) -> (r: Vec<Effect>)
        requires
            old(self)@.wf(),
            old(self)@.has_current_tab(),
        ensures
            outcome_of(*final(self), r@) == old(self)@.next_pressed(),
    {
        assert(self@.current_entries()
            == self.playlists.playlists@[self.playlists.current_tab as int]@.entries);
        match self.song_after() {
            Some(index) => self.play_neighbour(index),
            None => if self.playlists.playlists[self.playlists.current_tab].entries.len() > 1 {
                self.play_neighbour(0)
            } else {
                self.on_stop()
            },
        }
    }

    fn on_previous(&mut self) -> (r: Vec<Effect>)
        requires
            old(self)@.wf(),
            old(self)@.has_current_tab(),
        ensures
            outcome_of(*final(self), r@) == old(self)@.previous_pressed(),
    {
        let previous = match self.playlists.current {
            Some(index) => {
                let playlist = &self.playlists.playlists[self.playlists.current_tab];
                assert(self@.current_entries() == playlist@.entries);
                playlist.previous(index)
            },
            None => None,
        };
        match previous {
            Some(index) => self.play_neighbour(index),
            None => nothing(),
        }
    }

    fn on_remove(&mut self) -> (r: Vec<Effect>)
        requires
            old(self)@.wf(),
        ensures
            outcome_of(*final(self), r@) == old(self)@.selected_removed(),
    {
        let index: usize = match self.selected {
            Some(index) => index,
            None => {
                return nothing();
            },
        };
        let tab: usize = self.playlists.active_tab;
        let was_current: bool = self.playlists.current_tab == tab
            && match self.playlists.current {
            Some(current) => current == index,
            None => false,
        };
        self.playlists.remove_entry(tab, index);
        self.selected = None;
        self.playlist_revision = self.playlist_revision + 1;
        let ghost app = (AppModel {
            playlists: old(self)@.playlists.without_entry(tab as int, index as int),
            selected: None,
            ..old(self)@
        }).rows_changed();
        assert(self@ =~= app);
        proof {
            law_removal_keeps_store(old(self)@.playlists, tab as int, index as int);
        }
        let mut effects = self.store_changed();
        if was_current {
            let more = self.on_stop();
            note_all(&mut effects, more);
        } else {
            assert(effects_view(effects@) + Seq::empty() =~= effects_view(effects@));
        }
        effects
    }

    fn on_loop_toggled(&mut self) -> (r: Vec<Effect>)
        ensures
            outcome_of(*final(self), r@) == old(self)@.loop_toggled(),
    {
        self.loop_playlist = !self.loop_playlist;
        self.settings.loop_playlist = self.loop_playlist;
        assert(self@ =~= old(self)@.loop_toggled().app);
        only(self.settings_to_save())
    }

    /// Puts the songs of the active tab into a new order.
    pub fn reorder_active(&mut self, entries: Vec<SongPath>) -> (r: Vec<Effect>)
        requires
            old(self)@.wf(),
        ensures
            outcome_of(*final(self), r@) == old(self)@.reordered(paths_view(entries@)),
    {
        let ghost expected = self@.reordered(paths_view(entries@));
        let ghost tab = self.playlists.active_tab as int;
        assert(self@.playlists.playlists[tab] == self.playlists.playlists@[tab]@);
        let before = &self.playlists.active().entries;
        let selected = remap(before, &entries, self.selected);
        if self.playlists.current_tab == self.playlists.active_tab {
            let current = remap(before, &entries, self.playlists.current);
            self.playlists.current = current;
        }
        self.selected = selected;
        self.playlists.active_mut().reorder(entries);
        self.playlist_revision = self.playlist_revision + 1;
        assert(self@.playlists.playlists =~= expected.app.playlists.playlists);
        assert(self@ =~= expected.app);
        proof {
            lemma_lengths(self.playlists);
            law_reorder_keeps_store(old(self)@, paths_view(entries@));
        }
        self.store_changed()
    }

    fn on_shuffle(&mut self) -> (r: Vec<Effect>)
        requires
            old(self)@.wf(),
        ensures
            exists|seed: u64|
                outcome_of(*final(self), r@) == #[trigger] old(self)@.shuffled(seed),
    {
        if self.playlists.active().entries.len() > 1 {
            let entries = self.playlists.active().shuffled();
            let ghost shown = self@.shown_entries();
            let ghost seed = choose|seed: u64|
                paths_view(entries@) == #[trigger] shuffled_by(shown, seed);
            let r = self.reorder_active(entries);
            assert(outcome_of(*self, r@) == old(self)@.shuffled(seed));
            r
        } else {
            let r = nothing();
            assert(outcome_of(*self, r@) == old(self)@.shuffled(0));
            r
        }
    }

    fn on_sort(&mut self) -> (r: Vec<Effect>)
        requires
            old(self)@.wf(),
        ensures
            outcome_of(*final(self), r@) == old(self)@.sorted(),
    {
        if self.playlists.active().entries.len() > 1 {
            let entries = self.playlists.active().sorted_by_titles(&self.titles);
            proof {
                let shown = self@.shown_entries();
                let texts = lowered_titles(shown, self@.titles);
                lemma_sorted_songs(shown, texts, paths_view(entries@));
            }
            self.reorder_active(entries)
        } else {
            nothing()
        }
    }

    fn on_title_format_submitted(&mut self) -> (r: Vec<Effect>)
        requires
            old(self)@.wf(),
        ensures
            outcome_of(*final(self), r@) == old(self)@.title_format_submitted(),
    {
        let ghost expected = self@.title_format_submitted();
        let format = trim(self.title_format_edit.as_str());
        if chars_of(format.as_str()).len() == 0 {
            self.settings.title_format = default_title_format();
            self.title_format_edit = default_title_format();
        } else {
            self.settings.title_format = format;
        }
        self.playlist_revision = self.playlist_revision + 1;
        assert(self@ =~= expected.app);
        let mut effects = only(self.settings_to_save());
        let titles = self.titles_to_read();
        note(&mut effects, titles);
        assert(effects_view(effects@) =~= expected.effects);
        effects
    }

    fn on_tray_show(&mut self) -> (r: Vec<Effect>)
        ensures
            outcome_of(*final(self), r@) == old(self)@.tray_show_requested(),
    {
        match self.main_window {
            Some(id) => only(Effect::FocusWindow(id)),
            None => only(Effect::OpenWindow),
        }
    }

    fn on_meter_tick(&mut self, readings: &Readings) -> (r: Vec<Effect>)
        ensures
            outcome_of(*final(self), r@) == quiet(old(self)@.metered(*readings)),
    {
        if self.engine_ready {
            if let Some(levels) = &readings.levels {
                let copy = copy_levels(levels);
                self.levels_db = copy;
            }
        }
        assert(self@ =~= old(self)@.metered(*readings));
        nothing()
    }

    fn on_moved(&mut self, sample: usize) -> (r: Vec<Effect>)
        ensures
            outcome_of(*final(self), r@) == old(self)@.moved_to(sample),
    {
        let secs: u64 = seconds_of(sample);
        self.position_frames = sample;
        let shown: bool = match self.tray_pushed_secs {
            Some(pushed) => pushed == secs,
            None => false,
        };
        if shown {
            assert(self@ =~= old(self)@.moved_to(sample).app);
            return nothing();
        }
        self.tray_pushed_secs = Some(secs);
        assert(self@ =~= old(self)@.moved_to(sample).app);
        only(Effect::PushTooltip(self.tray_info()))
    }

    fn on_tick(&mut self, readings: &Readings) -> (r: Vec<Effect>)
        requires
            old(self)@.wf(),
            old(self)@.can_handle(Message::Tick, *readings),
        ensures
            outcome_of(*final(self), r@) == old(self)@.ticked(*readings),
    {
        let snapshot = match self.transport_of(readings) {
            Some(snapshot) => snapshot,
            None => {
                return nothing();
            },
        };
        if !self.playing || self.paused {
            return nothing();
        }
        if !snapshot.playing {
            self.playing = false;
            self.paused = false;
            self.status = "Stopped.".to_owned();
            assert(self@ =~= old(self)@.ticked(*readings).app);
            return nothing();
        }
        let mut effects = self.on_moved(snapshot.sample);
        let ghost moved = old(self)@.moved_to(snapshot.sample);
        if self.song_length_frames > 0 && snapshot.sample >= self.song_length_frames {
            assert(moved.app.current_entries()
                == self.playlists.playlists@[self.playlists.current_tab as int]@.entries);
            let next = if self.playlists.playlists[self.playlists.current_tab].entries.len() == 0 {
                None
            } else {
                match self.song_after() {
                    Some(index) => Some(index),
                    None => if self.loop_playlist {
                        Some(0)
                    } else {
                        None
                    },
                }
            };
            let more = match next {
                Some(index) => self.play_neighbour(index),
                None => self.on_stop(),
            };
            note_all(&mut effects, more);
        }
        effects
    }

    fn on_position_released(&mut self) -> (r: Vec<Effect>)
        ensures
            outcome_of(*final(self), r@) == old(self)@.position_released(),
    {
        match self.seek {
            Some(point) => {
                let frames: usize = point.frames;
                self.seek = None;
                self.position_frames = frames;
                if self.paused {
                    self.paused_position = Some(frames);
                }
                assert(self@ =~= AppModel {
                    seek: None,
                    position_frames: frames,
                    paused_position: if old(self)@.paused {
                        Some(frames)
                    } else {
                        old(self)@.paused_position
                    },
                    ..old(self)@
                });
                self.request(EngineRequest::TransportPosition(frames))
            },
            None => nothing(),
        }
    }

    fn on_volume_changed(&mut self, level: Level) -> (r: Vec<Effect>)
        ensures
            outcome_of(*final(self), r@) == old(self)@.volume_changed(level),
    {
        self.volume_db = level;
        assert(self@ =~= AppModel { volume_db: level, ..old(self)@ });
        self.request(EngineRequest::TrackLevel("hw:out".to_owned(), level))
    }

    fn on_volume_released(&mut self) -> (r: Vec<Effect>)
        ensures
            outcome_of(*final(self), r@) == old(self)@.volume_released(),
    {
        self.settings.volume_db = self.volume_db;
        assert(self@ =~= old(self)@.volume_released().app);
        only(self.settings_to_save())
    }

    // The settings screen.

    /// The screen for the settings in force.
    pub fn build_setup_state(&self, host: &Host) -> (r: AudioSetup)
        requires
            host_fragments_known(*host),
        ensures
            Some(r@) == self@.settings_opened(*host).app.setup,
    {
        let effective = self.effective_settings();
        let r = build_setup(&effective, host);
        proof {
            let backend = crate::device::device_backend(host.platform, effective@.device_id);
            lemma_discovered(*host, backend, r@.output_devices);
        }
        r
    }

    fn on_settings_pressed(&mut self, host: &Host) -> (r: Vec<Effect>)
        requires
            host_fragments_known(*host),
        ensures
            outcome_of(*final(self), r@) == old(self)@.settings_opened(*host),
    {
        let setup = self.build_setup_state(host);
        self.show_settings = true;
        self.setup = Some(setup);
        assert(self@ =~= old(self)@.settings_opened(*host).app);
        nothing()
    }

    fn on_settings_closed(&mut self) -> (r: Vec<Effect>)
        ensures
            outcome_of(*final(self), r@) == quiet(
                AppModel { show_settings: false, setup: None, ..old(self)@ },
            ),
    {
        self.show_settings = false;
        self.setup = None;
        assert(self@ =~= AppModel { show_settings: false, setup: None, ..old(self)@ });
        nothing()
    }

    fn on_setup_action(&mut self, action: SetupAction, host: &Host) -> (r: Vec<Effect>)
        requires
            old(self)@.wf(),
            action is BackendSelected && old(self)@.setup is Some ==> host_fragments_known(*host),
            action matches SetupAction::OutputDeviceSelected(device) ==> old(self)@.setup is Some
                ==> fragment_known(Some(device@)),
        ensures
            outcome_of(*final(self), r@) == old(self)@.setup_changed(action, *host),
    {
        let ghost expected = self@.setup_changed(action, *host);
        let mut setup = match self.setup.take() {
            Some(setup) => setup,
            None => {
                assert(self@ =~= old(self)@);
                return nothing();
            },
        };
        match action {
            SetupAction::BackendSelected(backend) => {
                setup.select_backend(backend, host);
                proof {
                    lemma_discovered(*host, backend, setup@.output_devices);
                }
            },
            SetupAction::OutputDeviceSelected(device) => {
                setup.select_device(device);
            },
            SetupAction::PeriodFramesSelected(frames) => {
                setup.selected_period_frames = Some(frames);
            },
            SetupAction::Start => {
                return self.restart(setup, host);
            },
            SetupAction::Other => {},
        }
        self.setup = Some(setup);
        assert(self@ =~= expected.app);
        nothing()
    }

    fn restart(&mut self, setup: AudioSetup, host: &Host) -> (r: Vec<Effect>)
        requires
            old(self)@.wf(),
            old(self)@.setup is None,
        ensures
            outcome_of(*final(self), r@) == old(self)@.restarted(setup@, *host),
    {
        let ghost expected = self@.restarted(setup@, *host);
        let settings = Settings {
            device_id: setup.chosen_device_id(host.sound_unit),
            period_frames: setup.chosen_period_frames(),
            n_periods: DEFAULT_N_PERIODS,
            ring_buffer_multiplier: default_ring_buffer_multiplier(),
            volume_db: self.volume_db,
            title_format: self.settings.title_format.clone(),
            loop_playlist: self.loop_playlist,
        };
        let mut effects = only(Effect::SaveSettings { settings: settings.clone(), report: false });
        self.settings = settings;
        self.show_settings = false;
        self.playing = false;
        self.paused = false;
        self.paused_position = None;
        self.playlists.current = None;
        self.song_length_frames = 0;
        self.tray_song = None;
        self.tray_pushed_secs = None;
        self.engine_ready = false;
        self.status = "Reopening audio device...".to_owned();
        self.playlist_revision = self.playlist_revision + 1;
        assert(self@ =~= expected.app);
        let state = self.state_to_save();
        note(&mut effects, state);
        let info = self.tray_info();
        note(&mut effects, Effect::PushTooltip(info));
        let effective = self.effective_settings();
        let (device, period_frames, n_periods) = effective.open_action();
        note(
            &mut effects,
            Effect::ReopenEngine {
                device,
                period_frames,
                n_periods,
                ring_buffer_multiplier: effective.ring_buffer_multiplier,
            },
        );
        assert(effects_view(effects@) =~= expected.effects);
        effects
    }

    // What was read.

    fn on_titles_read(&mut self, tags: Vec<AudioMetadata>) -> (r: Vec<Effect>)
        requires
            old(self)@.wf(),
        ensures
            outcome_of(*final(self), r@) == old(self)@.titled(tags_view(tags@)),
    {
        let ghost entries = self@.shown_entries();
        let ghost format = self@.settings.title_format;
        let ghost all = titles_of(entries, tags_view(tags@), format);
        let mut titles: Vec<String> = Vec::new();
        let mut i: usize = 0;
        while i < self.playlists.active().entries.len()
            invariant
                self@ == old(self)@,
                self@.wf(),
                entries == self@.shown_entries(),
                format == self@.settings.title_format,
                all == titles_of(entries, tags_view(tags@), format),
                i <= entries.len(),
                texts_view(titles@) == all.take(i as int),
            decreases entries.len() - i,
        {
            let ghost before = texts_view(titles@);
            let none = AudioMetadata::default();
            let meta = if i < tags.len() {
                assert(tags_view(tags@)[i as int] == tags@[i as int]@);
                &tags[i]
            } else {
                &none
            };
            let path = &self.playlists.active().entries[i];
            assert(entries[i as int] == path@);
            let title = format_song_title(meta, path, self.settings.title_format.as_str());
            assert(all[i as int] == title@);
            titles.push(title);
            i = i + 1;
            assert(texts_view(titles@) =~= before.push(title@));
            assert(texts_view(titles@) =~= all.take(i as int));
        }
        assert(texts_view(titles@) =~= all);
        self.titles = titles;
        self.playlist_revision = self.playlist_revision + 1;
        assert(self@ =~= old(self)@.titled(tags_view(tags@)).app);
        nothing()
    }

    fn on_song_tags_read(&mut self, path: &SongPath, meta: &AudioMetadata) -> (r: Vec<Effect>)
        ensures
            outcome_of(*final(self), r@) == quiet(
                AppModel {
                    tray_song: Some(crate::title::tray_song_of(meta@, path@)),
                    ..old(self)@
                },
            ),
    {
        let song = tray_song(meta, path);
        self.tray_song = Some(song);
        assert(self@ =~= AppModel {
            tray_song: Some(crate::title::tray_song_of(meta@, path@)),
            ..old(self)@
        });
        nothing()
    }
}

/// The player at its start.
pub fn new(playlists: Playlists, settings: Settings, device_override: Option<String>) -> (r: (
    PlayerApp,
    Vec<Effect>,
))
    requires
        playlists@.wf(),
    ensures
        outcome_of(r.0, r.1@) == started(playlists@, settings@, text_view(device_override)),
{
    let ghost expected = started(playlists@, settings@, text_view(device_override));
    let silent = Level { bits: SILENT_LEVEL_BITS };
    let mut levels_db: Vec<Level> = Vec::new();
    levels_db.push(silent);
    levels_db.push(silent);
    let app = PlayerApp {
        engine_ready: false,
        status: "Starting audio engine...".to_owned(),
        playlists,
        titles: Vec::new(),
        selected: None,
        playing: false,
        paused: false,
        paused_position: None,
        song_length_frames: 0,
        position_frames: 0,
        seek: None,
        last_row_press: None,
        last_tab_press: None,
        renaming_tab: None,
        rename_draft: String::new(),
        volume_db: settings.volume_db,
        levels_db,
        loop_playlist: settings.loop_playlist,
        title_format_edit: settings.title_format.clone(),
        main_window: None,
        settings,
        device_override,
        show_settings: false,
        setup: None,
        playlist_revision: 1,
        tray_song: None,
        tray_pushed_secs: None,
    };
    assert(app@ =~= expected.app);
    let mut effects = only(app.titles_to_read());
    note(&mut effects, Effect::InitTray);
    let effective = app.effective_settings();
    let (device, period_frames, n_periods) = effective.open_action();
    note(
        &mut effects,
        Effect::OpenEngine {
            device,
            period_frames,
            n_periods,
            ring_buffer_multiplier: effective.ring_buffer_multiplier,
        },
    );
    assert(effects_view(effects@) =~= expected.effects);
    (app, effects)
}

fn dispatch(app: &mut PlayerApp, message: Message, readings: &Readings) -> (r: Vec<Effect>)
    requires
        old(app)@.wf(),
        old(app)@.can_handle(message, *readings),
    ensures
        old(app)@.leads_to(message, *readings, outcome_of(*final(app), r@)),
{
    match message {
        Message::EngineReady(Ok(_)) => app.on_engine_opened(),
        Message::EngineReady(Err(error)) => app.on_engine_failed(error.as_str()),
        Message::AddFilesPressed => only(Effect::PickFiles),
        Message::AddFolderPressed => only(Effect::PickFolder),
        Message::FilesAdded(files) => app.on_files_added(files),
        Message::Select(index) => app.on_select(index),
        Message::PlaySelected => app.on_play_selected(),
        Message::PlayCurrent => app.on_play_current(),
        Message::PlayIndex(index) => app.on_play_index(index),
        Message::SongLoaded(Ok(song)) => app.on_song_started(song.length_frames),
        Message::SongLoaded(Err(error)) => app.on_song_failed(error),
        Message::PlayToggled => app.on_play_toggled(readings),
        Message::PlayPressed => app.on_play_pressed(),
        Message::PausePressed => app.on_pause_pressed(readings),
        Message::StopPressed => app.on_stop(),
        Message::NextPressed => app.on_next(),
        Message::PreviousPressed => app.on_previous(),
        Message::RemovePressed => app.on_remove(),
        Message::Tick => app.on_tick(readings),
        Message::SettingsPressed => app.on_settings_pressed(&readings.host),
        Message::SettingsClosed => app.on_settings_closed(),
        Message::SettingsAction(action) => app.on_setup_action(action, &readings.host),
        Message::VolumeChanged(level) => app.on_volume_changed(level),
        Message::VolumeReleased => app.on_volume_released(),
        Message::PositionChanged(point) => {
            app.seek = Some(point);
            assert(app@ =~= AppModel { seek: Some(point), ..old(app)@ });
            nothing()
        },
        Message::PositionReleased => app.on_position_released(),
        Message::RowPressed(index) => app.on_row_pressed(index, readings.now_nanos),
        Message::TabPressed(index) => app.on_tab_pressed(index, readings.now_nanos),
        Message::TabRenameChanged(draft) => {
            app.rename_draft = draft;
            assert(app@ =~= AppModel { rename_draft: draft@, ..old(app)@ });
            nothing()
        },
        Message::TabRenameSubmitted => app.commit_tab_rename(),
        Message::TabRenameCancelled => {
            app.cancel_rename();
            nothing()
        },
        Message::TabClosePressed(index) => app.on_tab_closed(index),
        Message::TabAddPressed => app.on_tab_added(),
        Message::MeterTick => app.on_meter_tick(readings),
        Message::LoopToggled => app.on_loop_toggled(),
        Message::ShufflePressed => app.on_shuffle(),
        Message::SortPressed => app.on_sort(),
        Message::TitleFormatChanged(text) => {
            app.title_format_edit = text;
            assert(app@ =~= AppModel { title_format_edit: text@, ..old(app)@ });
            nothing()
        },
        Message::TitleFormatSubmitted => app.on_title_format_submitted(),
        Message::WindowOpened(id) => {
            app.main_window = Some(id);
            assert(app@ =~= AppModel { main_window: Some(id), ..old(app)@ });
            nothing()
        },
        Message::WindowCloseRequested(id) => {
            app.main_window = None;
            assert(app@ =~= AppModel { main_window: None, ..old(app)@ });
            only(Effect::CloseWindow(id))
        },
        Message::TrayShowRequested => app.on_tray_show(),
        Message::TrayQuitRequested => only(Effect::Exit),
        Message::QuitRequested => only(Effect::Exit),
        Message::TitlesRead(tags) => app.on_titles_read(tags),
        Message::SongTagsRead(path, tags) => app.on_song_tags_read(&path, &tags),
        Message::SettingsSaveFailed(error) => {
            app.status = error;
            assert(app@ =~= AppModel { status: error@, ..old(app)@ });
            nothing()
        },
        Message::Ignored => nothing(),
    }
}

/// Whether the devices that a message speaks of, and those of the host where
/// it asks for them, have so few channels that their periods can be told.
pub open spec fn devices_are_plausible(message: Message, host: Host) -> bool {
    match message {
        Message::SettingsPressed => plausible(host),
        Message::SettingsAction(SetupAction::BackendSelected(_)) => plausible(host),
        Message::SettingsAction(SetupAction::OutputDeviceSelected(device)) => few_channels(
            device.max_channels,
        ),
        _ => true,
    }
}

pub open spec fn plausible(host: Host) -> bool {
    forall|i: int|
        0 <= i < host.descriptors@.len() ==> few_channels(
            (#[trigger] host.descriptors@[i]).max_channels,
        )
}

/// Whether a message can be handled. It can unless the next song is asked
/// for after its tab was closed, a device is not plausible, or there is no
/// room to count on.
pub fn can_update(app: &PlayerApp, message: &Message, readings: &Readings) -> (r: bool)
    requires
        app@.playlists.wf(),
    ensures
        r ==> app@.wf() && app@.can_handle(*message, *readings),
        app@.wf() && app@.can_handle(*message, *readings) && devices_are_plausible(
            *message,
            readings.host,
        ) ==> r,
{
    let tabs: usize = app.playlists.playlists.len();
    if tabs >= usize::MAX - 2 || app.playlist_revision == u64::MAX {
        return false;
    }
    let has_tab: bool = app.playlists.current_tab < tabs;
    match message {
        Message::NextPressed => has_tab,
        Message::PreviousPressed => has_tab,
        Message::Tick => match app.transport_of(readings) {
            Some(snapshot) => has_tab || !(app.playing && !app.paused && snapshot.playing
                && app.song_length_frames > 0 && snapshot.sample >= app.song_length_frames),
            None => true,
        },
        Message::SettingsPressed => host_is_plausible(&readings.host),
        Message::SettingsAction(action) => match action {
            SetupAction::BackendSelected(_) => host_is_plausible(&readings.host),
            SetupAction::OutputDeviceSelected(device) => device_is_plausible(device),
            _ => true,
        },
        _ => true,
    }
}

/// Handles a message. The store stays well formed.
pub fn update(app: &mut PlayerApp, message: Message, readings: &Readings) -> (r: Vec<Effect>)
    requires
        old(app)@.wf(),
        old(app)@.can_handle(message, *readings),
    ensures
        old(app)@.leads_to(message, *readings, outcome_of(*final(app), r@)),
        final(app)@.playlists.wf(),
{
    let ghost told = message;
    let r = dispatch(app, message, readings);
    proof {
        lemma_lengths(app.playlists);
        law_every_message_is_sound(old(app)@, told, *readings, outcome_of(*app, r@));
        reveal(is_sound);
    }
    r
}

/// Whole seconds of a number of frames.
fn seconds_of(frames: usize) -> (r: u64)
    ensures
        r == whole_seconds(frames),
{
    (frames / (SAMPLE_RATE_HZ as usize)) as u64
}

fn copy_levels(levels: &Vec<Level>) -> (r: Vec<Level>)
    ensures
        r@ == levels@,
{
    let mut r: Vec<Level> = Vec::new();
    let mut i: usize = 0;
    while i < levels.len()
        invariant
            i <= levels@.len(),
            r@ == levels@.take(i as int),
        decreases levels@.len() - i,
    {
        r.push(levels[i]);
        i = i + 1;
        assert(r@ =~= levels@.take(i as int));
    }
    assert(r@ =~= levels@);
    r
}

} // verus!
