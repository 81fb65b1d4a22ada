//! What the window shows.
use vstd::prelude::*;

use crate::app::{AppModel, PlayerApp};
use crate::engine::one_or_more;
use crate::path::{paths_view, SongPath};
use crate::playlist::PlaylistModel;
use crate::reorder::{shown_title, texts_view};
use crate::title::song_title;
use crate::tray::{format_mss, minutes_text};

verus! {

/// What the rows depend on besides the songs and their titles, which the
/// revision stands for.
#[derive(Debug, Clone, Copy, PartialEq, Eq, Hash)]
pub struct RowsKey {
    pub revision: u64,
    pub engine_ok: bool,
    pub is_current_tab: bool,
    pub selected: Option<usize>,
    pub current: Option<usize>,
}

/// A row of the playlist.
#[derive(Debug)]
pub struct SongRow {
    pub title: String,
    pub is_current: bool,
    pub is_selected: bool,
    /// Whether it can be pressed.
    pub enabled: bool,
}

#[verifier::ext_equal]
pub struct RowModel {
    pub title: Seq<char>,
    pub is_current: bool,
    pub is_selected: bool,
    pub enabled: bool,
}

impl View for SongRow {
    type V = RowModel;

    open spec fn view(&self) -> RowModel {
        RowModel {
            title: self.title@,
            is_current: self.is_current,
            is_selected: self.is_selected,
            enabled: self.enabled,
        }
    }
}

pub open spec fn rows_view(rows: Seq<SongRow>) -> Seq<RowModel> {
    rows.map_values(|r: SongRow| r@)
}

/// The rows of a playlist: one for each song.
pub open spec fn rows_of(
    entries: Seq<Seq<u8>>,
    titles: Seq<Seq<char>>,
    selected: Option<usize>,
    current: Option<usize>,
    is_current_tab: bool,
    engine_ok: bool,
) -> Seq<RowModel> {
    Seq::new(
        entries.len(),
        |i: int|
            RowModel {
                title: shown_title(entries, titles, i),
                is_current: is_current_tab && current == Some(i as usize),
                is_selected: selected == Some(i as usize),
                enabled: engine_ok,
            },
    )
}

/// The rows of the active tab: one for each song.
pub fn playlist_rows(
    entries: &Vec<SongPath>,
    titles: &Vec<String>,
    selected: Option<usize>,
    current: Option<usize>,
    is_current_tab: bool,
    engine_ok: bool,
) -> (r: Vec<SongRow>)
    ensures
        rows_view(r@) == rows_of(
            paths_view(entries@),
            texts_view(titles@),
            selected,
            current,
            is_current_tab,
            engine_ok,
        ),
{
    let ghost all = rows_of(
        paths_view(entries@),
        texts_view(titles@),
        selected,
        current,
        is_current_tab,
        engine_ok,
    );
    let mut rows: Vec<SongRow> = Vec::new();
    let mut i: usize = 0;
    while i < entries.len()
        invariant
            i <= entries@.len(),
            all == rows_of(
                paths_view(entries@),
                texts_view(titles@),
                selected,
                current,
                is_current_tab,
                engine_ok,
            ),
            rows_view(rows@) == all.take(i as int),
        decreases entries@.len() - i,
    {
        let ghost before = rows_view(rows@);
        let title = if i < titles.len() {
            titles[i].clone()
        } else {
            song_title(&entries[i])
        };
        let row = SongRow {
            title,
            is_current: is_current_tab && is_at(current, i),
            is_selected: is_at(selected, i),
            enabled: engine_ok,
        };
        assert(all[i as int] =~= row@);
        rows.push(row);
        i = i + 1;
        assert(rows_view(rows@) =~= before.push(row@));
        assert(rows_view(rows@) =~= all.take(i as int));
    }
    assert(rows_view(rows@) =~= all);
    rows
}

fn is_at(position: Option<usize>, index: usize) -> (r: bool)
    ensures
        r == (position == Some(index)),
{
    match position {
        Some(at) => at == index,
        None => false,
    }
}

/// A tab of the tab bar.
#[derive(Debug)]
pub struct TabItem {
    pub name: String,
    pub is_active: bool,
    /// Whether its name is edited in place.
    pub is_renaming: bool,
}

#[verifier::ext_equal]
pub struct TabModel {
    pub name: Seq<char>,
    pub is_active: bool,
    pub is_renaming: bool,
}

impl View for TabItem {
    type V = TabModel;

    open spec fn view(&self) -> TabModel {
        TabModel {
            name: self.name@,
            is_active: self.is_active,
            is_renaming: self.is_renaming,
        }
    }
}

pub open spec fn tabs_view(tabs: Seq<TabItem>) -> Seq<TabModel> {
    tabs.map_values(|t: TabItem| t@)
}

/// The tabs of the tab bar: one for each playlist.
pub open spec fn tabs_of(
    playlists: Seq<PlaylistModel>,
    active: usize,
    renaming: Option<usize>,
) -> Seq<TabModel> {
    Seq::new(
        playlists.len(),
        |i: int|
            TabModel {
                name: playlists[i].name,
                is_active: i == active,
                is_renaming: renaming == Some(i as usize),
            },
    )
}

/// The buttons of the transport, and whether they can be pressed.
#[derive(Debug, Clone, Copy, PartialEq, Eq, Structural)]
pub struct Controls {
    pub previous: bool,
    /// Whether the toggle shows the pause symbol.
    pub shows_pause: bool,
    pub play_toggle: bool,
    pub stop: bool,
    pub next: bool,
    pub remove: bool,
    pub loop_on: bool,
}

/// What the window shows.
#[derive(Debug)]
pub struct WindowView {
    pub rows_key: RowsKey,
    /// Whether a hint stands in place of the rows.
    pub shows_hint: bool,
    pub rows: Vec<SongRow>,
    pub tabs: Vec<TabItem>,
    pub controls: Controls,
    /// Whether the settings screen covers the window.
    pub shows_settings: bool,
}

impl AppModel {
    /// What the rows depend on.
    pub open spec fn rows_key(self) -> RowsKey {
        RowsKey {
            revision: self.playlist_revision,
            engine_ok: self.engine_ready,
            is_current_tab: self.playlists.active_tab == self.playlists.current_tab,
            selected: self.selected,
            current: self.playlists.current,
        }
    }

    /// The rows of the active tab.
    pub open spec fn rows(self) -> Seq<RowModel> {
        rows_of(
            self.shown_entries(),
            self.titles,
            self.selected,
            self.playlists.current,
            self.playlists.active_tab == self.playlists.current_tab,
            self.engine_ready,
        )
    }

    /// The tabs of the tab bar.
    pub open spec fn tabs(self) -> Seq<TabModel> {
        tabs_of(self.playlists.playlists, self.playlists.active_tab, self.renaming_tab)
    }

    /// The buttons. The toggle pauses what plays, and else plays the
    /// selection or the current song.
    pub open spec fn controls(self) -> Controls {
        let several = self.shown_entries().len() > 1 && self.engine_ready;
        Controls {
            previous: several,
            shows_pause: self.playing && !self.paused,
            play_toggle: self.engine_ready && (self.playing && !self.paused || self.selected is Some
                || self.playlists.current is Some),
            stop: self.playing || self.paused,
            next: several,
            remove: self.selected is Some,
            loop_on: self.loop_playlist,
        }
    }
}

fn tab_items(app: &PlayerApp) -> (r: Vec<TabItem>)
    ensures
        tabs_view(r@) == app@.tabs(),
{
    let ghost all = app@.tabs();
    let mut tabs: Vec<TabItem> = Vec::new();
    let mut i: usize = 0;
    while i < app.playlists.playlists.len()
        invariant
            i <= app.playlists.playlists@.len(),
            all == app@.tabs(),
            tabs_view(tabs@) == all.take(i as int),
        decreases app.playlists.playlists@.len() - i,
    {
        let ghost before = tabs_view(tabs@);
        let tab = TabItem {
            name: app.playlists.playlists[i].name.clone(),
            is_active: i == app.playlists.active_tab,
            is_renaming: is_at(app.renaming_tab, i),
        };
        assert(all[i as int] =~= tab@);
        tabs.push(tab);
        i = i + 1;
        assert(tabs_view(tabs@) =~= before.push(tab@));
        assert(tabs_view(tabs@) =~= all.take(i as int));
    }
    assert(tabs_view(tabs@) =~= all);
    tabs
}

/// What the window shows.
pub fn view(app: &PlayerApp) -> (r: WindowView)
    requires
        app@.playlists.wf(),
    ensures
        r.rows_key == app@.rows_key(),
        r.shows_hint == (app@.shown_entries().len() == 0),
        rows_view(r.rows@) == app@.rows(),
        tabs_view(r.tabs@) == app@.tabs(),
        r.controls == app@.controls(),
        r.shows_settings == (app.show_settings && app@.setup is Some),
{
    let engine_ok: bool = app.engine_ready;
    let playlist = app.playlists.active();
    let is_current_tab: bool = app.playlists.active_tab == app.playlists.current_tab;
    let several: bool = playlist.entries.len() > 1 && engine_ok;
    let sounding: bool = app.playing && !app.paused;
    WindowView {
        rows_key: RowsKey {
            revision: app.playlist_revision,
            engine_ok,
            is_current_tab,
            selected: app.selected,
            current: app.playlists.current,
        },
        shows_hint: playlist.entries.len() == 0,
        rows: playlist_rows(
            &playlist.entries,
            &app.titles,
            app.selected,
            app.playlists.current,
            is_current_tab,
            engine_ok,
        ),
        tabs: tab_items(app),
        controls: Controls {
            previous: several,
            shows_pause: sounding,
            play_toggle: engine_ok && (sounding || app.selected.is_some()
                || app.playlists.current.is_some()),
            stop: app.playing || app.paused,
            next: several,
            remove: app.selected.is_some(),
            loop_on: app.loop_playlist,
        },
        shows_settings: app.show_settings && app.setup.is_some(),
    }
}

/// A number of frames as minutes and seconds.
pub fn format_time(frames: usize, sample_rate: u32) -> (r: String)
    ensures
        r@ == minutes_text(frames as nat / one_or_more(sample_rate as nat)),
{
    let rate: u64 = if sample_rate == 0 {
        1
    } else {
        sample_rate as u64
    };
    format_mss(frames as u64 / rate)
}

/// Views with the same key show the same rows, where the songs and titles
/// are the same.
pub proof fn law_rows_follow_their_key(a: AppModel, b: AppModel)
    requires
        a.shown_entries() == b.shown_entries(),
        a.titles == b.titles,
        a.rows_key() == b.rows_key(),
    ensures
        a.rows() == b.rows(),
{
}

} // verus!
