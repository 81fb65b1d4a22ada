//! What the player promises of playing, pausing, reordering and renaming.
use vstd::prelude::*;

use crate::app::{
    quiet, remapped, started, AppModel, EffectModel, Message, Outcome, Readings,
    TransportSnapshot, DOUBLE_CLICK_NANOS,
};
use crate::device::{default_device_name, Host};
use crate::engine::{resuming, RequestModel, StepModel};
use crate::files::audio_files;
use crate::names::{
    fresh_name, law_next_name_is_fresh, law_rename_keeps_names_unique, lemma_fresh_name_exists,
    lemma_resolved_name_exists, resolved_name,
};
use crate::path::{paths_view, same_path};
use crate::playlist::{lemma_first_same, next_index, with_added, PlaylistModel, StoreModel};
use crate::reorder::{
    law_shuffle_is_permutation, law_sort_is_permutation, lemma_sorted_songs_exist, lowered_titles,
    shuffled_by, sorted_songs,
};
use crate::settings::{asked_device, loaded_settings, StoredModel};

verus! {

/// What plays is paused by stopping the engine, and goes on from where the
/// transport was: by the play key and by the toggle alike. The engine is sent
/// to that position, its clips are enabled, and it plays.
pub proof fn law_pause_remembers_position(app: AppModel, readings: Readings)
    requires
        app.playing,
        !app.paused,
        app.engine_ready,
    ensures
        ({
            let frames = match readings.transport {
                Some(snapshot) => snapshot.sample,
                None => app.position_frames,
            };
            let paused = app.pause_pressed(readings);
            let again = paused.app.play_pressed();
            &&& paused == app.play_toggled(readings)
            &&& paused.effects == seq![EffectModel::SendEngine(RequestModel::Stop)]
            &&& paused.app.position_frames == frames
            &&& again == paused.app.play_toggled(readings)
            &&& again == paused.app.resumed()
            &&& again.effects == seq![EffectModel::ResumeSong(frames)]
            &&& resuming(frames) == seq![
                StepModel::Send(RequestModel::TransportPosition(frames)),
                StepModel::Send(RequestModel::SetClipPlaybackEnabled(true)),
                StepModel::Send(RequestModel::Play),
            ]
            &&& again.app.playing
            &&& !again.app.paused
            &&& again.app.paused_position is None
            &&& again.app == (AppModel { position_frames: frames, paused_position: None, ..app })
        }),
{
    let paused = app.pause_pressed(readings);
    let again = paused.app.play_pressed();
    assert(again.app =~= AppModel {
        position_frames: again.app.position_frames,
        paused_position: None,
        ..app
    });
}

/// A stop forgets the position: the next play starts a song from its
/// beginning.
pub proof fn law_stop_forgets_position(app: AppModel)
    ensures
        ({
            let stopped = app.stopped().app;
            &&& !stopped.playing
            &&& !stopped.paused
            &&& stopped.paused_position is None
            &&& stopped.position_frames == 0
            &&& stopped.play_pressed() == stopped.begun()
            &&& forall|frames: usize|
                !stopped.begun().effects.contains(EffectModel::ResumeSong(frames))
        }),
{
    let stopped = app.stopped().app;
    assert forall|frames: usize| !stopped.begun().effects.contains(
        EffectModel::ResumeSong(frames),
    ) by {
        let effects = stopped.begun().effects;
        assert(forall|k: int|
            0 <= k < effects.len() ==> effects[k] != EffectModel::ResumeSong(frames));
    }
}

/// Playing another song forgets the position of the paused one, whichever
/// message asks for it, and what is played is the song of the row.
pub proof fn law_switching_songs_forgets_position(app: AppModel, index: usize)
    requires
        app.engine_ready,
        index < app.shown_entries().len(),
    ensures
        ({
            let played = app.played(index);
            &&& played.app.paused_position is None
            &&& played.effects.last() == EffectModel::PlaySong(
                app.shown_entries()[index as int],
            )
            &&& played.app.playlists.current == Some(index)
            &&& played.app.playlists.current_tab == app.playlists.active_tab
        }),
{
}

/// Without an engine, or without such a song, a request to play changes
/// nothing.
pub proof fn law_vain_play_changes_nothing(app: AppModel, index: usize)
    requires
        !app.engine_ready || index >= app.shown_entries().len(),
    ensures
        app.played(index) == quiet(app),
{
}

/// While paused, the position slider sets where playing goes on.
pub proof fn law_seek_while_paused(app: AppModel, frames: usize)
    requires
        app.paused,
        app.engine_ready,
        app.seek matches Some(point) && point.frames == frames,
    ensures
        app.position_released().app.resumed().effects == seq![EffectModel::ResumeSong(frames)],
{
}

/// A song comes to be played, in the tab that is shown then: at once, or as
/// soon as the tab of the current song is shown in place of another one.
pub open spec fn comes_to_play(before: AppModel, outcome: Outcome, index: int) -> bool {
    let song = EffectModel::PlaySong(before.current_entries()[index]);
    &&& outcome.app.playlists.active_tab == before.playlists.current_tab
    &&& if before.playlists.active_tab == before.playlists.current_tab {
        outcome.effects.last() == song
    } else {
        &&& outcome.effects.last() == EffectModel::PlayIndex(index as usize)
        &&& outcome.app.played(index as usize).effects.last() == song
    }
}

/// When a song ends, the next one of its playlist is played, whichever tab is
/// shown; after the last one the first one is, if the playlist is looped, and
/// else playing stops.
pub proof fn law_songs_follow_each_other(
    app: AppModel,
    readings: Readings,
    snapshot: TransportSnapshot,
    song: usize,
)
    requires
        app.wf(),
        app.engine_ready,
        app.playing,
        !app.paused,
        readings.transport == Some(snapshot),
        snapshot.playing,
        app.is_over_at(snapshot.sample),
        app.playlists.current == Some(song),
    ensures
        ({
            let after = app.ticked(readings);
            if song + 1 < app.current_entries().len() {
                comes_to_play(app, after, song + 1)
            } else if app.loop_playlist {
                comes_to_play(app, after, 0)
            } else {
                after.effects.last() == EffectModel::SendEngine(RequestModel::Stop)
                    && !after.app.playing
            }
        }),
{
    let moved = app.moved_to(snapshot.sample);
    assert(moved.app.following_song() == match next_index(app.current_entries().len(), song) {
        Some(index) => Some(index),
        None => if app.loop_playlist {
            Some(0)
        } else {
            None
        },
    });
}

/// Next and previous play the neighbours of the current song in its playlist,
/// whichever tab is shown. The first song is next after the last one.
pub proof fn law_next_and_previous_stay_in_playlist(app: AppModel, song: usize)
    requires
        app.wf(),
        app.engine_ready,
        app.playlists.current == Some(song),
    ensures
        ({
            let count = app.current_entries().len();
            &&& song + 1 < count ==> comes_to_play(app, app.next_pressed(), song + 1)
            &&& song + 1 == count && count > 1 ==> comes_to_play(app, app.next_pressed(), 0)
            &&& count == 1 ==> app.next_pressed() == app.stopped()
            &&& song > 0 ==> comes_to_play(app, app.previous_pressed(), song - 1)
            &&& song == 0 ==> app.previous_pressed() == quiet(app)
        }),
{
}

/// Two presses of a row within the time of a double click play its song, and
/// a third one soon after does not count as a second.
pub proof fn law_double_click_plays(app: AppModel, index: usize, first: u64, second: u64)
    requires
        app.last_row_press is None,
        first <= second,
    ensures
        ({
            let pressed = app.row_pressed(index, first).app;
            let again = pressed.row_pressed(index, second);
            &&& pressed.selected == Some(index)
            &&& second - first < DOUBLE_CLICK_NANOS ==> again == (AppModel {
                last_row_press: None,
                ..pressed
            }).played(index)
            &&& second - first >= DOUBLE_CLICK_NANOS ==> again.app.last_row_press == Some(
                (index, second),
            ) && again.effects.len() == 0
            &&& second - first < DOUBLE_CLICK_NANOS ==> again.app.last_row_press is None
        }),
{
}

/// A new order that loses no song keeps the selection on the same song, and
/// the current song too. One of another tab is left alone.
pub proof fn law_reorder_keeps_songs(app: AppModel, entries: Seq<Seq<u8>>)
    requires
        app.wf(),
        entries.to_multiset() == app.shown_entries().to_multiset(),
    ensures
        ({
            let before = app.shown_entries();
            let after = app.reordered(entries).app;
            &&& after.shown_entries() == entries
            &&& app.playlists.current_tab == app.playlists.active_tab ==> (
            app.playlists.current matches Some(song) ==> (after.playlists.current matches Some(
                moved,
            ) && same_path(entries[moved as int], before[song as int])))
            &&& app.playlists.current_tab != app.playlists.active_tab ==> after.playlists.current
                == app.playlists.current
            &&& app.playlists.current_tab != app.playlists.active_tab && app.has_current_tab()
                ==> after.current_entries() == app.current_entries()
            &&& app.playlists.current is None ==> after.playlists.current is None
            &&& app.selected matches Some(row) ==> row < before.len() ==> (
            after.selected matches Some(moved) && same_path(
                entries[moved as int],
                before[row as int],
            ))
        }),
{
    let before = app.shown_entries();
    before.to_multiset_ensures();
    entries.to_multiset_ensures();
    assert(entries.len() == before.len());
    if let Some(song) = app.playlists.current {
        if app.playlists.current_tab == app.playlists.active_tab {
            lemma_remapped(before, entries, song);
        }
    }
    if let Some(row) = app.selected {
        if row < before.len() {
            lemma_remapped(before, entries, row);
        }
    }
}

proof fn lemma_remapped(before: Seq<Seq<u8>>, after: Seq<Seq<u8>>, position: usize)
    requires
        position < before.len() <= usize::MAX,
        after.len() == before.len(),
        after.to_multiset() == before.to_multiset(),
    ensures
        remapped(before, after, Some(position)) matches Some(moved) && moved < after.len()
            && same_path(after[moved as int], before[position as int]),
{
    let path = before[position as int];
    before.to_multiset_ensures();
    after.to_multiset_ensures();
    assert(before.contains(path));
    assert(after.to_multiset().count(path) > 0);
    assert(after.contains(path));
    let k = choose|k: int| 0 <= k < after.len() && after[k] == path;
    assert(same_path(after[k], path));
    lemma_first_same(after, path, 0);
}

/// A shuffle and a sort lose no song.
pub proof fn law_shuffle_and_sort_keep_songs(app: AppModel, seed: u64)
    requires
        app.wf(),
    ensures
        app.shuffled(seed).app.shown_entries().to_multiset()
            == app.shown_entries().to_multiset(),
        app.sorted().app.shown_entries().to_multiset() == app.shown_entries().to_multiset(),
{
    let entries = app.shown_entries();
    let texts = lowered_titles(entries, app.titles);
    law_shuffle_is_permutation(entries, seed);
    lemma_sorted_songs_exist(entries, texts);
    let sorted = sorted_songs(entries, texts);
    law_sort_is_permutation(entries, texts, sorted, sorted);
}

// The audio device.

/// The device that is opened at the start: that of the command line, else
/// that of the environment, else that of the settings file, else the default
/// of the platform.
pub proof fn law_device_precedence(
    playlists: StoreModel,
    stored: Option<StoredModel>,
    host: Host,
    argument: Option<Seq<char>>,
    variable: Option<Seq<char>>,
)
    ensures
        ({
            let settings = loaded_settings(stored, host);
            let effects = started(playlists, settings, asked_device(argument, variable)).effects;
            let device = match (argument, variable, stored) {
                (Some(device), _, _) => device,
                (None, Some(device), _) => device,
                (None, None, Some(file)) if file.device_id is Some => file.device_id->0,
                _ => default_device_name(host.platform.own_backend(), host.sound_unit),
            };
            effects.last() matches EffectModel::OpenEngine { device: opened, .. } && opened
                == device
        }),
{
}

// Names of tabs.

/// The names of the tabs all differ.
#[verifier::opaque]
pub open spec fn names_differ(tabs: Seq<PlaylistModel>) -> bool {
    forall|i: int, j: int|
        0 <= i < j < tabs.len() ==> (#[trigger] tabs[i]).name != (#[trigger] tabs[j]).name
}

/// A renamed tab has a name of its own, as long as the names differ.
pub proof fn law_renaming_keeps_names_apart(app: AppModel)
    requires
        names_differ(app.playlists.playlists),
    ensures
        names_differ(app.rename_committed().app.playlists.playlists),
{
    reveal(names_differ);
    if let Some(index) = app.renaming_tab {
        let tabs = app.playlists.playlists;
        lemma_resolved_name_exists(tabs, index as int, app.rename_draft);
        if index < tabs.len() {
            let name = resolved_name(tabs, index as int, app.rename_draft);
            law_rename_keeps_names_unique(tabs, index as int, app.rename_draft, name);
        }
    }
}

/// A new tab has a name of its own.
pub proof fn law_new_tab_keeps_names_apart(app: AppModel)
    requires
        names_differ(app.playlists.playlists),
    ensures
        names_differ(app.tab_added().app.playlists.playlists),
{
    reveal(names_differ);
    let tabs = app.playlists.playlists;
    lemma_fresh_name_exists(tabs);
    law_next_name_is_fresh(tabs, fresh_name(tabs));
}

/// Closing a tab leaves names that differ.
pub proof fn law_closing_keeps_names_apart(app: AppModel, index: usize)
    requires
        names_differ(app.playlists.playlists),
    ensures
        names_differ(app.tab_closed(index).app.playlists.playlists),
{
    reveal(names_differ);
    let tabs = app.playlists.playlists;
    let after = app.tab_closed(index).app.playlists.playlists;
    if index < tabs.len() && tabs.len() > 1 {
        assert forall|i: int, j: int| 0 <= i < j < after.len() implies (#[trigger] after[i]).name
            != (#[trigger] after[j]).name by {
            let x = if i < index {
                i
            } else {
                i + 1
            };
            let y = if j < index {
                j
            } else {
                j + 1
            };
            assert(after[i] == tabs[x]);
            assert(after[j] == tabs[y]);
        }
    }
}

proof fn lemma_entries_keep_names(store: StoreModel, tab: int, entries: Seq<Seq<u8>>)
    requires
        names_differ(store.playlists),
        0 <= tab < store.playlists.len(),
    ensures
        names_differ(store.with_entries(tab, entries).playlists),
{
    reveal(names_differ);
    let after = store.with_entries(tab, entries).playlists;
    assert forall|i: int| 0 <= i < after.len() implies (#[trigger] after[i]).name
        == store.playlists[i].name by {}
}

/// Whatever the player is told, names of tabs that differ stay so.
#[verifier::rlimit(40)]
pub proof fn law_names_stay_apart(
    app: AppModel,
    message: Message,
    readings: Readings,
    outcome: Outcome,
)
    requires
        app.wf(),
        names_differ(app.playlists.playlists),
        app.leads_to(message, readings, outcome),
    ensures
        names_differ(outcome.app.playlists.playlists),
{
    let tab = app.playlists.active_tab as int;
    match message {
        Message::TabPressed(index) => {
            let noted = AppModel {
                last_tab_press: Some((index, readings.now_nanos)),
                ..app
            };
            law_renaming_keeps_names_apart(noted);
        },
        Message::TabRenameSubmitted => law_renaming_keeps_names_apart(app),
        Message::TabClosePressed(index) => law_closing_keeps_names_apart(app, index),
        Message::TabAddPressed => law_new_tab_keeps_names_apart(app),
        Message::FilesAdded(paths) => {
            let songs = audio_files(paths_view(paths@));
            lemma_entries_keep_names(app.playlists, tab, with_added(app.shown_entries(), songs));
        },
        Message::RemovePressed => {
            if let Some(index) = app.selected {
                lemma_entries_keep_names(
                    app.playlists,
                    tab,
                    app.shown_entries().remove(index as int),
                );
            }
        },
        Message::ShufflePressed => {
            let seed = choose|seed: u64| outcome == #[trigger] app.shuffled(seed);
            lemma_entries_keep_names(
                app.playlists,
                tab,
                shuffled_by(app.shown_entries(), seed),
            );
        },
        Message::SortPressed => {
            let entries = app.shown_entries();
            lemma_entries_keep_names(
                app.playlists,
                tab,
                sorted_songs(entries, lowered_titles(entries, app.titles)),
            );
        },
        _ => {
            assert(outcome.app.playlists.playlists == app.playlists.playlists);
        },
    }
}

} // verus!
