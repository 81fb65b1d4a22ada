//! What holds of the player whatever it is told.
use vstd::prelude::*;

use crate::app::{
    is_double_click, preceded, quiet, AppModel, EffectModel, Message, Outcome, Readings,
};
use crate::device::Host;
use crate::files::audio_files;
use crate::path::paths_view;
use crate::playlist::{
    law_add_keeps_and_deduplicates, law_removal_keeps_current_song, lemma_first_same,
    previous_index, with_added, PlayerState, StoreModel,
};
use crate::reorder::{lowered_titles, shuffled_by, sorted_songs};
use crate::setup::SetupAction;

verus! {

/// Closing a tab leaves a well-formed store with at least one tab. The
/// current song stays the same song, unless it was in the tab that is
/// closed: then none is current.
pub proof fn law_closing_keeps_store(before: StoreModel, index: int)
    requires
        before.wf(),
        0 <= index < before.playlists.len(),
    ensures
        before.without_tab(index).wf(),
        before.without_tab(index).playlists.len() > 0,
        ({
            let after = before.without_tab(index);
            &&& after.current is Some <==> before.current is Some && before.current_tab != index
            &&& after.current matches Some(song) ==> after.current == before.current
                && after.playlists[after.current_tab as int].entries[song as int]
                == before.playlists[before.current_tab as int].entries[song as int]
        }),
{
    let after = before.without_tab(index);
    let tabs = before.playlists;
    assert forall|i: int| 0 <= i < after.playlists.len() implies (
    #[trigger] after.playlists[i]).entries.len() <= usize::MAX by {
        if tabs.len() > 1 {
            if i < index {
                assert(after.playlists[i] == tabs[i]);
            } else {
                assert(after.playlists[i] == tabs[i + 1]);
            }
        }
    }
    if before.current is Some && before.current_tab != index {
        assert(tabs.len() > 1);
        assert(after.playlists[after.current_tab as int] == tabs[before.current_tab as int]);
    }
}

/// Adding songs to the active tab leaves a well-formed store.
pub proof fn law_adding_keeps_store(store: StoreModel, paths: Seq<Seq<u8>>)
    requires
        store.wf(),
        with_added(store.shown().entries, paths).len() <= usize::MAX,
    ensures
        store.with_entries(
            store.active_tab as int,
            with_added(store.shown().entries, paths),
        ).wf(),
{
    let entries = with_added(store.shown().entries, paths);
    let after = store.with_entries(store.active_tab as int, entries);
    law_add_keeps_and_deduplicates(store.shown().entries, paths);
    assert forall|i: int| 0 <= i < after.playlists.len() implies (
    #[trigger] after.playlists[i]).entries.len() <= usize::MAX by {
        assert(store.playlists[i].entries.len() <= usize::MAX);
    }
}

/// Removing an entry, or one that is not there, leaves a well-formed store.
pub proof fn law_removal_keeps_store(store: StoreModel, tab: int, index: int)
    requires
        store.wf(),
        0 <= tab,
        0 <= index,
    ensures
        store.without_entry(tab, index).wf(),
{
    if tab < store.playlists.len() && index < store.playlists[tab].entries.len() {
        law_removal_keeps_current_song(store, tab, index);
    }
}

/// A new order of the songs of the active tab leaves a well-formed store.
pub proof fn law_reorder_keeps_store(app: AppModel, entries: Seq<Seq<u8>>)
    requires
        app.playlists.wf(),
        entries.len() <= usize::MAX,
    ensures
        app.reordered(entries).app.playlists.wf(),
{
    let before = app.shown_entries();
    let after = app.reordered(entries).app.playlists;
    if let Some(index) = app.playlists.current {
        if index < before.len() {
            lemma_first_same(entries, before[index as int], 0);
        }
    }
    assert forall|i: int| 0 <= i < after.playlists.len() implies (
    #[trigger] after.playlists[i]).entries.len() <= usize::MAX by {
        assert(app.playlists.playlists[i].entries.len() <= usize::MAX);
    }
}

// What every message keeps to.

/// The lengths fit a machine.
pub open spec fn fits(store: StoreModel) -> bool {
    &&& store.playlists.len() <= usize::MAX
    &&& forall|i: int|
        0 <= i < store.playlists.len() ==> (#[trigger] store.playlists[i]).entries.len()
            <= usize::MAX
}

/// The playlist file is written where the playlists change, and the state
/// file where the active tab or the current song does.
pub open spec fn is_kept(before: AppModel, outcome: Outcome) -> bool {
    let after = outcome.app;
    &&& after.playlists.playlists != before.playlists.playlists ==> outcome.effects.contains(
        after.saving_playlists(),
    )
    &&& PlayerState::of_store(after.playlists) != PlayerState::of_store(before.playlists)
        ==> outcome.effects.contains(after.saving_state())
}

/// The revision grows where the songs of the active tab or their titles
/// change.
pub open spec fn is_revised(before: AppModel, after: AppModel) -> bool {
    &&& after.playlist_revision >= before.playlist_revision
    &&& after.playlist_revision == before.playlist_revision ==> after.shown_entries()
        == before.shown_entries() && after.titles == before.titles
}

/// The store stays well formed and is kept, and the rows are revised.
#[verifier::opaque]
pub open spec fn is_sound(before: AppModel, outcome: Outcome) -> bool {
    &&& fits(outcome.app.playlists) ==> outcome.app.playlists.wf()
    &&& is_kept(before, outcome)
    &&& is_revised(before, outcome.app)
}

proof fn lemma_in_turn(before: AppModel, first: Outcome, second: Outcome)
    requires
        is_sound(before, first),
        is_sound(first.app, second),
    ensures
        is_sound(before, preceded(first.effects, second)),
{
    reveal(is_sound);
    let both = first.effects + second.effects;
    let after = second.app;
    if after.playlists.playlists != before.playlists.playlists {
        if after.playlists.playlists != first.app.playlists.playlists {
            let k = choose|k: int|
                0 <= k < second.effects.len() && second.effects[k] == after.saving_playlists();
            assert(both[first.effects.len() + k] == after.saving_playlists());
        } else {
            let k = choose|k: int|
                0 <= k < first.effects.len() && first.effects[k]
                    == first.app.saving_playlists();
            assert(both[k] == after.saving_playlists());
        }
    }
    if PlayerState::of_store(after.playlists) != PlayerState::of_store(before.playlists) {
        if PlayerState::of_store(after.playlists) != PlayerState::of_store(
            first.app.playlists,
        ) {
            let k = choose|k: int|
                0 <= k < second.effects.len() && second.effects[k] == after.saving_state();
            assert(both[first.effects.len() + k] == after.saving_state());
        } else {
            let k = choose|k: int|
                0 <= k < first.effects.len() && first.effects[k] == first.app.saving_state();
            assert(both[k] == after.saving_state());
        }
    }
}

/// The files of a change that writes both first.
proof fn lemma_both_kept(before: AppModel, app: AppModel, effects: Seq<EffectModel>)
    requires
        effects.len() >= 2,
        effects[0] == app.saving_playlists(),
        effects[1] == app.saving_state(),
    ensures
        is_kept(before, (Outcome { app, effects })),
{
}

proof fn lemma_played(app: AppModel, index: usize)
    requires
        app.wf(),
    ensures
        is_sound(app, app.played(index)),
{
    reveal(is_sound);
    let outcome = app.played(index);
    if app.engine_ready && index < app.shown_entries().len() {
        assert(outcome.effects[1] == outcome.app.saving_state());
    }
}

proof fn lemma_stopped(app: AppModel)
    requires
        app.playlists.wf(),
    ensures
        is_sound(app, app.stopped()),
{
    reveal(is_sound);
}

proof fn lemma_current_played(app: AppModel)
    requires
        app.wf(),
    ensures
        is_sound(app, app.current_played()),
{
    reveal(is_sound);
    if let Some(index) = app.playlists.current {
        if app.playlists.active_tab == app.playlists.current_tab {
            lemma_played(app, index);
        } else {
            let outcome = app.current_played();
            assert(outcome.effects[0] == outcome.app.saving_state());
        }
    }
}

proof fn lemma_neighbour_played(app: AppModel, index: usize)
    requires
        app.wf(),
    ensures
        is_sound(app, app.neighbour_played(index)),
{
    reveal(is_sound);
    lemma_played(app, index);
    if app.playlists.current is Some {
        let outcome = app.current_tab_shown(index);
        assert(outcome.effects[0] == outcome.app.saving_state());
    }
}

proof fn lemma_begun(app: AppModel)
    requires
        app.wf(),
    ensures
        is_sound(app, app.begun()),
{
    reveal(is_sound);
    match app.selected {
        Some(index) => lemma_played(app, index),
        None => lemma_current_played(app),
    }
}

proof fn lemma_files_added(app: AppModel, paths: Seq<Seq<u8>>)
    requires
        app.wf(),
    ensures
        is_sound(app, app.files_added(paths)),
{
    reveal(is_sound);
    let songs = audio_files(paths);
    if songs.len() > 0 {
        let outcome = app.files_added(paths);
        let tab = app.playlists.active_tab as int;
        assert(outcome.effects[0] == outcome.app.saving_playlists());
        if fits(outcome.app.playlists) {
            assert(outcome.app.playlists.playlists[tab].entries == with_added(
                app.shown_entries(),
                songs,
            ));
            law_adding_keeps_store(app.playlists, songs);
        }
    }
}

proof fn lemma_rename_committed(app: AppModel)
    requires
        app.wf(),
    ensures
        is_sound(app, app.rename_committed()),
        app.rename_committed().app.wf(),
        app.rename_committed().app.playlists.playlists.len() == app.playlists.playlists.len(),
{
    reveal(is_sound);
    let outcome = app.rename_committed();
    let tabs = app.playlists.playlists;
    if let Some(index) = app.renaming_tab {
        if index < tabs.len() {
            assert forall|i: int| 0 <= i < tabs.len() implies (
            #[trigger] outcome.app.playlists.playlists[i]).entries == tabs[i].entries by {}
            if outcome.app.playlists.playlists != tabs {
                assert(outcome.effects[0] == outcome.app.saving_playlists());
            }
            assert forall|i: int| 0 <= i < tabs.len() implies (
            #[trigger] outcome.app.playlists.playlists[i]).entries.len() <= usize::MAX by {
                assert(tabs[i].entries.len() <= usize::MAX);
            }
        }
    }
}

proof fn lemma_tab_pressed(app: AppModel, index: usize, now: u64)
    requires
        app.wf(),
    ensures
        is_sound(app, app.tab_pressed(index, now)),
{
    reveal(is_sound);
    if index < app.playlists.playlists.len() && app.renaming_tab != Some(index) {
        let noted = AppModel { last_tab_press: Some((index, now)), ..app };
        let first = noted.rename_committed();
        lemma_rename_committed(noted);
        let second = if is_double_click(app.last_tab_press, index, now) {
            first.app.rename_begun(index)
        } else {
            first.app.tab_shown(index)
        };
        if !is_double_click(app.last_tab_press, index, now) && index
            != first.app.playlists.active_tab {
            assert(second.effects[1] == second.app.saving_state());
        }
        assert(is_sound(first.app, second));
        assert(is_sound(app, first));
        lemma_in_turn(app, first, second);
    }
}

proof fn lemma_tab_closed(app: AppModel, index: usize)
    requires
        app.wf(),
    ensures
        is_sound(app, app.tab_closed(index)),
{
    reveal(is_sound);
    if index < app.playlists.playlists.len() {
        let outcome = app.tab_closed(index);
        law_closing_keeps_store(app.playlists, index as int);
        lemma_both_kept(app, outcome.app, outcome.effects);
    }
}

proof fn lemma_tab_added(app: AppModel)
    requires
        app.wf(),
    ensures
        is_sound(app, app.tab_added()),
{
    reveal(is_sound);
    let outcome = app.tab_added();
    let tabs = app.playlists.playlists;
    let after = outcome.app.playlists;
    if app.playlists.current is Some {
        assert(after.playlists[after.current_tab as int] == tabs[after.current_tab as int]);
    }
    lemma_both_kept(app, outcome.app, outcome.effects);
}

proof fn lemma_selected_removed(app: AppModel)
    requires
        app.wf(),
    ensures
        is_sound(app, app.selected_removed()),
{
    reveal(is_sound);
    if let Some(index) = app.selected {
        let tab = app.playlists.active_tab;
        law_removal_keeps_store(app.playlists, tab as int, index as int);
        let after = (AppModel {
            playlists: app.playlists.without_entry(tab as int, index as int),
            selected: None,
            ..app
        }).rows_changed();
        let first = Outcome {
            app: after,
            effects: seq![after.saving_playlists(), after.saving_state(), after.reading_titles()],
        };
        lemma_both_kept(app, after, first.effects);
        let second = if app.playlists.current_tab == tab && app.playlists.current == Some(index) {
            after.stopped()
        } else {
            quiet(after)
        };
        lemma_stopped(after);
        lemma_in_turn(app, first, second);
    }
}

proof fn lemma_reordered(app: AppModel, entries: Seq<Seq<u8>>)
    requires
        app.wf(),
    ensures
        is_sound(app, app.reordered(entries)),
{
    reveal(is_sound);
    let outcome = app.reordered(entries);
    let tab = app.playlists.active_tab as int;
    if fits(outcome.app.playlists) {
        assert(outcome.app.playlists.playlists[tab].entries == entries);
        law_reorder_keeps_store(app, entries);
    }
    lemma_both_kept(app, outcome.app, outcome.effects);
}

proof fn lemma_ticked(app: AppModel, readings: Readings)
    requires
        app.wf(),
    ensures
        is_sound(app, app.ticked(readings)),
{
    reveal(is_sound);
    if let Some(snapshot) = app.transport(readings) {
        if app.playing && !app.paused && snapshot.playing && app.is_over_at(snapshot.sample) {
            let first = app.moved_to(snapshot.sample);
            let second = match first.app.following_song() {
                Some(index) => first.app.neighbour_played(index),
                None => first.app.stopped(),
            };
            if let Some(index) = first.app.following_song() {
                lemma_neighbour_played(first.app, index);
            }
            lemma_stopped(first.app);
            lemma_in_turn(app, first, second);
        }
    }
}

proof fn lemma_setup_changed(app: AppModel, action: SetupAction, host: Host)
    requires
        app.wf(),
    ensures
        is_sound(app, app.setup_changed(action, host)),
{
    reveal(is_sound);
    if let Some(setup) = app.setup {
        if action is Start {
            let outcome = app.restarted(setup, host);
            assert(outcome.effects[1] == outcome.app.saving_state());
        }
    }
}

proof fn lemma_next_and_previous(app: AppModel)
    requires
        app.wf(),
    ensures
        is_sound(app, app.next_pressed()),
        is_sound(app, app.previous_pressed()),
{
    reveal(is_sound);
    lemma_stopped(app);
    lemma_neighbour_played(app, 0);
    if let Some(index) = app.next_song() {
        lemma_neighbour_played(app, index);
    }
    if let Some(index) = app.playlists.current {
        if let Some(previous) = previous_index(app.current_entries().len(), index) {
            lemma_neighbour_played(app, previous);
        }
    }
}

proof fn lemma_row_pressed(app: AppModel, index: usize, now: u64)
    requires
        app.wf(),
    ensures
        is_sound(app, app.row_pressed(index, now)),
{
    reveal(is_sound);
    if is_double_click(app.last_row_press, index, now) {
        let noted = AppModel { last_row_press: None, ..app };
        lemma_played(noted, index);
    }
}

/// Messages that leave the store alone.
proof fn lemma_store_alone(app: AppModel, outcome: Outcome)
    requires
        app.wf(),
        outcome.app.playlists == app.playlists,
        outcome.app.titles == app.titles || outcome.app.playlist_revision > app.playlist_revision,
        outcome.app.playlist_revision >= app.playlist_revision,
    ensures
        is_sound(app, outcome),
{
    reveal(is_sound);
}

/// Whatever the player is told, the store stays well formed, changes of the
/// playlists and of the state are written to their files, and the revision
/// grows where the rows change.
#[verifier::rlimit(40)]
pub proof fn law_every_message_is_sound(
    app: AppModel,
    message: Message,
    readings: Readings,
    outcome: Outcome,
)
    requires
        app.wf(),
        app.leads_to(message, readings, outcome),
    ensures
        is_sound(app, outcome),
{
    match message {
        Message::FilesAdded(paths) => lemma_files_added(app, paths_view(paths@)),
        Message::PlaySelected => {
            lemma_store_alone(app, quiet(app));
            if let Some(index) = app.selected {
                lemma_played(app, index);
            }
        },
        Message::PlayCurrent => lemma_current_played(app),
        Message::PlayIndex(index) => lemma_played(app, index),
        Message::PlayToggled => {
            lemma_begun(app);
            lemma_store_alone(app, app.paused_at(app.transport(readings)));
            lemma_store_alone(app, app.resumed());
        },
        Message::PlayPressed => {
            lemma_begun(app);
            lemma_store_alone(app, app.resumed());
            lemma_store_alone(app, quiet(app));
        },
        Message::StopPressed => lemma_stopped(app),
        Message::NextPressed => lemma_next_and_previous(app),
        Message::PreviousPressed => lemma_next_and_previous(app),
        Message::RemovePressed => lemma_selected_removed(app),
        Message::Tick => lemma_ticked(app, readings),
        Message::SettingsAction(action) => lemma_setup_changed(app, action, readings.host),
        Message::RowPressed(index) => lemma_row_pressed(app, index, readings.now_nanos),
        Message::TabPressed(index) => lemma_tab_pressed(app, index, readings.now_nanos),
        Message::TabRenameSubmitted => lemma_rename_committed(app),
        Message::TabClosePressed(index) => lemma_tab_closed(app, index),
        Message::TabAddPressed => lemma_tab_added(app),
        Message::ShufflePressed => {
            let seed = choose|seed: u64| outcome == #[trigger] app.shuffled(seed);
            lemma_store_alone(app, quiet(app));
            lemma_reordered(app, shuffled_by(app.shown_entries(), seed));
        },
        Message::SortPressed => {
            lemma_store_alone(app, quiet(app));
            let entries = app.shown_entries();
            lemma_reordered(app, sorted_songs(entries, lowered_titles(entries, app.titles)));
        },
        _ => lemma_store_alone(app, outcome),
    }
}

/// Rows with an unchanged key have not changed, so that they need not be
/// built anew.
pub proof fn law_rows_are_never_stale(
    app: AppModel,
    message: Message,
    readings: Readings,
    outcome: Outcome,
)
    requires
        app.wf(),
        app.leads_to(message, readings, outcome),
        outcome.app.rows_key() == app.rows_key(),
    ensures
        outcome.app.rows() == app.rows(),
{
    law_every_message_is_sound(app, message, readings, outcome);
    reveal(is_sound);
}

} // verus!
