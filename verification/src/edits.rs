//! What changes to playlists, tabs and titles do, message by message.
use vstd::prelude::*;

use crate::app::{AppModel, EffectModel, Message, Outcome, Readings};
use crate::files::is_audio_path;
use crate::names::{
    is_resolved_name, lemma_fresh_name_exists, lemma_resolved_name_exists, name_taken,
};
use crate::path::{path_parts, paths_view, same_path, SongPath};
use crate::playlist::{
    law_add_appends_in_order, law_closing_takes_one_tab, law_removal_takes_one_entry,
    lemma_first_same, PlayerState, PlaylistModel, StoreModel,
};
use crate::pls::pls_text;
use crate::promises::law_reorder_keeps_songs;
use crate::reorder::{
    components_before, law_shuffle_is_permutation, law_songs_are_sorted_by_title, lowercase,
    lowered_titles, sorted_songs, spelled_before,
};
use crate::settings::SettingsModel;
use crate::text::{decimal, is_space, trimmed};
use crate::title::{
    law_titles_of_untagged_songs, rendered_title, title_of, AudioMetadata, TagsModel,
};

verus! {

/// What is written and read after a change of the playlists: both files, and
/// the tags of the songs of the active tab.
pub open spec fn all_is_kept(outcome: Outcome) -> bool {
    let store = outcome.app.playlists;
    outcome.effects == seq![
        EffectModel::SavePlaylists(pls_text(store.playlists)),
        EffectModel::SaveState(
            PlayerState {
                active_tab: store.active_tab,
                current_tab: store.current_tab,
                current: store.current,
            },
        ),
        EffectModel::ReadTitles(store.playlists[store.active_tab as int].entries),
    ]
}

// Songs.

/// The buttons for files and folders open their dialogs.
pub proof fn law_dialogs(app: AppModel, readings: Readings, outcome: Outcome)
    requires
        app.wf(),
    ensures
        app.leads_to(Message::AddFilesPressed, readings, outcome) ==> outcome.app == app
            && outcome.effects == seq![EffectModel::PickFiles],
        app.leads_to(Message::AddFolderPressed, readings, outcome) ==> outcome.app == app
            && outcome.effects == seq![EffectModel::PickFolder],
{
}

/// Files that are added come after the songs of the active tab, in the order
/// they are given: those with a supported extension that are not there yet.
/// The first place after the old songs is selected, the playlist file is
/// written, and the tags are read. The other tabs and the current song stay.
pub proof fn law_files_are_added_in_order(
    app: AppModel,
    readings: Readings,
    paths: Vec<SongPath>,
    outcome: Outcome,
) -> (picks: Seq<int>)
    requires
        app.wf(),
        app.leads_to(Message::FilesAdded(paths), readings, outcome),
        exists|k: int| 0 <= k < paths@.len() && is_audio_path(#[trigger] paths@[k]@),
    ensures
        ({
            let tab = app.playlists.active_tab as int;
            let old = app.playlists.playlists[tab];
            let songs = paths_view(paths@).filter(|p: Seq<u8>| is_audio_path(p));
            let new = outcome.app.playlists.playlists[tab];
            &&& new.name == old.name
            &&& new.entries == old.entries + picks.map_values(|k: int| songs[k])
            &&& forall|a: int, b: int| 0 <= a < b < picks.len() ==> picks[a] < picks[b]
            &&& forall|a: int| 0 <= a < picks.len() ==> 0 <= #[trigger] picks[a] < songs.len()
            &&& forall|k: int|
                0 <= k < songs.len() ==> (#[trigger] picks.contains(k) <==> (forall|i: int|
                    0 <= i < old.entries.len() ==> !same_path(
                        #[trigger] old.entries[i],
                        songs[k],
                    )) && (forall|j: int|
                    0 <= j < k ==> !same_path(#[trigger] songs[j], songs[k])))
            &&& outcome.app == AppModel {
                playlists: StoreModel {
                    playlists: app.playlists.playlists.update(tab, new),
                    ..app.playlists
                },
                selected: Some(old.entries.len() as usize),
                status: "Files added."@,
                playlist_revision: (app.playlist_revision + 1) as u64,
                ..app
            }
            &&& outcome.effects == seq![
                EffectModel::SavePlaylists(pls_text(outcome.app.playlists.playlists)),
                EffectModel::ReadTitles(new.entries),
            ]
        }),
{
    let tab = app.playlists.active_tab as int;
    let given = paths_view(paths@);
    crate::files::law_filter_keeps_the_order(given);
    let songs = crate::files::audio_files(given);
    let k = choose|k: int| 0 <= k < paths@.len() && is_audio_path(#[trigger] paths@[k]@);
    assert(given[k] == paths@[k]@);
    assert(songs.len() > 0) by {
        crate::files::lemma_a_song(given, k);
    }
    law_add_appends_in_order(app.playlists.playlists[tab].entries, songs)
}

/// Where none of the files is supported, nothing is added, and the status
/// says so.
pub proof fn law_no_files_are_added(
    app: AppModel,
    readings: Readings,
    paths: Vec<SongPath>,
    outcome: Outcome,
)
    requires
        app.wf(),
        app.leads_to(Message::FilesAdded(paths), readings, outcome),
        forall|k: int| 0 <= k < paths@.len() ==> !is_audio_path(#[trigger] paths@[k]@),
    ensures
        outcome.app == (AppModel { status: "No supported audio files found."@, ..app }),
        outcome.effects.len() == 0,
{
    let given = paths_view(paths@);
    crate::files::law_filter_keeps_the_order(given);
    assert(crate::files::audio_files(given).len() == 0) by {
        assert forall|k: int| 0 <= k < given.len() implies !is_audio_path(#[trigger] given[k]) by {
            assert(given[k] == paths@[k]@);
        }
        crate::files::lemma_no_songs(given);
    }
}

/// A press of a row selects it. A second press of the same row within four
/// tenths of a second plays it instead, and is then forgotten.
pub proof fn law_rows_are_selected_and_played(
    app: AppModel,
    readings: Readings,
    row: usize,
    outcome: Outcome,
)
    requires
        app.wf(),
    ensures
        app.leads_to(Message::Select(row), readings, outcome) ==> outcome.effects.len() == 0
            && outcome.app == (AppModel {
            selected: Some(row),
            playlist_revision: (app.playlist_revision + 1) as u64,
            ..app
        }),
        app.leads_to(Message::RowPressed(row), readings, outcome) ==> {
            let again = match app.last_row_press {
                Some(press) => press.0 == row && readings.now_nanos < press.1 + 400_000_000,
                None => false,
            };
            &&& !again ==> outcome.effects.len() == 0 && outcome.app == (AppModel {
                selected: Some(row),
                last_row_press: Some((row, readings.now_nanos)),
                playlist_revision: (app.playlist_revision + 1) as u64,
                ..app
            })
            &&& again ==> (AppModel { last_row_press: None, ..app }).leads_to(
                Message::PlayIndex(row),
                readings,
                outcome,
            )
        },
{
}

/// The trash button takes the selected song out of the active tab and clears
/// the selection. The current song stays the same song; where it is the one
/// that goes, playing stops.
pub proof fn law_selected_song_is_removed(
    app: AppModel,
    readings: Readings,
    row: usize,
    outcome: Outcome,
)
    requires
        app.wf(),
        app.selected == Some(row),
        row < app.playlists.playlists[app.playlists.active_tab as int].entries.len(),
        app.leads_to(Message::RemovePressed, readings, outcome),
    ensures
        ({
            let tab = app.playlists.active_tab;
            let old = app.playlists.playlists[tab as int];
            let left = old.entries.take(row as int) + old.entries.skip(row + 1);
            let here = app.playlists.current_tab == tab;
            let removed = AppModel {
                playlists: StoreModel {
                    playlists: app.playlists.playlists.update(
                        tab as int,
                        PlaylistModel { entries: left, ..old },
                    ),
                    current: match app.playlists.current {
                        Some(song) => if here && song == row {
                            None
                        } else if here && song > row {
                            Some((song - 1) as usize)
                        } else {
                            Some(song)
                        },
                        None => None,
                    },
                    ..app.playlists
                },
                selected: None,
                playlist_revision: (app.playlist_revision + 1) as u64,
                ..app
            };
            let kept = seq![
                EffectModel::SavePlaylists(pls_text(removed.playlists.playlists)),
                EffectModel::SaveState(
                    PlayerState {
                        active_tab: tab,
                        current_tab: app.playlists.current_tab,
                        current: removed.playlists.current,
                    },
                ),
                EffectModel::ReadTitles(left),
            ];
            &&& !(here && app.playlists.current == Some(row)) ==> outcome == (Outcome {
                app: removed,
                effects: kept,
            })
            &&& here && app.playlists.current == Some(row) ==> {
                let stopped = Outcome { app: outcome.app, effects: outcome.effects.skip(3) };
                &&& outcome.effects.take(3) == kept
                &&& removed.leads_to(Message::StopPressed, readings, stopped)
            }
        }),
{
    let tab = app.playlists.active_tab;
    let old = app.playlists.playlists[tab as int];
    law_removal_takes_one_entry(app.playlists, tab as int, row as int);
    let left = old.entries.take(row as int) + old.entries.skip(row + 1);
    let after = app.playlists.without_entry(tab as int, row as int);
    assert(after.playlists =~= app.playlists.playlists.update(
        tab as int,
        PlaylistModel { entries: left, ..old },
    ));
    let first = (AppModel { playlists: after, selected: None, ..app }).rows_changed();
    let kept = seq![first.saving_playlists(), first.saving_state(), first.reading_titles()];
    if app.playlists.current_tab == tab && app.playlists.current == Some(row) {
        assert(outcome.effects.skip(3) =~= first.stopped().effects);
        assert(outcome.effects.take(3) =~= kept);
    } else {
        assert(outcome.effects =~= kept);
    }
}

/// Without a selected song, the trash button does nothing.
pub proof fn law_nothing_is_removed(app: AppModel, readings: Readings, outcome: Outcome)
    requires
        app.wf(),
        app.selected is None,
        app.leads_to(Message::RemovePressed, readings, outcome),
    ensures
        outcome.app == app,
        outcome.effects.len() == 0,
{
}

// Orders.

/// Sorting lists the songs of the active tab by their titles without regard
/// to case, letter by letter, and by path where titles are the same. It is
/// written down, and nothing but this tab, the current song and the selection
/// changes.
pub proof fn law_sort_orders_by_title(app: AppModel, readings: Readings, outcome: Outcome) -> (order:
    Seq<int>)
    requires
        app.wf(),
        app.playlists.playlists[app.playlists.active_tab as int].entries.len() > 1,
        app.leads_to(Message::SortPressed, readings, outcome),
    ensures
        ({
            let tab = app.playlists.active_tab as int;
            let old = app.playlists.playlists[tab].entries;
            let new = outcome.app.playlists.playlists[tab].entries;
            &&& new.len() == old.len()
            &&& order.len() == old.len()
            &&& order.no_duplicates()
            &&& forall|k: int|
                0 <= k < order.len() ==> 0 <= #[trigger] order[k] < old.len() && new[k]
                    == old[order[k]]
            &&& forall|k: int, l: int|
                0 <= k < l < order.len() ==> {
                    let i = #[trigger] order[k];
                    let j = #[trigger] order[l];
                    let first = lowercase(
                        if i < app.titles.len() {
                            app.titles[i]
                        } else {
                            title_of(old[i])
                        },
                    );
                    let second = lowercase(
                        if j < app.titles.len() {
                            app.titles[j]
                        } else {
                            title_of(old[j])
                        },
                    );
                    ||| spelled_before(first, second)
                    ||| first == second && components_before(path_parts(old[i]), path_parts(old[j]))
                    ||| first == second && path_parts(old[i]) == path_parts(old[j]) && i < j
                }
            &&& all_is_kept(outcome)
        }),
{
    let tab = app.playlists.active_tab as int;
    let old = app.playlists.playlists[tab].entries;
    let texts = lowered_titles(old, app.titles);
    crate::reorder::lemma_sorted_songs_exist(old, texts);
    law_songs_are_sorted_by_title(old, app.titles, sorted_songs(old, texts))
}

/// A new order of the active tab, by a shuffle or a sort, keeps its name, the
/// other tabs and the tab of the current song, and loses no song. It is
/// written down. The current song and the selection stay the same songs.
pub proof fn law_orders_keep_everything_else(
    app: AppModel,
    message: Message,
    readings: Readings,
    outcome: Outcome,
)
    requires
        app.wf(),
        message is ShufflePressed || message is SortPressed,
        app.leads_to(message, readings, outcome),
    ensures
        ({
            let tab = app.playlists.active_tab as int;
            let old = app.playlists.playlists[tab];
            let new = outcome.app.playlists.playlists[tab];
            let here = app.playlists.current_tab == app.playlists.active_tab;
            &&& old.entries.len() <= 1 ==> outcome.app == app && outcome.effects.len() == 0
            &&& old.entries.len() > 1 ==> {
                &&& new.name == old.name
                &&& new.entries.to_multiset() == old.entries.to_multiset()
                &&& all_is_kept(outcome)
                &&& outcome.app == AppModel {
                    playlists: StoreModel {
                        playlists: app.playlists.playlists.update(tab, new),
                        current: outcome.app.playlists.current,
                        ..app.playlists
                    },
                    selected: outcome.app.selected,
                    playlist_revision: (app.playlist_revision + 1) as u64,
                    ..app
                }
                &&& !here || app.playlists.current is None ==> outcome.app.playlists.current
                    == app.playlists.current
                &&& here ==> (app.playlists.current matches Some(song) ==> (
                outcome.app.playlists.current matches Some(moved) && moved < new.entries.len()
                    && same_path(new.entries[moved as int], old.entries[song as int])))
                &&& app.selected is None ==> outcome.app.selected is None
                &&& (app.selected matches Some(row) && row < old.entries.len()) ==> (
                outcome.app.selected matches Some(moved) && moved < new.entries.len() && same_path(
                    new.entries[moved as int],
                    old.entries[app.selected->0 as int],
                ))
            }
        }),
{
    let tab = app.playlists.active_tab as int;
    let old = app.playlists.playlists[tab].entries;
    if old.len() > 1 {
        let new = outcome.app.playlists.playlists[tab].entries;
        if message is ShufflePressed {
            let seed = choose|seed: u64| outcome == #[trigger] app.shuffled(seed);
            law_shuffle_is_permutation(old, seed);
        } else {
            let texts = lowered_titles(old, app.titles);
            crate::reorder::lemma_sorted_songs_exist(old, texts);
            crate::reorder::law_sort_is_permutation(
                old,
                texts,
                sorted_songs(old, texts),
                sorted_songs(old, texts),
            );
        }
        assert(outcome == app.reordered(new));
        law_reorder_keeps_songs(app, new);
        new.to_multiset_ensures();
        old.to_multiset_ensures();
        if let Some(song) = app.playlists.current {
            if app.playlists.current_tab == app.playlists.active_tab {
                lemma_first_same(new, old[song as int], 0);
            }
        }
        if let Some(row) = app.selected {
            if row < old.len() {
                lemma_first_same(new, old[row as int], 0);
            }
        }
    }
}

// Tabs.

/// A press of another tab shows it, clears the selection, reads its titles
/// and keeps the state. The current song stays.
pub proof fn law_tab_is_shown(app: AppModel, readings: Readings, tab: usize, outcome: Outcome)
    requires
        app.wf(),
        tab < app.playlists.playlists.len(),
        app.renaming_tab is None,
        app.last_tab_press matches Some(press) ==> press.0 != tab || readings.now_nanos
            >= press.1 + 400_000_000,
        app.leads_to(Message::TabPressed(tab), readings, outcome),
    ensures
        tab == app.playlists.active_tab ==> outcome.effects.len() == 0 && outcome.app
            == (AppModel { last_tab_press: Some((tab, readings.now_nanos)), ..app }),
        tab != app.playlists.active_tab ==> {
            &&& outcome.app == AppModel {
                last_tab_press: Some((tab, readings.now_nanos)),
                playlists: StoreModel { active_tab: tab, ..app.playlists },
                selected: None,
                playlist_revision: (app.playlist_revision + 1) as u64,
                ..app
            }
            &&& outcome.effects == seq![
                EffectModel::ReadTitles(app.playlists.playlists[tab as int].entries),
                EffectModel::SaveState(
                    PlayerState {
                        active_tab: tab,
                        current_tab: app.playlists.current_tab,
                        current: app.playlists.current,
                    },
                ),
            ]
        },
{
    let empty = Seq::<EffectModel>::empty();
    assert(empty + empty =~= empty);
    if tab != app.playlists.active_tab {
        assert(outcome.effects =~= outcome.effects.skip(0));
    }
}

/// A second press of the same tab within four tenths of a second begins to
/// edit its name.
pub proof fn law_double_click_begins_a_rename(
    app: AppModel,
    readings: Readings,
    tab: usize,
    outcome: Outcome,
)
    requires
        app.wf(),
        tab < app.playlists.playlists.len(),
        app.renaming_tab is None,
        app.last_tab_press matches Some(press) && press.0 == tab && readings.now_nanos < press.1
            + 400_000_000,
        app.leads_to(Message::TabPressed(tab), readings, outcome),
    ensures
        outcome.app == (AppModel {
            last_tab_press: None,
            renaming_tab: Some(tab),
            rename_draft: app.playlists.playlists[tab as int].name,
            ..app
        }),
        outcome.effects == seq![EffectModel::FocusRenameInput],
{
    assert(outcome.effects =~= seq![EffectModel::FocusRenameInput]);
}

/// While a name is edited, a press of its tab keeps editing, and a press of
/// another tab first takes the name over as the enter key would.
pub proof fn law_press_while_renaming(
    app: AppModel,
    readings: Readings,
    edited: usize,
    tab: usize,
    outcome: Outcome,
    submitted: Outcome,
)
    requires
        app.wf(),
        app.renaming_tab == Some(edited),
        tab < app.playlists.playlists.len(),
        app.leads_to(Message::TabPressed(tab), readings, outcome),
        app.leads_to(Message::TabRenameSubmitted, readings, submitted),
    ensures
        tab == edited ==> outcome.effects.len() == 0 && outcome.app == (AppModel {
            last_tab_press: Some((tab, readings.now_nanos)),
            ..app
        }),
        tab != edited ==> {
            let rest = Outcome {
                app: outcome.app,
                effects: outcome.effects.skip(submitted.effects.len() as int),
            };
            &&& submitted.effects.is_prefix_of(outcome.effects)
            &&& submitted.app.leads_to(Message::TabPressed(tab), readings, rest)
        },
{
    if tab != edited {
        let noted = AppModel { last_tab_press: Some((tab, readings.now_nanos)), ..app };
        let first = noted.rename_committed();
        assert(first.effects =~= submitted.effects);
        assert(first.app =~= AppModel {
            last_tab_press: Some((tab, readings.now_nanos)),
            ..submitted.app
        });
        let again = if crate::app::is_double_click(app.last_tab_press, tab, readings.now_nanos) {
            first.app.rename_begun(tab)
        } else {
            first.app.tab_shown(tab)
        };
        assert(outcome.effects.skip(submitted.effects.len() as int) =~= again.effects);
        assert(Seq::<EffectModel>::empty() + again.effects =~= again.effects);
    }
}

/// A press of a tab that does not exist does nothing.
pub proof fn law_no_tab_is_pressed(app: AppModel, readings: Readings, tab: usize, outcome: Outcome)
    requires
        app.wf(),
        tab >= app.playlists.playlists.len(),
    ensures
        app.leads_to(Message::TabPressed(tab), readings, outcome) ==> outcome.app == app
            && outcome.effects.len() == 0,
        app.leads_to(Message::TabClosePressed(tab), readings, outcome) ==> outcome.app == app
            && outcome.effects.len() == 0,
{
}

/// An edited name follows what is typed, and is dropped by the escape key.
pub proof fn law_drafts(app: AppModel, readings: Readings, draft: String, outcome: Outcome)
    requires
        app.wf(),
    ensures
        app.leads_to(Message::TabRenameChanged(draft), readings, outcome) ==> outcome.app
            == (AppModel { rename_draft: draft@, ..app }) && outcome.effects.len() == 0,
        app.leads_to(Message::TabRenameCancelled, readings, outcome) ==> outcome.app == (AppModel {
            renaming_tab: None,
            rename_draft: Seq::empty(),
            ..app
        }) && outcome.effects.len() == 0,
        app.leads_to(Message::TabRenameSubmitted, readings, outcome) && app.renaming_tab is None
            ==> outcome.app == app && outcome.effects.len() == 0,
{
}

/// A tab other than the given one has the name.
pub open spec fn another_is_named(tabs: Seq<PlaylistModel>, except: int, name: Seq<char>) -> bool {
    exists|i: int| 0 <= i < tabs.len() && i != except && (#[trigger] tabs[i]).name == name
}

/// The name that is taken over is the draft without white space around it. A
/// blank draft leaves the old name. A name of another tab gets a number in
/// brackets, the first from 2 on that makes it differ from them all.
pub proof fn law_rename_takes_the_draft(
    app: AppModel,
    readings: Readings,
    tab: usize,
    outcome: Outcome,
) -> (n: nat)
    requires
        app.wf(),
        app.renaming_tab == Some(tab),
        tab < app.playlists.playlists.len(),
        app.leads_to(Message::TabRenameSubmitted, readings, outcome),
    ensures
        ({
            let tabs = app.playlists.playlists;
            let base = trimmed(app.rename_draft);
            let name = outcome.app.playlists.playlists[tab as int].name;
            let taken = another_is_named(tabs, tab as int, base);
            &&& base.len() == 0 ==> name == tabs[tab as int].name
            &&& base.len() > 0 && !taken ==> name == base
            &&& base.len() > 0 && taken ==> {
                &&& n >= 2
                &&& name == base + " ("@ + decimal(n) + ")"@
                &&& forall|i: int|
                    0 <= i < tabs.len() && i != tab ==> (#[trigger] tabs[i]).name != name
                &&& forall|m: nat|
                    2 <= m < n ==> another_is_named(
                        tabs,
                        tab as int,
                        base + " ("@ + #[trigger] decimal(m) + ")"@,
                    )
            }
            &&& outcome.app == AppModel {
                renaming_tab: None,
                rename_draft: Seq::empty(),
                playlists: StoreModel {
                    playlists: tabs.update(tab as int, PlaylistModel { name, ..tabs[tab as int] }),
                    ..app.playlists
                },
                ..app
            }
            &&& name == tabs[tab as int].name ==> outcome.effects.len() == 0
            &&& name != tabs[tab as int].name ==> outcome.effects == seq![
                EffectModel::SavePlaylists(pls_text(outcome.app.playlists.playlists)),
            ]
        }),
{
    let tabs = app.playlists.playlists;
    let base = trimmed(app.rename_draft);
    lemma_resolved_name_exists(tabs, tab as int, app.rename_draft);
    let name = crate::names::resolved_name(tabs, tab as int, app.rename_draft);
    assert(is_resolved_name(tabs, tab as int, app.rename_draft, name));
    if name == tabs[tab as int].name {
        assert(tabs.update(tab as int, PlaylistModel { name, ..tabs[tab as int] }) =~= tabs);
    }
    assert(outcome.app =~= AppModel {
        renaming_tab: None,
        rename_draft: Seq::empty(),
        playlists: StoreModel {
            playlists: tabs.update(tab as int, PlaylistModel { name, ..tabs[tab as int] }),
            ..app.playlists
        },
        ..app
    });
    assert(another_is_named(tabs, tab as int, base) == name_taken(tabs, tab as int, base));
    if base.len() > 0 && name_taken(tabs, tab as int, base) {
        let n = crate::names::lemma_suffix_number(tabs, tab as int, base, name);
        assert forall|m: nat| 2 <= m < n implies another_is_named(
            tabs,
            tab as int,
            base + " ("@ + #[trigger] decimal(m) + ")"@,
        ) by {
            assert(name_taken(tabs, tab as int, base + " ("@ + decimal(m) + ")"@));
        }
        n
    } else {
        0
    }
}

/// A new tab comes last, is empty and is shown. Its name is `Playlist` with
/// the smallest number from 1 on that no tab has.
pub proof fn law_new_tab_is_shown(app: AppModel, readings: Readings, outcome: Outcome) -> (n: nat)
    requires
        app.wf(),
        app.leads_to(Message::TabAddPressed, readings, outcome),
    ensures
        ({
            let tabs = app.playlists.playlists;
            let name = "Playlist "@ + decimal(n);
            &&& n >= 1
            &&& forall|i: int| 0 <= i < tabs.len() ==> (#[trigger] tabs[i]).name != name
            &&& forall|m: nat|
                1 <= m < n ==> another_is_named(tabs, -1, "Playlist "@ + #[trigger] decimal(m))
            &&& outcome.app == AppModel {
                playlists: StoreModel {
                    playlists: tabs.push(PlaylistModel { name, entries: Seq::empty() }),
                    active_tab: tabs.len() as usize,
                    ..app.playlists
                },
                selected: None,
                playlist_revision: (app.playlist_revision + 1) as u64,
                ..app
            }
            &&& all_is_kept(outcome)
        }),
{
    let tabs = app.playlists.playlists;
    lemma_fresh_name_exists(tabs);
    let n = crate::names::lemma_fresh_number(tabs, crate::names::fresh_name(tabs));
    assert forall|m: nat| 1 <= m < n implies another_is_named(
        tabs,
        -1,
        "Playlist "@ + #[trigger] decimal(m),
    ) by {
        assert(name_taken(tabs, -1, "Playlist "@ + decimal(m)));
    }
    n
}

/// A tab that is closed goes with its songs, and the others stay in their
/// order. A rename of it is dropped, and one of another tab stays with its
/// tab. All of it is written down.
pub proof fn law_tab_is_closed(app: AppModel, readings: Readings, tab: usize, outcome: Outcome)
    requires
        app.wf(),
        tab < app.playlists.playlists.len(),
        app.leads_to(Message::TabClosePressed(tab), readings, outcome),
    ensures
        ({
            let tabs = app.playlists.playlists;
            let after = outcome.app.playlists;
            &&& tabs.len() > 1 ==> after.playlists == tabs.take(tab as int) + tabs.skip(tab + 1)
            &&& tabs.len() == 1 ==> after.playlists == seq![
                PlaylistModel { name: Seq::empty(), entries: Seq::empty() },
            ]
            &&& tab < app.playlists.active_tab ==> after.active_tab == app.playlists.active_tab - 1
            &&& tab > app.playlists.active_tab ==> after.active_tab == app.playlists.active_tab
            &&& tab == app.playlists.active_tab && tab + 1 < tabs.len() ==> after.active_tab == tab
            &&& tab == app.playlists.active_tab && tab + 1 == tabs.len() && tab > 0
                ==> after.active_tab == tab - 1
            &&& tab < app.playlists.current_tab ==> after.current_tab == app.playlists.current_tab
                - 1 && after.current == app.playlists.current
            &&& tab > app.playlists.current_tab ==> after.current_tab == app.playlists.current_tab
                && after.current == app.playlists.current
            &&& tab == app.playlists.current_tab ==> after.current is None
            &&& app.renaming_tab is None || app.renaming_tab == Some(tab)
                ==> outcome.app.renaming_tab is None
            &&& app.renaming_tab matches Some(edited) ==> {
                &&& edited < tab ==> outcome.app.renaming_tab == Some(edited)
                &&& edited > tab ==> outcome.app.renaming_tab == Some((edited - 1) as usize)
                &&& edited == tab ==> outcome.app.rename_draft.len() == 0
                &&& edited != tab ==> outcome.app.rename_draft == app.rename_draft
            }
            &&& outcome.app == AppModel {
                playlists: after,
                renaming_tab: outcome.app.renaming_tab,
                rename_draft: outcome.app.rename_draft,
                playlist_revision: (app.playlist_revision + 1) as u64,
                ..app
            }
            &&& all_is_kept(outcome)
        }),
{
    law_closing_takes_one_tab(app.playlists, tab as int);
}

// Titles.

/// The titles of the active tab are those of the tags that were read, in the
/// order of the songs, in the format of the settings. A song without tags is
/// shown by its file stem.
pub proof fn law_titles_follow_tags(
    app: AppModel,
    readings: Readings,
    tags: Vec<AudioMetadata>,
    outcome: Outcome,
)
    requires
        app.wf(),
        app.leads_to(Message::TitlesRead(tags), readings, outcome),
    ensures
        ({
            let songs = app.playlists.playlists[app.playlists.active_tab as int].entries;
            let none = TagsModel {
                artist: None,
                title: None,
                album: None,
                track_number: None,
                date: None,
                genre: None,
            };
            &&& outcome.app.titles.len() == songs.len()
            &&& forall|i: int|
                0 <= i < songs.len() ==> #[trigger] outcome.app.titles[i] == rendered_title(
                    if i < tags@.len() {
                        tags@[i]@
                    } else {
                        none
                    },
                    app.settings.title_format,
                    title_of(songs[i]),
                )
            &&& outcome.app == AppModel {
                titles: outcome.app.titles,
                playlist_revision: (app.playlist_revision + 1) as u64,
                ..app
            }
            &&& outcome.effects.len() == 0
        }),
{
}

/// The tray shows the artist and the title of the song whose tags were read.
pub proof fn law_tray_follows_tags(
    app: AppModel,
    readings: Readings,
    path: SongPath,
    tags: AudioMetadata,
    outcome: Outcome,
)
    requires
        app.wf(),
        app.leads_to(Message::SongTagsRead(path, tags), readings, outcome),
    ensures
        outcome.effects.len() == 0,
        outcome.app == (AppModel { tray_song: outcome.app.tray_song, ..app }),
        outcome.app.tray_song matches Some(shown) && {
            &&& tags@.artist matches Some(artist) ==> shown.0 == artist
            &&& tags@.artist is None ==> shown.0.len() == 0
            &&& tags@.title is None ==> shown.1 == title_of(path@)
            &&& tags@.title matches Some(title) ==> {
                &&& (exists|i: int| 0 <= i < title.len() && !is_space(#[trigger] title[i]))
                    ==> shown.1 == title
                &&& (forall|i: int| 0 <= i < title.len() ==> is_space(#[trigger] title[i]))
                    ==> shown.1 == title_of(path@)
            }
        },
{
    law_titles_of_untagged_songs(path@, Seq::empty(), tags@);
}

/// A title format is taken over without white space around it, a blank one
/// becomes the first one, and it is kept and shown.
pub proof fn law_title_format(app: AppModel, readings: Readings, text: String, outcome: Outcome)
    requires
        app.wf(),
    ensures
        app.leads_to(Message::TitleFormatChanged(text), readings, outcome) ==> outcome.app
            == (AppModel { title_format_edit: text@, ..app }) && outcome.effects.len() == 0,
        app.leads_to(Message::TitleFormatSubmitted, readings, outcome) ==> {
            let typed = trimmed(app.title_format_edit);
            let format = if typed.len() == 0 {
                "{artist} - {song}"@
            } else {
                typed
            };
            let settings = SettingsModel { title_format: format, ..app.settings };
            &&& outcome.app == AppModel {
                settings,
                title_format_edit: if typed.len() == 0 {
                    format
                } else {
                    app.title_format_edit
                },
                playlist_revision: (app.playlist_revision + 1) as u64,
                ..app
            }
            &&& outcome.effects == seq![
                EffectModel::SaveSettings { settings, report: true },
                EffectModel::ReadTitles(
                    app.playlists.playlists[app.playlists.active_tab as int].entries,
                ),
            ]
        },
        app.leads_to(Message::SettingsSaveFailed(text), readings, outcome) ==> outcome.app
            == (AppModel { status: text@, ..app }) && outcome.effects.len() == 0,
{
}

/// A shuffle puts the songs of the active tab into the order that a seed
/// draws.
pub proof fn law_shuffle_is_drawn(app: AppModel, readings: Readings, outcome: Outcome) -> (seed: u64)
    requires
        app.wf(),
        app.playlists.playlists[app.playlists.active_tab as int].entries.len() > 1,
        app.leads_to(Message::ShufflePressed, readings, outcome),
    ensures
        ({
            let tab = app.playlists.active_tab as int;
            outcome.app.playlists.playlists[tab].entries == crate::reorder::shuffled_by(
                app.playlists.playlists[tab].entries,
                seed,
            )
        }),
{
    choose|seed: u64| outcome == #[trigger] app.shuffled(seed)
}

/// A selection beyond the songs removes none, and is cleared.
pub proof fn law_no_such_song_is_removed(
    app: AppModel,
    readings: Readings,
    row: usize,
    outcome: Outcome,
)
    requires
        app.wf(),
        app.selected == Some(row),
        row >= app.playlists.playlists[app.playlists.active_tab as int].entries.len(),
        app.leads_to(Message::RemovePressed, readings, outcome),
    ensures
        outcome.app == (AppModel {
            selected: None,
            playlist_revision: (app.playlist_revision + 1) as u64,
            ..app
        }),
        all_is_kept(outcome),
{
    assert(outcome.effects.take(3) =~= outcome.effects);
}

} // verus!
