//! Keeping the playlists and the player's state between sessions.
use vstd::prelude::*;
use vstd::string::*;

use crate::path::SongPath;
use crate::playlist::{
    default_store, law_clamped_is_wf, law_state_round_trip, lemma_lengths, min_tab, PlayerState,
    Playlists, StoreModel,
};
use crate::pls::{decoded_store, pls_encode, pls_text};
use crate::round_trip::{is_taken_for_classic, law_pls_round_trip, storable};
use crate::settings::{config_file, file_path, file_to_write, path_view};

verus! {

/// The store of the playlist file: one empty playlist where the file is
/// missing or not to be understood.
pub open spec fn read_store(text: Option<Seq<char>>) -> StoreModel {
    match text {
        Some(text) => match decoded_store(text) {
            Some(store) => store,
            None => default_store(),
        },
        None => default_store(),
    }
}

/// The store with the active tab and the current song of the state file;
/// without it, with those it has, within what exists.
pub open spec fn restored(store: StoreModel, state: Option<PlayerState>) -> StoreModel {
    match state {
        Some(state) => state.applied(store),
        None => (StoreModel {
            active_tab: min_tab(store.active_tab, store.playlists.len()),
            ..store
        }).clamped(),
    }
}

/// A store that is read from its two files.
pub open spec fn loaded_store(text: Option<Seq<char>>, state: Option<PlayerState>) -> StoreModel {
    restored(read_store(text), state)
}

pub open spec fn str_view(text: Option<&str>) -> Option<Seq<char>> {
    match text {
        Some(text) => Some(text@),
        None => None,
    }
}

impl Playlists {
    /// The store of what was read: the text of the playlist file and the
    /// state of the state file, as far as they could be read.
    pub fn load_from(text: Option<&str>, state: Option<PlayerState>) -> (r: Playlists)
        ensures
            r@ == loaded_store(str_view(text), state),
            r@.wf(),
    {
        let parsed = match text {
            Some(text) => Playlists::parse(text),
            None => None,
        };
        let mut store = match parsed {
            Some(store) => store,
            None => Playlists::default(),
        };
        let ghost read = store@;
        assert(read == read_store(str_view(text)));
        proof {
            lemma_lengths(store);
        }
        match state {
            Some(state) => {
                state.apply_to(&mut store);
                proof {
                    law_clamped_is_wf(
                        StoreModel {
                            active_tab: min_tab(state.active_tab, read.playlists.len()),
                            current_tab: min_tab(state.current_tab, read.playlists.len()),
                            current: state.current,
                            ..read
                        },
                    );
                }
            },
            None => {
                let last: usize = store.playlists.len() - 1;
                if store.active_tab > last {
                    store.active_tab = last;
                }
                proof {
                    law_clamped_is_wf(store@);
                }
                store.clamp_current();
            },
        }
        store
    }

    /// The text of the playlist file, and where it is to be written.
    pub fn save_playlists(&self, home: Option<SongPath>) -> (r: Result<(SongPath, String), String>)
        ensures
            match r {
                Ok((path, text)) => file_path(path_view(home), "playlist.pls"@) == Some(path@)
                    && text@ == pls_text(self@.playlists),
                Err(text) => home is None && text@ == "No home directory."@,
            },
    {
        match file_to_write(home, "playlist.pls") {
            Ok(path) => Ok((path, pls_encode(self))),
            Err(text) => Err(text),
        }
    }

    /// The state of the state file, and where it is to be written.
    pub fn save_state(&self, home: Option<SongPath>) -> (r: Result<
        (SongPath, PlayerState),
        String,
    >)
        ensures
            match r {
                Ok((path, state)) => file_path(path_view(home), "player-state.toml"@) == Some(path@)
                    && state == PlayerState::of_store(self@),
                Err(text) => home is None && text@ == "No home directory."@,
            },
    {
        match file_to_write(home, "player-state.toml") {
            Ok(path) => Ok((path, PlayerState::from_store(self))),
            Err(text) => Err(text),
        }
    }

    /// The playlist file.
    pub fn playlist_file(home: Option<SongPath>) -> (r: Option<SongPath>)
        ensures
            path_view(r) == file_path(path_view(home), "playlist.pls"@),
    {
        config_file(home, "playlist.pls")
    }

    /// The state file.
    pub fn state_file(home: Option<SongPath>) -> (r: Option<SongPath>)
        ensures
            path_view(r) == file_path(path_view(home), "player-state.toml"@),
    {
        config_file(home, "player-state.toml")
    }
}

/// A store that is kept in both files is read back from them. Only the tab
/// of a current song that does not exist may move into range.
pub proof fn law_store_round_trip(store: StoreModel)
    requires
        store.wf(),
        storable(store.playlists),
        !is_taken_for_classic(store.playlists),
    ensures
        ({
            let back = loaded_store(
                Some(pls_text(store.playlists)),
                Some(PlayerState::of_store(store)),
            );
            &&& back.playlists == store.playlists
            &&& back.active_tab == store.active_tab
            &&& back.current == store.current
            &&& store.current_tab < store.playlists.len() ==> back == store
        }),
{
    law_pls_round_trip(store.playlists);
    law_state_round_trip(store, decoded_store(pls_text(store.playlists))->0);
}

/// Without a state file no song is current and the first tab is shown.
pub proof fn law_no_state_shows_first_tab(text: Option<Seq<char>>)
    ensures
        loaded_store(text, None).active_tab == 0,
        loaded_store(text, None).current_tab == 0,
        loaded_store(text, None).current is None,
{
}

/// The tabs are those of the playlist file, or one unnamed and empty tab where
/// it is missing or not to be understood. The state file tells which tab is
/// shown and which song is current.
pub proof fn law_store_is_loaded(text: Option<Seq<char>>, state: Option<PlayerState>)
    ensures
        ({
            let store = loaded_store(text, state);
            let read = match text {
                Some(text) => decoded_store(text),
                None => None,
            };
            &&& read matches Some(found) ==> store.playlists == found.playlists
            &&& read is None ==> store.playlists.len() == 1 && store.playlists[0].name.len() == 0
                && store.playlists[0].entries.len() == 0
            &&& state matches Some(kept) ==> {
                let count = store.playlists.len();
                &&& kept.active_tab < count ==> store.active_tab == kept.active_tab
                &&& kept.active_tab >= count ==> store.active_tab == count - 1
                &&& kept.current is None ==> store.current is None
                &&& kept.current_tab < count && kept.current is Some && kept.current->0
                    < store.playlists[kept.current_tab as int].entries.len() ==> store.current
                    == kept.current && store.current_tab == kept.current_tab
            }
        }),
{
}

} // verus!
