//! Playlists: their entries, the store of all tabs with the current song,
//! and the part of it that is persisted as state.
use vstd::prelude::*;

use crate::path::{paths_view, same_path, SongPath};
use crate::title::{song_title, title_of};

verus! {

/// One tab: a name and the songs in their order.
#[derive(Debug, PartialEq)]
pub struct Playlist {
    pub name: String,
    pub entries: Vec<SongPath>,
}

/// What a playlist holds.
#[verifier::ext_equal]
pub struct PlaylistModel {
    pub name: Seq<char>,
    pub entries: Seq<Seq<u8>>,
}

impl View for Playlist {
    type V = PlaylistModel;

    open spec fn view(&self) -> PlaylistModel {
        PlaylistModel { name: self.name@, entries: paths_view(self.entries@) }
    }
}

pub open spec fn playlists_view(playlists: Seq<Playlist>) -> Seq<PlaylistModel> {
    playlists.map_values(|p: Playlist| p@)
}

/// A playlist without a name and without songs.
pub open spec fn empty_playlist() -> PlaylistModel {
    PlaylistModel { name: Seq::empty(), entries: Seq::empty() }
}

impl Default for Playlist {
    fn default() -> (r: Self)
        ensures
            r@ == empty_playlist(),
    {
        let r = Playlist { name: String::new(), entries: Vec::new() };
        assert(r@ =~= empty_playlist());
        r
    }
}

/// A copy of a list of paths.
pub fn copy_paths(paths: &Vec<SongPath>) -> (r: Vec<SongPath>)
    ensures
        paths_view(r@) == paths_view(paths@),
{
    let mut r: Vec<SongPath> = Vec::new();
    let mut i: usize = 0;
    while i < paths.len()
        invariant
            i <= paths@.len(),
            paths_view(r@) == paths_view(paths@).take(i as int),
        decreases paths@.len() - i,
    {
        let ghost before = paths_view(r@);
        let path = paths[i].clone();
        r.push(path);
        i = i + 1;
        assert(paths_view(r@) =~= before.push(path@));
        assert(paths_view(r@) =~= paths_view(paths@).take(i as int));
    }
    assert(paths_view(r@) =~= paths_view(paths@));
    r
}

impl Clone for Playlist {
    fn clone(&self) -> (r: Self)
        ensures
            r@ == self@,
    {
        Playlist { name: self.name.clone(), entries: copy_paths(&self.entries) }
    }
}

/// The first position at or after `from` whose path is the given one.
pub open spec fn first_same(entries: Seq<Seq<u8>>, path: Seq<u8>, from: int) -> Option<usize>
    decreases entries.len() - from,
{
    if from < 0 || from >= entries.len() {
        None
    } else if same_path(entries[from], path) {
        Some(from as usize)
    } else {
        first_same(entries, path, from + 1)
    }
}

pub open spec fn has_path(entries: Seq<Seq<u8>>, path: Seq<u8>) -> bool {
    exists|i: int| 0 <= i < entries.len() && same_path(#[trigger] entries[i], path)
}

pub proof fn lemma_first_same(entries: Seq<Seq<u8>>, path: Seq<u8>, from: int)
    requires
        0 <= from <= entries.len() <= usize::MAX,
    ensures
        match first_same(entries, path, from) {
            Some(i) => from <= i < entries.len() && same_path(entries[i as int], path) && forall|
                j: int,
            |
                from <= j < i ==> !same_path(#[trigger] entries[j], path),
            None => forall|j: int|
                from <= j < entries.len() ==> !same_path(#[trigger] entries[j], path),
        },
    decreases entries.len() - from,
{
    if from < entries.len() && !same_path(entries[from], path) {
        lemma_first_same(entries, path, from + 1);
    }
}

/// The first position where the path stands in the list.
pub fn path_position(entries: &Vec<SongPath>, path: &SongPath) -> (r: Option<usize>)
    ensures
        r == first_same(paths_view(entries@), path@, 0),
        r is Some == has_path(paths_view(entries@), path@),
{
    let ghost all = paths_view(entries@);
    let mut i: usize = 0;
    while i < entries.len()
        invariant
            i <= entries@.len(),
            all == paths_view(entries@),
            first_same(all, path@, 0) == first_same(all, path@, i as int),
            forall|j: int| 0 <= j < i ==> !same_path(#[trigger] all[j], path@),
        decreases entries@.len() - i,
    {
        assert(all[i as int] == entries@[i as int]@);
        if entries[i].same(path) {
            return Some(i);
        }
        i = i + 1;
    }
    None
}

/// The entries after adding paths: each is appended unless it is there.
pub open spec fn with_added(entries: Seq<Seq<u8>>, paths: Seq<Seq<u8>>) -> Seq<Seq<u8>>
    decreases paths.len(),
{
    if paths.len() == 0 {
        entries
    } else {
        let before = with_added(entries, paths.drop_last());
        if has_path(before, paths.last()) {
            before
        } else {
            before.push(paths.last())
        }
    }
}

/// The song after `current`, if there is one.
pub open spec fn next_index(len: nat, current: usize) -> Option<usize> {
    if current + 1 < len {
        Some((current + 1) as usize)
    } else {
        None
    }
}

/// The song before `current`, if there is one.
pub open spec fn previous_index(len: nat, current: usize) -> Option<usize> {
    if current > 0 && current - 1 < len {
        Some((current - 1) as usize)
    } else {
        None
    }
}

impl Playlist {
    /// Appends the paths that are not in the list yet. Returns the position
    /// of the first one that is appended.
    pub fn add(&mut self, paths: Vec<SongPath>) -> (first_new: usize)
        ensures
            first_new == old(self).entries@.len(),
            final(self)@ == (PlaylistModel {
                entries: with_added(old(self)@.entries, paths_view(paths@)),
                ..old(self)@
            }),
    {
        let first_new: usize = self.entries.len();
        let ghost start = self@.entries;
        let ghost all = paths_view(paths@);
        assert(with_added(start, all.take(0)) == start);
        for path in it: paths
            invariant
                it.seq() == paths@,
                all == paths_view(paths@),
                self.name == old(self).name,
                paths_view(self.entries@) == with_added(start, all.take(it.index() as int)),
        {
            let ghost before = paths_view(self.entries@);
            let ghost i = it.index() as int;
            assert(all.take(i + 1).drop_last() =~= all.take(i));
            assert(all[i] == path@);
            if path_position(&self.entries, &path).is_none() {
                self.entries.push(path);
                assert(paths_view(self.entries@) =~= before.push(path@));
            }
        }
        assert(all.take(all.len() as int) =~= all);
        first_new
    }

    /// Removes the entry at `index`. Returns false where there is none.
    pub fn remove(&mut self, index: usize) -> (r: bool)
        ensures
            r == (index < old(self).entries@.len()),
            r ==> final(self)@ == (PlaylistModel {
                entries: old(self)@.entries.remove(index as int),
                ..old(self)@
            }),
            !r ==> *final(self) == *old(self),
    {
        if index >= self.entries.len() {
            return false;
        }
        self.entries.remove(index);
        assert(self@.entries =~= old(self)@.entries.remove(index as int));
        true
    }

    /// Replaces the entries by a reordered list.
    pub fn reorder(&mut self, entries: Vec<SongPath>)
        ensures
            final(self).name == old(self).name,
            final(self).entries == entries,
            final(self)@ == (PlaylistModel { entries: paths_view(entries@), ..old(self)@ }),
    {
        self.entries = entries;
    }

    /// The song after `current`, if there is one.
    pub fn next(&self, current: usize) -> (r: Option<usize>)
        requires
            current < usize::MAX,
        ensures
            r == next_index(self@.entries.len(), current),
    {
        if current + 1 < self.entries.len() {
            Some(current + 1)
        } else {
            None
        }
    }

    /// The song before `current`, if there is one.
    pub fn previous(&self, current: usize) -> (r: Option<usize>)
        ensures
            r == previous_index(self@.entries.len(), current),
    {
        if current > 0 && current - 1 < self.entries.len() {
            Some(current - 1)
        } else {
            None
        }
    }

    /// The file stem of an entry; `Unknown` where there is none.
    pub fn title(&self, index: usize) -> (r: String)
        ensures
            r@ == entry_title(self@.entries, index as int),
    {
        if index < self.entries.len() {
            assert(self@.entries[index as int] == self.entries@[index as int]@);
            song_title(&self.entries[index])
        } else {
            "Unknown".to_owned()
        }
    }
}

/// The file stem of an entry; `Unknown` where there is none.
pub open spec fn entry_title(entries: Seq<Seq<u8>>, index: int) -> Seq<char> {
    if 0 <= index < entries.len() {
        title_of(entries[index])
    } else {
        "Unknown"@
    }
}

// The store of all tabs.

/// All playlists, the tab that is shown, and the one current song.
#[derive(Debug, PartialEq)]
pub struct Playlists {
    pub playlists: Vec<Playlist>,
    pub active_tab: usize,
    /// The tab of the current song; of no meaning while there is none.
    pub current_tab: usize,
    /// The position of the current song in its tab.
    pub current: Option<usize>,
}

/// What the store holds.
#[verifier::ext_equal]
pub struct StoreModel {
    pub playlists: Seq<PlaylistModel>,
    pub active_tab: usize,
    pub current_tab: usize,
    pub current: Option<usize>,
}

impl View for Playlists {
    type V = StoreModel;

    open spec fn view(&self) -> StoreModel {
        StoreModel {
            playlists: playlists_view(self.playlists@),
            active_tab: self.active_tab,
            current_tab: self.current_tab,
            current: self.current,
        }
    }
}

impl StoreModel {
    /// There is a tab, the active one exists, and the current song, if there
    /// is one, is an entry of its tab.
    pub open spec fn wf(self) -> bool {
        &&& self.active_tab < self.playlists.len() <= usize::MAX
        &&& forall|i: int|
            0 <= i < self.playlists.len() ==> (#[trigger] self.playlists[i]).entries.len()
                <= usize::MAX
        &&& self.current matches Some(index) ==> self.current_tab < self.playlists.len() && index
            < self.playlists[self.current_tab as int].entries.len()
    }

    /// The playlist of the active tab.
    pub open spec fn shown(self) -> PlaylistModel {
        self.playlists[self.active_tab as int]
    }

    /// The store with the entries of one tab replaced.
    pub open spec fn with_entries(self, tab: int, entries: Seq<Seq<u8>>) -> StoreModel {
        StoreModel {
            playlists: self.playlists.update(
                tab,
                PlaylistModel { entries, ..self.playlists[tab] },
            ),
            ..self
        }
    }

    /// The store with the current song dropped or moved into range.
    pub open spec fn clamped(self) -> StoreModel {
        StoreModel {
            current: match self.current {
                Some(index) => if self.current_tab < self.playlists.len()
                    && self.playlists[self.current_tab as int].entries.len() > 0 {
                    let last = self.playlists[self.current_tab as int].entries.len() - 1;
                    Some(
                        if index <= last {
                            index
                        } else {
                            last as usize
                        },
                    )
                } else {
                    None
                },
                None => None,
            },
            ..self
        }
    }

    /// Where the current song is after the removal of an entry.
    pub open spec fn current_after_removal(self, tab: int, index: int) -> Option<usize> {
        match self.current {
            Some(current) => if self.current_tab != tab || current < index {
                Some(current)
            } else if current == index {
                None
            } else {
                Some((current - 1) as usize)
            },
            None => None,
        }
    }

    /// The store after the removal of an entry.
    pub open spec fn without_entry(self, tab: int, index: int) -> StoreModel {
        if tab < self.playlists.len() && index < self.playlists[tab].entries.len() {
            StoreModel {
                current: self.current_after_removal(tab, index),
                ..self.with_entries(tab, self.playlists[tab].entries.remove(index))
            }
        } else {
            self
        }
    }
}

/// Tabs after one was closed: there is always one.
pub open spec fn tabs_without(tabs: Seq<PlaylistModel>, index: int) -> Seq<PlaylistModel> {
    if tabs.len() == 1 {
        seq![empty_playlist()]
    } else {
        tabs.remove(index)
    }
}

impl StoreModel {
    /// The store after a tab was closed: the active tab stays the same one
    /// or moves to its neighbour, and the current song stays the same one or
    /// is dropped with its tab.
    pub open spec fn without_tab(self, index: int) -> StoreModel {
        let tabs = tabs_without(self.playlists, index);
        StoreModel {
            playlists: tabs,
            active_tab: if index < self.active_tab {
                (self.active_tab - 1) as usize
            } else if index == self.active_tab && self.active_tab >= tabs.len() {
                (tabs.len() - 1) as usize
            } else {
                self.active_tab
            },
            current_tab: if index < self.current_tab {
                (self.current_tab - 1) as usize
            } else {
                self.current_tab
            },
            current: if index == self.current_tab {
                None
            } else {
                self.current
            },
        }
    }
}

/// A store with one empty playlist and no current song.
pub open spec fn default_store() -> StoreModel {
    StoreModel {
        playlists: seq![empty_playlist()],
        active_tab: 0,
        current_tab: 0,
        current: None,
    }
}

impl Default for Playlists {
    fn default() -> (r: Self)
        ensures
            r@ == default_store(),
    {
        let mut playlists: Vec<Playlist> = Vec::new();
        playlists.push(Playlist::default());
        let r = Playlists { playlists, active_tab: 0, current_tab: 0, current: None };
        assert(r@ =~= default_store());
        r
    }
}

impl Clone for Playlists {
    fn clone(&self) -> (r: Self)
        ensures
            r@ == self@,
    {
        let mut playlists: Vec<Playlist> = Vec::new();
        let mut i: usize = 0;
        while i < self.playlists.len()
            invariant
                i <= self.playlists@.len(),
                playlists_view(playlists@) == playlists_view(self.playlists@).take(i as int),
            decreases self.playlists@.len() - i,
        {
            let ghost before = playlists_view(playlists@);
            let copy = self.playlists[i].clone();
            playlists.push(copy);
            i = i + 1;
            assert(playlists_view(playlists@) =~= before.push(copy@));
            assert(playlists_view(playlists@) =~= playlists_view(self.playlists@).take(i as int));
        }
        let r = Playlists {
            playlists,
            active_tab: self.active_tab,
            current_tab: self.current_tab,
            current: self.current,
        };
        assert(r@ =~= self@);
        r
    }
}

impl Playlists {
    /// The playlist of the active tab.
    pub fn active(&self) -> (r: &Playlist)
        requires
            self.active_tab < self.playlists@.len(),
        ensures
            *r == self.playlists@[self.active_tab as int],
            r@ == self@.shown(),
    {
        &self.playlists[self.active_tab]
    }

    /// The playlist of the active tab, to be changed.
    pub fn active_mut(&mut self) -> (r: &mut Playlist)
        requires
            old(self).active_tab < old(self).playlists@.len(),
        ensures
            *r == old(self).playlists@[old(self).active_tab as int],
            final(self).playlists@ == old(self).playlists@.update(
                old(self).active_tab as int,
                *final(r),
            ),
            final(self).active_tab == old(self).active_tab,
            final(self).current_tab == old(self).current_tab,
            final(self).current == old(self).current,
    {
        let tab: usize = self.active_tab;
        &mut self.playlists[tab]
    }

    /// Drops the current song, or moves it into range, where it does not fit
    /// the entries of its tab.
    pub fn clamp_current(&mut self)
        ensures
            final(self)@ == old(self)@.clamped(),
            final(self).playlists == old(self).playlists,
    {
        if let Some(index) = self.current {
            if self.current_tab < self.playlists.len()
                && self.playlists[self.current_tab].entries.len() > 0 {
                let last: usize = self.playlists[self.current_tab].entries.len() - 1;
                self.current = Some(
                    if index <= last {
                        index
                    } else {
                        last
                    },
                );
            } else {
                self.current = None;
            }
        }
        assert(self@ =~= old(self)@.clamped());
    }

    /// Removes an entry. The current song stays the same entry, and is
    /// cleared where it is the one removed. Returns false where there is no
    /// such entry.
    pub fn remove_entry(&mut self, tab: usize, index: usize) -> (r: bool)
        ensures
            r == (tab < old(self)@.playlists.len() && index < old(
                self,
            )@.playlists[tab as int].entries.len()),
            final(self)@ == old(self)@.without_entry(tab as int, index as int),
    {
        if tab >= self.playlists.len() {
            return false;
        }
        assert(self@.playlists[tab as int] == self.playlists@[tab as int]@);
        if index >= self.playlists[tab].entries.len() {
            return false;
        }
        self.playlists[tab].remove(index);
        if self.current_tab == tab {
            if let Some(current) = self.current {
                if current == index {
                    self.current = None;
                } else if current > index {
                    self.current = Some(current - 1);
                }
            }
        }
        assert(self@ =~= old(self)@.without_entry(tab as int, index as int));
        true
    }

    /// Closes a tab. An empty one takes the place of the last one.
    pub fn close_tab(&mut self, index: usize)
        requires
            index < old(self)@.playlists.len(),
        ensures
            final(self)@ == old(self)@.without_tab(index as int),
    {
        let ghost tabs = self@.playlists;
        self.playlists.remove(index);
        assert(playlists_view(self.playlists@) =~= tabs.remove(index as int));
        if self.playlists.len() == 0 {
            let ghost none = playlists_view(self.playlists@);
            let fresh = Playlist::default();
            self.playlists.push(fresh);
            assert(playlists_view(self.playlists@) =~= none.push(fresh@));
            assert(none.push(fresh@) =~= tabs_without(tabs, index as int));
        }
        assert(playlists_view(self.playlists@) == tabs_without(tabs, index as int));
        let len: usize = self.playlists.len();
        if index < self.active_tab {
            self.active_tab = self.active_tab - 1;
        } else if index == self.active_tab && self.active_tab >= len {
            self.active_tab = len - 1;
        }
        if index < self.current_tab {
            self.current_tab = self.current_tab - 1;
        } else if index == self.current_tab {
            self.current = None;
        }
    }
}

// Persisted state.

/// The active tab and the current song, persisted apart from the playlists.
#[derive(Debug, Clone, Copy, PartialEq, Eq)]
pub struct PlayerState {
    pub active_tab: usize,
    pub current_tab: usize,
    pub current: Option<usize>,
}

impl Default for PlayerState {
    fn default() -> (r: Self)
        ensures
            r == (PlayerState { active_tab: 0, current_tab: 0, current: None }),
    {
        PlayerState { active_tab: 0, current_tab: 0, current: None }
    }
}

pub open spec fn min_tab(tab: usize, count: nat) -> usize {
    if tab < count {
        tab
    } else {
        (count - 1) as usize
    }
}

impl PlayerState {
    /// The state of a store.
    pub open spec fn of_store(store: StoreModel) -> PlayerState {
        PlayerState {
            active_tab: store.active_tab,
            current_tab: store.current_tab,
            current: store.current,
        }
    }

    /// A store with the state applied, within what exists.
    pub open spec fn applied(self, store: StoreModel) -> StoreModel {
        (StoreModel {
            active_tab: min_tab(self.active_tab, store.playlists.len()),
            current_tab: min_tab(self.current_tab, store.playlists.len()),
            current: self.current,
            ..store
        }).clamped()
    }

    /// The state of a store.
    pub fn from_store(store: &Playlists) -> (r: PlayerState)
        ensures
            r == PlayerState::of_store(store@),
    {
        PlayerState {
            active_tab: store.active_tab,
            current_tab: store.current_tab,
            current: store.current,
        }
    }

    /// Applies the state to a store, within what exists.
    pub fn apply_to(self, store: &mut Playlists)
        requires
            old(store).playlists@.len() > 0,
        ensures
            final(store)@ == self.applied(old(store)@),
    {
        let last: usize = store.playlists.len() - 1;
        store.active_tab = if self.active_tab <= last {
            self.active_tab
        } else {
            last
        };
        store.current_tab = if self.current_tab <= last {
            self.current_tab
        } else {
            last
        };
        store.current = self.current;
        store.clamp_current();
    }
}

/// The number that is stored for the current song: -1 where there is none.
pub open spec fn current_code(current: Option<usize>) -> i64 {
    match current {
        Some(index) => index as i64,
        None => -1i64,
    }
}

/// The current song that a stored number stands for.
pub open spec fn code_current(code: Option<i64>) -> Option<usize> {
    match code {
        Some(index) => if 0 <= index <= usize::MAX {
            Some(index as usize)
        } else {
            None
        },
        None => None,
    }
}

pub fn encode_current(current: Option<usize>) -> (r: i64)
    ensures
        r == current_code(current),
{
    match current {
        Some(index) => index as i64,
        None => -1,
    }
}

pub fn decode_current(code: Option<i64>) -> (r: Option<usize>)
    ensures
        r == code_current(code),
{
    match code {
        Some(index) => if index >= 0 && index as u64 <= usize::MAX as u64 {
            Some(index as usize)
        } else {
            None
        },
        None => None,
    }
}

/// A current song is read back from the number stored for it, as far as the
/// number can hold its position.
pub proof fn law_current_code_round_trip(current: Option<usize>)
    requires
        current matches Some(index) ==> index <= i64::MAX,
    ensures
        code_current(Some(current_code(current))) == current,
{
}

/// The lengths in a store that a machine holds.
pub proof fn lemma_lengths(store: Playlists)
    ensures
        store@.playlists.len() <= usize::MAX,
        forall|i: int|
            0 <= i < store@.playlists.len() ==> (#[trigger] store@.playlists[i]).entries.len()
                <= usize::MAX,
{
    assert(store.playlists.len() <= usize::MAX);
    assert forall|i: int| 0 <= i < store@.playlists.len() implies (
    #[trigger] store@.playlists[i]).entries.len() <= usize::MAX by {
        assert(store.playlists@[i].entries.len() <= usize::MAX);
    }
}

// Laws of the store.

/// A cleared or clamped current song, and an active tab within range, make a
/// store well formed.
pub proof fn law_clamped_is_wf(store: StoreModel)
    requires
        store.active_tab < store.playlists.len() <= usize::MAX,
        forall|i: int|
            0 <= i < store.playlists.len() ==> (#[trigger] store.playlists[i]).entries.len()
                <= usize::MAX,
    ensures
        store.clamped().wf(),
        store.clamped().clamped() == store.clamped(),
{
    let c = store.clamped();
    assert(c.playlists == store.playlists);
    if store.current is Some && store.current_tab < store.playlists.len() {
        assert(store.playlists[store.current_tab as int].entries.len() <= usize::MAX);
    }
    assert(c.clamped() =~= c);
}

/// A store that is well formed stays as it is when it is clamped.
pub proof fn law_clamp_keeps_wf(store: StoreModel)
    requires
        store.wf(),
    ensures
        store.clamped() == store,
{
    assert(store.clamped() =~= store);
}

/// Removing an entry keeps the store well formed, and the current song stays
/// the same song unless it is the one removed.
pub proof fn law_removal_keeps_current_song(store: StoreModel, tab: int, index: int)
    requires
        store.wf(),
        0 <= tab < store.playlists.len(),
        0 <= index < store.playlists[tab].entries.len(),
    ensures
        store.without_entry(tab, index).wf(),
        store.current is None ==> store.without_entry(tab, index).current is None,
        store.current matches Some(current) ==> match store.without_entry(tab, index).current {
            Some(after) => {
                &&& !(store.current_tab == tab && current == index)
                &&& store.without_entry(tab, index).playlists[store.current_tab as int].entries[after as int]
                    == store.playlists[store.current_tab as int].entries[current as int]
            },
            None => store.current_tab == tab && current == index,
        },
{
    let after = store.without_entry(tab, index);
    assert forall|i: int| 0 <= i < after.playlists.len() implies (
    #[trigger] after.playlists[i]).entries.len() <= usize::MAX by {
        assert(store.playlists[i].entries.len() <= usize::MAX);
    }
}

/// The state of a well-formed store brings its active tab and its current
/// song back, in any store with the same playlists. The tab of a current
/// song that does not exist may move into range.
pub proof fn law_state_round_trip(store: StoreModel, other: StoreModel)
    requires
        store.wf(),
        other.playlists == store.playlists,
    ensures
        ({
            let back = PlayerState::of_store(store).applied(other);
            &&& back.playlists == store.playlists
            &&& back.active_tab == store.active_tab
            &&& back.current == store.current
            &&& store.current_tab < store.playlists.len() ==> back == store
        }),
{
    let back = PlayerState::of_store(store).applied(other);
    if store.current_tab < store.playlists.len() {
        assert(back =~= store);
    }
}

/// Adding keeps the entries that are there and adds no path that is.
pub proof fn law_add_keeps_and_deduplicates(entries: Seq<Seq<u8>>, paths: Seq<Seq<u8>>)
    ensures
        entries.is_prefix_of(with_added(entries, paths)),
        forall|i: int, j: int|
            0 <= i < j < with_added(entries, paths).len() && j >= entries.len() ==> !same_path(
                #[trigger] with_added(entries, paths)[i],
                #[trigger] with_added(entries, paths)[j],
            ),
        forall|k: int|
            0 <= k < paths.len() ==> has_path(with_added(entries, paths), #[trigger] paths[k]),
    decreases paths.len(),
{
    if paths.len() > 0 {
        let front = paths.drop_last();
        law_add_keeps_and_deduplicates(entries, front);
        let before = with_added(entries, front);
        let after = with_added(entries, paths);
        if !has_path(before, paths.last()) {
            assert forall|i: int| 0 <= i < before.len() implies !same_path(
                #[trigger] before[i],
                paths.last(),
            ) by {}
            assert(same_path(after[after.len() - 1], paths.last()));
        }
        assert forall|k: int| 0 <= k < paths.len() implies has_path(after, #[trigger] paths[k]) by {
            if k < front.len() {
                assert(front[k] == paths[k]);
                assert(has_path(before, front[k]));
                let i = choose|i: int|
                    0 <= i < before.len() && same_path(#[trigger] before[i], front[k]);
                assert(after[i] == before[i]);
            } else {
                assert(paths[k] == paths.last());
            }
        }
    }
}

/// Adding the same paths a second time changes nothing.
pub proof fn law_add_twice(entries: Seq<Seq<u8>>, paths: Seq<Seq<u8>>)
    ensures
        with_added(with_added(entries, paths), paths) == with_added(entries, paths),
{
    law_add_keeps_and_deduplicates(entries, paths);
    lemma_add_present(with_added(entries, paths), paths, paths.len() as int);
    assert(paths.take(paths.len() as int) =~= paths);
}

proof fn lemma_add_present(entries: Seq<Seq<u8>>, paths: Seq<Seq<u8>>, k: int)
    requires
        0 <= k <= paths.len(),
        forall|i: int| 0 <= i < paths.len() ==> has_path(entries, #[trigger] paths[i]),
    ensures
        with_added(entries, paths.take(k)) == entries,
    decreases k,
{
    if k > 0 {
        lemma_add_present(entries, paths, k - 1);
        assert(paths.take(k).drop_last() =~= paths.take(k - 1));
        assert(paths.take(k).last() == paths[k - 1]);
    }
}

/// After `next`, `previous` leads back, and the other way round.
pub proof fn law_next_previous_inverse(len: nat, current: usize)
    requires
        current < len <= usize::MAX,
    ensures
        next_index(len, current) matches Some(next) ==> previous_index(len, next) == Some(current),
        previous_index(len, current) matches Some(previous) ==> next_index(len, previous) == Some(
            current,
        ),
{
}

/// The paths that are added, by their places in the list that is given.
proof fn lemma_added(entries: Seq<Seq<u8>>, paths: Seq<Seq<u8>>) -> (picks: Seq<int>)
    ensures
        with_added(entries, paths) == entries + picks.map_values(|k: int| paths[k]),
        forall|a: int| 0 <= a < picks.len() ==> 0 <= #[trigger] picks[a] < paths.len(),
        forall|a: int, b: int| 0 <= a < b < picks.len() ==> picks[a] < picks[b],
        forall|k: int|
            0 <= k < paths.len() ==> (#[trigger] picks.contains(k) <==> !has_path(
                entries,
                paths[k],
            ) && forall|j: int| 0 <= j < k ==> !same_path(#[trigger] paths[j], paths[k])),
    decreases paths.len(),
{
    if paths.len() == 0 {
        let none = Seq::<int>::empty();
        assert(entries + none.map_values(|k: int| paths[k]) =~= entries);
        none
    } else {
        let front = paths.drop_last();
        let n = front.len() as int;
        let last = paths.last();
        let picks = lemma_added(entries, front);
        let before = with_added(entries, front);
        law_add_keeps_and_deduplicates(entries, front);
        let old = picks.map_values(|k: int| front[k]);
        assert(old =~= picks.map_values(|k: int| paths[k]));
        let seen = has_path(entries, last) || exists|j: int|
            0 <= j < n && same_path(#[trigger] paths[j], last);
        assert(has_path(before, last) == seen) by {
            if has_path(before, last) {
                let i = choose|i: int| 0 <= i < before.len() && same_path(#[trigger] before[i], last);
                if i < entries.len() {
                    assert(same_path(entries[i], last));
                } else {
                    let a = i - entries.len();
                    assert(before[i] == old[a]);
                    assert(0 <= picks[a] < n);
                    assert(paths[picks[a]] == front[picks[a]]);
                    assert(same_path(paths[picks[a]], last));
                }
            }
            if has_path(entries, last) {
                let i = choose|i: int| 0 <= i < entries.len() && same_path(#[trigger] entries[i], last);
                assert(before[i] == entries[i]);
            } else if seen {
                let j = choose|j: int| 0 <= j < n && same_path(#[trigger] paths[j], last);
                assert(front[j] == paths[j]);
                assert(has_path(before, front[j]));
                let i = choose|i: int|
                    0 <= i < before.len() && same_path(#[trigger] before[i], front[j]);
                assert(same_path(before[i], last));
            }
        }
        let r = if seen {
            picks
        } else {
            picks.push(n)
        };
        let now = r.map_values(|k: int| paths[k]);
        if seen {
            assert(now =~= old);
        } else {
            assert(now =~= old.push(last));
            assert(entries + now =~= before.push(last));
        }
        assert forall|k: int| 0 <= k < paths.len() implies (#[trigger] r.contains(k) <==> !has_path(
            entries,
            paths[k],
        ) && forall|j: int| 0 <= j < k ==> !same_path(#[trigger] paths[j], paths[k])) by {
            if k < n {
                assert(front[k] == paths[k]);
                assert(picks.contains(k) == r.contains(k)) by {
                    if picks.contains(k) {
                        let a = choose|a: int| 0 <= a < picks.len() && picks[a] == k;
                        assert(r[a] == k);
                    }
                    if r.contains(k) {
                        let a = choose|a: int| 0 <= a < r.len() && r[a] == k;
                        assert(a < picks.len());
                        assert(picks[a] == k);
                    }
                }
                assert forall|j: int| 0 <= j < k implies #[trigger] paths[j] == front[j] by {}
                if forall|j: int| 0 <= j < k ==> !same_path(#[trigger] paths[j], paths[k]) {
                    assert forall|j: int| 0 <= j < k implies !same_path(
                        #[trigger] front[j],
                        front[k],
                    ) by {
                        assert(paths[j] == front[j]);
                    }
                } else {
                    let j = choose|j: int| 0 <= j < k && same_path(#[trigger] paths[j], paths[k]);
                    assert(same_path(front[j], front[k]));
                }
            } else {
                assert(paths[k] == last);
                if !seen {
                    assert(r[r.len() - 1] == k);
                } else {
                    assert(!r.contains(k)) by {
                        if r.contains(k) {
                            let a = choose|a: int| 0 <= a < r.len() && r[a] == k;
                            assert(picks[a] < n);
                        }
                    }
                }
            }
        }
        r
    }
}

/// New songs come after those that are there, in the order they are given:
/// each path that is not there yet, where it first occurs.
pub proof fn law_add_appends_in_order(entries: Seq<Seq<u8>>, paths: Seq<Seq<u8>>) -> (picks: Seq<
    int,
>)
    ensures
        with_added(entries, paths) == entries + picks.map_values(|k: int| paths[k]),
        forall|a: int, b: int| 0 <= a < b < picks.len() ==> picks[a] < picks[b],
        forall|a: int| 0 <= a < picks.len() ==> 0 <= #[trigger] picks[a] < paths.len(),
        forall|k: int|
            0 <= k < paths.len() ==> (#[trigger] picks.contains(k) <==> (forall|i: int|
                0 <= i < entries.len() ==> !same_path(#[trigger] entries[i], paths[k])) && (forall|
                j: int,
            |
                0 <= j < k ==> !same_path(#[trigger] paths[j], paths[k]))),
{
    lemma_added(entries, paths)
}

/// Where no path is there yet and none is given twice, the paths are appended
/// as they are.
pub proof fn law_new_songs_are_appended_as_given(entries: Seq<Seq<u8>>, paths: Seq<Seq<u8>>)
    requires
        forall|i: int, k: int|
            0 <= i < entries.len() && 0 <= k < paths.len() ==> !same_path(
                #[trigger] entries[i],
                #[trigger] paths[k],
            ),
        forall|j: int, k: int|
            0 <= j < k < paths.len() ==> !same_path(#[trigger] paths[j], #[trigger] paths[k]),
    ensures
        with_added(entries, paths) == entries + paths,
    decreases paths.len(),
{
    if paths.len() == 0 {
        assert(entries + paths =~= entries);
    } else {
        let front = paths.drop_last();
        law_new_songs_are_appended_as_given(entries, front);
        let before = entries + front;
        assert forall|i: int| 0 <= i < before.len() implies !same_path(
            #[trigger] before[i],
            paths.last(),
        ) by {
            let k = paths.len() - 1;
            assert(paths[k] == paths.last());
            if i < entries.len() {
                assert(before[i] == entries[i]);
            } else {
                assert(before[i] == paths[i - entries.len()]);
            }
        }
        assert(before.push(paths.last()) =~= entries + paths);
    }
}

/// The neighbours of a song are the ones beside it, wherever there are such.
pub proof fn law_neighbours(len: nat, current: usize)
    requires
        current < len <= usize::MAX,
    ensures
        current + 1 < len ==> next_index(len, current) == Some((current + 1) as usize),
        current + 1 == len ==> next_index(len, current) is None,
        current > 0 ==> previous_index(len, current) == Some((current - 1) as usize),
        current == 0 ==> previous_index(len, current) is None,
{
}

/// A current song in range stays, one beyond the end becomes the last song,
/// and one without a tab or in an empty tab is dropped. Nothing else changes.
pub proof fn law_clamping(store: StoreModel, index: usize)
    requires
        store.current == Some(index),
    ensures
        ({
            let after = store.clamped();
            &&& after.playlists == store.playlists
            &&& after.active_tab == store.active_tab
            &&& after.current_tab == store.current_tab
            &&& store.current_tab >= store.playlists.len() ==> after.current is None
            &&& store.current_tab < store.playlists.len() ==> {
                let songs = store.playlists[store.current_tab as int].entries;
                &&& songs.len() == 0 ==> after.current is None
                &&& index < songs.len() ==> after.current == Some(index)
                &&& 0 < songs.len() <= index ==> after.current == Some((songs.len() - 1) as usize)
            }
        }),
{
}

/// Where no song is current, clamping changes nothing.
pub proof fn law_clamping_nothing(store: StoreModel)
    requires
        store.current is None,
    ensures
        store.clamped() == store,
{
    assert(store.clamped() =~= store);
}

/// Removing an entry takes this one out of its tab and leaves the order of
/// the others, their names, the other tabs and the active tab alone. One that
/// does not exist is not removed.
pub proof fn law_removal_takes_one_entry(store: StoreModel, tab: int, index: int)
    requires
        0 <= tab,
        0 <= index,
    ensures
        ({
            let after = store.without_entry(tab, index);
            let there = tab < store.playlists.len() && index < store.playlists[tab].entries.len();
            &&& !there ==> after == store
            &&& there ==> {
                let songs = store.playlists[tab].entries;
                &&& after.playlists.len() == store.playlists.len()
                &&& after.playlists[tab].name == store.playlists[tab].name
                &&& after.playlists[tab].entries == songs.take(index) + songs.skip(index + 1)
                &&& forall|i: int|
                    0 <= i < store.playlists.len() && i != tab ==> #[trigger] after.playlists[i]
                        == store.playlists[i]
                &&& after.active_tab == store.active_tab
                &&& after.current_tab == store.current_tab
            }
        }),
{
    if tab < store.playlists.len() && index < store.playlists[tab].entries.len() {
        let songs = store.playlists[tab].entries;
        assert(songs.remove(index) =~= songs.take(index) + songs.skip(index + 1));
    }
}

/// Closing a tab takes this one out and leaves the order of the others; the
/// last one is followed by an empty one. The tab that is shown stays the same
/// one; where it is the one that is closed, its right neighbour is shown, or
/// the last tab. The tab of the current song stays the same one too.
pub proof fn law_closing_takes_one_tab(store: StoreModel, index: int)
    requires
        store.wf(),
        0 <= index < store.playlists.len(),
    ensures
        ({
            let after = store.without_tab(index);
            let tabs = store.playlists;
            &&& tabs.len() > 1 ==> after.playlists == tabs.take(index) + tabs.skip(index + 1)
            &&& tabs.len() == 1 ==> after.playlists == seq![
                PlaylistModel { name: Seq::empty(), entries: Seq::empty() },
            ]
            &&& index < store.active_tab ==> after.active_tab == store.active_tab - 1
            &&& index > store.active_tab ==> after.active_tab == store.active_tab
            &&& index == store.active_tab && index + 1 < tabs.len() ==> after.active_tab == index
            &&& index == store.active_tab && index + 1 == tabs.len() && index > 0
                ==> after.active_tab == index - 1
            &&& index == store.active_tab && tabs.len() == 1 ==> after.active_tab == 0
            &&& index < store.current_tab ==> after.current_tab == store.current_tab - 1
                && after.current == store.current
            &&& index > store.current_tab ==> after.current_tab == store.current_tab
                && after.current == store.current
            &&& index == store.current_tab ==> after.current is None && after.current_tab
                == store.current_tab
        }),
{
    let tabs = store.playlists;
    if tabs.len() > 1 {
        assert(tabs.remove(index) =~= tabs.take(index) + tabs.skip(index + 1));
    } else {
        assert(store.without_tab(index).playlists =~= seq![
            PlaylistModel { name: Seq::<char>::empty(), entries: Seq::<Seq<u8>>::empty() },
        ]);
    }
}

/// The state of a file brings its tabs and its song back where they exist. A
/// tab beyond the last one becomes the last one.
pub proof fn law_state_is_applied(state: PlayerState, store: StoreModel)
    requires
        0 < store.playlists.len() <= usize::MAX,
    ensures
        ({
            let after = state.applied(store);
            let count = store.playlists.len();
            &&& after.playlists == store.playlists
            &&& state.active_tab < count ==> after.active_tab == state.active_tab
            &&& state.active_tab >= count ==> after.active_tab == count - 1
            &&& state.current_tab < count ==> after.current_tab == state.current_tab
            &&& state.current_tab >= count ==> after.current_tab == count - 1
            &&& state.current is None ==> after.current is None
            &&& state.current matches Some(index) ==> {
                let songs = store.playlists[after.current_tab as int].entries;
                &&& index < songs.len() ==> after.current == Some(index)
                &&& 0 < songs.len() <= index ==> after.current == Some((songs.len() - 1) as usize)
                &&& songs.len() == 0 ==> after.current is None
            }
        }),
{
}

/// A store starts with one unnamed tab without songs, and no current song.
pub proof fn law_first_store()
    ensures
        default_store().playlists.len() == 1,
        default_store().playlists[0].name.len() == 0,
        default_store().playlists[0].entries.len() == 0,
        default_store().active_tab == 0,
        default_store().current is None,
{
}

/// The number of a current song is its position, and a negative number, or
/// none, stands for no song.
pub proof fn law_current_codes(index: usize, code: i64)
    requires
        index <= i64::MAX,
    ensures
        current_code(Some(index)) == index,
        current_code(None) == -1,
        code_current(None) is None,
        code < 0 ==> code_current(Some(code)) is None,
        0 <= code <= usize::MAX ==> code_current(Some(code)) == Some(code as usize),
        PlayerState::of_store(default_store()) == (PlayerState {
            active_tab: 0,
            current_tab: 0,
            current: None,
        }),
{
}

/// The title of an entry is that of its path.
pub proof fn law_entry_titles(entries: Seq<Seq<u8>>, index: int)
    ensures
        0 <= index < entries.len() ==> entry_title(entries, index) == title_of(entries[index]),
        index < 0 || index >= entries.len() ==> entry_title(entries, index) == "Unknown"@,
{
}

} // verus!
