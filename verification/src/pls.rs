//! The playlist file: an INI-like text with one section per tab.
use vstd::prelude::*;
use vstd::string::*;
use vstd::utf8::*;

use crate::path::{shown_path, SongPath};
use crate::playlist::{playlists_view, Playlist, PlaylistModel, Playlists, StoreModel};
use crate::text::{
    chars_of, decimal, decimal_chars, eq_ignore_case, find_char, find_from, key_is, parse_chars,
    parse_number, pieces_view, push_chars, same_chars, same_ignoring_case, split_chars, split_on,
    strip_chars, sub_chars, text_of, trimmed, CharClass,
};
use crate::title::{song_title, title_of};

verus! {

// What is written.

/// The lines as a text, each with a line feed after it.
pub open spec fn joined_lines(lines: Seq<Seq<char>>) -> Seq<char>
    decreases lines.len(),
{
    if lines.len() == 0 {
        Seq::empty()
    } else {
        lines[0].push('\n') + joined_lines(lines.drop_first())
    }
}

/// The line `<key>=<value>`.
pub open spec fn key_line(key: Seq<char>, value: Seq<char>) -> Seq<char> {
    key + "="@ + value
}

pub open spec fn file_key(n: nat) -> Seq<char> {
    "File"@ + decimal(n)
}

pub open spec fn title_key(n: nat) -> Seq<char> {
    "Title"@ + decimal(n)
}

pub open spec fn length_key(n: nat) -> Seq<char> {
    "Length"@ + decimal(n)
}

/// The lines of the song with number `n`.
pub open spec fn entry_lines(n: nat, path: Seq<u8>) -> Seq<Seq<char>> {
    seq![
        key_line(file_key(n), shown_path(path)),
        key_line(title_key(n), title_of(path)),
        key_line(length_key(n), "-1"@),
    ]
}

pub open spec fn entries_lines(entries: Seq<Seq<u8>>) -> Seq<Seq<char>>
    decreases entries.len(),
{
    if entries.len() == 0 {
        Seq::empty()
    } else {
        entries_lines(entries.drop_last()) + entry_lines(entries.len(), entries.last())
    }
}

pub open spec fn header_line(name: Seq<char>) -> Seq<char> {
    "["@ + name + "]"@
}

/// The section of a playlist: its name, the number of its songs, the songs
/// and an empty line.
pub open spec fn playlist_lines(playlist: PlaylistModel) -> Seq<Seq<char>> {
    seq![
        header_line(playlist.name),
        key_line("NumberOfEntries"@, decimal(playlist.entries.len())),
    ] + entries_lines(playlist.entries) + seq![Seq::<char>::empty()]
}

pub open spec fn store_lines(playlists: Seq<PlaylistModel>) -> Seq<Seq<char>>
    decreases playlists.len(),
{
    if playlists.len() == 0 {
        Seq::empty()
    } else {
        store_lines(playlists.drop_last()) + playlist_lines(playlists.last())
    }
}

/// The text of the playlist file.
pub open spec fn pls_text(playlists: Seq<PlaylistModel>) -> Seq<char> {
    joined_lines(store_lines(playlists))
}

proof fn lemma_joined_concat(a: Seq<Seq<char>>, b: Seq<Seq<char>>)
    ensures
        joined_lines(a + b) == joined_lines(a) + joined_lines(b),
    decreases a.len(),
{
    if a.len() == 0 {
        assert(a + b =~= b);
        assert(joined_lines(a) + joined_lines(b) =~= joined_lines(b));
    } else {
        assert((a + b).drop_first() =~= a.drop_first() + b);
        lemma_joined_concat(a.drop_first(), b);
        assert(joined_lines(a + b) =~= joined_lines(a) + joined_lines(b));
    }
}

proof fn lemma_joined_push(lines: Seq<Seq<char>>, line: Seq<char>)
    ensures
        joined_lines(lines.push(line)) == joined_lines(lines) + line.push('\n'),
{
    assert(lines.push(line) =~= lines + seq![line]);
    lemma_joined_concat(lines, seq![line]);
    assert(joined_lines(seq![line]) =~= line.push('\n')) by {
        reveal_with_fuel(joined_lines, 2);
    }
}

/// Appends the line `<word><n>=<value>`.
fn push_numbered(out: &mut String, word: &str, n: usize, value: &str, Ghost(lines): Ghost<Seq<Seq<char>>>)
    requires
        old(out)@ == joined_lines(lines),
    ensures
        final(out)@ == joined_lines(lines.push(key_line(word@ + decimal(n as nat), value@))),
{
    out.append(word);
    let digits = decimal_chars(n as u64);
    push_chars(out, &digits);
    out.append("=");
    out.append(value);
    out.push('\n');
    proof {
        let line = key_line(word@ + decimal(n as nat), value@);
        lemma_joined_push(lines, line);
        assert(out@ =~= joined_lines(lines) + line.push('\n'));
    }
}

fn push_playlist(out: &mut String, playlist: &Playlist, Ghost(lines): Ghost<Seq<Seq<char>>>)
    requires
        old(out)@ == joined_lines(lines),
    ensures
        final(out)@ == joined_lines(lines + playlist_lines(playlist@)),
{
    let ghost header = header_line(playlist@.name);
    let ghost count = key_line("NumberOfEntries"@, decimal(playlist@.entries.len()));
    out.append("[");
    out.append(playlist.name.as_str());
    out.append("]");
    out.push('\n');
    proof {
        lemma_joined_push(lines, header);
        assert(out@ =~= joined_lines(lines) + header.push('\n'));
    }
    out.append("NumberOfEntries");
    out.append("=");
    let digits = decimal_chars(playlist.entries.len() as u64);
    push_chars(out, &digits);
    out.push('\n');
    let ghost head = lines.push(header).push(count);
    proof {
        lemma_joined_push(lines.push(header), count);
        assert(out@ =~= joined_lines(lines.push(header)) + count.push('\n'));
    }
    let ghost all = playlist@.entries;
    let mut i: usize = 0;
    assert(head + entries_lines(all.take(0)) =~= head);
    while i < playlist.entries.len()
        invariant
            i <= playlist.entries@.len(),
            all == playlist@.entries,
            out@ == joined_lines(head + entries_lines(all.take(i as int))),
        decreases playlist.entries@.len() - i,
    {
        let ghost before = head + entries_lines(all.take(i as int));
        let path = &playlist.entries[i];
        assert(path@ == all[i as int]);
        assert(all.take(i as int + 1).drop_last() =~= all.take(i as int));
        let n: usize = i + 1;
        let shown = path.display();
        push_numbered(out, "File", n, shown.as_str(), Ghost(before));
        let ghost one = before.push(key_line(file_key(n as nat), shown@));
        let title = song_title(path);
        push_numbered(out, "Title", n, title.as_str(), Ghost(one));
        let ghost two = one.push(key_line(title_key(n as nat), title@));
        push_numbered(out, "Length", n, "-1", Ghost(two));
        assert(two.push(key_line(length_key(n as nat), "-1"@)) =~= before + entry_lines(
            n as nat,
            path@,
        ));
        i = n;
        assert(before + entry_lines(n as nat, path@) =~= head + entries_lines(
            all.take(i as int),
        ));
    }
    assert(all.take(all.len() as int) =~= all);
    let ghost body = head + entries_lines(all);
    out.push('\n');
    proof {
        lemma_joined_push(body, Seq::empty());
        assert(out@ =~= joined_lines(body) + Seq::<char>::empty().push('\n'));
        assert(body.push(Seq::empty()) =~= lines + playlist_lines(playlist@));
    }
}

/// The playlist file of a store. The active tab and the current song are not
/// in it.
pub fn pls_encode(store: &Playlists) -> (r: String)
    ensures
        r@ == pls_text(store@.playlists),
{
    let ghost all = store@.playlists;
    let mut out = String::new();
    let mut i: usize = 0;
    while i < store.playlists.len()
        invariant
            i <= store.playlists@.len(),
            all == store@.playlists,
            out@ == joined_lines(store_lines(all.take(i as int))),
        decreases store.playlists@.len() - i,
    {
        let ghost before = store_lines(all.take(i as int));
        push_playlist(&mut out, &store.playlists[i], Ghost(before));
        assert(all[i as int] == store.playlists@[i as int]@);
        i = i + 1;
        assert(all.take(i as int).drop_last() =~= all.take(i - 1));
    }
    assert(all.take(all.len() as int) =~= all);
    out
}

// What is read.

/// A section: its name and its keys with their values.
#[verifier::ext_equal]
pub struct SectionModel {
    pub name: Seq<char>,
    pub keys: Seq<(Seq<char>, Seq<char>)>,
}

/// The sections after one more line; `None` where a line is neither a
/// section header nor a key with a value in a section. Blank lines and
/// comments do not count.
pub open spec fn with_line(
    sections: Option<Seq<SectionModel>>,
    raw: Seq<char>,
) -> Option<Seq<SectionModel>> {
    let line = trimmed(raw);
    let equals = find_from(line, '=', 0);
    match sections {
        None => None,
        Some(found) => if line.len() == 0 || line[0] == ';' || line[0] == '#' {
            Some(found)
        } else if line[0] == '[' && line.last() == ']' {
            Some(
                found.push(
                    SectionModel {
                        name: trimmed(line.subrange(1, line.len() - 1)),
                        keys: Seq::empty(),
                    },
                ),
            )
        } else if equals < line.len() && found.len() > 0 {
            let key = trimmed(line.take(equals));
            let value = line.skip(equals + 1);
            Some(
                found.drop_last().push(
                    SectionModel {
                        name: found.last().name,
                        keys: found.last().keys.push((key, value)),
                    },
                ),
            )
        } else {
            None
        },
    }
}

pub open spec fn with_lines(
    sections: Option<Seq<SectionModel>>,
    lines: Seq<Seq<char>>,
) -> Option<Seq<SectionModel>>
    decreases lines.len(),
{
    if lines.len() == 0 {
        sections
    } else {
        with_line(with_lines(sections, lines.drop_last()), lines.last())
    }
}

/// The sections of a text.
pub open spec fn sections_of(text: Seq<char>) -> Option<Seq<SectionModel>> {
    with_lines(Some(Seq::empty()), split_on(text, '\n'))
}

/// The value of the first key `NumberOfEntries`, in upper or lower case, as
/// a number.
pub open spec fn entry_count(keys: Seq<(Seq<char>, Seq<char>)>, from: int) -> Option<nat>
    decreases keys.len() - from,
{
    if from < 0 || from >= keys.len() {
        None
    } else if same_ignoring_case(keys[from].0, "NumberOfEntries"@) {
        parse_number(trimmed(keys[from].1), usize::MAX as nat)
    } else {
        entry_count(keys, from + 1)
    }
}

/// The value of the first key that is `key`.
pub open spec fn first_value(
    keys: Seq<(Seq<char>, Seq<char>)>,
    key: Seq<char>,
    from: int,
) -> Option<Seq<char>>
    decreases keys.len() - from,
{
    if from < 0 || from >= keys.len() {
        None
    } else if keys[from].0 == key {
        Some(keys[from].1)
    } else {
        first_value(keys, key, from + 1)
    }
}

/// The songs with the numbers 1 to `count`; `None` where one is missing.
pub open spec fn listed_entries(keys: Seq<(Seq<char>, Seq<char>)>, count: nat) -> Option<
    Seq<Seq<u8>>,
>
    decreases count,
{
    if count == 0 {
        Some(Seq::empty())
    } else {
        match (
            listed_entries(keys, (count - 1) as nat),
            first_value(keys, file_key(count), 0),
        ) {
            (Some(before), Some(value)) => Some(before.push(encode_utf8(trimmed(value)))),
            _ => None,
        }
    }
}

pub open spec fn section_playlist(section: SectionModel) -> Option<PlaylistModel> {
    match entry_count(section.keys, 0) {
        Some(count) => match listed_entries(section.keys, count) {
            Some(entries) => Some(PlaylistModel { name: section.name, entries }),
            None => None,
        },
        None => None,
    }
}

/// The playlists of the sections. A section named `player` is not one.
pub open spec fn section_playlists(sections: Seq<SectionModel>) -> Option<Seq<PlaylistModel>>
    decreases sections.len(),
{
    if sections.len() == 0 {
        Some(Seq::empty())
    } else {
        let before = section_playlists(sections.drop_last());
        if same_ignoring_case(sections.last().name, "player"@) {
            before
        } else {
            match (before, section_playlist(sections.last())) {
                (Some(playlists), Some(playlist)) => Some(playlists.push(playlist)),
                _ => None,
            }
        }
    }
}

/// A classic playlist file has one section, named `playlist`: the name of the
/// format, not of a tab.
pub open spec fn is_classic(sections: Seq<SectionModel>) -> bool {
    sections.len() == 1 && sections[0].name == "playlist"@
}

/// The playlists without their names.
pub open spec fn unnamed(playlists: Seq<PlaylistModel>) -> Seq<PlaylistModel> {
    playlists.map_values(|p: PlaylistModel| PlaylistModel { name: Seq::empty(), ..p })
}

/// The playlists of the sections. That of a classic file has no name.
pub open spec fn named_playlists(sections: Seq<SectionModel>) -> Option<Seq<PlaylistModel>> {
    match section_playlists(sections) {
        Some(playlists) => Some(
            if is_classic(sections) {
                unnamed(playlists)
            } else {
                playlists
            },
        ),
        None => None,
    }
}

/// The store that a playlist file holds: its playlists, with the first tab
/// active and no current song; `None` where the text is not such a file, or
/// holds no playlist.
pub open spec fn decoded_store(text: Seq<char>) -> Option<StoreModel> {
    match sections_of(text) {
        Some(sections) => match named_playlists(sections) {
            Some(playlists) => if playlists.len() > 0 {
                Some(StoreModel { playlists, active_tab: 0, current_tab: 0, current: None })
            } else {
                None
            },
            None => None,
        },
        None => None,
    }
}

struct Section {
    name: Vec<char>,
    keys: Vec<(Vec<char>, Vec<char>)>,
}

spec fn keys_of(keys: Seq<(Vec<char>, Vec<char>)>) -> Seq<(Seq<char>, Seq<char>)> {
    keys.map_values(|k: (Vec<char>, Vec<char>)| (k.0@, k.1@))
}

impl View for Section {
    type V = SectionModel;

    closed spec fn view(&self) -> SectionModel {
        SectionModel { name: self.name@, keys: keys_of(self.keys@) }
    }
}

spec fn sections_view(sections: Seq<Section>) -> Seq<SectionModel> {
    sections.map_values(|s: Section| s@)
}

/// Takes one more line into the sections. Returns false where it does not
/// fit.
fn take_line(sections: &mut Vec<Section>, raw: &Vec<char>) -> (r: bool)
    ensures
        match with_line(Some(sections_view(old(sections)@)), raw@) {
            Some(found) => r && sections_view(final(sections)@) == found,
            None => !r,
        },
{
    let ghost found = sections_view(sections@);
    let line = strip_chars(raw, CharClass::Space);
    if line.len() == 0 || line[0] == ';' || line[0] == '#' {
        return true;
    }
    if line[0] == '[' && line[line.len() - 1] == ']' {
        let inner = sub_chars(&line, 1, line.len() - 1);
        let section = Section { name: strip_chars(&inner, CharClass::Space), keys: Vec::new() };
        assert(section@ =~= SectionModel {
            name: trimmed(line@.subrange(1, line@.len() - 1)),
            keys: Seq::empty(),
        });
        sections.push(section);
        assert(sections_view(sections@) =~= found.push(section@));
        return true;
    }
    let equals = find_char(&line, '=', 0);
    if equals >= line.len() || sections.len() == 0 {
        return false;
    }
    let name = sub_chars(&line, 0, equals);
    assert(name@ =~= line@.take(equals as int));
    let key = strip_chars(&name, CharClass::Space);
    let value = sub_chars(&line, equals + 1, line.len());
    assert(value@ =~= line@.skip(equals as int + 1));
    let last: usize = sections.len() - 1;
    let ghost before = sections@[last as int];
    sections[last].keys.push((key, value));
    proof {
        let after = sections@[last as int];
        assert(found[last as int] == before@);
        assert(after@ =~= SectionModel {
            name: before@.name,
            keys: before@.keys.push((key@, value@)),
        });
        assert(sections_view(sections@) =~= found.drop_last().push(after@));
    }
    true
}

fn read_sections(text: &str) -> (r: Option<Vec<Section>>)
    ensures
        match r {
            Some(sections) => sections_of(text@) == Some(sections_view(sections@)),
            None => sections_of(text@) is None,
        },
{
    let cs = chars_of(text);
    let lines = split_chars(&cs, '\n');
    let ghost all = pieces_view(lines@);
    let mut sections: Vec<Section> = Vec::new();
    let mut i: usize = 0;
    assert(sections_view(sections@) =~= Seq::empty());
    while i < lines.len()
        invariant
            i <= lines@.len(),
            all == pieces_view(lines@),
            all == split_on(text@, '\n'),
            with_lines(Some(Seq::empty()), all.take(i as int)) == Some(sections_view(sections@)),
        decreases lines@.len() - i,
    {
        assert(all.take(i as int + 1).drop_last() =~= all.take(i as int));
        assert(all.take(i as int + 1).last() == lines@[i as int]@);
        if !take_line(&mut sections, &lines[i]) {
            proof {
                lemma_none_stays(all, i as int + 1);
            }
            return None;
        }
        i = i + 1;
    }
    assert(all.take(all.len() as int) =~= all);
    Some(sections)
}

proof fn lemma_none_stays(lines: Seq<Seq<char>>, k: int)
    requires
        0 <= k <= lines.len(),
        with_lines(Some(Seq::empty()), lines.take(k)) is None,
    ensures
        with_lines(Some(Seq::empty()), lines) is None,
    decreases lines.len() - k,
{
    if k < lines.len() {
        assert(lines.take(k + 1).drop_last() =~= lines.take(k));
        lemma_none_stays(lines, k + 1);
    } else {
        assert(lines.take(k) =~= lines);
    }
}

fn read_count(keys: &Vec<(Vec<char>, Vec<char>)>) -> (r: Option<usize>)
    ensures
        match r {
            Some(count) => entry_count(keys_of(keys@), 0) == Some(count as nat),
            None => entry_count(keys_of(keys@), 0) is None,
        },
{
    let ghost all = keys_of(keys@);
    let mut i: usize = 0;
    while i < keys.len()
        invariant
            i <= keys@.len(),
            all == keys_of(keys@),
            entry_count(all, 0) == entry_count(all, i as int),
        decreases keys@.len() - i,
    {
        assert(all[i as int] == (keys@[i as int].0@, keys@[i as int].1@));
        if eq_ignore_case(&keys[i].0, "NumberOfEntries") {
            let bare = strip_chars(&keys[i].1, CharClass::Space);
            return match parse_chars(&bare, usize::MAX as u64) {
                Some(count) => Some(count as usize),
                None => None,
            };
        }
        i = i + 1;
    }
    None
}

fn read_value(keys: &Vec<(Vec<char>, Vec<char>)>, key: &Vec<char>) -> (r: Option<usize>)
    ensures
        match r {
            Some(at) => at < keys@.len() && first_value(keys_of(keys@), key@, 0) == Some(
                keys@[at as int].1@,
            ),
            None => first_value(keys_of(keys@), key@, 0) is None,
        },
{
    let ghost all = keys_of(keys@);
    let mut i: usize = 0;
    while i < keys.len()
        invariant
            i <= keys@.len(),
            all == keys_of(keys@),
            first_value(all, key@, 0) == first_value(all, key@, i as int),
        decreases keys@.len() - i,
    {
        assert(all[i as int] == (keys@[i as int].0@, keys@[i as int].1@));
        if same_chars(&keys[i].0, key) {
            return Some(i);
        }
        i = i + 1;
    }
    None
}

proof fn lemma_missing_entry(keys: Seq<(Seq<char>, Seq<char>)>, n: nat, count: nat)
    requires
        n <= count,
        listed_entries(keys, n) is None,
    ensures
        listed_entries(keys, count) is None,
    decreases count - n,
{
    if n < count {
        lemma_missing_entry(keys, n + 1, count);
    }
}

fn read_playlist(section: &Section) -> (r: Option<Playlist>)
    ensures
        match r {
            Some(playlist) => section_playlist(section@) == Some(playlist@),
            None => section_playlist(section@) is None,
        },
{
    let ghost keys = keys_of(section.keys@);
    let count = match read_count(&section.keys) {
        Some(count) => count,
        None => {
            return None;
        },
    };
    let mut entries: Vec<SongPath> = Vec::new();
    let mut n: usize = 0;
    assert(crate::path::paths_view(entries@) =~= Seq::empty());
    while n < count
        invariant
            n <= count,
            keys == keys_of(section.keys@),
            entry_count(keys, 0) == Some(count as nat),
            listed_entries(keys, n as nat) == Some(crate::path::paths_view(entries@)),
        decreases count - n,
    {
        n = n + 1;
        let mut key = chars_of("File");
        let mut digits = decimal_chars(n as u64);
        key.append(&mut digits);
        assert(key@ == file_key(n as nat));
        match read_value(&section.keys, &key) {
            Some(at) => {
                let ghost before = crate::path::paths_view(entries@);
                let bare = strip_chars(&section.keys[at].1, CharClass::Space);
                let text = text_of(&bare);
                let path = SongPath::new(text.as_str());
                entries.push(path);
                assert(crate::path::paths_view(entries@) =~= before.push(path@));
            },
            None => {
                proof {
                    lemma_missing_entry(keys, n as nat, count as nat);
                }
                return None;
            },
        }
    }
    Some(Playlist { name: text_of(&section.name), entries })
}

proof fn lemma_bad_section(sections: Seq<SectionModel>, k: int)
    requires
        0 <= k <= sections.len(),
        section_playlists(sections.take(k)) is None,
    ensures
        section_playlists(sections) is None,
    decreases sections.len() - k,
{
    if k < sections.len() {
        assert(sections.take(k + 1).drop_last() =~= sections.take(k));
        lemma_bad_section(sections, k + 1);
    } else {
        assert(sections.take(k) =~= sections);
    }
}

/// Reads a playlist file. Returns `None` where the text is not one.
pub fn pls_decode(text: &str) -> (r: Option<Playlists>)
    ensures
        match r {
            Some(store) => decoded_store(text@) == Some(store@),
            None => decoded_store(text@) is None,
        },
{
    let sections = match read_sections(text) {
        Some(sections) => sections,
        None => {
            return None;
        },
    };
    let ghost all = sections_view(sections@);
    let mut playlists: Vec<Playlist> = Vec::new();
    let mut i: usize = 0;
    assert(playlists_view(playlists@) =~= Seq::empty());
    while i < sections.len()
        invariant
            i <= sections@.len(),
            all == sections_view(sections@),
            sections_of(text@) == Some(all),
            section_playlists(all.take(i as int)) == Some(playlists_view(playlists@)),
        decreases sections@.len() - i,
    {
        let ghost before = playlists_view(playlists@);
        let section = &sections[i];
        assert(all.take(i as int + 1).drop_last() =~= all.take(i as int));
        assert(all.take(i as int + 1).last() == section@);
        if !eq_ignore_case(&section.name, "player") {
            match read_playlist(section) {
                Some(playlist) => {
                    playlists.push(playlist);
                    assert(playlists_view(playlists@) =~= before.push(playlist@));
                },
                None => {
                    proof {
                        lemma_bad_section(all, i as int + 1);
                    }
                    return None;
                },
            }
        }
        i = i + 1;
    }
    assert(all.take(all.len() as int) =~= all);
    if playlists.len() == 0 {
        return None;
    }
    if sections.len() == 1 && key_is(&sections[0].name, "playlist") {
        let ghost named = playlists_view(playlists@);
        assert(all[0] == sections@[0]@);
        assert(playlists@.len() == 1) by {
            assert(all.drop_last() =~= Seq::empty());
            reveal_with_fuel(section_playlists, 2);
        }
        playlists[0].name = String::new();
        assert(playlists_view(playlists@) =~= unnamed(named));
    }
    Some(Playlists { playlists, active_tab: 0, current_tab: 0, current: None })
}

impl Playlists {
    /// Reads a playlist file.
    pub fn parse(text: &str) -> (r: Option<Playlists>)
        ensures
            match r {
                Some(store) => decoded_store(text@) == Some(store@),
                None => decoded_store(text@) is None,
            },
    {
        pls_decode(text)
    }
}

// Laws of the playlist file.

proof fn lemma_entries_lines_at(entries: Seq<Seq<u8>>, i: int)
    requires
        0 <= i < entries.len(),
    ensures
        entries_lines(entries).len() == 3 * entries.len(),
        entries_lines(entries)[3 * i] == entry_lines((i + 1) as nat, entries[i])[0],
        entries_lines(entries)[3 * i + 1] == entry_lines((i + 1) as nat, entries[i])[1],
        entries_lines(entries)[3 * i + 2] == entry_lines((i + 1) as nat, entries[i])[2],
    decreases entries.len(),
{
    let front = entries.drop_last();
    if front.len() > 0 {
        if i < front.len() {
            lemma_entries_lines_at(front, i);
        } else {
            lemma_entries_lines_at(front, 0);
        }
    } else {
        assert(entries_lines(front).len() == 0);
    }
}

/// The section of a tab: its name in brackets, the number of its songs, three
/// lines for each song in turn (its path, its title and an unknown length,
/// with its number from 1 on), and an empty line.
pub proof fn law_section_of_a_tab(playlist: PlaylistModel, i: int)
    requires
        0 <= i < playlist.entries.len(),
    ensures
        ({
            let lines = playlist_lines(playlist);
            let song = playlist.entries[i];
            let n = decimal((i + 1) as nat);
            &&& lines.len() == 3 * playlist.entries.len() + 3
            &&& lines[0] == "["@ + playlist.name + "]"@
            &&& lines[1] == "NumberOfEntries"@ + "="@ + decimal(playlist.entries.len())
            &&& lines[2 + 3 * i] == "File"@ + n + "="@ + shown_path(song)
            &&& lines[3 + 3 * i] == "Title"@ + n + "="@ + title_of(song)
            &&& lines[4 + 3 * i] == "Length"@ + n + "="@ + "-1"@
            &&& lines.last().len() == 0
        }),
{
    lemma_entries_lines_at(playlist.entries, i);
}

/// The section of a tab without songs.
pub proof fn law_section_of_an_empty_tab(playlist: PlaylistModel)
    requires
        playlist.entries.len() == 0,
    ensures
        playlist_lines(playlist) == seq![
            "["@ + playlist.name + "]"@,
            "NumberOfEntries"@ + "="@ + decimal(0),
            Seq::<char>::empty(),
        ],
{
    assert(entries_lines(playlist.entries) =~= Seq::<Seq<char>>::empty());
    assert(playlist_lines(playlist) =~= seq![
        "["@ + playlist.name + "]"@,
        "NumberOfEntries"@ + "="@ + decimal(0),
        Seq::<char>::empty(),
    ]);
}

/// The playlist file holds the sections of the tabs one after the other, and
/// each line ends with a line feed.
pub proof fn law_file_is_made_of_sections(
    a: Seq<PlaylistModel>,
    b: Seq<PlaylistModel>,
    playlist: PlaylistModel,
    lines: Seq<Seq<char>>,
    line: Seq<char>,
)
    ensures
        pls_text(a + b) == pls_text(a) + pls_text(b),
        pls_text(Seq::empty()) == Seq::<char>::empty(),
        pls_text(seq![playlist]) == joined_lines(playlist_lines(playlist)),
        joined_lines(Seq::empty()) == Seq::<char>::empty(),
        joined_lines(lines.push(line)) == joined_lines(lines) + line + seq!['\n'],
{
    lemma_store_concat(a, b);
    lemma_joined_concat(store_lines(a), store_lines(b));
    let one = seq![playlist];
    assert(one.drop_last() =~= Seq::<PlaylistModel>::empty());
    assert(store_lines(one) =~= playlist_lines(playlist)) by {
        assert(store_lines(one.drop_last()) =~= Seq::<Seq<char>>::empty());
    }
    lemma_joined_push(lines, line);
    assert(joined_lines(lines) + line.push('\n') =~= joined_lines(lines) + line + seq!['\n']);
}

proof fn lemma_store_concat(a: Seq<PlaylistModel>, b: Seq<PlaylistModel>)
    ensures
        store_lines(a + b) == store_lines(a) + store_lines(b),
    decreases b.len(),
{
    if b.len() == 0 {
        assert(a + b =~= a);
        assert(store_lines(a) + store_lines(b) =~= store_lines(a));
    } else {
        assert((a + b).drop_last() =~= a + b.drop_last());
        lemma_store_concat(a, b.drop_last());
        assert(store_lines(a + b) =~= store_lines(a) + store_lines(b));
    }
}

/// Lines are read one after the other. White space around a line does not
/// count. Blank lines and comments, which begin with `;` or `#`, are skipped.
/// A name in brackets begins a section. Another line is a key and its value
/// in the last section, parted by the first `=`. Anything else is no such
/// file.
pub proof fn law_lines_are_read(
    text: Seq<char>,
    lines: Seq<Seq<char>>,
    raw: Seq<char>,
    found: Seq<SectionModel>,
    key: Seq<char>,
    value: Seq<char>,
)
    ensures
        sections_of(text) == with_lines(Some(Seq::empty()), split_on(text, '\n')),
        with_lines(Some(found), Seq::empty()) == Some(found),
        with_lines(Some(found), lines.push(raw)) == with_line(with_lines(Some(found), lines), raw),
        with_line(None, raw) is None,
        ({
            let line = trimmed(raw);
            let skipped = line.len() == 0 || line[0] == ';' || line[0] == '#';
            let header = !skipped && line[0] == '[' && line.last() == ']';
            &&& skipped ==> with_line(Some(found), raw) == Some(found)
            &&& header ==> with_line(Some(found), raw) == Some(
                found.push(
                    SectionModel {
                        name: trimmed(line.subrange(1, line.len() - 1)),
                        keys: Seq::empty(),
                    },
                ),
            )
            &&& !skipped && !header && (found.len() == 0 || !line.contains('=')) ==> with_line(
                Some(found),
                raw,
            ) is None
            &&& !skipped && !header && found.len() > 0 && line == key + "="@ + value
                && !key.contains('=') ==> with_line(Some(found), raw) == Some(
                found.update(
                    found.len() - 1,
                    SectionModel {
                        name: found.last().name,
                        keys: found.last().keys.push((trimmed(key), value)),
                    },
                ),
            )
        }),
{
    assert(lines.push(raw).drop_last() =~= lines);
    let line = trimmed(raw);
    reveal_strlit("=");
    crate::text::lemma_find_from_bounds(line, '=', 0);
    if line == key + "="@ + value && !key.contains('=') {
        let at = key.len() as int;
        assert(line[at] == '=');
        assert forall|i: int| 0 <= i < at implies line[i] != '=' by {
            assert(line[i] == key[i]);
            assert(key.contains(key[i]));
        }
        crate::text::lemma_find_from(line, '=', 0, at);
        assert(line.take(at) =~= key);
        assert(line.skip(at + 1) =~= value);
        if found.len() > 0 {
            let more = SectionModel {
                name: found.last().name,
                keys: found.last().keys.push((trimmed(key), value)),
            };
            assert(found.drop_last().push(more) =~= found.update(found.len() - 1, more));
        }
    }
    if !line.contains('=') {
        if find_from(line, '=', 0) < line.len() {
            assert(line.contains(line[find_from(line, '=', 0)]));
        }
    }
}

/// The key at a place is the first one of its text.
pub open spec fn stands_first(keys: Seq<(Seq<char>, Seq<char>)>, key: Seq<char>, at: int) -> bool {
    &&& 0 <= at < keys.len()
    &&& keys[at].0 == key
    &&& forall|j: int| 0 <= j < at ==> (#[trigger] keys[j]).0 != key
}

proof fn lemma_first_value_at(keys: Seq<(Seq<char>, Seq<char>)>, key: Seq<char>, from: int)
    requires
        0 <= from <= keys.len(),
        forall|j: int| 0 <= j < from ==> (#[trigger] keys[j]).0 != key,
    ensures
        match first_value(keys, key, from) {
            Some(value) => exists|at: int| #[trigger]
                stands_first(keys, key, at) && keys[at].1 == value,
            None => forall|j: int| 0 <= j < keys.len() ==> (#[trigger] keys[j]).0 != key,
        },
    decreases keys.len() - from,
{
    if from < keys.len() {
        if keys[from].0 == key {
            assert(stands_first(keys, key, from));
        } else {
            lemma_first_value_at(keys, key, from + 1);
        }
    }
}

proof fn lemma_entry_count_at(keys: Seq<(Seq<char>, Seq<char>)>, from: int, at: int)
    requires
        0 <= from <= at < keys.len(),
        same_ignoring_case(keys[at].0, "NumberOfEntries"@),
        forall|j: int|
            from <= j < at ==> !same_ignoring_case((#[trigger] keys[j]).0, "NumberOfEntries"@),
    ensures
        entry_count(keys, from) == parse_number(trimmed(keys[at].1), usize::MAX as nat),
    decreases at - from,
{
    if from < at {
        lemma_entry_count_at(keys, from + 1, at);
    }
}

proof fn lemma_no_entry_count(keys: Seq<(Seq<char>, Seq<char>)>, from: int)
    requires
        0 <= from <= keys.len(),
        forall|j: int|
            from <= j < keys.len() ==> !same_ignoring_case(
                (#[trigger] keys[j]).0,
                "NumberOfEntries"@,
            ),
    ensures
        entry_count(keys, from) is None,
    decreases keys.len() - from,
{
    if from < keys.len() {
        lemma_no_entry_count(keys, from + 1);
    }
}

/// The key of the song at a place, counted from 0, names this path.
pub open spec fn names_song(keys: Seq<(Seq<char>, Seq<char>)>, i: int, path: Seq<u8>) -> bool {
    exists|k: int| #[trigger]
        stands_first(keys, "File"@ + decimal((i + 1) as nat), k) && path == encode_utf8(
            trimmed(keys[k].1),
        )
}

/// No key is that of the song at a place.
pub open spec fn lacks_song(keys: Seq<(Seq<char>, Seq<char>)>, i: int) -> bool {
    forall|k: int|
        0 <= k < keys.len() ==> (#[trigger] keys[k]).0 != "File"@ + decimal((i + 1) as nat)
}

proof fn lemma_listed_at(keys: Seq<(Seq<char>, Seq<char>)>, count: nat)
    ensures
        match listed_entries(keys, count) {
            Some(entries) => entries.len() == count && forall|i: int|
                0 <= i < count ==> names_song(keys, i, #[trigger] entries[i]),
            None => exists|i: int| 0 <= i < count && #[trigger] lacks_song(keys, i),
        },
    decreases count,
{
    if count > 0 {
        let less = (count - 1) as nat;
        lemma_listed_at(keys, less);
        let i = count - 1;
        let key = "File"@ + decimal((i + 1) as nat);
        assert(file_key(count) == key);
        lemma_first_value_at(keys, key, 0);
        match listed_entries(keys, less) {
            Some(before) => match first_value(keys, key, 0) {
                Some(value) => {
                    let k = choose|k: int| #[trigger]
                        stands_first(keys, key, k) && keys[k].1 == value;
                    let path = encode_utf8(trimmed(value));
                    assert(stands_first(keys, "File"@ + decimal((i + 1) as nat), k));
                    assert(names_song(keys, i, path));
                    let entries = before.push(path);
                    assert(listed_entries(keys, count) == Some(entries));
                    assert forall|j: int| 0 <= j < count implies names_song(
                        keys,
                        j,
                        #[trigger] entries[j],
                    ) by {
                        if j < less {
                            assert(entries[j] == before[j]);
                        }
                    }
                },
                None => {
                    assert(lacks_song(keys, i));
                },
            },
            None => {},
        }
    }
}

/// The songs of a section are those of its keys `File1`, `File2` and so on up
/// to the number of the first key `NumberOfEntries`, in upper or lower case,
/// wherever they stand in it, without white space around them. A section with
/// no such number or without one of these keys is not a playlist.
pub proof fn law_section_is_read(section: SectionModel, at: int)
    requires
        0 <= at < section.keys.len(),
        same_ignoring_case(section.keys[at].0, "NumberOfEntries"@),
        forall|j: int|
            0 <= j < at ==> !same_ignoring_case(
                (#[trigger] section.keys[j]).0,
                "NumberOfEntries"@,
            ),
    ensures
        match parse_number(trimmed(section.keys[at].1), usize::MAX as nat) {
            None => section_playlist(section) is None,
            Some(count) => match section_playlist(section) {
                Some(playlist) => {
                    &&& playlist.name == section.name
                    &&& playlist.entries.len() == count
                    &&& forall|i: int|
                        0 <= i < count ==> names_song(
                            section.keys,
                            i,
                            #[trigger] playlist.entries[i],
                        )
                },
                None => exists|i: int| 0 <= i < count && #[trigger] lacks_song(section.keys, i),
            },
        },
{
    lemma_entry_count_at(section.keys, 0, at);
    if let Some(count) = parse_number(trimmed(section.keys[at].1), usize::MAX as nat) {
        lemma_listed_at(section.keys, count);
    }
}

/// A section without the number of its songs is not a playlist.
pub proof fn law_section_needs_a_count(section: SectionModel)
    requires
        forall|j: int|
            0 <= j < section.keys.len() ==> !same_ignoring_case(
                (#[trigger] section.keys[j]).0,
                "NumberOfEntries"@,
            ),
    ensures
        section_playlist(section) is None,
{
    lemma_no_entry_count(section.keys, 0);
}

/// The playlists of a file are those of its sections, in their order. One
/// named `player`, in upper or lower case, is skipped, and one that is not a
/// playlist makes the file none. The single section `playlist` of a classic
/// file has no name of its own. The first tab is shown, and no song is
/// current.
pub proof fn law_file_is_read(
    sections: Seq<SectionModel>,
    section: SectionModel,
    text: Seq<char>,
)
    ensures
        section_playlists(Seq::empty()) == Some(Seq::<PlaylistModel>::empty()),
        same_ignoring_case(section.name, "player"@) ==> section_playlists(sections.push(section))
            == section_playlists(sections),
        !same_ignoring_case(section.name, "player"@) ==> section_playlists(sections.push(section))
            == match (section_playlists(sections), section_playlist(section)) {
            (Some(before), Some(playlist)) => Some(before.push(playlist)),
            _ => None,
        },
        sections_of(text) is None ==> decoded_store(text) is None,
        sections_of(text) matches Some(all) ==> match section_playlists(all) {
            None => decoded_store(text) is None,
            Some(playlists) => if playlists.len() == 0 {
                decoded_store(text) is None
            } else {
                decoded_store(text) matches Some(store) && {
                    &&& store.active_tab == 0
                    &&& store.current_tab == 0
                    &&& store.current is None
                    &&& store.playlists.len() == playlists.len()
                    &&& forall|i: int|
                        0 <= i < playlists.len() ==> (#[trigger] store.playlists[i]).entries
                            == playlists[i].entries
                    &&& all.len() == 1 && all[0].name == "playlist"@ ==> store.playlists[0].name
                        == Seq::<char>::empty()
                    &&& !(all.len() == 1 && all[0].name == "playlist"@) ==> store.playlists
                        == playlists
                }
            },
        },
{
    assert(sections.push(section).drop_last() =~= sections);
}

} // verus!
