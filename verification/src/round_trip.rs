//! A playlist file gives back the playlists that it was written from.
use vstd::prelude::*;
use vstd::utf8::*;

use crate::path::{file_name, file_stem, kept_pieces, last_dot, path_parts, shown_path};
use crate::playlist::{PlaylistModel, StoreModel};
use crate::pls::{
    decoded_store, entries_lines, entry_count, entry_lines, file_key, first_value, header_line,
    joined_lines, key_line, length_key, listed_entries, playlist_lines, pls_text, section_playlist,
    section_playlists, store_lines, title_key, with_line, with_lines, SectionModel,
};
use crate::text::{
    decimal, is_digit, is_space, lemma_decimal, lemma_decimal_injective, lemma_find_from,
    lemma_parse_decimal, lemma_split_concat, lemma_split_single, lemma_stripped_fixed,
    same_ignoring_case, skip_back, skip_front, split_on, trimmed, CharClass,
};
use crate::title::title_of;

verus! {

/// A name that a section can have: no white space at its ends, on one line,
/// and not `player` in upper or lower case.
pub open spec fn storable_name(name: Seq<char>) -> bool {
    &&& trimmed(name) == name
    &&& !name.contains('\n')
    &&& !same_ignoring_case(name, "player"@)
}

/// A path that a line can hold: text without white space at its ends, on one
/// line.
pub open spec fn storable_path(path: Seq<u8>) -> bool {
    &&& valid_utf8(path)
    &&& trimmed(decode_utf8(path)) == decode_utf8(path)
    &&& !decode_utf8(path).contains('\n')
}

pub open spec fn storable(playlists: Seq<PlaylistModel>) -> bool {
    forall|i: int|
        0 <= i < playlists.len() ==> {
            let p = #[trigger] playlists[i];
            &&& storable_name(p.name)
            &&& p.entries.len() <= usize::MAX
            &&& forall|k: int| 0 <= k < p.entries.len() ==> storable_path(#[trigger] p.entries[k])
        }
}

/// One playlist whose file would be a classic one, which does not tell its
/// name.
pub open spec fn is_taken_for_classic(playlists: Seq<PlaylistModel>) -> bool {
    playlists.len() == 1 && playlists[0].name == "playlist"@
}

// Lines.

/// Lines without line feeds are what a text of them splits into.
proof fn lemma_split_joined(lines: Seq<Seq<char>>)
    requires
        forall|i: int| 0 <= i < lines.len() ==> !(#[trigger] lines[i]).contains('\n'),
    ensures
        split_on(joined_lines(lines), '\n') == lines.push(Seq::empty()),
    decreases lines.len(),
{
    if lines.len() == 0 {
        assert(split_on(joined_lines(lines), '\n') =~= lines.push(Seq::empty()));
    } else {
        let rest = lines.drop_first();
        assert forall|i: int| 0 <= i < rest.len() implies !(#[trigger] rest[i]).contains('\n') by {
            assert(rest[i] == lines[i + 1]);
        }
        lemma_split_joined(rest);
        lemma_split_concat(lines[0], '\n', joined_lines(rest));
        lemma_split_single(lines[0], '\n');
        assert(seq![lines[0]] + rest.push(Seq::empty()) =~= lines.push(Seq::empty()));
    }
}

proof fn lemma_with_lines_concat(
    sections: Option<Seq<SectionModel>>,
    a: Seq<Seq<char>>,
    b: Seq<Seq<char>>,
)
    ensures
        with_lines(sections, a + b) == with_lines(with_lines(sections, a), b),
    decreases b.len(),
{
    if b.len() == 0 {
        assert(a + b =~= a);
    } else {
        assert((a + b).drop_last() =~= a + b.drop_last());
        lemma_with_lines_concat(sections, a, b.drop_last());
    }
}

proof fn lemma_with_lines_one(sections: Option<Seq<SectionModel>>, line: Seq<char>)
    ensures
        with_lines(sections, seq![line]) == with_line(sections, line),
{
    assert(seq![line].drop_last() =~= Seq::<Seq<char>>::empty());
    reveal_with_fuel(with_lines, 2);
}

/// White space after a text that ends otherwise is all that is trimmed from
/// its end.
proof fn lemma_skip_back_concat(a: Seq<char>, b: Seq<char>)
    requires
        a.len() > 0,
        !is_space(a.last()),
    ensures
        skip_back(a + b, CharClass::Space) == a + skip_back(b, CharClass::Space),
    decreases b.len(),
{
    if b.len() == 0 {
        assert(a + b =~= a);
        assert(a + skip_back(b, CharClass::Space) =~= a);
    } else {
        assert((a + b).last() == b.last());
        if is_space(b.last()) {
            assert((a + b).drop_last() =~= a + b.drop_last());
            lemma_skip_back_concat(a, b.drop_last());
        }
    }
}

/// A word that can stand before `=`: letters and digits only.
spec fn plain_key(key: Seq<char>) -> bool {
    &&& key.len() > 0
    &&& forall|i: int|
        0 <= i < key.len() ==> is_digit(#[trigger] key[i]) || 'a' <= key[i] <= 'z' || 'A' <= key[i]
            <= 'Z'
}

/// A line with a key and a value adds these to the last section.
proof fn lemma_key_line(found: Seq<SectionModel>, key: Seq<char>, value: Seq<char>)
    requires
        found.len() > 0,
        plain_key(key),
    ensures
        with_line(Some(found), key_line(key, value)) == Some(
            found.drop_last().push(
                SectionModel {
                    name: found.last().name,
                    keys: found.last().keys.push((key, skip_back(value, CharClass::Space))),
                },
            ),
        ),
{
    reveal_strlit("=");
    let head = key + "="@;
    let raw = key_line(key, value);
    let tail = skip_back(value, CharClass::Space);
    assert(raw[0] == key[0]);
    assert(skip_front(raw, CharClass::Space) == raw);
    lemma_skip_back_concat(head, value);
    let line = trimmed(raw);
    assert(line == head + tail);
    assert(line[0] == key[0]);
    assert forall|i: int| 0 <= i < key.len() implies line[i] != '=' by {
        assert(line[i] == key[i]);
    }
    assert(line[key.len() as int] == '=');
    lemma_find_from(line, '=', 0, key.len() as int);
    assert(line.take(key.len() as int) =~= key);
    assert(line.skip(key.len() as int + 1) =~= tail);
    assert(!is_space(key[0]) && !is_space(key.last())) by {
        assert(key.last() == key[key.len() - 1]);
    }
    lemma_stripped_fixed(key, CharClass::Space);
}

/// A header opens a section.
proof fn lemma_header_line(found: Seq<SectionModel>, name: Seq<char>)
    requires
        trimmed(name) == name,
    ensures
        with_line(Some(found), header_line(name)) == Some(
            found.push(SectionModel { name, keys: Seq::empty() }),
        ),
{
    reveal_strlit("[");
    reveal_strlit("]");
    let line = header_line(name);
    assert(line[0] == '[');
    assert(line.last() == ']');
    lemma_stripped_fixed(line, CharClass::Space);
    assert(line.subrange(1, line.len() - 1) =~= name);
}

proof fn lemma_blank_line(found: Seq<SectionModel>)
    ensures
        with_line(Some(found), Seq::empty()) == Some(found),
{
    lemma_stripped_fixed(Seq::empty(), CharClass::Space);
}

// Keys.

proof fn lemma_numbered_key_plain(word: Seq<char>, n: nat)
    requires
        plain_key(word),
    ensures
        plain_key(word + decimal(n)),
        (word + decimal(n))[0] == word[0],
{
    lemma_decimal(n);
    let key = word + decimal(n);
    assert forall|i: int| 0 <= i < key.len() implies is_digit(#[trigger] key[i]) || 'a' <= key[i]
        <= 'z' || 'A' <= key[i] <= 'Z' by {
        if i < word.len() {
            assert(key[i] == word[i]);
        } else {
            assert(key[i] == decimal(n)[i - word.len()]);
            assert(is_digit(decimal(n)[i - word.len()]));
        }
    }
}

proof fn lemma_words()
    ensures
        plain_key("File"@) && "File"@[0] == 'F',
        plain_key("Title"@) && "Title"@[0] == 'T',
        plain_key("Length"@) && "Length"@[0] == 'L',
        plain_key("NumberOfEntries"@) && "NumberOfEntries"@[0] == 'N',
{
    reveal_strlit("File");
    reveal_strlit("Title");
    reveal_strlit("Length");
    reveal_strlit("NumberOfEntries");
}

/// The keys of the song with number `n`, as they are read.
spec fn entry_keys(n: nat, path: Seq<u8>) -> Seq<(Seq<char>, Seq<char>)> {
    seq![
        (file_key(n), skip_back(shown_path(path), CharClass::Space)),
        (title_key(n), skip_back(title_of(path), CharClass::Space)),
        (length_key(n), skip_back("-1"@, CharClass::Space)),
    ]
}

spec fn entries_keys(entries: Seq<Seq<u8>>) -> Seq<(Seq<char>, Seq<char>)>
    decreases entries.len(),
{
    if entries.len() == 0 {
        Seq::empty()
    } else {
        entries_keys(entries.drop_last()) + entry_keys(entries.len(), entries.last())
    }
}

spec fn count_key(entries: Seq<Seq<u8>>) -> (Seq<char>, Seq<char>) {
    ("NumberOfEntries"@, skip_back(decimal(entries.len()), CharClass::Space))
}

/// The section of a playlist, as it is read.
spec fn playlist_section(playlist: PlaylistModel) -> SectionModel {
    SectionModel {
        name: playlist.name,
        keys: seq![count_key(playlist.entries)] + entries_keys(playlist.entries),
    }
}

spec fn with_keys(section: SectionModel, keys: Seq<(Seq<char>, Seq<char>)>) -> SectionModel {
    SectionModel { name: section.name, keys: section.keys + keys }
}

proof fn lemma_entry_lines(found: Seq<SectionModel>, n: nat, path: Seq<u8>)
    requires
        found.len() > 0,
    ensures
        with_lines(Some(found), entry_lines(n, path)) == Some(
            found.drop_last().push(with_keys(found.last(), entry_keys(n, path))),
        ),
{
    lemma_words();
    lemma_numbered_key_plain("File"@, n);
    lemma_numbered_key_plain("Title"@, n);
    lemma_numbered_key_plain("Length"@, n);
    let lines = entry_lines(n, path);
    let keys = entry_keys(n, path);
    let one = found.drop_last().push(
        SectionModel { name: found.last().name, keys: found.last().keys.push(keys[0]) },
    );
    let two = one.drop_last().push(
        SectionModel { name: one.last().name, keys: one.last().keys.push(keys[1]) },
    );
    let three = two.drop_last().push(
        SectionModel { name: two.last().name, keys: two.last().keys.push(keys[2]) },
    );
    lemma_key_line(found, file_key(n), shown_path(path));
    lemma_key_line(one, title_key(n), title_of(path));
    lemma_key_line(two, length_key(n), "-1"@);
    assert(lines.drop_last().drop_last().drop_last() =~= Seq::<Seq<char>>::empty());
    assert(lines.drop_last().drop_last().last() == lines[0]);
    assert(lines.drop_last().last() == lines[1]);
    assert(lines.last() == lines[2]);
    reveal_with_fuel(with_lines, 4);
    assert(with_lines(Some(found), lines.drop_last().drop_last()) == Some(one));
    assert(with_lines(Some(found), lines.drop_last()) == Some(two));
    assert(with_lines(Some(found), lines) == Some(three));
    assert(three.last().keys =~= found.last().keys + keys);
    assert(three =~= found.drop_last().push(with_keys(found.last(), keys)));
}

proof fn lemma_entries_lines(found: Seq<SectionModel>, entries: Seq<Seq<u8>>)
    requires
        found.len() > 0,
    ensures
        with_lines(Some(found), entries_lines(entries)) == Some(
            found.drop_last().push(with_keys(found.last(), entries_keys(entries))),
        ),
    decreases entries.len(),
{
    if entries.len() == 0 {
        assert(found.last().keys + entries_keys(entries) =~= found.last().keys);
        assert(found.drop_last().push(with_keys(found.last(), entries_keys(entries))) =~= found);
    } else {
        let front = entries.drop_last();
        lemma_entries_lines(found, front);
        let before = found.drop_last().push(with_keys(found.last(), entries_keys(front)));
        lemma_with_lines_concat(
            Some(found),
            entries_lines(front),
            entry_lines(entries.len(), entries.last()),
        );
        lemma_entry_lines(before, entries.len(), entries.last());
        assert(before.drop_last() =~= found.drop_last());
        assert(with_keys(before.last(), entry_keys(entries.len(), entries.last())).keys =~= found.last().keys + entries_keys(entries));
    }
}

/// The lines of a playlist are read as its section.
proof fn lemma_playlist_lines(found: Seq<SectionModel>, playlist: PlaylistModel)
    requires
        trimmed(playlist.name) == playlist.name,
    ensures
        with_lines(Some(found), playlist_lines(playlist)) == Some(
            found.push(playlist_section(playlist)),
        ),
{
    lemma_words();
    let header = header_line(playlist.name);
    let count = key_line("NumberOfEntries"@, decimal(playlist.entries.len()));
    let head = seq![header, count];
    let body = entries_lines(playlist.entries);
    let blank = seq![Seq::<char>::empty()];
    let opened = found.push(SectionModel { name: playlist.name, keys: Seq::empty() });
    lemma_header_line(found, playlist.name);
    lemma_key_line(opened, "NumberOfEntries"@, decimal(playlist.entries.len()));
    let counted = found.push(
        SectionModel { name: playlist.name, keys: seq![count_key(playlist.entries)] },
    );
    assert(opened.drop_last() =~= found);
    assert(opened.last().keys.push(count_key(playlist.entries)) =~= seq![count_key(
        playlist.entries,
    )]);
    assert(with_lines(Some(found), head) == Some(counted)) by {
        assert(head =~= seq![header] + seq![count]);
        lemma_with_lines_concat(Some(found), seq![header], seq![count]);
        lemma_with_lines_one(Some(found), header);
        lemma_with_lines_one(Some(opened), count);
    }
    lemma_entries_lines(counted, playlist.entries);
    let filled = found.push(playlist_section(playlist));
    assert(counted.drop_last() =~= found);
    assert(with_lines(Some(counted), body) == Some(filled));
    lemma_blank_line(filled);
    lemma_with_lines_one(Some(filled), Seq::empty());
    lemma_with_lines_concat(Some(found), head, body);
    lemma_with_lines_concat(Some(found), head + body, blank);
    assert(playlist_lines(playlist) =~= head + body + blank);
}

spec fn playlist_sections(playlists: Seq<PlaylistModel>) -> Seq<SectionModel> {
    playlists.map_values(|p: PlaylistModel| playlist_section(p))
}

proof fn lemma_store_lines(playlists: Seq<PlaylistModel>)
    requires
        storable(playlists),
    ensures
        with_lines(Some(Seq::empty()), store_lines(playlists)) == Some(
            playlist_sections(playlists),
        ),
    decreases playlists.len(),
{
    if playlists.len() == 0 {
        assert(playlist_sections(playlists) =~= Seq::empty());
    } else {
        let front = playlists.drop_last();
        assert(storable(front)) by {
            assert forall|i: int| 0 <= i < front.len() implies {
                let p = #[trigger] front[i];
                &&& storable_name(p.name)
                &&& p.entries.len() <= usize::MAX
                &&& forall|k: int|
                    0 <= k < p.entries.len() ==> storable_path(#[trigger] p.entries[k])
            } by {
                assert(front[i] == playlists[i]);
            }
        }
        lemma_store_lines(front);
        let last = playlists[playlists.len() - 1];
        assert(storable_name(last.name));
        lemma_with_lines_concat(
            Some(Seq::empty()),
            store_lines(front),
            playlist_lines(playlists.last()),
        );
        lemma_playlist_lines(playlist_sections(front), playlists.last());
        assert(playlist_sections(front).push(playlist_section(playlists.last()))
            =~= playlist_sections(playlists));
    }
}

// No line feeds.

proof fn lemma_newline_code(c: char)
    ensures
        (c as u32 == 10) == (c == '\n'),
{
}

proof fn lemma_newline_encoded(chars: Seq<char>)
    ensures
        chars.contains('\n') == encode_utf8(chars).contains(10u8),
    decreases chars.len(),
{
    if chars.len() > 0 {
        let c = chars[0] as u32;
        let rest = chars.drop_first();
        lemma_newline_encoded(rest);
        lemma_newline_code(chars[0]);
        let head = encode_scalar(c);
        let tail = encode_utf8(rest);
        let whole = encode_utf8(chars);
        assert(whole == head + tail);
        assert(head.contains(10u8) == (c == 10)) by {
            lemma_newline_scalar(c);
        }
        if chars.contains('\n') {
            let i = choose|i: int| 0 <= i < chars.len() && chars[i] == '\n';
            if i == 0 {
                let k = choose|k: int| 0 <= k < head.len() && head[k] == 10u8;
                assert(whole[k] == 10u8);
            } else {
                assert(rest[i - 1] == '\n');
                assert(tail.contains(10u8));
                let k = choose|k: int| 0 <= k < tail.len() && tail[k] == 10u8;
                assert(whole[head.len() + k] == 10u8);
            }
        }
        if whole.contains(10u8) {
            let k = choose|k: int| 0 <= k < whole.len() && whole[k] == 10u8;
            if k < head.len() {
                assert(head[k] == 10u8);
                assert(chars[0] == '\n');
            } else {
                assert(tail[k - head.len()] == 10u8);
                assert(rest.contains('\n'));
                let i = choose|i: int| 0 <= i < rest.len() && rest[i] == '\n';
                assert(chars[i + 1] == '\n');
            }
        }
    }
}

proof fn lemma_newline_scalar(c: u32)
    ensures
        encode_scalar(c).contains(10u8) == (c == 10),
{
    let s = encode_scalar(c);
    if has_width_1_encoding(c) {
        assert(c <= 0x7F ==> ((c & 0x7F) as u8 == 10u8) == (c == 10)) by (bit_vector);
        assert(s[0] == leading_byte_width_1(c));
    } else {
        let a = leading_byte_width_2(c);
        let b = leading_byte_width_3(c);
        let d = leading_byte_width_4(c);
        let e = last_continuation_byte(c);
        let f = second_last_continuation_byte(c);
        let g = third_last_continuation_byte(c);
        assert(0xC0 | ((c >> 6) & 0x1F) as u8 != 10u8) by (bit_vector);
        assert(0xE0 | ((c >> 12) & 0x0F) as u8 != 10u8) by (bit_vector);
        assert(0xF0 | ((c >> 18) & 0x7) as u8 != 10u8) by (bit_vector);
        assert(0x80 | (c & 0x3F) as u8 != 10u8) by (bit_vector);
        assert(0x80 | ((c >> 6) & 0x3F) as u8 != 10u8) by (bit_vector);
        assert(0x80 | ((c >> 12) & 0x3F) as u8 != 10u8) by (bit_vector);
        assert(a != 10 && b != 10 && d != 10 && e != 10 && f != 10 && g != 10);
    }
}

proof fn lemma_pieces_within<T>(s: Seq<T>, sep: T, k: int, x: T)
    requires
        0 <= k < split_on(s, sep).len(),
        split_on(s, sep)[k].contains(x),
    ensures
        s.contains(x),
    decreases s.len(),
{
    crate::text::lemma_split_len(s, sep);
    if s.len() > 0 {
        let front = s.drop_last();
        let before = split_on(front, sep);
        crate::text::lemma_split_len(front, sep);
        let piece = split_on(s, sep)[k];
        if s.last() != sep && k == before.len() - 1 {
            let i = choose|i: int| 0 <= i < piece.len() && piece[i] == x;
            if i == piece.len() - 1 {
                assert(s[s.len() - 1] == x);
            } else {
                assert(before[k][i] == x);
                lemma_pieces_within(front, sep, k, x);
                let j = choose|j: int| 0 <= j < front.len() && front[j] == x;
                assert(s[j] == x);
            }
        } else if k < before.len() {
            lemma_pieces_within(front, sep, k, x);
            let j = choose|j: int| 0 <= j < front.len() && front[j] == x;
            assert(s[j] == x);
        }
    }
}

proof fn lemma_kept_within(pieces: Seq<Seq<u8>>, k: int)
    requires
        0 <= k < kept_pieces(pieces).len(),
    ensures
        pieces.contains(kept_pieces(pieces)[k]),
    decreases pieces.len(),
{
    if pieces.len() > 0 {
        let front = pieces.drop_last();
        let before = kept_pieces(front);
        if k < before.len() {
            lemma_kept_within(front, k);
            let i = choose|i: int| 0 <= i < front.len() && front[i] == before[k];
            assert(pieces[i] == before[k]);
        } else {
            assert(pieces[pieces.len() - 1] == pieces.last());
        }
    }
}

/// The title that a path gives has no line feed where the path has none.
proof fn lemma_title_without_newline(path: Seq<u8>)
    requires
        !path.contains(10u8),
    ensures
        !title_of(path).contains('\n'),
{
    reveal_strlit("Unknown");
    match file_stem(path) {
        Some(stem) => {
            let name = file_name(path)->0;
            let parts = path_parts(path);
            let pieces = split_on(path, 47u8);
            let kept = kept_pieces(pieces);
            let root: Seq<Seq<u8>> = if path.len() > 0 && path[0] == 47 {
                seq![seq![47u8]]
            } else {
                Seq::empty()
            };
            assert(!name.contains(10u8)) by {
                if name.contains(10u8) {
                    let last = parts.len() - 1;
                    if last < root.len() {
                        assert(name == seq![47u8]);
                    } else {
                        lemma_kept_within(pieces, last - root.len());
                        let k = choose|k: int| 0 <= k < pieces.len() && pieces[k] == name;
                        lemma_pieces_within(path, 47u8, k, 10u8);
                    }
                }
            }
            assert(!stem.contains(10u8)) by {
                if stem.contains(10u8) {
                    let i = choose|i: int| 0 <= i < stem.len() && stem[i] == 10u8;
                    lemma_last_dot(name);
                    assert(name[i] == 10u8);
                }
            }
            if valid_utf8(stem) {
                lemma_newline_encoded(decode_utf8(stem));
                decode_utf8_encode_utf8(stem);
            }
        },
        None => {},
    }
}

proof fn lemma_last_dot(name: Seq<u8>)
    ensures
        -1 <= last_dot(name) < name.len(),
    decreases name.len(),
{
    if name.len() > 0 {
        lemma_last_dot(name.drop_last());
    }
}

proof fn lemma_concat_without<T>(a: Seq<T>, b: Seq<T>, x: T)
    requires
        !a.contains(x),
        !b.contains(x),
    ensures
        !(a + b).contains(x),
{
    if (a + b).contains(x) {
        let i = choose|i: int| 0 <= i < (a + b).len() && (a + b)[i] == x;
        if i < a.len() {
            assert(a[i] == x);
        } else {
            assert(b[i - a.len()] == x);
        }
    }
}

proof fn lemma_plain_without_newline(key: Seq<char>)
    requires
        plain_key(key),
    ensures
        !key.contains('\n'),
{
    if key.contains('\n') {
        let i = choose|i: int| 0 <= i < key.len() && key[i] == '\n';
        assert(is_digit(key[i]) || 'a' <= key[i] <= 'z' || 'A' <= key[i] <= 'Z');
    }
}

proof fn lemma_key_line_without_newline(key: Seq<char>, value: Seq<char>)
    requires
        plain_key(key),
        !value.contains('\n'),
    ensures
        !key_line(key, value).contains('\n'),
{
    reveal_strlit("=");
    lemma_plain_without_newline(key);
    lemma_concat_without(key, "="@, '\n');
    lemma_concat_without(key + "="@, value, '\n');
}

spec fn lines_clean(lines: Seq<Seq<char>>) -> bool {
    forall|i: int| 0 <= i < lines.len() ==> !(#[trigger] lines[i]).contains('\n')
}

proof fn lemma_lines_clean_concat(a: Seq<Seq<char>>, b: Seq<Seq<char>>)
    requires
        lines_clean(a),
        lines_clean(b),
    ensures
        lines_clean(a + b),
{
    assert forall|i: int| 0 <= i < (a + b).len() implies !(#[trigger] (a + b)[i]).contains(
        '\n',
    ) by {
        if i < a.len() {
            assert((a + b)[i] == a[i]);
        } else {
            assert((a + b)[i] == b[i - a.len()]);
        }
    }
}

proof fn lemma_storable_path(path: Seq<u8>)
    requires
        storable_path(path),
    ensures
        !shown_path(path).contains('\n'),
        !title_of(path).contains('\n'),
{
    lemma_newline_encoded(decode_utf8(path));
    decode_utf8_encode_utf8(path);
    lemma_title_without_newline(path);
}

proof fn lemma_entries_lines_clean(entries: Seq<Seq<u8>>)
    requires
        forall|k: int| 0 <= k < entries.len() ==> storable_path(#[trigger] entries[k]),
    ensures
        lines_clean(entries_lines(entries)),
    decreases entries.len(),
{
    if entries.len() > 0 {
        let front = entries.drop_last();
        assert forall|k: int| 0 <= k < front.len() implies storable_path(
            #[trigger] front[k],
        ) by {
            assert(front[k] == entries[k]);
        }
        lemma_entries_lines_clean(front);
        let n = entries.len();
        let path = entries[n - 1];
        lemma_storable_path(path);
        lemma_words();
        lemma_numbered_key_plain("File"@, n);
        lemma_numbered_key_plain("Title"@, n);
        lemma_numbered_key_plain("Length"@, n);
        reveal_strlit("-1");
        lemma_key_line_without_newline(file_key(n), shown_path(path));
        lemma_key_line_without_newline(title_key(n), title_of(path));
        lemma_key_line_without_newline(length_key(n), "-1"@);
        assert(lines_clean(entry_lines(n, path)));
        lemma_lines_clean_concat(entries_lines(front), entry_lines(n, path));
    }
}

proof fn lemma_playlist_lines_clean(playlist: PlaylistModel)
    requires
        storable_name(playlist.name),
        forall|k: int|
            0 <= k < playlist.entries.len() ==> storable_path(#[trigger] playlist.entries[k]),
    ensures
        lines_clean(playlist_lines(playlist)),
{
    reveal_strlit("[");
    reveal_strlit("]");
    lemma_words();
    let name = playlist.name;
    lemma_concat_without("["@, name, '\n');
    lemma_concat_without("["@ + name, "]"@, '\n');
    let digits = decimal(playlist.entries.len());
    lemma_decimal(playlist.entries.len());
    assert(!digits.contains('\n')) by {
        if digits.contains('\n') {
            let i = choose|i: int| 0 <= i < digits.len() && digits[i] == '\n';
            assert(is_digit(digits[i]));
        }
    }
    lemma_key_line_without_newline("NumberOfEntries"@, digits);
    lemma_entries_lines_clean(playlist.entries);
    let head = seq![header_line(name), key_line("NumberOfEntries"@, digits)];
    let blank = seq![Seq::<char>::empty()];
    assert(lines_clean(head));
    assert(lines_clean(blank));
    lemma_lines_clean_concat(head, entries_lines(playlist.entries));
    lemma_lines_clean_concat(head + entries_lines(playlist.entries), blank);
}

proof fn lemma_store_lines_clean(playlists: Seq<PlaylistModel>)
    requires
        storable(playlists),
    ensures
        lines_clean(store_lines(playlists)),
    decreases playlists.len(),
{
    if playlists.len() > 0 {
        let front = playlists.drop_last();
        assert forall|i: int| 0 <= i < front.len() implies {
            let p = #[trigger] front[i];
            &&& storable_name(p.name)
            &&& p.entries.len() <= usize::MAX
            &&& forall|k: int| 0 <= k < p.entries.len() ==> storable_path(#[trigger] p.entries[k])
        } by {
            assert(front[i] == playlists[i]);
        }
        lemma_store_lines_clean(front);
        let last = playlists[playlists.len() - 1];
        assert(storable_name(last.name));
        lemma_playlist_lines_clean(last);
        lemma_lines_clean_concat(store_lines(front), playlist_lines(last));
    }
}

// Reading a section back.

proof fn lemma_first_value(
    keys: Seq<(Seq<char>, Seq<char>)>,
    key: Seq<char>,
    from: int,
    at: int,
)
    requires
        0 <= from <= at < keys.len(),
        keys[at].0 == key,
        forall|j: int| from <= j < at ==> (#[trigger] keys[j]).0 != key,
    ensures
        first_value(keys, key, from) == Some(keys[at].1),
    decreases at - from,
{
    if from < at {
        assert(keys[from].0 != key);
        lemma_first_value(keys, key, from + 1, at);
    }
}

/// Where the keys of the songs stand.
proof fn lemma_entries_keys(entries: Seq<Seq<u8>>)
    ensures
        entries_keys(entries).len() == 3 * entries.len(),
        forall|i: int|
            0 <= i < entries.len() ==> {
                &&& #[trigger] entries_keys(entries)[3 * i] == entry_keys(
                    (i + 1) as nat,
                    entries[i],
                )[0]
                &&& entries_keys(entries)[3 * i + 1] == entry_keys((i + 1) as nat, entries[i])[1]
                &&& entries_keys(entries)[3 * i + 2] == entry_keys((i + 1) as nat, entries[i])[2]
            },
    decreases entries.len(),
{
    if entries.len() > 0 {
        let front = entries.drop_last();
        lemma_entries_keys(front);
        let keys = entries_keys(entries);
        let before = entries_keys(front);
        assert(keys == before + entry_keys(entries.len(), entries.last()));
        assert forall|i: int| 0 <= i < entries.len() implies {
            &&& #[trigger] keys[3 * i] == entry_keys((i + 1) as nat, entries[i])[0]
            &&& keys[3 * i + 1] == entry_keys((i + 1) as nat, entries[i])[1]
            &&& keys[3 * i + 2] == entry_keys((i + 1) as nat, entries[i])[2]
        } by {
            if i < front.len() {
                assert(front[i] == entries[i]);
                assert(before[3 * i] == entry_keys((i + 1) as nat, front[i])[0]);
            } else {
                assert(i == front.len());
            }
        }
    }
}

/// The key of a song is not that of another one, nor one of another kind.
proof fn lemma_key_before(entries: Seq<Seq<u8>>, n: nat, j: int)
    requires
        1 <= n <= entries.len(),
        0 <= j < 1 + 3 * (n - 1),
    ensures
        (seq![count_key(entries)] + entries_keys(entries))[j].0 != file_key(n),
{
    lemma_words();
    lemma_entries_keys(entries);
    lemma_numbered_key_plain("File"@, n);
    let keys = seq![count_key(entries)] + entries_keys(entries);
    if j == 0 {
        assert(keys[0].0[0] == 'N');
    } else {
        let i = (j - 1) / 3;
        let m = (i + 1) as nat;
        assert(keys[j] == entries_keys(entries)[j - 1]);
        assert(entries_keys(entries)[3 * i] == entry_keys(m, entries[i])[0]);
        lemma_numbered_key_plain("File"@, m);
        lemma_numbered_key_plain("Title"@, m);
        lemma_numbered_key_plain("Length"@, m);
        if j - 1 == 3 * i {
            if file_key(m) == file_key(n) {
                let k = "File"@.len() as int;
                assert(file_key(m).skip(k) =~= decimal(m));
                assert(file_key(n).skip(k) =~= decimal(n));
                lemma_decimal_injective(m, n);
            }
        } else if j - 1 == 3 * i + 1 {
            assert(keys[j].0[0] == 'T');
        } else {
            assert(keys[j].0[0] == 'L');
        }
    }
}

proof fn lemma_trimmed_skip_back(text: Seq<char>)
    requires
        trimmed(text) == text,
    ensures
        skip_back(text, CharClass::Space) == text,
{
    lemma_stripped_fixed(text, CharClass::Space);
}

proof fn lemma_listed_entries(entries: Seq<Seq<u8>>, n: nat)
    requires
        n <= entries.len(),
        forall|k: int| 0 <= k < entries.len() ==> storable_path(#[trigger] entries[k]),
    ensures
        listed_entries(seq![count_key(entries)] + entries_keys(entries), n) == Some(
            entries.take(n as int),
        ),
    decreases n,
{
    let keys = seq![count_key(entries)] + entries_keys(entries);
    if n == 0 {
        assert(entries.take(0) =~= Seq::empty());
    } else {
        lemma_listed_entries(entries, (n - 1) as nat);
        lemma_entries_keys(entries);
        let i = n - 1;
        let path = entries[i];
        assert(storable_path(path));
        let at = 1 + 3 * i;
        assert(entries_keys(entries)[3 * i] == entry_keys(n, path)[0]);
        assert(keys[at] == entry_keys(n, path)[0]);
        assert forall|j: int| 0 <= j < at implies (#[trigger] keys[j]).0 != file_key(n) by {
            lemma_key_before(entries, n, j);
        }
        lemma_first_value(keys, file_key(n), 0, at);
        lemma_trimmed_skip_back(shown_path(path));
        decode_utf8_encode_utf8(path);
        assert(entries.take(i).push(path) =~= entries.take(n as int));
    }
}

proof fn lemma_section_playlist(playlist: PlaylistModel)
    requires
        playlist.entries.len() <= usize::MAX,
        forall|k: int|
            0 <= k < playlist.entries.len() ==> storable_path(#[trigger] playlist.entries[k]),
    ensures
        section_playlist(playlist_section(playlist)) == Some(playlist),
{
    let entries = playlist.entries;
    let keys = playlist_section(playlist).keys;
    let digits = decimal(entries.len());
    lemma_decimal(entries.len());
    assert(is_digit(digits[0]) && is_digit(digits[digits.len() - 1]));
    lemma_stripped_fixed(digits, CharClass::Space);
    lemma_trimmed_skip_back(digits);
    assert(keys[0] == ("NumberOfEntries"@, digits));
    lemma_parse_decimal(entries.len(), usize::MAX as nat);
    assert(entry_count(keys, 0) == Some(entries.len()));
    lemma_listed_entries(entries, entries.len());
    assert(entries.take(entries.len() as int) =~= entries);
}

proof fn lemma_section_playlists(playlists: Seq<PlaylistModel>)
    requires
        storable(playlists),
    ensures
        section_playlists(playlist_sections(playlists)) == Some(playlists),
    decreases playlists.len(),
{
    let sections = playlist_sections(playlists);
    if playlists.len() == 0 {
        assert(playlists =~= Seq::empty());
    } else {
        let front = playlists.drop_last();
        assert forall|i: int| 0 <= i < front.len() implies {
            let p = #[trigger] front[i];
            &&& storable_name(p.name)
            &&& p.entries.len() <= usize::MAX
            &&& forall|k: int| 0 <= k < p.entries.len() ==> storable_path(#[trigger] p.entries[k])
        } by {
            assert(front[i] == playlists[i]);
        }
        lemma_section_playlists(front);
        let last = playlists[playlists.len() - 1];
        assert(storable_name(last.name));
        lemma_section_playlist(last);
        assert(sections.drop_last() =~= playlist_sections(front));
        assert(front.push(last) =~= playlists);
    }
}

/// The playlists come back from the file that is written for them, with the
/// first tab active and no current song.
pub proof fn law_pls_round_trip(playlists: Seq<PlaylistModel>)
    requires
        playlists.len() > 0,
        storable(playlists),
        !is_taken_for_classic(playlists),
    ensures
        decoded_store(pls_text(playlists)) == Some(
            StoreModel { playlists, active_tab: 0, current_tab: 0, current: None },
        ),
{
    let lines = store_lines(playlists);
    lemma_store_lines_clean(playlists);
    lemma_split_joined(lines);
    lemma_store_lines(playlists);
    lemma_section_playlists(playlists);
    let found = playlist_sections(playlists);
    let blank = seq![Seq::<char>::empty()];
    assert(lines.push(Seq::empty()) =~= lines + blank);
    lemma_with_lines_concat(Some(Seq::empty()), lines, blank);
    lemma_with_lines_one(Some(found), Seq::empty());
    lemma_blank_line(found);
    if found.len() == 1 {
        assert(found[0].name == playlists[0].name);
    }
}

} // verus!
