//! Titles of songs: from their tags, or from their file names.
use vstd::prelude::*;
use vstd::string::*;

use crate::path::{stem_text, SongPath};
use crate::text::{
    chars_of, find_char, find_from, key_is, lemma_find_from, lemma_find_from_bounds,
    is_space, lemma_skip_front_concat, lemma_stripped_ends, lemma_stripped_parts, push_chars, skip_front, strip_chars, strip_front,
    stripped, sub_chars, text_of, trimmed, CharClass,
};

verus! {

/// The file stem of a path; `Unknown` where there is none or it is no text.
pub open spec fn title_of(path: Seq<u8>) -> Seq<char> {
    match stem_text(path) {
        Some(stem) => stem,
        None => "Unknown"@,
    }
}

/// The title of a song by its file name, without the extension.
pub fn song_title(path: &SongPath) -> (r: String)
    ensures
        r@ == title_of(path@),
{
    match path.stem_text() {
        Some(stem) => stem,
        None => "Unknown".to_owned(),
    }
}

/// The tags of a song, as far as they are known.
#[derive(Debug)]
pub struct AudioMetadata {
    pub artist: Option<String>,
    pub title: Option<String>,
    pub album: Option<String>,
    pub track_number: Option<String>,
    pub date: Option<String>,
    pub genre: Option<String>,
}

/// The tags as texts.
#[verifier::ext_equal]
pub struct TagsModel {
    pub artist: Option<Seq<char>>,
    pub title: Option<Seq<char>>,
    pub album: Option<Seq<char>>,
    pub track_number: Option<Seq<char>>,
    pub date: Option<Seq<char>>,
    pub genre: Option<Seq<char>>,
}

/// The text of an optional string.
pub open spec fn text_view(text: Option<String>) -> Option<Seq<char>> {
    match text {
        Some(t) => Some(t@),
        None => None,
    }
}

impl View for AudioMetadata {
    type V = TagsModel;

    open spec fn view(&self) -> TagsModel {
        TagsModel {
            artist: text_view(self.artist),
            title: text_view(self.title),
            album: text_view(self.album),
            track_number: text_view(self.track_number),
            date: text_view(self.date),
            genre: text_view(self.genre),
        }
    }
}

/// No tag is known.
pub open spec fn no_tags() -> TagsModel {
    TagsModel {
        artist: None,
        title: None,
        album: None,
        track_number: None,
        date: None,
        genre: None,
    }
}

impl Default for AudioMetadata {
    fn default() -> (r: Self)
        ensures
            r@ == no_tags(),
    {
        AudioMetadata {
            artist: None,
            title: None,
            album: None,
            track_number: None,
            date: None,
            genre: None,
        }
    }
}

/// The tag that a placeholder names, if it names one.
pub open spec fn field_of(tags: TagsModel, key: Seq<char>) -> Option<Option<Seq<char>>> {
    if key == "artist"@ {
        Some(tags.artist)
    } else if key == "song"@ || key == "title"@ {
        Some(tags.title)
    } else if key == "album"@ {
        Some(tags.album)
    } else if key == "track"@ {
        Some(tags.track_number)
    } else if key == "date"@ {
        Some(tags.date)
    } else if key == "genre"@ {
        Some(tags.genre)
    } else {
        None
    }
}

/// The placeholder names a tag that the song does not have.
pub open spec fn is_missing(tags: TagsModel, key: Seq<char>) -> bool {
    field_of(tags, key) == Some(None::<Seq<char>>)
}

/// What a placeholder stands for: the tag that it names, empty where the tag
/// is missing or none has the name.
pub open spec fn placeholder_text(tags: TagsModel, key: Seq<char>) -> Seq<char> {
    match field_of(tags, key) {
        Some(Some(text)) => text,
        _ => Seq::empty(),
    }
}

/// Plain text of a format. Its leading separators are left out where they
/// would only follow others, with nothing but missing tags between.
pub open spec fn shown_plain(plain: Seq<char>, follows: bool) -> Seq<char> {
    if follows {
        skip_front(plain, CharClass::Separator)
    } else {
        plain
    }
}

/// The text before a placeholder ends with a separator: the plain text does,
/// or nothing of it is shown and what stands before does.
pub open spec fn ends_separated(shown: Seq<char>, follows: bool) -> bool {
    if shown.len() > 0 {
        CharClass::Separator.has(shown.last())
    } else {
        follows
    }
}

/// A format with its placeholders filled in. A placeholder is what stands
/// between `{` and the next `}`; a `{` without a `}` after it is plain text.
/// A missing tag takes the separators after it with it, where separators
/// stand before it too. `follows` tells whether a separator and then missing
/// tags only stand before the format.
pub open spec fn filled(tags: TagsModel, format: Seq<char>, follows: bool) -> Seq<char>
    decreases format.len(),
{
    let open = find_from(format, '{', 0);
    let close = find_from(format, '}', open);
    if open < 0 || open >= close || close >= format.len() {
        shown_plain(format, follows)
    } else {
        let shown = shown_plain(format.take(open), follows);
        let key = format.subrange(open + 1, close);
        shown + placeholder_text(tags, key) + filled(
            tags,
            format.skip(close + 1),
            is_missing(tags, key) && ends_separated(shown, follows),
        )
    }
}

/// The title of a song by its tags: the format with its placeholders filled
/// in, without separators at its ends; the fallback where nothing is left.
pub open spec fn rendered_title(
    tags: TagsModel,
    format: Seq<char>,
    fallback: Seq<char>,
) -> Seq<char> {
    let title = stripped(filled(tags, format, false), CharClass::Separator);
    if title.len() == 0 {
        fallback
    } else {
        title
    }
}

/// Appends a tag. Tells whether it is missing.
fn push_tag(out: &mut String, tag: &Option<String>) -> (r: bool)
    ensures
        final(out)@ == old(out)@ + (match text_view(*tag) {
            Some(text) => text,
            None => Seq::empty(),
        }),
        r == (text_view(*tag) is None),
{
    match tag {
        Some(text) => {
            out.append(text.as_str());
            false
        },
        None => {
            assert(out@ =~= out@ + Seq::<char>::empty());
            true
        },
    }
}

/// Appends what a placeholder stands for. Tells whether its tag is missing.
fn push_placeholder(out: &mut String, meta: &AudioMetadata, key: &[char]) -> (r: bool)
    ensures
        final(out)@ == old(out)@ + placeholder_text(meta@, key@),
        r == is_missing(meta@, key@),
{
    if key_is(key, "artist") {
        push_tag(out, &meta.artist)
    } else if key_is(key, "song") || key_is(key, "title") {
        push_tag(out, &meta.title)
    } else if key_is(key, "album") {
        push_tag(out, &meta.album)
    } else if key_is(key, "track") {
        push_tag(out, &meta.track_number)
    } else if key_is(key, "date") {
        push_tag(out, &meta.date)
    } else if key_is(key, "genre") {
        push_tag(out, &meta.genre)
    } else {
        assert(out@ =~= out@ + Seq::<char>::empty());
        false
    }
}

fn show_plain(plain: Vec<char>, follows: bool) -> (r: Vec<char>)
    ensures
        r@ == shown_plain(plain@, follows),
{
    if follows {
        strip_front(&plain, CharClass::Separator)
    } else {
        plain
    }
}

fn fill(meta: &AudioMetadata, format: Vec<char>) -> (r: String)
    ensures
        r@ == filled(meta@, format@, false),
{
    let ghost whole = filled(meta@, format@, false);
    let mut out = String::new();
    let mut rest = format;
    let mut follows: bool = false;
    assert(out@ + whole =~= whole);
    loop
        invariant_except_break
            out@ + filled(meta@, rest@, follows) == whole,
        ensures
            out@ == whole,
        decreases rest@.len(),
    {
        let open = find_char(&rest, '{', 0);
        let close = find_char(&rest, '}', open);
        proof {
            lemma_find_from_bounds(rest@, '{', 0);
            lemma_find_from_bounds(rest@, '}', open as int);
        }
        if close >= rest.len() {
            let shown = show_plain(rest, follows);
            push_chars(&mut out, &shown);
            break;
        }
        let ghost before = out@;
        let plain = sub_chars(&rest, 0, open);
        assert(plain@ =~= rest@.take(open as int));
        let shown = show_plain(plain, follows);
        push_chars(&mut out, &shown);
        let key = sub_chars(&rest, open + 1, close);
        let missing = push_placeholder(&mut out, meta, &key);
        let separated: bool = if shown.len() > 0 {
            CharClass::Separator.holds(shown[shown.len() - 1])
        } else {
            follows
        };
        let tail = sub_chars(&rest, close + 1, rest.len());
        assert(tail@ =~= rest@.skip(close as int + 1));
        assert(before + filled(meta@, rest@, follows) =~= out@ + filled(
            meta@,
            tail@,
            missing && separated,
        ));
        rest = tail;
        follows = missing && separated;
    }
    out
}

/// The title of a song: its tags in the given format, without the separators
/// that missing tags leave behind; the fallback where nothing is left.
pub fn render_title(meta: &AudioMetadata, format: &str, fallback: &str) -> (r: String)
    ensures
        r@ == rendered_title(meta@, format@, fallback@),
{
    let out = fill(meta, chars_of(format));
    let cs = chars_of(out.as_str());
    let title = strip_chars(&cs, CharClass::Separator);
    if title.len() == 0 {
        fallback.to_owned()
    } else {
        text_of(&title)
    }
}

/// The display title of a song with the given tags.
pub open spec fn display_title_of(
    tags: TagsModel,
    path: Seq<u8>,
    format: Seq<char>,
) -> Seq<char> {
    rendered_title(tags, format, title_of(path))
}

/// The display title of a song: its tags in the given format, or its file
/// stem where that leaves nothing.
pub fn format_song_title(meta: &AudioMetadata, path: &SongPath, format: &str) -> (r: String)
    ensures
        r@ == display_title_of(meta@, path@, format@),
{
    let fallback = song_title(path);
    render_title(meta, format, fallback.as_str())
}

/// The artist and the song that the tray shows: the tags, with the file stem
/// for a title that is missing or blank.
pub open spec fn tray_song_of(tags: TagsModel, path: Seq<u8>) -> (Seq<char>, Seq<char>) {
    (
        match tags.artist {
            Some(artist) => artist,
            None => Seq::empty(),
        },
        match tags.title {
            Some(title) => if trimmed(title).len() > 0 {
                title
            } else {
                title_of(path)
            },
            None => title_of(path),
        },
    )
}

pub fn tray_song(meta: &AudioMetadata, path: &SongPath) -> (r: (String, String))
    ensures
        (r.0@, r.1@) == tray_song_of(meta@, path@),
{
    let artist = match &meta.artist {
        Some(artist) => artist.clone(),
        None => String::new(),
    };
    let song = match &meta.title {
        Some(title) => {
            let cs = chars_of(title.as_str());
            let bare = strip_chars(&cs, CharClass::Space);
            if bare.len() > 0 {
                title.clone()
            } else {
                song_title(path)
            }
        },
        None => song_title(path),
    };
    (artist, song)
}

/// A rendered title has no separator at either end, unless it is the
/// fallback; and it is empty only where the fallback is.
pub proof fn law_rendered_title_has_no_loose_ends(
    tags: TagsModel,
    format: Seq<char>,
    fallback: Seq<char>,
)
    ensures
        ({
            let title = rendered_title(tags, format, fallback);
            ||| title == fallback
            ||| title.len() > 0 && !CharClass::Separator.has(title[0])
                && !CharClass::Separator.has(title.last())
        }),
        fallback.len() > 0 ==> rendered_title(tags, format, fallback).len() > 0,
{
    lemma_stripped_ends(filled(tags, format, false), CharClass::Separator);
}

/// A format without a placeholder is the same title for every song: itself,
/// without separators at its ends.
pub proof fn law_plain_format(tags: TagsModel, format: Seq<char>, fallback: Seq<char>)
    requires
        !format.contains('{'),
    ensures
        stripped(format, CharClass::Separator).len() > 0 ==> rendered_title(tags, format, fallback)
            == stripped(format, CharClass::Separator),
        stripped(format, CharClass::Separator).len() == 0 ==> rendered_title(
            tags,
            format,
            fallback,
        ) == fallback,
{
    lemma_find_from_bounds(format, '{', 0);
    if find_from(format, '{', 0) < format.len() {
        assert(format[find_from(format, '{', 0)] == '{');
    }
    lemma_find_from_bounds(format, '}', format.len() as int);
}

/// A format is filled in piece by piece: plain text that ends with a
/// separator, and then the rest, as after that separator.
proof fn lemma_filled_after_separator(tags: TagsModel, head: Seq<char>, tail: Seq<char>)
    requires
        head.len() > 0,
        !head.contains('{'),
        CharClass::Separator.has(head.last()),
    ensures
        filled(tags, head + skip_front(tail, CharClass::Separator), false) == head + filled(
            tags,
            tail,
            true,
        ),
{
    let class = CharClass::Separator;
    let kept = skip_front(tail, class);
    let format = head + kept;
    let open = find_from(tail, '{', 0);
    lemma_find_from_bounds(tail, '{', 0);
    let plain = tail.take(open);
    let rest = tail.skip(open);
    assert(tail =~= plain + rest);
    lemma_skip_front_concat(plain, rest, class);
    let shown = skip_front(plain, class);
    lemma_skip_front_within(plain, class);
    assert(kept == shown + rest);
    let n: int = (head.len() + shown.len()) as int;
    assert forall|i: int| 0 <= i < n implies format[i] != '{' by {
        if i < head.len() {
            assert(format[i] == head[i]);
            assert(head.contains(head[i]));
        } else {
            assert(format[i] == shown[i - head.len()]);
            assert(plain.contains(shown[i - head.len()]));
            let k = choose|k: int| 0 <= k < plain.len() && plain[k] == format[i];
            assert(tail[k] == format[i]);
        }
    }
    assert(n < format.len() ==> format[n] == rest[0]);
    lemma_find_from(format, '{', 0, n);
    let close = find_from(tail, '}', open);
    lemma_find_from_bounds(tail, '}', open);
    let shut = n + close - open;
    assert forall|i: int| n <= i < shut implies format[i] != '}' by {
        assert(format[i] == tail[i - n + open]);
    }
    assert(shut < format.len() ==> format[shut] == tail[close]);
    lemma_find_from(format, '}', n, shut);
    if close < tail.len() {
        assert(format.take(n) =~= head + shown);
        assert(format.subrange(n + 1, shut) =~= tail.subrange(open + 1, close));
        assert(format.skip(shut + 1) =~= tail.skip(close + 1));
        let key = tail.subrange(open + 1, close);
        assert((head + shown).last() == if shown.len() > 0 {
            shown.last()
        } else {
            head.last()
        });
        assert(ends_separated(head + shown, false) == ends_separated(shown, true));
        let more = filled(
            tags,
            tail.skip(close + 1),
            is_missing(tags, key) && ends_separated(shown, true),
        );
        assert(filled(tags, format, false) == head + shown + placeholder_text(tags, key) + more);
        assert(filled(tags, tail, true) == shown + placeholder_text(tags, key) + more);
        assert(filled(tags, format, false) =~= head + filled(tags, tail, true));
    } else {
        assert(filled(tags, format, false) == format);
        assert(filled(tags, tail, true) == kept);
    }
}

proof fn lemma_skip_front_within(s: Seq<char>, class: CharClass)
    ensures
        forall|i: int|
            0 <= i < skip_front(s, class).len() ==> s.contains(#[trigger] skip_front(s, class)[i]),
    decreases s.len(),
{
    if s.len() > 0 && class.has(s[0]) {
        let rest = s.drop_first();
        lemma_skip_front_within(rest, class);
        assert forall|i: int| 0 <= i < skip_front(s, class).len() implies s.contains(
            #[trigger] skip_front(s, class)[i],
        ) by {
            let c = skip_front(rest, class)[i];
            let k = choose|k: int| 0 <= k < rest.len() && rest[k] == c;
            assert(s[k + 1] == c);
        }
    }
}

/// A missing tag between separators is left out together with those after
/// it: the title is that of the format without both.
pub proof fn law_missing_tag_takes_its_separators(
    tags: TagsModel,
    head: Seq<char>,
    key: Seq<char>,
    tail: Seq<char>,
    fallback: Seq<char>,
)
    requires
        head.len() > 0,
        !head.contains('{'),
        CharClass::Separator.has(head.last()),
        is_missing(tags, key),
        !key.contains('}'),
    ensures
        rendered_title(tags, head + seq!['{'] + key + seq!['}'] + tail, fallback)
            == rendered_title(tags, head + skip_front(tail, CharClass::Separator), fallback),
{
    let format = head + seq!['{'] + key + seq!['}'] + tail;
    let open = head.len() as int;
    let close = open + 1 + key.len();
    assert forall|i: int| 0 <= i < open implies format[i] != '{' by {
        assert(format[i] == head[i]);
        assert(head.contains(head[i]));
    }
    assert(format[open] == '{');
    lemma_find_from(format, '{', 0, open);
    assert forall|i: int| open <= i < close implies format[i] != '}' by {
        if i > open {
            assert(format[i] == key[i - open - 1]);
            assert(key.contains(key[i - open - 1]));
        }
    }
    assert(format[close] == '}');
    lemma_find_from(format, '}', open, close);
    assert(format.take(open) =~= head);
    assert(format.subrange(open + 1, close) =~= key);
    assert(format.skip(close + 1) =~= tail);
    assert(filled(tags, format, false) =~= head + filled(tags, tail, true));
    lemma_filled_after_separator(tags, head, tail);
}

// What placeholders stand for.

/// A format with one more placeholder in front of its rest.
pub open spec fn with_placeholder(head: Seq<char>, key: Seq<char>, tail: Seq<char>) -> Seq<char> {
    head + seq!['{'] + key + seq!['}'] + tail
}

/// Where the first placeholder of a format stands.
proof fn lemma_first_placeholder(
    tags: TagsModel,
    head: Seq<char>,
    key: Seq<char>,
    tail: Seq<char>,
)
    requires
        !head.contains('{'),
        !key.contains('}'),
    ensures
        filled(tags, with_placeholder(head, key, tail), false) == head + placeholder_text(tags, key)
            + filled(
            tags,
            tail,
            is_missing(tags, key) && head.len() > 0 && CharClass::Separator.has(head.last()),
        ),
{
    let format = with_placeholder(head, key, tail);
    let open = head.len() as int;
    let close = open + 1 + key.len();
    assert forall|i: int| 0 <= i < open implies format[i] != '{' by {
        assert(format[i] == head[i]);
        assert(head.contains(head[i]));
    }
    assert(format[open] == '{');
    lemma_find_from(format, '{', 0, open);
    assert forall|i: int| open <= i < close implies format[i] != '}' by {
        if i > open {
            assert(format[i] == key[i - open - 1]);
            assert(key.contains(key[i - open - 1]));
        }
    }
    assert(format[close] == '}');
    lemma_find_from(format, '}', open, close);
    assert(format.take(open) =~= head);
    assert(format.subrange(open + 1, close) =~= key);
    assert(format.skip(close + 1) =~= tail);
}

proof fn lemma_tag_names()
    ensures
        "artist"@ != "song"@ && "artist"@ != "title"@ && "artist"@ != "album"@ && "artist"@
            != "track"@ && "artist"@ != "date"@ && "artist"@ != "genre"@,
        "song"@ != "title"@ && "song"@ != "album"@ && "song"@ != "track"@ && "song"@ != "date"@
            && "song"@ != "genre"@,
        "title"@ != "album"@ && "title"@ != "track"@ && "title"@ != "date"@ && "title"@
            != "genre"@,
        "album"@ != "track"@ && "album"@ != "date"@ && "album"@ != "genre"@,
        "track"@ != "date"@ && "track"@ != "genre"@,
        "date"@ != "genre"@,
        !"artist"@.contains('}') && !"song"@.contains('}') && !"title"@.contains('}')
            && !"album"@.contains('}') && !"track"@.contains('}') && !"date"@.contains('}')
            && !"genre"@.contains('}'),
{
    reveal_strlit("artist");
    reveal_strlit("song");
    reveal_strlit("title");
    reveal_strlit("album");
    reveal_strlit("track");
    reveal_strlit("date");
    reveal_strlit("genre");
    assert("artist"@[0] == 'a' && "album"@[0] == 'a' && "song"@[0] == 's' && "title"@[0] == 't');
    assert("track"@[0] == 't' && "date"@[0] == 'd' && "genre"@[0] == 'g');
    assert("title"@[1] == 'i' && "track"@[1] == 'r');
    assert("artist"@.len() == 6 && "album"@.len() == 5);
}

/// The whole text of a tag stands in the title in place of the placeholder
/// that names it, between what stands before and after it in the format.
pub proof fn law_tag_is_shown_whole(
    tags: TagsModel,
    head: Seq<char>,
    key: Seq<char>,
    tail: Seq<char>,
    text: Seq<char>,
)
    requires
        !head.contains('{'),
        ({
            ||| key == "artist"@ && tags.artist == Some(text)
            ||| key == "song"@ && tags.title == Some(text)
            ||| key == "title"@ && tags.title == Some(text)
            ||| key == "album"@ && tags.album == Some(text)
            ||| key == "track"@ && tags.track_number == Some(text)
            ||| key == "date"@ && tags.date == Some(text)
            ||| key == "genre"@ && tags.genre == Some(text)
        }),
    ensures
        filled(tags, head + seq!['{'] + key + seq!['}'] + tail, false) == head + text + filled(
            tags,
            tail,
            false,
        ),
{
    lemma_tag_names();
    lemma_first_placeholder(tags, head, key, tail);
}

/// A tag that the song does not have leaves nothing in its place. Where
/// separators stand before it, those after it go too.
pub proof fn law_missing_tag_leaves_nothing(
    tags: TagsModel,
    head: Seq<char>,
    key: Seq<char>,
    tail: Seq<char>,
)
    requires
        !head.contains('{'),
        ({
            ||| key == "artist"@ && tags.artist is None
            ||| key == "song"@ && tags.title is None
            ||| key == "title"@ && tags.title is None
            ||| key == "album"@ && tags.album is None
            ||| key == "track"@ && tags.track_number is None
            ||| key == "date"@ && tags.date is None
            ||| key == "genre"@ && tags.genre is None
        }),
    ensures
        ({
            let format = head + seq!['{'] + key + seq!['}'] + tail;
            let separated = head.len() > 0 && (is_space(head.last()) || head.last() == '-'
                || head.last() == '|' || head.last() == '~');
            &&& !separated ==> filled(tags, format, false) == head + filled(tags, tail, false)
            &&& separated ==> filled(tags, format, false) == filled(
                tags,
                head + skip_front(tail, CharClass::Separator),
                false,
            )
        }),
{
    lemma_tag_names();
    lemma_first_placeholder(tags, head, key, tail);
    assert(head + Seq::<char>::empty() =~= head);
    if head.len() > 0 && CharClass::Separator.has(head.last()) {
        lemma_filled_after_separator(tags, head, tail);
    }
}

/// A placeholder that names no tag is dropped, and nothing else with it.
pub proof fn law_unknown_placeholder_is_dropped(
    tags: TagsModel,
    head: Seq<char>,
    key: Seq<char>,
    tail: Seq<char>,
)
    requires
        !head.contains('{'),
        !key.contains('}'),
        key != "artist"@ && key != "song"@ && key != "title"@ && key != "album"@ && key
            != "track"@ && key != "date"@ && key != "genre"@,
    ensures
        filled(tags, head + seq!['{'] + key + seq!['}'] + tail, false) == head + filled(
            tags,
            tail,
            false,
        ),
{
    lemma_first_placeholder(tags, head, key, tail);
    assert(head + Seq::<char>::empty() =~= head);
}

/// Text without a placeholder is shown as it is: without `{`, or with one
/// that no `}` follows.
pub proof fn law_plain_text_is_kept(tags: TagsModel, head: Seq<char>, tail: Seq<char>)
    requires
        !head.contains('{'),
        !tail.contains('}'),
    ensures
        filled(tags, head, false) == head,
        filled(tags, head + seq!['{'] + tail, false) == head + seq!['{'] + tail,
{
    lemma_find_from_bounds(head, '{', 0);
    if find_from(head, '{', 0) < head.len() {
        assert(head[find_from(head, '{', 0)] == '{');
    }
    lemma_find_from_bounds(head, '}', head.len() as int);
    let format = head + seq!['{'] + tail;
    let open = head.len() as int;
    assert forall|i: int| 0 <= i < open implies format[i] != '{' by {
        assert(format[i] == head[i]);
        assert(head.contains(head[i]));
    }
    assert(format[open] == '{');
    lemma_find_from(format, '{', 0, open);
    assert forall|i: int| open <= i < format.len() implies format[i] != '}' by {
        if i > open {
            assert(format[i] == tail[i - open - 1]);
            assert(tail.contains(tail[i - open - 1]));
        }
    }
    lemma_find_from(format, '}', open, format.len() as int);
}

/// A title is the filled-in format but for separators at its two ends: all of
/// them go, and nothing else. Where nothing is left, it is the fallback.
pub proof fn law_title_is_the_filled_format(
    tags: TagsModel,
    format: Seq<char>,
    fallback: Seq<char>,
)
    ensures
        ({
            let whole = filled(tags, format, false);
            let title = rendered_title(tags, format, fallback);
            &&& (forall|i: int| 0 <= i < whole.len() ==> is_separator(#[trigger] whole[i]))
                ==> title == fallback
            &&& !(forall|i: int| 0 <= i < whole.len() ==> is_separator(#[trigger] whole[i]))
                ==> exists|before: Seq<char>, after: Seq<char>|
                #![trigger before + title + after]
                {
                    &&& whole == before + title + after
                    &&& forall|i: int| 0 <= i < before.len() ==> is_separator(#[trigger] before[i])
                    &&& forall|i: int| 0 <= i < after.len() ==> is_separator(#[trigger] after[i])
                    &&& title.len() > 0
                    &&& !is_separator(title[0])
                    &&& !is_separator(title.last())
                }
        }),
{
    let whole = filled(tags, format, false);
    let title = stripped(whole, CharClass::Separator);
    let (before, after) = lemma_stripped_parts(whole, CharClass::Separator);
    lemma_stripped_ends(whole, CharClass::Separator);
    assert(forall|c: char| #[trigger] is_separator(c) == CharClass::Separator.has(c));
    if title.len() == 0 {
        assert(whole =~= before + after);
        assert forall|i: int| 0 <= i < whole.len() implies is_separator(#[trigger] whole[i]) by {
            if i < before.len() {
                assert(whole[i] == before[i]);
            } else {
                assert(whole[i] == after[i - before.len()]);
            }
        }
    } else {
        assert(whole[before.len() as int] == title[0]);
        assert(whole == before + rendered_title(tags, format, fallback) + after);
    }
}

/// A character that is dropped from the ends of a title: white space, `-`,
/// `|` or `~`.
pub open spec fn is_separator(c: char) -> bool {
    is_space(c) || c == '-' || c == '|' || c == '~'
}

/// The display title of a song falls back to its file stem, and the tray
/// shows the tags themselves.
pub proof fn law_titles_of_untagged_songs(path: Seq<u8>, format: Seq<char>, tags: TagsModel)
    ensures
        display_title_of(tags, path, format) == rendered_title(tags, format, title_of(path)),
        tags.artist matches Some(artist) ==> tray_song_of(tags, path).0 == artist,
        tags.artist is None ==> tray_song_of(tags, path).0 == Seq::<char>::empty(),
        tags.title is None ==> tray_song_of(tags, path).1 == title_of(path),
        tags.title matches Some(title) ==> {
            &&& (exists|i: int| 0 <= i < title.len() && !is_space(#[trigger] title[i]))
                ==> tray_song_of(tags, path).1 == title
            &&& (forall|i: int| 0 <= i < title.len() ==> is_space(#[trigger] title[i]))
                ==> tray_song_of(tags, path).1 == title_of(path)
        },
{
    if let Some(title) = tags.title {
        let (before, after) = lemma_stripped_parts(title, CharClass::Space);
        lemma_stripped_ends(title, CharClass::Space);
        let bare = trimmed(title);
        if bare.len() == 0 {
            assert(title =~= before + after);
        } else {
            assert(title[before.len() as int] == bare[0]);
        }
    }
}

/// The title of a file is its stem where that is text.
pub proof fn law_file_titles(path: Seq<u8>)
    ensures
        stem_text(path) matches Some(stem) ==> title_of(path) == stem,
        stem_text(path) is None ==> title_of(path) == "Unknown"@,
{
}

} // verus!
