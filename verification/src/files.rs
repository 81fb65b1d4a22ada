//! Which files are songs, and the songs found in a directory tree.
use vstd::prelude::*;
use vstd::string::*;

use crate::order::{indices, is_stable_order, keys_view, stable_order, KeyView, SortKey};
use crate::path::{extension, path_parts, paths_view, SongPath};
use crate::text::{chars_of, code_of};

verus! {

/// A byte, with the upper case ASCII letters folded to lower case.
pub open spec fn folded_byte(b: u8) -> int {
    if 65 <= b <= 90 {
        b + 32
    } else {
        b as int
    }
}

/// The bytes spell `word` up to the case of ASCII letters.
pub open spec fn spells(bytes: Seq<u8>, word: Seq<char>) -> bool {
    &&& bytes.len() == word.len()
    &&& forall|i: int| 0 <= i < bytes.len() ==> #[trigger] folded_byte(bytes[i]) == word[i] as int
}

/// The file extensions of songs.
pub open spec fn is_audio_extension(ext: Seq<u8>) -> bool {
    ||| spells(ext, "wav"@)
    ||| spells(ext, "flac"@)
    ||| spells(ext, "mp3"@)
    ||| spells(ext, "ogg"@)
    ||| spells(ext, "oga"@)
    ||| spells(ext, "opus"@)
    ||| spells(ext, "m4a"@)
    ||| spells(ext, "aac"@)
    ||| spells(ext, "mp4"@)
}

pub open spec fn is_audio_path(path: Seq<u8>) -> bool {
    match extension(path) {
        Some(ext) => is_audio_extension(ext),
        None => false,
    }
}

fn fold_byte(b: u8) -> (r: u32)
    ensures
        r == folded_byte(b),
{
    if 65 <= b && b <= 90 {
        b as u32 + 32
    } else {
        b as u32
    }
}

fn ext_is(ext: &[u8], word: &str) -> (r: bool)
    ensures
        r == spells(ext@, word@),
{
    let cs = chars_of(word);
    if ext.len() != cs.len() {
        return false;
    }
    let mut i: usize = 0;
    while i < ext.len()
        invariant
            i <= ext@.len(),
            cs@ == word@,
            ext@.len() == word@.len(),
            forall|j: int| 0 <= j < i ==> #[trigger] folded_byte(ext@[j]) == word@[j] as int,
        decreases ext@.len() - i,
    {
        if fold_byte(ext[i]) != code_of(cs[i]) {
            assert(folded_byte(ext@[i as int]) != word@[i as int] as int);
            return false;
        }
        i = i + 1;
    }
    true
}

/// Whether the file has the extension of a song, in upper or lower case.
pub fn is_supported_audio_file(path: &SongPath) -> (r: bool)
    ensures
        r == is_audio_path(path@),
{
    match path.extension() {
        Some(ext) => ext_is(&ext, "wav") || ext_is(&ext, "flac") || ext_is(&ext, "mp3") || ext_is(
            &ext,
            "ogg",
        ) || ext_is(&ext, "oga") || ext_is(&ext, "opus") || ext_is(&ext, "m4a") || ext_is(
            &ext,
            "aac",
        ) || ext_is(&ext, "mp4"),
        None => false,
    }
}

/// The file extensions of songs, in lower case.
pub open spec fn audio_words() -> Seq<Seq<char>> {
    seq!["wav"@, "flac"@, "mp3"@, "ogg"@, "oga"@, "opus"@, "m4a"@, "aac"@, "mp4"@]
}

/// The file extensions of songs, to choose files by.
pub fn audio_extensions() -> (r: Vec<String>)
    ensures
        r@.map_values(|t: String| t@) == audio_words(),
{
    let mut r: Vec<String> = Vec::new();
    r.push("wav".to_owned());
    r.push("flac".to_owned());
    r.push("mp3".to_owned());
    r.push("ogg".to_owned());
    r.push("oga".to_owned());
    r.push("opus".to_owned());
    r.push("m4a".to_owned());
    r.push("aac".to_owned());
    r.push("mp4".to_owned());
    assert(r@.map_values(|t: String| t@) =~= audio_words());
    r
}

/// A file is a song if its extension is one of those listed.
pub proof fn law_extensions_are_listed(ext: Seq<u8>)
    ensures
        is_audio_extension(ext) <==> exists|i: int|
            0 <= i < audio_words().len() && spells(ext, #[trigger] audio_words()[i]),
{
    let words = audio_words();
    assert(words[0] == "wav"@ && words[1] == "flac"@ && words[2] == "mp3"@ && words[3] == "ogg"@
        && words[4] == "oga"@ && words[5] == "opus"@ && words[6] == "m4a"@ && words[7] == "aac"@
        && words[8] == "mp4"@);
}

/// The songs among the given files, in their order.
pub open spec fn audio_files(paths: Seq<Seq<u8>>) -> Seq<Seq<u8>>
    decreases paths.len(),
{
    if paths.len() == 0 {
        paths
    } else if is_audio_path(paths.last()) {
        audio_files(paths.drop_last()).push(paths.last())
    } else {
        audio_files(paths.drop_last())
    }
}

/// Keeps the songs among the given files.
pub fn filter_audio_files(paths: Vec<SongPath>) -> (r: Vec<SongPath>)
    ensures
        paths_view(r@) == audio_files(paths_view(paths@)),
{
    let ghost all = paths_view(paths@);
    let mut kept: Vec<SongPath> = Vec::new();
    assert(paths_view(kept@) =~= audio_files(all.take(0)));
    for path in it: paths
        invariant
            it.seq() == paths@,
            all == paths_view(paths@),
            paths_view(kept@) == audio_files(all.take(it.index() as int)),
    {
        let ghost before = paths_view(kept@);
        let ghost i = it.index() as int;
        assert(all.take(i + 1).drop_last() =~= all.take(i));
        assert(all[i] == path@);
        if is_supported_audio_file(&path) {
            kept.push(path);
            assert(paths_view(kept@) =~= before.push(path@));
        }
    }
    assert(all.take(all.len() as int) =~= all);
    kept
}

// Directory trees.

/// What a directory holds: directories, each with what could be read of it,
/// and files.
pub enum DirEntry {
    Directory(Vec<DirEntry>),
    File(SongPath),
    /// Neither a directory nor a regular file.
    Other,
}

/// The songs at or below an entry.
pub open spec fn songs_in(entry: DirEntry) -> Seq<Seq<u8>>
    decreases entry,
{
    match entry {
        DirEntry::Directory(entries) => songs_below(entries@),
        DirEntry::File(path) => if is_audio_path(path@) {
            seq![path@]
        } else {
            Seq::empty()
        },
        DirEntry::Other => Seq::empty(),
    }
}

/// The songs at or below the entries, in the order of the entries.
pub open spec fn songs_below(entries: Seq<DirEntry>) -> Seq<Seq<u8>>
    decreases entries,
{
    if entries.len() == 0 {
        Seq::empty()
    } else {
        songs_below(entries.drop_last()) + songs_in(entries.last())
    }
}

/// Sort keys that order paths by their components.
pub open spec fn path_keys(paths: Seq<Seq<u8>>) -> Seq<KeyView> {
    paths.map_values(|p: Seq<u8>| (Seq::<char>::empty(), path_parts(p)))
}

/// The items at the given positions.
pub open spec fn picked<T>(items: Seq<T>, order: Seq<int>) -> Seq<T> {
    order.map_values(|i: int| items[i])
}

/// The songs of a directory and of all directories below it, ordered by
/// path.
pub fn collect_audio_files(entries: &Vec<DirEntry>) -> (r: Vec<SongPath>)
    ensures
        exists|order: Seq<int>| #[trigger]
            is_stable_order(path_keys(songs_below(entries@)), order) && paths_view(r@) == picked(
                songs_below(entries@),
                order,
            ),
{
    let mut found: Vec<SongPath> = Vec::new();
    collect_audio_files_into(entries, &mut found);
    let ghost songs = songs_below(entries@);
    assert(paths_view(found@) =~= songs);
    let mut keys: Vec<SortKey> = Vec::new();
    let mut i: usize = 0;
    while i < found.len()
        invariant
            i <= found@.len(),
            songs == paths_view(found@),
            keys_view(keys@) == path_keys(songs).take(i as int),
        decreases found@.len() - i,
    {
        let ghost before = keys_view(keys@);
        let key = SortKey { text: Vec::new(), parts: found[i].parts() };
        assert(key@.0 =~= Seq::<char>::empty());
        assert(path_keys(songs)[i as int] == key@);
        keys.push(key);
        i = i + 1;
        assert(keys_view(keys@) =~= before.push(key@));
        assert(keys_view(keys@) =~= path_keys(songs).take(i as int));
    }
    assert(keys_view(keys@) =~= path_keys(songs));
    let order = stable_order(&keys);
    pick_paths(&found, &order)
}

/// The paths at the given positions.
pub fn pick_paths(paths: &Vec<SongPath>, order: &Vec<usize>) -> (r: Vec<SongPath>)
    requires
        forall|k: int| 0 <= k < order@.len() ==> #[trigger] indices(order@)[k] < paths@.len(),
    ensures
        paths_view(r@) == picked(paths_view(paths@), indices(order@)),
{
    let mut r: Vec<SongPath> = Vec::new();
    let mut k: usize = 0;
    while k < order.len()
        invariant
            k <= order@.len(),
            forall|k: int| 0 <= k < order@.len() ==> #[trigger] indices(order@)[k] < paths@.len(),
            paths_view(r@) == picked(paths_view(paths@), indices(order@)).take(k as int),
        decreases order@.len() - k,
    {
        let ghost before = paths_view(r@);
        assert(indices(order@)[k as int] < paths@.len());
        let path = paths[order[k]].clone();
        r.push(path);
        k = k + 1;
        assert(paths_view(r@) =~= before.push(path@));
        assert(paths_view(r@) =~= picked(paths_view(paths@), indices(order@)).take(k as int));
    }
    assert(paths_view(r@) =~= picked(paths_view(paths@), indices(order@)));
    r
}

/// Appends the songs at or below the entries.
fn collect_audio_files_into(entries: &Vec<DirEntry>, found: &mut Vec<SongPath>)
    ensures
        paths_view(final(found)@) == paths_view(old(found)@) + songs_below(entries@),
    decreases entries,
{
    let ghost start = paths_view(found@);
    let mut i: usize = 0;
    assert(entries@.take(0) =~= Seq::<DirEntry>::empty());
    assert(start + songs_below(entries@.take(0)) =~= start);
    while i < entries.len()
        invariant
            i <= entries@.len(),
            paths_view(found@) == start + songs_below(entries@.take(i as int)),
        decreases entries@.len() - i,
    {
        let ghost before = paths_view(found@);
        assert(entries@.take(i as int + 1).drop_last() =~= entries@.take(i as int));
        assert(entries@.take(i as int + 1).last() == entries@[i as int]);
        assert(songs_below(entries@.take(i as int + 1)) == songs_below(entries@.take(i as int))
            + songs_in(entries@[i as int]));
        match &entries[i] {
            DirEntry::Directory(inner) => {
                assert(decreases_to!(entries => entries@[i as int]));
                collect_audio_files_into(inner, found);
                assert(songs_in(entries@[i as int]) == songs_below(inner@));
            },
            DirEntry::File(path) => {
                if is_supported_audio_file(path) {
                    let copy = path.clone();
                    found.push(copy);
                    assert(paths_view(found@) =~= before.push(path@));
                }
            },
            DirEntry::Other => {},
        }
        i = i + 1;
        assert(paths_view(found@) =~= start + songs_below(entries@.take(i as int)));
    }
    assert(entries@.take(entries@.len() as int) =~= entries@);
}

proof fn lemma_songs_below_are_songs(entries: Seq<DirEntry>, i: int)
    requires
        0 <= i < songs_below(entries).len(),
    ensures
        is_audio_path(songs_below(entries)[i]),
    decreases entries,
{
    if entries.len() > 0 {
        let before = songs_below(entries.drop_last());
        if i < before.len() {
            lemma_songs_below_are_songs(entries.drop_last(), i);
        } else {
            lemma_songs_in_are_songs(entries.last(), i - before.len());
        }
    }
}

proof fn lemma_songs_in_are_songs(entry: DirEntry, i: int)
    requires
        0 <= i < songs_in(entry).len(),
    ensures
        is_audio_path(songs_in(entry)[i]),
    decreases entry,
{
    match entry {
        DirEntry::Directory(entries) => {
            lemma_songs_below_are_songs(entries@, i);
        },
        _ => {},
    }
}

/// Everything that is collected from a directory has the extension of a
/// song, so that filtering it changes nothing.
pub proof fn law_collected_files_are_songs(entries: Seq<DirEntry>)
    ensures
        forall|i: int|
            0 <= i < songs_below(entries).len() ==> is_audio_path(
                #[trigger] songs_below(entries)[i],
            ),
{
    assert forall|i: int| 0 <= i < songs_below(entries).len() implies is_audio_path(
        #[trigger] songs_below(entries)[i],
    ) by {
        lemma_songs_below_are_songs(entries, i);
    }
}

/// Filtering keeps songs only, and filtering again changes nothing.
pub proof fn law_filter_is_idempotent(paths: Seq<Seq<u8>>)
    ensures
        forall|i: int|
            0 <= i < audio_files(paths).len() ==> is_audio_path(#[trigger] audio_files(paths)[i]),
        audio_files(audio_files(paths)) == audio_files(paths),
    decreases paths.len(),
{
    if paths.len() > 0 {
        let front = paths.drop_last();
        law_filter_is_idempotent(front);
        if is_audio_path(paths.last()) {
            assert(audio_files(paths).drop_last() =~= audio_files(front));
        }
    }
}

/// The files that are kept are those with a supported extension, in the order
/// they are given.
pub proof fn law_filter_keeps_the_order(paths: Seq<Seq<u8>>)
    ensures
        audio_files(paths) == paths.filter(|p: Seq<u8>| is_audio_path(p)),
    decreases paths.len(),
{
    reveal(Seq::filter);
    if paths.len() > 0 {
        law_filter_keeps_the_order(paths.drop_last());
    } else {
        assert(paths =~= Seq::empty());
    }
}

pub proof fn lemma_no_songs(paths: Seq<Seq<u8>>)
    requires
        forall|k: int| 0 <= k < paths.len() ==> !is_audio_path(#[trigger] paths[k]),
    ensures
        audio_files(paths).len() == 0,
    decreases paths.len(),
{
    if paths.len() > 0 {
        assert(paths.last() == paths[paths.len() - 1]);
        assert forall|k: int| 0 <= k < paths.drop_last().len() implies !is_audio_path(
            #[trigger] paths.drop_last()[k],
        ) by {
            assert(paths.drop_last()[k] == paths[k]);
        }
        lemma_no_songs(paths.drop_last());
    }
}

pub proof fn lemma_a_song(paths: Seq<Seq<u8>>, k: int)
    requires
        0 <= k < paths.len(),
        is_audio_path(paths[k]),
    ensures
        audio_files(paths).len() > 0,
    decreases paths.len(),
{
    if k < paths.len() - 1 {
        lemma_a_song(paths.drop_last(), k);
    }
}

/// A file is supported by the letters after the last dot of its name, in
/// upper or lower case: those of one of the nine words.
pub proof fn law_supported_extensions(path: Seq<u8>)
    ensures
        extension(path) is None ==> !is_audio_path(path),
        extension(path) matches Some(ext) ==> (is_audio_path(path) <==> ({
            ||| reads_as(ext, "wav"@)
            ||| reads_as(ext, "flac"@)
            ||| reads_as(ext, "mp3"@)
            ||| reads_as(ext, "ogg"@)
            ||| reads_as(ext, "oga"@)
            ||| reads_as(ext, "opus"@)
            ||| reads_as(ext, "m4a"@)
            ||| reads_as(ext, "aac"@)
            ||| reads_as(ext, "mp4"@)
        })),
{
    reveal_strlit("wav");
    reveal_strlit("flac");
    reveal_strlit("mp3");
    reveal_strlit("ogg");
    reveal_strlit("oga");
    reveal_strlit("opus");
    reveal_strlit("m4a");
    reveal_strlit("aac");
    reveal_strlit("mp4");
    if let Some(ext) = extension(path) {
        lemma_reads_as(ext, "wav"@);
        lemma_reads_as(ext, "flac"@);
        lemma_reads_as(ext, "mp3"@);
        lemma_reads_as(ext, "ogg"@);
        lemma_reads_as(ext, "oga"@);
        lemma_reads_as(ext, "opus"@);
        lemma_reads_as(ext, "m4a"@);
        lemma_reads_as(ext, "aac"@);
        lemma_reads_as(ext, "mp4"@);
    }
}

/// The bytes are the letters of a word, each in lower or in upper case.
pub open spec fn reads_as(bytes: Seq<u8>, word: Seq<char>) -> bool {
    &&& bytes.len() == word.len()
    &&& forall|i: int|
        0 <= i < word.len() ==> bytes[i] as int == #[trigger] word[i] as int || 'a' <= word[i]
            <= 'z' && bytes[i] as int == word[i] as int - 32
}

proof fn lemma_reads_as(bytes: Seq<u8>, word: Seq<char>)
    requires
        forall|i: int| 0 <= i < word.len() ==> !('A' <= #[trigger] word[i] <= 'Z'),
    ensures
        reads_as(bytes, word) == spells(bytes, word),
{
    if reads_as(bytes, word) {
        assert forall|i: int| 0 <= i < bytes.len() implies #[trigger] folded_byte(bytes[i])
            == word[i] as int by {
            assert(bytes[i] as int == word[i] as int || 'a' <= word[i] <= 'z' && bytes[i] as int
                == word[i] as int - 32);
        }
    }
    if spells(bytes, word) {
        assert forall|i: int| 0 <= i < word.len() implies bytes[i] as int
            == #[trigger] word[i] as int || 'a' <= word[i] <= 'z' && bytes[i] as int
            == word[i] as int - 32 by {
            assert(folded_byte(bytes[i]) == word[i] as int);
        }
    }
}

/// A folder's songs are those of what it holds, one after the other, and of
/// the folders in it.
pub proof fn law_folders_are_walked(a: Seq<DirEntry>, b: Seq<DirEntry>, path: SongPath, inner: Vec<
    DirEntry,
>)
    ensures
        songs_below(a + b) == songs_below(a) + songs_below(b),
        songs_below(Seq::<DirEntry>::empty()) == Seq::<Seq<u8>>::empty(),
        is_audio_path(path@) ==> songs_below(seq![DirEntry::File(path)]) == seq![path@],
        !is_audio_path(path@) ==> songs_below(seq![DirEntry::File(path)]).len() == 0,
        songs_below(seq![DirEntry::Directory(inner)]) == songs_below(inner@),
        songs_below(seq![DirEntry::Other]).len() == 0,
    decreases b.len(),
{
    lemma_walk_one(DirEntry::File(path));
    lemma_walk_one(DirEntry::Directory(inner));
    lemma_walk_one(DirEntry::Other);
    lemma_walk_both(a, b);
}

proof fn lemma_walk_one(entry: DirEntry)
    ensures
        songs_below(seq![entry]) == songs_in(entry),
{
    let one = seq![entry];
    assert(one.drop_last() =~= Seq::<DirEntry>::empty());
    assert(songs_below(one.drop_last()) =~= Seq::<Seq<u8>>::empty());
    assert(songs_below(one) =~= songs_in(entry));
}

proof fn lemma_walk_both(a: Seq<DirEntry>, b: Seq<DirEntry>)
    ensures
        songs_below(a + b) == songs_below(a) + songs_below(b),
    decreases b.len(),
{
    if b.len() == 0 {
        assert(a + b =~= a);
        assert(songs_below(a) + songs_below(b) =~= songs_below(a));
    } else {
        lemma_walk_both(a, b.drop_last());
        assert((a + b).drop_last() =~= a + b.drop_last());
        assert(songs_below(a + b) =~= songs_below(a) + songs_below(b));
    }
}

/// The songs of a folder are listed by the components of their paths, and
/// none is lost.
pub proof fn law_collected_files_are_sorted(paths: Seq<Seq<u8>>, order: Seq<int>)
    requires
        is_stable_order(path_keys(paths), order),
    ensures
        picked(paths, order).to_multiset() == paths.to_multiset(),
        forall|k: int, l: int|
            0 <= k < l < order.len() ==> {
                let first = path_parts(#[trigger] picked(paths, order)[k]);
                let second = path_parts(#[trigger] picked(paths, order)[l]);
                first == second || crate::reorder::components_before(first, second)
            },
{
    let keys = path_keys(paths);
    crate::reorder::law_stable_order_is_permutation(keys, paths, order);
    assert forall|k: int, l: int| 0 <= k < l < order.len() implies {
        let first = path_parts(#[trigger] picked(paths, order)[k]);
        let second = path_parts(#[trigger] picked(paths, order)[l]);
        first == second || crate::reorder::components_before(first, second)
    } by {
        crate::reorder::law_paths_are_sorted(keys, order, k, l);
        assert(0 <= order[k] < paths.len() && 0 <= order[l] < paths.len());
        let a = keys[order[k]];
        let b = keys[order[l]];
        assert(a.0.len() == 0 && b.0.len() == 0);
    }
}

} // verus!
