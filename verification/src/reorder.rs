//! New orders for the songs of a playlist: shuffled, and sorted by title.
use vstd::prelude::*;

use crate::files::{pick_paths, picked};
use crate::order::{
    byte_less, char_less, is_stable_order, keys_view, lex_less, part_less, part_rank, stable_order,
    KeyView, SortKey,
};
use crate::path::{path_parts, paths_view, SongPath};
use crate::playlist::{copy_paths, Playlist};
use crate::text::chars_of;
use crate::title::{song_title, title_of};

verus! {

// The clock.

#[verifier::external_type_specification]
#[verifier::external_body]
pub struct ExSystemTime(std::time::SystemTime);

#[verifier::external_type_specification]
#[verifier::external_body]
pub struct ExSystemTimeError(std::time::SystemTimeError);

/// `SystemTime::now`: the time of the call. Nothing is claimed of it.
pub assume_specification[ std::time::SystemTime::now ]() -> (r: std::time::SystemTime)
;

/// `Duration::as_nanos`: the length of the duration in nanoseconds. Nothing
/// is claimed of it.
pub assume_specification[ std::time::Duration::as_nanos ](d: &std::time::Duration) -> (r: u128)
;

/// `SystemTime::duration_since` the Unix epoch. Nothing is claimed of the
/// result, which rests on the clock.
#[verifier::external_body]
fn since_epoch(time: std::time::SystemTime) -> (r: Result<
    std::time::Duration,
    std::time::SystemTimeError,
>) {
    time.duration_since(std::time::UNIX_EPOCH)
}

// Shuffling.

/// The state of the generator after one step.
pub open spec fn next_state(state: u64) -> u64 {
    let a = state ^ (state >> 12u64);
    let b = a ^ (a << 25u64);
    b ^ (b >> 27u64)
}

/// The number drawn at a state of the generator.
pub open spec fn drawn(state: u64) -> u64 {
    state.wrapping_mul(0x2545_f491_4f6c_dd1d)
}

pub open spec fn swapped<T>(items: Seq<T>, i: int, j: int) -> Seq<T> {
    items.update(i, items[j]).update(j, items[i])
}

/// The items after the exchanges for the positions from `i` down to 1, each
/// with a position up to it that is drawn.
pub open spec fn shuffled_from<T>(items: Seq<T>, i: int, state: u64) -> Seq<T>
    decreases i,
{
    if i <= 0 {
        items
    } else {
        let next = next_state(state);
        shuffled_from(swapped(items, i, drawn(next) as int % (i + 1)), i - 1, next)
    }
}

/// The first state of the generator for a seed, which is never zero.
pub open spec fn start_state(seed: u64) -> u64 {
    if seed == 0 {
        1
    } else {
        seed
    }
}

/// The items shuffled by a seed.
pub open spec fn shuffled_by<T>(items: Seq<T>, seed: u64) -> Seq<T> {
    shuffled_from(items, items.len() - 1, start_state(seed))
}

fn step(state: u64) -> (r: u64)
    ensures
        r == next_state(state),
{
    let a = state ^ (state >> 12u64);
    let b = a ^ (a << 25u64);
    b ^ (b >> 27u64)
}

fn draw(state: u64) -> (r: u64)
    ensures
        r == drawn(state),
{
    state.wrapping_mul(0x2545_f491_4f6c_dd1d)
}

proof fn lemma_swapped_multiset<T>(items: Seq<T>, i: int, j: int)
    requires
        0 <= i < items.len(),
        0 <= j < items.len(),
    ensures
        swapped(items, i, j).to_multiset() == items.to_multiset(),
{
    vstd::seq_lib::to_multiset_update(items, i, items[j]);
    vstd::seq_lib::to_multiset_update(items.update(i, items[j]), j, items[i]);
    items.to_multiset_ensures();
    assert(swapped(items, i, j).to_multiset() =~= items.to_multiset());
}

proof fn lemma_shuffled_multiset<T>(items: Seq<T>, i: int, state: u64)
    requires
        i < items.len(),
    ensures
        shuffled_from(items, i, state).to_multiset() == items.to_multiset(),
        shuffled_from(items, i, state).len() == items.len(),
    decreases i,
{
    if i > 0 {
        let next = next_state(state);
        let j = drawn(next) as int % (i + 1);
        lemma_swapped_multiset(items, i, j);
        lemma_shuffled_multiset(swapped(items, i, j), i - 1, next);
    }
}

/// Shuffling loses no song and adds none.
pub proof fn law_shuffle_is_permutation<T>(items: Seq<T>, seed: u64)
    ensures
        shuffled_by(items, seed).to_multiset() == items.to_multiset(),
        shuffled_by(items, seed).len() == items.len(),
{
    lemma_shuffled_multiset(items, items.len() - 1, start_state(seed));
}

impl Playlist {
    /// The songs shuffled by the given seed.
    pub fn shuffled_with(&self, seed: u64) -> (r: Vec<SongPath>)
        ensures
            paths_view(r@) == shuffled_by(self@.entries, seed),
            paths_view(r@).to_multiset() == self@.entries.to_multiset(),
    {
        let mut entries = copy_paths(&self.entries);
        let mut state: u64 = if seed == 0 {
            1
        } else {
            seed
        };
        let ghost all = self@.entries;
        let mut n: usize = entries.len();
        while n > 1
            invariant
                n <= entries@.len() == all.len(),
                all == self@.entries,
                n == 0 ==> all.len() == 0,
                shuffled_by(all, seed) == shuffled_from(paths_view(entries@), n - 1, state),
            decreases n,
        {
            let i: usize = n - 1;
            let ghost before = paths_view(entries@);
            state = step(state);
            let j: usize = (draw(state) % (i as u64 + 1)) as usize;
            let a = entries[i].clone();
            let b = entries[j].clone();
            entries.set(i, b);
            entries.set(j, a);
            assert(paths_view(entries@) =~= swapped(before, i as int, j as int));
            n = i;
        }
        proof {
            law_shuffle_is_permutation(all, seed);
        }
        entries
    }

    /// The songs in a random order, drawn by the clock.
    pub fn shuffled(&self) -> (r: Vec<SongPath>)
        ensures
            exists|seed: u64| paths_view(r@) == #[trigger] shuffled_by(self@.entries, seed),
            paths_view(r@).to_multiset() == self@.entries.to_multiset(),
    {
        let seed: u64 = match since_epoch(std::time::SystemTime::now()) {
            Ok(elapsed) => elapsed.as_nanos() as u64,
            Err(_) => 0x9e37_79b9_7f4a_7c15,
        };
        self.shuffled_with(seed)
    }
}

// Sorting.

/// What `str::to_lowercase` makes of a text.
pub uninterp spec fn lowercase(text: Seq<char>) -> Seq<char>;

/// `str::to_lowercase`: the lower case of the text by the Unicode tables.
#[verifier::external_body]
pub(crate) fn to_lowercase(text: &str) -> (r: String)
    ensures
        r@ == lowercase(text@),
{
    text.to_lowercase()
}

/// The texts of a list of strings.
pub open spec fn texts_view(texts: Seq<String>) -> Seq<Seq<char>> {
    texts.map_values(|t: String| t@)
}

/// The title that an entry is shown with: the cached one, else its file
/// stem.
pub open spec fn shown_title(
    entries: Seq<Seq<u8>>,
    titles: Seq<Seq<char>>,
    index: int,
) -> Seq<char> {
    if index < titles.len() {
        titles[index]
    } else {
        title_of(entries[index])
    }
}

/// What songs are sorted by: the given texts, then the paths.
pub open spec fn song_keys(entries: Seq<Seq<u8>>, texts: Seq<Seq<char>>) -> Seq<KeyView> {
    Seq::new(entries.len(), |i: int| (texts[i], path_parts(entries[i])))
}

/// The songs sorted by the given texts, then by path; songs with the same
/// text and path stay in their order.
pub open spec fn is_sorted_by(
    entries: Seq<Seq<u8>>,
    texts: Seq<Seq<char>>,
    sorted: Seq<Seq<u8>>,
) -> bool {
    exists|order: Seq<int>| #[trigger]
        is_stable_order(song_keys(entries, texts), order) && sorted == picked(entries, order)
}

/// The lower case titles of the entries.
pub open spec fn lowered_titles(
    entries: Seq<Seq<u8>>,
    titles: Seq<Seq<char>>,
) -> Seq<Seq<char>> {
    Seq::new(entries.len(), |i: int| lowercase(shown_title(entries, titles, i)))
}

impl Playlist {
    /// The songs sorted by the texts that are given for them, then by path.
    pub fn sorted_by_texts(&self, texts: &Vec<String>) -> (r: Vec<SongPath>)
        requires
            texts@.len() == self.entries@.len(),
        ensures
            is_sorted_by(self@.entries, texts_view(texts@), paths_view(r@)),
    {
        let ghost all = song_keys(self@.entries, texts_view(texts@));
        let mut keys: Vec<SortKey> = Vec::new();
        let mut i: usize = 0;
        while i < self.entries.len()
            invariant
                i <= self.entries@.len() == texts@.len(),
                all == song_keys(self@.entries, texts_view(texts@)),
                keys_view(keys@) == all.take(i as int),
            decreases self.entries@.len() - i,
        {
            let ghost before = keys_view(keys@);
            let key = SortKey {
                text: chars_of(texts[i].as_str()),
                parts: self.entries[i].parts(),
            };
            assert(all[i as int] == key@);
            keys.push(key);
            i = i + 1;
            assert(keys_view(keys@) =~= before.push(key@));
            assert(keys_view(keys@) =~= all.take(i as int));
        }
        assert(keys_view(keys@) =~= all);
        let order = stable_order(&keys);
        pick_paths(&self.entries, &order)
    }

    /// The songs sorted by their titles without regard to case, then by
    /// path. The titles are those given by position; a song without one is
    /// sorted by its file stem.
    pub fn sorted_by_titles(&self, titles: &[String]) -> (r: Vec<SongPath>)
        ensures
            is_sorted_by(
                self@.entries,
                lowered_titles(self@.entries, texts_view(titles@)),
                paths_view(r@),
            ),
    {
        let ghost all = lowered_titles(self@.entries, texts_view(titles@));
        let mut texts: Vec<String> = Vec::new();
        let mut i: usize = 0;
        while i < self.entries.len()
            invariant
                i <= self.entries@.len(),
                all == lowered_titles(self@.entries, texts_view(titles@)),
                texts_view(texts@) == all.take(i as int),
            decreases self.entries@.len() - i,
        {
            let ghost before = texts_view(texts@);
            let text = if i < titles.len() {
                to_lowercase(titles[i].as_str())
            } else {
                let stem = song_title(&self.entries[i]);
                to_lowercase(stem.as_str())
            };
            assert(all[i as int] == text@);
            texts.push(text);
            i = i + 1;
            assert(texts_view(texts@) =~= before.push(text@));
            assert(texts_view(texts@) =~= all.take(i as int));
        }
        assert(texts_view(texts@) =~= all);
        self.sorted_by_texts(&texts)
    }
}

proof fn lemma_picked_multiset<T>(items: Seq<T>, order: Seq<int>)
    requires
        order.len() == items.len(),
        forall|k: int| 0 <= k < order.len() ==> 0 <= #[trigger] order[k] < items.len(),
        order.no_duplicates(),
    ensures
        picked(items, order).to_multiset() == items.to_multiset(),
    decreases items.len(),
{
    if items.len() > 0 {
        let n = items.len() as int;
        // The position that holds the last item.
        assert(exists|k: int| 0 <= k < order.len() && order[k] == n - 1) by {
            if forall|k: int| 0 <= k < order.len() ==> order[k] != n - 1 {
                lemma_no_room(order, n - 1);
            }
        }
        let at = choose|k: int| 0 <= k < order.len() && order[k] == n - 1;
        let front = items.drop_last();
        let rest = order.remove(at);
        assert forall|k: int| 0 <= k < rest.len() implies 0 <= #[trigger] rest[k] < front.len() by {
            if k < at {
                assert(rest[k] == order[k]);
            } else {
                assert(rest[k] == order[k + 1]);
            }
        }
        assert(rest.no_duplicates());
        lemma_picked_multiset(front, rest);
        let whole = picked(items, order);
        assert(whole.remove(at) =~= picked(front, rest));
        vstd::seq_lib::to_multiset_remove(whole, at);
        vstd::seq_lib::to_multiset_build(front, items.last());
        assert(front.push(items.last()) =~= items);
        whole.to_multiset_ensures();
        assert(whole.to_multiset().contains(whole[at])) by {
            assert(whole.contains(whole[at]));
        }
        assert(whole.to_multiset() =~= picked(front, rest).to_multiset().insert(items.last()));
        assert(whole.to_multiset() =~= items.to_multiset());
    } else {
        assert(picked(items, order) =~= items);
    }
}

/// More distinct positions than there are do not exist.
proof fn lemma_no_room(order: Seq<int>, bound: int)
    requires
        order.no_duplicates(),
        forall|k: int| 0 <= k < order.len() ==> 0 <= #[trigger] order[k] < bound,
        bound >= 0,
    ensures
        order.len() <= bound,
    decreases bound,
{
    if order.len() > 0 {
        if bound == 0 {
            assert(0 <= order[0] < bound);
        } else if exists|k: int| 0 <= k < order.len() && order[k] == bound - 1 {
            let at = choose|k: int| 0 <= k < order.len() && order[k] == bound - 1;
            let rest = order.remove(at);
            assert forall|k: int| 0 <= k < rest.len() implies 0 <= #[trigger] rest[k] < bound
                - 1 by {
                if k < at {
                    assert(rest[k] == order[k]);
                } else {
                    assert(rest[k] == order[k + 1]);
                }
            }
            lemma_no_room(rest, bound - 1);
        } else {
            lemma_no_room(order, bound - 1);
        }
    }
}

/// A stable order lists no item twice, so that sorting loses none.
pub proof fn law_stable_order_is_permutation<T>(keys: Seq<KeyView>, items: Seq<T>, order: Seq<int>)
    requires
        keys.len() == items.len(),
        is_stable_order(keys, order),
    ensures
        picked(items, order).to_multiset() == items.to_multiset(),
        picked(items, order).len() == items.len(),
{
    crate::order::lemma_key_order();
    assert(order.no_duplicates()) by {
        assert forall|k: int, l: int|
            0 <= k < order.len() && 0 <= l < order.len() && k != l implies order[k] != order[l] by {
            if k < l {
                assert(crate::order::comes_before(keys, order[k], order[l]));
            } else {
                assert(crate::order::comes_before(keys, order[l], order[k]));
            }
        }
    }
    lemma_picked_multiset(items, order);
}

/// Sorting loses no song and adds none, and there is one sorted order.
pub proof fn law_sort_is_permutation(
    entries: Seq<Seq<u8>>,
    texts: Seq<Seq<char>>,
    a: Seq<Seq<u8>>,
    b: Seq<Seq<u8>>,
)
    requires
        is_sorted_by(entries, texts, a),
        is_sorted_by(entries, texts, b),
    ensures
        a.to_multiset() == entries.to_multiset(),
        a.len() == entries.len(),
        a == b,
{
    let keys = song_keys(entries, texts);
    let x = choose|order: Seq<int>| #[trigger]
        is_stable_order(keys, order) && a == picked(entries, order);
    let y = choose|order: Seq<int>| #[trigger]
        is_stable_order(keys, order) && b == picked(entries, order);
    law_stable_order_is_permutation(keys, entries, x);
    crate::order::law_stable_order_is_unique(keys, x, y);
}

/// The songs sorted by the given texts, then by path.
pub open spec fn sorted_songs(entries: Seq<Seq<u8>>, texts: Seq<Seq<char>>) -> Seq<Seq<u8>> {
    choose|sorted: Seq<Seq<u8>>| is_sorted_by(entries, texts, sorted)
}

pub proof fn lemma_sorted_songs(
    entries: Seq<Seq<u8>>,
    texts: Seq<Seq<char>>,
    sorted: Seq<Seq<u8>>,
)
    requires
        is_sorted_by(entries, texts, sorted),
    ensures
        sorted == sorted_songs(entries, texts),
{
    law_sort_is_permutation(entries, texts, sorted, sorted_songs(entries, texts));
}

/// There always is a sorted order.
pub proof fn lemma_sorted_songs_exist(entries: Seq<Seq<u8>>, texts: Seq<Seq<char>>)
    ensures
        is_sorted_by(entries, texts, sorted_songs(entries, texts)),
{
    let keys = song_keys(entries, texts);
    crate::order::law_stable_order_exists(keys);
    let order = choose|order: Seq<int>| is_stable_order(keys, order);
    assert(is_sorted_by(entries, texts, picked(entries, order)));
}

// What a sorted playlist looks like.

/// The first text comes before the second in a dictionary: up to some place
/// they are the same, and there it ends, or has the smaller character.
pub open spec fn spelled_before(a: Seq<char>, b: Seq<char>) -> bool {
    exists|p: int|
        {
            &&& 0 <= p <= a.len()
            &&& p < b.len()
            &&& #[trigger] a.take(p) == b.take(p)
            &&& p == a.len() || a[p] < b[p]
        }
}

/// The same for bytes.
pub open spec fn bytes_before(a: Seq<u8>, b: Seq<u8>) -> bool {
    exists|p: int|
        {
            &&& 0 <= p <= a.len()
            &&& p < b.len()
            &&& #[trigger] a.take(p) == b.take(p)
            &&& p == a.len() || a[p] < b[p]
        }
}

/// The root comes before `.`, that before `..`, and that before names, which
/// come by their bytes.
pub open spec fn component_before(a: Seq<u8>, b: Seq<u8>) -> bool {
    let root = seq![47u8];
    let here = seq![46u8];
    let up = seq![46u8, 46u8];
    ||| a == root && b != root
    ||| a == here && b != root && b != here
    ||| a == up && b != root && b != here && b != up
    ||| a != root && a != here && a != up && b != root && b != here && b != up && bytes_before(a, b)
}

/// Paths come by their components, from the first one on.
pub open spec fn components_before(a: Seq<Seq<u8>>, b: Seq<Seq<u8>>) -> bool {
    exists|p: int|
        {
            &&& 0 <= p <= a.len()
            &&& p < b.len()
            &&& #[trigger] a.take(p) == b.take(p)
            &&& p == a.len() || component_before(a[p], b[p])
        }
}

proof fn lemma_spelled_before(a: Seq<char>, b: Seq<char>)
    requires
        lex_less(a, b, char_less()),
    ensures
        spelled_before(a, b),
{
    let p = lemma_lex_place(a, b, char_less());
    assert(a.take(p) == b.take(p));
}

proof fn lemma_bytes_before(a: Seq<u8>, b: Seq<u8>)
    requires
        lex_less(a, b, byte_less()),
    ensures
        bytes_before(a, b),
{
    let p = lemma_lex_place(a, b, byte_less());
    assert(a.take(p) == b.take(p));
}

proof fn lemma_components_before(a: Seq<Seq<u8>>, b: Seq<Seq<u8>>)
    requires
        lex_less(a, b, part_less()),
    ensures
        components_before(a, b),
{
    let p = lemma_lex_place(a, b, part_less());
    assert(a.take(p) == b.take(p));
    if p < a.len() {
        let x = a[p];
        let y = b[p];
        assert(part_less()(x, y));
        assert(seq![47u8] != seq![46u8]) by {
            assert(seq![47u8][0] != seq![46u8][0]);
        }
        assert(seq![46u8, 46u8].len() == 2 && seq![46u8].len() == 1 && seq![47u8].len() == 1);
        if part_rank(x) == 3 && part_rank(y) == 3 {
            lemma_bytes_before(x, y);
        }
    }
}

/// Where two sequences are told apart.
proof fn lemma_lex_place<T>(a: Seq<T>, b: Seq<T>, less: spec_fn(T, T) -> bool) -> (p: int)
    requires
        lex_less(a, b, less),
    ensures
        0 <= p <= a.len(),
        p < b.len(),
        a.take(p) == b.take(p),
        p == a.len() || less(a[p], b[p]),
    decreases a.len(),
{
    if a.len() == 0 || a[0] != b[0] {
        assert(a.take(0) =~= b.take(0));
        0
    } else {
        let p = lemma_lex_place(a.drop_first(), b.drop_first(), less) + 1;
        assert(a.take(p) =~= seq![a[0]] + a.drop_first().take(p - 1));
        assert(b.take(p) =~= seq![b[0]] + b.drop_first().take(p - 1));
        p
    }
}

/// The order of sorted songs, by their places before: every song is listed
/// once, and of two songs the first has the title that comes first, letter by
/// letter and without regard to case; with the same title, the path that
/// comes first; with the same path too, the place that came first. Titles are
/// those that are shown, and file stems where there is none.
pub proof fn law_songs_are_sorted_by_title(
    entries: Seq<Seq<u8>>,
    titles: Seq<Seq<char>>,
    sorted: Seq<Seq<u8>>,
) -> (order: Seq<int>)
    requires
        is_sorted_by(entries, lowered_titles(entries, titles), sorted),
    ensures
        sorted.len() == entries.len(),
        order.len() == entries.len(),
        order.no_duplicates(),
        forall|k: int|
            0 <= k < order.len() ==> 0 <= #[trigger] order[k] < entries.len() && sorted[k]
                == entries[order[k]],
        forall|k: int, l: int|
            0 <= k < l < order.len() ==> {
                let i = #[trigger] order[k];
                let j = #[trigger] order[l];
                let first = lowercase(
                    if i < titles.len() {
                        titles[i]
                    } else {
                        title_of(entries[i])
                    },
                );
                let second = lowercase(
                    if j < titles.len() {
                        titles[j]
                    } else {
                        title_of(entries[j])
                    },
                );
                let path = path_parts(entries[i]);
                let other = path_parts(entries[j]);
                ||| spelled_before(first, second)
                ||| first == second && components_before(path, other)
                ||| first == second && path == other && i < j
            },
{
    let texts = lowered_titles(entries, titles);
    let keys = song_keys(entries, texts);
    let order = choose|order: Seq<int>| #[trigger]
        is_stable_order(keys, order) && sorted == picked(entries, order);
    crate::order::lemma_key_order();
    assert forall|k: int, l: int| 0 <= k < order.len() && 0 <= l < order.len() && k != l implies order[k]
        != order[l] by {
        if k < l {
            assert(crate::order::comes_before(keys, order[k], order[l]));
        } else {
            assert(crate::order::comes_before(keys, order[l], order[k]));
        }
    }
    assert forall|k: int, l: int| 0 <= k < l < order.len() implies {
        let i = #[trigger] order[k];
        let j = #[trigger] order[l];
        ||| spelled_before(texts[i], texts[j])
        ||| texts[i] == texts[j] && components_before(path_parts(entries[i]), path_parts(entries[j]))
        ||| texts[i] == texts[j] && path_parts(entries[i]) == path_parts(entries[j]) && i < j
    } by {
        let i = order[k];
        let j = order[l];
        assert(crate::order::comes_before(keys, i, j));
        assert(keys[i] == (texts[i], path_parts(entries[i])));
        assert(keys[j] == (texts[j], path_parts(entries[j])));
        if lex_less(texts[i], texts[j], char_less()) {
            lemma_spelled_before(texts[i], texts[j]);
        } else if lex_less(path_parts(entries[i]), path_parts(entries[j]), part_less()) {
            lemma_components_before(path_parts(entries[i]), path_parts(entries[j]));
        }
    }
    order
}

/// Files that are found in a folder are listed by their paths.
pub proof fn law_paths_are_sorted(keys: Seq<KeyView>, order: Seq<int>, k: int, l: int)
    requires
        is_stable_order(keys, order),
        0 <= k < l < order.len(),
    ensures
        ({
            let a = keys[order[k]];
            let b = keys[order[l]];
            ||| spelled_before(a.0, b.0)
            ||| a.0 == b.0 && components_before(a.1, b.1)
            ||| a == b && order[k] < order[l]
        }),
{
    assert(crate::order::comes_before(keys, order[k], order[l]));
    let a = keys[order[k]];
    let b = keys[order[l]];
    if lex_less(a.0, b.0, char_less()) {
        lemma_spelled_before(a.0, b.0);
    } else if a.0 == b.0 && lex_less(a.1, b.1, part_less()) {
        lemma_components_before(a.1, b.1);
    }
}

/// A shuffle draws the song of the last place among all songs, and goes on
/// with those before it: the number drawn is that of an xorshift generator
/// with the given seed, which 1 stands for where it is 0.
pub proof fn law_shuffle_draws_the_last_song<T>(items: Seq<T>, seed: u64)
    requires
        items.len() > 1,
    ensures
        ({
            let state = if seed == 0 {
                1u64
            } else {
                seed
            };
            let a = state ^ (state >> 12u64);
            let b = a ^ (a << 25u64);
            let next = b ^ (b >> 27u64);
            let j = next.wrapping_mul(0x2545_f491_4f6c_dd1d) as int % items.len() as int;
            let n = items.len() - 1;
            let after = shuffled_by(items, seed);
            &&& after.last() == items[j]
            &&& after == shuffled_from(items.update(n, items[j]).update(j, items[n]), n - 1, next)
        }),
{
    let n = items.len() - 1;
    let next = next_state(start_state(seed));
    let j = drawn(next) as int % (n + 1);
    lemma_shuffled_keeps_rest(swapped(items, n, j), n - 1, next, n);
}

/// The exchanges up to a place leave those after it alone.
proof fn lemma_shuffled_keeps_rest<T>(items: Seq<T>, i: int, state: u64, k: int)
    requires
        0 <= i < k < items.len(),
    ensures
        shuffled_from(items, i, state)[k] == items[k],
        shuffled_from(items, i, state).len() == items.len(),
    decreases i,
{
    if i > 0 {
        let next = next_state(state);
        let j = drawn(next) as int % (i + 1);
        lemma_shuffled_keeps_rest(swapped(items, i, j), i - 1, next, k);
    }
}

/// Every step of a shuffle is drawn in the same way from the places that are
/// left.
pub proof fn law_shuffle_goes_on<T>(items: Seq<T>, i: int, state: u64)
    requires
        0 <= i < items.len(),
    ensures
        i == 0 ==> shuffled_from(items, i, state) == items,
        i > 0 ==> {
            let a = state ^ (state >> 12u64);
            let b = a ^ (a << 25u64);
            let next = b ^ (b >> 27u64);
            let j = next.wrapping_mul(0x2545_f491_4f6c_dd1d) as int % (i + 1);
            shuffled_from(items, i, state) == shuffled_from(
                items.update(i, items[j]).update(j, items[i]),
                i - 1,
                next,
            )
        },
{
}

} // verus!
