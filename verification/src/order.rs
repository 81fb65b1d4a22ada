//! Lexicographic orders and stable sorting.
use vstd::prelude::*;

verus! {

/// Where a first value stands relative to a second one.
#[derive(Debug, Clone, Copy, PartialEq, Eq)]
pub enum Placing {
    Before,
    Same,
    After,
}

/// `less` is a strict total order.
pub open spec fn strict_order<T>(less: spec_fn(T, T) -> bool) -> bool {
    &&& forall|x: T| !#[trigger] less(x, x)
    &&& forall|x: T, y: T, z: T| #[trigger] less(x, y) && #[trigger] less(y, z) ==> less(x, z)
    &&& forall|x: T, y: T| x == y || #[trigger] less(x, y) || less(y, x)
}

/// The lexicographic order of sequences over an order of their elements.
pub open spec fn lex_less<T>(a: Seq<T>, b: Seq<T>, less: spec_fn(T, T) -> bool) -> bool
    decreases a.len(),
{
    if b.len() == 0 {
        false
    } else if a.len() == 0 {
        true
    } else if a[0] == b[0] {
        lex_less(a.drop_first(), b.drop_first(), less)
    } else {
        less(a[0], b[0])
    }
}

/// Where `a` stands relative to `b` in the lexicographic order.
pub open spec fn placing<T>(a: Seq<T>, b: Seq<T>, less: spec_fn(T, T) -> bool) -> Placing {
    if lex_less(a, b, less) {
        Placing::Before
    } else if a == b {
        Placing::Same
    } else {
        Placing::After
    }
}

/// The lexicographic order as a function value.
pub open spec fn lex<T>(less: spec_fn(T, T) -> bool) -> spec_fn(Seq<T>, Seq<T>) -> bool {
    |a: Seq<T>, b: Seq<T>| lex_less(a, b, less)
}

proof fn lemma_lex_irreflexive<T>(a: Seq<T>, less: spec_fn(T, T) -> bool)
    ensures
        !lex_less(a, a, less),
    decreases a.len(),
{
    if a.len() > 0 {
        lemma_lex_irreflexive(a.drop_first(), less);
    }
}

proof fn lemma_lex_transitive<T>(a: Seq<T>, b: Seq<T>, c: Seq<T>, less: spec_fn(T, T) -> bool)
    requires
        strict_order(less),
        lex_less(a, b, less),
        lex_less(b, c, less),
    ensures
        lex_less(a, c, less),
    decreases a.len(),
{
    if a.len() > 0 {
        if a[0] == b[0] && b[0] == c[0] {
            lemma_lex_transitive(a.drop_first(), b.drop_first(), c.drop_first(), less);
        } else if a[0] != b[0] && b[0] != c[0] {
            assert(less(a[0], b[0]) && less(b[0], c[0]));
            assert(less(a[0], c[0]));
        }
    }
}

proof fn lemma_lex_total<T>(a: Seq<T>, b: Seq<T>, less: spec_fn(T, T) -> bool)
    requires
        strict_order(less),
    ensures
        a == b || lex_less(a, b, less) || lex_less(b, a, less),
    decreases a.len(),
{
    if a.len() == 0 {
        if b.len() == 0 {
            assert(a =~= b);
        }
    } else if b.len() > 0 {
        if a[0] == b[0] {
            lemma_lex_total(a.drop_first(), b.drop_first(), less);
            if a.drop_first() == b.drop_first() {
                assert(a =~= seq![a[0]] + a.drop_first());
                assert(b =~= seq![b[0]] + b.drop_first());
            }
        } else {
            assert(less(a[0], b[0]) || less(b[0], a[0]));
        }
    }
}

/// Over a strict total order of the elements, the lexicographic order is a
/// strict total order of the sequences.
pub proof fn lemma_lex_order<T>(less: spec_fn(T, T) -> bool)
    requires
        strict_order(less),
    ensures
        strict_order(lex(less)),
{
    let le = lex(less);
    assert forall|x: Seq<T>| !#[trigger] le(x, x) by {
        lemma_lex_irreflexive(x, less);
    }
    assert forall|x: Seq<T>, y: Seq<T>, z: Seq<T>| #[trigger]
        le(x, y) && #[trigger] le(y, z) implies le(x, z) by {
        lemma_lex_transitive(x, y, z, less);
    }
    assert forall|x: Seq<T>, y: Seq<T>| x == y || #[trigger] le(x, y) || le(y, x) by {
        lemma_lex_total(x, y, less);
    }
}

/// A common prefix does not bear on the order.
proof fn lemma_lex_prefix<T>(a: Seq<T>, b: Seq<T>, less: spec_fn(T, T) -> bool, k: int)
    requires
        0 <= k <= a.len(),
        k <= b.len(),
        forall|i: int| 0 <= i < k ==> a[i] == b[i],
    ensures
        lex_less(a, b, less) == lex_less(a.skip(k), b.skip(k), less),
    decreases k,
{
    if k == 0 {
        assert(a.skip(0) =~= a);
        assert(b.skip(0) =~= b);
    } else {
        let x = a.drop_first();
        let y = b.drop_first();
        assert forall|i: int| 0 <= i < k - 1 implies x[i] == y[i] by {
            assert(a[i + 1] == b[i + 1]);
        }
        lemma_lex_prefix(x, y, less, k - 1);
        assert(x.skip(k - 1) =~= a.skip(k));
        assert(y.skip(k - 1) =~= b.skip(k));
    }
}

/// The order is decided at the first position where the sequences differ.
proof fn lemma_placing_at<T>(a: Seq<T>, b: Seq<T>, less: spec_fn(T, T) -> bool, k: int)
    requires
        0 <= k <= a.len(),
        k <= b.len(),
        forall|i: int| 0 <= i < k ==> a[i] == b[i],
        k < a.len() && k < b.len() ==> a[k] != b[k],
    ensures
        lex_less(a, b, less) == (k < b.len() && (k == a.len() || less(a[k], b[k]))),
        (a == b) == (k == a.len() && k == b.len()),
{
    lemma_lex_prefix(a, b, less, k);
    if k == a.len() && k == b.len() {
        assert(a =~= b);
    }
}

/// Characters ordered by code point.
pub open spec fn char_less() -> spec_fn(char, char) -> bool {
    |x: char, y: char| x < y
}

/// Bytes ordered by value.
pub open spec fn byte_less() -> spec_fn(u8, u8) -> bool {
    |x: u8, y: u8| x < y
}

/// The kind of a path component: the root, the current directory, the parent
/// directory, then everything else.
pub open spec fn part_rank(part: Seq<u8>) -> int {
    if part == seq![47u8] {
        0
    } else if part == seq![46u8] {
        1
    } else if part == seq![46u8, 46u8] {
        2
    } else {
        3
    }
}

/// Path components ordered by kind, and by their bytes within the last kind.
pub open spec fn part_less() -> spec_fn(Seq<u8>, Seq<u8>) -> bool {
    |x: Seq<u8>, y: Seq<u8>|
        part_rank(x) < part_rank(y) || (part_rank(x) == 3 && part_rank(y) == 3 && lex_less(
            x,
            y,
            byte_less(),
        ))
}

pub proof fn lemma_part_order()
    ensures
        strict_order(part_less()),
{
    let le = part_less();
    let bytes = lex(byte_less());
    lemma_lex_order(byte_less());
    assert forall|x: Seq<u8>| !#[trigger] le(x, x) by {
        assert(!bytes(x, x));
    }
    assert forall|x: Seq<u8>, y: Seq<u8>, z: Seq<u8>| #[trigger]
        le(x, y) && #[trigger] le(y, z) implies le(x, z) by {
        if part_rank(x) == 3 {
            assert(bytes(x, y) && bytes(y, z));
        }
    }
    assert forall|x: Seq<u8>, y: Seq<u8>| x == y || #[trigger] le(x, y) || le(y, x) by {
        assert(x == y || bytes(x, y) || bytes(y, x));
    }
}

/// Where a text stands relative to another by code points.
pub fn place_chars(a: &[char], b: &[char]) -> (r: Placing)
    ensures
        r == placing(a@, b@, char_less()),
{
    let mut i: usize = 0;
    while i < a.len() && i < b.len() && a[i] == b[i]
        invariant
            i <= a@.len(),
            i <= b@.len(),
            forall|j: int| 0 <= j < i ==> a@[j] == b@[j],
        decreases a@.len() - i,
    {
        i = i + 1;
    }
    proof {
        lemma_placing_at(a@, b@, char_less(), i as int);
    }
    if i < b.len() && (i == a.len() || a[i] < b[i]) {
        Placing::Before
    } else if i == a.len() && i == b.len() {
        Placing::Same
    } else {
        Placing::After
    }
}

fn place_bytes(a: &[u8], b: &[u8]) -> (r: Placing)
    ensures
        r == placing(a@, b@, byte_less()),
{
    let mut i: usize = 0;
    while i < a.len() && i < b.len() && a[i] == b[i]
        invariant
            i <= a@.len(),
            i <= b@.len(),
            forall|j: int| 0 <= j < i ==> a@[j] == b@[j],
        decreases a@.len() - i,
    {
        i = i + 1;
    }
    proof {
        lemma_placing_at(a@, b@, byte_less(), i as int);
    }
    if i < b.len() && (i == a.len() || a[i] < b[i]) {
        Placing::Before
    } else if i == a.len() && i == b.len() {
        Placing::Same
    } else {
        Placing::After
    }
}

fn rank_of(part: &[u8]) -> (r: u8)
    ensures
        r == part_rank(part@),
{
    if part.len() == 1 && part[0] == 47 {
        assert(part@ =~= seq![47u8]);
        0
    } else if part.len() == 1 && part[0] == 46 {
        assert(part@ =~= seq![46u8]);
        1
    } else if part.len() == 2 && part[0] == 46 && part[1] == 46 {
        assert(part@ =~= seq![46u8, 46u8]);
        2
    } else {
        3
    }
}

/// The components of a path as views of vectors.
pub open spec fn parts_view(parts: Seq<Vec<u8>>) -> Seq<Seq<u8>> {
    parts.map_values(|p: Vec<u8>| p@)
}

/// Where a path component stands relative to another one.
fn place_part(a: &[u8], b: &[u8]) -> (r: Placing)
    ensures
        r is Before == part_less()(a@, b@),
        r is Same == (a@ == b@),
{
    let x = rank_of(a);
    let y = rank_of(b);
    if x < y {
        return Placing::Before;
    }
    if y < x {
        return Placing::After;
    }
    proof {
        lemma_lex_irreflexive(a@, byte_less());
    }
    if x == 3 {
        return place_bytes(a, b);
    }
    assert(a@ =~= b@);
    Placing::Same
}

/// Where a path stands relative to another one, by their components.
pub fn place_parts(a: &Vec<Vec<u8>>, b: &Vec<Vec<u8>>) -> (r: Placing)
    ensures
        r == placing(parts_view(a@), parts_view(b@), part_less()),
{
    let ghost x = parts_view(a@);
    let ghost y = parts_view(b@);
    let mut i: usize = 0;
    while i < a.len() && i < b.len()
        invariant
            x == parts_view(a@),
            y == parts_view(b@),
            i <= a@.len(),
            i <= b@.len(),
            forall|j: int| 0 <= j < i ==> x[j] == y[j],
        decreases a@.len() - i,
    {
        let here = place_part(&a[i], &b[i]);
        match here {
            Placing::Same => {
                assert(x[i as int] == y[i as int]);
                i = i + 1;
            },
            other => {
                assert(x[i as int] == a@[i as int]@ && y[i as int] == b@[i as int]@);
                proof {
                    lemma_placing_at(x, y, part_less(), i as int);
                }
                return other;
            },
        }
    }
    proof {
        lemma_placing_at(x, y, part_less(), i as int);
    }
    if i < b.len() {
        Placing::Before
    } else if i < a.len() {
        Placing::After
    } else {
        Placing::Same
    }
}

// Stable sorting.

/// What an item is sorted by: a text, then a path.
pub struct SortKey {
    pub text: Vec<char>,
    pub parts: Vec<Vec<u8>>,
}

/// The text and the path components of a sort key.
pub type KeyView = (Seq<char>, Seq<Seq<u8>>);

impl View for SortKey {
    type V = KeyView;

    open spec fn view(&self) -> KeyView {
        (self.text@, parts_view(self.parts@))
    }
}

pub open spec fn keys_view(keys: Seq<SortKey>) -> Seq<KeyView> {
    keys.map_values(|k: SortKey| k@)
}

/// Keys are ordered by their text, and by their path where that is the same.
pub open spec fn key_less() -> spec_fn(KeyView, KeyView) -> bool {
    |a: KeyView, b: KeyView|
        lex_less(a.0, b.0, char_less()) || (a.0 == b.0 && lex_less(a.1, b.1, part_less()))
}

pub proof fn lemma_key_order()
    ensures
        strict_order(key_less()),
{
    let le = key_less();
    let texts = lex(char_less());
    let paths = lex(part_less());
    lemma_lex_order(char_less());
    lemma_part_order();
    lemma_lex_order(part_less());
    assert forall|x: KeyView| !#[trigger] le(x, x) by {
        assert(!texts(x.0, x.0) && !paths(x.1, x.1));
    }
    assert forall|x: KeyView, y: KeyView, z: KeyView| #[trigger]
        le(x, y) && #[trigger] le(y, z) implies le(x, z) by {
        if texts(x.0, y.0) && texts(y.0, z.0) {
            assert(texts(x.0, z.0));
        } else if x.0 == y.0 && y.0 == z.0 {
            assert(paths(x.1, y.1) && paths(y.1, z.1));
            assert(paths(x.1, z.1));
        }
    }
    assert forall|x: KeyView, y: KeyView| x == y || #[trigger] le(x, y) || le(y, x) by {
        assert(x.0 == y.0 || texts(x.0, y.0) || texts(y.0, x.0));
        assert(x.1 == y.1 || paths(x.1, y.1) || paths(y.1, x.1));
    }
}

/// Item `i` comes before item `j`: its key is less, or the keys are the same
/// and it came first.
pub open spec fn comes_before(keys: Seq<KeyView>, i: int, j: int) -> bool {
    key_less()(keys[i], keys[j]) || (keys[i] == keys[j] && i < j)
}

/// `order` lists every item once, each before those that it comes before.
pub open spec fn is_stable_order(keys: Seq<KeyView>, order: Seq<int>) -> bool {
    is_range_order(keys, order, 0, keys.len() as int)
}

/// `order` lists the items from `lo` up to `hi` once each, sorted.
pub open spec fn is_range_order(keys: Seq<KeyView>, order: Seq<int>, lo: int, hi: int) -> bool {
    &&& order.len() == hi - lo
    &&& forall|k: int| 0 <= k < order.len() ==> lo <= #[trigger] order[k] < hi
    &&& forall|i: int| lo <= i < hi ==> #[trigger] order.contains(i)
    &&& forall|k: int, l: int|
        0 <= k < l < order.len() ==> comes_before(keys, #[trigger] order[k], #[trigger] order[l])
}

proof fn lemma_comes_before_transitive(keys: Seq<KeyView>, i: int, j: int, k: int)
    requires
        comes_before(keys, i, j),
        comes_before(keys, j, k),
    ensures
        comes_before(keys, i, k),
{
    lemma_key_order();
    let le = key_less();
    if le(keys[i], keys[j]) && le(keys[j], keys[k]) {
        assert(le(keys[i], keys[k]));
    }
}

/// Indices as mathematical integers.
pub open spec fn indices(order: Seq<usize>) -> Seq<int> {
    order.map_values(|i: usize| i as int)
}

fn key_first(a: &SortKey, b: &SortKey) -> (r: bool)
    ensures
        r == (key_less()(a@, b@) || a@ == b@),
{
    match place_chars(&a.text, &b.text) {
        Placing::Before => true,
        Placing::After => false,
        Placing::Same => match place_parts(&a.parts, &b.parts) {
            Placing::Before => true,
            Placing::Same => true,
            Placing::After => false,
        },
    }
}

/// The items of two sorted runs, the first of earlier items than the second,
/// in one sorted run.
fn merge(keys: &Vec<SortKey>, left: &Vec<usize>, right: &Vec<usize>, Ghost(lo): Ghost<int>, Ghost(mid): Ghost<int>, Ghost(hi): Ghost<int>) -> (r: Vec<usize>)
    requires
        0 <= lo <= mid <= hi <= keys@.len(),
        is_range_order(keys_view(keys@), indices(left@), lo, mid),
        is_range_order(keys_view(keys@), indices(right@), mid, hi),
    ensures
        is_range_order(keys_view(keys@), indices(r@), lo, hi),
{
    let ghost kv = keys_view(keys@);
    let ghost a = indices(left@);
    let ghost b = indices(right@);
    let mut out: Vec<usize> = Vec::new();
    let mut i: usize = 0;
    let mut j: usize = 0;
    while i < left.len() || j < right.len()
        invariant
            0 <= lo <= mid <= hi <= keys@.len(),
            kv == keys_view(keys@),
            a == indices(left@),
            b == indices(right@),
            is_range_order(kv, a, lo, mid),
            is_range_order(kv, b, mid, hi),
            i <= a.len(),
            j <= b.len(),
            out@.len() == i + j,
            forall|k: int| 0 <= k < out@.len() ==> lo <= #[trigger] indices(out@)[k] < hi,
            forall|k: int, l: int|
                0 <= k < l < out@.len() ==> comes_before(
                    kv,
                    #[trigger] indices(out@)[k],
                    #[trigger] indices(out@)[l],
                ),
            forall|k: int, p: int|
                0 <= k < out@.len() && i <= p < a.len() ==> comes_before(
                    kv,
                    #[trigger] indices(out@)[k],
                    #[trigger] a[p],
                ),
            forall|k: int, q: int|
                0 <= k < out@.len() && j <= q < b.len() ==> comes_before(
                    kv,
                    #[trigger] indices(out@)[k],
                    #[trigger] b[q],
                ),
            forall|p: int| 0 <= p < i ==> indices(out@).contains(#[trigger] a[p]),
            forall|q: int| 0 <= q < j ==> indices(out@).contains(#[trigger] b[q]),
        decreases a.len() - i + b.len() - j,
    {
        let ghost before = indices(out@);
        let from_left: bool = if i == left.len() {
            false
        } else if j == right.len() {
            true
        } else {
            assert(lo <= a[i as int] < mid && mid <= b[j as int] < hi);
            let first = key_first(&keys[left[i]], &keys[right[j]]);
            assert(kv[a[i as int]] == keys@[left@[i as int] as int]@);
            assert(kv[b[j as int]] == keys@[right@[j as int] as int]@);
            first
        };
        if from_left {
            let ghost x = a[i as int];
            assert(lo <= x < mid);
            proof {
                assert forall|q: int| j <= q < b.len() implies comes_before(
                    kv,
                    x,
                    #[trigger] b[q],
                ) by {
                    assert(mid <= b[j as int] < hi);
                    assert(comes_before(kv, x, b[j as int]));
                    if q > j {
                        lemma_comes_before_transitive(kv, x, b[j as int], b[q]);
                    }
                }
            }
            out.push(left[i]);
            assert(indices(out@) =~= before.push(x));
            i = i + 1;
        } else {
            let ghost x = b[j as int];
            assert(mid <= x < hi);
            proof {
                assert forall|p: int| i <= p < a.len() implies comes_before(
                    kv,
                    x,
                    #[trigger] a[p],
                ) by {
                    assert(lo <= a[i as int] < mid);
                    lemma_key_order();
                    let le = key_less();
                    assert(kv[x] == kv[a[i as int]] || le(kv[x], kv[a[i as int]]) || le(
                        kv[a[i as int]],
                        kv[x],
                    ));
                    assert(comes_before(kv, x, a[i as int]));
                    if p > i {
                        lemma_comes_before_transitive(kv, x, a[i as int], a[p]);
                    }
                }
            }
            out.push(right[j]);
            assert(indices(out@) =~= before.push(x));
            j = j + 1;
        }
        proof {
            let now = indices(out@);
            assert(now[now.len() - 1] == now.last());
            assert forall|v: int| before.contains(v) implies now.contains(v) by {
                let k = choose|k: int| 0 <= k < before.len() && before[k] == v;
                assert(now[k] == v);
            }
        }
    }
    proof {
        assert forall|v: int| lo <= v < hi implies #[trigger] indices(out@).contains(v) by {
            if v < mid {
                assert(a.contains(v));
            } else {
                assert(b.contains(v));
            }
        }
    }
    out
}

/// The items from `lo` up to `hi` in sorted order.
fn sort_range(keys: &Vec<SortKey>, lo: usize, hi: usize) -> (r: Vec<usize>)
    requires
        lo <= hi <= keys@.len(),
    ensures
        is_range_order(keys_view(keys@), indices(r@), lo as int, hi as int),
    decreases hi - lo,
{
    if hi - lo < 2 {
        let mut r: Vec<usize> = Vec::new();
        if lo < hi {
            r.push(lo);
            assert(indices(r@)[0] == lo);
        }
        return r;
    }
    let mid: usize = lo + (hi - lo) / 2;
    let left = sort_range(keys, lo, mid);
    let right = sort_range(keys, mid, hi);
    merge(keys, &left, &right, Ghost(lo as int), Ghost(mid as int), Ghost(hi as int))
}

/// The positions of the items in sorted order; items with the same key stay
/// in the order they came in.
pub fn stable_order(keys: &Vec<SortKey>) -> (r: Vec<usize>)
    ensures
        is_stable_order(keys_view(keys@), indices(r@)),
{
    sort_range(keys, 0, keys.len())
}

proof fn lemma_first_is_first(keys: Seq<KeyView>, a: Seq<int>, b: Seq<int>, n: int)
    requires
        is_stable_order(keys, a),
        is_stable_order(keys, b),
        0 <= n <= a.len(),
    ensures
        a.take(n) == b.take(n),
    decreases n,
{
    if n > 0 {
        lemma_first_is_first(keys, a, b, n - 1);
        let x = a[n - 1];
        let y = b[n - 1];
        assert forall|k: int| 0 <= k < n - 1 implies a[k] == b[k] by {
            assert(a.take(n - 1)[k] == b.take(n - 1)[k]);
        }
        if x != y {
            lemma_key_order();
            assert(b.contains(x));
            let k = choose|k: int| 0 <= k < b.len() && b[k] == x;
            assert(a.contains(y));
            let l = choose|l: int| 0 <= l < a.len() && a[l] == y;
            if k < n - 1 {
                assert(a[k] == x);
                assert(comes_before(keys, a[k], a[n - 1]));
                assert(false);
            }
            if l < n - 1 {
                assert(b[l] == y);
                assert(comes_before(keys, b[l], b[n - 1]));
                assert(false);
            }
            assert(comes_before(keys, b[n - 1], b[k]));
            assert(comes_before(keys, a[n - 1], a[l]));
            lemma_comes_before_transitive(keys, x, y, x);
        }
        assert(a.take(n) =~= a.take(n - 1).push(x));
        assert(b.take(n) =~= b.take(n - 1).push(y));
    }
}

/// There is one stable order of the items.
pub proof fn law_stable_order_is_unique(keys: Seq<KeyView>, a: Seq<int>, b: Seq<int>)
    requires
        is_stable_order(keys, a),
        is_stable_order(keys, b),
    ensures
        a == b,
{
    lemma_first_is_first(keys, a, b, a.len() as int);
    assert(a.take(a.len() as int) =~= a);
    assert(b.take(a.len() as int) =~= b);
}

/// Where an item with the largest index belongs among sorted ones.
proof fn lemma_place(keys: Seq<KeyView>, order: Seq<int>, item: int, k: int) -> (at: int)
    requires
        is_range_order(keys, order, 0, item),
        0 <= k <= order.len(),
        forall|l: int| k <= l < order.len() ==> comes_before(keys, item, #[trigger] order[l]),
    ensures
        0 <= at <= order.len(),
        forall|l: int| 0 <= l < at ==> comes_before(keys, #[trigger] order[l], item),
        forall|l: int| at <= l < order.len() ==> comes_before(keys, item, #[trigger] order[l]),
    decreases k,
{
    if k == 0 {
        0
    } else if comes_before(keys, order[k - 1], item) {
        assert forall|l: int| 0 <= l < k implies comes_before(
            keys,
            #[trigger] order[l],
            item,
        ) by {
            if l < k - 1 {
                lemma_comes_before_transitive(keys, order[l], order[k - 1], item);
            }
        }
        k
    } else {
        lemma_key_order();
        assert(comes_before(keys, item, order[k - 1]));
        lemma_place(keys, order, item, k - 1)
    }
}

proof fn lemma_range_order_exists(keys: Seq<KeyView>, n: int) -> (order: Seq<int>)
    requires
        0 <= n <= keys.len(),
    ensures
        is_range_order(keys, order, 0, n),
    decreases n,
{
    if n == 0 {
        Seq::empty()
    } else {
        let item = n - 1;
        let before = lemma_range_order_exists(keys, item);
        let at = lemma_place(keys, before, item, before.len() as int);
        let order = before.insert(at, item);
        assert forall|i: int| 0 <= i < n implies #[trigger] order.contains(i) by {
            if i == item {
                assert(order[at] == i);
            } else {
                assert(before.contains(i));
                let k = choose|k: int| 0 <= k < before.len() && before[k] == i;
                if k < at {
                    assert(order[k] == i);
                } else {
                    assert(order[k + 1] == i);
                }
            }
        }
        assert forall|k: int, l: int| 0 <= k < l < order.len() implies comes_before(
            keys,
            #[trigger] order[k],
            #[trigger] order[l],
        ) by {
            let x = if k < at {
                k
            } else {
                k - 1
            };
            let y = if l < at {
                l
            } else {
                l - 1
            };
            if k != at {
                assert(order[k] == before[x]);
            }
            if l != at {
                assert(order[l] == before[y]);
            }
        }
        order
    }
}

/// There always is a stable order.
pub proof fn law_stable_order_exists(keys: Seq<KeyView>)
    ensures
        exists|order: Seq<int>| is_stable_order(keys, order),
{
    let order = lemma_range_order_exists(keys, keys.len() as int);
    assert(is_stable_order(keys, order));
}

} // verus!
