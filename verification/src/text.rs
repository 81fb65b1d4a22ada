//! Text as sequences of characters: trimming, splitting, searching, ASCII
//! case folding and decimal numbers.
use vstd::prelude::*;

verus! {

/// `String::push`: the character is appended at the end of the string.
pub assume_specification[ String::push ](s: &mut String, c: char)
    ensures
        final(s)@ == old(s)@.push(c),
;

/// The characters with the Unicode property `White_Space`.
pub open spec fn is_space(c: char) -> bool {
    ||| '\u{9}' <= c <= '\u{d}'
    ||| c == ' '
    ||| c == '\u{85}'
    ||| c == '\u{a0}'
    ||| c == '\u{1680}'
    ||| '\u{2000}' <= c <= '\u{200a}'
    ||| c == '\u{2028}'
    ||| c == '\u{2029}'
    ||| c == '\u{202f}'
    ||| c == '\u{205f}'
    ||| c == '\u{3000}'
}

pub fn is_whitespace(c: char) -> (r: bool)
    ensures
        r == is_space(c),
{
    ('\u{9}' <= c && c <= '\u{d}') || c == ' ' || c == '\u{85}' || c == '\u{a0}' || c == '\u{1680}'
        || ('\u{2000}' <= c && c <= '\u{200a}') || c == '\u{2028}' || c == '\u{2029}'
        || c == '\u{202f}' || c == '\u{205f}' || c == '\u{3000}'
}

/// The code point of a character.
pub fn code_of(c: char) -> (r: u32)
    ensures
        r == c as int,
{
    c as u32
}

/// The characters of a string.
pub fn chars_of(s: &str) -> (r: Vec<char>)
    ensures
        r@ == s@,
{
    let mut r: Vec<char> = Vec::new();
    for c in it: s.chars()
        invariant
            it.seq() == s@,
            r@ == s@.take(it.index() as int),
    {
        r.push(c);
    }
    assert(s@.take(s@.len() as int) =~= s@);
    r
}

/// The string made of the given characters.
pub fn text_of(cs: &[char]) -> (r: String)
    ensures
        r@ == cs@,
{
    let mut r = String::new();
    push_chars(&mut r, cs);
    r
}

/// Appends the given characters to a string.
pub fn push_chars(s: &mut String, cs: &[char])
    ensures
        final(s)@ == old(s)@ + cs@,
{
    let mut i: usize = 0;
    while i < cs.len()
        invariant
            i <= cs@.len(),
            s@ == old(s)@ + cs@.take(i as int),
        decreases cs@.len() - i,
    {
        s.push(cs[i]);
        i = i + 1;
    }
    assert(cs@.take(cs@.len() as int) =~= cs@);
}

pub fn same_chars(a: &[char], b: &[char]) -> (r: bool)
    ensures
        r == (a@ == b@),
{
    if a.len() != b.len() {
        return false;
    }
    let mut i: usize = 0;
    while i < a.len()
        invariant
            i <= a@.len(),
            a@.len() == b@.len(),
            forall|j: int| 0 <= j < i ==> a@[j] == b@[j],
        decreases a@.len() - i,
    {
        if a[i] != b[i] {
            return false;
        }
        i = i + 1;
    }
    assert(a@ =~= b@);
    true
}

pub fn same_text(a: &str, b: &str) -> (r: bool)
    ensures
        r == (a@ == b@),
{
    let x = chars_of(a);
    let y = chars_of(b);
    same_chars(&x, &y)
}

/// Whether the characters are those of `word`.
pub fn key_is(key: &[char], word: &str) -> (r: bool)
    ensures
        r == (key@ == word@),
{
    let cs = chars_of(word);
    same_chars(key, &cs)
}

// Trimming.

/// A class of characters that is trimmed from the two ends of a text.
#[derive(Debug, Clone, Copy, PartialEq, Eq)]
pub enum CharClass {
    /// White space.
    Space,
    /// White space and the separators `-`, `|` and `~`.
    Separator,
}

impl CharClass {
    pub open spec fn has(self, c: char) -> bool {
        match self {
            CharClass::Space => is_space(c),
            CharClass::Separator => is_space(c) || c == '-' || c == '|' || c == '~',
        }
    }

    pub fn holds(self, c: char) -> (r: bool)
        ensures
            r == self.has(c),
    {
        match self {
            CharClass::Space => is_whitespace(c),
            CharClass::Separator => is_whitespace(c) || c == '-' || c == '|' || c == '~',
        }
    }
}

pub open spec fn skip_front(s: Seq<char>, class: CharClass) -> Seq<char>
    decreases s.len(),
{
    if s.len() > 0 && class.has(s[0]) {
        skip_front(s.drop_first(), class)
    } else {
        s
    }
}

pub open spec fn skip_back(s: Seq<char>, class: CharClass) -> Seq<char>
    decreases s.len(),
{
    if s.len() > 0 && class.has(s.last()) {
        skip_back(s.drop_last(), class)
    } else {
        s
    }
}

/// The text without the characters of `class` at its two ends.
pub open spec fn stripped(s: Seq<char>, class: CharClass) -> Seq<char> {
    skip_back(skip_front(s, class), class)
}

/// The text without the white space at its two ends.
pub open spec fn trimmed(s: Seq<char>) -> Seq<char> {
    stripped(s, CharClass::Space)
}

proof fn lemma_skip_front_at(s: Seq<char>, class: CharClass, k: int)
    requires
        0 <= k <= s.len(),
        forall|i: int| 0 <= i < k ==> class.has(s[i]),
        k == s.len() || !class.has(s[k]),
    ensures
        skip_front(s, class) == s.skip(k),
    decreases k,
{
    if k > 0 {
        lemma_skip_front_at(s.drop_first(), class, k - 1);
        assert(s.drop_first().skip(k - 1) =~= s.skip(k));
    } else {
        assert(s.skip(0) =~= s);
    }
}

proof fn lemma_skip_back_at(s: Seq<char>, class: CharClass, k: int)
    requires
        0 <= k <= s.len(),
        forall|i: int| k <= i < s.len() ==> class.has(s[i]),
        k == 0 || !class.has(s[k - 1]),
    ensures
        skip_back(s, class) == s.take(k),
    decreases s.len() - k,
{
    if k < s.len() {
        lemma_skip_back_at(s.drop_last(), class, k);
        assert(s.drop_last().take(k) =~= s.take(k));
    } else {
        assert(s.take(k) =~= s);
    }
}

/// A text is left as it is by stripping exactly if it is empty or has no
/// character of the class at either end.
pub proof fn lemma_stripped_fixed(s: Seq<char>, class: CharClass)
    ensures
        stripped(s, class) == s <==> (s.len() == 0 || (!class.has(s[0]) && !class.has(s.last()))),
{
    lemma_stripped_ends(s, class);
    if s.len() > 0 && !class.has(s[0]) && !class.has(s.last()) {
        assert(skip_front(s, class) == s);
    }
}

/// A stripped text has no character of the class at either end, and is no
/// longer than the text.
pub proof fn lemma_stripped_ends(s: Seq<char>, class: CharClass)
    ensures
        ({
            let t = stripped(s, class);
            &&& t.len() <= s.len()
            &&& t.len() > 0 ==> !class.has(t[0]) && !class.has(t.last())
        }),
{
    lemma_skip_front_end(s, class);
    lemma_skip_back_end(skip_front(s, class), class);
}

/// What is stripped from the two ends of a text is of the class.
pub proof fn lemma_stripped_parts(s: Seq<char>, class: CharClass) -> (r: (Seq<char>, Seq<char>))
    ensures
        s == r.0 + stripped(s, class) + r.1,
        forall|i: int| 0 <= i < r.0.len() ==> class.has(#[trigger] r.0[i]),
        forall|i: int| 0 <= i < r.1.len() ==> class.has(#[trigger] r.1[i]),
{
    let before = lemma_front_part(s, class);
    let rest = skip_front(s, class);
    let after = lemma_back_part(rest, class);
    assert(s =~= before + stripped(s, class) + after);
    (before, after)
}

proof fn lemma_front_part(s: Seq<char>, class: CharClass) -> (r: Seq<char>)
    ensures
        s == r + skip_front(s, class),
        forall|i: int| 0 <= i < r.len() ==> class.has(#[trigger] r[i]),
    decreases s.len(),
{
    if s.len() > 0 && class.has(s[0]) {
        let rest = lemma_front_part(s.drop_first(), class);
        let r = seq![s[0]] + rest;
        assert(s =~= seq![s[0]] + s.drop_first());
        assert(s =~= r + skip_front(s, class));
        r
    } else {
        assert(s =~= Seq::<char>::empty() + s);
        Seq::empty()
    }
}

proof fn lemma_back_part(s: Seq<char>, class: CharClass) -> (r: Seq<char>)
    ensures
        s == skip_back(s, class) + r,
        forall|i: int| 0 <= i < r.len() ==> class.has(#[trigger] r[i]),
    decreases s.len(),
{
    if s.len() > 0 && class.has(s.last()) {
        let rest = lemma_back_part(s.drop_last(), class);
        let r = rest.push(s.last());
        assert(s =~= s.drop_last().push(s.last()));
        assert(s =~= skip_back(s, class) + r);
        r
    } else {
        assert(s =~= s + Seq::<char>::empty());
        Seq::empty()
    }
}

proof fn lemma_skip_front_end(s: Seq<char>, class: CharClass)
    ensures
        skip_front(s, class).len() <= s.len(),
        skip_front(s, class).len() > 0 ==> !class.has(skip_front(s, class)[0]),
    decreases s.len(),
{
    if s.len() > 0 && class.has(s[0]) {
        lemma_skip_front_end(s.drop_first(), class);
    }
}

proof fn lemma_skip_back_end(s: Seq<char>, class: CharClass)
    ensures
        skip_back(s, class).len() <= s.len(),
        skip_back(s, class).is_prefix_of(s),
        skip_back(s, class).len() > 0 ==> !class.has(skip_back(s, class).last()),
    decreases s.len(),
{
    if s.len() > 0 && class.has(s.last()) {
        lemma_skip_back_end(s.drop_last(), class);
    }
}

/// A text before one that does not begin with the class is skipped alone.
pub proof fn lemma_skip_front_concat(a: Seq<char>, b: Seq<char>, class: CharClass)
    requires
        b.len() == 0 || !class.has(b[0]),
    ensures
        skip_front(a + b, class) == skip_front(a, class) + b,
    decreases a.len(),
{
    if a.len() > 0 && class.has(a[0]) {
        assert((a + b).drop_first() =~= a.drop_first() + b);
        lemma_skip_front_concat(a.drop_first(), b, class);
    } else if a.len() == 0 {
        assert(a + b =~= b);
    }
}

/// The characters without those of `class` at the front.
pub fn strip_front(cs: &[char], class: CharClass) -> (r: Vec<char>)
    ensures
        r@ == skip_front(cs@, class),
{
    let mut lo: usize = 0;
    while lo < cs.len() && class.holds(cs[lo])
        invariant
            lo <= cs@.len(),
            forall|i: int| 0 <= i < lo ==> class.has(cs@[i]),
        decreases cs@.len() - lo,
    {
        lo = lo + 1;
    }
    proof {
        lemma_skip_front_at(cs@, class, lo as int);
    }
    let r = sub_chars(cs, lo, cs.len());
    assert(r@ =~= cs@.skip(lo as int));
    r
}

/// The characters without those of `class` at the two ends.
pub fn strip_chars(cs: &[char], class: CharClass) -> (r: Vec<char>)
    ensures
        r@ == stripped(cs@, class),
{
    let mut lo: usize = 0;
    while lo < cs.len() && class.holds(cs[lo])
        invariant
            lo <= cs@.len(),
            forall|i: int| 0 <= i < lo ==> class.has(cs@[i]),
        decreases cs@.len() - lo,
    {
        lo = lo + 1;
    }
    let ghost front = cs@.skip(lo as int);
    proof {
        lemma_skip_front_at(cs@, class, lo as int);
    }
    let mut hi: usize = cs.len();
    while hi > lo && class.holds(cs[hi - 1])
        invariant
            lo <= hi <= cs@.len(),
            front == cs@.skip(lo as int),
            forall|i: int| hi - lo <= i < front.len() ==> class.has(front[i]),
        decreases hi,
    {
        hi = hi - 1;
    }
    proof {
        lemma_skip_back_at(front, class, hi - lo);
    }
    let r = sub_chars(cs, lo, hi);
    assert(r@ =~= front.take(hi - lo));
    r
}

/// The characters at the positions from `lo` up to `hi`.
pub fn sub_chars(cs: &[char], lo: usize, hi: usize) -> (r: Vec<char>)
    requires
        lo <= hi <= cs@.len(),
    ensures
        r@ == cs@.subrange(lo as int, hi as int),
{
    let mut r: Vec<char> = Vec::new();
    let mut i: usize = lo;
    while i < hi
        invariant
            lo <= i <= hi <= cs@.len(),
            r@ == cs@.subrange(lo as int, i as int),
        decreases hi - i,
    {
        r.push(cs[i]);
        i = i + 1;
    }
    r
}

/// The text without the white space at its two ends.
pub fn trim(s: &str) -> (r: String)
    ensures
        r@ == trimmed(s@),
{
    let cs = chars_of(s);
    let t = strip_chars(&cs, CharClass::Space);
    text_of(&t)
}

// Splitting and searching.

/// The pieces of `s` between the occurrences of `sep`; one more than there
/// are occurrences.
pub open spec fn split_on<T>(s: Seq<T>, sep: T) -> Seq<Seq<T>>
    decreases s.len(),
{
    if s.len() == 0 {
        seq![s]
    } else {
        let before = split_on(s.drop_last(), sep);
        if s.last() == sep {
            before.push(Seq::empty())
        } else {
            before.drop_last().push(before.last().push(s.last()))
        }
    }
}

pub proof fn lemma_split_len<T>(s: Seq<T>, sep: T)
    ensures
        split_on(s, sep).len() > 0,
    decreases s.len(),
{
    if s.len() > 0 {
        lemma_split_len(s.drop_last(), sep);
    }
}

/// A text without the separator is one piece.
pub proof fn lemma_split_single<T>(s: Seq<T>, sep: T)
    requires
        !s.contains(sep),
    ensures
        split_on(s, sep) == seq![s],
    decreases s.len(),
{
    if s.len() > 0 {
        let front = s.drop_last();
        assert(!front.contains(sep)) by {
            if front.contains(sep) {
                let i = choose|i: int| 0 <= i < front.len() && front[i] == sep;
                assert(s[i] == sep);
            }
        }
        lemma_split_single(front, sep);
        assert(s.last() == s[s.len() - 1]);
        assert(front.push(s.last()) =~= s);
        assert(split_on(s, sep) =~= seq![s]);
    } else {
        assert(split_on(s, sep) =~= seq![s]);
    }
}

/// A separator between two texts separates their pieces.
pub proof fn lemma_split_concat<T>(a: Seq<T>, sep: T, b: Seq<T>)
    ensures
        split_on(a.push(sep) + b, sep) == split_on(a, sep) + split_on(b, sep),
    decreases b.len(),
{
    let whole = a.push(sep) + b;
    lemma_split_len(a, sep);
    if b.len() == 0 {
        assert(whole =~= a.push(sep));
        assert(whole.drop_last() =~= a);
        assert(b =~= Seq::<T>::empty());
        assert(split_on(whole, sep) =~= split_on(a, sep) + split_on(b, sep));
    } else {
        let front = b.drop_last();
        lemma_split_concat(a, sep, front);
        lemma_split_len(front, sep);
        assert(whole.drop_last() =~= a.push(sep) + front);
        assert(whole.last() == b.last());
        assert(split_on(whole, sep) =~= split_on(a, sep) + split_on(b, sep));
    }
}

/// The pieces of a text as views of vectors.
pub open spec fn pieces_view(pieces: Seq<Vec<char>>) -> Seq<Seq<char>> {
    pieces.map_values(|p: Vec<char>| p@)
}

/// The pieces of `cs` between the occurrences of `sep`.
pub fn split_chars(cs: &[char], sep: char) -> (r: Vec<Vec<char>>)
    ensures
        pieces_view(r@) == split_on(cs@, sep),
{
    let mut done: Vec<Vec<char>> = Vec::new();
    let mut last: Vec<char> = Vec::new();
    let mut i: usize = 0;
    assert(pieces_view(done@).push(last@) =~= split_on(cs@.take(0), sep)) by {
        assert(cs@.take(0) =~= Seq::<char>::empty());
    }
    while i < cs.len()
        invariant
            i <= cs@.len(),
            pieces_view(done@).push(last@) == split_on(cs@.take(i as int), sep),
        decreases cs@.len() - i,
    {
        let ghost before = pieces_view(done@).push(last@);
        proof {
            assert(cs@.take(i as int + 1).drop_last() =~= cs@.take(i as int));
            assert(before.drop_last() =~= pieces_view(done@));
        }
        let c = cs[i];
        if c == sep {
            done.push(last);
            last = Vec::new();
            assert(pieces_view(done@) =~= before);
        } else {
            last.push(c);
        }
        i = i + 1;
        assert(pieces_view(done@).push(last@) =~= split_on(cs@.take(i as int), sep));
    }
    assert(cs@.take(cs@.len() as int) =~= cs@);
    let ghost before = pieces_view(done@).push(last@);
    done.push(last);
    assert(pieces_view(done@) =~= before);
    done
}

/// The first position at or after `from` where `c` stands in `s`; the length
/// of `s` where it stands nowhere.
pub open spec fn find_from(s: Seq<char>, c: char, from: int) -> int
    decreases s.len() - from,
{
    if from >= s.len() {
        s.len() as int
    } else if s[from] == c {
        from
    } else {
        find_from(s, c, from + 1)
    }
}

pub proof fn lemma_find_from(s: Seq<char>, c: char, from: int, at: int)
    requires
        0 <= from <= at <= s.len(),
        forall|i: int| from <= i < at ==> s[i] != c,
        at == s.len() || s[at] == c,
    ensures
        find_from(s, c, from) == at,
    decreases at - from,
{
    if from < at {
        lemma_find_from(s, c, from + 1, at);
    }
}

pub proof fn lemma_find_from_bounds(s: Seq<char>, c: char, from: int)
    requires
        0 <= from <= s.len(),
    ensures
        from <= find_from(s, c, from) <= s.len(),
        find_from(s, c, from) < s.len() ==> s[find_from(s, c, from)] == c,
        forall|i: int| from <= i < find_from(s, c, from) ==> s[i] != c,
    decreases s.len() - from,
{
    if from < s.len() && s[from] != c {
        lemma_find_from_bounds(s, c, from + 1);
    }
}

/// Where `c` first stands in `cs` at or after `from`, else the length.
pub fn find_char(cs: &[char], c: char, from: usize) -> (r: usize)
    requires
        from <= cs@.len(),
    ensures
        r == find_from(cs@, c, from as int),
        from <= r <= cs@.len(),
{
    let mut i: usize = from;
    while i < cs.len() && cs[i] != c
        invariant
            from <= i <= cs@.len(),
            forall|j: int| from <= j < i ==> cs@[j] != c,
        decreases cs@.len() - i,
    {
        i = i + 1;
    }
    proof {
        lemma_find_from(cs@, c, from as int, i as int);
    }
    i
}

/// Whether `part` stands somewhere in `s`.
pub open spec fn has_part(s: Seq<char>, part: Seq<char>) -> bool {
    exists|i: int| 0 <= i <= s.len() - part.len() && #[trigger] s.subrange(i, i + part.len()) == part
}

pub fn contains_part(cs: &[char], part: &str) -> (r: bool)
    ensures
        r == has_part(cs@, part@),
{
    let p = chars_of(part);
    if p.len() > cs.len() {
        return false;
    }
    let n: usize = cs.len();
    let last: usize = n - p.len();
    let mut i: usize = 0;
    while i <= last
        invariant
            p@ == part@,
            n == cs@.len(),
            last == n - p@.len(),
            i <= last + 1,
            forall|j: int| 0 <= j < i ==> #[trigger] cs@.subrange(j, j + p@.len()) != p@,
        decreases last + 1 - i,
    {
        let here = sub_chars(cs, i, i + p.len());
        if same_chars(&here, &p) {
            assert(cs@.subrange(i as int, i as int + p@.len()) == p@);
            return true;
        }
        if i == last {
            return false;
        }
        i = i + 1;
    }
    false
}

// ASCII case.

/// The code point of `c`, with the upper case ASCII letters folded to lower
/// case.
pub open spec fn folded(c: char) -> int {
    if 'A' <= c <= 'Z' {
        c as int + 32
    } else {
        c as int
    }
}

/// Equality of texts up to the case of ASCII letters.
pub open spec fn same_ignoring_case(a: Seq<char>, b: Seq<char>) -> bool {
    &&& a.len() == b.len()
    &&& forall|i: int| 0 <= i < a.len() ==> #[trigger] folded(a[i]) == folded(b[i])
}

fn fold_char(c: char) -> (r: u32)
    ensures
        r == folded(c),
{
    if 'A' <= c && c <= 'Z' {
        c as u32 + 32
    } else {
        c as u32
    }
}

pub fn eq_ignore_case(a: &[char], b: &str) -> (r: bool)
    ensures
        r == same_ignoring_case(a@, b@),
{
    let y = chars_of(b);
    if a.len() != y.len() {
        return false;
    }
    let mut i: usize = 0;
    while i < a.len()
        invariant
            i <= a@.len(),
            y@ == b@,
            a@.len() == b@.len(),
            forall|j: int| 0 <= j < i ==> #[trigger] folded(a@[j]) == folded(b@[j]),
        decreases a@.len() - i,
    {
        if fold_char(a[i]) != fold_char(y[i]) {
            assert(folded(a@[i as int]) != folded(b@[i as int]));
            return false;
        }
        i = i + 1;
    }
    true
}

// Decimal numbers.

pub open spec fn digit(n: nat) -> char
    recommends
        n < 10,
{
    (48 + n) as char
}

pub open spec fn is_digit(c: char) -> bool {
    '0' <= c <= '9'
}

/// The decimal digits of a number, without leading zeros.
pub open spec fn decimal(n: nat) -> Seq<char>
    decreases n,
{
    if n < 10 {
        seq![digit(n)]
    } else {
        decimal(n / 10).push(digit(n % 10))
    }
}

pub open spec fn all_digits(s: Seq<char>) -> bool {
    forall|i: int| 0 <= i < s.len() ==> #[trigger] is_digit(s[i])
}

/// The number that a text of digits stands for.
pub open spec fn digits_value(s: Seq<char>) -> nat
    decreases s.len(),
{
    if s.len() == 0 {
        0
    } else {
        digits_value(s.drop_last()) * 10 + (s.last() as int - 48) as nat
    }
}

/// The text after one leading plus sign, if there is one.
pub open spec fn unsigned_part(s: Seq<char>) -> Seq<char> {
    if s.len() > 0 && s[0] == '+' {
        s.drop_first()
    } else {
        s
    }
}

/// The number written in `s`: decimal digits, at least one, after an
/// optional plus sign, and no larger than `max`.
pub open spec fn parse_number(s: Seq<char>, max: nat) -> Option<nat> {
    let body = unsigned_part(s);
    if body.len() > 0 && all_digits(body) && digits_value(body) <= max {
        Some(digits_value(body))
    } else {
        None
    }
}

proof fn lemma_digits_value_grows(s: Seq<char>, k: int)
    requires
        0 <= k <= s.len(),
        all_digits(s),
    ensures
        digits_value(s.take(k)) <= digits_value(s),
    decreases s.len() - k,
{
    if k < s.len() {
        let front = s.drop_last();
        assert forall|i: int| 0 <= i < front.len() implies #[trigger] is_digit(front[i]) by {
            assert(front[i] == s[i]);
        }
        lemma_digits_value_grows(front, k);
        assert(front.take(k) =~= s.take(k));
    } else {
        assert(s.take(k) =~= s);
    }
}

/// The digits of a number are digits, and stand for that number.
pub proof fn lemma_decimal(n: nat)
    ensures
        decimal(n).len() > 0,
        all_digits(decimal(n)),
        digits_value(decimal(n)) == n,
    decreases n,
{
    if n < 10 {
        assert(decimal(n).drop_last() =~= Seq::<char>::empty());
        assert(is_digit(digit(n)));
        assert(digits_value(decimal(n)) == n) by {
            reveal_with_fuel(digits_value, 2);
        }
    } else {
        lemma_decimal(n / 10);
        assert(decimal(n).drop_last() =~= decimal(n / 10));
        assert forall|i: int| 0 <= i < decimal(n).len() implies #[trigger] is_digit(
            decimal(n)[i],
        ) by {
            if i < decimal(n / 10).len() {
                assert(decimal(n)[i] == decimal(n / 10)[i]);
                assert(is_digit(decimal(n / 10)[i]));
            }
        }
    }
}

/// A number that fits is read back from its digits.
pub proof fn lemma_parse_decimal(n: nat, max: nat)
    requires
        n <= max,
    ensures
        parse_number(decimal(n), max) == Some(n),
{
    lemma_decimal(n);
    assert(is_digit(decimal(n)[0]));
    assert(unsigned_part(decimal(n)) == decimal(n));
}

/// Different numbers have different digits.
pub proof fn lemma_decimal_injective(a: nat, b: nat)
    requires
        decimal(a) == decimal(b),
    ensures
        a == b,
{
    lemma_decimal(a);
    lemma_decimal(b);
}

/// The decimal digits of a number.
pub fn decimal_chars(n: u64) -> (r: Vec<char>)
    ensures
        r@ == decimal(n as nat),
    decreases n,
{
    let mut r = if n < 10 {
        Vec::new()
    } else {
        decimal_chars(n / 10)
    };
    let c = (48u8 + (n % 10) as u8) as char;
    assert(c == digit(n as nat % 10));
    r.push(c);
    assert(r@ =~= decimal(n as nat));
    r
}

/// The number written in `cs`, if it is one and no larger than `max`.
pub fn parse_chars(cs: &[char], max: u64) -> (r: Option<u64>)
    ensures
        match r {
            Some(n) => parse_number(cs@, max as nat) == Some(n as nat),
            None => parse_number(cs@, max as nat) is None,
        },
{
    let start: usize = if cs.len() > 0 && cs[0] == '+' {
        1
    } else {
        0
    };
    let ghost body = unsigned_part(cs@);
    assert(body =~= cs@.skip(start as int));
    if cs.len() == start {
        return None;
    }
    let mut value: u64 = 0;
    let mut i: usize = start;
    while i < cs.len()
        invariant
            start <= i <= cs@.len(),
            body == cs@.skip(start as int),
            body == unsigned_part(cs@),
            value <= max,
            value == digits_value(body.take(i - start)),
            forall|j: int| 0 <= j < i - start ==> #[trigger] is_digit(body[j]),
        decreases cs@.len() - i,
    {
        let c = cs[i];
        let ghost k = i - start;
        assert(body[k] == c);
        assert(body.take(k + 1).drop_last() =~= body.take(k));
        if !('0' <= c && c <= '9') {
            assert(!is_digit(body[k]));
            return None;
        }
        let d: u64 = (c as u32 - 48) as u64;
        let wide: u128 = value as u128 * 10 + d as u128;
        assert(wide == digits_value(body.take(k + 1)));
        if wide > max as u128 {
            proof {
                if all_digits(body) {
                    lemma_digits_value_grows(body, k + 1);
                }
            }
            return None;
        }
        value = wide as u64;
        i = i + 1;
    }
    assert(body.take(body.len() as int) =~= body);
    Some(value)
}

// Laws of texts.

/// Trimming takes the white space at the two ends of a text, all of it and
/// nothing else.
pub proof fn law_trimming(text: Seq<char>) -> (r: (Seq<char>, Seq<char>))
    ensures
        text == r.0 + trimmed(text) + r.1,
        forall|i: int| 0 <= i < r.0.len() ==> is_space(#[trigger] r.0[i]),
        forall|i: int| 0 <= i < r.1.len() ==> is_space(#[trigger] r.1[i]),
        trimmed(text).len() > 0 ==> !is_space(trimmed(text)[0]) && !is_space(trimmed(text).last()),
{
    lemma_stripped_ends(text, CharClass::Space);
    lemma_stripped_parts(text, CharClass::Space)
}

/// The digits of a number are those of the number without its last digit,
/// and that digit.
pub proof fn law_decimal_digits(n: nat, d: nat)
    requires
        d < 10,
    ensures
        decimal(d) == seq![(48 + d) as char],
        n > 0 ==> decimal(10 * n + d) == decimal(n).push((48 + d) as char),
{
    if n > 0 {
        assert((10 * n + d) / 10 == n && (10 * n + d) % 10 == d);
    }
}

/// A number is read digit by digit. Text that is empty, holds anything else
/// than digits after one `+`, or is too large is no number.
pub proof fn law_numbers_are_read(digits: Seq<char>, d: char, max: nat)
    ensures
        parse_number(seq![d], max) == if '0' <= d <= '9' && d as int - 48 <= max {
            Some((d as int - 48) as nat)
        } else {
            None
        },
        parse_number(Seq::empty(), max) is None,
        digits.len() > 0 && digits[0] != '+' && !('0' <= d <= '9') ==> parse_number(
            digits.push(d),
            max,
        ) is None,
        digits.len() > 0 && digits[0] != '+' ==> parse_number(seq!['+'] + digits, max)
            == parse_number(digits, max),
        digits.len() > 0 && digits[0] != '+' && '0' <= d <= '9' ==> match parse_number(
            digits,
            max,
        ) {
            Some(value) => parse_number(digits.push(d), max) == if value * 10 + (d as int - 48)
                <= max {
                Some((value * 10 + (d as int - 48)) as nat)
            } else {
                None
            },
            None => parse_number(digits.push(d), max) is None,
        },
{
    let one = seq![d];
    assert(one.drop_last() =~= Seq::<char>::empty());
    reveal_with_fuel(digits_value, 2);
    assert(one.last() == d);
    if d == '+' {
        assert(one.drop_first() =~= Seq::<char>::empty());
    } else {
        assert(is_digit(one[0]) == ('0' <= d <= '9'));
    }
    if digits.len() > 0 && digits[0] != '+' {
        let signed = seq!['+'] + digits;
        assert(signed.drop_first() =~= digits);
        let more = digits.push(d);
        assert(more[0] == digits[0]);
        assert(more.drop_last() =~= digits);
        assert(more.last() == d);
        assert(all_digits(more) == (all_digits(digits) && is_digit(d))) by {
            if all_digits(more) {
                assert(is_digit(more[digits.len() as int]));
                assert forall|i: int| 0 <= i < digits.len() implies #[trigger] is_digit(
                    digits[i],
                ) by {
                    assert(is_digit(more[i]));
                }
            }
            if all_digits(digits) && is_digit(d) {
                assert forall|i: int| 0 <= i < more.len() implies #[trigger] is_digit(more[i]) by {
                    if i < digits.len() {
                        assert(is_digit(digits[i]));
                    }
                }
            }
        }
        assert(digits_value(more) == digits_value(digits) * 10 + (d as int - 48) as nat);
    }
}

/// Text is split at every separator, and nowhere else.
pub proof fn law_splitting<T>(a: Seq<T>, sep: T, b: Seq<T>)
    ensures
        split_on(a.push(sep) + b, sep) == split_on(a, sep) + split_on(b, sep),
        !a.contains(sep) ==> split_on(a, sep) == seq![a],
{
    lemma_split_concat(a, sep, b);
    if !a.contains(sep) {
        lemma_split_single(a, sep);
    }
}

/// Texts are the same without regard to case where each letter is the same or
/// differs in the case of a Latin letter only.
pub proof fn law_case_is_ignored(a: Seq<char>, b: Seq<char>)
    ensures
        same_ignoring_case(a, b) <==> a.len() == b.len() && forall|i: int|
            0 <= i < a.len() ==> {
                ||| #[trigger] a[i] == b[i]
                ||| 'A' <= a[i] <= 'Z' && b[i] as int == a[i] as int + 32
                ||| 'A' <= b[i] <= 'Z' && a[i] as int == b[i] as int + 32
            },
{
    if a.len() == b.len() {
        assert forall|i: int| 0 <= i < a.len() implies (#[trigger] folded(a[i]) == folded(b[i])) == ({
            ||| a[i] == b[i]
            ||| 'A' <= a[i] <= 'Z' && b[i] as int == a[i] as int + 32
            ||| 'A' <= b[i] <= 'Z' && a[i] as int == b[i] as int + 32
        }) by {}
        if same_ignoring_case(a, b) {
            assert forall|i: int| 0 <= i < a.len() implies {
                ||| #[trigger] a[i] == b[i]
                ||| 'A' <= a[i] <= 'Z' && b[i] as int == a[i] as int + 32
                ||| 'A' <= b[i] <= 'Z' && a[i] as int == b[i] as int + 32
            } by {
                assert(folded(a[i]) == folded(b[i]));
            }
        }
    }
}

} // verus!
