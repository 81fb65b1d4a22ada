//! Names of tabs: a fresh one for a new tab, and a unique one for a renamed
//! tab.
use vstd::prelude::*;
use vstd::string::*;

use crate::playlist::{playlists_view, Playlist, PlaylistModel};
use crate::text::{
    chars_of, decimal, decimal_chars, push_chars, same_chars, strip_chars, text_of, trimmed,
    CharClass,
};

verus! {

/// A tab other than `except` has the name.
pub open spec fn name_taken(playlists: Seq<PlaylistModel>, except: int, name: Seq<char>) -> bool {
    exists|i: int| 0 <= i < playlists.len() && i != except && (#[trigger] playlists[i]).name == name
}

/// The name `Playlist N`.
pub open spec fn numbered_name(n: nat) -> Seq<char> {
    "Playlist "@ + decimal(n)
}

/// A name with a number in parentheses after it.
pub open spec fn suffixed_name(base: Seq<char>, n: nat) -> Seq<char> {
    base + " ("@ + decimal(n) + ")"@
}

/// `name` is the first of the names `family(first)`, `family(first + 1)` and
/// so on that no tab but `except` has.
pub open spec fn is_first_free(
    playlists: Seq<PlaylistModel>,
    except: int,
    family: spec_fn(nat) -> Seq<char>,
    first: nat,
    name: Seq<char>,
) -> bool {
    exists|n: nat|
        first <= n && name == #[trigger] family(n) && !name_taken(playlists, except, family(n))
            && forall|m: nat|
            first <= m < n ==> name_taken(playlists, except, #[trigger] family(m))
}

pub open spec fn numbered() -> spec_fn(nat) -> Seq<char> {
    |n: nat| numbered_name(n)
}

pub open spec fn suffixed(base: Seq<char>) -> spec_fn(nat) -> Seq<char> {
    |n: nat| suffixed_name(base, n)
}

spec fn has_name(playlists: Seq<PlaylistModel>, name: Seq<char>) -> bool {
    exists|i: int| 0 <= i < playlists.len() && (#[trigger] playlists[i]).name == name
}

/// Names that are all taken, and differ, are no more than there are tabs.
proof fn lemma_taken_names_are_few(
    playlists: Seq<PlaylistModel>,
    family: spec_fn(nat) -> Seq<char>,
    first: nat,
    count: nat,
)
    requires
        forall|m: nat, n: nat| #[trigger] family(m) == #[trigger] family(n) ==> m == n,
        forall|m: nat|
            first <= m < first + count ==> has_name(playlists, #[trigger] family(m)),
    ensures
        count <= playlists.len(),
    decreases count,
{
    if count > 0 {
        let last = (first + count - 1) as nat;
        assert(has_name(playlists, family(last)));
        let at = choose|i: int|
            0 <= i < playlists.len() && (#[trigger] playlists[i]).name == family(last);
        let rest = playlists.remove(at);
        assert forall|m: nat| first <= m < first + count - 1 implies has_name(
            rest,
            #[trigger] family(m),
        ) by {
            assert(has_name(playlists, family(m)));
            let j = choose|i: int|
                0 <= i < playlists.len() && (#[trigger] playlists[i]).name == family(m);
            assert(j != at);
            if j < at {
                assert(rest[j] == playlists[j]);
            } else {
                assert(rest[j - 1] == playlists[j]);
            }
        }
        lemma_taken_names_are_few(rest, family, first, (count - 1) as nat);
    }
}

proof fn lemma_numbered_injective()
    ensures
        forall|m: nat, n: nat| #[trigger] numbered()(m) == #[trigger] numbered()(n) ==> m == n,
{
    assert forall|m: nat, n: nat| #[trigger] numbered()(m) == #[trigger] numbered()(n) implies m
        == n by {
        let k = "Playlist "@.len() as int;
        assert(numbered_name(m).skip(k) =~= decimal(m));
        assert(numbered_name(n).skip(k) =~= decimal(n));
        crate::text::lemma_decimal_injective(m, n);
    }
}

proof fn lemma_suffixed_injective(base: Seq<char>)
    ensures
        forall|m: nat, n: nat| #[trigger]
            suffixed(base)(m) == #[trigger] suffixed(base)(n) ==> m == n,
{
    assert forall|m: nat, n: nat| #[trigger]
        suffixed(base)(m) == #[trigger] suffixed(base)(n) implies m == n by {
        let a = suffixed_name(base, m);
        let b = suffixed_name(base, n);
        let k = (base + " ("@).len() as int;
        let tail = ")"@.len() as int;
        assert(a.subrange(k, a.len() - tail) =~= decimal(m));
        assert(b.subrange(k, b.len() - tail) =~= decimal(n));
        crate::text::lemma_decimal_injective(m, n);
    }
}

/// Whether a tab other than `except` has the name.
fn taken(playlists: &[Playlist], except: Option<usize>, name: &[char]) -> (r: bool)
    ensures
        r == name_taken(
            playlists_view(playlists@),
            match except {
                Some(i) => i as int,
                None => -1,
            },
            name@,
        ),
{
    let ghost all = playlists_view(playlists@);
    let ghost skip: int = match except {
        Some(i) => i as int,
        None => -1,
    };
    let mut i: usize = 0;
    while i < playlists.len()
        invariant
            i <= playlists@.len(),
            all == playlists_view(playlists@),
            skip == (match except {
                Some(i) => i as int,
                None => -1,
            }),
            forall|j: int| 0 <= j < i && j != skip ==> (#[trigger] all[j]).name != name@,
        decreases playlists@.len() - i,
    {
        assert(all[i as int] == playlists@[i as int]@);
        let skipped: bool = match except {
            Some(e) => e == i,
            None => false,
        };
        if !skipped {
            let own = chars_of(playlists[i].name.as_str());
            if same_chars(&own, name) {
                return true;
            }
        }
        i = i + 1;
    }
    false
}

/// `name` is the smallest unused name `Playlist N`.
pub open spec fn is_fresh_name(playlists: Seq<PlaylistModel>, name: Seq<char>) -> bool {
    is_first_free(playlists, -1, numbered(), 1, name)
}

/// The smallest unused name `Playlist N` for a new tab.
pub fn next_playlist_name(playlists: &[Playlist]) -> (r: String)
    requires
        playlists@.len() < usize::MAX,
    ensures
        is_fresh_name(playlists_view(playlists@), r@),
{
    let ghost all = playlists_view(playlists@);
    let ghost family = numbered();
    let len: usize = playlists.len();
    let mut n: usize = 1;
    loop
        invariant
            len == playlists@.len(),
            len < usize::MAX,
            all == playlists_view(playlists@),
            family == numbered(),
            1 <= n <= len + 1,
            forall|m: nat| 1 <= m < n ==> name_taken(all, -1, #[trigger] family(m)),
        decreases len + 1 - n,
    {
        let mut name = chars_of("Playlist ");
        let mut digits = decimal_chars(n as u64);
        name.append(&mut digits);
        assert(name@ == family(n as nat));
        if !taken(playlists, None, &name) {
            return text_of(&name);
        }
        proof {
            assert forall|m: nat| 1 <= m < n + 1 implies has_name(
                all,
                #[trigger] family(m),
            ) by {
                assert(name_taken(all, -1, family(m)));
            }
            lemma_numbered_injective();
            lemma_taken_names_are_few(all, family, 1, n as nat);
        }
        n = n + 1;
    }
}

/// The name of a tab, empty where there is no such tab.
pub open spec fn name_of_tab(playlists: Seq<PlaylistModel>, index: int) -> Seq<char> {
    if 0 <= index < playlists.len() {
        playlists[index].name
    } else {
        Seq::empty()
    }
}

/// What a renamed tab is called: the trimmed draft; the name as it was where
/// that is empty; with the first free number from 2 on where another tab has
/// that name.
pub open spec fn is_resolved_name(
    playlists: Seq<PlaylistModel>,
    index: int,
    draft: Seq<char>,
    name: Seq<char>,
) -> bool {
    let base = trimmed(draft);
    if base.len() == 0 {
        name == name_of_tab(playlists, index)
    } else if !name_taken(playlists, index, base) {
        name == base
    } else {
        is_first_free(playlists, index, suffixed(base), 2, name)
    }
}

/// The name that a draft gives to the tab at `index`.
pub fn resolve_tab_name(playlists: &[Playlist], index: usize, draft: &str) -> (r: String)
    requires
        playlists@.len() < usize::MAX - 1,
    ensures
        is_resolved_name(playlists_view(playlists@), index as int, draft@, r@),
{
    let ghost all = playlists_view(playlists@);
    let typed = chars_of(draft);
    let base = strip_chars(&typed, CharClass::Space);
    if base.len() == 0 {
        if index < playlists.len() {
            assert(all[index as int] == playlists@[index as int]@);
            return playlists[index].name.clone();
        }
        return String::new();
    }
    if !taken(playlists, Some(index), &base) {
        return text_of(&base);
    }
    let ghost family = suffixed(base@);
    let len: usize = playlists.len();
    let mut n: usize = 2;
    loop
        invariant
            len == playlists@.len(),
            len < usize::MAX - 1,
            all == playlists_view(playlists@),
            family == suffixed(base@),
            2 <= n <= len + 2,
            forall|m: nat| 2 <= m < n ==> name_taken(all, index as int, #[trigger] family(m)),
            base@ == trimmed(draft@),
            base@.len() > 0,
            name_taken(all, index as int, base@),
        decreases len + 2 - n,
    {
        let mut name = text_of(&base);
        name.append(" (");
        let digits = decimal_chars(n as u64);
        push_chars(&mut name, &digits);
        name.append(")");
        assert(name@ == family(n as nat));
        let cs = chars_of(name.as_str());
        if !taken(playlists, Some(index), &cs) {
            return name;
        }
        proof {
            assert forall|m: nat| 2 <= m < 2 + (n - 1) implies has_name(
                all,
                #[trigger] family(m),
            ) by {
                assert(name_taken(all, index as int, family(m)));
            }
            lemma_suffixed_injective(base@);
            lemma_taken_names_are_few(all, family, 2, (n - 1) as nat);
        }
        n = n + 1;
    }
}

/// A new tab gets a name that no tab has.
pub proof fn law_next_name_is_fresh(playlists: Seq<PlaylistModel>, name: Seq<char>)
    requires
        is_fresh_name(playlists, name),
    ensures
        forall|i: int| 0 <= i < playlists.len() ==> (#[trigger] playlists[i]).name != name,
{
    let family = numbered();
    let n = choose|n: nat|
        1 <= n && name == #[trigger] family(n) && !name_taken(playlists, -1, family(n))
            && forall|m: nat| 1 <= m < n ==> name_taken(playlists, -1, #[trigger] family(m));
    assert(!name_taken(playlists, -1, name));
}

/// The tab names are told apart: renaming a tab of a store whose names all
/// differ leaves names that all differ.
pub proof fn law_rename_keeps_names_unique(
    playlists: Seq<PlaylistModel>,
    index: int,
    draft: Seq<char>,
    name: Seq<char>,
)
    requires
        0 <= index < playlists.len(),
        forall|i: int, j: int|
            0 <= i < j < playlists.len() ==> (#[trigger] playlists[i]).name != (
            #[trigger] playlists[j]).name,
        is_resolved_name(playlists, index, draft, name),
    ensures
        ({
            let after = playlists.update(
                index,
                PlaylistModel { name, entries: playlists[index].entries },
            );
            forall|i: int, j: int|
                0 <= i < j < after.len() ==> (#[trigger] after[i]).name != (
                #[trigger] after[j]).name
        }),
{
    let base = trimmed(draft);
    if base.len() > 0 && name_taken(playlists, index, base) {
        let family = suffixed(base);
        let n = choose|n: nat|
            2 <= n && name == #[trigger] family(n) && !name_taken(playlists, index, family(n))
                && forall|m: nat|
                2 <= m < n ==> name_taken(playlists, index, #[trigger] family(m));
        assert(!name_taken(playlists, index, name));
    }
    if name_taken(playlists, index, name) {
        let i = choose|i: int|
            0 <= i < playlists.len() && i != index && (#[trigger] playlists[i]).name == name;
        assert(false);
    }
}

proof fn lemma_first_free_unique(
    playlists: Seq<PlaylistModel>,
    except: int,
    family: spec_fn(nat) -> Seq<char>,
    first: nat,
    a: Seq<char>,
    b: Seq<char>,
)
    requires
        is_first_free(playlists, except, family, first, a),
        is_first_free(playlists, except, family, first, b),
    ensures
        a == b,
{
    let m = choose|n: nat|
        first <= n && a == #[trigger] family(n) && !name_taken(playlists, except, family(n))
            && forall|m: nat|
            first <= m < n ==> name_taken(playlists, except, #[trigger] family(m));
    let n = choose|n: nat|
        first <= n && b == #[trigger] family(n) && !name_taken(playlists, except, family(n))
            && forall|m: nat|
            first <= m < n ==> name_taken(playlists, except, #[trigger] family(m));
    if m < n {
        assert(name_taken(playlists, except, family(m)));
    }
    if n < m {
        assert(name_taken(playlists, except, family(n)));
    }
}

/// A draft gives a tab one name.
pub proof fn law_resolved_name_is_unique(
    playlists: Seq<PlaylistModel>,
    index: int,
    draft: Seq<char>,
    a: Seq<char>,
    b: Seq<char>,
)
    requires
        is_resolved_name(playlists, index, draft, a),
        is_resolved_name(playlists, index, draft, b),
    ensures
        a == b,
{
    let base = trimmed(draft);
    if base.len() > 0 && name_taken(playlists, index, base) {
        lemma_first_free_unique(playlists, index, suffixed(base), 2, a, b);
    }
}

/// The name of a new tab.
pub open spec fn fresh_name(playlists: Seq<PlaylistModel>) -> Seq<char> {
    choose|name: Seq<char>| is_fresh_name(playlists, name)
}

/// The name that a draft gives to a tab.
pub open spec fn resolved_name(
    playlists: Seq<PlaylistModel>,
    index: int,
    draft: Seq<char>,
) -> Seq<char> {
    choose|name: Seq<char>| is_resolved_name(playlists, index, draft, name)
}

pub proof fn lemma_fresh_name(playlists: Seq<PlaylistModel>, name: Seq<char>)
    requires
        is_fresh_name(playlists, name),
    ensures
        name == fresh_name(playlists),
{
    lemma_first_free_unique(playlists, -1, numbered(), 1, name, fresh_name(playlists));
}

pub proof fn lemma_resolved_name(
    playlists: Seq<PlaylistModel>,
    index: int,
    draft: Seq<char>,
    name: Seq<char>,
)
    requires
        is_resolved_name(playlists, index, draft, name),
    ensures
        name == resolved_name(playlists, index, draft),
{
    law_resolved_name_is_unique(
        playlists,
        index,
        draft,
        name,
        resolved_name(playlists, index, draft),
    );
}

proof fn lemma_first_free_exists(
    playlists: Seq<PlaylistModel>,
    except: int,
    family: spec_fn(nat) -> Seq<char>,
    first: nat,
    count: nat,
) -> (name: Seq<char>)
    requires
        forall|m: nat, n: nat| #[trigger] family(m) == #[trigger] family(n) ==> m == n,
        forall|m: nat|
            first <= m < first + count ==> name_taken(playlists, except, #[trigger] family(m)),
        count <= playlists.len(),
    ensures
        is_first_free(playlists, except, family, first, name),
    decreases playlists.len() - count,
{
    let next = first + count;
    if name_taken(playlists, except, family(next)) {
        assert forall|m: nat| first <= m < first + (count + 1) implies has_name(
            playlists,
            #[trigger] family(m),
        ) by {
            assert(name_taken(playlists, except, family(m)));
        }
        lemma_taken_names_are_few(playlists, family, first, count + 1);
        lemma_first_free_exists(playlists, except, family, first, count + 1)
    } else {
        family(next)
    }
}

/// There always is a name for a new tab.
pub proof fn lemma_fresh_name_exists(playlists: Seq<PlaylistModel>)
    ensures
        is_fresh_name(playlists, fresh_name(playlists)),
{
    lemma_numbered_injective();
    let name = lemma_first_free_exists(playlists, -1, numbered(), 1, 0);
    assert(is_fresh_name(playlists, name));
}

/// A draft always gives a tab a name.
pub proof fn lemma_resolved_name_exists(
    playlists: Seq<PlaylistModel>,
    index: int,
    draft: Seq<char>,
)
    ensures
        is_resolved_name(playlists, index, draft, resolved_name(playlists, index, draft)),
{
    let base = trimmed(draft);
    if base.len() == 0 {
        assert(is_resolved_name(playlists, index, draft, name_of_tab(playlists, index)));
    } else if !name_taken(playlists, index, base) {
        assert(is_resolved_name(playlists, index, draft, base));
    } else {
        lemma_suffixed_injective(base);
        let name = lemma_first_free_exists(playlists, index, suffixed(base), 2, 0);
        assert(is_resolved_name(playlists, index, draft, name));
    }
}

/// The number of a fresh name.
pub proof fn lemma_fresh_number(playlists: Seq<PlaylistModel>, name: Seq<char>) -> (n: nat)
    requires
        is_fresh_name(playlists, name),
    ensures
        n >= 1,
        name == "Playlist "@ + decimal(n),
        forall|i: int| 0 <= i < playlists.len() ==> (#[trigger] playlists[i]).name != name,
        forall|m: nat|
            1 <= m < n ==> name_taken(playlists, -1, "Playlist "@ + #[trigger] decimal(m)),
{
    let family = numbered();
    let n = choose|n: nat|
        1 <= n && name == #[trigger] family(n) && !name_taken(playlists, -1, family(n)) && forall|
            m: nat,
        |
            1 <= m < n ==> name_taken(playlists, -1, #[trigger] family(m));
    assert forall|m: nat| 1 <= m < n implies name_taken(
        playlists,
        -1,
        "Playlist "@ + #[trigger] decimal(m),
    ) by {
        assert(name_taken(playlists, -1, family(m)));
    }
    n
}

/// The number behind the name of a tab whose name was taken.
pub proof fn lemma_suffix_number(
    playlists: Seq<PlaylistModel>,
    index: int,
    base: Seq<char>,
    name: Seq<char>,
) -> (n: nat)
    requires
        is_first_free(playlists, index, suffixed(base), 2, name),
    ensures
        n >= 2,
        name == base + " ("@ + decimal(n) + ")"@,
        forall|i: int|
            0 <= i < playlists.len() && i != index ==> (#[trigger] playlists[i]).name != name,
        forall|m: nat|
            2 <= m < n ==> name_taken(
                playlists,
                index,
                base + " ("@ + #[trigger] decimal(m) + ")"@,
            ),
{
    let family = suffixed(base);
    let n = choose|n: nat|
        2 <= n && name == #[trigger] family(n) && !name_taken(playlists, index, family(n))
            && forall|m: nat| 2 <= m < n ==> name_taken(playlists, index, #[trigger] family(m));
    assert forall|m: nat| 2 <= m < n implies name_taken(
        playlists,
        index,
        base + " ("@ + #[trigger] decimal(m) + ")"@,
    ) by {
        assert(name_taken(playlists, index, family(m)));
    }
    n
}

/// The name of a tab for a draft: the draft without white space around it; a
/// blank one leaves the name as it is; one that another tab has gets the
/// first number from 2 on, in brackets, that makes it differ from them all.
pub proof fn law_resolved_names(
    playlists: Seq<PlaylistModel>,
    index: int,
    draft: Seq<char>,
    name: Seq<char>,
) -> (n: nat)
    requires
        is_resolved_name(playlists, index, draft, name),
    ensures
        ({
            let base = trimmed(draft);
            let taken = exists|i: int|
                0 <= i < playlists.len() && i != index && (#[trigger] playlists[i]).name == base;
            &&& base.len() == 0 && 0 <= index < playlists.len() ==> name == playlists[index].name
            &&& base.len() == 0 && index >= playlists.len() ==> name.len() == 0
            &&& base.len() > 0 && !taken ==> name == base
            &&& base.len() > 0 && taken ==> {
                &&& n >= 2
                &&& name == base + " ("@ + decimal(n) + ")"@
                &&& forall|i: int|
                    0 <= i < playlists.len() && i != index ==> (#[trigger] playlists[i]).name
                        != name
                &&& forall|m: nat|
                    2 <= m < n ==> name_taken(
                        playlists,
                        index,
                        base + " ("@ + #[trigger] decimal(m) + ")"@,
                    )
            }
        }),
{
    let base = trimmed(draft);
    if base.len() > 0 && name_taken(playlists, index, base) {
        lemma_suffix_number(playlists, index, base, name)
    } else {
        0
    }
}

/// The name of a new tab: `Playlist` with the smallest number from 1 on that
/// no tab has.
pub proof fn law_fresh_names(playlists: Seq<PlaylistModel>, name: Seq<char>) -> (n: nat)
    requires
        is_fresh_name(playlists, name),
    ensures
        n >= 1,
        name == "Playlist "@ + decimal(n),
        forall|i: int| 0 <= i < playlists.len() ==> (#[trigger] playlists[i]).name != name,
        forall|m: nat|
            1 <= m < n ==> name_taken(playlists, -1, "Playlist "@ + #[trigger] decimal(m)),
{
    lemma_fresh_number(playlists, name)
}

/// A name is taken where a tab other than the given one has it.
pub proof fn law_taken_names(playlists: Seq<PlaylistModel>, except: int, i: int)
    requires
        0 <= i < playlists.len(),
        i != except,
    ensures
        name_taken(playlists, except, playlists[i].name),
        forall|name: Seq<char>| #[trigger]
            name_taken(playlists, except, name) ==> exists|j: int|
                0 <= j < playlists.len() && j != except && (#[trigger] playlists[j]).name == name,
{
}

} // verus!
