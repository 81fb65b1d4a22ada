//! File paths as byte strings with `/` between the components. Where a system
//! has another separator, paths are handed over with `/` in its place.
use vstd::prelude::*;
use vstd::string::*;
use vstd::utf8::*;

use crate::order::{part_rank, place_parts, Placing};
use crate::text::split_on;

verus! {

broadcast use {vstd::utf8::encode_utf8_valid_utf8, vstd::utf8::encode_utf8_decode_utf8};

/// The error of `String::from_utf8`.
#[verifier::external_type_specification]
#[verifier::external_body]
pub struct ExFromUtf8Error(std::string::FromUtf8Error);

/// `String::from_utf8`: the bytes are a string exactly if they are valid
/// UTF-8, and the string then is what they encode.
pub assume_specification[ String::from_utf8 ](bytes: Vec<u8>) -> (r: Result<
    String,
    std::string::FromUtf8Error,
>)
    ensures
        r is Ok == valid_utf8(bytes@),
        r matches Ok(s) ==> s@ == decode_utf8(bytes@),
;

/// What `String::from_utf8_lossy` makes of the given bytes.
pub uninterp spec fn lossy_text(bytes: Seq<u8>) -> Seq<char>;

/// `String::from_utf8_lossy`, as an owned string: valid UTF-8 is decoded;
/// in other bytes the invalid parts are replaced.
#[verifier::external_body]
fn decode_lossy(bytes: &[u8]) -> (r: String)
    ensures
        r@ == lossy_text(bytes@),
        valid_utf8(bytes@) ==> r@ == decode_utf8(bytes@),
{
    String::from_utf8_lossy(bytes).into_owned()
}

/// A path to a song or a directory.
#[derive(Debug)]
pub struct SongPath {
    pub bytes: Vec<u8>,
}

impl View for SongPath {
    type V = Seq<u8>;

    open spec fn view(&self) -> Seq<u8> {
        self.bytes@
    }
}

/// The paths of a list as byte sequences.
pub open spec fn paths_view(paths: Seq<SongPath>) -> Seq<Seq<u8>> {
    paths.map_values(|p: SongPath| p@)
}

// What a path is made of.

/// The pieces of a path that count: empty pieces do not, and `.` only where
/// the path begins with it.
pub open spec fn kept_pieces(pieces: Seq<Seq<u8>>) -> Seq<Seq<u8>>
    decreases pieces.len(),
{
    if pieces.len() == 0 {
        Seq::empty()
    } else {
        let before = kept_pieces(pieces.drop_last());
        let piece = pieces.last();
        if piece.len() == 0 || (piece == seq![46u8] && pieces.len() > 1) {
            before
        } else {
            before.push(piece)
        }
    }
}

/// The components of a path: the root `/` if it begins with that, then the
/// pieces between the slashes that count.
pub open spec fn path_parts(path: Seq<u8>) -> Seq<Seq<u8>> {
    let root: Seq<Seq<u8>> = if path.len() > 0 && path[0] == 47 {
        seq![seq![47u8]]
    } else {
        Seq::empty()
    };
    root + kept_pieces(split_on(path, 47u8))
}

/// Two paths are the same if their components are.
pub open spec fn same_path(a: Seq<u8>, b: Seq<u8>) -> bool {
    path_parts(a) == path_parts(b)
}

/// The last component, unless that is the root, `.` or `..`.
pub open spec fn file_name(path: Seq<u8>) -> Option<Seq<u8>> {
    let parts = path_parts(path);
    if parts.len() > 0 && part_rank(parts.last()) == 3 {
        Some(parts.last())
    } else {
        None
    }
}

/// The position of the last dot of a name; -1 where there is none.
pub open spec fn last_dot(name: Seq<u8>) -> int
    decreases name.len(),
{
    if name.len() == 0 {
        -1
    } else if name.last() == 46 {
        name.len() - 1
    } else {
        last_dot(name.drop_last())
    }
}

/// The file name up to its last dot; all of it where it has no dot, or only
/// a leading one.
pub open spec fn file_stem(path: Seq<u8>) -> Option<Seq<u8>> {
    match file_name(path) {
        Some(name) => if last_dot(name) > 0 {
            Some(name.take(last_dot(name)))
        } else {
            Some(name)
        },
        None => None,
    }
}

/// The file name after its last dot, where that is not a leading one.
pub open spec fn extension(path: Seq<u8>) -> Option<Seq<u8>> {
    match file_name(path) {
        Some(name) => if last_dot(name) > 0 {
            Some(name.skip(last_dot(name) + 1))
        } else {
            None
        },
        None => None,
    }
}

/// The path with one more relative piece after it.
pub open spec fn joined(path: Seq<u8>, piece: Seq<u8>) -> Seq<u8> {
    if path.len() == 0 || path.last() == 47 {
        path + piece
    } else {
        path.push(47u8) + piece
    }
}

/// The file stem as text, where it is valid UTF-8.
pub open spec fn stem_text(path: Seq<u8>) -> Option<Seq<char>> {
    match file_stem(path) {
        Some(stem) => if valid_utf8(stem) {
            Some(decode_utf8(stem))
        } else {
            None
        },
        None => None,
    }
}

/// The path as shown and stored: its text, with what is not valid UTF-8
/// replaced.
pub open spec fn shown_path(path: Seq<u8>) -> Seq<char> {
    if valid_utf8(path) {
        decode_utf8(path)
    } else {
        lossy_text(path)
    }
}

fn bytes_copy(bytes: &[u8]) -> (r: Vec<u8>)
    ensures
        r@ == bytes@,
{
    vstd::slice::slice_to_vec(bytes)
}

fn split_bytes(bytes: &[u8], sep: u8) -> (r: Vec<Vec<u8>>)
    ensures
        crate::order::parts_view(r@) == split_on(bytes@, sep),
{
    let mut done: Vec<Vec<u8>> = Vec::new();
    let mut last: Vec<u8> = Vec::new();
    let mut i: usize = 0;
    assert(crate::order::parts_view(done@).push(last@) =~= split_on(bytes@.take(0), sep)) by {
        assert(bytes@.take(0) =~= Seq::<u8>::empty());
    }
    while i < bytes.len()
        invariant
            i <= bytes@.len(),
            crate::order::parts_view(done@).push(last@) == split_on(bytes@.take(i as int), sep),
        decreases bytes@.len() - i,
    {
        let ghost before = crate::order::parts_view(done@).push(last@);
        proof {
            assert(bytes@.take(i as int + 1).drop_last() =~= bytes@.take(i as int));
            assert(before.drop_last() =~= crate::order::parts_view(done@));
        }
        let b = bytes[i];
        if b == sep {
            done.push(last);
            last = Vec::new();
            assert(crate::order::parts_view(done@) =~= before);
        } else {
            last.push(b);
        }
        i = i + 1;
        assert(crate::order::parts_view(done@).push(last@) =~= split_on(
            bytes@.take(i as int),
            sep,
        ));
    }
    assert(bytes@.take(bytes@.len() as int) =~= bytes@);
    let ghost before = crate::order::parts_view(done@).push(last@);
    done.push(last);
    assert(crate::order::parts_view(done@) =~= before);
    done
}

impl SongPath {
    /// The path that a text spells.
    pub fn new(text: &str) -> (r: SongPath)
        ensures
            r@ == encode_utf8(text@),
    {
        SongPath { bytes: text.as_bytes_vec() }
    }

    pub fn from_bytes(bytes: Vec<u8>) -> (r: SongPath)
        ensures
            r@ == bytes@,
    {
        SongPath { bytes }
    }

    /// The components of the path.
    pub fn parts(&self) -> (r: Vec<Vec<u8>>)
        ensures
            crate::order::parts_view(r@) == path_parts(self@),
    {
        let pieces = split_bytes(&self.bytes, 47);
        let ghost all = crate::order::parts_view(pieces@);
        let mut r: Vec<Vec<u8>> = Vec::new();
        let ghost mut root: Seq<Seq<u8>> = Seq::empty();
        if self.bytes.len() > 0 && self.bytes[0] == 47 {
            let mut slash: Vec<u8> = Vec::new();
            slash.push(47);
            assert(slash@ =~= seq![47u8]);
            r.push(slash);
            proof {
                root = seq![seq![47u8]];
            }
        }
        assert(crate::order::parts_view(r@) =~= root);
        let mut i: usize = 0;
        assert(all.take(0) =~= Seq::<Seq<u8>>::empty());
        assert(root + kept_pieces(all.take(0)) =~= root);
        while i < pieces.len()
            invariant
                i <= pieces@.len(),
                all == crate::order::parts_view(pieces@),
                crate::order::parts_view(r@) == root + kept_pieces(all.take(i as int)),
            decreases pieces@.len() - i,
        {
            let ghost before = crate::order::parts_view(r@);
            assert(all.take(i as int + 1).drop_last() =~= all.take(i as int));
            assert(all.take(i as int + 1).last() == pieces@[i as int]@);
            let piece = &pieces[i];
            let dot: bool = piece.len() == 1 && piece[0] == 46;
            assert(dot == (piece@ == seq![46u8])) by {
                if dot {
                    assert(piece@ =~= seq![46u8]);
                }
            }
            if !(piece.len() == 0 || (dot && i > 0)) {
                r.push(bytes_copy(piece));
                assert(crate::order::parts_view(r@) =~= before.push(piece@));
                assert(crate::order::parts_view(r@) =~= root + kept_pieces(
                    all.take(i as int + 1),
                ));
            }
            i = i + 1;
        }
        assert(all.take(all.len() as int) =~= all);
        r
    }

    /// Whether two paths have the same components.
    pub fn same(&self, other: &SongPath) -> (r: bool)
        ensures
            r == same_path(self@, other@),
    {
        let a = self.parts();
        let b = other.parts();
        proof {
            crate::order::lemma_part_order();
            crate::order::lemma_lex_order(crate::order::part_less());
            assert(!crate::order::lex(crate::order::part_less())(
                path_parts(self@),
                path_parts(self@),
            ));
        }
        match place_parts(&a, &b) {
            Placing::Same => true,
            Placing::Before => false,
            Placing::After => false,
        }
    }

    fn name(&self) -> (r: Option<Vec<u8>>)
        ensures
            match r {
                Some(name) => file_name(self@) == Some(name@),
                None => file_name(self@) is None,
            },
    {
        let mut parts = self.parts();
        let ghost all = crate::order::parts_view(parts@);
        if parts.len() == 0 {
            return None;
        }
        let last = parts.remove(parts.len() - 1);
        assert(all.last() == last@);
        let special: bool = (last.len() == 1 && (last[0] == 47 || last[0] == 46)) || (last.len()
            == 2 && last[0] == 46 && last[1] == 46);
        assert(special == (part_rank(last@) != 3)) by {
            if special {
                assert(last@ =~= seq![47u8] || last@ =~= seq![46u8] || last@ =~= seq![46u8, 46u8]);
            }
        }
        if special {
            None
        } else {
            Some(last)
        }
    }

    pub fn file_stem(&self) -> (r: Option<Vec<u8>>)
        ensures
            match r {
                Some(stem) => file_stem(self@) == Some(stem@),
                None => file_stem(self@) is None,
            },
    {
        match self.name() {
            Some(mut name) => {
                if let Some(dot) = dot_position(&name) {
                    if dot > 0 {
                        let ghost whole = name@;
                        name.truncate(dot);
                        assert(name@ =~= whole.take(dot as int));
                    }
                }
                Some(name)
            },
            None => None,
        }
    }

    pub fn extension(&self) -> (r: Option<Vec<u8>>)
        ensures
            match r {
                Some(ext) => extension(self@) == Some(ext@),
                None => extension(self@) is None,
            },
    {
        match self.name() {
            Some(mut name) => match dot_position(&name) {
                Some(dot) => if dot > 0 {
                    let ghost whole = name@;
                    assert(dot < name.len());
                    let ext = name.split_off(dot + 1);
                    assert(ext@ =~= whole.skip(dot as int + 1));
                    Some(ext)
                } else {
                    None
                },
                None => None,
            },
            None => None,
        }
    }

    /// The file stem as text, where it is valid UTF-8.
    pub fn stem_text(&self) -> (r: Option<String>)
        ensures
            match r {
                Some(text) => stem_text(self@) == Some(text@),
                None => stem_text(self@) is None,
            },
    {
        match self.file_stem() {
            Some(stem) => match String::from_utf8(stem) {
                Ok(text) => Some(text),
                Err(_) => None,
            },
            None => None,
        }
    }

    /// The path as shown and stored.
    pub fn display(&self) -> (r: String)
        ensures
            r@ == shown_path(self@),
    {
        decode_lossy(&self.bytes)
    }

    /// The path with one more relative piece after it.
    pub fn join(&self, piece: &str) -> (r: SongPath)
        ensures
            r@ == joined(self@, encode_utf8(piece@)),
    {
        let mut bytes = bytes_copy(&self.bytes);
        if bytes.len() > 0 && bytes[bytes.len() - 1] != 47 {
            bytes.push(47);
        }
        let mut tail = piece.as_bytes_vec();
        bytes.append(&mut tail);
        SongPath { bytes }
    }
}

/// The position of the last dot of a name.
fn dot_position(name: &[u8]) -> (r: Option<usize>)
    ensures
        match r {
            Some(i) => last_dot(name@) == i && i < name@.len(),
            None => last_dot(name@) == -1,
        },
{
    let mut n: usize = name.len();
    assert(name@.take(n as int) =~= name@);
    while n > 0
        invariant
            n <= name@.len(),
            last_dot(name@) == last_dot(name@.take(n as int)),
        decreases n,
    {
        if name[n - 1] == 46 {
            return Some(n - 1);
        }
        assert(name@.take(n as int).drop_last() =~= name@.take(n - 1));
        n = n - 1;
    }
    None
}

impl Clone for SongPath {
    fn clone(&self) -> (r: Self)
        ensures
            r@ == self@,
    {
        SongPath { bytes: bytes_copy(&self.bytes) }
    }
}

impl PartialEq for SongPath {
    fn eq(&self, other: &Self) -> (r: bool) {
        self.same(other)
    }
}

impl vstd::std_specs::cmp::PartialEqSpecImpl for SongPath {
    open spec fn obeys_eq_spec() -> bool {
        true
    }

    open spec fn eq_spec(&self, other: &Self) -> bool {
        same_path(self@, other@)
    }
}

impl Eq for SongPath {

}

/// What a text spells is shown as that text.
pub proof fn law_shown_path_of_text(text: Seq<char>)
    ensures
        shown_path(encode_utf8(text)) == text,
{
}

/// A path of valid UTF-8 is spelt by what is shown of it.
pub proof fn law_path_of_shown_text(path: Seq<u8>)
    requires
        valid_utf8(path),
    ensures
        encode_utf8(shown_path(path)) == path,
{
    decode_utf8_encode_utf8(path);
}

// What paths are made of.

/// A name that can stand between slashes.
pub open spec fn is_plain_name(name: Seq<u8>) -> bool {
    name.len() > 0 && !name.contains(47u8) && name != seq![46u8]
}

/// A path is made of names: one more name after a slash is one more
/// component, and a slash at the end, or one with a dot, is none. A slash at
/// the beginning is the root.
pub proof fn law_components(path: Seq<u8>, name: Seq<u8>)
    requires
        is_plain_name(name),
    ensures
        path_parts(Seq::empty()) == Seq::<Seq<u8>>::empty(),
        path_parts(seq![47u8]) == seq![seq![47u8]],
        path_parts(name) == seq![name],
        path_parts(seq![47u8] + name) == seq![seq![47u8], name],
        path.len() > 0 ==> path_parts(path.push(47u8) + name) == path_parts(path).push(name),
        path.len() > 0 ==> path_parts(path.push(47u8)) == path_parts(path),
        path.len() > 0 ==> path_parts(path.push(47u8).push(46u8)) == path_parts(path),
{
    let none = Seq::<u8>::empty();
    let slash = seq![47u8];
    crate::text::lemma_split_single(none, 47u8);
    crate::text::lemma_split_single(name, 47u8);
    lemma_kept_push(Seq::empty(), none);
    assert(Seq::<Seq<u8>>::empty().push(none) =~= seq![none]);
    assert(path_parts(none) =~= Seq::<Seq<u8>>::empty());
    lemma_kept_push(Seq::empty(), name);
    assert(Seq::<Seq<u8>>::empty().push(name) =~= seq![name]);
    assert(name[0] != 47) by {
        assert(name.contains(name[0]));
    }
    assert(path_parts(name) =~= seq![name]);
    crate::text::lemma_split_concat(none, 47u8, none);
    assert(none.push(47u8) + none =~= slash);
    assert(split_on(slash, 47u8) =~= seq![none].push(none));
    lemma_kept_push(seq![none], none);
    assert(path_parts(slash) =~= seq![slash]);
    crate::text::lemma_split_concat(none, 47u8, name);
    assert(none.push(47u8) + name =~= slash + name);
    assert(split_on(slash + name, 47u8) =~= seq![none].push(name));
    lemma_kept_push(seq![none], name);
    assert(path_parts(slash + name) =~= seq![slash, name]);
    if path.len() > 0 {
        let pieces = split_on(path, 47u8);
        crate::text::lemma_split_len(path, 47u8);
        crate::text::lemma_split_concat(path, 47u8, name);
        assert(split_on(path.push(47u8) + name, 47u8) =~= pieces.push(name));
        lemma_kept_push(pieces, name);
        assert((path.push(47u8) + name)[0] == path[0]);
        assert(path_parts(path.push(47u8) + name) =~= path_parts(path).push(name));
        crate::text::lemma_split_concat(path, 47u8, none);
        assert(path.push(47u8) + none =~= path.push(47u8));
        assert(split_on(path.push(47u8), 47u8) =~= pieces.push(none));
        lemma_kept_push(pieces, none);
        assert(path_parts(path.push(47u8)) =~= path_parts(path));
        let dot = seq![46u8];
        assert(!dot.contains(47u8));
        crate::text::lemma_split_single(dot, 47u8);
        crate::text::lemma_split_concat(path, 47u8, dot);
        assert(path.push(47u8) + dot =~= path.push(47u8).push(46u8));
        assert(split_on(path.push(47u8).push(46u8), 47u8) =~= pieces.push(dot));
        lemma_kept_push(pieces, dot);
        assert(path_parts(path.push(47u8).push(46u8)) =~= path_parts(path));
    }
}

proof fn lemma_kept_push(pieces: Seq<Seq<u8>>, piece: Seq<u8>)
    ensures
        kept_pieces(pieces.push(piece)) == if piece.len() == 0 || (piece == seq![46u8]
            && pieces.len() > 0) {
            kept_pieces(pieces)
        } else {
            kept_pieces(pieces).push(piece)
        },
{
    assert(pieces.push(piece).drop_last() =~= pieces);
}

/// Paths are the same exactly if their components are.
pub proof fn law_same_paths(a: Seq<u8>, b: Seq<u8>)
    ensures
        same_path(a, b) <==> path_parts(a) == path_parts(b),
{
}

/// The stem of a file is its name up to the last dot, and the extension is
/// what follows it. A name without a dot, or with one in front only, is all
/// stem.
pub proof fn law_stem_and_extension(path: Seq<u8>, stem: Seq<u8>, ext: Seq<u8>)
    requires
        path_parts(path).len() > 0,
        !stem.contains(47u8),
        !ext.contains(47u8),
        !ext.contains(46u8),
    ensures
        path_parts(path).last() == stem.push(46u8) + ext && stem.len() > 0 && !(stem
            == seq![46u8] && ext.len() == 0) ==> file_stem(path) == Some(stem) && extension(path)
            == Some(ext),
        path_parts(path).last() == ext && ext.len() > 0 ==> file_stem(path) == Some(ext)
            && extension(path) is None,
        path_parts(path).last() == seq![46u8] + ext && ext.len() > 0 ==> file_stem(path) == Some(
            seq![46u8] + ext,
        ) && extension(path) is None,
{
    let name = path_parts(path).last();
    let root = seq![47u8];
    let up = seq![46u8, 46u8];
    if name == stem.push(46u8) + ext && stem.len() > 0 && !(stem == seq![46u8] && ext.len() == 0) {
        lemma_last_dot_at(name, stem.len() as int);
        assert(name != root) by {
            assert(name.len() >= 2);
        }
        assert(name != seq![46u8]);
        if name == up {
            assert(ext.len() == 0);
            assert(stem =~= seq![46u8]) by {
                assert(name[0] == stem[0]);
            }
        }
        assert(name.take(stem.len() as int) =~= stem);
        assert(name.skip(stem.len() as int + 1) =~= ext);
    }
    if name == ext && ext.len() > 0 {
        assert forall|i: int| 0 <= i < name.len() implies name[i] != 46 && name[i] != 47 by {
            assert(ext.contains(ext[i]));
        }
        lemma_no_dot(name);
        assert(name[0] != 47 && name[0] != 46);
    }
    if name == seq![46u8] + ext && ext.len() > 0 {
        assert forall|i: int| 1 <= i < name.len() implies name[i] != 46 by {
            assert(ext.contains(ext[i - 1]));
        }
        lemma_last_dot_at(name, 0);
        assert(name[0] == 46 && name[1] == ext[0]);
    }
}

proof fn lemma_last_dot_at(name: Seq<u8>, at: int)
    requires
        0 <= at < name.len(),
        name[at] == 46,
        forall|i: int| at < i < name.len() ==> name[i] != 46,
    ensures
        last_dot(name) == at,
    decreases name.len(),
{
    if at < name.len() - 1 {
        lemma_last_dot_at(name.drop_last(), at);
    }
}

proof fn lemma_no_dot(name: Seq<u8>)
    requires
        forall|i: int| 0 <= i < name.len() ==> name[i] != 46,
    ensures
        last_dot(name) == -1,
    decreases name.len(),
{
    if name.len() > 0 {
        lemma_no_dot(name.drop_last());
    }
}

/// The root, `.` and `..` are no file names, and a path without components
/// has none.
pub proof fn law_no_file_name(path: Seq<u8>)
    ensures
        path_parts(path).len() == 0 || path_parts(path).last() == seq![47u8] || path_parts(
            path,
        ).last() == seq![46u8] || path_parts(path).last() == seq![46u8, 46u8] ==> file_stem(path)
            is None && extension(path) is None,
        file_stem(path) is None ==> stem_text(path) is None,
        file_stem(path) matches Some(stem) ==> {
            &&& valid_utf8(stem) ==> stem_text(path) == Some(decode_utf8(stem))
            &&& !valid_utf8(stem) ==> stem_text(path) is None
        },
{
}

/// A name is joined to a path by one slash.
pub proof fn law_joining(path: Seq<u8>, name: Seq<u8>)
    ensures
        path.len() > 0 && path.last() != 47 ==> joined(path, name) == path + seq![47u8] + name,
        path.len() == 0 || path.last() == 47 ==> joined(path, name) == path + name,
{
    if path.len() > 0 && path.last() != 47 {
        assert(path.push(47u8) + name =~= path + seq![47u8] + name);
    }
}

} // verus!
