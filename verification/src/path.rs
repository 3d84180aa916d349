//! Paths, as they are written.
use crate::platform::Platform;
use crate::text::chars_of;
use vstd::prelude::*;

verus! {

/// `c` with an upper case ASCII letter made lower case.
pub open spec fn ascii_lower(c: char) -> char {
    if 'A' <= c <= 'Z' {
        (c as u32 + 32) as char
    } else {
        c
    }
}

/// Whether two texts differ at most in the case of ASCII letters.
pub open spec fn equal_ignoring_ascii_case(left: Seq<char>, right: Seq<char>) -> bool {
    &&& left.len() == right.len()
    &&& forall|i: int|
        0 <= i < left.len() ==> ascii_lower(#[trigger] left[i]) == ascii_lower(right[i])
}

/// What stands between the slashes of `text`.
pub open spec fn pieces(text: Seq<char>) -> Seq<Seq<char>>
    decreases text.len(),
{
    if text.len() == 0 {
        seq![seq![]]
    } else {
        let before = pieces(text.drop_last());
        if text.last() == '/' {
            before.push(seq![])
        } else {
            before.drop_last().push(before.last().push(text.last()))
        }
    }
}

/// Whether a piece is a part of the path: an empty one is not, and a dot only where it is first.
pub open spec fn is_part(piece: Seq<char>, is_first: bool) -> bool {
    piece.len() > 0 && (piece == seq!['.'] ==> is_first)
}

/// The parts of a path among its pieces.
pub open spec fn parts_among(pieces: Seq<Seq<char>>) -> Seq<Seq<char>>
    decreases pieces.len(),
{
    if pieces.len() == 0 {
        seq![]
    } else {
        let before = parts_among(pieces.drop_last());
        if is_part(pieces.last(), pieces.len() == 1) {
            before.push(pieces.last())
        } else {
            before
        }
    }
}

/// The parts of a path: repeated and trailing slashes do not count, nor do dots but a first one.
pub open spec fn parts(text: Seq<char>) -> Seq<Seq<char>> {
    parts_among(pieces(text))
}

/// Whether a path starts at the root.
pub open spec fn is_rooted(text: Seq<char>) -> bool {
    text.len() > 0 && text[0] == '/'
}

/// Whether two paths are one. On Windows they are where their texts are, but for the case of
/// ASCII letters; elsewhere where both or neither start at the root and their parts are the same.
pub open spec fn is_same_path(left: Seq<char>, right: Seq<char>, platform: Platform) -> bool {
    if platform == Platform::Windows {
        equal_ignoring_ascii_case(left, right)
    } else {
        is_rooted(left) == is_rooted(right) && parts(left) == parts(right)
    }
}

fn to_ascii_lower(c: char) -> (lower: char)
    ensures
        lower == ascii_lower(c),
{
    if 'A' <= c && c <= 'Z' {
        ((c as u8) + 32) as char
    } else {
        c
    }
}

fn texts_equal_ignoring_ascii_case(left: &Vec<char>, right: &Vec<char>) -> (equal: bool)
    ensures
        equal == equal_ignoring_ascii_case(left@, right@),
{
    if left.len() != right.len() {
        return false;
    }
    for i in 0..left.len()
        invariant
            left@.len() == right@.len(),
            forall|j: int|
                0 <= j < i ==> ascii_lower(#[trigger] left@[j]) == ascii_lower(right@[j]),
    {
        if to_ascii_lower(left[i]) != to_ascii_lower(right[i]) {
            assert(ascii_lower(left@[i as int]) != ascii_lower(right@[i as int]));
            return false;
        }
    }
    true
}

/// What a list of texts holds.
spec fn texts(list: Seq<Vec<char>>) -> Seq<Seq<char>> {
    list.map_values(|text: Vec<char>| text@)
}

fn keep(parts: &mut Vec<Vec<char>>, piece: Vec<char>, is_first: bool)
    ensures
        texts(final(parts)@) == if is_part(piece@, is_first) {
            texts(old(parts)@).push(piece@)
        } else {
            texts(old(parts)@)
        },
{
    let is_dot: bool = piece.len() == 1 && piece[0] == '.';
    assert(is_dot <==> piece@ =~= seq!['.']);
    if piece.len() > 0 && (!is_dot || is_first) {
        parts.push(piece);
        assert(texts(parts@) =~= texts(old(parts)@).push(piece@));
    }
}

fn parts_of(text: &Vec<char>) -> (found: Vec<Vec<char>>)
    ensures
        texts(found@) == parts(text@),
{
    let mut found: Vec<Vec<char>> = Vec::new();
    let mut piece: Vec<char> = Vec::new();
    let mut is_first: bool = true;
    proof {
        assert(text@.take(0) =~= seq![]);
        assert(pieces(text@.take(0)) =~= seq![piece@]);
        assert(seq![piece@].drop_last() =~= seq![]);
        assert(texts(found@) =~= seq![]);
    }
    for i in 0..text.len()
        invariant
            ({
                let all = pieces(text@.take(i as int));
                &&& all.len() > 0
                &&& all.last() == piece@
                &&& is_first == (all.len() == 1)
                &&& texts(found@) == parts_among(all.drop_last())
            }),
    {
        let c: char = text[i];
        let ghost all = pieces(text@.take(i as int));
        let ghost before = piece@;
        proof {
            assert(text@.take(i + 1).drop_last() =~= text@.take(i as int));
            assert(text@.take(i + 1).last() == c);
        }
        if c == '/' {
            keep(&mut found, piece, is_first);
            piece = Vec::new();
            is_first = false;
            proof {
                assert(piece@ =~= seq![]);
                assert(all.push(seq![]).drop_last() =~= all);
            }
        } else {
            piece.push(c);
            proof {
                assert(all.drop_last().push(before.push(c)).drop_last() =~= all.drop_last());
            }
        }
    }
    assert(text@.take(text@.len() as int) =~= text@);
    keep(&mut found, piece, is_first);
    found
}

fn same_text(left: &Vec<char>, right: &Vec<char>) -> (same: bool)
    ensures
        same == (left@ == right@),
{
    if left.len() != right.len() {
        return false;
    }
    for i in 0..left.len()
        invariant
            left@.len() == right@.len(),
            forall|j: int| 0 <= j < i ==> left@[j] == right@[j],
    {
        if left[i] != right[i] {
            return false;
        }
    }
    assert(left@ =~= right@);
    true
}

fn same_texts(left: &Vec<Vec<char>>, right: &Vec<Vec<char>>) -> (same: bool)
    ensures
        same == (texts(left@) == texts(right@)),
{
    if left.len() != right.len() {
        assert(texts(left@).len() != texts(right@).len());
        return false;
    }
    for i in 0..left.len()
        invariant
            left@.len() == right@.len(),
            forall|j: int| 0 <= j < i ==> (#[trigger] left@[j])@ == right@[j]@,
    {
        if !same_text(&left[i], &right[i]) {
            assert(texts(left@)[i as int] != texts(right@)[i as int]);
            return false;
        }
    }
    assert(texts(left@) =~= texts(right@));
    true
}

/// Whether two paths are one.
pub fn paths_equal(left: &str, right: &str, platform: Platform) -> (equal: bool)
    ensures
        equal == is_same_path(left@, right@, platform),
{
    let left = chars_of(left);
    let right = chars_of(right);
    if platform == Platform::Windows {
        return texts_equal_ignoring_ascii_case(&left, &right);
    }
    let left_rooted: bool = left.len() > 0 && left[0] == '/';
    let right_rooted: bool = right.len() > 0 && right[0] == '/';
    left_rooted == right_rooted && same_texts(&parts_of(&left), &parts_of(&right))
}

/// Whether `c` separates the parts of a path.
pub open spec fn is_separator(c: char, platform: Platform) -> bool {
    c == '/' || platform == Platform::Windows && c == '\\'
}

/// Whether `directory` is a drive and nothing else.
pub open spec fn is_drive(directory: Seq<char>) -> bool {
    &&& directory.len() == 2
    &&& 'a' <= ascii_lower(directory[0]) <= 'z'
    &&& directory[1] == ':'
}

/// The path of the file `name` in `directory`.
///
/// A separator goes between the two, unless the directory ends in one, is not there at all or,
/// on Windows, is a drive alone.
/// A verbatim path of Windows (`\\?\`) is joined in the same way; that it is normalized besides
/// is left out.
pub open spec fn joined(directory: Seq<char>, name: Seq<char>, platform: Platform) -> Seq<char> {
    if directory.len() == 0 || is_separator(directory.last(), platform) {
        directory + name
    } else if platform != Platform::Windows {
        directory + seq!['/'] + name
    } else if is_drive(directory) {
        directory + name
    } else {
        directory + seq!['\\'] + name
    }
}

/// The path of the file `name` in `directory`.
pub fn join(directory: &str, name: &str, platform: Platform) -> (path: String)
    ensures
        path@ == joined(directory@, name@, platform),
{
    let chars = chars_of(directory);
    let count: usize = chars.len();
    let on_windows: bool = platform == Platform::Windows;
    let separator: &str = if count == 0 {
        ""
    } else {
        let last: char = chars[count - 1];
        let first: char = to_ascii_lower(chars[0]);
        if last == '/' || on_windows && last == '\\' {
            ""
        } else if !on_windows {
            "/"
        } else if count == 2 && 'a' <= first && first <= 'z' && last == ':' {
            ""
        } else {
            "\\"
        }
    };
    proof {
        reveal_strlit("");
        reveal_strlit("/");
        reveal_strlit("\\");
        assert("/"@ =~= seq!['/']);
        assert("\\"@ =~= seq!['\\']);
        assert(directory@ + ""@ =~= directory@);
    }
    directory.to_owned().concat(separator).concat(name)
}

/// To be the same path is an equivalence.
pub proof fn law_same_path_is_an_equivalence(
    a: Seq<char>,
    b: Seq<char>,
    c: Seq<char>,
    platform: Platform,
)
    ensures
        is_same_path(a, a, platform),
        is_same_path(a, b, platform) == is_same_path(b, a, platform),
        is_same_path(a, b, platform) && is_same_path(b, c, platform) ==> is_same_path(
            a,
            c,
            platform,
        ),
{
    if equal_ignoring_ascii_case(a, b) {
        assert forall|i: int| 0 <= i < b.len() implies ascii_lower(#[trigger] b[i]) == ascii_lower(
            a[i],
        ) by {
            assert(ascii_lower(a[i]) == ascii_lower(b[i]));
        }
    }
    if equal_ignoring_ascii_case(b, a) {
        assert forall|i: int| 0 <= i < a.len() implies ascii_lower(#[trigger] a[i]) == ascii_lower(
            b[i],
        ) by {
            assert(ascii_lower(b[i]) == ascii_lower(a[i]));
        }
    }
    if equal_ignoring_ascii_case(a, b) && equal_ignoring_ascii_case(b, c) {
        assert forall|i: int| 0 <= i < a.len() implies ascii_lower(#[trigger] a[i]) == ascii_lower(
            c[i],
        ) by {
            assert(ascii_lower(b[i]) == ascii_lower(c[i]));
        }
    }
}

/// Elsewhere than on Windows, one slash or two at the end of a path make no other path.
pub proof fn law_repeated_slashes_do_not_count(path: Seq<char>, platform: Platform)
    requires
        platform != Platform::Windows,
        path.len() > 0,
    ensures
        is_same_path(path.push('/'), path.push('/').push('/'), platform),
        is_same_path(path, path.push('/'), platform),
{
    let once = path.push('/');
    let twice = once.push('/');
    assert(once.drop_last() =~= path);
    assert(twice.drop_last() =~= once);
    let all = pieces(path);
    assert(all.push(seq![]).drop_last() =~= all);
    assert(all.push(seq![]).push(seq![]).drop_last() =~= all.push(seq![]));
}

/// On Windows two texts are one path exactly where they are of one length, and what stands in one
/// stands in the other at the same place, but for the case of an ASCII letter.
pub proof fn law_windows_paths_ignore_the_case_of_letters(left: Seq<char>, right: Seq<char>)
    ensures
        is_same_path(left, right, Platform::Windows) <==> left.len() == right.len() && forall|
            i: int,
        |
            0 <= i < left.len() ==> {
                ||| #[trigger] left[i] == right[i]
                ||| 'A' <= left[i] <= 'Z' && right[i] as int == left[i] as int + 32
                ||| 'A' <= right[i] <= 'Z' && left[i] as int == right[i] as int + 32
            },
{
    if left.len() == right.len() {
        assert forall|i: int| 0 <= i < left.len() implies (ascii_lower(#[trigger] left[i])
            == ascii_lower(right[i]) <==> {
            ||| left[i] == right[i]
            ||| 'A' <= left[i] <= 'Z' && right[i] as int == left[i] as int + 32
            ||| 'A' <= right[i] <= 'Z' && left[i] as int == right[i] as int + 32
        }) by {}
    }
}

/// Elsewhere than on Windows two texts are one path exactly where both or neither begin with a
/// slash, and their parts are the same.
pub proof fn law_other_paths_are_their_parts(
    left: Seq<char>,
    right: Seq<char>,
    platform: Platform,
)
    requires
        platform != Platform::Windows,
    ensures
        is_same_path(left, right, platform) <==> ((left.len() > 0 && left[0] == '/') == (right.len()
            > 0 && right[0] == '/')) && parts(left) == parts(right),
{
}

proof fn lemma_pieces_of_a_name(name: Seq<char>)
    requires
        !name.contains('/'),
    ensures
        pieces(name) == seq![name],
    decreases name.len(),
{
    if name.len() > 0 {
        let before = name.drop_last();
        assert forall|i: int| 0 <= i < before.len() implies before[i] != '/' by {
            assert(name.contains(name[i]));
        }
        lemma_pieces_of_a_name(before);
        assert(name.contains(name.last()));
        assert(before.push(name.last()) =~= name);
        assert(seq![before].drop_last().push(name) =~= seq![name]);
    } else {
        assert(name =~= seq![]);
    }
}

proof fn lemma_pieces_split(before: Seq<char>, after: Seq<char>)
    ensures
        pieces(before + seq!['/'] + after) == pieces(before) + pieces(after),
        pieces(after).len() > 0,
    decreases after.len(),
{
    let whole = before + seq!['/'] + after;
    if after.len() == 0 {
        assert(whole.drop_last() =~= before);
        assert(pieces(before).push(seq![]) =~= pieces(before) + seq![seq![]]);
    } else {
        let shorter = after.drop_last();
        lemma_pieces_split(before, shorter);
        assert(whole.drop_last() =~= before + seq!['/'] + shorter);
        let head = pieces(before);
        let tail = pieces(shorter);
        assert((head + tail).drop_last() =~= head + tail.drop_last());
        assert((head + tail).last() == tail.last());
        assert(pieces(whole) =~= head + pieces(after));
    }
}

proof fn lemma_parts_split(head: Seq<Seq<char>>, tail: Seq<Seq<char>>)
    requires
        head.len() > 0,
    ensures
        parts_among(head + tail) == parts_among(head) + parts_among(seq![seq![]] + tail),
    decreases tail.len(),
{
    let nothing: Seq<Seq<char>> = seq![seq![]];
    if tail.len() == 0 {
        assert(head + tail =~= head);
        assert(nothing + tail =~= nothing);
        assert(parts_among(nothing) =~= seq![]) by {
            assert(nothing.drop_last() =~= seq![]);
            assert(parts_among(nothing.drop_last()) =~= seq![]);
        }
        assert(parts_among(head) + parts_among(nothing) =~= parts_among(head));
    } else {
        let shorter = tail.drop_last();
        lemma_parts_split(head, shorter);
        assert((head + tail).drop_last() =~= head + shorter);
        assert((nothing + tail).drop_last() =~= nothing + shorter);
        assert(parts_among(head + tail) =~= parts_among(head) + parts_among(nothing + tail));
    }
}

/// The parts of a path are those before a slash, and those from the slash on.
pub proof fn law_parts_split_at_slashes(before: Seq<char>, after: Seq<char>)
    ensures
        parts(before + seq!['/'] + after) == parts(before) + parts(seq!['/'] + after),
{
    lemma_pieces_split(before, after);
    lemma_pieces_split(seq![], after);
    lemma_pieces_split(seq![], before);
    assert(seq![] + seq!['/'] + after =~= seq!['/'] + after);
    let nothing: Seq<Seq<char>> = seq![seq![]];
    assert(pieces(seq![]) =~= nothing);
    lemma_parts_split(pieces(before), pieces(after));
}

/// What has no slash in it is one part, unless there is nothing of it. Behind a slash a dot is
/// none either.
pub proof fn law_names_are_parts(name: Seq<char>)
    requires
        !name.contains('/'),
    ensures
        parts(name) == if name.len() == 0 {
            Seq::<Seq<char>>::empty()
        } else {
            seq![name]
        },
        parts(seq!['/'] + name) == if name.len() == 0 || name == seq!['.'] {
            Seq::<Seq<char>>::empty()
        } else {
            seq![name]
        },
{
    lemma_pieces_of_a_name(name);
    lemma_pieces_split(seq![], name);
    assert(seq![] + seq!['/'] + name =~= seq!['/'] + name);
    let nothing: Seq<Seq<char>> = seq![seq![]];
    assert(pieces(seq![]) =~= nothing);
    assert(seq![name].drop_last() =~= seq![]);
    assert(parts_among(seq![]) =~= seq![]);
    assert(parts(name) =~= if name.len() == 0 {
        Seq::<Seq<char>>::empty()
    } else {
        seq![name]
    });
    let both = nothing + seq![name];
    assert(both.drop_last() =~= nothing);
    assert(nothing.drop_last() =~= seq![]);
    assert(parts_among(nothing) =~= seq![]);
    assert(parts_among(both) =~= if name.len() == 0 || name == seq!['.'] {
        Seq::<Seq<char>>::empty()
    } else {
        seq![name]
    });
}

/// Elsewhere than on Windows, slashes and dots between two parts of a path do not count: however
/// they are repeated there, the path is the same.
pub proof fn law_slashes_and_dots_between_parts_do_not_count(
    before: Seq<char>,
    after: Seq<char>,
    platform: Platform,
)
    requires
        platform != Platform::Windows,
        before.len() > 0,
    ensures
        is_same_path(
            before + seq!['/'] + after,
            before + seq!['/'] + (seq!['/'] + after),
            platform,
        ),
        is_same_path(
            before + seq!['/'] + after,
            before + seq!['/'] + (seq!['.'] + seq!['/'] + after),
            platform,
        ),
{
    let slash = seq!['/'] + after;
    let dot = seq!['.'] + seq!['/'] + after;
    law_parts_split_at_slashes(before, after);
    law_parts_split_at_slashes(before, slash);
    law_parts_split_at_slashes(before, dot);
    law_parts_split_at_slashes(seq!['/'], after);
    law_parts_split_at_slashes(seq!['/', '.'], after);
    assert(seq!['/'] + seq!['/'] + after =~= seq!['/'] + slash);
    assert(seq!['/', '.'] + seq!['/'] + after =~= seq!['/'] + dot);
    law_names_are_parts(seq![]);
    law_names_are_parts(seq!['.']);
    assert(seq!['/'] + Seq::<char>::empty() =~= seq!['/']);
    assert(seq!['/'] + seq!['.'] =~= seq!['/', '.']);
    assert(parts(seq!['/']) + parts(slash) =~= parts(slash));
    assert(parts(seq!['/', '.']) + parts(slash) =~= parts(slash));
}

/// A path is joined from its directory and its name, with one separator at most between them:
/// a slash, or on Windows a backslash. There is none where the directory is empty or ends in a
/// separator, nor on Windows behind the letter and the colon of a drive.
pub proof fn law_joined_paths_have_one_separator(
    directory: Seq<char>,
    name: Seq<char>,
    platform: Platform,
)
    ensures
        ({
            let path = joined(directory, name, platform);
            let windows = platform == Platform::Windows;
            let between = path.len() - directory.len() - name.len();
            let ended = directory.len() == 0 || directory.last() == '/' || windows
                && directory.last() == '\\';
            let drive = directory.len() == 2 && directory[1] == ':' && ('a' <= directory[0] <= 'z'
                || 'A' <= directory[0] <= 'Z');
            &&& between == 0 || between == 1
            &&& path.take(directory.len() as int) == directory
            &&& path.skip(path.len() - name.len()) == name
            &&& between == 0 <==> ended || windows && drive
            &&& between == 1 ==> path[directory.len() as int] == (if windows {
                '\\'
            } else {
                '/'
            })
        }),
{
    let path = joined(directory, name, platform);
    assert(path.take(directory.len() as int) =~= directory);
    assert(path.skip(path.len() - name.len()) =~= name);
    if directory.len() == 2 {
        let c = directory[0];
        assert('a' <= ascii_lower(c) <= 'z' <==> 'a' <= c <= 'z' || 'A' <= c <= 'Z');
    }
}

/// Elsewhere than on Windows, the parts of a joined path are those of its directory and its name.
pub proof fn law_joined_paths_end_in_their_name(
    directory: Seq<char>,
    name: Seq<char>,
    platform: Platform,
)
    requires
        platform != Platform::Windows,
        directory.len() > 0,
        name.len() > 0,
        name != seq!['.'],
        !name.contains('/'),
    ensures
        parts(joined(directory, name, platform)) == parts(directory).push(name),
        is_rooted(joined(directory, name, platform)) == is_rooted(directory),
{
    law_names_are_parts(name);
    if directory.last() == '/' {
        let before = directory.drop_last();
        law_parts_split_at_slashes(before, name);
        law_parts_split_at_slashes(before, seq![]);
        law_names_are_parts(seq![]);
        assert(before + seq!['/'] + name =~= directory + name);
        assert(before + seq!['/'] + Seq::<char>::empty() =~= directory);
        assert(parts(directory) =~= parts(before));
        assert(parts(before) + seq![name] =~= parts(before).push(name));
    } else {
        law_parts_split_at_slashes(directory, name);
        assert(parts(directory) + seq![name] =~= parts(directory).push(name));
    }
}

} // verus!
