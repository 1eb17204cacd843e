//! Base name and extension of a path.
//!
//! A path is a text whose components are separated by `/`. Its base name is
//! what follows the last separator. The extension of a base name is what
//! follows its last dot, unless that dot is its first character or the name
//! is `..`.

use crate::text::text_of;
use vstd::prelude::*;
use vstd::std_specs::iter::IteratorSpec;
use vstd::string::*;

verus! {

/// The character that separates the components of a path.
pub const SEPARATOR: char = '/';

/// The character that introduces an extension.
pub const DOT: char = '.';

/// Position just behind the last `mark` in `s`; 0 where `s` holds none.
pub open spec fn after_last(s: Seq<char>, mark: char) -> int
    decreases s.len(),
{
    if s.len() == 0 {
        0
    } else if s.last() == mark {
        s.len() as int
    } else {
        after_last(s.drop_last(), mark)
    }
}

/// The base name of `path`: what follows its last separator.
pub open spec fn file_name_of(path: Seq<char>) -> Seq<char> {
    path.skip(after_last(path, SEPARATOR))
}

/// The extension of the base name `name`, without the dot.
pub open spec fn extension_of_name(name: Seq<char>) -> Option<Seq<char>> {
    let cut = after_last(name, DOT);
    if cut < 2 || name == seq![DOT, DOT] {
        None
    } else {
        Some(name.skip(cut))
    }
}

/// The extension of the base name of `path`, without the dot and as it is
/// written in the path.
pub open spec fn extension_of(path: Seq<char>) -> Option<Seq<char>> {
    extension_of_name(file_name_of(path))
}

/// `after_last` lies within the text, the character before it is the mark,
/// and no mark follows it.
pub proof fn lemma_after_last(s: Seq<char>, mark: char)
    ensures
        0 <= after_last(s, mark) <= s.len(),
        after_last(s, mark) > 0 ==> s[after_last(s, mark) - 1] == mark,
        forall|j: int| after_last(s, mark) <= j < s.len() ==> s[j] != mark,
    decreases s.len(),
{
    if s.len() > 0 && s.last() != mark {
        let front = s.drop_last();
        lemma_after_last(front, mark);
        assert forall|j: int| after_last(s, mark) <= j < s.len() implies s[j] != mark by {
            if j < front.len() {
                assert(s[j] == front[j]);
            }
        }
    }
}

/// A base name holds no separator, and the path is the name behind a prefix
/// that is empty or ends in a separator.
pub proof fn lemma_file_name_is_last_component(path: Seq<char>)
    ensures
        !file_name_of(path).contains(SEPARATOR),
        path == path.take(after_last(path, SEPARATOR)) + file_name_of(path),
        after_last(path, SEPARATOR) > 0 ==> path.take(after_last(path, SEPARATOR)).last()
            == SEPARATOR,
{
    lemma_after_last(path, SEPARATOR);
    let cut = after_last(path, SEPARATOR);
    let name = file_name_of(path);
    assert forall|j: int| 0 <= j < name.len() implies name[j] != SEPARATOR by {
        assert(name[j] == path[cut + j]);
    }
    assert(path =~= path.take(cut) + name);
}

/// An extension holds no dot, and the base name ends in a dot and the extension.
pub proof fn lemma_extension_is_last_suffix(name: Seq<char>)
    ensures
        extension_of_name(name) matches Some(ext) ==> {
            &&& !ext.contains(DOT)
            &&& name == name.take(name.len() - ext.len() - 1).push(DOT) + ext
            &&& name.len() - ext.len() - 1 > 0
        },
{
    lemma_after_last(name, DOT);
    if let Some(ext) = extension_of_name(name) {
        let cut = after_last(name, DOT);
        assert forall|j: int| 0 <= j < ext.len() implies ext[j] != DOT by {
            assert(ext[j] == name[cut + j]);
        }
        assert(name =~= name.take(cut - 1).push(DOT) + ext);
    }
}

/// Computes [`after_last`] in one pass over the text.
pub fn position_after_last(s: &str, mark: char) -> (pos: usize)
    ensures
        pos == after_last(s@, mark),
{
    broadcast use group_string_axioms;

    let n: usize = s.unicode_len();
    let mut chars = s.chars();
    let mut i: usize = 0;
    let mut pos: usize = 0;
    loop
        invariant
            0 <= i <= n,
            n == s@.len(),
            chars.remaining() == s@.skip(i as int),
            pos == after_last(s@.take(i as int), mark),
        decreases n - i,
    {
        match chars.next() {
            Some(c) => {
                assert(c == s@[i as int]);
                assert(s@.take(i + 1).drop_last() =~= s@.take(i as int));
                assert(s@.skip(i as int).drop_first() =~= s@.skip(i + 1));
                i = i + 1;
                if c == mark {
                    pos = i;
                }
            },
            None => {
                assert(s@.take(i as int) =~= s@);
                return pos;
            },
        }
    }
}

/// The base name of `path`.
pub fn file_name(path: &str) -> (name: String)
    ensures
        name@ == file_name_of(path@),
{
    let n: usize = path.unicode_len();
    let start: usize = position_after_last(path, SEPARATOR);
    proof {
        lemma_after_last(path@, SEPARATOR);
    }
    path.substring_char(start, n).to_owned()
}

/// The extension of `path`, as it is written there.
pub fn extension(path: &str) -> (ext: Option<String>)
    ensures
        text_of(ext) == extension_of(path@),
{
    let name = file_name(path);
    let n: usize = name.as_str().unicode_len();
    let cut: usize = position_after_last(name.as_str(), DOT);
    proof {
        lemma_after_last(name@, DOT);
    }
    if cut < 2 {
        return None;
    }
    if n == 2 && name.as_str().get_char(0) == DOT {
        assert(name@ =~= seq![DOT, DOT]);
        return None;
    }
    assert(name@ != seq![DOT, DOT]) by {
        if name@ == seq![DOT, DOT] {
            assert(seq![DOT, DOT].len() == 2);
            assert(seq![DOT, DOT][0] == DOT);
        }
    }
    Some(name.as_str().substring_char(cut, n).to_owned())
}

} // verus!
