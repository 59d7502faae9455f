//! File names and their extensions.
//!
//! A name is the last component of a path. Its extension is what stands behind the last point,
//! unless the name has no other point than one at its beginning.
use vstd::prelude::*;

use crate::text;

verus! {

/// The position of the last point.
pub open spec fn last_point(name: Seq<char>) -> Option<int>
    decreases name.len(),
{
    if name.len() == 0 {
        None
    } else if name.last() == '.' {
        Some(name.len() - 1)
    } else {
        last_point(name.drop_last())
    }
}

/// The position of the point that separates the stem of a name from its extension.
pub open spec fn extension_point(name: Seq<char>) -> Option<int> {
    match last_point(name) {
        Some(at) => if at > 0 && name != ".."@ {
            Some(at)
        } else {
            None
        },
        None => None,
    }
}

/// The extension of a file name.
pub open spec fn extension_of(name: Seq<char>) -> Option<Seq<char>> {
    match extension_point(name) {
        Some(at) => Some(name.skip(at + 1)),
        None => None,
    }
}

/// The name without its extension.
pub open spec fn stem_of(name: Seq<char>) -> Seq<char> {
    match extension_point(name) {
        Some(at) => name.take(at),
        None => name,
    }
}

/// Whether a text names a file. The empty text and the names of a directory itself and of the one
/// above it do not.
pub open spec fn is_file_name(name: Seq<char>) -> bool {
    name.len() > 0 && name != "."@ && name != ".."@
}

/// The name with its extension replaced, or added when it has none. An empty extension is taken
/// away together with its point, and what names no file stays as it is.
pub open spec fn with_extension(name: Seq<char>, extension: Seq<char>) -> Seq<char> {
    if !is_file_name(name) {
        name
    } else if extension.len() == 0 {
        stem_of(name)
    } else {
        stem_of(name) + "."@ + extension
    }
}

proof fn lemma_last_point(name: Seq<char>)
    ensures
        match last_point(name) {
            Some(at) => 0 <= at < name.len() && name[at] == '.' && forall|i: int|
                at < i < name.len() ==> #[trigger] name[i] != '.',
            None => forall|i: int| 0 <= i < name.len() ==> #[trigger] name[i] != '.',
        },
    decreases name.len(),
{
    if name.len() > 0 && name.last() != '.' {
        let rest = name.drop_last();
        lemma_last_point(rest);
        assert forall|i: int|
            (match last_point(name) {
                Some(at) => at,
                None => -1,
            }) < i < name.len() implies #[trigger] name[i] != '.' by {
            if i < rest.len() {
                assert(rest[i] == name[i]);
            }
        }
    }
}

fn find_extension_point(name: &[char]) -> (at: Option<usize>)
    ensures
        match at {
            Some(at) => extension_point(name@) == Some(at as int) && at < name.len(),
            None => extension_point(name@) is None,
        },
{
    let mut n: usize = name.len();
    assert(name@.take(n as int) == name@);
    while n > 0 && name[n - 1] != '.'
        invariant
            n <= name.len(),
            last_point(name@) == last_point(name@.take(n as int)),
        decreases n,
    {
        assert(name@.take(n as int).drop_last() == name@.take(n - 1));
        n -= 1;
    }
    if n > 1 && !text::same_text(name, "..") {
        Some(n - 1)
    } else {
        None
    }
}

/// The extension of a file name.
pub fn extension(name: &[char]) -> (found: Option<&[char]>)
    ensures
        match found {
            Some(found) => extension_of(name@) == Some(found@),
            None => extension_of(name@) is None,
        },
{
    match find_extension_point(name) {
        Some(at) => {
            assert(name@.subrange(at + 1, name@.len() as int) == name@.skip(at + 1));
            Some(text::part(name, at + 1, name.len()))
        },
        None => None,
    }
}

/// The name without its extension.
pub fn stem(name: &[char]) -> (stem: &[char])
    ensures
        stem@ == stem_of(name@),
{
    match find_extension_point(name) {
        Some(at) => {
            assert(name@.subrange(0, at as int) == name@.take(at as int));
            text::part(name, 0, at)
        },
        None => name,
    }
}

/// Whether a text names a file.
pub fn names_file(name: &[char]) -> (named: bool)
    ensures
        named == is_file_name(name@),
{
    name.len() > 0 && !text::same_text(name, ".") && !text::same_text(name, "..")
}

/// Replaces the extension of a file name, or adds it when there is none. What names no file stays
/// as it is.
pub fn set_extension(name: &[char], extension: &str) -> (changed: Vec<char>)
    ensures
        changed@ == with_extension(name@, extension@),
{
    let mut changed: Vec<char> = Vec::new();
    if !names_file(name) {
        text::append_to(&mut changed, name);
        return changed;
    }
    text::append_to(&mut changed, stem(name));
    if text::chars_of(extension).len() == 0 {
        return changed;
    }
    text::append_str(&mut changed, ".");
    text::append_str(&mut changed, extension);
    changed
}

/// An extension without a point of its own is read back from a name that it was set on.
pub proof fn set_extension_is_read_back(name: Seq<char>, extension: Seq<char>)
    requires
        is_file_name(name),
        extension.len() > 0,
        forall|i: int| 0 <= i < extension.len() ==> #[trigger] extension[i] != '.',
    ensures
        extension_of(with_extension(name, extension)) == Some(extension),
        stem_of(with_extension(name, extension)) == stem_of(name),
{
    reveal_strlit(".");
    reveal_strlit("..");
    lemma_last_point(name);
    let stem = stem_of(name);
    let full = with_extension(name, extension);
    assert(stem.len() > 0);
    lemma_last_point(full);
    assert(full[stem.len() as int] == '.');
    assert forall|i: int| stem.len() < i < full.len() implies #[trigger] full[i] != '.' by {
        assert(full[i] == extension[i - stem.len() - 1]);
    }
    let at = last_point(full)->0;
    assert(at == stem.len());
    assert(full.skip(at + 1) == extension);
    assert(full.take(at) == stem);
}

} // verus!
