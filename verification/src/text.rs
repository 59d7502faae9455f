//! Text as sequences of characters.
//!
//! Every rule of the studio that reads or builds text is stated over `Seq<char>`. The functions
//! here are the vocabulary of those rules: white space, trimming, searching, splitting, joining
//! and decimal numbers, each with a mathematical definition and an executable counterpart.
use vstd::prelude::*;

verus! {

/// `String::push` appends one character to the end of the string.
pub assume_specification[ String::push ](string: &mut String, ch: char)
    ensures
        final(string)@ == old(string)@.push(ch),
;

/// The characters of a string, in order.
pub fn chars_of(text: &str) -> (chars: Vec<char>)
    ensures
        chars@ == text@,
{
    let mut chars: Vec<char> = Vec::new();
    for c in iter: text.chars()
        invariant
            iter.seq() == text@,
            chars@ == text@.take(iter.index() as int),
    {
        chars.push(c);
    }
    chars
}

/// The string made of the given characters.
pub fn string_of(chars: &[char]) -> (text: String)
    ensures
        text@ == chars@,
{
    let mut text = String::new();
    let mut i: usize = 0;
    while i < chars.len()
        invariant
            i <= chars.len(),
            text@ == chars@.take(i as int),
        decreases chars.len() - i,
    {
        text.push(chars[i]);
        i += 1;
    }
    assert(chars@.take(i as int) == chars@);
    text
}

/// Unicode white space.
pub open spec fn is_space(c: char) -> bool {
    ||| '\u{9}' <= c <= '\u{D}'
    ||| c == ' '
    ||| c == '\u{85}'
    ||| c == '\u{A0}'
    ||| c == '\u{1680}'
    ||| '\u{2000}' <= c <= '\u{200A}'
    ||| c == '\u{2028}'
    ||| c == '\u{2029}'
    ||| c == '\u{202F}'
    ||| c == '\u{205F}'
    ||| c == '\u{3000}'
}

pub fn is_white_space(c: char) -> (white: bool)
    ensures
        white == is_space(c),
{
    ('\u{9}' <= c && c <= '\u{D}') || c == ' ' || c == '\u{85}' || c == '\u{A0}' || c == '\u{1680}'
        || ('\u{2000}' <= c && c <= '\u{200A}') || c == '\u{2028}' || c == '\u{2029}'
        || c == '\u{202F}' || c == '\u{205F}' || c == '\u{3000}'
}

/// The text without its leading white space.
pub open spec fn trimmed_start(s: Seq<char>) -> Seq<char>
    decreases s.len(),
{
    if s.len() > 0 && is_space(s[0]) {
        trimmed_start(s.skip(1))
    } else {
        s
    }
}

/// The text without its trailing white space.
pub open spec fn trimmed_end(s: Seq<char>) -> Seq<char>
    decreases s.len(),
{
    if s.len() > 0 && is_space(s.last()) {
        trimmed_end(s.drop_last())
    } else {
        s
    }
}

/// The text without white space at either end.
pub open spec fn trimmed(s: Seq<char>) -> Seq<char> {
    trimmed_end(trimmed_start(s))
}

pub fn trim_start(s: &[char]) -> (rest: &[char])
    ensures
        rest@ == trimmed_start(s@),
{
    let mut i: usize = 0;
    assert(s@.skip(0) == s@);
    while i < s.len() && is_white_space(s[i])
        invariant
            i <= s.len(),
            trimmed_start(s@) == trimmed_start(s@.skip(i as int)),
        decreases s.len() - i,
    {
        assert(s@.skip(i as int).skip(1) == s@.skip(i as int + 1));
        i += 1;
    }
    assert(s@.subrange(i as int, s@.len() as int) == s@.skip(i as int));
    vstd::slice::slice_subrange(s, i, s.len())
}

pub fn trim_end(s: &[char]) -> (rest: &[char])
    ensures
        rest@ == trimmed_end(s@),
{
    let mut n: usize = s.len();
    assert(s@.take(n as int) == s@);
    while n > 0 && is_white_space(s[n - 1])
        invariant
            n <= s.len(),
            trimmed_end(s@) == trimmed_end(s@.take(n as int)),
        decreases n,
    {
        assert(s@.take(n as int).drop_last() == s@.take(n as int - 1));
        n -= 1;
    }
    assert(s@.subrange(0, n as int) == s@.take(n as int));
    vstd::slice::slice_subrange(s, 0, n)
}

pub fn trim(s: &[char]) -> (rest: &[char])
    ensures
        rest@ == trimmed(s@),
{
    trim_end(trim_start(s))
}

/// Trimming only ever takes characters away.
pub proof fn lemma_trimmed_len(s: Seq<char>)
    ensures
        trimmed_start(s).len() <= s.len(),
        trimmed_end(s).len() <= s.len(),
    decreases s.len(),
{
    if s.len() > 0 {
        lemma_trimmed_len(s.skip(1));
        lemma_trimmed_len(s.drop_last());
    }
}

/// Some character of the text is not white space.
pub open spec fn is_visible(s: Seq<char>) -> bool {
    exists|i: int| 0 <= i < s.len() && !is_space(#[trigger] s[i])
}

/// Something is left after trimming exactly when some character is not white space.
pub proof fn lemma_trimmed_visible(s: Seq<char>)
    ensures
        trimmed(s).len() > 0 <==> is_visible(s),
{
    lemma_trimmed_start_visible(s);
    lemma_trimmed_end_visible(trimmed_start(s));
}

pub proof fn lemma_trimmed_start_visible(s: Seq<char>)
    ensures
        is_visible(trimmed_start(s)) <==> is_visible(s),
    decreases s.len(),
{
    if s.len() > 0 && is_space(s[0]) {
        let rest = s.skip(1);
        lemma_trimmed_start_visible(rest);
        if is_visible(rest) {
            let i = choose|i: int| 0 <= i < rest.len() && !is_space(#[trigger] rest[i]);
            assert(s[i + 1] == rest[i]);
        }
        if is_visible(s) {
            let i = choose|i: int| 0 <= i < s.len() && !is_space(#[trigger] s[i]);
            assert(rest[i - 1] == s[i]);
        }
    }
}

proof fn lemma_trimmed_end_visible(s: Seq<char>)
    ensures
        trimmed_end(s).len() > 0 <==> is_visible(s),
    decreases s.len(),
{
    if s.len() > 0 {
        if is_space(s.last()) {
            let rest = s.drop_last();
            lemma_trimmed_end_visible(rest);
            if is_visible(rest) {
                let i = choose|i: int| 0 <= i < rest.len() && !is_space(#[trigger] rest[i]);
                assert(s[i] == rest[i]);
            }
            if is_visible(s) {
                let i = choose|i: int| 0 <= i < s.len() && !is_space(#[trigger] s[i]);
                assert(rest[i] == s[i]);
            }
        } else {
            assert(!is_space(s[s.len() - 1]));
        }
    }
}

/// `pattern` stands in `s` from position `at` on.
pub open spec fn occurs_at(s: Seq<char>, pattern: Seq<char>, at: int) -> bool {
    0 <= at && at + pattern.len() <= s.len() && s.subrange(at, at + pattern.len()) == pattern
}

/// `pattern` stands somewhere in `s`.
pub open spec fn occurs(s: Seq<char>, pattern: Seq<char>) -> bool {
    exists|at: int| occurs_at(s, pattern, at)
}

/// The first position of `pattern` in `s` that is not before `from`.
pub open spec fn find_from(s: Seq<char>, pattern: Seq<char>, from: int) -> Option<int>
    decreases s.len() + 1 - from,
{
    if from + pattern.len() > s.len() {
        None
    } else if occurs_at(s, pattern, from) {
        Some(from)
    } else {
        find_from(s, pattern, from + 1)
    }
}

/// The first position of `pattern` in `s`.
pub open spec fn find(s: Seq<char>, pattern: Seq<char>) -> Option<int> {
    find_from(s, pattern, 0)
}

/// What `find_from` returns is the least position at or after `from`.
pub proof fn lemma_find_from(s: Seq<char>, pattern: Seq<char>, from: int)
    requires
        0 <= from,
    ensures
        match find_from(s, pattern, from) {
            Some(at) => {
                &&& from <= at
                &&& occurs_at(s, pattern, at)
                &&& forall|i: int| from <= i < at ==> !#[trigger] occurs_at(s, pattern, i)
            },
            None => forall|i: int| from <= i ==> !#[trigger] occurs_at(s, pattern, i),
        },
    decreases s.len() + 1 - from,
{
    if from + pattern.len() <= s.len() && !occurs_at(s, pattern, from) {
        lemma_find_from(s, pattern, from + 1);
    }
}

/// A pattern occurs exactly where `find` finds it.
pub proof fn lemma_occurs_iff_found(s: Seq<char>, pattern: Seq<char>)
    ensures
        occurs(s, pattern) <==> find(s, pattern) is Some,
{
    lemma_find_from(s, pattern, 0);
    if occurs(s, pattern) {
        let at = choose|at: int| occurs_at(s, pattern, at);
        assert(occurs_at(s, pattern, at));
    }
}

pub fn matches_at(s: &[char], pattern: &[char], at: usize) -> (found: bool)
    requires
        at <= s.len(),
    ensures
        found == occurs_at(s@, pattern@, at as int),
{
    if s.len() - at < pattern.len() {
        return false;
    }
    let mut i: usize = 0;
    while i < pattern.len()
        invariant
            i <= pattern.len(),
            at + pattern.len() <= s.len(),
            forall|j: int| 0 <= j < i ==> s@[at + j] == pattern@[j],
        decreases pattern.len() - i,
    {
        if s[at + i] != pattern[i] {
            assert(s@.subrange(at as int, at + pattern.len())[i as int] == s@[at + i]);
            return false;
        }
        i += 1;
    }
    assert(s@.subrange(at as int, at + pattern.len()) == pattern@);
    true
}

/// The first position of a pattern.
pub fn position(s: &[char], pattern: &[char]) -> (at: Option<usize>)
    ensures
        match at {
            Some(at) => find(s@, pattern@) == Some(at as int),
            None => find(s@, pattern@) is None,
        },
{
    let mut i: usize = 0;
    while i <= s.len() && pattern.len() <= s.len() - i
        invariant
            i <= s.len() + 1,
            i <= s.len() ==> find(s@, pattern@) == find_from(s@, pattern@, i as int),
            i > s.len() ==> find(s@, pattern@) is None,
        decreases s.len() + 1 - i,
    {
        if matches_at(s, pattern, i) {
            return Some(i);
        }
        if i == s.len() {
            assert(find_from(s@, pattern@, i as int + 1) is None);
            return None;
        }
        i += 1;
    }
    None
}

/// The first position of a pattern that is given as a string.
pub fn find_str(s: &[char], pattern: &str) -> (at: Option<usize>)
    ensures
        match at {
            Some(at) => find(s@, pattern@) == Some(at as int) && at + pattern@.len() <= s.len(),
            None => find(s@, pattern@) is None,
        },
{
    let chars = chars_of(pattern);
    proof {
        lemma_find_from(s@, pattern@, 0);
    }
    position(s, chars.as_slice())
}

/// Whether a pattern, given as a string, occurs in the text.
pub fn contains(s: &[char], pattern: &str) -> (found: bool)
    ensures
        found == occurs(s@, pattern@),
{
    proof {
        lemma_occurs_iff_found(s@, pattern@);
    }
    let pattern = chars_of(pattern);
    position(s, pattern.as_slice()).is_some()
}

/// Whether the text begins with the given string.
pub fn starts_with(s: &[char], prefix: &str) -> (found: bool)
    ensures
        found == occurs_at(s@, prefix@, 0),
{
    let prefix = chars_of(prefix);
    matches_at(s, prefix.as_slice(), 0)
}

/// The text after the given prefix; `None` when the text begins otherwise.
pub open spec fn after_prefix(s: Seq<char>, prefix: Seq<char>) -> Option<Seq<char>> {
    if occurs_at(s, prefix, 0) {
        Some(s.skip(prefix.len() as int))
    } else {
        None
    }
}

pub fn strip_prefix<'a>(s: &'a [char], prefix: &str) -> (rest: Option<&'a [char]>)
    ensures
        match rest {
            Some(rest) => after_prefix(s@, prefix@) == Some(rest@),
            None => after_prefix(s@, prefix@) is None,
        },
{
    let chars = chars_of(prefix);
    if matches_at(s, chars.as_slice(), 0) {
        assert(s@.subrange(prefix@.len() as int, s@.len() as int) == s@.skip(prefix@.len() as int));
        Some(part(s, chars.len(), s.len()))
    } else {
        None
    }
}

/// Whether two texts are equal.
pub fn same_text(s: &[char], other: &str) -> (same: bool)
    ensures
        same == (s@ == other@),
{
    let other = chars_of(other);
    if s.len() != other.len() {
        return false;
    }
    let found = matches_at(s, other.as_slice(), 0);
    assert(s@.subrange(0, s@.len() as int) == s@);
    found
}

/// The part of the text from `from` up to `to`.
pub fn part(s: &[char], from: usize, to: usize) -> (cut: &[char])
    requires
        from <= to <= s.len(),
    ensures
        cut@ == s@.subrange(from as int, to as int),
{
    vstd::slice::slice_subrange(s, from, to)
}

/// The texts that a list of slices stands for.
pub open spec fn texts(parts: Seq<&[char]>) -> Seq<Seq<char>> {
    Seq::new(parts.len(), |i: int| parts[i]@)
}

/// The pieces of `s` between the occurrences of `separator`: always at least one.
pub open spec fn pieces(s: Seq<char>, separator: char) -> Seq<Seq<char>>
    decreases s.len(),
    via pieces_decreases
{
    match find(s, seq![separator]) {
        None => seq![s],
        Some(at) => seq![s.take(at)] + pieces(s.skip(at + 1), separator),
    }
}

#[via_fn]
proof fn pieces_decreases(s: Seq<char>, separator: char) {
    lemma_find_from(s, seq![separator], 0);
}

/// There is always a piece.
pub proof fn lemma_pieces_not_empty(s: Seq<char>, separator: char)
    ensures
        pieces(s, separator).len() > 0,
{
}

/// At most `limit` pieces of `s`: the last one keeps the separators that are left.
pub open spec fn first_pieces(s: Seq<char>, separator: char, limit: nat) -> Seq<Seq<char>>
    decreases limit,
{
    if limit == 0 {
        Seq::empty()
    } else if limit == 1 {
        seq![s]
    } else {
        match find(s, seq![separator]) {
            None => seq![s],
            Some(at) => seq![s.take(at)] + first_pieces(s.skip(at + 1), separator, (limit - 1) as nat),
        }
    }
}

/// The position of a character.
pub fn char_position(s: &[char], c: char) -> (at: Option<usize>)
    ensures
        match at {
            Some(at) => find(s@, seq![c]) == Some(at as int) && at < s.len(),
            None => find(s@, seq![c]) is None,
        },
{
    let pattern: [char; 1] = [c];
    assert(pattern@ == seq![c]);
    proof {
        lemma_find_from(s@, seq![c], 0);
    }
    position(s, pattern.as_slice())
}

pub fn split(s: &[char], separator: char) -> (parts: Vec<&[char]>)
    ensures
        texts(parts@) == pieces(s@, separator),
{
    let mut parts: Vec<&[char]> = Vec::new();
    let mut rest: &[char] = s;
    loop
        invariant
            pieces(s@, separator) == texts(parts@) + pieces(rest@, separator),
        decreases rest.len(),
    {
        let ghost done = parts@;
        match char_position(rest, separator) {
            None => {
                parts.push(rest);
                assert(texts(parts@) == texts(done) + seq![rest@]);
                return parts;
            },
            Some(at) => {
                let head = part(rest, 0, at);
                let tail = part(rest, at + 1, rest.len());
                parts.push(head);
                assert(head@ == rest@.take(at as int));
                assert(tail@ == rest@.skip(at as int + 1));
                assert(texts(parts@) + pieces(tail@, separator) == texts(done) + (seq![head@]
                    + pieces(tail@, separator)));
                rest = tail;
            },
        }
    }
}

pub fn splitn(s: &[char], separator: char, limit: usize) -> (parts: Vec<&[char]>)
    ensures
        texts(parts@) == first_pieces(s@, separator, limit as nat),
{
    let mut parts: Vec<&[char]> = Vec::new();
    let mut rest: &[char] = s;
    let mut left: usize = limit;
    loop
        invariant
            first_pieces(s@, separator, limit as nat) == texts(parts@) + first_pieces(
                rest@,
                separator,
                left as nat,
            ),
        decreases left,
    {
        let ghost done = parts@;
        if left == 0 {
            assert(texts(done) + first_pieces(rest@, separator, 0) == texts(done));
            return parts;
        }
        if left == 1 {
            parts.push(rest);
            assert(texts(parts@) == texts(done) + seq![rest@]);
            return parts;
        }
        match char_position(rest, separator) {
            None => {
                parts.push(rest);
                assert(texts(parts@) == texts(done) + seq![rest@]);
                return parts;
            },
            Some(at) => {
                let head = part(rest, 0, at);
                let tail = part(rest, at + 1, rest.len());
                parts.push(head);
                assert(head@ == rest@.take(at as int));
                assert(tail@ == rest@.skip(at as int + 1));
                assert(texts(parts@) + first_pieces(tail@, separator, (left - 1) as nat)
                    == texts(done) + (seq![head@] + first_pieces(
                    tail@,
                    separator,
                    (left - 1) as nat,
                )));
                rest = tail;
                left -= 1;
            },
        }
    }
}

/// A line without the carriage return before its line feed.
pub open spec fn without_return(line: Seq<char>) -> Seq<char> {
    if line.len() > 0 && line.last() == '\r' {
        line.drop_last()
    } else {
        line
    }
}

/// The lines of a text. A line ends with a line feed, with or without a carriage return before
/// it; what follows the last line feed is a line when it is not empty.
pub open spec fn lines_of(s: Seq<char>) -> Seq<Seq<char>>
    decreases s.len(),
    via lines_of_decreases
{
    if s.len() == 0 {
        Seq::empty()
    } else {
        match find(s, seq!['\n']) {
            None => seq![s],
            Some(at) => seq![without_return(s.take(at))] + lines_of(s.skip(at + 1)),
        }
    }
}

#[via_fn]
proof fn lines_of_decreases(s: Seq<char>) {
    lemma_find_from(s, seq!['\n'], 0);
}

pub fn lines(s: &[char]) -> (parts: Vec<&[char]>)
    ensures
        texts(parts@) == lines_of(s@),
{
    let mut parts: Vec<&[char]> = Vec::new();
    let mut rest: &[char] = s;
    loop
        invariant
            lines_of(s@) == texts(parts@) + lines_of(rest@),
        decreases rest.len(),
    {
        let ghost done = parts@;
        if rest.len() == 0 {
            assert(texts(done) + lines_of(rest@) == texts(done));
            return parts;
        }
        match char_position(rest, '\n') {
            None => {
                parts.push(rest);
                assert(texts(parts@) == texts(done) + seq![rest@]);
                return parts;
            },
            Some(at) => {
                let end = if at > 0 && rest[at - 1] == '\r' {
                    at - 1
                } else {
                    at
                };
                let head = part(rest, 0, end);
                let tail = part(rest, at + 1, rest.len());
                parts.push(head);
                assert(head@ == without_return(rest@.take(at as int)));
                assert(tail@ == rest@.skip(at as int + 1));
                assert(texts(parts@) + lines_of(tail@) == texts(done) + (seq![head@] + lines_of(
                    tail@,
                )));
                rest = tail;
            },
        }
    }
}

/// The length of the word at the beginning of the text.
pub open spec fn word_len(s: Seq<char>) -> nat
    decreases s.len(),
{
    if s.len() > 0 && !is_space(s[0]) {
        1 + word_len(s.skip(1))
    } else {
        0
    }
}

pub proof fn lemma_word_len(s: Seq<char>)
    ensures
        word_len(s) <= s.len(),
        word_len(s) < s.len() ==> is_space(s[word_len(s) as int]),
        forall|i: int| 0 <= i < word_len(s) ==> !is_space(#[trigger] s[i]),
    decreases s.len(),
{
    if s.len() > 0 && !is_space(s[0]) {
        lemma_word_len(s.skip(1));
        assert forall|i: int| 0 <= i < word_len(s) implies !is_space(#[trigger] s[i]) by {
            if i > 0 {
                assert(s.skip(1)[i - 1] == s[i]);
            }
        }
    }
}

/// The words of a text: the runs of characters between white space.
pub open spec fn words(s: Seq<char>) -> Seq<Seq<char>>
    decreases s.len(),
    via words_decreases
{
    let t = trimmed_start(s);
    if t.len() == 0 {
        Seq::empty()
    } else {
        let n = word_len(t) as int;
        seq![t.take(n)] + words(t.skip(n))
    }
}

#[via_fn]
proof fn words_decreases(s: Seq<char>) {
    lemma_trimmed_len(s);
    lemma_trimmed_start(s);
    lemma_word_len(trimmed_start(s));
}

/// What is left after trimming the start does not begin with white space.
pub proof fn lemma_trimmed_start(s: Seq<char>)
    ensures
        trimmed_start(s).len() > 0 ==> !is_space(trimmed_start(s)[0]),
    decreases s.len(),
{
    if s.len() > 0 && is_space(s[0]) {
        lemma_trimmed_start(s.skip(1));
    }
}

/// No word is empty.
pub proof fn lemma_words_not_empty(s: Seq<char>)
    ensures
        forall|i: int| 0 <= i < words(s).len() ==> (#[trigger] words(s)[i]).len() > 0,
    decreases s.len(),
{
    let t = trimmed_start(s);
    lemma_trimmed_len(s);
    lemma_trimmed_start(s);
    lemma_word_len(t);
    if t.len() > 0 {
        let n = word_len(t) as int;
        let rest = words(t.skip(n));
        lemma_words_not_empty(t.skip(n));
        assert forall|i: int| 0 <= i < words(s).len() implies (#[trigger] words(s)[i]).len() > 0 by {
            if i > 0 {
                assert(words(s)[i] == rest[i - 1]);
            }
        }
    }
}

pub fn split_whitespace(s: &[char]) -> (parts: Vec<&[char]>)
    ensures
        texts(parts@) == words(s@),
{
    let mut parts: Vec<&[char]> = Vec::new();
    let mut rest: &[char] = s;
    loop
        invariant
            words(s@) == texts(parts@) + words(rest@),
        decreases rest.len(),
    {
        let ghost done = parts@;
        let t = trim_start(rest);
        proof {
            lemma_trimmed_len(rest@);
            lemma_trimmed_start(rest@);
            lemma_word_len(t@);
        }
        if t.len() == 0 {
            assert(texts(done) + words(rest@) == texts(done));
            return parts;
        }
        let n = first_word_len(t);
        let head = part(t, 0, n);
        let tail = part(t, n, t.len());
        parts.push(head);
        assert(head@ == t@.take(n as int));
        assert(tail@ == t@.skip(n as int));
        assert(texts(parts@) + words(tail@) == texts(done) + (seq![head@] + words(tail@)));
        rest = tail;
    }
}

fn first_word_len(s: &[char]) -> (n: usize)
    ensures
        n == word_len(s@),
{
    let mut n: usize = 0;
    assert(s@.skip(0) == s@);
    while n < s.len() && !is_white_space(s[n])
        invariant
            n <= s.len(),
            word_len(s@) == n + word_len(s@.skip(n as int)),
        decreases s.len() - n,
    {
        assert(s@.skip(n as int).skip(1) == s@.skip(n as int + 1));
        n += 1;
    }
    n
}

/// The texts one after the other, with `separator` between two neighbours.
pub open spec fn joined(parts: Seq<Seq<char>>, separator: Seq<char>) -> Seq<char>
    decreases parts.len(),
{
    if parts.len() == 0 {
        Seq::empty()
    } else if parts.len() == 1 {
        parts[0]
    } else {
        joined(parts.drop_last(), separator) + separator + parts.last()
    }
}

pub fn append_to(target: &mut Vec<char>, more: &[char])
    ensures
        final(target)@ == old(target)@ + more@,
{
    let ghost start = target@;
    let mut i: usize = 0;
    while i < more.len()
        invariant
            i <= more.len(),
            target@ == start + more@.take(i as int),
        decreases more.len() - i,
    {
        target.push(more[i]);
        i += 1;
    }
    assert(more@.take(i as int) == more@);
}

pub fn append_str(target: &mut Vec<char>, more: &str)
    ensures
        final(target)@ == old(target)@ + more@,
{
    let more = chars_of(more);
    append_to(target, more.as_slice());
}

/// The parts joined with one space between two neighbours.
pub fn join_with_space(parts: &Vec<&[char]>) -> (text: Vec<char>)
    ensures
        text@ == joined(texts(parts@), seq![' ']),
{
    let mut text: Vec<char> = Vec::new();
    let mut i: usize = 0;
    while i < parts.len()
        invariant
            i <= parts.len(),
            text@ == joined(texts(parts@).take(i as int), seq![' ']),
        decreases parts.len() - i,
    {
        let ghost before = texts(parts@).take(i as int);
        let ghost after = texts(parts@).take(i as int + 1);
        assert(after.drop_last() == before);
        if i > 0 {
            text.push(' ');
        }
        append_to(&mut text, parts[i]);
        assert(i > 0 ==> text@ == joined(before, seq![' ']) + seq![' '] + after.last());
        assert(i == 0 ==> text@ == after[0]);
        i += 1;
    }
    assert(texts(parts@).take(i as int) == texts(parts@));
    text
}

/// `s` with every occurrence of `from` replaced by `to`, found from left to right.
pub open spec fn replaced(s: Seq<char>, from: Seq<char>, to: Seq<char>) -> Seq<char>
    decreases s.len(),
    when from.len() > 0
    via replaced_decreases
{
    match find(s, from) {
        None => s,
        Some(at) => s.take(at) + to + replaced(s.skip(at + from.len()), from, to),
    }
}

#[via_fn]
proof fn replaced_decreases(s: Seq<char>, from: Seq<char>, to: Seq<char>) {
    lemma_find_from(s, from, 0);
}

pub fn replace(s: &[char], from: &str, to: &str) -> (text: Vec<char>)
    requires
        from@.len() > 0,
    ensures
        text@ == replaced(s@, from@, to@),
{
    let pattern = chars_of(from);
    let mut text: Vec<char> = Vec::new();
    let mut rest: &[char] = s;
    loop
        invariant
            pattern@ == from@,
            from@.len() > 0,
            replaced(s@, from@, to@) == text@ + replaced(rest@, from@, to@),
        decreases rest.len(),
    {
        let ghost done = text@;
        proof {
            lemma_find_from(rest@, from@, 0);
        }
        match position(rest, pattern.as_slice()) {
            None => {
                append_to(&mut text, rest);
                return text;
            },
            Some(at) => {
                let head = part(rest, 0, at);
                let tail = part(rest, at + pattern.len(), rest.len());
                append_to(&mut text, head);
                append_str(&mut text, to);
                assert(head@ == rest@.take(at as int));
                assert(tail@ == rest@.skip(at + from@.len()));
                assert(text@ + replaced(tail@, from@, to@) == done + (head@ + to@ + replaced(
                    tail@,
                    from@,
                    to@,
                )));
                rest = tail;
            },
        }
    }
}

/// An ASCII letter or digit.
pub open spec fn is_ascii_word(c: char) -> bool {
    ('0' <= c <= '9') || ('A' <= c <= 'Z') || ('a' <= c <= 'z')
}

pub fn is_ascii_alphanumeric(c: char) -> (word: bool)
    ensures
        word == is_ascii_word(c),
{
    ('0' <= c && c <= '9') || ('A' <= c && c <= 'Z') || ('a' <= c && c <= 'z')
}

/// The lower case form of an ASCII capital; any other character is its own.
pub open spec fn ascii_lower(c: char) -> char {
    if 'A' <= c <= 'Z' {
        (c as u32 + 32) as u32 as char
    } else {
        c
    }
}

pub open spec fn ascii_lowered(s: Seq<char>) -> Seq<char> {
    s.map_values(|c: char| ascii_lower(c))
}

pub fn to_ascii_lowercase(s: &[char]) -> (lower: Vec<char>)
    ensures
        lower@ == ascii_lowered(s@),
{
    let mut lower: Vec<char> = Vec::new();
    let mut i: usize = 0;
    while i < s.len()
        invariant
            i <= s.len(),
            lower@ == ascii_lowered(s@.take(i as int)),
        decreases s.len() - i,
    {
        let c = s[i];
        lower.push(lower_ascii_char(c));
        assert(s@.take(i as int + 1) == s@.take(i as int).push(c));
        assert(ascii_lowered(s@.take(i as int + 1)) == ascii_lowered(s@.take(i as int)).push(
            ascii_lower(c),
        ));
        i += 1;
    }
    assert(s@.take(i as int) == s@);
    lower
}

fn lower_ascii_char(c: char) -> (lower: char)
    ensures
        lower == ascii_lower(c),
{
    if 'A' <= c && c <= 'Z' {
        let code: u8 = c as u8;
        let lower: u8 = code + 32;
        lower as char
    } else {
        c
    }
}

/// Whether two texts differ at most in the case of their ASCII letters.
pub fn eq_ignore_ascii_case(s: &[char], other: &str) -> (same: bool)
    ensures
        same == (ascii_lowered(s@) == ascii_lowered(other@)),
{
    let other = chars_of(other);
    let lower = to_ascii_lowercase(s);
    let other_lower = to_ascii_lowercase(other.as_slice());
    if lower.len() != other_lower.len() {
        return false;
    }
    let same = matches_at(lower.as_slice(), other_lower.as_slice(), 0);
    assert(lower@.subrange(0, lower@.len() as int) == lower@);
    same
}

/// The lower case form that `str::to_lowercase` gives to a text.
pub uninterp spec fn lowercased(s: Seq<char>) -> Seq<char>;

/// `str::to_lowercase` maps a text to its Unicode lower case form, which depends on the text alone.
#[verifier::external_body]
pub(crate) fn to_lowercase(s: &str) -> (lower: String)
    ensures
        lower@ == lowercased(s@),
{
    s.to_lowercase()
}

pub open spec fn is_digit(c: char) -> bool {
    '0' <= c <= '9'
}

pub open spec fn digit_value(c: char) -> int {
    c as int - '0' as int
}

pub open spec fn all_digits(s: Seq<char>) -> bool {
    forall|i: int| 0 <= i < s.len() ==> is_digit(#[trigger] s[i])
}

/// The number that a sequence of decimal digits stands for.
pub open spec fn digits_value(s: Seq<char>) -> nat
    decreases s.len(),
{
    if s.len() == 0 {
        0
    } else {
        (digits_value(s.drop_last()) * 10 + digit_value(s.last())) as nat
    }
}

/// The digits after the optional plus sign of a number.
pub open spec fn unsigned_digits(s: Seq<char>) -> Seq<char> {
    if s.len() > 1 && s[0] == '+' {
        s.skip(1)
    } else {
        s
    }
}

/// The unsigned number that a text writes in decimal: one digit or more, with a plus sign before
/// them or none, and a value of at most 64 bits.
pub open spec fn number(s: Seq<char>) -> Option<u64> {
    let digits = unsigned_digits(s);
    if digits.len() > 0 && all_digits(digits) && digits_value(digits) <= u64::MAX {
        Some(digits_value(digits) as u64)
    } else {
        None
    }
}

/// A longer run of digits is no smaller a number.
pub proof fn lemma_digits_value_grows(s: Seq<char>, n: int)
    requires
        0 <= n <= s.len(),
        all_digits(s),
    ensures
        digits_value(s.take(n)) <= digits_value(s),
    decreases s.len(),
{
    if n < s.len() {
        assert(s.drop_last().take(n) == s.take(n));
        assert forall|i: int| 0 <= i < s.drop_last().len() implies is_digit(
            #[trigger] s.drop_last()[i],
        ) by {
            assert(is_digit(s[i]));
        }
        lemma_digits_value_grows(s.drop_last(), n);
        assert(is_digit(s[s.len() - 1]));
    } else {
        assert(s.take(n) == s);
    }
}

/// `n` digits stand for a number below ten to the `n`.
pub proof fn lemma_digits_value_bound(s: Seq<char>)
    requires
        all_digits(s),
    ensures
        s.len() <= 1 ==> digits_value(s) < 10,
        s.len() <= 2 ==> digits_value(s) < 100,
        s.len() <= 3 ==> digits_value(s) < 1_000,
    decreases s.len(),
{
    if s.len() > 0 {
        assert forall|i: int| 0 <= i < s.drop_last().len() implies is_digit(
            #[trigger] s.drop_last()[i],
        ) by {
            assert(is_digit(s[i]));
        }
        lemma_digits_value_bound(s.drop_last());
        assert(is_digit(s[s.len() - 1]));
        if s.len() == 1 {
            assert(digits_value(s.drop_last()) == 0);
        }
    }
}

/// A number of three characters is below a thousand.
pub proof fn lemma_number_bound(s: Seq<char>)
    requires
        s.len() <= 3,
    ensures
        number(s) is Some ==> number(s)->0 < 1_000,
{
    if number(s) is Some {
        lemma_digits_value_bound(unsigned_digits(s));
    }
}

pub fn parse_u64(s: &[char]) -> (value: Option<u64>)
    ensures
        value == number(s@),
{
    let mut i: usize = 0;
    if s.len() > 1 && s[0] == '+' {
        i = 1;
    }
    let ghost start = i as int;
    let ghost digits = unsigned_digits(s@);
    assert(digits == s@.skip(start));
    if i == s.len() {
        return None;
    }
    let mut value: u64 = 0;
    assert(digits.take(0) == Seq::<char>::empty());
    while i < s.len()
        invariant
            start <= i <= s.len(),
            0 <= start <= 1,
            digits == unsigned_digits(s@),
            digits == s@.skip(start),
            value == digits_value(digits.take(i - start)),
            forall|j: int| 0 <= j < i - start ==> is_digit(#[trigger] digits[j]),
        decreases s.len() - i,
    {
        let c = s[i];
        assert(digits[i - start] == c);
        if !('0' <= c && c <= '9') {
            return None;
        }
        let digit: u64 = c as u64 - '0' as u64;
        assert(digits.take(i - start + 1).drop_last() == digits.take(i - start));
        proof {
            if all_digits(digits) {
                lemma_digits_value_grows(digits, i - start + 1);
            }
        }
        match value.checked_mul(10) {
            None => {
                return None;
            },
            Some(tens) => match tens.checked_add(digit) {
                None => {
                    return None;
                },
                Some(sum) => {
                    value = sum;
                },
            },
        }
        i += 1;
    }
    assert(digits.take(i - start) == digits);
    Some(value)
}

/// The digit character of a number below ten.
pub open spec fn digit_char(value: int) -> char {
    ('0' as int + value) as u32 as char
}

/// A number in decimal, without leading zeros.
pub open spec fn decimal(n: nat) -> Seq<char>
    decreases n,
{
    if n < 10 {
        seq![digit_char(n as int)]
    } else {
        decimal(n / 10).push(digit_char((n % 10) as int))
    }
}

/// A text with zeros before it up to the given width.
pub open spec fn zero_padded(s: Seq<char>, width: nat) -> Seq<char> {
    if s.len() < width {
        Seq::new((width - s.len()) as nat, |i: int| '0') + s
    } else {
        s
    }
}

fn digit_of(value: u64) -> (c: char)
    requires
        value < 10,
    ensures
        c == digit_char(value as int),
{
    let code: u8 = 48 + value as u8;
    code as char
}

pub fn decimal_chars(n: u64) -> (digits: Vec<char>)
    ensures
        digits@ == decimal(n as nat),
    decreases n,
{
    if n < 10 {
        let mut digits: Vec<char> = Vec::new();
        digits.push(digit_of(n));
        digits
    } else {
        let mut digits = decimal_chars(n / 10);
        digits.push(digit_of(n % 10));
        digits
    }
}

/// Appends a number in decimal with at least `width` digits.
pub fn append_number(target: &mut Vec<char>, n: u64, width: usize)
    ensures
        final(target)@ == old(target)@ + zero_padded(decimal(n as nat), width as nat),
{
    let digits = decimal_chars(n);
    let ghost start = target@;
    let mut zeros: usize = 0;
    while digits.len() < width && zeros < width - digits.len()
        invariant
            zeros > 0 ==> zeros + digits.len() <= width,
            target@ == start + Seq::new(zeros as nat, |i: int| '0'),
        decreases width - zeros,
    {
        target.push('0');
        zeros += 1;
        assert(target@ == start + Seq::new(zeros as nat, |i: int| '0'));
    }
    assert(zeros == 0 ==> target@ == start);
    append_to(target, digits.as_slice());
    assert(target@ == start + zero_padded(decimal(n as nat), width as nat));
}

/// The digits that `decimal` writes stand for the number again.
pub proof fn lemma_decimal_value(n: nat)
    ensures
        decimal(n).len() > 0,
        all_digits(decimal(n)),
        digits_value(decimal(n)) == n,
    decreases n,
{
    reveal_with_fuel(digits_value, 2);
    if n >= 10 {
        lemma_decimal_value(n / 10);
        assert(decimal(n).drop_last() == decimal(n / 10));
        assert forall|i: int| 0 <= i < decimal(n).len() implies is_digit(#[trigger] decimal(n)[i]) by {
            if i < decimal(n).len() - 1 {
                assert(decimal(n)[i] == decimal(n / 10)[i]);
            }
        }
    } else {
        assert(decimal(n).drop_last() == Seq::<char>::empty());
    }
}

/// Zeros in front of a number do not change its value.
pub proof fn lemma_zero_padded_value(s: Seq<char>, width: nat)
    requires
        all_digits(s),
    ensures
        all_digits(zero_padded(s, width)),
        digits_value(zero_padded(s, width)) == digits_value(s),
    decreases s.len(), width,
{
    let padded = zero_padded(s, width);
    if s.len() < width {
        if s.len() == 0 {
            assert(padded.drop_last() == zero_padded(s, (width - 1) as nat));
            lemma_zero_padded_value(s, (width - 1) as nat);
        } else {
            assert(padded.drop_last() == zero_padded(s.drop_last(), (width - 1) as nat));
            assert forall|i: int| 0 <= i < s.drop_last().len() implies is_digit(
                #[trigger] s.drop_last()[i],
            ) by {
                assert(is_digit(s[i]));
            }
            lemma_zero_padded_value(s.drop_last(), (width - 1) as nat);
            assert(padded.last() == s.last());
        }
    }
}

/// The character does not stand in the text.
pub open spec fn lacks(s: Seq<char>, c: char) -> bool {
    forall|i: int| 0 <= i < s.len() ==> #[trigger] s[i] != c
}

pub proof fn lemma_occurs_char(s: Seq<char>, c: char, at: int)
    ensures
        occurs_at(s, seq![c], at) <==> 0 <= at < s.len() && s[at] == c,
{
    if 0 <= at < s.len() {
        assert(s.subrange(at, at + 1)[0] == s[at]);
        if s[at] == c {
            assert(s.subrange(at, at + 1) == seq![c]);
        }
    }
}

/// The position that `find` gives is the only one with an occurrence and none before it.
pub proof fn lemma_find_is(s: Seq<char>, pattern: Seq<char>, at: int)
    requires
        occurs_at(s, pattern, at),
        forall|i: int| 0 <= i < at ==> !#[trigger] occurs_at(s, pattern, i),
    ensures
        find(s, pattern) == Some(at),
{
    lemma_find_from(s, pattern, 0);
}

/// A character is found where it first stands.
pub proof fn lemma_find_char(a: Seq<char>, c: char, b: Seq<char>)
    requires
        lacks(a, c),
    ensures
        find(a + seq![c] + b, seq![c]) == Some(a.len() as int),
{
    let s = a + seq![c] + b;
    let at = a.len() as int;
    assert(s[at] == c);
    lemma_occurs_char(s, c, at);
    assert forall|i: int| 0 <= i < at implies !#[trigger] occurs_at(s, seq![c], i) by {
        assert(s[i] == a[i]);
        lemma_occurs_char(s, c, i);
    }
    lemma_find_is(s, seq![c], at);
}

/// A character that does not stand in the text is not found.
pub proof fn lemma_find_lacking(s: Seq<char>, c: char)
    requires
        lacks(s, c),
    ensures
        find(s, seq![c]) is None,
{
    lemma_find_from(s, seq![c], 0);
    let found = find(s, seq![c]);
    if found is Some {
        lemma_occurs_char(s, c, found->0);
    }
}

/// The pieces of a text are its head up to the first separator and the pieces of what follows.
pub proof fn lemma_pieces_cons(a: Seq<char>, separator: char, b: Seq<char>)
    requires
        lacks(a, separator),
    ensures
        pieces(a + seq![separator] + b, separator) == seq![a] + pieces(b, separator),
{
    let s = a + seq![separator] + b;
    lemma_find_char(a, separator, b);
    assert(s.take(a.len() as int) == a);
    assert(s.skip(a.len() as int + 1) == b);
}

/// A text without the separator is its own only piece.
pub proof fn lemma_pieces_single(s: Seq<char>, separator: char)
    requires
        lacks(s, separator),
    ensures
        pieces(s, separator) == seq![s],
{
    lemma_find_lacking(s, separator);
}

/// Replacing a character that does not occur changes nothing.
pub proof fn lemma_replaced_lacking(s: Seq<char>, c: char, to: Seq<char>)
    requires
        lacks(s, c),
    ensures
        replaced(s, seq![c], to) == s,
{
    lemma_find_lacking(s, c);
}

/// Replacing a character replaces its first occurrence and goes on behind it.
pub proof fn lemma_replaced_char(a: Seq<char>, c: char, b: Seq<char>, to: Seq<char>)
    requires
        lacks(a, c),
    ensures
        replaced(a + seq![c] + b, seq![c], to) == a + to + replaced(b, seq![c], to),
{
    let s = a + seq![c] + b;
    lemma_find_char(a, c, b);
    assert(s.take(a.len() as int) == a);
    assert(s.skip(a.len() as int + 1) == b);
}

/// A text that begins and ends visibly is not changed by trimming.
pub proof fn lemma_trimmed_fixed(s: Seq<char>)
    requires
        s.len() > 0,
        !is_space(s[0]),
        !is_space(s.last()),
    ensures
        trimmed(s) == s,
        trimmed_start(s) == s,
{
}

/// How many digits `decimal` writes.
pub proof fn lemma_decimal_len(n: nat)
    ensures
        n < 10 ==> decimal(n).len() == 1,
        n < 100 ==> decimal(n).len() <= 2,
        n < 1_000 ==> decimal(n).len() <= 3,
        decimal(n).len() >= 1,
    decreases n,
{
    if n >= 10 {
        lemma_decimal_len(n / 10);
    }
}

/// A padded number is read back as that number.
pub proof fn lemma_padded_number(n: nat, width: nat)
    requires
        n <= u64::MAX,
    ensures
        number(zero_padded(decimal(n), width)) == Some(n as u64),
        all_digits(zero_padded(decimal(n), width)),
        zero_padded(decimal(n), width).len() > 0,
{
    lemma_decimal_value(n);
    lemma_zero_padded_value(decimal(n), width);
    let s = zero_padded(decimal(n), width);
    assert(is_digit(s[0]));
    assert(unsigned_digits(s) == s);
}

/// Digits hold no other character.
pub proof fn lemma_digits_lack(s: Seq<char>, c: char)
    requires
        all_digits(s),
        !is_digit(c),
    ensures
        lacks(s, c),
{
    assert forall|i: int| 0 <= i < s.len() implies #[trigger] s[i] != c by {
        assert(is_digit(s[i]));
    }
}

/// A number in decimal.
pub fn number_text(n: u64) -> (shown: String)
    ensures
        shown@ == decimal(n as nat),
{
    let digits = decimal_chars(n);
    string_of(digits.as_slice())
}

} // verus!
