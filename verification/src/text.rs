//! Text handling: the characters that separate names, splitting a text into
//! its pieces, trimming, and the last name of a path.

use vstd::prelude::*;
use vstd::string::*;

verus! {

/// Whether `c` is white space, as Unicode defines it.
pub open spec fn is_space(c: char) -> bool {
    ||| ('\u{9}' <= c && c <= '\u{d}')
    ||| c == ' '
    ||| c == '\u{85}'
    ||| c == '\u{a0}'
    ||| c == '\u{1680}'
    ||| ('\u{2000}' <= c && c <= '\u{200a}')
    ||| c == '\u{2028}'
    ||| c == '\u{2029}'
    ||| c == '\u{202f}'
    ||| c == '\u{205f}'
    ||| c == '\u{3000}'
}

/// Tells whether `c` is white space.
pub fn is_whitespace(c: char) -> (b: bool)
    ensures
        b == is_space(c),
{
    ('\u{9}' <= c && c <= '\u{d}') || c == ' ' || c == '\u{85}' || c == '\u{a0}' || c == '\u{1680}'
        || ('\u{2000}' <= c && c <= '\u{200a}') || c == '\u{2028}' || c == '\u{2029}' || c
        == '\u{202f}' || c == '\u{205f}' || c == '\u{3000}'
}

/// What separates the pieces of a text.
#[derive(Clone, Copy, Debug, PartialEq, Eq)]
pub enum Separator {
    /// Any run of white space, as in the output of a listing command.
    Whitespace,
    /// The slash between the names of a path.
    Slash,
}

impl Separator {
    /// Whether `c` separates pieces.
    pub open spec fn splits(self, c: char) -> bool {
        match self {
            Separator::Whitespace => is_space(c),
            Separator::Slash => c == '/',
        }
    }

    /// Tells whether `c` separates pieces.
    pub fn separates(&self, c: char) -> (b: bool)
        ensures
            b == self.splits(c),
    {
        match self {
            Separator::Whitespace => is_whitespace(c),
            Separator::Slash => c == '/',
        }
    }
}

/// The index of the first separator at or after `from`, or the length of
/// the text when none follows.
pub open spec fn piece_end(s: Seq<char>, sep: Separator, from: int) -> int
    decreases s.len() - from,
{
    if from >= s.len() {
        s.len() as int
    } else if sep.splits(s[from]) {
        from
    } else {
        piece_end(s, sep, from + 1)
    }
}

/// The pieces of `s` that begin at or after `from`: the longest runs of
/// characters that hold no separator, in order. No piece is empty.
pub open spec fn pieces_from(s: Seq<char>, sep: Separator, from: int) -> Seq<Seq<char>>
    decreases s.len() - from,
    via pieces_from_decreases
{
    if from < 0 || from >= s.len() {
        Seq::empty()
    } else if sep.splits(s[from]) {
        pieces_from(s, sep, from + 1)
    } else {
        seq![s.subrange(from, piece_end(s, sep, from))] + pieces_from(
            s,
            sep,
            piece_end(s, sep, from),
        )
    }
}

#[via_fn]
proof fn pieces_from_decreases(s: Seq<char>, sep: Separator, from: int) {
    if 0 <= from < s.len() && !sep.splits(s[from]) {
        lemma_piece_end_bounds(s, sep, from);
    }
}

/// A piece ends after it begins and within the text; it holds no separator,
/// and a separator or the end of the text follows it.
pub proof fn lemma_piece_end_bounds(s: Seq<char>, sep: Separator, from: int)
    requires
        0 <= from <= s.len(),
    ensures
        from <= piece_end(s, sep, from) <= s.len(),
        from < s.len() && !sep.splits(s[from]) ==> from < piece_end(s, sep, from),
        forall|i: int| from <= i < piece_end(s, sep, from) ==> !sep.splits(#[trigger] s[i]),
        piece_end(s, sep, from) < s.len() ==> sep.splits(s[piece_end(s, sep, from)]),
    decreases s.len() - from,
{
    if from < s.len() && !sep.splits(s[from]) {
        lemma_piece_end_bounds(s, sep, from + 1);
    }
}

/// All pieces of a text.
pub open spec fn pieces(s: Seq<char>, sep: Separator) -> Seq<Seq<char>> {
    pieces_from(s, sep, 0)
}

/// The words of a text: its pieces between runs of white space.
pub open spec fn words(s: Seq<char>) -> Seq<Seq<char>> {
    pieces(s, Separator::Whitespace)
}

/// `s` without the white space at its end.
pub open spec fn strip_back(s: Seq<char>) -> Seq<char>
    decreases s.len(),
{
    if s.len() > 0 && is_space(s.last()) {
        strip_back(s.drop_last())
    } else {
        s
    }
}

/// `s` without the white space at its front.
pub open spec fn strip_front(s: Seq<char>) -> Seq<char>
    decreases s.len(),
{
    if s.len() > 0 && is_space(s[0]) {
        strip_front(s.drop_first())
    } else {
        s
    }
}

/// `s` without the white space at either end.
pub open spec fn trimmed(s: Seq<char>) -> Seq<char> {
    strip_front(strip_back(s))
}

/// The name `.`, which stands for the directory that holds it.
pub open spec fn dot() -> Seq<char> {
    seq!['.']
}

/// The name `..`, which stands for the directory above.
pub open spec fn dot_dot() -> Seq<char> {
    seq!['.', '.']
}

/// The last of `names` that is not `.`, unless that name is `..`.
pub open spec fn last_named(names: Seq<Seq<char>>) -> Option<Seq<char>>
    decreases names.len(),
{
    if names.len() == 0 {
        None
    } else if names.last() == dot() {
        last_named(names.drop_last())
    } else if names.last() == dot_dot() {
        None
    } else {
        Some(names.last())
    }
}

/// The final name of a path. Empty names and `.` are passed over; a path
/// that ends in `..`, or that names nothing, has no final name.
pub open spec fn final_name(path: Seq<char>) -> Option<Seq<char>> {
    last_named(pieces(path, Separator::Slash))
}

/// The part of `s` in front of its first colon, all of `s` when it has none.
pub open spec fn before_colon(s: Seq<char>) -> Seq<char>
    decreases s.len(),
{
    if s.len() == 0 || s[0] == ':' {
        Seq::empty()
    } else {
        seq![s[0]] + before_colon(s.drop_first())
    }
}

/// The place of the colon that sets a tag off: the last colon of the text,
/// where no slash follows it. A colon with a slash behind it belongs to
/// the port of a registry, as in `localhost:5000/store`, and sets off no
/// tag.
pub open spec fn tag_colon(s: Seq<char>) -> Option<int>
    decreases s.len(),
{
    if s.len() == 0 {
        None
    } else if s.last() == ':' {
        Some(s.len() - 1)
    } else if s.last() == '/' {
        None
    } else {
        tag_colon(s.drop_last())
    }
}

/// An image reference without its tag: what stands in front of the colon
/// that sets the tag off, and all of the reference where it has no tag.
pub open spec fn untagged(s: Seq<char>) -> Seq<char> {
    match tag_colon(s) {
        Some(i) => s.take(i),
        None => s,
    }
}

/// The texts that a vector of strings holds.
pub open spec fn texts(v: Seq<String>) -> Seq<Seq<char>> {
    v.map_values(|s: String| s@)
}

/// The characters of a text.
pub fn chars_of(s: &str) -> (v: Vec<char>)
    ensures
        v@ == s@,
{
    let mut v: Vec<char> = Vec::new();
    for c in it: s.chars()
        invariant
            v@ == s@.take(it.index() as int),
            it.seq() == s@,
    {
        v.push(c);
    }
    assert(s@.take(s@.len() as int) =~= s@);
    v
}

/// Splits a text into its pieces.
pub fn split(s: &str, sep: Separator) -> (out: Vec<String>)
    ensures
        out.deep_view() == pieces(s@, sep),
{
    let chars = chars_of(s);
    let n = chars.len();
    let mut out: Vec<String> = Vec::new();
    let mut i: usize = 0;
    assert(texts(out@) =~= Seq::<Seq<char>>::empty());
    while i < n
        invariant
            chars@ == s@,
            n == chars.len(),
            i <= n,
            pieces(s@, sep) == texts(out@) + pieces_from(s@, sep, i as int),
        decreases n - i,
    {
        if sep.separates(chars[i]) {
            i += 1;
        } else {
            let start = i;
            while i < n && !sep.separates(chars[i])
                invariant
                    chars@ == s@,
                    n == chars.len(),
                    start <= i <= n,
                    start < n,
                    piece_end(s@, sep, start as int) == piece_end(s@, sep, i as int),
                decreases n - i,
            {
                i += 1;
            }
            let piece = String::from_str(s.substring_char(start, i));
            proof {
                let ghost before = texts(out@);
                assert(texts(out@.push(piece)) =~= before.push(piece@));
                assert(before + (seq![piece@] + pieces_from(s@, sep, i as int)) =~= before.push(
                    piece@,
                ) + pieces_from(s@, sep, i as int));
            }
            out.push(piece);
        }
    }
    proof {
        assert(pieces_from(s@, sep, i as int) =~= Seq::<Seq<char>>::empty());
        assert(out.deep_view() =~= texts(out@));
    }
    out
}

/// Removes the white space at both ends of a text.
pub fn trim(s: &str) -> (out: String)
    ensures
        out@ == trimmed(s@),
{
    let chars = chars_of(s);
    let mut end: usize = chars.len();
    assert(s@.take(end as int) =~= s@);
    while end > 0 && is_whitespace(chars[end - 1])
        invariant
            chars@ == s@,
            end <= chars.len(),
            strip_back(s@) == strip_back(s@.take(end as int)),
        decreases end,
    {
        assert(s@.take(end as int).drop_last() =~= s@.take(end - 1));
        end -= 1;
    }
    let mut start: usize = 0;
    assert(s@.subrange(0, end as int) =~= s@.take(end as int));
    while start < end && is_whitespace(chars[start])
        invariant
            chars@ == s@,
            start <= end <= chars.len(),
            trimmed(s@) == strip_front(s@.subrange(start as int, end as int)),
        decreases end - start,
    {
        assert(s@.subrange(start as int, end as int).drop_first() =~= s@.subrange(
            start + 1,
            end as int,
        ));
        start += 1;
    }
    String::from_str(s.substring_char(start, end))
}

/// Tells whether `s` is the text `.` (with `dots` 1) or `..` (with `dots` 2).
fn is_dots(s: &str, dots: usize) -> (b: bool)
    requires
        dots == 1 || dots == 2,
    ensures
        b == (s@ == if dots == 1 {
            dot()
        } else {
            dot_dot()
        }),
{
    let n = s.unicode_len();
    if n != dots {
        return false;
    }
    let first = s.get_char(0);
    if dots == 1 {
        assert(first == '.' ==> s@ =~= dot());
        first == '.'
    } else {
        let second = s.get_char(1);
        assert(first == '.' && second == '.' ==> s@ =~= dot_dot());
        first == '.' && second == '.'
    }
}

/// The final name of a path, if it has one.
pub fn file_name(path: &str) -> (name: Option<String>)
    ensures
        match name {
            Some(n) => final_name(path@) == Some(n@),
            None => final_name(path@) is None,
        },
{
    let mut names = split(path, Separator::Slash);
    let ghost all = texts(names@);
    assert(names.deep_view() =~= texts(names@));
    loop
        invariant
            last_named(texts(names@)) == last_named(all),
            all == pieces(path@, Separator::Slash),
        decreases names.len(),
    {
        let ghost before = texts(names@);
        match names.pop() {
            None => {
                return None;
            },
            Some(last) => {
                assert(before.last() == last@);
                assert(before.drop_last() =~= texts(names@));
                if is_dots(last.as_str(), 1) {
                } else if is_dots(last.as_str(), 2) {
                    return None;
                } else {
                    return Some(last);
                }
            },
        }
    }
}

/// The part of a text in front of its first colon.
pub fn prefix_before_colon(s: &str) -> (out: String)
    ensures
        out@ == before_colon(s@),
{
    let chars = chars_of(s);
    let mut i: usize = 0;
    assert(s@.skip(0) =~= s@);
    assert(s@.take(0) =~= Seq::<char>::empty());
    while i < chars.len() && chars[i] != ':'
        invariant
            chars@ == s@,
            i <= chars.len(),
            before_colon(s@) == s@.take(i as int) + before_colon(s@.skip(i as int)),
        decreases chars.len() - i,
    {
        assert(s@.skip(i as int).drop_first() =~= s@.skip(i + 1));
        assert(s@.take(i as int) + (seq![s@[i as int]] + before_colon(s@.skip(i + 1)))
            =~= s@.take(i + 1) + before_colon(s@.skip(i + 1)));
        i += 1;
    }
    assert(s@.take(i as int) + Seq::<char>::empty() =~= s@.subrange(0, i as int));
    String::from_str(s.substring_char(0, i))
}

/// An image reference without its tag.
pub fn without_tag(s: &str) -> (out: String)
    ensures
        out@ == untagged(s@),
{
    let chars = chars_of(s);
    let mut i: usize = chars.len();
    assert(s@.take(i as int) =~= s@);
    while i > 0 && chars[i - 1] != ':' && chars[i - 1] != '/'
        invariant
            chars@ == s@,
            i <= chars.len(),
            tag_colon(s@) == tag_colon(s@.take(i as int)),
        decreases i,
    {
        assert(s@.take(i as int).drop_last() =~= s@.take(i - 1));
        i -= 1;
    }
    if i > 0 && chars[i - 1] == ':' {
        assert(s@.take(i - 1) =~= s@.subrange(0, i - 1));
        String::from_str(s.substring_char(0, i - 1))
    } else {
        String::from_str(s)
    }
}

/// What `tag_colon` finds is a colon with neither a colon nor a slash
/// behind it; where it finds nothing, the text holds no colon, or a slash
/// follows its last colon.
pub proof fn lemma_tag_colon(s: Seq<char>)
    ensures
        match tag_colon(s) {
            Some(i) => 0 <= i < s.len() && s[i] == ':' && forall|j: int|
                i < j < s.len() ==> (#[trigger] s[j]) != ':' && s[j] != '/',
            None => forall|i: int|
                0 <= i < s.len() && (#[trigger] s[i]) == ':' ==> exists|j: int|
                    i < j < s.len() && s[j] == '/',
        },
    decreases s.len(),
{
    if s.len() > 0 && s.last() != ':' {
        let front = s.drop_last();
        if s.last() == '/' {
            assert forall|i: int| 0 <= i < s.len() && (#[trigger] s[i]) == ':' implies exists|
                j: int,
            | i < j < s.len() && s[j] == '/' by {
                assert(s[s.len() - 1] == '/');
            }
        } else {
            lemma_tag_colon(front);
            match tag_colon(front) {
                Some(i) => {
                    assert(s[i] == front[i]);
                    assert forall|j: int| i < j < s.len() implies (#[trigger] s[j]) != ':' && s[j]
                        != '/' by {
                        if j < front.len() {
                            assert(s[j] == front[j]);
                        }
                    }
                },
                None => {
                    assert forall|i: int|
                        0 <= i < s.len() && (#[trigger] s[i]) == ':' implies exists|j: int|
                            i < j < s.len() && s[j] == '/' by {
                        assert(front[i] == s[i]);
                        let j = choose|j: int| i < j < front.len() && front[j] == '/';
                        assert(s[j] == '/');
                    }
                },
            }
        }
    }
}


/// A run of characters without a separator, with a separator or the end
/// of the text behind it, is a piece.
pub proof fn lemma_piece_end_is(s: Seq<char>, sep: Separator, from: int, end: int)
    requires
        0 <= from <= end <= s.len(),
        forall|i: int| from <= i < end ==> !sep.splits(#[trigger] s[i]),
        end == s.len() || sep.splits(s[end]),
    ensures
        piece_end(s, sep, from) == end,
    decreases end - from,
{
    if from < end {
        lemma_piece_end_is(s, sep, from + 1, end);
    }
}

/// The pieces of a text do not depend on what stands in front of the
/// place from which they are taken.
pub proof fn lemma_pieces_shift(a: Seq<char>, b: Seq<char>, sep: Separator, k: int)
    requires
        0 <= k <= b.len(),
    ensures
        pieces_from(a + b, sep, a.len() + k) == pieces_from(b, sep, k),
    decreases b.len() - k,
{
    let s = a + b;
    if k < b.len() {
        assert(s[a.len() + k] == b[k]);
        if sep.splits(b[k]) {
            lemma_pieces_shift(a, b, sep, k + 1);
        } else {
            let end = piece_end(b, sep, k);
            lemma_piece_end_bounds(b, sep, k);
            assert forall|i: int| a.len() + k <= i < a.len() + end implies !sep.splits(
                #[trigger] s[i],
            ) by {
                assert(s[i] == b[i - a.len()]);
            }
            if end < b.len() {
                assert(s[a.len() + end] == b[end]);
            }
            lemma_piece_end_is(s, sep, a.len() + k, a.len() + end);
            assert(s.subrange(a.len() + k, a.len() + end) =~= b.subrange(k, end));
            lemma_pieces_shift(a, b, sep, end);
        }
    }
}

/// A word with a separator behind it is the first piece of a text, and
/// the other pieces are those of what follows the separator.
pub proof fn lemma_pieces_word_first(word: Seq<char>, c: char, rest: Seq<char>, sep: Separator)
    requires
        word.len() > 0,
        forall|i: int| 0 <= i < word.len() ==> !sep.splits(#[trigger] word[i]),
        sep.splits(c),
    ensures
        pieces(word + seq![c] + rest, sep) == seq![word] + pieces(rest, sep),
{
    let head = word + seq![c];
    let s = head + rest;
    assert forall|i: int| 0 <= i < word.len() implies !sep.splits(#[trigger] s[i]) by {
        assert(s[i] == word[i]);
    }
    assert(s[word.len() as int] == c);
    lemma_piece_end_is(s, sep, 0, word.len() as int);
    assert(s.subrange(0, word.len() as int) =~= word);
    lemma_pieces_shift(head, rest, sep, 0);
    assert(pieces_from(s, sep, word.len() as int) == pieces_from(s, sep, (word.len() + 1) as int));
}

/// A word at the end of a text, behind a separator or at the front, is
/// the last piece of the text, and the other pieces are those of what
/// stands in front of it.
pub proof fn lemma_pieces_word_last(front: Seq<char>, word: Seq<char>, sep: Separator, from: int)
    requires
        word.len() > 0,
        forall|i: int| 0 <= i < word.len() ==> !sep.splits(#[trigger] word[i]),
        front.len() == 0 || sep.splits(front.last()),
        0 <= from <= front.len(),
    ensures
        pieces_from(front + word, sep, from) == pieces_from(front, sep, from).push(word),
    decreases front.len() - from,
{
    let s = front + word;
    if from == front.len() {
        assert forall|i: int| from <= i < s.len() implies !sep.splits(#[trigger] s[i]) by {
            assert(s[i] == word[i - front.len()]);
        }
        lemma_piece_end_is(s, sep, from, s.len() as int);
        assert(s.subrange(from, s.len() as int) =~= word);
        assert(pieces_from(s, sep, s.len() as int) =~= Seq::<Seq<char>>::empty());
        assert(seq![word] + Seq::<Seq<char>>::empty() =~= Seq::<Seq<char>>::empty().push(word));
    } else {
        assert(s[from] == front[from]);
        if sep.splits(front[from]) {
            lemma_pieces_word_last(front, word, sep, from + 1);
        } else {
            let end = piece_end(front, sep, from);
            lemma_piece_end_bounds(front, sep, from);
            assert(end < front.len()) by {
                if end == front.len() {
                    assert(!sep.splits(front[front.len() - 1]));
                }
            }
            assert forall|i: int| from <= i < end implies !sep.splits(#[trigger] s[i]) by {
                assert(s[i] == front[i]);
            }
            assert(s[end] == front[end]);
            lemma_piece_end_is(s, sep, from, end);
            assert(s.subrange(from, end) =~= front.subrange(from, end));
            lemma_pieces_word_last(front, word, sep, end);
            assert(seq![front.subrange(from, end)] + pieces_from(front, sep, end).push(word)
                =~= (seq![front.subrange(from, end)] + pieces_from(front, sep, end)).push(word));
        }
    }
}

/// Whether a text can name an entry or an item: it is not empty, it is
/// neither `.` nor `..`, and it holds neither white space nor a slash.
pub open spec fn plain_name(s: Seq<char>) -> bool {
    &&& s.len() > 0
    &&& s != dot()
    &&& s != dot_dot()
    &&& forall|i: int| 0 <= i < s.len() ==> !is_space(#[trigger] s[i]) && s[i] != '/'
}

/// The final name of a path that ends in a slash and a plain name is that
/// name.
pub proof fn lemma_final_name_of_child(dir: Seq<char>, name: Seq<char>)
    requires
        plain_name(name),
    ensures
        final_name(dir + seq!['/'] + name) == Some(name),
{
    let front = dir + seq!['/'];
    assert(front.last() == '/');
    lemma_pieces_word_last(front, name, Separator::Slash, 0);
    let all = pieces(front, Separator::Slash).push(name);
    assert(all.last() == name);
}

/// What a listing prints for `names`: each name and a line feed.
pub open spec fn listing_text(names: Seq<Seq<char>>) -> Seq<char>
    decreases names.len(),
{
    if names.len() == 0 {
        Seq::empty()
    } else {
        names[0] + seq!['\n'] + listing_text(names.drop_first())
    }
}

/// The words of a listing are the names that were listed.
pub proof fn lemma_words_of_listing(names: Seq<Seq<char>>)
    requires
        forall|i: int| 0 <= i < names.len() ==> plain_name(#[trigger] names[i]),
    ensures
        words(listing_text(names)) == names,
    decreases names.len(),
{
    if names.len() == 0 {
        assert(words(listing_text(names)) =~= names);
    } else {
        let rest = names.drop_first();
        assert forall|i: int| 0 <= i < rest.len() implies plain_name(#[trigger] rest[i]) by {
            assert(rest[i] == names[i + 1]);
        }
        lemma_words_of_listing(rest);
        assert(plain_name(names[0]));
        lemma_pieces_word_first(names[0], '\n', listing_text(rest), Separator::Whitespace);
        assert(seq![names[0]] + rest =~= names);
    }
}

/// A line that neither begins nor ends with white space is what is left
/// of it and its line feed after trimming.
pub proof fn lemma_trimmed_line(line: Seq<char>)
    requires
        line.len() > 0,
        !is_space(line[0]),
        !is_space(line.last()),
    ensures
        trimmed(line + seq!['\n']) == line,
{
    let s = line + seq!['\n'];
    assert(s.last() == '\n');
    assert(s.drop_last() =~= line);
    assert(strip_back(line) == line);
    assert(strip_back(s) == strip_back(s.drop_last()));
    assert(strip_front(line) == line);
}

} // verus!
