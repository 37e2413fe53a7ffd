//! Conversions between `str`, `String` and sequences of characters.
use vstd::prelude::*;

verus! {

/// `String::push` appends one character to the end of the string and leaves
/// the characters before it as they were.
pub assume_specification[ String::push ](s: &mut String, ch: char)
    ensures
        final(s)@ == old(s)@.push(ch),
;

/// The characters of `s`, in order.
pub fn chars_of(s: &str) -> (chars: Vec<char>)
    ensures
        chars@ == s@,
{
    let mut chars: Vec<char> = Vec::new();
    for c in it: s.chars()
        invariant
            it.seq() == s@,
            chars@ == it.seq().take(it.index() as int),
    {
        chars.push(c);
    }
    chars
}

/// The string that holds exactly `chars`.
pub fn string_of(chars: &Vec<char>) -> (s: String)
    ensures
        s@ == chars@,
{
    let mut s = String::new();
    let mut i: usize = 0;
    while i < chars.len()
        invariant
            i <= chars.len(),
            s@ == chars@.take(i as int),
        decreases chars.len() - i,
    {
        s.push(chars[i]);
        i += 1;
    }
    s
}

/// Whether two character vectors hold the same text.
pub fn same_text(a: &Vec<char>, b: &Vec<char>) -> (same: bool)
    ensures
        same == (a@ == b@),
{
    if a.len() != b.len() {
        return false;
    }
    let mut i: usize = 0;
    while i < a.len()
        invariant
            i <= a.len(),
            a.len() == b.len(),
            a@.take(i as int) == b@.take(i as int),
        decreases a.len() - i,
    {
        if a[i] != b[i] {
            assert(a@[i as int] != b@[i as int]);
            return false;
        }
        assert(a@.take(i + 1) == a@.take(i as int).push(a@[i as int]));
        assert(b@.take(i + 1) == b@.take(i as int).push(b@[i as int]));
        i += 1;
    }
    assert(a@.take(a.len() as int) == a@);
    assert(b@.take(b.len() as int) == b@);
    true
}

/// The text held by each vector of `items`.
pub open spec fn texts(items: Seq<Vec<char>>) -> Seq<Seq<char>> {
    Seq::new(items.len(), |i: int| items[i]@)
}

/// The pieces of `text` between occurrences of `separator`, empty pieces
/// included. There is always at least one piece, and the pieces put together
/// again with the separator between them give `text`.
pub open spec fn split(text: Seq<char>, separator: char) -> Seq<Seq<char>>
    decreases text.len(),
{
    if text.len() == 0 {
        seq![Seq::empty()]
    } else {
        let before = split(text.drop_last(), separator);
        if text.last() == separator {
            before.push(Seq::empty())
        } else {
            before.drop_last().push(before.last().push(text.last()))
        }
    }
}

/// Every text has a first piece.
pub proof fn lemma_split_nonempty(text: Seq<char>, separator: char)
    ensures
        split(text, separator).len() >= 1,
    decreases text.len(),
{
    if text.len() > 0 {
        lemma_split_nonempty(text.drop_last(), separator);
    }
}

/// Splits `text` at every occurrence of `separator`.
pub fn split_chars(text: &Vec<char>, separator: char) -> (out: Vec<Vec<char>>)
    ensures
        texts(out@) == split(text@, separator),
{
    let mut done: Vec<Vec<char>> = Vec::new();
    let mut current: Vec<char> = Vec::new();
    let mut i: usize = 0;
    while i < text.len()
        invariant
            i <= text.len(),
            texts(done@).push(current@) == split(text@.take(i as int), separator),
        decreases text.len() - i,
    {
        let c = text[i];
        proof {
            assert(text@.take(i + 1).drop_last() == text@.take(i as int));
        }
        if c == separator {
            let ghost before = texts(done@).push(current@);
            done.push(current);
            current = Vec::new();
            assert(texts(done@) == before);
        } else {
            let ghost old_current = current@;
            current.push(c);
            assert(texts(done@).push(old_current).drop_last() == texts(done@));
        }
        i += 1;
    }
    assert(text@.take(text.len() as int) == text@);
    let ghost before = texts(done@).push(current@);
    done.push(current);
    assert(texts(done@) == before);
    done
}

/// Whether `text` is exactly `literal`.
pub fn str_is(text: &str, literal: &str) -> (same: bool)
    ensures
        same == (text@ == literal@),
{
    let a = chars_of(text);
    let b = chars_of(literal);
    same_text(&a, &b)
}

/// The position of the first `c` in `text`, or the length of `text` where it
/// has none.
pub open spec fn first_index(text: Seq<char>, c: char) -> int
    decreases text.len(),
{
    if text.len() == 0 || text[0] == c {
        0
    } else {
        1 + first_index(text.drop_first(), c)
    }
}

/// `first_index` is the one position before which there is no `c` and at
/// which, inside the text, there is one.
pub proof fn lemma_first_index(text: Seq<char>, c: char, at: int)
    requires
        0 <= at <= text.len(),
        forall|j: int| 0 <= j < at ==> text[j] != c,
        at < text.len() ==> text[at] == c,
    ensures
        first_index(text, c) == at,
    decreases text.len(),
{
    if text.len() > 0 && text[0] != c {
        let rest = text.drop_first();
        assert forall|j: int| 0 <= j < at - 1 implies rest[j] != c by {
            assert(rest[j] == text[j + 1]);
        }
        lemma_first_index(rest, c, at - 1);
    }
}

/// The position of the first `c` in `text`.
pub fn find_char(text: &Vec<char>, c: char) -> (at: usize)
    ensures
        at == first_index(text@, c),
        at <= text.len(),
        forall|j: int| 0 <= j < at ==> text@[j] != c,
        at < text.len() ==> text@[at as int] == c,
{
    let mut at: usize = 0;
    while at < text.len() && text[at] != c
        invariant
            at <= text.len(),
            forall|j: int| 0 <= j < at ==> text@[j] != c,
        decreases text.len() - at,
    {
        at += 1;
    }
    proof {
        lemma_first_index(text@, c, at as int);
    }
    at
}

/// The characters of `text` from `from` up to, not including, `to`.
pub fn copy_range(text: &Vec<char>, from: usize, to: usize) -> (out: Vec<char>)
    requires
        from <= to <= text.len(),
    ensures
        out@ == text@.subrange(from as int, to as int),
{
    let mut out: Vec<char> = Vec::new();
    let mut i: usize = from;
    while i < to
        invariant
            from <= i <= to <= text.len(),
            out@ == text@.subrange(from as int, i as int),
        decreases to - i,
    {
        out.push(text[i]);
        assert(text@.subrange(from as int, i + 1) == text@.subrange(from as int, i as int).push(
            text@[i as int],
        ));
        i += 1;
    }
    out
}

/// White space as `str::trim` knows it: the characters with the Unicode
/// property `White_Space`.
pub open spec fn is_space(c: char) -> bool {
    let code = c as u32;
    ||| 0x09 <= code <= 0x0d
    ||| code == 0x20
    ||| code == 0x85
    ||| code == 0xa0
    ||| code == 0x1680
    ||| 0x2000 <= code <= 0x200a
    ||| code == 0x2028
    ||| code == 0x2029
    ||| code == 0x202f
    ||| code == 0x205f
    ||| code == 0x3000
}

/// `text` without the white space at its start.
pub open spec fn trim_start(text: Seq<char>) -> Seq<char>
    decreases text.len(),
{
    if text.len() > 0 && is_space(text[0]) {
        trim_start(text.drop_first())
    } else {
        text
    }
}

/// Whether `c` is white space.
pub fn char_is_space(c: char) -> (space: bool)
    ensures
        space == is_space(c),
{
    let code = c as u32;
    (0x09 <= code && code <= 0x0d) || code == 0x20 || code == 0x85 || code == 0xa0 || code
        == 0x1680 || (0x2000 <= code && code <= 0x200a) || code == 0x2028 || code == 0x2029 || code
        == 0x202f || code == 0x205f || code == 0x3000
}

/// The characters of `text` after the white space at its start.
pub fn skip_spaces(text: &Vec<char>) -> (out: Vec<char>)
    ensures
        out@ == trim_start(text@),
{
    let mut start: usize = 0;
    proof {
        assert(text@.skip(0) == text@);
    }
    while start < text.len() && char_is_space(text[start])
        invariant
            start <= text.len(),
            trim_start(text@) == trim_start(text@.skip(start as int)),
        decreases text.len() - start,
    {
        proof {
            assert(text@.skip(start as int).drop_first() == text@.skip(start + 1));
        }
        start += 1;
    }
    proof {
        assert(text@.skip(start as int) == text@.subrange(start as int, text.len() as int));
    }
    copy_range(text, start, text.len())
}

/// The character of the decimal digit `digit`.
pub open spec fn digit_char(digit: int) -> char {
    if digit == 0 {
        '0'
    } else if digit == 1 {
        '1'
    } else if digit == 2 {
        '2'
    } else if digit == 3 {
        '3'
    } else if digit == 4 {
        '4'
    } else if digit == 5 {
        '5'
    } else if digit == 6 {
        '6'
    } else if digit == 7 {
        '7'
    } else if digit == 8 {
        '8'
    } else {
        '9'
    }
}

/// `number` in decimal digits, without leading zeros.
pub open spec fn decimal(number: nat) -> Seq<char>
    decreases number,
{
    if number < 10 {
        seq![digit_char(number as int)]
    } else {
        decimal(number / 10).push(digit_char((number % 10) as int))
    }
}

/// The character of the decimal digit `digit`.
fn digit_of(digit: u32) -> (c: char)
    requires
        digit < 10,
    ensures
        c == digit_char(digit as int),
{
    if digit == 0 {
        '0'
    } else if digit == 1 {
        '1'
    } else if digit == 2 {
        '2'
    } else if digit == 3 {
        '3'
    } else if digit == 4 {
        '4'
    } else if digit == 5 {
        '5'
    } else if digit == 6 {
        '6'
    } else if digit == 7 {
        '7'
    } else if digit == 8 {
        '8'
    } else {
        '9'
    }
}

/// Appends `number` in decimal digits to `out`.
pub fn push_decimal(out: &mut String, number: u32)
    ensures
        final(out)@ == old(out)@ + decimal(number as nat),
    decreases number,
{
    if number < 10 {
        out.push(digit_of(number));
    } else {
        push_decimal(out, number / 10);
        out.push(digit_of(number % 10));
    }
}

/// No piece holds the separator.
pub proof fn lemma_split_has_no_separator(text: Seq<char>, separator: char, k: int, j: int)
    requires
        0 <= k < split(text, separator).len(),
        0 <= j < split(text, separator)[k].len(),
    ensures
        split(text, separator)[k][j] != separator,
    decreases text.len(),
{
    if text.len() > 0 {
        let before = split(text.drop_last(), separator);
        lemma_split_nonempty(text.drop_last(), separator);
        if text.last() == separator {
            if k < before.len() {
                lemma_split_has_no_separator(text.drop_last(), separator, k, j);
            }
        } else {
            if k < before.len() - 1 {
                lemma_split_has_no_separator(text.drop_last(), separator, k, j);
            } else if j < before.last().len() {
                lemma_split_has_no_separator(text.drop_last(), separator, k, j);
            }
        }
    }
}

/// Whether `pattern` stands in `text` at position `at`.
pub open spec fn occurs_at(text: Seq<char>, pattern: Seq<char>, at: int) -> bool {
    0 <= at && at + pattern.len() <= text.len() && text.subrange(at, at + pattern.len())
        == pattern
}

/// Whether `pattern` stands somewhere in `text`.
pub open spec fn contains_text(text: Seq<char>, pattern: Seq<char>) -> bool {
    exists|at: int| occurs_at(text, pattern, at)
}

/// Whether `at` is the first position at which `pattern` stands in `text`.
pub open spec fn is_first_occurrence(text: Seq<char>, pattern: Seq<char>, at: int) -> bool {
    occurs_at(text, pattern, at) && forall|j: int| 0 <= j < at ==> !occurs_at(text, pattern, j)
}

/// The first position at which `pattern` stands in `text`. It is meaningful
/// only where the text holds the pattern.
pub open spec fn first_occurrence(text: Seq<char>, pattern: Seq<char>) -> int {
    choose|at: int| is_first_occurrence(text, pattern, at)
}

/// There is one first occurrence at most.
pub proof fn lemma_first_occurrence(text: Seq<char>, pattern: Seq<char>, at: int)
    requires
        is_first_occurrence(text, pattern, at),
    ensures
        first_occurrence(text, pattern) == at,
        contains_text(text, pattern),
{
    let chosen = first_occurrence(text, pattern);
    assert(is_first_occurrence(text, pattern, chosen));
    if chosen < at {
        assert(!occurs_at(text, pattern, chosen));
    } else if at < chosen {
        assert(!occurs_at(text, pattern, at));
    }
}

/// Whether `pattern` stands in `text` at position `at`.
fn matches_at(text: &Vec<char>, pattern: &Vec<char>, at: usize) -> (same: bool)
    requires
        at + pattern.len() <= text.len(),
    ensures
        same == occurs_at(text@, pattern@, at as int),
{
    let mut i: usize = 0;
    while i < pattern.len()
        invariant
            i <= pattern.len(),
            at + pattern.len() <= text.len(),
            forall|j: int| 0 <= j < i ==> text@[at + j] == pattern@[j],
        decreases pattern.len() - i,
    {
        if text[at + i] != pattern[i] {
            proof {
                let part = text@.subrange(at as int, at + pattern.len());
                assert(part[i as int] != pattern@[i as int]);
            }
            return false;
        }
        i += 1;
    }
    proof {
        assert(text@.subrange(at as int, at + pattern.len()) =~= pattern@);
    }
    true
}

/// The first position at which `pattern` stands in `text`, if any.
pub fn find_text(text: &Vec<char>, pattern: &Vec<char>) -> (found: Option<usize>)
    ensures
        match found {
            Some(at) => is_first_occurrence(text@, pattern@, at as int) && first_occurrence(
                text@,
                pattern@,
            ) == at,
            None => !contains_text(text@, pattern@),
        },
{
    if pattern.len() > text.len() {
        return None;
    }
    let last = text.len() - pattern.len();
    let mut at: usize = 0;
    loop
        invariant
            at <= last,
            last == text.len() - pattern.len(),
            forall|j: int| 0 <= j < at ==> !occurs_at(text@, pattern@, j),
        decreases last - at,
    {
        if matches_at(text, pattern, at) {
            proof {
                lemma_first_occurrence(text@, pattern@, at as int);
            }
            return Some(at);
        }
        if at == last {
            return None;
        }
        at += 1;
    }
}

/// `c` in lower case, where it is one of the letters `A` to `Z`.
pub open spec fn lower_char(c: char) -> char {
    if 'A' <= c && c <= 'Z' {
        (((c as u8) + 32) as u8) as char
    } else {
        c
    }
}

/// `text` with the letters `A` to `Z` in lower case.
pub open spec fn lowered(text: Seq<char>) -> Seq<char> {
    Seq::new(text.len(), |i: int| lower_char(text[i]))
}

/// `text` with the letters `A` to `Z` in lower case.
pub fn to_lower(text: &Vec<char>) -> (out: Vec<char>)
    ensures
        out@ == lowered(text@),
{
    let mut out: Vec<char> = Vec::new();
    let mut i: usize = 0;
    while i < text.len()
        invariant
            i <= text.len(),
            out@ == lowered(text@.take(i as int)),
        decreases text.len() - i,
    {
        let c = text[i];
        if 'A' <= c && c <= 'Z' {
            out.push(((c as u8) + 32) as char);
        } else {
            out.push(c);
        }
        assert(out@ =~= lowered(text@.take(i + 1)));
        i += 1;
    }
    proof {
        assert(text@.take(text.len() as int) == text@);
    }
    out
}

/// The first word of `text`: what stands before its first blank.
pub open spec fn first_word(text: Seq<char>) -> Seq<char> {
    text.take(first_index(text, ' '))
}

/// Whether the first word of `text` is `word`.
pub fn first_word_is(text: &Vec<char>, word: &str) -> (same: bool)
    ensures
        same == (first_word(text@) == word@),
{
    let end = find_char(text, ' ');
    let head = copy_range(text, 0, end);
    proof {
        assert(text@.take(end as int) == text@.subrange(0, end as int));
    }
    let wanted = chars_of(word);
    same_text(&head, &wanted)
}

/// Whether `pattern` stands somewhere in `text`.
pub fn contains_str(text: &Vec<char>, pattern: &str) -> (found: bool)
    ensures
        found == contains_text(text@, pattern@),
{
    let wanted = chars_of(pattern);
    find_text(text, &wanted).is_some()
}

/// A text without the separator is one piece.
pub proof fn lemma_split_of_one_piece(text: Seq<char>, separator: char)
    requires
        forall|j: int| 0 <= j < text.len() ==> text[j] != separator,
    ensures
        split(text, separator) == seq![text],
    decreases text.len(),
{
    if text.len() > 0 {
        lemma_split_of_one_piece(text.drop_last(), separator);
        assert(text.drop_last().push(text.last()) == text);
        let before = seq![text.drop_last()];
        assert(before.last() == text.drop_last());
        assert(before.drop_last().push(text) =~= seq![text]);
    } else {
        assert(text == Seq::<char>::empty());
    }
}

/// A piece put behind a text and a separator is one more piece.
pub proof fn lemma_split_of_one_more(start: Seq<char>, piece: Seq<char>, separator: char)
    requires
        forall|j: int| 0 <= j < piece.len() ==> piece[j] != separator,
    ensures
        split(start.push(separator) + piece, separator) == split(start, separator).push(piece),
    decreases piece.len(),
{
    let text = start.push(separator) + piece;
    if piece.len() == 0 {
        assert(text == start.push(separator));
        assert(text.drop_last() == start);
        assert(piece == Seq::<char>::empty());
    } else {
        lemma_split_of_one_more(start, piece.drop_last(), separator);
        assert(text.drop_last() == start.push(separator) + piece.drop_last());
        assert(text.last() == piece.last());
        let before = split(start, separator).push(piece.drop_last());
        assert(before.drop_last() == split(start, separator));
        assert(piece.drop_last().push(piece.last()) == piece);
    }
}

} // verus!
