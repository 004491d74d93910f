//! Character-level helpers for strings.

use vstd::prelude::*;

verus! {

/// `String::push` appends one character to the end of the string.
pub assume_specification[ String::push ](s: &mut String, ch: char)
    ensures
        final(s)@ == old(s)@.push(ch),
;

/// `String::push_str` appends a string slice to the end of the string.
pub assume_specification[ String::push_str ](s: &mut String, string: &str)
    ensures
        final(s)@ == old(s)@ + string@,
;

/// `str` equality compares the two strings character by character.
pub assume_specification[ <str as PartialEq>::eq ](a: &str, b: &str) -> (r: bool)
    ensures
        r == (a@ == b@),
;

/// The characters of a string slice, in order.
pub fn chars_of(s: &str) -> (v: Vec<char>)
    ensures
        v@ == s@,
{
    let mut v: Vec<char> = Vec::new();
    for c in it: s.chars()
        invariant
            v@ == it.seq().take(it.index() as int),
            it.seq() == s@,
    {
        v.push(c);
    }
    v
}

/// A string made of the given characters.
pub fn string_of(cs: &[char]) -> (s: String)
    ensures
        s@ == cs@,
{
    let mut s = String::new();
    let mut i: usize = 0;
    while i < cs.len()
        invariant
            i <= cs@.len(),
            s@ == cs@.take(i as int),
        decreases cs@.len() - i,
    {
        s.push(cs[i]);
        i += 1;
        assert(s@ =~= cs@.take(i as int));
    }
    assert(cs@.take(i as int) =~= cs@);
    s
}

} // verus!

verus! {

/// The characters `cs[start..end]` as a new string.
pub fn string_of_range(cs: &Vec<char>, start: usize, end: usize) -> (s: String)
    requires
        start <= end <= cs@.len(),
    ensures
        s@ == cs@.subrange(start as int, end as int),
{
    let mut s = String::new();
    let mut i: usize = start;
    while i < end
        invariant
            start <= i <= end <= cs@.len(),
            s@ == cs@.subrange(start as int, i as int),
        decreases end - i,
    {
        s.push(cs[i]);
        i += 1;
        assert(s@ =~= cs@.subrange(start as int, i as int));
    }
    s
}

/// Whether `cs[start..end]` holds exactly the characters of `lit`.
pub fn range_equals(cs: &Vec<char>, start: usize, end: usize, lit: &Vec<char>) -> (b: bool)
    requires
        start <= end <= cs@.len(),
    ensures
        b == (cs@.subrange(start as int, end as int) == lit@),
{
    if end - start != lit.len() {
        return false;
    }
    let mut i: usize = 0;
    while i < lit.len()
        invariant
            end - start == lit@.len(),
            start <= end <= cs@.len(),
            i <= lit@.len(),
            forall|j: int| 0 <= j < i ==> cs@[start + j] == lit@[j],
        decreases lit@.len() - i,
    {
        if cs[start + i] != lit[i] {
            assert(cs@.subrange(start as int, end as int)[i as int] != lit@[i as int]);
            return false;
        }
        i += 1;
    }
    assert(cs@.subrange(start as int, end as int) =~= lit@);
    true
}

} // verus!

verus! {

/// Whether two strings hold the same characters.
pub fn str_eq(a: &str, b: &str) -> (r: bool)
    ensures
        r == (a@ == b@),
{
    <str as PartialEq>::eq(a, b)
}

} // verus!

verus! {

/// Whether a character is white space: Unicode's `White_Space` characters, which
/// `char::is_whitespace` tests for.
pub open spec fn is_space(c: char) -> bool {
    ('\u{9}' <= c <= '\u{d}') || c == ' ' || c == '\u{85}' || c == '\u{a0}' || c == '\u{1680}' || (
    '\u{2000}' <= c <= '\u{200a}') || c == '\u{2028}' || c == '\u{2029}' || c == '\u{202f}' || c
        == '\u{205f}' || c == '\u{3000}'
}

/// Whether a character is white space.
pub fn space(c: char) -> (b: bool)
    ensures
        b == is_space(c),
{
    ('\u{9}' <= c && c <= '\u{d}') || c == ' ' || c == '\u{85}' || c == '\u{a0}' || c == '\u{1680}'
        || ('\u{2000}' <= c && c <= '\u{200a}') || c == '\u{2028}' || c == '\u{2029}' || c
        == '\u{202f}' || c == '\u{205f}' || c == '\u{3000}'
}

/// A text without its leading and trailing white space.
pub open spec fn trimmed(s: Seq<char>) -> Seq<char>
    decreases s.len(),
{
    if s.len() > 0 && is_space(s[0]) {
        trimmed(s.drop_first())
    } else if s.len() > 0 && is_space(s.last()) {
        trimmed(s.drop_last())
    } else {
        s
    }
}

/// The text of `s` without its leading and trailing white space, as `str::trim` gives it.
pub fn trim(s: &str) -> (t: String)
    ensures
        t@ == trimmed(s@),
{
    let cs = chars_of(s);
    let mut start: usize = 0;
    let mut end: usize = cs.len();
    assert(cs@.subrange(0, end as int) =~= cs@);
    while start < end && space(cs[start])
        invariant
            start <= end == cs@.len(),
            trimmed(cs@) == trimmed(cs@.subrange(start as int, end as int)),
        decreases end - start,
    {
        assert(cs@.subrange(start as int, end as int).drop_first() =~= cs@.subrange(start + 1, end as int));
        start += 1;
    }
    while end > start && space(cs[end - 1])
        invariant
            start <= end <= cs@.len(),
            start == end || !is_space(cs@[start as int]),
            trimmed(cs@) == trimmed(cs@.subrange(start as int, end as int)),
        decreases end - start,
    {
        let ghost sub = cs@.subrange(start as int, end as int);
        assert(sub.drop_last() =~= cs@.subrange(start as int, end - 1));
        assert(sub[0] == cs@[start as int]);
        end -= 1;
    }
    proof {
        let sub = cs@.subrange(start as int, end as int);
        if start < end {
            assert(sub[0] == cs@[start as int]);
            assert(sub.last() == cs@[end - 1]);
        }
    }
    string_of_range(&cs, start, end)
}

/// Words joined by single spaces.
pub open spec fn joined(words: Seq<Seq<char>>) -> Seq<char>
    decreases words.len(),
{
    if words.len() == 0 {
        Seq::empty()
    } else if words.len() == 1 {
        words[0]
    } else {
        joined(words.drop_last()) + seq![' '] + words.last()
    }
}

/// The words joined by single spaces.
pub fn join_words(words: &Vec<String>) -> (s: String)
    ensures
        s@ == joined(words@.map_values(|w: String| w@)),
{
    let ghost ws = words@.map_values(|w: String| w@);
    let mut s = String::new();
    let mut i: usize = 0;
    while i < words.len()
        invariant
            i <= words@.len(),
            ws == words@.map_values(|w: String| w@),
            s@ == joined(ws.take(i as int)),
        decreases words@.len() - i,
    {
        if i > 0 {
            s.push(' ');
        }
        s.push_str(words[i].as_str());
        assert(ws.take(i + 1).drop_last() =~= ws.take(i as int));
        if i == 0 {
            assert(ws.take(1) =~= seq![ws[0]]);
        }
        i += 1;
        assert(s@ =~= joined(ws.take(i as int)));
    }
    assert(ws.take(i as int) =~= ws);
    s
}

/// Whether `pat` stands somewhere in `s`.
pub open spec fn has_sub(s: Seq<char>, pat: Seq<char>) -> bool {
    exists|i: int| 0 <= i && i + pat.len() <= s.len() && #[trigger] s.subrange(i, i + pat.len()) == pat
}

/// A line without the `\r` of a `\r\n` ending.
pub open spec fn strip_cr(l: Seq<char>) -> Seq<char> {
    if l.len() > 0 && l.last() == '\r' {
        l.drop_last()
    } else {
        l
    }
}

/// The lines of `s` from the one that starts at `start`, scanning from `i`, as
/// `str::lines` gives them: split at each `\n` or `\r\n`, the last ending optional.
pub open spec fn lines_acc(s: Seq<char>, start: int, i: int) -> Seq<Seq<char>>
    decreases s.len() - i,
{
    if i >= s.len() {
        if start < s.len() {
            seq![s.subrange(start, s.len() as int)]
        } else {
            Seq::empty()
        }
    } else if s[i] == '\n' {
        seq![strip_cr(s.subrange(start, i))] + lines_acc(s, i + 1, i + 1)
    } else {
        lines_acc(s, start, i + 1)
    }
}

/// The lines of a text, as `str::lines` gives them.
pub open spec fn lines_of(s: Seq<char>) -> Seq<Seq<char>> {
    lines_acc(s, 0, 0)
}

/// The words of `s` from position `i` on, as `str::split_whitespace` gives them; a
/// word in progress starts at `start` where `start` is not negative.
pub open spec fn words_acc(s: Seq<char>, start: int, i: int) -> Seq<Seq<char>>
    decreases s.len() - i,
{
    if i >= s.len() {
        if start >= 0 {
            seq![s.subrange(start, s.len() as int)]
        } else {
            Seq::empty()
        }
    } else if is_space(s[i]) {
        if start >= 0 {
            seq![s.subrange(start, i)] + words_acc(s, -1, i + 1)
        } else {
            words_acc(s, -1, i + 1)
        }
    } else {
        words_acc(s, if start >= 0 { start } else { i }, i + 1)
    }
}

/// The words of a text: its runs of characters other than white space.
pub open spec fn words_of(s: Seq<char>) -> Seq<Seq<char>> {
    words_acc(s, -1, 0)
}

/// The lines of a text.
pub fn lines(cs: &Vec<char>) -> (ls: Vec<Vec<char>>)
    ensures
        ls@.map_values(|l: Vec<char>| l@) == lines_of(cs@),
{
    let mut ls: Vec<Vec<char>> = Vec::new();
    let mut start: usize = 0;
    let mut i: usize = 0;
    while i < cs.len()
        invariant
            start <= i <= cs@.len(),
            lines_of(cs@) == ls@.map_values(|l: Vec<char>| l@) + lines_acc(cs@, start as int, i as int),
        decreases cs@.len() - i,
    {
        if cs[i] == '\n' {
            let mut end = i;
            if end > start && cs[end - 1] == '\r' {
                end = end - 1;
            }
            let line = string_chars(cs, start, end);
            let ghost before = ls@.map_values(|l: Vec<char>| l@);
            proof {
                let sub = cs@.subrange(start as int, i as int);
                if i > start && cs@[i - 1] == '\r' {
                    assert(sub.last() == cs@[i - 1]);
                    assert(sub.drop_last() =~= cs@.subrange(start as int, end as int));
                } else if i > start {
                    assert(sub.last() == cs@[i - 1]);
                }
            }
            ls.push(line);
            assert(ls@.map_values(|l: Vec<char>| l@) =~= before.push(strip_cr(cs@.subrange(start as int, i as int))));
            i += 1;
            start = i;
        } else {
            i += 1;
        }
    }
    if start < cs.len() {
        let ghost before = ls@.map_values(|l: Vec<char>| l@);
        let line = string_chars(cs, start, cs.len());
        ls.push(line);
        assert(ls@.map_values(|l: Vec<char>| l@) =~= before + lines_acc(cs@, start as int, i as int));
    } else {
        assert(ls@.map_values(|l: Vec<char>| l@) =~= ls@.map_values(|l: Vec<char>| l@) + lines_acc(
            cs@,
            start as int,
            i as int,
        ));
    }
    ls
}

/// The characters of `cs` from `start` up to `end`.
pub fn string_chars(cs: &Vec<char>, start: usize, end: usize) -> (v: Vec<char>)
    requires
        start <= end <= cs@.len(),
    ensures
        v@ == cs@.subrange(start as int, end as int),
{
    let mut v: Vec<char> = Vec::new();
    let mut k: usize = start;
    while k < end
        invariant
            start <= k <= end <= cs@.len(),
            v@ == cs@.subrange(start as int, k as int),
        decreases end - k,
    {
        v.push(cs[k]);
        k += 1;
        assert(v@ =~= cs@.subrange(start as int, k as int));
    }
    v
}

/// The words of a line.
pub fn words(cs: &Vec<char>) -> (ws: Vec<Vec<char>>)
    ensures
        ws@.map_values(|w: Vec<char>| w@) == words_of(cs@),
{
    let mut ws: Vec<Vec<char>> = Vec::new();
    let mut in_word = false;
    let mut start: usize = 0;
    let mut i: usize = 0;
    while i < cs.len()
        invariant
            i <= cs@.len(),
            in_word ==> start < i,
            words_of(cs@) == ws@.map_values(|w: Vec<char>| w@) + words_acc(
                cs@,
                if in_word { start as int } else { -1 },
                i as int,
            ),
        decreases cs@.len() - i,
    {
        if space(cs[i]) {
            if in_word {
                let ghost before = ws@.map_values(|w: Vec<char>| w@);
                let w = string_chars(cs, start, i);
                ws.push(w);
                assert(ws@.map_values(|w: Vec<char>| w@) =~= before.push(cs@.subrange(start as int, i as int)));
                in_word = false;
            }
        } else if !in_word {
            in_word = true;
            start = i;
        }
        i += 1;
    }
    if in_word {
        let ghost before = ws@.map_values(|w: Vec<char>| w@);
        let w = string_chars(cs, start, cs.len());
        ws.push(w);
        assert(ws@.map_values(|w: Vec<char>| w@) =~= before.push(cs@.subrange(start as int, cs@.len() as int)));
    } else {
        assert(words_acc(cs@, -1, i as int) =~= Seq::<Seq<char>>::empty());
        assert(ws@.map_values(|w: Vec<char>| w@) =~= ws@.map_values(|w: Vec<char>| w@) + words_acc(cs@, -1, i as int));
    }
    ws
}

/// Whether `pat` stands somewhere in `cs`.
pub fn contains_sub(cs: &Vec<char>, pat: &Vec<char>) -> (b: bool)
    ensures
        b == has_sub(cs@, pat@),
{
    if pat.len() > cs.len() {
        return false;
    }
    let n = pat.len();
    let total = cs.len();
    let last = total - n;
    let mut i: usize = 0;
    loop
        invariant
            n == pat@.len(),
            total == cs@.len(),
            n <= total,
            last == total - n,
            i <= last,
            forall|j: int| 0 <= j < i ==> #[trigger] cs@.subrange(j, j + pat@.len()) != pat@,
        decreases last - i,
    {
        if range_equals(cs, i, i + n, pat) {
            return true;
        }
        if i == last {
            return false;
        }
        i += 1;
    }
}

} // verus!
