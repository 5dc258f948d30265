//! Strings: what the library writes and reads of them.

use vstd::prelude::*;
use vstd::string::*;

verus! {

/// `String::push` of std appends the character to the end of the string.
pub assume_specification[ String::push ](s: &mut String, c: char)
    ensures
        final(s)@ == old(s)@.push(c),
;

/// The decimal digit that stands for `d`.
pub open spec fn digit_char(d: int) -> char
    recommends
        0 <= d < 10,
{
    if d == 0 {
        '0'
    } else if d == 1 {
        '1'
    } else if d == 2 {
        '2'
    } else if d == 3 {
        '3'
    } else if d == 4 {
        '4'
    } else if d == 5 {
        '5'
    } else if d == 6 {
        '6'
    } else if d == 7 {
        '7'
    } else if d == 8 {
        '8'
    } else {
        '9'
    }
}

/// The decimal numeral of `n`, without leading zeros.
pub open spec fn decimal(n: nat) -> Seq<char>
    decreases n,
{
    if n < 10 {
        seq![digit_char(n as int)]
    } else {
        decimal(n / 10).push(digit_char((n % 10) as int))
    }
}

fn digit(d: u64) -> (c: char)
    requires
        d < 10,
    ensures
        c == digit_char(d as int),
{
    if d == 0 {
        '0'
    } else if d == 1 {
        '1'
    } else if d == 2 {
        '2'
    } else if d == 3 {
        '3'
    } else if d == 4 {
        '4'
    } else if d == 5 {
        '5'
    } else if d == 6 {
        '6'
    } else if d == 7 {
        '7'
    } else if d == 8 {
        '8'
    } else {
        '9'
    }
}

/// Writes `n` in decimal.
pub fn decimal_string(n: u64) -> (s: String)
    ensures
        s@ == decimal(n as nat),
{
    let mut digits: Vec<char> = Vec::new();
    let mut rest: u64 = n;
    while rest >= 10
        invariant
            decimal(n as nat) == decimal(rest as nat) + digits@.reverse(),
        decreases rest,
    {
        let d = digit(rest % 10);
        proof {
            let older = digits@;
            assert(decimal(rest as nat) == decimal((rest / 10) as nat).push(digit_char((rest % 10) as int)));
            assert(older.push(d).reverse() =~= seq![d] + older.reverse());
            assert(decimal((rest / 10) as nat).push(d) + older.reverse() =~= decimal((rest / 10) as nat)
                + (seq![d] + older.reverse()));
        }
        digits.push(d);
        rest = rest / 10;
    }
    let mut s = String::new();
    s.push(digit(rest));
    let mut i: usize = digits.len();
    while i > 0
        invariant
            i <= digits.len(),
            s@ == decimal(rest as nat) + digits@.reverse().take(digits.len() - i),
        decreases i,
    {
        i = i - 1;
        proof {
            let r = digits@.reverse();
            let k = digits.len() - i - 1;
            assert(r.take(k + 1) =~= r.take(k).push(digits@[i as int]));
            assert((decimal(rest as nat) + r.take(k)).push(digits@[i as int]) =~= decimal(rest as nat) + r.take(
                k + 1,
            ));
        }
        s.push(digits[i]);
    }
    proof {
        assert(digits@.reverse().take(digits.len() as int) =~= digits@.reverse());
    }
    s
}

/// The characters of a string, in order.
pub fn chars_of(s: &str) -> (out: Vec<char>)
    ensures
        out@ == s@,
{
    broadcast use vstd::string::axiom_spec_iter;
    broadcast use vstd::string::next_postcondition;

    let mut iter = s.chars();
    let mut out: Vec<char> = Vec::new();
    let mut open = true;
    assert(out@ + vstd::std_specs::iter::IteratorSpec::remaining(&iter) =~= s@);
    while open
        invariant
            vstd::std_specs::iter::IteratorSpec::obeys_prophetic_iter_laws(&iter),
            open ==> out@ + vstd::std_specs::iter::IteratorSpec::remaining(&iter) == s@,
            !open ==> out@ == s@,
        decreases s@.len() - out@.len() + (if open { 1int } else { 0int }),
    {
        let ghost before = vstd::std_specs::iter::IteratorSpec::remaining(&iter);
        match iter.next() {
            Some(c) => {
                out.push(c);
                assert(out@ + vstd::std_specs::iter::IteratorSpec::remaining(&iter) =~= s@);
            },
            None => {
                open = false;
                assert(out@ + before =~= out@);
            },
        }
    }
    out
}

/// Whether `c` is white space: a character with the Unicode property
/// `White_Space`.
pub open spec fn is_space(c: char) -> bool {
    c == ' ' || ('\u{9}' <= c && c <= '\u{d}') || c == '\u{85}' || c == '\u{a0}' || c == '\u{1680}' || (
    '\u{2000}' <= c && c <= '\u{200a}') || c == '\u{2028}' || c == '\u{2029}' || c == '\u{202f}' || c
        == '\u{205f}' || c == '\u{3000}'
}

/// Whether `c` is white space.
pub fn is_white_space(c: char) -> (b: bool)
    ensures
        b == is_space(c),
{
    c == ' ' || ('\u{9}' <= c && c <= '\u{d}') || c == '\u{85}' || c == '\u{a0}' || c == '\u{1680}' || (
    '\u{2000}' <= c && c <= '\u{200a}') || c == '\u{2028}' || c == '\u{2029}' || c == '\u{202f}' || c
        == '\u{205f}' || c == '\u{3000}'
}

/// The words of `s` from its `i`-th character on, where `current` holds the
/// characters of the word that is being read.
pub open spec fn words_from(s: Seq<char>, i: int, current: Seq<char>) -> Seq<Seq<char>>
    decreases s.len() - i,
{
    let read = if current.len() > 0 {
        seq![current]
    } else {
        Seq::empty()
    };
    if i < 0 || i >= s.len() {
        read
    } else if is_space(s[i]) {
        read + words_from(s, i + 1, Seq::empty())
    } else {
        words_from(s, i + 1, current.push(s[i]))
    }
}

/// The words of `s`: its longest stretches without white space, in order.
pub open spec fn words(s: Seq<char>) -> Seq<Seq<char>> {
    words_from(s, 0, Seq::empty())
}

/// The texts of a list of strings.
pub open spec fn texts(list: Seq<String>) -> Seq<Seq<char>> {
    Seq::new(list.len(), |i: int| list[i]@)
}

/// Splits `s` into its words.
pub fn split_words(s: &str) -> (out: Vec<String>)
    ensures
        texts(out@) == words(s@),
{
    let chars = chars_of(s);
    let mut out: Vec<String> = Vec::new();
    let mut current = String::new();
    let mut i: usize = 0;
    assert(texts(out@) + words_from(s@, 0, current@) =~= words(s@));
    while i < chars.len()
        invariant
            i <= chars.len(),
            chars@ == s@,
            texts(out@) + words_from(s@, i as int, current@) == words(s@),
        decreases chars.len() - i,
    {
        let c = chars[i];
        let ghost before = texts(out@);
        let ghost word = current@;
        if is_white_space(c) {
            if !current.as_str().is_empty() {
                out.push(current);
                current = String::new();
                assert(texts(out@) =~= before + seq![word]);
            }
            assert(current@ =~= Seq::<char>::empty());
            assert(words_from(s@, i as int, word) == (if word.len() > 0 {
                seq![word]
            } else {
                Seq::empty()
            }) + words_from(s@, i + 1, Seq::empty()));
            assert(texts(out@) + words_from(s@, i + 1, Seq::empty()) =~= before + words_from(
                s@,
                i as int,
                word,
            ));
        } else {
            current.push(c);
            assert(words_from(s@, i as int, word) == words_from(s@, i + 1, word.push(c)));
        }
        i = i + 1;
    }
    let ghost before = texts(out@);
    let ghost word = current@;
    if !current.as_str().is_empty() {
        out.push(current);
        assert(texts(out@) =~= before + seq![word]);
    }
    assert(texts(out@) =~= before + words_from(s@, i as int, word));
    out
}

/// `parts` written one after the other, with `separator` between each two.
pub open spec fn joined_with(parts: Seq<Seq<char>>, separator: Seq<char>) -> Seq<char>
    decreases parts.len(),
{
    if parts.len() == 0 {
        Seq::empty()
    } else if parts.len() == 1 {
        parts[0]
    } else {
        joined_with(parts.drop_last(), separator) + separator + parts.last()
    }
}

/// Writes `parts` one after the other, with `separator` between each two.
pub fn join(parts: &Vec<String>, separator: &str) -> (out: String)
    ensures
        out@ == joined_with(texts(parts@), separator@),
{
    let mut out = String::new();
    let mut i: usize = 0;
    assert(texts(parts@).take(0) =~= Seq::<Seq<char>>::empty());
    while i < parts.len()
        invariant
            i <= parts.len(),
            out@ == joined_with(texts(parts@).take(i as int), separator@),
        decreases parts.len() - i,
    {
        proof {
            let all = texts(parts@);
            assert(all.take(i + 1).drop_last() =~= all.take(i as int));
            assert(all.take(i + 1).last() == parts@[i as int]@);
            if i == 0 {
                assert(all.take(1)[0] == parts@[0]@);
                assert(out@ + parts@[0]@ =~= parts@[0]@);
            }
        }
        if i > 0 {
            out.append(separator);
        }
        out.append(parts[i].as_str());
        i = i + 1;
    }
    assert(texts(parts@).take(i as int) =~= texts(parts@));
    out
}

/// Whether `text` begins with `start`.
pub open spec fn begins_with(text: Seq<char>, start: Seq<char>) -> bool {
    start.len() <= text.len() && text.take(start.len() as int) == start
}

/// Whether `part` stands somewhere in `text`.
pub open spec fn occurs_in(part: Seq<char>, text: Seq<char>) -> bool {
    exists|at: int| 0 <= at && at + part.len() <= text.len() && #[trigger] text.subrange(at, at + part.len())
        == part
}

/// Whether `part` stands in `text` at `at`.
fn stands_at(text: &Vec<char>, part: &Vec<char>, at: usize) -> (b: bool)
    requires
        at + part.len() <= text.len(),
    ensures
        b == (text@.subrange(at as int, at + part.len()) == part@),
{
    let mut k: usize = 0;
    while k < part.len()
        invariant
            k <= part.len(),
            at + part.len() <= text.len(),
            text@.subrange(at as int, at + k) == part@.take(k as int),
        decreases part.len() - k,
    {
        if text[at + k] != part[k] {
            proof {
                let whole = text@.subrange(at as int, at + part.len());
                if whole == part@ {
                    assert(whole[k as int] == part@[k as int]);
                }
            }
            return false;
        }
        assert(text@.subrange(at as int, at + k + 1) =~= part@.take(k + 1));
        k = k + 1;
    }
    assert(part@.take(k as int) =~= part@);
    true
}

/// Whether `text` begins with `start`.
pub fn starts_with(text: &str, start: &str) -> (b: bool)
    ensures
        b == begins_with(text@, start@),
{
    let text = chars_of(text);
    let start = chars_of(start);
    if start.len() > text.len() {
        return false;
    }
    let b = stands_at(&text, &start, 0);
    assert(text@.subrange(0, start.len() as int) =~= text@.take(start.len() as int));
    b
}

/// Whether `part` stands somewhere in `text`.
pub fn contains(text: &str, part: &str) -> (b: bool)
    ensures
        b == occurs_in(part@, text@),
{
    let whole = chars_of(text);
    let piece = chars_of(part);
    if piece.len() > whole.len() {
        return false;
    }
    let last = whole.len() - piece.len();
    let mut at: usize = 0;
    while at < last
        invariant
            at <= last,
            last == whole.len() - piece.len(),
            piece.len() <= whole.len(),
            whole@ == text@,
            piece@ == part@,
            forall|earlier: int|
                0 <= earlier < at ==> #[trigger] whole@.subrange(earlier, earlier + piece.len()) != piece@,
        decreases last - at,
    {
        if stands_at(&whole, &piece, at) {
            assert(text@.subrange(at as int, at + part@.len()) == part@);
            return true;
        }
        at = at + 1;
    }
    let found = stands_at(&whole, &piece, last);
    proof {
        if found {
            assert(text@.subrange(last as int, last + part@.len()) == part@);
        }
    }
    found
}

/// The pieces of `s` from its `i`-th character on, cut at each `separator`,
/// where `current` holds the characters of the piece that is being read.
pub open spec fn pieces_from(s: Seq<char>, separator: char, i: int, current: Seq<char>) -> Seq<Seq<char>>
    decreases s.len() - i,
{
    if i < 0 || i >= s.len() {
        seq![current]
    } else if s[i] == separator {
        seq![current] + pieces_from(s, separator, i + 1, Seq::empty())
    } else {
        pieces_from(s, separator, i + 1, current.push(s[i]))
    }
}

/// The pieces that `s` falls into where it is cut at each `separator`: one
/// more than there are separators, empty pieces among them.
pub open spec fn pieces(s: Seq<char>, separator: char) -> Seq<Seq<char>> {
    pieces_from(s, separator, 0, Seq::empty())
}

/// Cuts `s` at each `separator`.
pub fn split(s: &str, separator: char) -> (out: Vec<String>)
    ensures
        texts(out@) == pieces(s@, separator),
{
    let chars = chars_of(s);
    let mut out: Vec<String> = Vec::new();
    let mut current = String::new();
    let mut i: usize = 0;
    assert(texts(out@) + pieces_from(s@, separator, 0, current@) =~= pieces(s@, separator));
    while i < chars.len()
        invariant
            i <= chars.len(),
            chars@ == s@,
            texts(out@) + pieces_from(s@, separator, i as int, current@) == pieces(s@, separator),
        decreases chars.len() - i,
    {
        let c = chars[i];
        let ghost before = texts(out@);
        let ghost piece = current@;
        if c == separator {
            out.push(current);
            current = String::new();
            assert(texts(out@) =~= before + seq![piece]);
            assert(current@ =~= Seq::<char>::empty());
            assert(texts(out@) + pieces_from(s@, separator, i + 1, Seq::empty()) =~= before + pieces_from(
                s@,
                separator,
                i as int,
                piece,
            ));
        } else {
            current.push(c);
            assert(pieces_from(s@, separator, i as int, piece) == pieces_from(
                s@,
                separator,
                i + 1,
                piece.push(c),
            ));
        }
        i = i + 1;
    }
    let ghost before = texts(out@);
    let ghost piece = current@;
    out.push(current);
    assert(texts(out@) =~= before + pieces_from(s@, separator, i as int, piece));
    out
}

/// Whether `text` takes more than one byte where it is written in UTF-8:
/// it holds more than one character, or one that is not of the ASCII set.
pub open spec fn takes_more_than_a_byte(text: Seq<char>) -> bool {
    text.len() > 1 || (text.len() == 1 && text[0] >= '\u{80}')
}

/// Whether `text` takes more than one byte where it is written in UTF-8.
pub fn is_longer_than_a_byte(text: &str) -> (b: bool)
    ensures
        b == takes_more_than_a_byte(text@),
{
    let chars = chars_of(text);
    chars.len() > 1 || (chars.len() == 1 && chars[0] >= '\u{80}')
}

} // verus!
