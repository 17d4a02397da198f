//! The textual form of a symbol map.
//!
//! A map is read line by line. A line is split into words at blanks (space,
//! tab, carriage return). A line without words is blank. A line whose first
//! word is a hexadecimal address that fits in `usize` (an optional `0x` or
//! `0X`, then one or more hexadecimal digits) and that has a second word is a
//! record: the second word is the symbol's name, further words are ignored.
//! Every other line is malformed.

use crate::text::string_of;
use vstd::prelude::*;

verus! {

/// A named address, as the contracts see it.
pub struct Symbol {
    pub address: usize,
    pub name: Seq<char>,
}

/// What one line of a map says.
pub enum Line {
    Blank,
    Record(Symbol),
    Malformed,
}

/// One entry of a symbol map: a name and the address it starts at.
#[derive(Debug)]
pub struct SymbolEntry {
    pub address: usize,
    pub name: String,
}

impl View for SymbolEntry {
    type V = Symbol;

    open spec fn view(&self) -> Symbol {
        Symbol { address: self.address, name: self.name@ }
    }
}

/// A line of a map as read: blank, an entry, or malformed.
#[derive(Debug)]
pub enum MapLine {
    Blank,
    Record(SymbolEntry),
    Malformed,
}

impl View for MapLine {
    type V = Line;

    open spec fn view(&self) -> Line {
        match self {
            MapLine::Blank => Line::Blank,
            MapLine::Record(entry) => Line::Record(entry@),
            MapLine::Malformed => Line::Malformed,
        }
    }
}

/// Whether `c` parts words: a space, a tab or a carriage return.
pub open spec fn is_blank(c: char) -> bool {
    c == ' ' || c == '\t' || c == '\r'
}

/// The value of a hexadecimal digit, if `c` is one.
pub open spec fn hex_digit(c: char) -> Option<nat> {
    if '0' <= c <= '9' {
        Some((c as nat - '0' as nat) as nat)
    } else if 'a' <= c <= 'f' {
        Some((c as nat - 'a' as nat + 10) as nat)
    } else if 'A' <= c <= 'F' {
        Some((c as nat - 'A' as nat + 10) as nat)
    } else {
        None
    }
}

/// Whether every character is a hexadecimal digit.
pub open spec fn all_hex(digits: Seq<char>) -> bool {
    forall|i: int| 0 <= i < digits.len() ==> (#[trigger] hex_digit(digits[i])) is Some
}

/// The number that a run of hexadecimal digits writes, most significant first.
pub open spec fn hex_number(digits: Seq<char>) -> nat
    decreases digits.len(),
{
    if digits.len() == 0 {
        0
    } else {
        16 * hex_number(digits.drop_last()) + hex_digit(digits.last()).unwrap_or(0)
    }
}

/// Whether a word starts with `0x` or `0X`.
pub open spec fn has_hex_prefix(word: Seq<char>) -> bool {
    word.len() >= 2 && word[0] == '0' && (word[1] == 'x' || word[1] == 'X')
}

/// The digits of an address word: the word without its prefix.
pub open spec fn address_digits(word: Seq<char>) -> Seq<char> {
    if has_hex_prefix(word) {
        word.skip(2)
    } else {
        word
    }
}

/// The address that a word writes, if it writes one that fits in `usize`.
pub open spec fn address_of(word: Seq<char>) -> Option<usize> {
    let digits = address_digits(word);
    if digits.len() > 0 && all_hex(digits) && hex_number(digits) <= usize::MAX {
        Some(hex_number(digits) as usize)
    } else {
        None
    }
}

/// The first index at or after `i` that holds no blank; the length if none.
pub open spec fn skip_blanks(s: Seq<char>, i: int) -> int
    decreases s.len() - i,
{
    if 0 <= i < s.len() && is_blank(s[i]) {
        skip_blanks(s, i + 1)
    } else {
        i
    }
}

/// The first index at or after `i` that holds a blank; the length if none.
pub open spec fn skip_word(s: Seq<char>, i: int) -> int
    decreases s.len() - i,
{
    if 0 <= i < s.len() && !is_blank(s[i]) {
        skip_word(s, i + 1)
    } else {
        i
    }
}

/// The first index at or after `i` that holds a line feed; the length if none.
pub open spec fn line_end(s: Seq<char>, i: int) -> int
    decreases s.len() - i,
{
    if 0 <= i < s.len() && s[i] != '\n' {
        line_end(s, i + 1)
    } else {
        i
    }
}

/// What a line without its line feed says.
pub open spec fn decode_line(line: Seq<char>) -> Line {
    let a = skip_blanks(line, 0);
    let b = skip_word(line, a);
    let c = skip_blanks(line, b);
    let d = skip_word(line, c);
    if a >= line.len() {
        Line::Blank
    } else if c >= line.len() {
        Line::Malformed
    } else {
        match address_of(line.subrange(a, b)) {
            Some(address) => Line::Record(Symbol { address, name: line.subrange(c, d) }),
            None => Line::Malformed,
        }
    }
}

/// The lines of `s` from index `i` on, each decoded, in order.
pub open spec fn decoded_lines(s: Seq<char>, i: int) -> Seq<Line>
    decreases s.len() + 1 - i,
    via decoded_lines_terminates
{
    if 0 <= i < s.len() {
        let e = line_end(s, i);
        seq![decode_line(s.subrange(i, e))] + decoded_lines(s, e + 1)
    } else {
        Seq::empty()
    }
}

#[via_fn]
proof fn decoded_lines_terminates(s: Seq<char>, i: int) {
    if 0 <= i < s.len() {
        lemma_line_end_bounds(s, i);
    }
}

/// `skip_blanks` stays inside the text, passes blanks only and stops at the
/// first character that is none.
pub proof fn lemma_skip_blanks_bounds(s: Seq<char>, i: int)
    requires
        0 <= i <= s.len(),
    ensures
        i <= skip_blanks(s, i) <= s.len(),
        forall|k: int| i <= k < skip_blanks(s, i) ==> is_blank(#[trigger] s[k]),
        skip_blanks(s, i) < s.len() ==> !is_blank(s[skip_blanks(s, i)]),
    decreases s.len() - i,
{
    if i < s.len() && is_blank(s[i]) {
        lemma_skip_blanks_bounds(s, i + 1);
    }
}

/// `skip_word` stays inside the text, passes no blank and stops at the first
/// one.
pub proof fn lemma_skip_word_bounds(s: Seq<char>, i: int)
    requires
        0 <= i <= s.len(),
    ensures
        i <= skip_word(s, i) <= s.len(),
        forall|k: int| i <= k < skip_word(s, i) ==> !is_blank(#[trigger] s[k]),
        skip_word(s, i) < s.len() ==> is_blank(s[skip_word(s, i)]),
        i < s.len() && !is_blank(s[i]) ==> i < skip_word(s, i),
    decreases s.len() - i,
{
    if i < s.len() && !is_blank(s[i]) {
        lemma_skip_word_bounds(s, i + 1);
    }
}

/// `line_end` stays inside the text, passes no line feed and stops at the
/// first one.
pub proof fn lemma_line_end_bounds(s: Seq<char>, i: int)
    requires
        0 <= i <= s.len(),
    ensures
        i <= line_end(s, i) <= s.len(),
        forall|k: int| i <= k < line_end(s, i) ==> #[trigger] s[k] != '\n',
        line_end(s, i) < s.len() ==> s[line_end(s, i)] == '\n',
    decreases s.len() - i,
{
    if i < s.len() && s[i] != '\n' {
        lemma_line_end_bounds(s, i + 1);
    }
}

/// Skipping inside a line gives the same index as skipping inside the text
/// that the line is cut from.
proof fn lemma_skip_blanks_in_line(s: Seq<char>, from: int, to: int, i: int)
    requires
        0 <= from <= i <= to <= s.len(),
    ensures
        skip_blanks(s.subrange(from, to), i - from) + from == if skip_blanks(s, i) < to {
            skip_blanks(s, i)
        } else {
            to
        },
    decreases to - i,
{
    let line = s.subrange(from, to);
    if i < to && is_blank(s[i]) {
        assert(line[i - from] == s[i]);
        lemma_skip_blanks_in_line(s, from, to, i + 1);
        lemma_skip_blanks_bounds(s, i + 1);
    } else if i < to {
        assert(line[i - from] == s[i]);
    } else {
        lemma_skip_blanks_bounds(s, i);
    }
}

/// The same for words.
proof fn lemma_skip_word_in_line(s: Seq<char>, from: int, to: int, i: int)
    requires
        0 <= from <= i <= to <= s.len(),
    ensures
        skip_word(s.subrange(from, to), i - from) + from == if skip_word(s, i) < to {
            skip_word(s, i)
        } else {
            to
        },
    decreases to - i,
{
    let line = s.subrange(from, to);
    if i < to && !is_blank(s[i]) {
        assert(line[i - from] == s[i]);
        lemma_skip_word_in_line(s, from, to, i + 1);
        lemma_skip_word_bounds(s, i + 1);
    } else if i < to {
        assert(line[i - from] == s[i]);
    } else {
        lemma_skip_word_bounds(s, i);
    }
}

/// The first index in `[i, to]` that holds no blank, or `to`.
fn scan_blanks(s: &Vec<char>, i: usize, to: usize) -> (r: usize)
    requires
        i <= to <= s.len(),
    ensures
        i <= r <= to,
        r == if skip_blanks(s@, i as int) < to {
            skip_blanks(s@, i as int)
        } else {
            to as int
        },
{
    let mut k: usize = i;
    while k < to && is_blank_char(s[k])
        invariant
            i <= k <= to <= s.len(),
            skip_blanks(s@, i as int) == skip_blanks(s@, k as int),
        decreases to - k,
    {
        k += 1;
    }
    proof {
        lemma_skip_blanks_bounds(s@, k as int);
    }
    k
}

/// The first index in `[i, to]` that holds a blank, or `to`.
fn scan_word(s: &Vec<char>, i: usize, to: usize) -> (r: usize)
    requires
        i <= to <= s.len(),
    ensures
        i <= r <= to,
        r == if skip_word(s@, i as int) < to {
            skip_word(s@, i as int)
        } else {
            to as int
        },
{
    let mut k: usize = i;
    while k < to && !is_blank_char(s[k])
        invariant
            i <= k <= to <= s.len(),
            skip_word(s@, i as int) == skip_word(s@, k as int),
        decreases to - k,
    {
        k += 1;
    }
    proof {
        lemma_skip_word_bounds(s@, k as int);
    }
    k
}

/// The end of the line that starts at `i`.
pub fn scan_line(s: &Vec<char>, i: usize) -> (r: usize)
    requires
        i <= s.len(),
    ensures
        r == line_end(s@, i as int),
        i <= r <= s.len(),
{
    let mut k: usize = i;
    while k < s.len() && s[k] != '\n'
        invariant
            i <= k <= s.len(),
            line_end(s@, i as int) == line_end(s@, k as int),
        decreases s.len() - k,
    {
        k += 1;
    }
    k
}

/// Whether `c` parts words.
pub fn is_blank_char(c: char) -> (r: bool)
    ensures
        r == is_blank(c),
{
    c == ' ' || c == '\t' || c == '\r'
}

/// The value of `c` as a hexadecimal digit.
pub fn hex_digit_value(c: char) -> (r: Option<usize>)
    ensures
        r is Some <==> hex_digit(c) is Some,
        r is Some ==> r->Some_0 == hex_digit(c)->Some_0 && r->Some_0 < 16,
{
    let code: u32 = c as u32;
    if '0' <= c && c <= '9' {
        Some((code - 0x30) as usize)
    } else if 'a' <= c && c <= 'f' {
        Some((code - 0x61 + 10) as usize)
    } else if 'A' <= c && c <= 'F' {
        Some((code - 0x41 + 10) as usize)
    } else {
        None
    }
}

/// A run of digits writes at least as much as any run it starts with.
proof fn lemma_hex_number_grows(digits: Seq<char>, k: int)
    requires
        0 <= k <= digits.len(),
    ensures
        hex_number(digits.take(k)) <= hex_number(digits),
    decreases digits.len(),
{
    if k == digits.len() {
        assert(digits.take(k) == digits);
    } else {
        lemma_hex_number_grows(digits.drop_last(), k);
        assert(digits.drop_last().take(k) == digits.take(k));
    }
}

/// Reads the word `s[from..to]` as an address.
pub fn read_address(s: &Vec<char>, from: usize, to: usize) -> (r: Option<usize>)
    requires
        from <= to <= s.len(),
    ensures
        r == address_of(s@.subrange(from as int, to as int)),
{
    let ghost word = s@.subrange(from as int, to as int);
    let mut start: usize = from;
    if to - from >= 2 && s[from] == '0' && (s[from + 1] == 'x' || s[from + 1] == 'X') {
        start = from + 2;
    }
    let ghost digits = s@.subrange(start as int, to as int);
    assert(digits == address_digits(word));
    if start == to {
        return None;
    }
    let mut acc: usize = 0;
    let mut k: usize = start;
    while k < to
        invariant
            from <= start <= k <= to <= s.len(),
            digits == s@.subrange(start as int, to as int),
            digits == address_digits(s@.subrange(from as int, to as int)),
            all_hex(digits.take(k - start)),
            acc == hex_number(digits.take(k - start)),
        decreases to - k,
    {
        let ghost seen = digits.take(k - start);
        let ghost next = digits.take(k + 1 - start);
        assert(next.drop_last() == seen);
        assert(next.last() == s@[k as int]);
        match hex_digit_value(s[k]) {
            None => {
                assert(hex_digit(digits[k - start]) is None);
                return None;
            },
            Some(d) => {
                if acc > (usize::MAX - d) / 16 {
                    proof {
                        assert(hex_number(next) > usize::MAX);
                        lemma_hex_number_grows(digits, k + 1 - start);
                    }
                    return None;
                }
                acc = acc * 16 + d;
                assert forall|i: int| 0 <= i < next.len() implies (#[trigger] hex_digit(
                    next[i],
                )) is Some by {
                    if i < seen.len() {
                        assert(next[i] == seen[i]);
                    }
                }
                k += 1;
            },
        }
    }
    assert(digits.take(k - start) == digits);
    Some(acc)
}

/// Reads the line `s[from..to]`, which holds no line feed.
pub fn read_line(s: &Vec<char>, from: usize, to: usize) -> (r: MapLine)
    requires
        from <= to <= s.len(),
    ensures
        r@ == decode_line(s@.subrange(from as int, to as int)),
{
    let ghost line = s@.subrange(from as int, to as int);
    let a = scan_blanks(s, from, to);
    let b = scan_word(s, a, to);
    let c = scan_blanks(s, b, to);
    let d = scan_word(s, c, to);
    proof {
        lemma_skip_blanks_in_line(s@, from as int, to as int, from as int);
        lemma_skip_word_in_line(s@, from as int, to as int, a as int);
        lemma_skip_blanks_in_line(s@, from as int, to as int, b as int);
        lemma_skip_word_in_line(s@, from as int, to as int, c as int);
        assert(line.subrange(a - from, b - from) == s@.subrange(a as int, b as int));
        assert(line.subrange(c - from, d - from) == s@.subrange(c as int, d as int));
    }
    if a >= to {
        MapLine::Blank
    } else if c >= to {
        MapLine::Malformed
    } else {
        match read_address(s, a, b) {
            Some(address) => MapLine::Record(SymbolEntry { address, name: string_of(s, c, d) }),
            None => MapLine::Malformed,
        }
    }
}

} // verus!
