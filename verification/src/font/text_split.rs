//! Splitting of text into layout units: newlines, whitespace runs, single-character
//! words and multi-character words (runs of characters of the same script class).
use pi_ucd::Codepoint;
use unicode_segmentation::UnicodeSegmentation;

use super::font::GlyphId;
use vstd::prelude::*;
use vstd::seq_lib::{lemma_flatten_concat, lemma_multiset_commutative};

verus! {

// ---------------------------------------------------------------------------
// Character classes
// ---------------------------------------------------------------------------

/// ASCII: code point below 128.
pub open spec fn spec_is_ascii(c: char) -> bool {
    (c as u32) < 128
}

/// ASCII letter.
pub open spec fn spec_is_ascii_alphabetic(c: char) -> bool {
    ('A' <= c && c <= 'Z') || ('a' <= c && c <= 'z')
}

/// ASCII decimal digit.
pub open spec fn spec_is_ascii_digit(c: char) -> bool {
    '0' <= c && c <= '9'
}

/// The Unicode `White_Space` property.
pub open spec fn spec_is_whitespace(c: char) -> bool {
    let u = c as u32;
    ||| 0x09 <= u && u <= 0x0D
    ||| u == 0x20
    ||| u == 0x85
    ||| u == 0xA0
    ||| u == 0x1680
    ||| 0x2000 <= u && u <= 0x200A
    ||| u == 0x2028
    ||| u == 0x2029
    ||| u == 0x202F
    ||| u == 0x205F
    ||| u == 0x3000
}

/// Code points of the Arabic blocks.
pub open spec fn spec_is_arabic_char(c: char) -> bool {
    let u = c as u32;
    ||| 0x0600 <= u && u <= 0x06FF
    ||| 0x0750 <= u && u <= 0x077F
    ||| 0x08A0 <= u && u <= 0x08FF
    ||| 0xFB50 <= u && u <= 0xFDFF
    ||| 0xFE70 <= u && u <= 0xFEFF
}

/// What `char::is_alphabetic` answers for a character (the Unicode `Alphabetic` property).
pub uninterp spec fn unicode_alphabetic(c: char) -> bool;

/// What `pi_ucd::is_cased` answers for a character (membership in its table of
/// CJK ranges).
pub uninterp spec fn ucd_cased(c: char) -> bool;

/// What `pi_ucd::get_type_id` answers for a character (the index of its block in
/// the crate's block table, shifted by two).
pub uninterp spec fn ucd_block_id(c: char) -> usize;

/// `char::is_whitespace`: whether `c` has the Unicode `White_Space` property.
#[verifier::external_body]
pub(crate) fn char_is_whitespace(c: char) -> (r: bool)
    ensures
        r == spec_is_whitespace(c),
{
    c.is_whitespace()
}

/// `char::is_alphabetic`: whether `c` has the Unicode `Alphabetic` property.
#[verifier::external_body]
fn char_is_alphabetic(c: char) -> (r: bool)
    ensures
        r == unicode_alphabetic(c),
{
    c.is_alphabetic()
}

/// `pi_ucd::Codepoint::is_cased`: whether `c` lies in one of the crate's CJK ranges.
#[verifier::external_body]
fn ucd_is_cased(c: char) -> (r: bool)
    ensures
        r == ucd_cased(c),
{
    Codepoint::is_cased(c)
}

/// `pi_ucd::Codepoint::get_type_id`: the block id of `c`. The crate answers 1 for
/// every ASCII character, 0 above U+FFFF, and otherwise 0 or the position of the
/// block in its 145-entry table plus two.
#[verifier::external_body]
fn ucd_get_type_id(c: char) -> (r: usize)
    ensures
        r == ucd_block_id(c),
        (c as u32) < 128 ==> r == 1,
        (c as u32) > 0xFFFF ==> r == 0,
        128 <= (c as u32) ==> r != 1,
        r <= 146,
{
    Codepoint::get_type_id(c)
}

fn is_ascii(c: char) -> (r: bool)
    ensures
        r == spec_is_ascii(c),
{
    (c as u32) < 128
}

fn is_ascii_alphabetic(c: char) -> (r: bool)
    ensures
        r == spec_is_ascii_alphabetic(c),
{
    ('A' <= c && c <= 'Z') || ('a' <= c && c <= 'z')
}

fn is_ascii_digit(c: char) -> (r: bool)
    ensures
        r == spec_is_ascii_digit(c),
{
    '0' <= c && c <= '9'
}

/// Whether `c` lies in one of the Arabic blocks.
pub fn is_arabic_char(c: char) -> (r: bool)
    ensures
        r == spec_is_arabic_char(c),
{
    let u = c as u32;
    (0x0600 <= u && u <= 0x06FF) || (0x0750 <= u && u <= 0x077F) || (0x08A0 <= u && u <= 0x08FF)
        || (0xFB50 <= u && u <= 0xFDFF) || (0xFE70 <= u && u <= 0xFEFF)
}

/// The word class of `c` when it follows `prev`: 0 for a character that forms a
/// word on its own, 1 for Latin letters (and an apostrophe after a letter),
/// `usize::MAX` for digits (and `/`, `.`, `%` after a digit), `2 + c` for Arabic
/// letters and the Arabic comma, and the block id for other uncased letters.
pub open spec fn spec_type_id(c: char, prev: char) -> usize {
    if spec_is_ascii(c) {
        if spec_is_ascii_alphabetic(c) {
            1
        } else if spec_is_ascii_digit(c) {
            usize::MAX
        } else if c == '/' || c == '.' || c == '%' {
            if spec_is_ascii_digit(prev) {
                usize::MAX
            } else {
                0
            }
        } else if c == '\'' {
            if spec_is_ascii_alphabetic(prev) {
                1
            } else {
                0
            }
        } else {
            0
        }
    } else if unicode_alphabetic(c) && !ucd_cased(c) {
        if spec_is_arabic_char(c) {
            (2 + c as u32) as usize
        } else {
            ucd_block_id(c)
        }
    } else if c == '\u{060C}' {
        (2 + c as u32) as usize
    } else {
        0
    }
}

/// Word class of `c` after `prev` (see [`spec_type_id`]).
pub fn get_type_id(c: char, prev: char) -> (r: usize)
    ensures
        r == spec_type_id(c, prev),
{
    if is_ascii(c) {
        if is_ascii_alphabetic(c) {
            return 1;
        } else if is_ascii_digit(c) {
            return usize::MAX;
        } else if c == '/' || c == '.' || c == '%' {
            if is_ascii_digit(prev) {
                return usize::MAX;
            }
        } else if c == '\'' {
            if is_ascii_alphabetic(prev) {
                return 1;
            }
        }
    } else if char_is_alphabetic(c) && !ucd_is_cased(c) {
        if is_arabic_char(c) {
            return (2 + c as u32) as usize;
        }
        return ucd_get_type_id(c);
    } else if c == '\u{060C}' {
        return (2 + c as u32) as usize;
    }
    0
}

/// The characters of `s`, in order.
pub fn collect_chars(s: &str) -> (v: Vec<char>)
    ensures
        v@ == s@,
{
    let mut v: Vec<char> = Vec::new();
    for c in it: s.chars()
        invariant
            v@ == it.seq().take(it.index()),
            it.seq() == s@,
    {
        v.push(c);
    }
    v
}

// ---------------------------------------------------------------------------
// The splitting state machine
// ---------------------------------------------------------------------------

/// One unit produced by the splitter. Indices are character positions in the text.
#[derive(Debug)]
pub enum SplitResult {
    Newline(isize),
    Whitespace(isize),
    /// A character that is a word on its own.
    Word(isize, char),
    /// First character of a multi-character word (letters or digits of one class).
    WordStart(isize, char),
    /// A further character of the current word.
    WordNext(isize, char),
    /// The current word ends (the index is always -1).
    WordEnd(isize),
}

/// First position `j > i` that is the end of `t` or holds a non-whitespace character.
pub open spec fn ws_run_end(t: Seq<char>, i: int) -> int
    decreases t.len() - i,
{
    if i + 1 >= t.len() {
        t.len() as int
    } else if spec_is_whitespace(t[i + 1]) {
        ws_run_end(t, i + 1)
    } else {
        i + 1
    }
}

pub proof fn lemma_ws_run_end(t: Seq<char>, i: int)
    requires
        0 <= i < t.len(),
    ensures
        i < ws_run_end(t, i) <= t.len(),
        ws_run_end(t, i) < t.len() ==> !spec_is_whitespace(t[ws_run_end(t, i)]),
        forall|k: int| i < k < ws_run_end(t, i) ==> spec_is_whitespace(#[trigger] t[k]),
    decreases t.len() - i,
{
    if i + 1 < t.len() && spec_is_whitespace(t[i + 1]) {
        lemma_ws_run_end(t, i + 1);
    }
}

/// The abstract state of a splitter over the text `t`: the current position `i`
/// (at most `t.len()`) and the class of the word being read (0 when outside a word).
/// `split_step` gives what one call of `next` returns and the state after it.
pub open spec fn split_step(
    t: Seq<char>,
    i: int,
    type_id: usize,
    word_split: bool,
    merge_whitespace: bool,
) -> (Option<SplitResult>, int, usize) {
    if i >= t.len() {
        (None, i, type_id)
    } else if type_id == 0 {
        let c = t[i];
        if c == '\n' {
            (Some(SplitResult::Newline(i as isize)), i + 1, 0)
        } else if spec_is_whitespace(c) {
            let j = if merge_whitespace {
                ws_run_end(t, i)
            } else {
                i + 1
            };
            (Some(SplitResult::Whitespace((j - 1) as isize)), j, 0)
        } else if !word_split {
            (Some(SplitResult::Word(i as isize, c)), i + 1, 0)
        } else {
            let id = spec_type_id(c, '\0');
            if id == 0 {
                (Some(SplitResult::Word(i as isize, c)), i + 1, 0)
            } else {
                (Some(SplitResult::WordStart(i as isize, c)), i, id)
            }
        }
    } else {
        if i + 1 < t.len() {
            let c = t[i + 1];
            if spec_type_id(c, t[i]) == type_id {
                (Some(SplitResult::WordNext((i + 1) as isize, c)), i + 1, type_id)
            } else {
                (Some(SplitResult::WordEnd(-1isize)), i + 1, 0)
            }
        } else {
            (Some(SplitResult::WordEnd(-1isize)), i + 1, type_id)
        }
    }
}

/// A measure that every productive step decreases.
pub open spec fn split_measure(t: Seq<char>, i: int, type_id: usize) -> int {
    2 * (t.len() - i) + if type_id == 0 {
        1int
    } else {
        0int
    }
}

/// Character position carried by a unit (-1 for `WordEnd`).
pub open spec fn result_index(r: SplitResult) -> int {
    match r {
        SplitResult::Newline(i) => i as int,
        SplitResult::Whitespace(i) => i as int,
        SplitResult::Word(i, _) => i as int,
        SplitResult::WordStart(i, _) => i as int,
        SplitResult::WordNext(i, _) => i as int,
        SplitResult::WordEnd(i) => i as int,
    }
}

/// Each unit names what stands in the text at its position: a newline, a
/// whitespace character, or the very character it carries.
pub open spec fn result_matches_text(r: SplitResult, t: Seq<char>) -> bool {
    match r {
        SplitResult::Newline(i) => 0 <= i < t.len() && t[i as int] == '\n',
        SplitResult::Whitespace(i) => 0 <= i < t.len() && spec_is_whitespace(t[i as int]),
        SplitResult::Word(i, c) => 0 <= i < t.len() && t[i as int] == c,
        SplitResult::WordStart(i, c) => 0 <= i < t.len() && t[i as int] == c,
        SplitResult::WordNext(i, c) => 0 <= i < t.len() && t[i as int] == c,
        SplitResult::WordEnd(i) => i == -1,
    }
}

/// Law: every step from a valid state produces a unit that matches the text,
/// stays within the text and strictly decreases the measure; the step that
/// produces nothing leaves the state unchanged and happens only at the end.
pub proof fn lemma_split_step(
    t: Seq<char>,
    i: int,
    type_id: usize,
    word_split: bool,
    merge_whitespace: bool,
)
    requires
        0 <= i <= t.len(),
        t.len() <= isize::MAX,
        type_id != 0 ==> i < t.len(),
    ensures
        ({
            let (r, j, tid) = split_step(t, i, type_id, word_split, merge_whitespace);
            &&& 0 <= j <= t.len()
            &&& tid != 0 ==> j < t.len() || (j == t.len() && r is Some && r->0 is WordEnd)
            &&& (r is None <==> i == t.len())
            &&& r is None ==> j == i && tid == type_id
            &&& r matches Some(u) ==> result_matches_text(u, t)
                && split_measure(t, j, tid) < split_measure(t, i, type_id)
        }),
{
    if i < t.len() && type_id == 0 && t[i] != '\n' && spec_is_whitespace(t[i]) && merge_whitespace {
        lemma_ws_run_end(t, i);
    }
}

/// Law: with neither word splitting nor whitespace merging, every character of
/// the text gives exactly one unit, at its own position, and the position moves
/// by one.
pub proof fn lemma_split_per_char(t: Seq<char>, i: int)
    requires
        0 <= i < t.len(),
        t.len() <= isize::MAX,
    ensures
        ({
            let (r, j, tid) = split_step(t, i, 0, false, false);
            &&& j == i + 1
            &&& tid == 0
            &&& r matches Some(u) && result_index(u) == i && result_matches_text(u, t)
        }),
{
}

/// All units a splitter in state (`i`, `type_id`) over `t` still gives, in order.
pub open spec fn units_from(
    t: Seq<char>,
    i: int,
    type_id: usize,
    word_split: bool,
    merge_whitespace: bool,
) -> Seq<SplitResult>
    decreases split_measure(t, i, type_id),
{
    if i < 0 || i >= t.len() || t.len() > isize::MAX {
        Seq::empty()
    } else {
        proof {
            lemma_split_step(t, i, type_id, word_split, merge_whitespace);
        }
        let (r, j, tid) = split_step(t, i, type_id, word_split, merge_whitespace);
        match r {
            Some(u) => seq![u] + units_from(t, j, tid, word_split, merge_whitespace),
            None => Seq::empty(),
        }
    }
}

/// The positions carried by `us`, leaving out the word ends.
pub open spec fn reported(us: Seq<SplitResult>) -> Seq<int>
    decreases us.len(),
{
    if us.len() == 0 {
        Seq::empty()
    } else if us[0] is WordEnd {
        reported(us.drop_first())
    } else {
        seq![result_index(us[0])] + reported(us.drop_first())
    }
}

/// The positions `a`, `a + 1`, ..., `b - 1`.
pub open spec fn positions(a: int, b: int) -> Seq<int> {
    Seq::new(if a < b { (b - a) as nat } else { 0 }, |k: int| a + k)
}

proof fn lemma_reported_cons(u: SplitResult, rest: Seq<SplitResult>)
    ensures
        reported(seq![u] + rest) == (if u is WordEnd {
            reported(rest)
        } else {
            seq![result_index(u)] + reported(rest)
        }),
{
    assert((seq![u] + rest).drop_first() =~= rest);
}

proof fn lemma_positions_cons(a: int, b: int)
    requires
        a < b,
    ensures
        positions(a, b) == seq![a] + positions(a + 1, b),
{
    assert(positions(a, b) =~= seq![a] + positions(a + 1, b));
}

/// Outside a word, the positions still to come from `i` on are exactly `i..len`;
/// inside a word whose character at `i` was already given, they are `i+1..len`.
proof fn lemma_reported_from(t: Seq<char>, i: int, type_id: usize, word_split: bool)
    requires
        0 <= i <= t.len(),
        t.len() <= isize::MAX,
    ensures
        reported(units_from(t, i, type_id, word_split, false)) == (if type_id == 0 {
            positions(i, t.len() as int)
        } else {
            positions(i + 1, t.len() as int)
        }),
    decreases split_measure(t, i, type_id),
{
    let n = t.len() as int;
    if i >= n {
        assert(positions(i, n) =~= Seq::<int>::empty());
        assert(positions(i + 1, n) =~= Seq::<int>::empty());
    } else {
        lemma_split_step(t, i, type_id, word_split, false);
        let (r, j, tid) = split_step(t, i, type_id, word_split, false);
        let u = r->0;
        lemma_reported_from(t, j, tid, word_split);
        lemma_reported_cons(u, units_from(t, j, tid, word_split, false));
        if type_id == 0 {
            lemma_positions_cons(i, n);
            if !(u is WordStart) {
                assert(j == i + 1 && tid == 0);
            }
        } else if i + 1 < n {
            lemma_positions_cons(i + 1, n);
        } else {
            assert(positions(i + 1, n) =~= Seq::<int>::empty());
            assert(positions(j + 1, n) =~= Seq::<int>::empty());
        }
    }
}

/// Law: when whitespace is not merged, the units of a text carry each character
/// position exactly once and in order (word ends carry none), whether or not
/// words are grouped.
pub proof fn lemma_each_position_once(t: Seq<char>, word_split: bool)
    requires
        t.len() <= isize::MAX,
    ensures
        reported(units_from(t, 0, 0, word_split, false)) == Seq::new(t.len(), |k: int| k),
{
    lemma_reported_from(t, 0, 0, word_split);
    assert(positions(0, t.len() as int) =~= Seq::new(t.len(), |k: int| k));
}

/// Whether `us` is a well-bracketed list of units: every word is a `WordStart`,
/// then `WordNext` units only, then a `WordEnd`; no other unit stands inside a
/// word. `in_word` tells whether a word is open before `us`.
pub open spec fn bracketed(us: Seq<SplitResult>, in_word: bool) -> bool
    decreases us.len(),
{
    if us.len() == 0 {
        !in_word
    } else {
        let rest = us.drop_first();
        match us[0] {
            SplitResult::WordStart(_, _) => !in_word && bracketed(rest, true),
            SplitResult::WordNext(_, _) => in_word && bracketed(rest, true),
            SplitResult::WordEnd(_) => in_word && bracketed(rest, false),
            _ => !in_word && bracketed(rest, false),
        }
    }
}

proof fn lemma_bracketed_from(
    t: Seq<char>,
    i: int,
    type_id: usize,
    word_split: bool,
    merge_whitespace: bool,
)
    requires
        0 <= i <= t.len(),
        t.len() <= isize::MAX,
    ensures
        bracketed(
            units_from(t, i, type_id, word_split, merge_whitespace),
            type_id != 0 && i < t.len(),
        ),
    decreases split_measure(t, i, type_id),
{
    if i < t.len() {
        lemma_split_step(t, i, type_id, word_split, merge_whitespace);
        let (r, j, tid) = split_step(t, i, type_id, word_split, merge_whitespace);
        lemma_bracketed_from(t, j, tid, word_split, merge_whitespace);
        let rest = units_from(t, j, tid, word_split, merge_whitespace);
        assert((seq![r->0] + rest).drop_first() =~= rest);
    }
}

/// Law: the units of any text are well bracketed: each word opened by a
/// `WordStart` gets its `WordEnd`, and only `WordNext` units come in between.
pub proof fn lemma_words_bracketed(t: Seq<char>, word_split: bool, merge_whitespace: bool)
    requires
        t.len() <= isize::MAX,
    ensures
        bracketed(units_from(t, 0, 0, word_split, merge_whitespace), false),
{
    lemma_bracketed_from(t, 0, 0, word_split, merge_whitespace);
}

/// The character at position `i` of `v`, if there is one.
pub fn char_at(v: &Vec<char>, i: usize) -> (r: Option<char>)
    ensures
        r == (if i < v@.len() {
            Some(v@[i as int])
        } else {
            None
        }),
{
    if i < v.len() {
        Some(v[i])
    } else {
        None
    }
}

/// Iterator-like splitter over the characters of a string.
pub struct SplitChar<'a> {
    cur_index: usize,
    chars: Vec<char>,
    word_split: bool,
    merge_whitespace: bool,
    last: Option<char>,
    /// 0: not inside a word; 1: ASCII letters; `usize::MAX`: digits; others: block id.
    type_id: usize,
    source: &'a str,
}

impl<'a> SplitChar<'a> {
    /// The characters of the text being split.
    pub closed spec fn text(&self) -> Seq<char> {
        self.chars@
    }

    /// Position of the character being looked at.
    pub closed spec fn pos(&self) -> int {
        self.cur_index as int
    }

    /// Class of the word being read, 0 outside a word.
    pub closed spec fn word_type(&self) -> usize {
        self.type_id
    }

    pub closed spec fn splits_words(&self) -> bool {
        self.word_split
    }

    pub closed spec fn merges_whitespace(&self) -> bool {
        self.merge_whitespace
    }

    /// The units this splitter still gives, in order.
    pub open spec fn remaining(&self) -> Seq<SplitResult> {
        units_from(self.text(), self.pos(), self.word_type(), self.splits_words(), self.merges_whitespace())
    }

    pub closed spec fn wf(&self) -> bool {
        let t = self.chars@;
        &&& t.len() <= isize::MAX
        &&& self.cur_index <= t.len()
        &&& self.last == (if self.cur_index < t.len() {
            Some(t[self.cur_index as int])
        } else {
            None
        })
    }

    /// The next unit of the text, or `None` once the text is consumed.
    pub fn next(&mut self) -> (r: Option<SplitResult>)
        requires
            old(self).wf(),
        ensures
            final(self).wf(),
            final(self).text() == old(self).text(),
            final(self).splits_words() == old(self).splits_words(),
            final(self).merges_whitespace() == old(self).merges_whitespace(),
            ({
                let (res, j, tid) = split_step(
                    old(self).text(),
                    old(self).pos(),
                    old(self).word_type(),
                    old(self).splits_words(),
                    old(self).merges_whitespace(),
                );
                &&& r == res
                &&& final(self).pos() == j
                &&& final(self).word_type() == tid
            }),
            r matches Some(u) ==> result_matches_text(u, old(self).text()),
            r is None <==> old(self).pos() >= old(self).text().len(),
            old(self).remaining() == (match r {
                Some(u) => seq![u] + final(self).remaining(),
                None => Seq::<SplitResult>::empty(),
            }),
    {
        let ghost t = self.chars@;
        match self.last {
            Some(c) if self.type_id == 0 => {
                if c == '\n' {
                    self.last = char_at(&self.chars, self.cur_index + 1);
                    self.cur_index += 1;
                    Some(SplitResult::Newline((self.cur_index - 1) as isize))
                } else if char_is_whitespace(c) {
                    if self.merge_whitespace {
                        proof {
                            lemma_ws_run_end(t, self.cur_index as int);
                        }
                        let ghost start = self.cur_index as int;
                        let ghost flags = (self.word_split, self.merge_whitespace, self.type_id);
                        loop
                            invariant_except_break
                                flags == (self.word_split, self.merge_whitespace, self.type_id),
                                start <= self.cur_index < t.len(),
                                t.len() <= isize::MAX,
                                self.chars@ == t,
                                ws_run_end(t, start) == ws_run_end(t, self.cur_index as int),
                            ensures
                                flags == (self.word_split, self.merge_whitespace, self.type_id),
                                self.chars@ == t,
                                self.cur_index == ws_run_end(t, start),
                                self.cur_index <= t.len(),
                                self.last == (if self.cur_index < t.len() {
                                    Some(t[self.cur_index as int])
                                } else {
                                    None
                                }),
                            decreases t.len() - self.cur_index,
                        {
                            self.cur_index += 1;
                            match char_at(&self.chars, self.cur_index) {
                                Some(cc) if char_is_whitespace(cc) => {
                                    continue;
                                },
                                r => {
                                    self.last = r;
                                    break ;
                                },
                            }
                        }
                    } else {
                        self.last = char_at(&self.chars, self.cur_index + 1);
                        self.cur_index += 1;
                    }
                    Some(SplitResult::Whitespace((self.cur_index - 1) as isize))
                } else if !self.word_split {
                    self.last = char_at(&self.chars, self.cur_index + 1);
                    self.cur_index += 1;
                    Some(SplitResult::Word((self.cur_index - 1) as isize, c))
                } else {
                    self.type_id = get_type_id(c, '\0');
                    if self.type_id == 0 {
                        self.last = char_at(&self.chars, self.cur_index + 1);
                        self.cur_index += 1;
                        Some(SplitResult::Word((self.cur_index - 1) as isize, c))
                    } else {
                        Some(SplitResult::WordStart(self.cur_index as isize, c))
                    }
                }
            },
            Some(old_c) => {
                self.last = char_at(&self.chars, self.cur_index + 1);
                self.cur_index += 1;
                match self.last {
                    Some(c) => {
                        let id = get_type_id(c, old_c);
                        if id == self.type_id {
                            Some(SplitResult::WordNext(self.cur_index as isize, c))
                        } else {
                            self.type_id = 0;
                            Some(SplitResult::WordEnd(-1))
                        }
                    },
                    _ => Some(SplitResult::WordEnd(-1)),
                }
            },
            _ => None,
        }
    }
}

/// Splits `s`; `word_split` groups letters and digits of one class into words,
/// `merge_whitespace` gives one unit for a run of whitespace.
pub fn split<'a>(s: &'a str, word_split: bool, merge_whitespace: bool) -> (r: SplitChar<'a>)
    requires
        s@.len() <= isize::MAX,
    ensures
        r.wf(),
        r.text() == s@,
        r.pos() == 0,
        r.word_type() == 0,
        r.splits_words() == word_split,
        r.merges_whitespace() == merge_whitespace,
{
    let chars = collect_chars(s);
    let last = char_at(&chars, 0);
    SplitChar {
        cur_index: 0,
        chars,
        word_split: word_split,
        merge_whitespace: merge_whitespace,
        last: last,
        type_id: 0,
        source: s,
    }
}

/// One unit of a text whose characters have been mapped to glyphs; like
/// [`SplitResult`], with the glyph of the character where there is one.
#[derive(Debug)]
pub enum SplitResult2 {
    Newline(isize),
    Whitespace(isize, Option<GlyphId>),
    Word(isize, char, Option<GlyphId>),
    WordStart(isize, char, Option<GlyphId>),
    WordNext(isize, char, Option<GlyphId>),
    WordEnd(isize),
}

/// The glyph recorded for position `i`, `None` past the end of `ids`.
pub open spec fn glyph_at(ids: Seq<Option<GlyphId>>, i: int) -> Option<GlyphId> {
    if 0 <= i < ids.len() {
        ids[i]
    } else {
        None
    }
}

/// A unit of the splitter together with the glyph recorded at its position.
pub open spec fn with_glyph(r: SplitResult, ids: Seq<Option<GlyphId>>) -> SplitResult2 {
    match r {
        SplitResult::Newline(i) => SplitResult2::Newline(i),
        SplitResult::Whitespace(i) => SplitResult2::Whitespace(i, glyph_at(ids, i as int)),
        SplitResult::Word(i, c) => SplitResult2::Word(i, c, glyph_at(ids, i as int)),
        SplitResult::WordStart(i, c) => SplitResult2::WordStart(i, c, glyph_at(ids, i as int)),
        SplitResult::WordNext(i, c) => SplitResult2::WordNext(i, c, glyph_at(ids, i as int)),
        SplitResult::WordEnd(i) => SplitResult2::WordEnd(i),
    }
}

fn glyph_id_at(ids: &Vec<Option<GlyphId>>, i: usize) -> (r: Option<GlyphId>)
    ensures
        r == glyph_at(ids@, i as int),
{
    if i < ids.len() {
        ids[i]
    } else {
        None
    }
}

/// Splitter over a text whose characters have been mapped to glyphs.
pub struct SplitChar2<'a> {
    pub(crate) text: Vec<char>,
    pub(crate) cur_index: usize,
    pub(crate) source: &'a str,
    pub(crate) word_split: bool,
    pub(crate) merge_whitespace: bool,
    pub(crate) last: Option<char>,
    /// 0: not inside a word; 1: ASCII letters; `usize::MAX`: digits; others: block id.
    pub(crate) type_id: usize,
    /// The glyph of each character.
    pub(crate) glyph_ids: Vec<Option<GlyphId>>,
}

impl<'a> SplitChar2<'a> {
    pub closed spec fn text(&self) -> Seq<char> {
        self.text@
    }

    pub closed spec fn glyphs(&self) -> Seq<Option<GlyphId>> {
        self.glyph_ids@
    }

    pub closed spec fn pos(&self) -> int {
        self.cur_index as int
    }

    pub closed spec fn word_type(&self) -> usize {
        self.type_id
    }

    pub closed spec fn splits_words(&self) -> bool {
        self.word_split
    }

    pub closed spec fn merges_whitespace(&self) -> bool {
        self.merge_whitespace
    }

    /// The units this splitter still gives, in order, each with its glyph.
    pub open spec fn remaining(&self) -> Seq<SplitResult2> {
        units_from(self.text(), self.pos(), self.word_type(), self.splits_words(), self.merges_whitespace())
            .map_values(|u: SplitResult| with_glyph(u, self.glyphs()))
    }

    pub closed spec fn wf(&self) -> bool {
        &&& self.text@.len() <= isize::MAX
        &&& self.cur_index <= self.text@.len()
    }

    /// A splitter over `text` (the characters after shaping of `source`), with
    /// `glyph_ids[i]` the glyph of `text[i]`.
    pub fn new(
        source: &'a str,
        text: Vec<char>,
        glyph_ids: Vec<Option<GlyphId>>,
        word_split: bool,
        merge_whitespace: bool,
    ) -> (r: SplitChar2<'a>)
        requires
            text@.len() <= isize::MAX,
        ensures
            r.wf(),
            r.text() == text@,
            r.glyphs() == glyph_ids@,
            r.pos() == 0,
            r.word_type() == 0,
            r.splits_words() == word_split,
            r.merges_whitespace() == merge_whitespace,
    {
        let last = char_at(&text, 0);
        SplitChar2 {
            text,
            cur_index: 0,
            source,
            word_split,
            merge_whitespace,
            last,
            type_id: 0,
            glyph_ids,
        }
    }

    /// The next unit with its glyph, or `None` once the text is consumed.
    pub fn next(&mut self) -> (r: Option<SplitResult2>)
        requires
            old(self).wf(),
        ensures
            final(self).wf(),
            final(self).text() == old(self).text(),
            final(self).glyphs() == old(self).glyphs(),
            final(self).splits_words() == old(self).splits_words(),
            final(self).merges_whitespace() == old(self).merges_whitespace(),
            ({
                let (res, j, tid) = split_step(
                    old(self).text(),
                    old(self).pos(),
                    old(self).word_type(),
                    old(self).splits_words(),
                    old(self).merges_whitespace(),
                );
                &&& r == (match res {
                    Some(u) => Some(with_glyph(u, old(self).glyphs())),
                    None => None,
                })
                &&& final(self).pos() == j
                &&& final(self).word_type() == tid
            }),
            r is None <==> old(self).pos() >= old(self).text().len(),
            old(self).remaining() == (match r {
                Some(u) => seq![u] + final(self).remaining(),
                None => Seq::<SplitResult2>::empty(),
            }),
    {
        proof {
            let t = self.text@;
            let i = self.cur_index as int;
            if i < t.len() {
                let (r0, j, tid) = split_step(t, i, self.type_id, self.word_split, self.merge_whitespace);
                let rest = units_from(t, j, tid, self.word_split, self.merge_whitespace);
                assert((seq![r0->0] + rest).map_values(|u: SplitResult| with_glyph(u, self.glyph_ids@))
                    =~= seq![with_glyph(r0->0, self.glyph_ids@)] + rest.map_values(
                    |u: SplitResult| with_glyph(u, self.glyph_ids@),
                ));
            }
        }
        let ghost t = self.text@;
        match char_at(&self.text, self.cur_index) {
            Some(c) if self.type_id == 0 => {
                if c == '\n' {
                    self.last = char_at(&self.text, self.cur_index);
                    self.cur_index += 1;
                    Some(SplitResult2::Newline((self.cur_index - 1) as isize))
                } else if char_is_whitespace(c) {
                    if self.merge_whitespace {
                        proof {
                            lemma_ws_run_end(t, self.cur_index as int);
                        }
                        let ghost start = self.cur_index as int;
                        let ghost flags = (self.word_split, self.merge_whitespace, self.type_id, self.glyph_ids@);
                        loop
                            invariant_except_break
                                flags == (self.word_split, self.merge_whitespace, self.type_id, self.glyph_ids@),
                                start <= self.cur_index < t.len(),
                                t.len() <= isize::MAX,
                                self.text@ == t,
                                ws_run_end(t, start) == ws_run_end(t, self.cur_index as int),
                            ensures
                                flags == (self.word_split, self.merge_whitespace, self.type_id, self.glyph_ids@),
                                self.text@ == t,
                                self.cur_index == ws_run_end(t, start),
                                self.cur_index <= t.len(),
                            decreases t.len() - self.cur_index,
                        {
                            self.cur_index += 1;
                            match char_at(&self.text, self.cur_index) {
                                Some(cc) if char_is_whitespace(cc) => {
                                    continue;
                                },
                                r => {
                                    self.last = r;
                                    break ;
                                },
                            }
                        }
                    } else {
                        self.last = char_at(&self.text, self.cur_index + 1);
                        self.cur_index += 1;
                    }
                    let id = glyph_id_at(&self.glyph_ids, self.cur_index - 1);
                    Some(SplitResult2::Whitespace((self.cur_index - 1) as isize, id))
                } else if !self.word_split {
                    self.last = char_at(&self.text, self.cur_index + 1);
                    self.cur_index += 1;
                    let id = glyph_id_at(&self.glyph_ids, self.cur_index - 1);
                    Some(SplitResult2::Word((self.cur_index - 1) as isize, c, id))
                } else {
                    self.type_id = get_type_id(c, '\0');
                    if self.type_id == 0 {
                        self.last = char_at(&self.text, self.cur_index + 1);
                        self.cur_index += 1;
                        let id = glyph_id_at(&self.glyph_ids, self.cur_index - 1);
                        Some(SplitResult2::Word((self.cur_index - 1) as isize, c, id))
                    } else {
                        let id = glyph_id_at(&self.glyph_ids, self.cur_index);
                        Some(SplitResult2::WordStart(self.cur_index as isize, c, id))
                    }
                }
            },
            Some(old_c) => {
                self.last = char_at(&self.text, self.cur_index + 1);
                self.cur_index += 1;
                match self.last {
                    Some(c) => {
                        let id = get_type_id(c, old_c);
                        if id == self.type_id {
                            let id = glyph_id_at(&self.glyph_ids, self.cur_index);
                            Some(SplitResult2::WordNext(self.cur_index as isize, c, id))
                        } else {
                            self.type_id = 0;
                            Some(SplitResult2::WordEnd(-1))
                        }
                    },
                    _ => Some(SplitResult2::WordEnd(-1)),
                }
            },
            _ => None,
        }
    }
}

// ---------------------------------------------------------------------------
// Reordering of text around Arabic words
// ---------------------------------------------------------------------------

/// The UAX#29 word-bound pieces of a text, in order, as
/// `UnicodeSegmentation::split_word_bounds` yields them.
pub uninterp spec fn word_bound_pieces(s: Seq<char>) -> Seq<Seq<char>>;

pub open spec fn piece_views(v: Seq<&str>) -> Seq<Seq<char>> {
    v.map_values(|p: &str| p@)
}

/// `UnicodeSegmentation::split_word_bounds`, collected. The crate documents that
/// the pieces concatenate to the text, and each piece holds at least one character.
#[verifier::external_body]
fn word_bounds<'a>(text: &'a str) -> (r: Vec<&'a str>)
    ensures
        piece_views(r@) == word_bound_pieces(text@),
        piece_views(r@).flatten() == text@,
        forall|i: int| 0 <= i < r@.len() ==> (#[trigger] r@[i])@.len() > 0,
{
    text.split_word_bounds().collect()
}

/// A run of non-Arabic pieces as it is written out: in order, or with the order of
/// the pieces reversed.
pub open spec fn run_text(run: Seq<Seq<char>>, reverse: bool) -> Seq<char> {
    if reverse {
        run.reverse().flatten()
    } else {
        run.flatten()
    }
}

/// After the pieces `pieces`: the text written so far, and the pending run of
/// non-Arabic pieces. A piece starting with an Arabic character first writes out
/// the pending run, then itself.
pub open spec fn reorder_state(pieces: Seq<Seq<char>>, reverse: bool) -> (Seq<char>, Seq<Seq<char>>)
    decreases pieces.len(),
{
    if pieces.len() == 0 {
        (Seq::empty(), Seq::empty())
    } else {
        let (out, run) = reorder_state(pieces.drop_last(), reverse);
        let p = pieces.last();
        if p.len() > 0 && spec_is_arabic_char(p[0]) {
            (out + run_text(run, reverse) + p, Seq::empty())
        } else {
            (out, run.push(p))
        }
    }
}

/// The text made of `pieces` where every maximal run of non-Arabic pieces is
/// written in reverse piece order when `reverse` holds.
pub open spec fn reorder_pieces(pieces: Seq<Seq<char>>, reverse: bool) -> Seq<char> {
    let (out, run) = reorder_state(pieces, reverse);
    out + run_text(run, reverse)
}

proof fn lemma_reverse_flatten_len(run: Seq<Seq<char>>)
    ensures
        run.reverse().flatten().len() == run.flatten().len(),
    decreases run.len(),
{
    if run.len() > 0 {
        let rest = run.drop_last();
        lemma_reverse_flatten_len(rest);
        assert(run.reverse() =~= seq![run.last()] + rest.reverse());
        lemma_flatten_concat(seq![run.last()], rest.reverse());
        assert(seq![run.last()].flatten() == run.last()) by {
            seq![run.last()].lemma_flatten_singleton();
        }
        assert(run =~= rest.push(run.last()));
        rest.lemma_flatten_push(run.last());
    }
}

proof fn lemma_reorder_state(pieces: Seq<Seq<char>>, reverse: bool)
    ensures
        ({
            let (out, run) = reorder_state(pieces, reverse);
            &&& !reverse ==> out + run.flatten() == pieces.flatten()
            &&& out.len() + run.flatten().len() == pieces.flatten().len()
        }),
    decreases pieces.len(),
{
    if pieces.len() > 0 {
        let rest = pieces.drop_last();
        let p = pieces.last();
        lemma_reorder_state(rest, reverse);
        let (out, run) = reorder_state(rest, reverse);
        assert(pieces =~= rest.push(p));
        rest.lemma_flatten_push(p);
        run.lemma_flatten_push(p);
        lemma_reverse_flatten_len(run);
        assert(Seq::<Seq<char>>::empty().flatten() =~= Seq::<char>::empty());
        if !reverse {
            assert(out + run.flatten() + p =~= out + run.push(p).flatten());
        }
    }
}

/// Law: without reversing, the reordering gives back the text it was made from.
pub proof fn lemma_reorder_identity(pieces: Seq<Seq<char>>)
    ensures
        reorder_pieces(pieces, false) == pieces.flatten(),
{
    lemma_reorder_state(pieces, false);
}

/// Law: reordering keeps the number of characters.
pub proof fn lemma_reorder_len(pieces: Seq<Seq<char>>, reverse: bool)
    ensures
        reorder_pieces(pieces, reverse).len() == pieces.flatten().len(),
{
    lemma_reorder_state(pieces, reverse);
    let (out, run) = reorder_state(pieces, reverse);
    lemma_reverse_flatten_len(run);
}

proof fn lemma_reverse_flatten_multiset(run: Seq<Seq<char>>)
    ensures
        run.reverse().flatten().to_multiset() == run.flatten().to_multiset(),
    decreases run.len(),
{
    if run.len() > 0 {
        let rest = run.drop_last();
        let x = run.last();
        lemma_reverse_flatten_multiset(rest);
        assert(run.reverse() =~= seq![x] + rest.reverse());
        lemma_flatten_concat(seq![x], rest.reverse());
        seq![x].lemma_flatten_singleton();
        assert(run =~= rest.push(x));
        rest.lemma_flatten_push(x);
        lemma_multiset_commutative(x, rest.reverse().flatten());
        lemma_multiset_commutative(rest.flatten(), x);
        assert(x.to_multiset().add(rest.flatten().to_multiset()) =~= rest.flatten().to_multiset().add(x.to_multiset()));
    } else {
        assert(run.reverse() =~= run);
    }
}

proof fn lemma_reorder_state_multiset(pieces: Seq<Seq<char>>, reverse: bool)
    ensures
        ({
            let (out, run) = reorder_state(pieces, reverse);
            out.to_multiset().add(run.flatten().to_multiset()) == pieces.flatten().to_multiset()
        }),
    decreases pieces.len(),
{
    broadcast use vstd::seq_lib::group_to_multiset_ensures, vstd::multiset::group_multiset_axioms;

    let (out, run) = reorder_state(pieces, reverse);
    if pieces.len() == 0 {
        assert(Seq::<Seq<char>>::empty().flatten() =~= Seq::<char>::empty());
        assert(out.to_multiset().add(run.flatten().to_multiset()) =~= pieces.flatten().to_multiset());
    } else {
        let rest = pieces.drop_last();
        let p = pieces.last();
        lemma_reorder_state_multiset(rest, reverse);
        let (out0, run0) = reorder_state(rest, reverse);
        assert(pieces =~= rest.push(p));
        rest.lemma_flatten_push(p);
        lemma_multiset_commutative(rest.flatten(), p);
        run0.lemma_flatten_push(p);
        lemma_multiset_commutative(run0.flatten(), p);
        if p.len() > 0 && spec_is_arabic_char(p[0]) {
            lemma_reverse_flatten_multiset(run0);
            lemma_multiset_commutative(out0, run_text(run0, reverse));
            lemma_multiset_commutative(out0 + run_text(run0, reverse), p);
            assert(run =~= Seq::<Seq<char>>::empty());
            assert(Seq::<Seq<char>>::empty().flatten() =~= Seq::<char>::empty());
            assert(out.to_multiset().add(run.flatten().to_multiset()) =~= pieces.flatten().to_multiset());
        } else {
            assert(out.to_multiset().add(run.flatten().to_multiset()) =~= pieces.flatten().to_multiset());
        }
    }
}

/// Law: reordering keeps every character, each as often as before.
pub proof fn lemma_reorder_multiset(pieces: Seq<Seq<char>>, reverse: bool)
    ensures
        reorder_pieces(pieces, reverse).to_multiset() == pieces.flatten().to_multiset(),
{
    lemma_reorder_state_multiset(pieces, reverse);
    let (out, run) = reorder_state(pieces, reverse);
    lemma_reverse_flatten_multiset(run);
    lemma_multiset_commutative(out, run_text(run, reverse));
}

/// Whether a piece starts with an Arabic character.
pub open spec fn is_arabic_piece(p: Seq<char>) -> bool {
    p.len() > 0 && spec_is_arabic_char(p[0])
}

/// The pieces of `s` that start with an Arabic character, in order.
pub open spec fn arabic_pieces(s: Seq<Seq<char>>) -> Seq<Seq<char>>
    decreases s.len(),
{
    if s.len() == 0 {
        Seq::empty()
    } else if is_arabic_piece(s.last()) {
        arabic_pieces(s.drop_last()).push(s.last())
    } else {
        arabic_pieces(s.drop_last())
    }
}

/// The pieces as `reorder_state` writes them out: those written so far, and the
/// pending run.
pub open spec fn reorder_piece_state(pieces: Seq<Seq<char>>, reverse: bool) -> (Seq<Seq<char>>, Seq<Seq<char>>)
    decreases pieces.len(),
{
    if pieces.len() == 0 {
        (Seq::empty(), Seq::empty())
    } else {
        let (out, run) = reorder_piece_state(pieces.drop_last(), reverse);
        let p = pieces.last();
        if is_arabic_piece(p) {
            (out + (if reverse { run.reverse() } else { run }) + seq![p], Seq::empty())
        } else {
            (out, run.push(p))
        }
    }
}

/// The reordered text as a list of pieces.
pub open spec fn reordered_piece_list(pieces: Seq<Seq<char>>, reverse: bool) -> Seq<Seq<char>> {
    let (out, run) = reorder_piece_state(pieces, reverse);
    out + (if reverse { run.reverse() } else { run })
}

proof fn lemma_arabic_pieces_concat(a: Seq<Seq<char>>, b: Seq<Seq<char>>)
    ensures
        arabic_pieces(a + b) == arabic_pieces(a) + arabic_pieces(b),
    decreases b.len(),
{
    if b.len() == 0 {
        assert(a + b =~= a);
        assert(arabic_pieces(a) + arabic_pieces(b) =~= arabic_pieces(a));
    } else {
        lemma_arabic_pieces_concat(a, b.drop_last());
        assert((a + b).drop_last() =~= a + b.drop_last());
        assert((a + b).last() == b.last());
        if is_arabic_piece(b.last()) {
            assert(arabic_pieces(a) + arabic_pieces(b) =~= (arabic_pieces(a) + arabic_pieces(b.drop_last())).push(b.last()));
        }
    }
}

proof fn lemma_no_arabic_pieces(run: Seq<Seq<char>>)
    requires
        forall|i: int| 0 <= i < run.len() ==> !is_arabic_piece(#[trigger] run[i]),
    ensures
        arabic_pieces(run) == Seq::<Seq<char>>::empty(),
        arabic_pieces(run.reverse()) == Seq::<Seq<char>>::empty(),
    decreases run.len(),
{
    if run.len() > 0 {
        let rest = run.drop_last();
        lemma_no_arabic_pieces(rest);
        assert(run.reverse() =~= seq![run.last()] + rest.reverse());
        lemma_arabic_pieces_concat(seq![run.last()], rest.reverse());
        reveal_with_fuel(arabic_pieces, 2);
        assert(seq![run.last()].drop_last() =~= Seq::<Seq<char>>::empty());
    } else {
        assert(run.reverse() =~= run);
    }
}

proof fn lemma_piece_state(pieces: Seq<Seq<char>>, reverse: bool)
    ensures
        ({
            let (out, run) = reorder_piece_state(pieces, reverse);
            let (cout, crun) = reorder_state(pieces, reverse);
            &&& cout == out.flatten()
            &&& crun == run
            &&& forall|i: int| 0 <= i < run.len() ==> !is_arabic_piece(#[trigger] run[i])
            &&& arabic_pieces(out) == arabic_pieces(pieces)
        }),
    decreases pieces.len(),
{
    if pieces.len() == 0 {
        assert(Seq::<Seq<char>>::empty().flatten() =~= Seq::<char>::empty());
    } else {
        let rest = pieces.drop_last();
        let p = pieces.last();
        lemma_piece_state(rest, reverse);
        let (out, run) = reorder_piece_state(rest, reverse);
        if is_arabic_piece(p) {
            let w = if reverse { run.reverse() } else { run };
            lemma_flatten_concat(out + w, seq![p]);
            lemma_flatten_concat(out, w);
            seq![p].lemma_flatten_singleton();
            lemma_no_arabic_pieces(run);
            lemma_arabic_pieces_concat(out + w, seq![p]);
            lemma_arabic_pieces_concat(out, w);
            reveal_with_fuel(arabic_pieces, 2);
            assert(seq![p].drop_last() =~= Seq::<Seq<char>>::empty());
            assert(arabic_pieces(out + w) =~= arabic_pieces(out));
        } else {
            assert forall|i: int| 0 <= i < run.push(p).len() implies !is_arabic_piece(#[trigger] run.push(p)[i]) by {
                if i < run.len() {
                    assert(run.push(p)[i] == run[i]);
                }
            }
        }
    }
}

/// Law: the reordered text is the pieces written out in a new order, and the
/// pieces that start with an Arabic character keep their order.
pub proof fn lemma_reorder_keeps_arabic_order(pieces: Seq<Seq<char>>, reverse: bool)
    ensures
        reordered_piece_list(pieces, reverse).flatten() == reorder_pieces(pieces, reverse),
        arabic_pieces(reordered_piece_list(pieces, reverse)) == arabic_pieces(pieces),
{
    lemma_piece_state(pieces, reverse);
    let (out, run) = reorder_piece_state(pieces, reverse);
    let w = if reverse { run.reverse() } else { run };
    lemma_flatten_concat(out, w);
    lemma_no_arabic_pieces(run);
    lemma_arabic_pieces_concat(out, w);
    assert(arabic_pieces(out) + Seq::<Seq<char>>::empty() =~= arabic_pieces(out));
}

/// Appends the pieces of `run` to `out`, in reverse order when `reverse` holds.
fn append_run(out: &mut String, run: &Vec<&str>, reverse: bool)
    ensures
        final(out)@ == old(out)@ + run_text(piece_views(run@), reverse),
{
    let ghost g = piece_views(run@);
    let n = run.len();
    if reverse {
        let mut i = n;
        while i > 0
            invariant
                i <= n == run@.len() == g.len(),
                g == piece_views(run@),
                out@ == old(out)@ + g.subrange(i as int, n as int).reverse().flatten(),
            decreases i,
        {
            i -= 1;
            let ghost before = out@;
            out.append(run[i]);
            proof {
                let a = g.subrange(i + 1, n as int).reverse();
                assert(g.subrange(i as int, n as int).reverse() =~= a.push(g[i as int]));
                a.lemma_flatten_push(g[i as int]);
            }
        }
        assert(g.subrange(0, n as int) =~= g);
    } else {
        let mut i: usize = 0;
        while i < n
            invariant
                i <= n == run@.len() == g.len(),
                g == piece_views(run@),
                out@ == old(out)@ + g.subrange(0, i as int).flatten(),
            decreases n - i,
        {
            out.append(run[i]);
            proof {
                assert(g.subrange(0, i + 1) =~= g.subrange(0, i as int).push(g[i as int]));
                g.subrange(0, i as int).lemma_flatten_push(g[i as int]);
            }
            i += 1;
        }
        assert(g.subrange(0, n as int) =~= g);
    }
}

/// Splits `text` at word bounds and writes every maximal run of pieces that do not
/// start with an Arabic character in reverse piece order when `reverse` holds;
/// pieces starting with an Arabic character stay where they are.
pub fn text_split(text: &str, reverse: bool) -> (r: String)
    ensures
        r@ == reorder_pieces(word_bound_pieces(text@), reverse),
        word_bound_pieces(text@).flatten() == text@,
        !reverse ==> r@ == text@,
        r@.len() == text@.len(),
        r@.to_multiset() == text@.to_multiset(),
        r@ == reordered_piece_list(word_bound_pieces(text@), reverse).flatten(),
        arabic_pieces(reordered_piece_list(word_bound_pieces(text@), reverse)) == arabic_pieces(
            word_bound_pieces(text@),
        ),
{
    let pieces = word_bounds(text);
    let ghost g = piece_views(pieces@);
    let mut run: Vec<&str> = Vec::new();
    let mut out = String::new();
    let mut k: usize = 0;
    while k < pieces.len()
        invariant
            k <= pieces@.len() == g.len(),
            g == piece_views(pieces@),
            forall|i: int| 0 <= i < pieces@.len() ==> (#[trigger] pieces@[i])@.len() > 0,
            (out@, piece_views(run@)) == reorder_state(g.take(k as int), reverse),
        decreases pieces@.len() - k,
    {
        let p = pieces[k];
        let ghost pv = p@;
        assert(pieces@[k as int]@.len() > 0);
        let c = p.get_char(0);
        assert(g.take(k + 1).drop_last() =~= g.take(k as int));
        if !is_arabic_char(c) {
            let ghost run_before = run@;
            run.push(p);
            assert(piece_views(run@) =~= piece_views(run_before).push(pv));
        } else {
            if run.len() > 0 {
                append_run(&mut out, &run, reverse);
                run.clear();
            } else {
                assert(piece_views(run@) =~= Seq::<Seq<char>>::empty());
                assert(Seq::<Seq<char>>::empty().flatten() =~= Seq::<char>::empty());
                assert(Seq::<Seq<char>>::empty().reverse() =~= Seq::<Seq<char>>::empty());
            }
            out.append(p);
            assert(piece_views(run@) =~= Seq::<Seq<char>>::empty());
        }
        k += 1;
    }
    if run.len() > 0 {
        append_run(&mut out, &run, reverse);
    } else {
        assert(piece_views(run@) =~= Seq::<Seq<char>>::empty());
        assert(Seq::<Seq<char>>::empty().flatten() =~= Seq::<char>::empty());
        assert(Seq::<Seq<char>>::empty().reverse() =~= Seq::<Seq<char>>::empty());
    }
    proof {
        assert(g.take(g.len() as int) =~= g);
        lemma_reorder_identity(g);
        lemma_reorder_len(g, reverse);
        lemma_reorder_multiset(g, reverse);
        lemma_reorder_keeps_arabic_order(g, reverse);
    }
    out
}

/// Law: a glyph-carrying splitter over the same characters, from the same state,
/// gives the units of the plain splitter, each with the glyph at its position.
pub proof fn lemma_glyph_splitter_matches(plain: SplitChar, glyphs: SplitChar2)
    requires
        plain.text() == glyphs.text(),
        plain.pos() == glyphs.pos(),
        plain.word_type() == glyphs.word_type(),
        plain.splits_words() == glyphs.splits_words(),
        plain.merges_whitespace() == glyphs.merges_whitespace(),
    ensures
        glyphs.remaining() == plain.remaining().map_values(|u: SplitResult| with_glyph(u, glyphs.glyphs())),
{
}

/// Law: digits form one word class, and `/`, `.` and `%` after a digit belong to
/// it, so a number written with them (a fraction, a decimal, a percentage, a
/// date) is one word.
pub proof fn lemma_number_punctuation_joins_digits(d: char, e: char, prev: char)
    requires
        spec_is_ascii_digit(d),
        spec_is_ascii_digit(e),
    ensures
        spec_type_id(d, prev) == spec_type_id(e, prev),
        spec_type_id(d, prev) != 0,
        spec_type_id('/', e) == spec_type_id(d, prev),
        spec_type_id('.', e) == spec_type_id(d, prev),
        spec_type_id('%', e) == spec_type_id(d, prev),
        spec_type_id(d, '/') == spec_type_id(d, prev),
{
}

/// Law: the word classes of ASCII text. Letters form one class, distinct from the
/// digits' class; an apostrophe after a letter belongs to the letters, so `don't`
/// is one word; and every other ASCII character, as well as an apostrophe, `/`,
/// `.` or `%` that follows no letter or digit respectively, is a word on its own
/// (class 0).
pub proof fn lemma_ascii_word_classes(c: char, prev: char)
    requires
        spec_is_ascii(c),
    ensures
        spec_is_ascii_alphabetic(c) ==> spec_type_id(c, prev) == 1,
        spec_is_ascii_digit(c) ==> spec_type_id(c, prev) == usize::MAX,
        spec_type_id('a', prev) != spec_type_id('0', prev),
        c == '\'' && spec_is_ascii_alphabetic(prev) ==> spec_type_id(c, prev) == spec_type_id('a', c),
        c == '\'' && !spec_is_ascii_alphabetic(prev) ==> spec_type_id(c, prev) == 0,
        (c == '/' || c == '.' || c == '%') && !spec_is_ascii_digit(prev) ==> spec_type_id(c, prev) == 0,
        !spec_is_ascii_alphabetic(c) && !spec_is_ascii_digit(c) && c != '\'' && c != '/' && c != '.'
            && c != '%' ==> spec_type_id(c, prev) == 0,
{
}

/// Law: with whitespace merged, a run of whitespace gives one unit, carrying the
/// position of the run's last character: every character from the step's start up
/// to it is whitespace, and the one after it is not (or the text ends there).
pub proof fn lemma_merged_whitespace_unit(t: Seq<char>, i: int, word_split: bool)
    requires
        0 <= i < t.len(),
        t.len() <= isize::MAX,
        t[i] != '\n',
        spec_is_whitespace(t[i]),
    ensures
        ({
            let (r, j, tid) = split_step(t, i, 0, word_split, true);
            let p = j - 1;
            &&& r == Some(SplitResult::Whitespace(p as isize))
            &&& i <= p < t.len()
            &&& forall|k: int| i <= k <= p ==> spec_is_whitespace(#[trigger] t[k])
            &&& (p + 1 == t.len() || !spec_is_whitespace(t[p + 1]))
        }),
{
    lemma_ws_run_end(t, i);
}

} // verus!
