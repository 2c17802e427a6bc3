//! Font metadata: identifiers, sizes, render modes and glyph images.
use pi_slotmap::DefaultKey;
use vstd::prelude::*;

use super::text_split::{char_is_whitespace, collect_chars, spec_is_whitespace};

verus! {

#[verifier::external_type_specification]
#[verifier::external_body]
pub struct ExDefaultKey(DefaultKey);

/// A width and a height.
#[derive(Debug, Clone)]
pub struct Size<T> {
    pub width: T,
    pub height: T,
}

/// An RGBA image (four bytes per pixel) into which glyphs are drawn.
pub struct FontImage {
    pub buffer: Vec<u8>,
    pub width: usize,
    pub height: usize,
}

/// Blurred images of several levels of detail.
pub struct ShadowImage {
    pub minimip: Vec<Vec<u8>>,
    pub width: usize,
    pub height: usize,
}

/// The background colour of a glyph image: opaque magenta, byte `k` of a pixel.
pub open spec fn background_byte(k: int) -> u8 {
    if k == 0 {
        255u8
    } else if k == 1 {
        0u8
    } else if k == 2 {
        255u8
    } else {
        255u8
    }
}

impl FontImage {
    /// A `width` x `height` image, four bytes per pixel, all zero.
    pub fn new(width: usize, height: usize) -> (r: FontImage)
        requires
            width * height * 4 <= usize::MAX,
        ensures
            r.width == width,
            r.height == height,
            r.buffer@.len() == width * height * 4,
            forall|i: int| 0 <= i < r.buffer@.len() ==> r.buffer@[i] == 0u8,
    {
        assert(width * height <= usize::MAX) by (nonlinear_arith)
            requires
                width * height * 4 <= usize::MAX,
        ;
        let len = width * height * 4;
        let mut buffer: Vec<u8> = Vec::with_capacity(len);
        let mut i: usize = 0;
        while i < len
            invariant
                i <= len,
                buffer@.len() == i,
                forall|k: int| 0 <= k < i ==> buffer@[k] == 0u8,
            decreases len - i,
        {
            buffer.push(0u8);
            i += 1;
        }
        FontImage { buffer, width, height }
    }

    /// Paints every pixel with the background colour.
    pub fn init_background(&mut self)
        requires
            old(self).buffer@.len() % 4 == 0,
        ensures
            final(self).width == old(self).width,
            final(self).height == old(self).height,
            final(self).buffer@.len() == old(self).buffer@.len(),
            forall|i: int|
                0 <= i < final(self).buffer@.len() ==> final(self).buffer@[i] == background_byte(
                    i % 4,
                ),
    {
        let mut i: usize = 0;
        let len = self.buffer.len();
        while i < len
            invariant
                len == self.buffer@.len(),
                len % 4 == 0,
                i % 4 == 0,
                i <= len,
                self.width == old(self).width,
                self.height == old(self).height,
                forall|k: int| 0 <= k < i ==> self.buffer@[k] == background_byte(k % 4),
            decreases len - i,
        {
            self.buffer.set(i, 255);
            self.buffer.set(i + 1, 0);
            self.buffer.set(i + 2, 255);
            self.buffer.set(i + 3, 255);
            i += 4;
        }
    }
}

/// The glyphs of a font that wait to be drawn, and the room they take.
pub struct AwaitInfo {
    pub size: Size<usize>,
    pub wait_list: Vec<GlyphId>,
}

/// Identifier of a glyph: a key of the glyph slot map.
#[derive(Debug, Clone, Copy, Hash, PartialEq, Eq)]
pub struct GlyphId(pub DefaultKey);

/// Identifier of a font (family, size, weight and render mode).
#[derive(Debug, Clone, Copy, Hash, PartialEq, Eq, Default)]
pub struct FontId(pub DefaultKey);

/// Identifier of a list of font family names.
#[derive(Debug, Clone, Copy, Hash, PartialEq, Eq, Default)]
pub struct FontFamilyId(pub DefaultKey);

/// Identifier of a loaded font face.
#[derive(Debug, Clone, Copy, Hash, PartialEq, Eq)]
pub struct FontFaceId(pub DefaultKey);

/// How glyphs are rendered.
#[derive(Debug, Clone, Copy, Hash, PartialEq, Eq, Structural)]
pub enum FontType {
    /// Rasterised by the platform.
    Bitmap,
    /// Signed distance fields from a pre-built table.
    Sdf1,
    /// Signed distance fields computed from the outlines.
    Sdf2,
}

impl Default for FontType {
    fn default() -> (r: Self)
        ensures
            r == FontType::Bitmap,
    {
        FontType::Bitmap
    }
}

/// Font size at which glyph widths are measured.
pub const BASE_FONT_SIZE: usize = 32;

/// Weight from which a font counts as bold.
pub const BLOD_WEIGHT: usize = 700;

// ---------------------------------------------------------------------------
// Font family lists
// ---------------------------------------------------------------------------

/// Position of the first `,` of `s`, or its length when there is none.
pub open spec fn first_comma(s: Seq<char>) -> int
    decreases s.len(),
{
    if s.len() == 0 {
        0
    } else if s[0] == ',' {
        0
    } else {
        1 + first_comma(s.drop_first())
    }
}

/// The pieces of `s` between commas (one piece when there is no comma).
pub open spec fn split_commas(s: Seq<char>) -> Seq<Seq<char>>
    decreases s.len(),
{
    let k = first_comma(s);
    if k >= s.len() {
        seq![s]
    } else {
        proof {
            lemma_first_comma(s);
        }
        seq![s.take(k)] + split_commas(s.skip(k + 1))
    }
}

/// `s` without leading `White_Space` characters.
pub open spec fn trim_start(s: Seq<char>) -> Seq<char>
    decreases s.len(),
{
    if s.len() > 0 && spec_is_whitespace(s[0]) {
        trim_start(s.drop_first())
    } else {
        s
    }
}

/// `s` without trailing `White_Space` characters.
pub open spec fn trim_end(s: Seq<char>) -> Seq<char>
    decreases s.len(),
{
    if s.len() > 0 && spec_is_whitespace(s.last()) {
        trim_end(s.drop_last())
    } else {
        s
    }
}

/// `s` without leading and trailing `White_Space` characters.
pub open spec fn trim(s: Seq<char>) -> Seq<char> {
    trim_end(trim_start(s))
}

/// The family names of a comma separated list, each trimmed of whitespace.
pub open spec fn family_names(s: Seq<char>) -> Seq<Seq<char>> {
    split_commas(s).map_values(|p: Seq<char>| trim(p))
}

pub proof fn lemma_first_comma(s: Seq<char>)
    ensures
        0 <= first_comma(s) <= s.len(),
        first_comma(s) < s.len() ==> s[first_comma(s)] == ',',
        forall|i: int| 0 <= i < first_comma(s) ==> s[i] != ',',
    decreases s.len(),
{
    if s.len() > 0 && s[0] != ',' {
        lemma_first_comma(s.drop_first());
        assert forall|i: int| 0 <= i < first_comma(s) implies s[i] != ',' by {
            if i > 0 {
                assert(s[i] == s.drop_first()[i - 1]);
            }
        }
    }
}

/// The first comma of `s` is at `k` when `s` has none before `k` and one at `k` (or ends there).
proof fn lemma_first_comma_at(s: Seq<char>, k: int)
    requires
        0 <= k <= s.len(),
        forall|i: int| 0 <= i < k ==> s[i] != ',',
        k < s.len() ==> s[k] == ',',
    ensures
        first_comma(s) == k,
    decreases s.len(),
{
    if s.len() > 0 && k > 0 {
        assert forall|i: int| 0 <= i < k - 1 implies s.drop_first()[i] != ',' by {
            assert(s.drop_first()[i] == s[i + 1]);
        }
        lemma_first_comma_at(s.drop_first(), k - 1);
    }
}

/// Trimming `s[a..b]` gives `s[a2..b2]` where `a2` skips the leading and `b2` the
/// trailing whitespace.
proof fn lemma_trim_range(s: Seq<char>, a: int, b: int, a2: int, b2: int)
    requires
        0 <= a <= a2 <= b2 <= b <= s.len(),
        forall|i: int| a <= i < a2 ==> spec_is_whitespace(s[i]),
        a2 < b ==> !spec_is_whitespace(s[a2]),
        forall|i: int| b2 <= i < b ==> spec_is_whitespace(s[i]),
        a2 < b2 ==> !spec_is_whitespace(s[b2 - 1]),
        a2 == b ==> b2 == b,
    ensures
        trim(s.subrange(a, b)) == s.subrange(a2, b2),
{
    lemma_trim_start(s, a, b, a2);
    lemma_trim_end(s, a2, b, b2);
}

proof fn lemma_trim_start(s: Seq<char>, a: int, b: int, a2: int)
    requires
        0 <= a <= a2 <= b <= s.len(),
        forall|i: int| a <= i < a2 ==> spec_is_whitespace(s[i]),
        a2 < b ==> !spec_is_whitespace(s[a2]),
    ensures
        trim_start(s.subrange(a, b)) == s.subrange(a2, b),
    decreases a2 - a,
{
    if a < a2 {
        assert(s.subrange(a, b).drop_first() =~= s.subrange(a + 1, b));
        lemma_trim_start(s, a + 1, b, a2);
    }
}

proof fn lemma_trim_end(s: Seq<char>, a: int, b: int, b2: int)
    requires
        0 <= a <= b2 <= b <= s.len(),
        forall|i: int| b2 <= i < b ==> spec_is_whitespace(s[i]),
        a < b2 ==> !spec_is_whitespace(s[b2 - 1]),
    ensures
        trim_end(s.subrange(a, b)) == s.subrange(a, b2),
    decreases b - b2,
{
    if b2 < b {
        assert(s.subrange(a, b).drop_last() =~= s.subrange(a, b - 1));
        lemma_trim_end(s, a, b - 1, b2);
    }
}

/// The family names of the comma separated list `s`, each without leading and
/// trailing whitespace, in order.
pub fn font_family_names<'a>(s: &'a str) -> (r: Vec<&'a str>)
    requires
        s@.len() < usize::MAX,
    ensures
        r@.len() == family_names(s@).len(),
        forall|i: int| 0 <= i < r@.len() ==> (#[trigger] r@[i])@ == family_names(s@)[i],
{
    let chars = collect_chars(s);
    let n = chars.len();
    let ghost t = s@;
    let mut r: Vec<&'a str> = Vec::new();
    let mut start: usize = 0;
    let mut i: usize = 0;
    assert(t.subrange(0, n as int) =~= t);
    while i <= n
        invariant
            t == s@,
            chars@ == t,
            n == t.len(),
            start <= i,
            i <= n + 1,
            n < usize::MAX,
            i <= n ==> forall|k: int| start <= k < i ==> t[k] != ',',
            i > n ==> r@.map_values(|p: &str| p@) == family_names(t),
            i <= n ==> r@.map_values(|p: &str| p@) + family_names(t.subrange(start as int, n as int))
                == family_names(t),
        decreases n + 1 - i,
    {
        if i == n || chars[i] == ',' {
            let mut a = start;
            while a < i && char_is_whitespace(chars[a])
                invariant
                    start <= a <= i <= n,
                    n == t.len(),
                    chars@ == t,
                    forall|k: int| start <= k < a ==> spec_is_whitespace(t[k]),
                decreases i - a,
            {
                a += 1;
            }
            let mut b = i;
            while b > a && char_is_whitespace(chars[b - 1])
                invariant
                    a <= b <= i <= n,
                    n == t.len(),
                    chars@ == t,
                    forall|k: int| b <= k < i ==> spec_is_whitespace(t[k]),
                decreases b - a,
            {
                b -= 1;
            }
            let piece = s.substring_char(a, b);
            proof {
                let rest = t.subrange(start as int, n as int);
                lemma_first_comma_at(rest, i - start);
                assert(rest.take(i - start) =~= t.subrange(start as int, i as int));
                lemma_trim_range(t, start as int, i as int, a as int, b as int);
                if i < n {
                    assert(rest.skip(i - start + 1) =~= t.subrange(i + 1, n as int));
                    assert(split_commas(rest) == seq![rest.take(i - start)] + split_commas(rest.skip(i - start + 1)));
                    assert(family_names(rest) =~= seq![trim(t.subrange(start as int, i as int))] + family_names(t.subrange(i + 1, n as int)));
                } else {
                    assert(rest =~= t.subrange(start as int, i as int));
                    assert(family_names(rest) =~= seq![trim(t.subrange(start as int, i as int))]);
                }
            }
            let ghost before = r@;
            r.push(piece);
            proof {
                assert(r@.map_values(|p: &str| p@) =~= before.map_values(|p: &str| p@).push(piece@));
            }
            start = i + 1;
        }
        i += 1;
    }
    proof {
        assert(r@.map_values(|p: &str| p@).len() == r@.len());
        assert forall|k: int| 0 <= k < r@.len() implies (#[trigger] r@[k])@ == family_names(t)[k] by {
            assert(r@.map_values(|p: &str| p@)[k] == r@[k]@);
        }
    }
    r
}

/// The pieces `p` joined with commas between them.
pub open spec fn join_commas(p: Seq<Seq<char>>) -> Seq<char>
    decreases p.len(),
{
    if p.len() == 0 {
        Seq::empty()
    } else if p.len() == 1 {
        p[0]
    } else {
        p[0] + seq![','] + join_commas(p.drop_first())
    }
}

/// Law: splitting at commas cuts the text into pieces that hold no comma and that,
/// joined again with commas, give the text back; there is always a piece.
pub proof fn lemma_split_commas_joins_back(s: Seq<char>)
    ensures
        split_commas(s).len() >= 1,
        join_commas(split_commas(s)) == s,
        forall|i: int, j: int|
            0 <= i < split_commas(s).len() && 0 <= j < split_commas(s)[i].len() ==> #[trigger] split_commas(s)[i][j]
                != ',',
    decreases s.len(),
{
    lemma_first_comma(s);
    let k = first_comma(s);
    if k >= s.len() {
        assert(split_commas(s) =~= seq![s]);
    } else {
        let rest = s.skip(k + 1);
        lemma_split_commas_joins_back(rest);
        let g = split_commas(s);
        assert(g =~= seq![s.take(k)] + split_commas(rest));
        assert(g.drop_first() =~= split_commas(rest));
        assert(s =~= s.take(k) + seq![','] + rest);
        assert forall|i: int, j: int|
            0 <= i < g.len() && 0 <= j < g[i].len() implies #[trigger] g[i][j] != ',' by {
            if i > 0 {
                assert(g[i] == split_commas(rest)[i - 1]);
            }
        }
    }
}

/// Law: a family name never starts or ends with whitespace.
pub proof fn lemma_trim_trims(s: Seq<char>)
    ensures
        trim(s).len() > 0 ==> !spec_is_whitespace(trim(s)[0]) && !spec_is_whitespace(trim(s).last()),
{
    lemma_trim_start_no_ws(s);
    lemma_trim_end_keeps_start(trim_start(s));
}

proof fn lemma_trim_start_no_ws(s: Seq<char>)
    ensures
        trim_start(s).len() > 0 ==> !spec_is_whitespace(trim_start(s)[0]),
    decreases s.len(),
{
    if s.len() > 0 && spec_is_whitespace(s[0]) {
        lemma_trim_start_no_ws(s.drop_first());
    }
}

proof fn lemma_trim_end_keeps_start(s: Seq<char>)
    requires
        s.len() > 0 ==> !spec_is_whitespace(s[0]),
    ensures
        trim_end(s).len() > 0 ==> !spec_is_whitespace(trim_end(s)[0]) && !spec_is_whitespace(trim_end(s).last()),
        trim_end(s).len() <= s.len(),
        trim_end(s) == s.take(trim_end(s).len() as int),
    decreases s.len(),
{
    if s.len() > 0 && spec_is_whitespace(s.last()) {
        lemma_trim_end_keeps_start(s.drop_last());
        assert(s.drop_last().take(trim_end(s).len() as int) =~= s.take(trim_end(s).len() as int));
    } else {
        assert(s.take(s.len() as int) =~= s);
    }
}

} // verus!
