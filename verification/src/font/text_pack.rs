//! Shelf packing of glyphs in a texture atlas.
//!
//! The atlas is cut into rows ("lines"). Every line height (after rounding up to a
//! few sizes) has one open line; glyphs are placed left to right in it, and a glyph
//! that does not fit opens a new line of that height below everything placed so far.
use pi_hash::XHashMap;
use vstd::prelude::*;

verus! {

/// A point of the atlas, in pixels.
#[derive(Debug, Clone, Copy, PartialEq, Eq)]
pub struct Point2 {
    pub x: usize,
    pub y: usize,
}

impl Point2 {
    pub fn new(x: usize, y: usize) -> (r: Point2)
        ensures
            r == (Point2 { x, y }),
    {
        Point2 { x, y }
    }
}

#[verifier::external_type_specification]
#[verifier::external_body]
pub struct ExXHasher(pi_hash::DefaultHasher);

#[verifier::external_type_specification]
#[verifier::external_body]
#[verifier::reject_recursive_types(H)]
pub struct ExBuildHasherDefault<H>(std::hash::BuildHasherDefault<H>);

/// The open line of one height: the point where the next glyph goes, and the
/// number of glyphs placed in the line.
pub type LineSlot = (Point2, usize);

/// `HashMap::get` on a line table keyed by line height: the slot stored under
/// `key`, if any (keys are `usize`, compared and hashed as integers).
#[verifier::external_body]
fn line_get(map: &XHashMap<usize, LineSlot>, key: usize) -> (r: Option<LineSlot>)
    ensures
        r == (if map@.contains_key(key) {
            Some(map@[key])
        } else {
            None
        }),
{
    map.get(&key).copied()
}

/// `HashMap::insert` on a line table keyed by line height: afterwards `key` maps
/// to `value` and every other key keeps its slot.
#[verifier::external_body]
fn line_insert(map: &mut XHashMap<usize, LineSlot>, key: usize, value: LineSlot)
    ensures
        final(map)@ == old(map)@.insert(key, value),
{
    map.insert(key, value);
}

/// A placed rectangle: (x, y, width, height).
pub type Placed = (int, int, int, int);

pub open spec fn disjoint(a: Placed, b: Placed) -> bool {
    ||| a.0 + a.2 <= b.0
    ||| b.0 + b.2 <= a.0
    ||| a.1 + a.3 <= b.1
    ||| b.1 + b.3 <= a.1
}

/// The height of the line that holds glyphs of height `h`: 42 for small glyphs,
/// otherwise 42 plus `h - 42` rounded up to a multiple of 32.
pub open spec fn spec_line_height(h: int) -> int {
    if h <= 42 {
        42
    } else {
        (h - 42 + 31) / 32 * 32 + 42
    }
}

/// The free part of an open line of height `lh`: from its next point to the right.
pub open spec fn outside_free_part(lh: usize, slot: LineSlot, r: Placed) -> bool {
    ||| r.1 + r.3 <= slot.0.y
    ||| slot.0.y + lh <= r.1
    ||| r.0 + r.2 <= slot.0.x
}

/// The open line of height `lh` before a glyph is placed, and `last_v` after opening
/// it: the existing line, or a new empty line at `last_v`.
pub open spec fn spec_open_line(lines: Map<usize, LineSlot>, last_v: int, lh: usize) -> (LineSlot, int) {
    if lines.contains_key(lh) {
        (lines[lh], last_v)
    } else {
        ((Point2 { x: 0, y: last_v as usize }, 0usize), last_v + lh)
    }
}

/// Placing a glyph of width `w` in the open line `slot` of height `lh` of an atlas
/// `tex_width` wide: where the glyph goes, the line after it, and `last_v` after it.
/// When the glyph does not fit, the line moves to a new row at `last_v`.
pub open spec fn spec_place(slot: LineSlot, last_v: int, tex_width: usize, w: usize, lh: usize) -> (Point2, LineSlot, int) {
    if tex_width >= slot.0.x + w {
        (slot.0, (Point2 { x: (slot.0.x + w) as usize, y: slot.0.y }, (slot.1 + 1) as usize), last_v)
    } else {
        (Point2 { x: 0, y: last_v as usize }, (Point2 { x: w, y: last_v as usize }, 1usize), last_v + lh)
    }
}

/// Placing a `width` x `height` glyph in an atlas `atlas_width` x `atlas_height`
/// whose open lines are `lines` and whose bottom is `bottom`: the point handed out
/// (`None` when the atlas is full), the open lines after it, and the bottom after it.
pub open spec fn alloc_from(
    lines: Map<usize, LineSlot>,
    bottom: int,
    atlas_width: usize,
    atlas_height: usize,
    width: usize,
    height: usize,
) -> (Option<Point2>, Map<usize, LineSlot>, int) {
    let lh = spec_line_height(height as int) as usize;
    let (slot, v1) = spec_open_line(lines, bottom, lh);
    let (p, slot2, v2) = spec_place(slot, v1, atlas_width, width, lh);
    (if v2 > atlas_height {
        None
    } else {
        Some(p)
    }, lines.insert(lh, slot2), v2)
}

/// Texture atlas packer.
pub struct TextPacker {
    /// Atlas width in pixels.
    width: usize,
    /// Atlas height in pixels.
    height: usize,
    /// Bottom of everything placed so far.
    last_v: usize,
    /// Line height -> open line of that height.
    line_map: XHashMap<usize, LineSlot>,
    /// Every rectangle placed since the packer was made or last cleared.
    placed: Ghost<Seq<Placed>>,
}

impl TextPacker {
    pub closed spec fn atlas_width(&self) -> usize {
        self.width
    }

    pub closed spec fn atlas_height(&self) -> usize {
        self.height
    }

    /// `last_v`: the bottom of everything placed so far.
    pub closed spec fn bottom(&self) -> usize {
        self.last_v
    }

    pub closed spec fn lines(&self) -> Map<usize, LineSlot> {
        self.line_map@
    }

    pub closed spec fn placed(&self) -> Seq<Placed> {
        self.placed@
    }

    /// The packer's invariant: placed rectangles never overlap and lie above
    /// `last_v`, every open line lies above `last_v`, lines of different heights
    /// occupy different rows, and no placed rectangle reaches into the free part
    /// of an open line.
    pub closed spec fn wf(&self) -> bool {
        let p = self.placed@;
        let lines = self.line_map@;
        &&& forall|i: int, j: int|
            0 <= i < j < p.len() ==> disjoint(#[trigger] p[i], #[trigger] p[j])
        &&& forall|i: int| 0 <= i < p.len() ==> (#[trigger] p[i]).1 + p[i].3 <= self.last_v
        &&& forall|k: usize| #[trigger] lines.contains_key(k) ==> lines[k].0.y + k <= self.last_v
        &&& forall|k1: usize, k2: usize|
            #[trigger] lines.contains_key(k1) && #[trigger] lines.contains_key(k2) && k1 != k2
                ==> lines[k1].0.y + k1 <= lines[k2].0.y || lines[k2].0.y + k2 <= lines[k1].0.y
        &&& forall|k: usize, i: int|
            #[trigger] lines.contains_key(k) && 0 <= i < p.len() ==> outside_free_part(
                k,
                lines[k],
                #[trigger] p[i],
            )
    }

    /// Whether placing a `width` x `height` glyph stays within `usize` arithmetic.
    pub open spec fn can_alloc(&self, width: usize, height: usize) -> bool {
        let lh = spec_line_height(height as int);
        &&& lh <= usize::MAX
        &&& if self.lines().contains_key(lh as usize) {
            &&& self.lines()[lh as usize].0.x + width <= usize::MAX
            &&& self.lines()[lh as usize].1 < usize::MAX
            &&& self.bottom() + lh <= usize::MAX
        } else {
            self.bottom() + lh + lh <= usize::MAX
        }
    }

    /// What placing a `width` x `height` glyph gives: the point handed out (`None`
    /// when the atlas is full), the open lines after it, and the bottom after it.
    pub open spec fn alloc_outcome(&self, width: usize, height: usize) -> (Option<Point2>, Map<usize, LineSlot>, int) {
        alloc_from(self.lines(), self.bottom() as int, self.atlas_width(), self.atlas_height(), width, height)
    }

    /// Width of the atlas in pixels.
    pub fn width(&self) -> (r: usize)
        ensures
            r == self.atlas_width(),
    {
        self.width
    }

    /// Height of the atlas in pixels.
    pub fn height(&self) -> (r: usize)
        ensures
            r == self.atlas_height(),
    {
        self.height
    }

    /// Bottom of everything placed so far.
    pub fn last_v(&self) -> (r: usize)
        ensures
            r == self.bottom(),
    {
        self.last_v
    }

    /// Whether placing a `width` x `height` glyph stays within `usize` arithmetic
    /// (see [`TextPacker::can_alloc`]).
    pub fn can_place(&self, width: usize, height: usize) -> (r: bool)
        ensures
            r == self.can_alloc(width, height),
    {
        let lh: usize = if height <= 42 {
            42
        } else {
            let k = (height - 11) / 32 * 32;
            if k > usize::MAX - 42 {
                return false;
            }
            k + 42
        };
        match line_get(&self.line_map, lh) {
            Some(slot) => {
                slot.0.x <= usize::MAX - width && slot.1 < usize::MAX && self.last_v <= usize::MAX - lh
            },
            None => self.last_v <= usize::MAX - lh && self.last_v + lh <= usize::MAX - lh,
        }
    }

    /// Whether any glyph up to 255 pixels wide and high can be placed within `usize`
    /// arithmetic (every such placement then meets [`TextPacker::can_alloc`]).
    pub fn has_glyph_room(&self) -> (r: bool)
        ensures
            r ==> forall|w: usize, h: usize| w <= 255 && h <= 255 ==> #[trigger] self.can_alloc(w, h),
    {
        let ok = self.can_place(255, 42) && self.can_place(255, 74) && self.can_place(255, 106)
            && self.can_place(255, 138) && self.can_place(255, 170) && self.can_place(255, 202)
            && self.can_place(255, 234) && self.can_place(255, 266);
        proof {
            if ok {
                assert forall|w: usize, h: usize| w <= 255 && h <= 255 implies #[trigger] self.can_alloc(w, h) by {
                    lemma_small_line_heights(h as int);
                }
            }
        }
        ok
    }

    /// Forgets every placement.
    pub fn clear(&mut self)
        ensures
            final(self).wf(),
                        final(self).lines() == Map::<usize, LineSlot>::empty(),
            final(self).placed() == Seq::<Placed>::empty(),
            final(self).bottom() == 0,
            final(self).atlas_width() == old(self).atlas_width(),
            final(self).atlas_height() == old(self).atlas_height(),
    {
        self.line_map.clear();
        self.last_v = 0;
        self.placed = Ghost(Seq::empty());
    }

    /// An empty packer for a `width` x `height` atlas.
    pub fn new(width: usize, height: usize) -> (r: TextPacker)
        ensures
            r.wf(),
            r.atlas_width() == width,
            r.atlas_height() == height,
            r.bottom() == 0,
            r.lines() == Map::<usize, LineSlot>::empty(),
            r.placed() == Seq::<Placed>::empty(),
    {
        TextPacker {
            width,
            height,
            line_map: XHashMap::default(),
            last_v: 0,
            placed: Ghost(Seq::empty()),
        }
    }

    /// The line for glyphs of height `line_height`, opened below everything placed
    /// when there is none yet.
    pub fn alloc_line<'a>(&'a mut self, line_height: usize) -> (r: TexLine<'a>)
        requires
            old(self).wf(),
            spec_line_height(line_height as int) <= usize::MAX,
            !old(self).lines().contains_key(spec_line_height(line_height as int) as usize)
                ==> old(self).bottom() + spec_line_height(line_height as int) <= usize::MAX,
        ensures
            r.line_height == spec_line_height(line_height as int),
            r.tex_width == old(self).atlas_width(),
            r.packer.wf(),
            r.packer.atlas_width() == old(self).atlas_width(),
            r.packer.atlas_height() == old(self).atlas_height(),
            r.packer.placed() == old(self).placed(),
            ({
                let (slot, last_v) = spec_open_line(old(self).lines(), old(self).bottom() as int, r.line_height);
                &&& r.packer.lines() == old(self).lines().insert(r.line_height, slot)
                &&& r.packer.bottom() == last_v
            }),
            *final(r.packer) == *final(self),
    {
        let mut line_height = line_height;
        line_height = if line_height <= 42 {
            42
        } else {
            (line_height - 11) / 32 * 32 + 42
        };
        let v = self.last_v;
        match line_get(&self.line_map, line_height) {
            Some(_) => {
                assert(self.line_map@.insert(line_height, self.line_map@[line_height]) =~= self.line_map@);
            },
            None => {
                line_insert(&mut self.line_map, line_height, (Point2::new(0, v), 0));
                self.last_v += line_height;
            },
        }
        let tex_width = self.width;
        TexLine { packer: self, tex_width, line_height }
    }

    /// Places a `width` x `height` glyph; `None` when the atlas is full (the packer
    /// has then still used the space).
    pub fn allocate(&mut self, width: usize, height: usize) -> (r: Option<Point2>)
        requires
            old(self).wf(),
            old(self).can_alloc(width, height),
        ensures
            final(self).wf(),
                        final(self).atlas_width() == old(self).atlas_width(),
            final(self).atlas_height() == old(self).atlas_height(),
            ({
                let (r2, lines2, v2) = old(self).alloc_outcome(width, height);
                &&& r == r2
                &&& final(self).lines() == lines2
                &&& final(self).bottom() == v2
            }),
            ({
                let lh = spec_line_height(height as int) as usize;
                let (slot, v1) = spec_open_line(old(self).lines(), old(self).bottom() as int, lh);
                let (p, slot2, v2) = spec_place(slot, v1, old(self).atlas_width(), width, lh);
                let rect = (p.x as int, p.y as int, width as int, lh as int);
                &&& final(self).lines() == old(self).lines().insert(lh, slot2)
                &&& final(self).bottom() == v2
                &&& final(self).placed() == old(self).placed().push(rect)
                &&& r == (if v2 > old(self).atlas_height() {
                    None
                } else {
                    Some(p)
                })
                // what is placed never overlaps what was placed before
                &&& forall|i: int|
                    0 <= i < old(self).placed().len() ==> disjoint(#[trigger] old(self).placed()[i], rect)
                // what is handed out lies in the atlas
                &&& r is Some ==> p.y + lh <= old(self).atlas_height()
                    && (width <= old(self).atlas_width() ==> p.x + width <= old(self).atlas_width())
            }),
    {
        let mut line = self.alloc_line(height);
        let p = line.allocate(width);
        if line.packer.last_v > line.packer.height {
            None
        } else {
            Some(p)
        }
    }
}

/// The open line of one height, while a glyph is placed in it.
pub struct TexLine<'a> {
    pub packer: &'a mut TextPacker,
    pub tex_width: usize,
    pub line_height: usize,
}

impl<'a> TexLine<'a> {
    /// Top of the line.
    pub fn get_v(&self) -> (r: usize)
        requires
            old(self.packer).lines().contains_key(self.line_height),
        ensures
            r == old(self.packer).lines()[self.line_height].0.y,
    {
        match line_get(&self.packer.line_map, self.line_height) {
            Some(slot) => slot.0.y,
            None => 0,
        }
    }

    /// Places a glyph `char_width` wide in the line; when it does not fit, the line
    /// moves to a new row below everything placed so far.
    pub fn allocate(&mut self, char_width: usize) -> (r: Point2)
        requires
            old(self).packer.wf(),
            old(self).packer.lines().contains_key(old(self).line_height),
            old(self).packer.lines()[old(self).line_height].0.x + char_width <= usize::MAX,
            old(self).packer.lines()[old(self).line_height].1 < usize::MAX,
            old(self).packer.bottom() + old(self).line_height <= usize::MAX,
        ensures
            final(self).packer.wf(),
            final(self).line_height == old(self).line_height,
            final(self).tex_width == old(self).tex_width,
            final(self).packer.atlas_width() == old(self).packer.atlas_width(),
            final(self).packer.atlas_height() == old(self).packer.atlas_height(),
            *final(final(self).packer) == *final(old(self).packer),
            ({
                let lh = old(self).line_height;
                let slot = old(self).packer.lines()[lh];
                let (p, slot2, v2) = spec_place(slot, old(self).packer.bottom() as int, old(self).tex_width, char_width, lh);
                let rect = (p.x as int, p.y as int, char_width as int, lh as int);
                &&& r == p
                &&& final(self).packer.lines() == old(self).packer.lines().insert(lh, slot2)
                &&& final(self).packer.bottom() == v2
                &&& final(self).packer.placed() == old(self).packer.placed().push(rect)
                &&& forall|i: int|
                    0 <= i < old(self).packer.placed().len() ==> disjoint(#[trigger] old(self).packer.placed()[i], rect)
            }),
    {
        let lh = self.line_height;
        let slot = match line_get(&self.packer.line_map, lh) {
            Some(s) => s,
            None => (Point2::new(0, 0), 0),
        };
        let ghost placed = self.packer.placed@;
        let ghost lines = self.packer.line_map@;
        let ghost last_v = self.packer.last_v;
        if self.tex_width >= slot.0.x + char_width {
            let r = slot.0;
            line_insert(&mut self.packer.line_map, lh, (Point2::new(slot.0.x + char_width, slot.0.y), slot.1 + 1));
            let ghost rect = (r.x as int, r.y as int, char_width as int, lh as int);
            self.packer.placed = Ghost(placed.push(rect));
            r
        } else {
            let y = self.packer.last_v;
            line_insert(&mut self.packer.line_map, lh, (Point2::new(char_width, y), 1));
            self.packer.last_v = y + lh;
            let ghost rect = (0int, y as int, char_width as int, lh as int);
            self.packer.placed = Ghost(placed.push(rect));
            Point2::new(0, y)
        }
    }
}

/// The line heights of glyphs up to 255 pixels high.
proof fn lemma_small_line_heights(h: int)
    requires
        0 <= h <= 255,
    ensures
        ({
            let lh = spec_line_height(h);
            ||| lh == 42
            ||| lh == 74 && spec_line_height(74) == 74
            ||| lh == 106 && spec_line_height(106) == 106
            ||| lh == 138 && spec_line_height(138) == 138
            ||| lh == 170 && spec_line_height(170) == 170
            ||| lh == 202 && spec_line_height(202) == 202
            ||| lh == 234 && spec_line_height(234) == 234
            ||| lh == 266 && spec_line_height(266) == 266
        }),
{
    assert(spec_line_height(74) == 74);
    assert(spec_line_height(106) == 106);
    assert(spec_line_height(138) == 138);
    assert(spec_line_height(170) == 170);
    assert(spec_line_height(202) == 202);
    assert(spec_line_height(234) == 234);
    assert(spec_line_height(266) == 266);
}

/// Law: a line is at least 42 pixels high, and above 42 it is the least height
/// of the form 42 plus a multiple of 32 that holds the glyphs.
pub proof fn lemma_line_height(h: int)
    requires
        0 <= h,
    ensures
        spec_line_height(h) >= h,
        spec_line_height(h) >= 42,
        (spec_line_height(h) - 42) % 32 == 0,
        h > 42 ==> spec_line_height(h) < h + 32,
{
    if h > 42 {
        assert((h - 42 + 31) / 32 * 32 >= h - 42) by (nonlinear_arith)
            requires
                h > 42,
        ;
        assert(((h - 42 + 31) / 32 * 32) % 32 == 0) by (nonlinear_arith);
    }
}

/// Law: on a packer with nothing placed (new or cleared), a glyph no wider than
/// the atlas whose line fits the atlas height is placed at the origin, and is
/// handed out.
pub proof fn lemma_first_glyph_at_origin(atlas_width: usize, atlas_height: usize, w: usize, h: usize)
    requires
        w <= atlas_width,
        spec_line_height(h as int) <= atlas_height,
    ensures
        ({
            let lh = spec_line_height(h as int) as usize;
            let (slot, v1) = spec_open_line(Map::<usize, LineSlot>::empty(), 0, lh);
            let (p, slot2, v2) = spec_place(slot, v1, atlas_width, w, lh);
            &&& p == Point2 { x: 0, y: 0 }
            &&& v2 == lh
            &&& v2 <= atlas_height
        }),
{
}

/// Law: once the bottom is below the atlas, it stays there: a further placement
/// only moves it down, so `allocate` keeps answering `None` until `clear`.
pub proof fn lemma_full_stays_full(
    lines: Map<usize, LineSlot>,
    last_v: int,
    atlas_width: usize,
    atlas_height: usize,
    w: usize,
    h: usize,
)
    requires
        last_v > atlas_height,
    ensures
        ({
            let lh = spec_line_height(h as int) as usize;
            let (slot, v1) = spec_open_line(lines, last_v, lh);
            let (p, slot2, v2) = spec_place(slot, v1, atlas_width, w, lh);
            v2 >= last_v && v2 > atlas_height
        }),
{
}

/// Law: the rectangles placed since the packer was made or last cleared never
/// overlap one another.
pub proof fn lemma_placed_disjoint(p: TextPacker)
    requires
        p.wf(),
    ensures
        forall|i: int, j: int|
            0 <= i < p.placed().len() && 0 <= j < p.placed().len() && i != j ==> disjoint(
                #[trigger] p.placed()[i],
                #[trigger] p.placed()[j],
            ),
{
    assert forall|i: int, j: int|
        0 <= i < p.placed().len() && 0 <= j < p.placed().len() && i != j implies disjoint(
            #[trigger] p.placed()[i],
            #[trigger] p.placed()[j],
        ) by {
        if i < j {
            assert(disjoint(p.placed()[i], p.placed()[j]));
        } else {
            assert(disjoint(p.placed()[j], p.placed()[i]));
        }
    }
}

} // verus!
