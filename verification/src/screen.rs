//! A rectangular buffer of glyphs, stored row by row.

use vstd::prelude::*;

verus! {

/// `width` by `height` glyphs; the glyph of cell `(x, y)` stands at
/// `y * width + x`.
pub struct ScreenBuffer {
    pub chars: Vec<u8>,
    pub width: u32,
    pub height: u32,
}

impl ScreenBuffer {
    /// The buffer holds one glyph for each cell.
    pub open spec fn wf(&self) -> bool {
        self.chars@.len() == self.width * self.height
    }

    /// Where the glyph of cell `(x, y)` stands in `chars`.
    pub open spec fn offset(&self, x: int, y: int) -> int {
        y * self.width + x
    }

    /// The glyph of cell `(x, y)`.
    pub open spec fn glyph(&self, x: u32, y: u32) -> u8 {
        self.chars@[self.offset(x as int, y as int)]
    }

    /// The cell `(x, y)` is on the screen.
    pub open spec fn has_cell(&self, x: u32, y: u32) -> bool {
        x < self.width && y < self.height
    }

    /// Same width and height.
    pub open spec fn same_size(&self, other: &ScreenBuffer) -> bool {
        self.width == other.width && self.height == other.height
    }

    /// A buffer of `width` by `height` cells, all of them blank.
    pub fn new(width: u32, height: u32) -> (r: ScreenBuffer)
        requires
            width * height <= usize::MAX,
        ensures
            r.wf(),
            r.width == width,
            r.height == height,
            r.chars@ == Seq::new((width * height) as nat, |i: int| 0u8),
    {
        let n: usize = width as usize * height as usize;
        let chars: Vec<u8> = vec![0u8; n];
        assert(chars@ =~= Seq::new((width * height) as nat, |i: int| 0u8));
        ScreenBuffer { chars, width, height }
    }

    /// The place of cell `(x, y)` in `chars`.
    pub fn index(&self, x: u32, y: u32) -> (r: usize)
        requires
            self.wf(),
            x < self.width,
            y < self.height,
        ensures
            r == self.offset(x as int, y as int),
            r < self.chars@.len(),
    {
        let total: usize = self.chars.len();
        proof {
            lemma_offset_in_range(self.width as int, self.height as int, x as int, y as int);
        }
        y as usize * self.width as usize + x as usize
    }

    /// Blanks every cell.
    pub fn clear(&mut self)
        ensures
            final(self).same_size(old(self)),
            final(self).chars@ == Seq::new(old(self).chars@.len(), |i: int| 0u8),
    {
        let n: usize = self.chars.len();
        let mut i: usize = 0;
        while i < n
            invariant
                i <= n,
                n == self.chars@.len(),
                n == old(self).chars@.len(),
                self.same_size(old(self)),
                forall|j: int| 0 <= j < i ==> self.chars@[j] == 0u8,
            decreases n - i,
        {
            self.chars.set(i, 0u8);
            i = i + 1;
        }
        assert(self.chars@ =~= Seq::new(old(self).chars@.len(), |i: int| 0u8));
    }
}

/// Writes the glyphs of `s` into the buffer, from cell `(x, y)` on along
/// the rows. The text has to end within the buffer.
pub fn print(buf: &mut ScreenBuffer, x: u32, y: u32, s: &[u8])
    requires
        old(buf).wf(),
        x < old(buf).width,
        y < old(buf).height,
        old(buf).offset(x as int, y as int) + s@.len() <= old(buf).chars@.len(),
    ensures
        final(buf).wf(),
        final(buf).same_size(old(buf)),
        final(buf).chars@ == old(buf).chars@.subrange(0, old(buf).offset(x as int, y as int)) + s@
            + old(buf).chars@.subrange(
            old(buf).offset(x as int, y as int) + s@.len(),
            old(buf).chars@.len() as int,
        ),
{
    let index: usize = buf.index(x, y);
    let len: usize = s.len();
    let total: usize = buf.chars.len();
    let mut i: usize = 0;
    while i < len
        invariant
            i <= len,
            total == old(buf).chars@.len(),
            len == s@.len(),
            index == old(buf).offset(x as int, y as int),
            index + len <= old(buf).chars@.len(),
            buf.same_size(old(buf)),
            buf.chars@.len() == old(buf).chars@.len(),
            buf.chars@ == old(buf).chars@.subrange(0, index as int) + s@.subrange(0, i as int)
                + old(buf).chars@.subrange(index + i, old(buf).chars@.len() as int),
        decreases len - i,
    {
        buf.chars.set(index + i, s[i]);
        i = i + 1;
        assert(buf.chars@ =~= old(buf).chars@.subrange(0, index as int) + s@.subrange(0, i as int)
            + old(buf).chars@.subrange(index + i, old(buf).chars@.len() as int));
    }
}

/// Writes the one glyph of `g` into cell `(x, y)`; every other cell keeps its glyph.
pub fn plot(buf: &mut ScreenBuffer, x: u32, y: u32, g: &[u8])
    requires
        old(buf).wf(),
        old(buf).has_cell(x, y),
        g@.len() == 1,
    ensures
        final(buf).wf(),
        final(buf).same_size(old(buf)),
        forall|cx: u32, cy: u32|
            old(buf).has_cell(cx, cy) ==> #[trigger] final(buf).glyph(cx, cy) == if cx == x && cy
                == y {
                g@[0]
            } else {
                old(buf).glyph(cx, cy)
            },
{
    proof {
        lemma_offset_in_range(buf.width as int, buf.height as int, x as int, y as int);
    }
    print(buf, x, y, g);
    proof {
        let w = buf.width as int;
        let at = old(buf).offset(x as int, y as int);
        assert(buf.chars@ =~= old(buf).chars@.update(at, g@[0]));
        assert forall|cx: u32, cy: u32| old(buf).has_cell(cx, cy) implies #[trigger] buf.glyph(
            cx,
            cy,
        ) == if cx == x && cy == y {
            g@[0]
        } else {
            old(buf).glyph(cx, cy)
        } by {
            lemma_offset_in_range(w, buf.height as int, cx as int, cy as int);
            if cy * w + cx == y * w + x {
                lemma_offset_injective(w, x as int, y as int, cx as int, cy as int);
            }
        }
    }
}

/// The place of a cell of the screen lies within the buffer.
pub proof fn lemma_offset_in_range(w: int, h: int, x: int, y: int)
    requires
        0 <= x < w,
        0 <= y < h,
    ensures
        0 <= y * w + x < w * h,
        0 <= y * w,
{
    assert(y * w >= 0) by (nonlinear_arith)
        requires
            y >= 0,
            w >= 0,
    ;
    assert((y + 1) * w <= h * w) by (nonlinear_arith)
        requires
            y + 1 <= h,
            w >= 0,
    ;
    assert((y + 1) * w == y * w + w) by (nonlinear_arith);
    assert(h * w == w * h) by (nonlinear_arith);
}

/// Two cells of the screen that stand at the same place are the same cell.
pub proof fn lemma_offset_injective(w: int, x1: int, y1: int, x2: int, y2: int)
    requires
        0 <= x1 < w,
        0 <= x2 < w,
        0 <= y1,
        0 <= y2,
        y1 * w + x1 == y2 * w + x2,
    ensures
        x1 == x2,
        y1 == y2,
{
    if y1 < y2 {
        assert((y1 + 1) * w <= y2 * w) by (nonlinear_arith)
            requires
                y1 + 1 <= y2,
                w >= 0,
        ;
        assert((y1 + 1) * w == y1 * w + w) by (nonlinear_arith);
    }
    if y2 < y1 {
        assert((y2 + 1) * w <= y1 * w) by (nonlinear_arith)
            requires
                y2 + 1 <= y1,
                w >= 0,
        ;
        assert((y2 + 1) * w == y2 * w + w) by (nonlinear_arith);
    }
}

} // verus!
