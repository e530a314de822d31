use vstd::prelude::*;
use crate::color::Color;

verus! {

/// Row-major position of pixel `(x, y)` in a buffer `width` pixels wide.
pub open spec fn pixel_index(width: u32, x: u32, y: u32) -> int {
    y as int * width as int + x as int
}

/// Whether `(x, y)` names a pixel of a `width` by `height` buffer.
pub open spec fn in_bounds(width: u32, height: u32, x: int, y: int) -> bool {
    0 <= x < width as int && 0 <= y < height as int
}

/// `pixels` after painting the signed position `(x, y)` with `c`; positions
/// outside the `width` by `height` buffer leave it as it was.
pub open spec fn paint(pixels: Seq<Color>, width: u32, height: u32, x: i32, y: i32, c: Color) -> Seq<
    Color,
> {
    if in_bounds(width, height, x as int, y as int) {
        pixels.update(y as int * width as int + x as int, c)
    } else {
        pixels
    }
}

/// `pixels` after painting each write in turn, so that the last write to a
/// pixel decides its color.
pub open spec fn paint_all(
    pixels: Seq<Color>,
    width: u32,
    height: u32,
    writes: Seq<(i32, i32, Color)>,
) -> Seq<Color>
    decreases writes.len(),
{
    if writes.len() == 0 {
        pixels
    } else {
        let w = writes.last();
        paint(paint_all(pixels, width, height, writes.drop_last()), width, height, w.0, w.1, w.2)
    }
}

/// Whether some write in `writes` lands, inside the buffer, on the pixel at
/// row-major position `i`.
pub open spec fn hit_by(width: u32, height: u32, writes: Seq<(i32, i32, Color)>, i: int) -> bool {
    exists|k: int|
        0 <= k < writes.len() && in_bounds(width, height, writes[k].0 as int, writes[k].1 as int)
            && writes[k].1 as int * width as int + writes[k].0 as int == i
}

/// Painting any sequence of writes keeps the buffer's size, and every pixel
/// that changes is one that some write inside the buffer landed on: nothing
/// is ever drawn outside the buffer's bounds.
pub proof fn lemma_writes_stay_in_bounds(
    pixels: Seq<Color>,
    width: u32,
    height: u32,
    writes: Seq<(i32, i32, Color)>,
)
    requires
        pixels.len() == width as int * height as int,
    ensures
        paint_all(pixels, width, height, writes).len() == pixels.len(),
        forall|i: int|
            0 <= i < pixels.len() && #[trigger] paint_all(pixels, width, height, writes)[i]
                != pixels[i] ==> hit_by(width, height, writes, i),
    decreases writes.len(),
{
    if writes.len() > 0 {
        let prefix = writes.drop_last();
        lemma_writes_stay_in_bounds(pixels, width, height, prefix);
        let k = writes.len() - 1;
        let w = writes[k];
        let before = paint_all(pixels, width, height, prefix);
        assert(writes.last() == w);
        if in_bounds(width, height, w.0 as int, w.1 as int) {
            lemma_in_bounds_index(width, height, w.0 as int, w.1 as int);
        }
        assert forall|i: int|
            0 <= i < pixels.len() && #[trigger] paint_all(pixels, width, height, writes)[i]
                != pixels[i] implies hit_by(width, height, writes, i) by {
            if before[i] != pixels[i] {
                let j = choose|j: int|
                    0 <= j < prefix.len() && in_bounds(
                        width,
                        height,
                        prefix[j].0 as int,
                        prefix[j].1 as int,
                    ) && prefix[j].1 as int * width as int + prefix[j].0 as int == i;
                assert(writes[j] == prefix[j]);
            } else {
                assert(in_bounds(width, height, writes[k].0 as int, writes[k].1 as int)
                    && writes[k].1 as int * width as int + writes[k].0 as int == i);
            }
        }
    }
}

/// Whichever write comes last decides the color of the pixel it lands on,
/// whatever was written there before.
pub proof fn lemma_last_write_wins(
    pixels: Seq<Color>,
    width: u32,
    height: u32,
    writes: Seq<(i32, i32, Color)>,
)
    requires
        pixels.len() == width as int * height as int,
        writes.len() > 0,
        in_bounds(width, height, writes.last().0 as int, writes.last().1 as int),
    ensures
        paint_all(pixels, width, height, writes)[writes.last().1 as int * width as int
            + writes.last().0 as int] == writes.last().2,
{
    let w = writes.last();
    lemma_writes_stay_in_bounds(pixels, width, height, writes.drop_last());
    lemma_in_bounds_index(width, height, w.0 as int, w.1 as int);
}

/// A CPU-side grid of colors, stored row by row, that the pipeline writes
/// pixels into; presenting it to a display is left to the caller.
pub struct Framebuffer {
    pub pixels: Vec<Color>,
    pub width: u32,
    pub height: u32,
    pub current_color: Color,
    pub background_color: Color,
}

impl Framebuffer {
    /// The buffer holds exactly one color per pixel.
    pub open spec fn wf(&self) -> bool {
        &&& self.pixels@.len() == self.width as int * self.height as int
        &&& self.width as int * self.height as int <= u32::MAX as int
    }

    /// The color at `(x, y)`, black outside the buffer.
    pub open spec fn color_at(&self, x: int, y: int) -> Color {
        if in_bounds(self.width, self.height, x, y) {
            self.pixels@[y * self.width as int + x]
        } else {
            Color::spec_black()
        }
    }

    /// A `width` by `height` buffer, all black, drawing in white on black.
    pub fn new(width: u32, height: u32) -> (fb: Framebuffer)
        requires
            width as int * height as int <= u32::MAX as int,
        ensures
            fb.wf(),
            fb.width == width,
            fb.height == height,
            forall|i: int| 0 <= i < fb.pixels@.len() ==> fb.pixels@[i] == Color::black(),
            fb.current_color == Color::white(),
            fb.background_color == Color::black(),
    {
        let total: usize = (width as usize) * (height as usize);
        let black = Color::black();
        let mut pixels: Vec<Color> = Vec::with_capacity(total);
        let mut i: usize = 0;
        while i < total
            invariant
                i <= total,
                pixels@.len() == i,
                forall|k: int| 0 <= k < i ==> pixels@[k] == black,
            decreases total - i,
        {
            pixels.push(black);
            i = i + 1;
        }
        Framebuffer {
            pixels,
            width,
            height,
            current_color: Color::white(),
            background_color: black,
        }
    }

    /// Fills every pixel with the background color.
    pub fn clear(&mut self)
        requires
            old(self).wf(),
        ensures
            final(self).wf(),
            final(self).width == old(self).width,
            final(self).height == old(self).height,
            final(self).current_color == old(self).current_color,
            final(self).background_color == old(self).background_color,
            final(self).pixels@.len() == old(self).pixels@.len(),
            forall|i: int|
                0 <= i < final(self).pixels@.len() ==> final(self).pixels@[i]
                    == old(self).background_color,
    {
        let n = self.pixels.len();
        let bg = self.background_color;
        let mut i: usize = 0;
        while i < n
            invariant
                i <= n,
                n == self.pixels@.len(),
                self.width == old(self).width,
                self.height == old(self).height,
                self.current_color == old(self).current_color,
                self.background_color == bg,
                bg == old(self).background_color,
                self.wf(),
                forall|k: int| 0 <= k < i ==> self.pixels@[k] == bg,
            decreases n - i,
        {
            self.pixels[i] = bg;
            i = i + 1;
        }
    }

    pub fn set_background_color(&mut self, color: Color)
        ensures
            *final(self) == (Framebuffer { background_color: color, ..*old(self) }),
    {
        self.background_color = color;
    }

    pub fn set_current_color(&mut self, color: Color)
        ensures
            *final(self) == (Framebuffer { current_color: color, ..*old(self) }),
    {
        self.current_color = color;
    }

    /// Paints `(x, y)` with `color`; a pixel outside the buffer is ignored.
    pub fn set_pixel_color(&mut self, x: u32, y: u32, color: Color)
        requires
            old(self).wf(),
        ensures
            final(self).wf(),
            final(self).width == old(self).width,
            final(self).height == old(self).height,
            final(self).current_color == old(self).current_color,
            final(self).background_color == old(self).background_color,
            in_bounds(old(self).width, old(self).height, x as int, y as int)
                ==> final(self).pixels@ == old(self).pixels@.update(
                pixel_index(old(self).width, x, y),
                color,
            ),
            !in_bounds(old(self).width, old(self).height, x as int, y as int)
                ==> final(self).pixels@ == old(self).pixels@,
    {
        if x < self.width && y < self.height {
            proof {
                lemma_index_in_range(self.width, self.height, x, y);
            }
            let index: usize = (y as usize) * (self.width as usize) + (x as usize);
            self.pixels.set(index, color);
        }
    }

    /// Paints `(x, y)` with the current color; a pixel outside the buffer is
    /// ignored.
    pub fn set_pixel(&mut self, x: u32, y: u32)
        requires
            old(self).wf(),
        ensures
            final(self).wf(),
            final(self).width == old(self).width,
            final(self).height == old(self).height,
            final(self).current_color == old(self).current_color,
            final(self).background_color == old(self).background_color,
            in_bounds(old(self).width, old(self).height, x as int, y as int)
                ==> final(self).pixels@ == old(self).pixels@.update(
                pixel_index(old(self).width, x, y),
                old(self).current_color,
            ),
            !in_bounds(old(self).width, old(self).height, x as int, y as int)
                ==> final(self).pixels@ == old(self).pixels@,
    {
        let color = self.current_color;
        self.set_pixel_color(x, y, color);
    }

    /// The color at `(x, y)`, or black for a pixel outside the buffer.
    pub fn get_pixel(&self, x: u32, y: u32) -> (c: Color)
        requires
            self.wf(),
        ensures
            c == self.color_at(x as int, y as int),
    {
        if x < self.width && y < self.height {
            proof {
                lemma_index_in_range(self.width, self.height, x, y);
            }
            let index: usize = (y as usize) * (self.width as usize) + (x as usize);
            self.pixels[index]
        } else {
            Color::black()
        }
    }

    /// Paints the signed pixel position `(x, y)` with `color`; positions
    /// outside the buffer, negative ones included, leave it unchanged.
    pub fn point(&mut self, x: i32, y: i32, color: Color)
        requires
            old(self).wf(),
        ensures
            final(self).wf(),
            final(self).width == old(self).width,
            final(self).height == old(self).height,
            final(self).current_color == old(self).current_color,
            final(self).background_color == old(self).background_color,
            in_bounds(old(self).width, old(self).height, x as int, y as int)
                ==> final(self).pixels@ == old(self).pixels@.update(
                y as int * old(self).width as int + x as int,
                color,
            ),
            !in_bounds(old(self).width, old(self).height, x as int, y as int)
                ==> final(self).pixels@ == old(self).pixels@,
    {
        if x >= 0 && (x as u32) < self.width && y >= 0 && (y as u32) < self.height {
            self.set_pixel_color(x as u32, y as u32, color);
        }
    }

    /// Paints each `(x, y, color)` of `writes` in order with `point`: the
    /// last write to a pixel decides its color, and writes outside the buffer
    /// are ignored.
    pub fn draw_points(&mut self, writes: &Vec<(i32, i32, Color)>)
        requires
            old(self).wf(),
        ensures
            final(self).wf(),
            final(self).width == old(self).width,
            final(self).height == old(self).height,
            final(self).current_color == old(self).current_color,
            final(self).background_color == old(self).background_color,
            final(self).pixels@ == paint_all(
                old(self).pixels@,
                old(self).width,
                old(self).height,
                writes@,
            ),
    {
        let mut k: usize = 0;
        while k < writes.len()
            invariant
                k <= writes@.len(),
                self.wf(),
                self.width == old(self).width,
                self.height == old(self).height,
                self.current_color == old(self).current_color,
                self.background_color == old(self).background_color,
                self.pixels@ == paint_all(
                    old(self).pixels@,
                    old(self).width,
                    old(self).height,
                    writes@.take(k as int),
                ),
            decreases writes@.len() - k,
        {
            let (x, y, c) = writes[k];
            assert(writes@.take(k + 1).drop_last() =~= writes@.take(k as int));
            self.point(x, y, c);
            k = k + 1;
        }
        assert(writes@.take(k as int) =~= writes@);
    }
}

proof fn lemma_in_bounds_index(width: u32, height: u32, x: int, y: int)
    requires
        in_bounds(width, height, x, y),
    ensures
        0 <= y * width as int + x < width as int * height as int,
{
    assert(0 <= y * (width as int) + x < (width as int) * (height as int)) by (nonlinear_arith)
        requires
            0 <= x < width as int,
            0 <= y < height as int,
    ;
}

proof fn lemma_index_in_range(width: u32, height: u32, x: u32, y: u32)
    requires
        x < width,
        y < height,
        width as int * height as int <= u32::MAX as int,
    ensures
        0 <= pixel_index(width, x, y) < width as int * height as int,
{
    assert((y as int) * (width as int) + (x as int) < (width as int) * (height as int)) by (nonlinear_arith)
        requires
            (x as int) < (width as int),
            (y as int) < (height as int),
    ;
}

} // verus!
