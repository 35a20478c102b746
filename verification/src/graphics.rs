use crate::text::{chars_of, code_of};
use vstd::prelude::*;

verus! {

/// A colour: red, green and blue.
#[derive(Clone, Copy, Debug, PartialEq, Eq, Structural)]
pub struct Color(pub u8, pub u8, pub u8);

impl Color {
    /// Black.
    pub fn black() -> (c: Self)
        ensures
            c == Color(0, 0, 0),
    {
        Color(0, 0, 0)
    }

    /// White.
    pub fn white() -> (c: Self)
        ensures
            c == Color(255, 255, 255),
    {
        Color(255, 255, 255)
    }

    /// The background of a title bar.
    pub fn title_bg() -> (c: Self)
        ensures
            c == Color(50, 52, 56),
    {
        Color(50, 52, 56)
    }

    /// The text of a title bar.
    pub fn title_fg() -> (c: Self)
        ensures
            c == Color(230, 230, 230),
    {
        Color(230, 230, 230)
    }

    /// The background of a window.
    pub fn win_bg() -> (c: Self)
        ensures
            c == Color(36, 38, 40),
    {
        Color(36, 38, 40)
    }

    /// The border of a window.
    pub fn win_border() -> (c: Self)
        ensures
            c == Color(85, 85, 90),
    {
        Color(85, 85, 90)
    }

    /// The red of the close button.
    pub fn red() -> (c: Self)
        ensures
            c == Color(232, 84, 68),
    {
        Color(232, 84, 68)
    }

    /// The yellow of the minimize button.
    pub fn yellow() -> (c: Self)
        ensures
            c == Color(240, 194, 67),
    {
        Color(240, 194, 67)
    }

    /// The green of the maximize button.
    pub fn green() -> (c: Self)
        ensures
            c == Color(77, 198, 94),
    {
        Color(77, 198, 94)
    }

    /// The colour with the given red, green and blue.
    pub fn rgb(r: u8, g: u8, b: u8) -> (c: Self)
        ensures
            c == Color(r, g, b),
    {
        Color(r, g, b)
    }
}

/// The frame buffer: the size of the screen in pixels, the distance in bytes
/// from one row to the next, the bits of a pixel, and the bytes themselves.
pub struct Fb {
    pub width: usize,
    pub height: usize,
    pub stride: usize,
    pub bpp: usize,
    pub buf: Vec<u8>,
}

/// What the frame buffer holds, as plain values.
pub struct FbView {
    pub width: usize,
    pub height: usize,
    pub stride: usize,
    pub bpp: usize,
    pub buf: Seq<u8>,
}

impl View for Fb {
    type V = FbView;

    open spec fn view(&self) -> FbView {
        FbView { width: self.width, height: self.height, stride: self.stride, bpp: self.bpp, buf: self.buf@ }
    }
}

/// Greatest coordinate that the drawing routines on wide integers take.
pub const WIDE_LIMIT: i128 = 0x400_0000_0000_0000_0000_0000;

/// One pixel to paint: where, and in which colour.
pub struct Dot {
    pub x: int,
    pub y: int,
    pub c: Color,
}

impl FbView {
    /// A pixel has three or four bytes, a row holds the pixels of its width,
    /// and the buffer holds the rows of the screen's height.
    pub open spec fn wf(self) -> bool {
        &&& self.bpp == 24 || self.bpp == 32
        &&& self.width * (self.bpp / 8) <= self.stride
        &&& self.height * self.stride <= self.buf.len()
    }

    /// Where the bytes of the pixel at `(x, y)` begin.
    pub open spec fn offset(self, x: int, y: int) -> int {
        y * self.stride + x * (self.bpp as int / 8)
    }

    /// The frame buffer after the pixel at `(x, y)` was painted: blue, green
    /// and red are stored in this order, and a fourth byte, where a pixel has
    /// one, is set to 255. A pixel off the screen changes nothing.
    pub open spec fn plot(self, x: int, y: int, c: Color) -> FbView {
        if 0 <= x < self.width && 0 <= y < self.height {
            let i = self.offset(x, y);
            let three = self.buf.update(i, c.2).update(i + 1, c.1).update(i + 2, c.0);
            FbView { buf: if self.bpp == 32 { three.update(i + 3, 0xFF) } else { three }, ..self }
        } else {
            self
        }
    }

    /// The frame buffer after the dots were painted, in their order.
    pub open spec fn draw(self, dots: Seq<Dot>) -> FbView
        decreases dots.len(),
    {
        if dots.len() == 0 {
            self
        } else {
            self.draw(dots.drop_last()).plot(dots.last().x, dots.last().y, dots.last().c)
        }
    }
}

/// `n` dots of one colour in a row, from `(x, y)` to the right.
pub open spec fn run(x: int, y: int, n: nat, c: Color) -> Seq<Dot> {
    Seq::new(n, |k: int| Dot { x: x + k, y, c })
}

/// `n` dots of one colour in a column, from `(x, y)` downwards.
pub open spec fn column(x: int, y: int, n: nat, c: Color) -> Seq<Dot> {
    Seq::new(n, |k: int| Dot { x, y: y + k, c })
}

/// `h` rows of `w` dots of one colour, from `(x, y)` on, row after row.
pub open spec fn block(x: int, y: int, w: nat, h: nat, c: Color) -> Seq<Dot>
    decreases h,
{
    if h == 0 {
        Seq::empty()
    } else {
        block(x, y, w, (h - 1) as nat, c) + run(x, y + h - 1, w, c)
    }
}

/// The part of a length `len` from `at` on that lies below `limit`.
pub open spec fn clipped(at: int, len: int, limit: int) -> nat {
    if at >= limit {
        0
    } else if len <= limit - at {
        len as nat
    } else {
        (limit - at) as nat
    }
}

/// The outline of a rectangle: its top and bottom rows, then its left and right columns.
pub open spec fn outline(x: int, y: int, w: nat, h: nat, c: Color) -> Seq<Dot> {
    run(x, y, w, c) + run(x, y + (if h > 0 { h - 1 } else { 0 }), w, c) + column(x, y, h, c) + column(
        x + (if w > 0 { w - 1 } else { 0 }),
        y,
        h,
        c,
    )
}

/// Painting keeps the frame buffer's shape.
pub proof fn lemma_plot_wf(fb: FbView, x: int, y: int, c: Color)
    requires
        fb.wf(),
    ensures
        fb.plot(x, y, c).wf(),
        fb.plot(x, y, c).width == fb.width,
        fb.plot(x, y, c).height == fb.height,
        fb.plot(x, y, c).stride == fb.stride,
        fb.plot(x, y, c).bpp == fb.bpp,
        fb.plot(x, y, c).buf.len() == fb.buf.len(),
        0 <= x < fb.width && 0 <= y < fb.height ==> 0 <= fb.offset(x, y) && fb.offset(x, y) + fb.bpp / 8 <= fb.buf.len(),
{
    if 0 <= x < fb.width && 0 <= y < fb.height {
        let bytes = fb.bpp as int / 8;
        assert(x * bytes + bytes <= fb.width * bytes) by (nonlinear_arith)
            requires
                0 <= x < fb.width,
                bytes > 0,
        ;
        assert(y * fb.stride + fb.stride <= fb.height * fb.stride) by (nonlinear_arith)
            requires
                0 <= y < fb.height,
                fb.stride >= 0,
        ;
        assert(0 <= y * fb.stride) by (nonlinear_arith)
            requires
                0 <= y,
                fb.stride >= 0,
        ;
        assert(0 <= x * bytes) by (nonlinear_arith)
            requires
                0 <= x,
                bytes > 0,
        ;
    }
}

/// Painting dots keeps the frame buffer's shape.
pub proof fn lemma_draw_wf(fb: FbView, dots: Seq<Dot>)
    requires
        fb.wf(),
    ensures
        fb.draw(dots).wf(),
        fb.draw(dots).width == fb.width,
        fb.draw(dots).height == fb.height,
        fb.draw(dots).stride == fb.stride,
        fb.draw(dots).bpp == fb.bpp,
        fb.draw(dots).buf.len() == fb.buf.len(),
    decreases dots.len(),
{
    if dots.len() > 0 {
        lemma_draw_wf(fb, dots.drop_last());
        lemma_plot_wf(fb.draw(dots.drop_last()), dots.last().x, dots.last().y, dots.last().c);
    }
}

/// Painting two lists of dots one after the other is painting the joined list.
pub proof fn lemma_draw_concat(fb: FbView, a: Seq<Dot>, b: Seq<Dot>)
    ensures
        fb.draw(a + b) == fb.draw(a).draw(b),
    decreases b.len(),
{
    if b.len() == 0 {
        assert(a + b =~= a);
    } else {
        lemma_draw_concat(fb, a, b.drop_last());
        assert((a + b).drop_last() =~= a + b.drop_last());
        assert((a + b).last() == b.last());
    }
}

/// Painting one more dot after a list.
pub proof fn lemma_draw_push(fb: FbView, a: Seq<Dot>, d: Dot)
    ensures
        fb.draw(a.push(d)) == fb.draw(a).plot(d.x, d.y, d.c),
{
    assert(a.push(d).drop_last() =~= a);
}

/// Sets up the frame buffer from what the boot environment reports; `None`
/// where a pixel has neither three nor four bytes, or the buffer is too
/// small for the rows of the screen.
pub fn init(width: usize, height: usize, stride: usize, bytes_per_pixel: usize, buf: Vec<u8>) -> (fb: Option<Fb>)
    ensures
        fb is Some <==> (FbView { width, height, stride, bpp: (bytes_per_pixel * 8) as usize, buf: buf@ }).wf() && (
        bytes_per_pixel == 3 || bytes_per_pixel == 4),
        fb is Some ==> fb->0@ == (FbView { width, height, stride, bpp: (bytes_per_pixel * 8) as usize, buf: buf@ }),
{
    if bytes_per_pixel != 3 && bytes_per_pixel != 4 {
        return None;
    }
    let bpp = bytes_per_pixel * 8;
    let row = match width.checked_mul(bytes_per_pixel) {
        Some(r) => r,
        None => {
            return None;
        },
    };
    if row > stride {
        return None;
    }
    let total = match height.checked_mul(stride) {
        Some(t) => t,
        None => {
            let _held = buf.len();
            return None;
        },
    };
    if total > buf.len() {
        return None;
    }
    Some(Fb { width, height, stride, bpp, buf })
}

impl Fb {
    /// Where the bytes of the pixel at `(x, y)` begin.
    pub fn idx(&self, x: usize, y: usize) -> (i: usize)
        requires
            self@.wf(),
            x < self.width,
            y < self.height,
        ensures
            i == self@.offset(x as int, y as int),
            i + self.bpp / 8 <= self.buf@.len(),
    {
        let _len = self.buf.len();
        proof {
            lemma_plot_wf(self@, x as int, y as int, Color(0, 0, 0));
            assert(0 <= (y as int) * (self.stride as int)) by (nonlinear_arith)
                requires
                    0 <= y,
                    self.stride >= 0,
            ;
            assert(0 <= (x as int) * (self.bpp as int / 8)) by (nonlinear_arith)
                requires
                    0 <= x,
                    self.bpp as int / 8 >= 0,
            ;
        }
        y * self.stride + x * (self.bpp / 8)
    }
}

/// The width of the screen in pixels; zero without a frame buffer.
pub fn screen_width(fb: &Option<Fb>) -> (w: usize)
    ensures
        w == match *fb {
            Some(f) => f.width,
            None => 0,
        },
{
    match fb {
        Some(f) => f.width,
        None => 0,
    }
}

/// The height of the screen in pixels; zero without a frame buffer.
pub fn screen_height(fb: &Option<Fb>) -> (h: usize)
    ensures
        h == match *fb {
            Some(f) => f.height,
            None => 0,
        },
{
    match fb {
        Some(f) => f.height,
        None => 0,
    }
}

/// Paints the pixel at `(x, y)`; a pixel off the screen changes nothing.
pub fn put_pixel(fb: &mut Fb, x: usize, y: usize, c: Color)
    requires
        old(fb)@.wf(),
    ensures
        final(fb)@ == old(fb)@.plot(x as int, y as int, c),
        final(fb)@.wf(),
{
    proof {
        lemma_plot_wf(fb@, x as int, y as int, c);
    }
    if x >= fb.width || y >= fb.height {
        return ;
    }
    let i = fb.idx(x, y);
    let _len = fb.buf.len();
    fb.buf[i] = c.2;
    fb.buf[i + 1] = c.1;
    fb.buf[i + 2] = c.0;
    if fb.bpp == 32 {
        fb.buf[i + 3] = 0xFF;
    }
}

/// Paints the pixel at `(x, y)`, given as wide integers; a pixel off the
/// screen changes nothing.
pub fn plot_at(fb: &mut Fb, x: i128, y: i128, c: Color)
    requires
        old(fb)@.wf(),
    ensures
        final(fb)@ == old(fb)@.plot(x as int, y as int, c),
        final(fb)@.wf(),
{
    proof {
        lemma_plot_wf(fb@, x as int, y as int, c);
    }
    if 0 <= x && x < fb.width as i128 && 0 <= y && y < fb.height as i128 {
        put_pixel(fb, x as usize, y as usize, c);
    }
}

/// Paints `n` pixels in a row, from `(x, y)` to the right.
pub fn hline(fb: &mut Fb, x: i128, y: i128, n: usize, c: Color)
    requires
        old(fb)@.wf(),
        -0x4000_0000_0000_0000_0000_0000 <= x <= 0x4000_0000_0000_0000_0000_0000,
    ensures
        final(fb)@ == old(fb)@.draw(run(x as int, y as int, n as nat, c)),
        final(fb)@.wf(),
{
    let mut k: usize = 0;
    while k < n
        invariant
            k <= n,
            fb@.wf(),
            -0x4000_0000_0000_0000_0000_0000 <= x <= 0x4000_0000_0000_0000_0000_0000,
            fb@ == old(fb)@.draw(run(x as int, y as int, k as nat, c)),
        decreases n - k,
    {
        plot_at(fb, x + k as i128, y, c);
        proof {
            let d = Dot { x: x + k, y: y as int, c };
            assert(run(x as int, y as int, (k + 1) as nat, c) =~= run(x as int, y as int, k as nat, c).push(d));
            lemma_draw_push(old(fb)@, run(x as int, y as int, k as nat, c), d);
        }
        k += 1;
    }
}

/// Paints `n` pixels in a column, from `(x, y)` downwards.
pub fn vline(fb: &mut Fb, x: i128, y: i128, n: usize, c: Color)
    requires
        old(fb)@.wf(),
        -0x4000_0000_0000_0000_0000_0000 <= y <= 0x4000_0000_0000_0000_0000_0000,
    ensures
        final(fb)@ == old(fb)@.draw(column(x as int, y as int, n as nat, c)),
        final(fb)@.wf(),
{
    let mut k: usize = 0;
    while k < n
        invariant
            k <= n,
            fb@.wf(),
            -0x4000_0000_0000_0000_0000_0000 <= y <= 0x4000_0000_0000_0000_0000_0000,
            fb@ == old(fb)@.draw(column(x as int, y as int, k as nat, c)),
        decreases n - k,
    {
        plot_at(fb, x, y + k as i128, c);
        proof {
            let d = Dot { x: x as int, y: y + k, c };
            assert(column(x as int, y as int, (k + 1) as nat, c) =~= column(x as int, y as int, k as nat, c).push(d));
            lemma_draw_push(old(fb)@, column(x as int, y as int, k as nat, c), d);
        }
        k += 1;
    }
}

/// The part of a length `len` from `at` on that lies below `limit`.
pub fn clip(at: i128, len: usize, limit: usize) -> (n: usize)
    requires
        0 <= at,
    ensures
        n == clipped(at as int, len as int, limit as int),
{
    if at >= limit as i128 {
        0
    } else if len as i128 <= limit as i128 - at {
        len
    } else {
        (limit as i128 - at) as usize
    }
}

/// Fills the part on the screen of the rectangle of `w` by `h` pixels at
/// `(x, y)`, given as wide integers, row after row.
pub fn fill_block(fb: &mut Fb, x: i128, y: i128, w: usize, h: usize, c: Color)
    requires
        old(fb)@.wf(),
        0 <= x <= 0x4000_0000_0000_0000_0000_0000,
        0 <= y <= 0x4000_0000_0000_0000_0000_0000,
    ensures
        final(fb)@ == old(fb)@.draw(
            block(
                x as int,
                y as int,
                clipped(x as int, w as int, old(fb)@.width as int),
                clipped(y as int, h as int, old(fb)@.height as int),
                c,
            ),
        ),
        final(fb)@.wf(),
{
    let cw = clip(x, w, fb.width);
    let ch = clip(y, h, fb.height);
    let mut r: usize = 0;
    while r < ch
        invariant
            r <= ch,
            fb@.wf(),
            0 <= x <= 0x4000_0000_0000_0000_0000_0000,
            0 <= y <= 0x4000_0000_0000_0000_0000_0000,
            fb@ == old(fb)@.draw(block(x as int, y as int, cw as nat, r as nat, c)),
        decreases ch - r,
    {
        hline(fb, x, y + r as i128, cw, c);
        proof {
            lemma_draw_concat(
                old(fb)@,
                block(x as int, y as int, cw as nat, r as nat, c),
                run(x as int, y + r, cw as nat, c),
            );
        }
        r += 1;
    }
}

/// Fills the part on the screen of the rectangle of `w` by `h` pixels at `(x, y)`.
pub fn fill_rect(fb: &mut Fb, x: usize, y: usize, w: usize, h: usize, c: Color)
    requires
        old(fb)@.wf(),
    ensures
        final(fb)@ == old(fb)@.draw(
            block(
                x as int,
                y as int,
                clipped(x as int, w as int, old(fb)@.width as int),
                clipped(y as int, h as int, old(fb)@.height as int),
                c,
            ),
        ),
        final(fb)@.wf(),
{
    fill_block(fb, x as i128, y as i128, w, h, c);
}

/// Fills the whole screen.
pub fn clear_screen(fb: &mut Fb, color: Color)
    requires
        old(fb)@.wf(),
    ensures
        final(fb)@ == old(fb)@.draw(block(0, 0, old(fb)@.width as nat, old(fb)@.height as nat, color)),
        final(fb)@.wf(),
{
    let w = fb.width;
    let h = fb.height;
    fill_rect(fb, 0, 0, w, h, color);
}

/// Paints the outline of the rectangle of `w` by `h` pixels at `(x, y)`: its
/// top and bottom rows, then its left and right columns.
pub fn draw_rect(fb: &mut Fb, x: usize, y: usize, w: usize, h: usize, c: Color)
    requires
        old(fb)@.wf(),
    ensures
        final(fb)@ == old(fb)@.draw(outline(x as int, y as int, w as nat, h as nat, c)),
        final(fb)@.wf(),
{
    outline_wide(fb, x as i128, y as i128, w, h, c);
}

/// Paints the outline of the rectangle of `w` by `h` pixels at `(x, y)`,
/// given as wide integers.
pub fn outline_wide(fb: &mut Fb, x: i128, y: i128, w: usize, h: usize, c: Color)
    requires
        old(fb)@.wf(),
        0 <= x <= WIDE_LIMIT,
        0 <= y <= WIDE_LIMIT,
    ensures
        final(fb)@ == old(fb)@.draw(outline(x as int, y as int, w as nat, h as nat, c)),
        final(fb)@.wf(),
{
    let bottom: i128 = y + (if h > 0 { h - 1 } else { 0 }) as i128;
    let right: i128 = x + (if w > 0 { w - 1 } else { 0 }) as i128;
    let ghost a = run(x as int, y as int, w as nat, c);
    let ghost b = run(x as int, bottom as int, w as nat, c);
    let ghost l = column(x as int, y as int, h as nat, c);
    let ghost r = column(right as int, y as int, h as nat, c);
    hline(fb, x, y, w, c);
    hline(fb, x, bottom, w, c);
    vline(fb, x, y, h, c);
    vline(fb, right, y, h, c);
    proof {
        lemma_draw_concat(old(fb)@, a, b);
        lemma_draw_concat(old(fb)@, a + b, l);
        lemma_draw_concat(old(fb)@, a + b + l, r);
    }
}

/// The dots of one row of a disc of radius `r` around `(cx, cy)`: among the
/// first `n` columns from the left, those not farther than `r` from the centre.
pub open spec fn disc_row(cx: int, cy: int, r: int, dy: int, n: nat, c: Color) -> Seq<Dot>
    decreases n,
{
    if n == 0 {
        Seq::empty()
    } else {
        let dx = -r + n - 1;
        let before = disc_row(cx, cy, r, dy, (n - 1) as nat, c);
        if dx * dx + dy * dy <= r * r {
            before.push(Dot { x: cx + dx, y: cy + dy, c })
        } else {
            before
        }
    }
}

/// The dots of the first `m` rows of a disc of radius `r` around `(cx, cy)`, from the top.
pub open spec fn disc(cx: int, cy: int, r: int, m: nat, c: Color) -> Seq<Dot>
    decreases m,
{
    if m == 0 {
        Seq::empty()
    } else {
        disc(cx, cy, r, (m - 1) as nat, c) + disc_row(cx, cy, r, -r + m - 1, (2 * r + 1) as nat, c)
    }
}

/// Fills the disc of radius `r` around `(cx, cy)`, row after row; nothing
/// for a negative radius.
pub fn fill_circle(fb: &mut Fb, cx: isize, cy: isize, r: isize, c: Color)
    requires
        old(fb)@.wf(),
    ensures
        final(fb)@ == if r >= 0 {
            old(fb)@.draw(disc(cx as int, cy as int, r as int, (2 * r + 1) as nat, c))
        } else {
            old(fb)@
        },
        final(fb)@.wf(),
{
    disc_wide(fb, cx as i128, cy as i128, r as i128, c);
}

/// Fills the disc of radius `r` around `(cx, cy)`, given as wide integers.
pub fn disc_wide(fb: &mut Fb, cx: i128, cy: i128, r: i128, c: Color)
    requires
        old(fb)@.wf(),
        -WIDE_LIMIT <= cx <= WIDE_LIMIT,
        -WIDE_LIMIT <= cy <= WIDE_LIMIT,
        r <= 0x7FFF_FFFF_FFFF_FFFF,
    ensures
        final(fb)@ == if r >= 0 {
            old(fb)@.draw(disc(cx as int, cy as int, r as int, (2 * r + 1) as nat, c))
        } else {
            old(fb)@
        },
        final(fb)@.wf(),
{
    if r < 0 {
        return ;
    }
    let rr: i128 = r;
    proof {
        assert(0 <= rr * rr <= 0x3FFF_FFFF_FFFF_FFFF_0000_0000_0000_0001) by (nonlinear_arith)
            requires
                0 <= rr <= 0x7FFF_FFFF_FFFF_FFFF,
        ;
    }
    let rsq: i128 = rr * rr;
    let mut dy: i128 = -rr;
    while dy <= rr
        invariant
            fb@.wf(),
            rr == r,
            -WIDE_LIMIT <= cx <= WIDE_LIMIT,
            -WIDE_LIMIT <= cy <= WIDE_LIMIT,
            0 <= rr <= 0x7FFF_FFFF_FFFF_FFFF,
            rsq == rr * rr,
            -rr <= dy <= rr + 1,
            fb@ == old(fb)@.draw(disc(cx as int, cy as int, r as int, (dy + rr) as nat, c)),
        decreases rr + 1 - dy,
    {
        let ghost rows = disc(cx as int, cy as int, r as int, (dy + rr) as nat, c);
        let ghost base = fb@;
        let mut dx: i128 = -rr;
        proof {
            assert(0 <= dy * dy <= 0x3FFF_FFFF_FFFF_FFFF_0000_0000_0000_0001) by (nonlinear_arith)
                requires
                    -0x7FFF_FFFF_FFFF_FFFF <= dy <= 0x7FFF_FFFF_FFFF_FFFF,
            ;
        }
        while dx <= rr
            invariant
                fb@.wf(),
                rr == r,
                -WIDE_LIMIT <= cx <= WIDE_LIMIT,
                -WIDE_LIMIT <= cy <= WIDE_LIMIT,
                0 <= rr <= 0x7FFF_FFFF_FFFF_FFFF,
                rsq == rr * rr,
                -rr <= dy <= rr,
                0 <= dy * dy <= 0x3FFF_FFFF_FFFF_FFFF_0000_0000_0000_0001,
                -rr <= dx <= rr + 1,
                fb@ == base.draw(disc_row(cx as int, cy as int, r as int, dy as int, (dx + rr) as nat, c)),
            decreases rr + 1 - dx,
        {
            proof {
                assert(0 <= dx * dx <= 0x3FFF_FFFF_FFFF_FFFF_0000_0000_0000_0001) by (nonlinear_arith)
                    requires
                        -0x7FFF_FFFF_FFFF_FFFF <= dx <= 0x7FFF_FFFF_FFFF_FFFF,
                ;
                assert(-(r as int) + ((dx + rr + 1) as nat) - 1 == dx);
            }
            if dx * dx + dy * dy <= rsq {
                plot_at(fb, cx + dx, cy + dy, c);
                proof {
                    lemma_draw_push(
                        base,
                        disc_row(cx as int, cy as int, r as int, dy as int, (dx + rr) as nat, c),
                        Dot { x: cx + dx, y: cy + dy, c },
                    );
                }
            }
            dx += 1;
        }
        proof {
            assert(-(r as int) + ((dy + rr + 1) as nat) - 1 == dy);
            lemma_draw_concat(old(fb)@, rows, disc_row(cx as int, cy as int, r as int, dy as int, (2 * r + 1) as nat, c));
        }
        dy += 1;
    }
}

/// The width of a glyph in pixels.
pub const FONT_W: usize = 8;

/// The height of a glyph in pixels.
pub const FONT_H: usize = 8;

/// A font of glyphs of eight by eight pixels: for each character code a
/// glyph of eight rows, one byte each, the leftmost pixel in the lowest bit.
pub struct Font {
    pub glyphs: Vec<[u8; 8]>,
}

/// Whether the pixel in column `col` of a glyph's row is set.
pub open spec fn bit_on(bits: u8, col: int) -> bool {
    (bits as int / pow2(col as nat) as int) % 2 == 1
}

/// Two to the power `k`.
pub open spec fn pow2(k: nat) -> nat
    decreases k,
{
    if k == 0 {
        1
    } else {
        2 * pow2((k - 1) as nat)
    }
}

/// Whether the pixel in column `col` of a glyph's row is set.
pub fn bit_set(bits: u8, col: usize) -> (on: bool)
    requires
        col < 8,
    ensures
        on == bit_on(bits, col as int),
{
    proof {
        reveal_with_fuel(pow2, 9);
    }
    let p: u8 = if col == 0 {
        1
    } else if col == 1 {
        2
    } else if col == 2 {
        4
    } else if col == 3 {
        8
    } else if col == 4 {
        16
    } else if col == 5 {
        32
    } else if col == 6 {
        64
    } else {
        128
    };
    (bits / p) % 2 == 1
}

/// The colour of cell `k` of a glyph, counted row by row: the foreground
/// where the pixel is set, else the background, if there is one.
pub open spec fn cell_color(glyph: Seq<u8>, k: int, fg: Color, bg: Option<Color>) -> Option<Color> {
    if bit_on(glyph[k / 8], k % 8) {
        Some(fg)
    } else {
        bg
    }
}

/// The dots of the first `n` cells of a glyph painted at `(x, y)`.
pub open spec fn glyph_dots(glyph: Seq<u8>, x: int, y: int, fg: Color, bg: Option<Color>, n: nat) -> Seq<Dot>
    decreases n,
{
    if n == 0 {
        Seq::empty()
    } else {
        let before = glyph_dots(glyph, x, y, fg, bg, (n - 1) as nat);
        match cell_color(glyph, n - 1, fg, bg) {
            Some(c) => before.push(Dot { x: x + (n - 1) % 8, y: y + (n - 1) / 8, c }),
            None => before,
        }
    }
}

/// The dots of the first `n` cells of a glyph painted at `(x, y)` with each
/// cell a square of `scale` pixels, cut off at the edges of a screen of the
/// given size.
pub open spec fn glyph_blocks(
    glyph: Seq<u8>,
    x: int,
    y: int,
    fg: Color,
    bg: Option<Color>,
    scale: int,
    width: int,
    height: int,
    n: nat,
) -> Seq<Dot>
    decreases n,
{
    if n == 0 {
        Seq::empty()
    } else {
        let before = glyph_blocks(glyph, x, y, fg, bg, scale, width, height, (n - 1) as nat);
        let px = x + ((n - 1) % 8) * scale;
        let py = y + ((n - 1) / 8) * scale;
        match cell_color(glyph, n - 1, fg, bg) {
            Some(c) => before + block(px, py, clipped(px, scale, width), clipped(py, scale, height), c),
            None => before,
        }
    }
}

/// The dots of a character painted at `(x, y)`: those of its glyph, or none
/// where the font has no glyph for it.
pub open spec fn char_dots(font: Seq<[u8; 8]>, x: int, y: int, ch: char, fg: Color, bg: Option<Color>) -> Seq<Dot> {
    if (ch as int) < font.len() {
        glyph_dots(font[ch as int]@, x, y, fg, bg, 64)
    } else {
        Seq::empty()
    }
}

/// The dots of a character painted at `(x, y)` in the given scale; a scale
/// of one or less paints the plain character.
pub open spec fn char_dots_scaled(
    font: Seq<[u8; 8]>,
    x: int,
    y: int,
    ch: char,
    fg: Color,
    bg: Option<Color>,
    scale: int,
    width: int,
    height: int,
) -> Seq<Dot> {
    if scale <= 1 {
        char_dots(font, x, y, ch, fg, bg)
    } else if (ch as int) < font.len() {
        glyph_blocks(font[ch as int]@, x, y, fg, bg, scale, width, height, 64)
    } else {
        Seq::empty()
    }
}

/// Farthest position of the pen, far off any screen.
pub const PEN_LIMIT: i128 = 0x400_0000_0000_0000_0000_0000;

/// A position of the pen, which stops at `PEN_LIMIT`.
pub open spec fn capped(at: int) -> int {
    if at > PEN_LIMIT {
        PEN_LIMIT as int
    } else {
        at
    }
}

/// Where the next character goes after those of `s`, written from `(x, y)`
/// with steps of `step` pixels: a line feed goes to the start of the next
/// line, any other character one step to the right. The pen stops at `PEN_LIMIT`.
pub open spec fn pen_after(s: Seq<char>, x: int, y: int, step: int) -> (int, int)
    decreases s.len(),
{
    if s.len() == 0 {
        (x, y)
    } else {
        let (px, py) = pen_after(s.drop_last(), x, y, step);
        if s.last() == '\n' {
            (0, capped(py + step))
        } else {
            (capped(px + step), py)
        }
    }
}

/// The dots of a text written from `(x, y)` in the given scale.
pub open spec fn text_dots(
    font: Seq<[u8; 8]>,
    s: Seq<char>,
    x: int,
    y: int,
    fg: Color,
    bg: Option<Color>,
    scale: int,
    width: int,
    height: int,
) -> Seq<Dot>
    decreases s.len(),
{
    if s.len() == 0 {
        Seq::empty()
    } else {
        let before = text_dots(font, s.drop_last(), x, y, fg, bg, scale, width, height);
        let (px, py) = pen_after(s.drop_last(), x, y, 8 * (if scale <= 1 { 1 } else { scale }));
        if s.last() == '\n' {
            before
        } else {
            before + char_dots_scaled(font, px, py, s.last(), fg, bg, scale, width, height)
        }
    }
}

/// Paints the glyph at `(x, y)`, given as wide integers.
fn draw_glyph(fb: &mut Fb, glyph: &[u8; 8], x: i128, y: i128, fg: Color, bg: Option<Color>)
    requires
        old(fb)@.wf(),
        -0x4000_0000_0000_0000_0000_0000 <= x <= 0x4000_0000_0000_0000_0000_0000,
        -0x4000_0000_0000_0000_0000_0000 <= y <= 0x4000_0000_0000_0000_0000_0000,
    ensures
        final(fb)@ == old(fb)@.draw(glyph_dots(glyph@, x as int, y as int, fg, bg, 64)),
        final(fb)@.wf(),
{
    let mut k: usize = 0;
    while k < 64
        invariant
            k <= 64,
            fb@.wf(),
            -0x4000_0000_0000_0000_0000_0000 <= x <= 0x4000_0000_0000_0000_0000_0000,
            -0x4000_0000_0000_0000_0000_0000 <= y <= 0x4000_0000_0000_0000_0000_0000,
            fb@ == old(fb)@.draw(glyph_dots(glyph@, x as int, y as int, fg, bg, k as nat)),
        decreases 64 - k,
    {
        let row = k / 8;
        let col = k % 8;
        let ghost before = glyph_dots(glyph@, x as int, y as int, fg, bg, k as nat);
        let on = bit_set(glyph[row], col);
        if on {
            plot_at(fb, x + col as i128, y + row as i128, fg);
            proof {
                lemma_draw_push(old(fb)@, before, Dot { x: x + col, y: y + row, c: fg });
            }
        } else {
            match bg {
                Some(cbg) => {
                    plot_at(fb, x + col as i128, y + row as i128, cbg);
                    proof {
                        lemma_draw_push(old(fb)@, before, Dot { x: x + col, y: y + row, c: cbg });
                    }
                },
                None => {},
            }
        }
        k += 1;
    }
}

/// Paints the glyph at `(x, y)`, given as wide integers, with each cell a
/// square of `scale` pixels.
fn draw_glyph_scaled(fb: &mut Fb, glyph: &[u8; 8], x: i128, y: i128, fg: Color, bg: Option<Color>, scale: usize)
    requires
        old(fb)@.wf(),
        0 <= x <= 0x2000_0000_0000_0000_0000_0000,
        0 <= y <= 0x2000_0000_0000_0000_0000_0000,
    ensures
        final(fb)@ == old(fb)@.draw(
            glyph_blocks(
                glyph@,
                x as int,
                y as int,
                fg,
                bg,
                scale as int,
                old(fb)@.width as int,
                old(fb)@.height as int,
                64,
            ),
        ),
        final(fb)@.wf(),
{
    let mut k: usize = 0;
    let ghost w = fb@.width as int;
    let ghost h = fb@.height as int;
    while k < 64
        invariant
            k <= 64,
            fb@.wf(),
            fb@.width == w,
            fb@.height == h,
            old(fb)@.wf(),
            old(fb)@.width == w,
            old(fb)@.height == h,
            0 <= x <= 0x2000_0000_0000_0000_0000_0000,
            0 <= y <= 0x2000_0000_0000_0000_0000_0000,
            fb@ == old(fb)@.draw(glyph_blocks(glyph@, x as int, y as int, fg, bg, scale as int, w, h, k as nat)),
        decreases 64 - k,
    {
        let row = k / 8;
        let col = k % 8;
        let ghost before = glyph_blocks(glyph@, x as int, y as int, fg, bg, scale as int, w, h, k as nat);
        proof {
            assert(0 <= (col as int) * (scale as int) <= 7 * 0x1_0000_0000_0000_0000) by (nonlinear_arith)
                requires
                    0 <= col <= 7,
                    0 <= scale <= 0xFFFF_FFFF_FFFF_FFFF,
            ;
            assert(0 <= (row as int) * (scale as int) <= 7 * 0x1_0000_0000_0000_0000) by (nonlinear_arith)
                requires
                    0 <= row <= 7,
                    0 <= scale <= 0xFFFF_FFFF_FFFF_FFFF,
            ;
        }
        let px: i128 = x + (col as i128) * (scale as i128);
        let py: i128 = y + (row as i128) * (scale as i128);
        let on = bit_set(glyph[row], col);
        let paint: Option<Color> = if on { Some(fg) } else { bg };
        match paint {
            Some(c) => {
                let ghost mid = fb@;
                fill_block(fb, px, py, scale, scale, c);
                proof {
                    lemma_draw_wf(old(fb)@, before);
                    lemma_draw_wf(
                        mid,
                        block(px as int, py as int, clipped(px as int, scale as int, w), clipped(py as int, scale as int, h), c),
                    );
                    lemma_draw_concat(
                        old(fb)@,
                        before,
                        block(px as int, py as int, clipped(px as int, scale as int, w), clipped(py as int, scale as int, h), c),
                    );
                }
            },
            None => {},
        }
        k += 1;
    }
}

/// Paints a character at `(x, y)`: the set pixels of its glyph in `fg`, the
/// others in `bg` where one is given. A character without a glyph paints nothing.
pub fn draw_char(fb: &mut Fb, font: &Font, x: usize, y: usize, ch: char, fg: Color, bg: Option<Color>)
    requires
        old(fb)@.wf(),
    ensures
        final(fb)@ == old(fb)@.draw(char_dots(font.glyphs@, x as int, y as int, ch, fg, bg)),
        final(fb)@.wf(),
{
    let idx = code_of(ch) as usize;
    if idx >= font.glyphs.len() {
        return ;
    }
    draw_glyph(fb, &font.glyphs[idx], x as i128, y as i128, fg, bg);
}

/// Paints a character at `(x, y)` with each pixel of its glyph a square of
/// `scale` pixels; a scale of one or less paints the plain character.
pub fn draw_char_scaled(fb: &mut Fb, font: &Font, x: usize, y: usize, ch: char, fg: Color, bg: Option<Color>, scale: usize)
    requires
        old(fb)@.wf(),
    ensures
        final(fb)@ == old(fb)@.draw(
            char_dots_scaled(
                font.glyphs@,
                x as int,
                y as int,
                ch,
                fg,
                bg,
                scale as int,
                old(fb)@.width as int,
                old(fb)@.height as int,
            ),
        ),
        final(fb)@.wf(),
{
    if scale <= 1 {
        draw_char(fb, font, x, y, ch, fg, bg);
        return ;
    }
    let idx = code_of(ch) as usize;
    if idx >= font.glyphs.len() {
        return ;
    }
    draw_glyph_scaled(fb, &font.glyphs[idx], x as i128, y as i128, fg, bg, scale);
}

/// Paints a text from `(x, y)` with each pixel of a glyph a square of
/// `scale` pixels, or plain for a scale of one or less: each character one
/// glyph's width to the right of the one before; a line feed moves to the
/// start of the next line.
pub fn draw_text_scaled(fb: &mut Fb, font: &Font, x: usize, y: usize, s: &str, fg: Color, bg: Option<Color>, scale: usize)
    requires
        old(fb)@.wf(),
    ensures
        final(fb)@ == old(fb)@.draw(
            text_dots(
                font.glyphs@,
                s@,
                x as int,
                y as int,
                fg,
                bg,
                scale as int,
                old(fb)@.width as int,
                old(fb)@.height as int,
            ),
        ),
        final(fb)@.wf(),
{
    text_wide(fb, font, x as i128, y as i128, s, fg, bg, scale);
}

/// Paints a text from `(x, y)`, given as wide integers; see `draw_text_scaled`.
pub fn text_wide(fb: &mut Fb, font: &Font, x: i128, y: i128, s: &str, fg: Color, bg: Option<Color>, scale: usize)
    requires
        old(fb)@.wf(),
        0 <= x <= PEN_LIMIT,
        0 <= y <= PEN_LIMIT,
    ensures
        final(fb)@ == old(fb)@.draw(
            text_dots(
                font.glyphs@,
                s@,
                x as int,
                y as int,
                fg,
                bg,
                scale as int,
                old(fb)@.width as int,
                old(fb)@.height as int,
            ),
        ),
        final(fb)@.wf(),
{
    let chars = chars_of(s);
    let eff: usize = if scale <= 1 { 1 } else { scale };
    let step: i128 = 8 * (eff as i128);
    let mut px: i128 = x;
    let mut py: i128 = y;
    let mut i: usize = 0;
    let ghost w = fb@.width as int;
    let ghost h = fb@.height as int;
    proof {
        assert(chars@.take(0) =~= Seq::<char>::empty());
    }
    while i < chars.len()
        invariant
            i <= chars@.len(),
            chars@ == s@,
            fb@.wf(),
            old(fb)@.wf(),
            old(fb)@.width == w,
            old(fb)@.height == h,
            eff == if scale <= 1 { 1 } else { scale },
            step == 8 * eff,
            0 <= px <= PEN_LIMIT,
            0 <= py <= PEN_LIMIT,
            (px as int, py as int) == pen_after(chars@.take(i as int), x as int, y as int, step as int),
            fb@ == old(fb)@.draw(text_dots(font.glyphs@, chars@.take(i as int), x as int, y as int, fg, bg, scale as int, w, h)),
        decreases chars@.len() - i,
    {
        let ch = chars[i];
        let ghost done = text_dots(font.glyphs@, chars@.take(i as int), x as int, y as int, fg, bg, scale as int, w, h);
        proof {
            assert(chars@.take(i + 1).drop_last() =~= chars@.take(i as int));
            assert(chars@.take(i + 1).last() == ch);
            lemma_draw_wf(old(fb)@, done);
        }
        if ch == '\n' {
            py = if py + step > PEN_LIMIT { PEN_LIMIT } else { py + step };
            px = 0;
        } else {
            let idx = code_of(ch) as usize;
            let ghost here = char_dots_scaled(font.glyphs@, px as int, py as int, ch, fg, bg, scale as int, w, h);
            let ghost mid = fb@;
            if idx < font.glyphs.len() {
                if scale <= 1 {
                    draw_glyph(fb, &font.glyphs[idx], px, py, fg, bg);
                } else {
                    draw_glyph_scaled(fb, &font.glyphs[idx], px, py, fg, bg, scale);
                }
            }
            proof {
                assert(idx == ch as int);
                assert(fb@ == mid.draw(here));
                assert(text_dots(font.glyphs@, chars@.take(i + 1), x as int, y as int, fg, bg, scale as int, w, h) == done + here);
                lemma_draw_concat(
                    old(fb)@,
                    done,
                    char_dots_scaled(font.glyphs@, px as int, py as int, ch, fg, bg, scale as int, w, h),
                );
            }
            px = if px + step > PEN_LIMIT { PEN_LIMIT } else { px + step };
        }
        i += 1;
    }
    proof {
        assert(chars@.take(i as int) =~= chars@);
    }
}

/// Paints a text from `(x, y)`: each character one glyph's width to the
/// right of the one before; a line feed moves to the start of the next line.
pub fn draw_text(fb: &mut Fb, font: &Font, x: usize, y: usize, s: &str, fg: Color, bg: Option<Color>)
    requires
        old(fb)@.wf(),
    ensures
        final(fb)@ == old(fb)@.draw(
            text_dots(font.glyphs@, s@, x as int, y as int, fg, bg, 1, old(fb)@.width as int, old(fb)@.height as int),
        ),
        final(fb)@.wf(),
{
    draw_text_scaled(fb, font, x, y, s, fg, bg, 1);
}

/// The four dots that one point of a corner's disc gives, one for each
/// corner of the rectangle.
pub open spec fn corner_dots(x: int, y: int, w: int, h: int, r: int, dx: int, dy: int, c: Color) -> Seq<Dot> {
    seq![
        Dot { x: x + r + dx, y: y + r + dy, c },
        Dot { x: x + w - r + dx, y: y + r + dy, c },
        Dot { x: x + r + dx, y: y + h - r + dy, c },
        Dot { x: x + w - r + dx, y: y + h - r + dy, c },
    ]
}

/// The corner dots for one row of the disc: for the first `n` columns from
/// the left, those not farther than `r` from the centre.
pub open spec fn corner_row(x: int, y: int, w: int, h: int, r: int, dy: int, n: nat, c: Color) -> Seq<Dot>
    decreases n,
{
    if n == 0 {
        Seq::empty()
    } else {
        let dx = -r + n - 1;
        let before = corner_row(x, y, w, h, r, dy, (n - 1) as nat, c);
        if dx * dx + dy * dy <= r * r {
            before + corner_dots(x, y, w, h, r, dx, dy, c)
        } else {
            before
        }
    }
}

/// The corner dots for the first `m` rows of the disc, from the top.
pub open spec fn corners(x: int, y: int, w: int, h: int, r: int, m: nat, c: Color) -> Seq<Dot>
    decreases m,
{
    if m == 0 {
        Seq::empty()
    } else {
        corners(x, y, w, h, r, (m - 1) as nat, c) + corner_row(x, y, w, h, r, -r + m - 1, (2 * r + 1) as nat, c)
    }
}

/// `a - b`, or zero where `b` is the larger.
pub open spec fn minus(a: int, b: int) -> int {
    if a >= b {
        a - b
    } else {
        0
    }
}

/// The block of `w` by `h` pixels at `(x, y)`, cut off at the edges of a
/// screen of the given size.
pub open spec fn block_on(x: int, y: int, w: int, h: int, c: Color, width: int, height: int) -> Seq<Dot> {
    block(x, y, clipped(x, w, width), clipped(y, h, height), c)
}

/// The dots of a filled rectangle with rounded corners of radius `r`: the
/// middle part, the left and right parts, then the discs of the four corners.
pub open spec fn round_rect_dots(x: int, y: int, w: int, h: int, r: int, c: Color, width: int, height: int) -> Seq<Dot> {
    (if w > 2 * r {
        block_on(x + r, y, w - 2 * r, h, c, width, height)
    } else {
        Seq::empty()
    }) + (if r > 0 {
        block_on(x, y + r, r, minus(h, 2 * r), c, width, height)
    } else {
        Seq::empty()
    }) + (if r > 0 {
        block_on(x + minus(w, r), y + r, r, minus(h, 2 * r), c, width, height)
    } else {
        Seq::empty()
    }) + (if r <= isize::MAX {
        corners(x, y, w, h, r, (2 * r + 1) as nat, c)
    } else {
        Seq::empty()
    })
}

/// Fills the rectangle of `w` by `h` pixels at `(x, y)` with rounded corners
/// of radius `r`.
pub fn fill_round_rect(fb: &mut Fb, x: usize, y: usize, w: usize, h: usize, r: usize, c: Color)
    requires
        old(fb)@.wf(),
    ensures
        final(fb)@ == old(fb)@.draw(
            round_rect_dots(
                x as int,
                y as int,
                w as int,
                h as int,
                r as int,
                c,
                old(fb)@.width as int,
                old(fb)@.height as int,
            ),
        ),
        final(fb)@.wf(),
{
    round_rect_wide(fb, x as i128, y as i128, w, h, r, c);
}

/// Fills the rectangle of `w` by `h` pixels at `(x, y)`, given as wide
/// integers, with rounded corners of radius `r`.
pub fn round_rect_wide(fb: &mut Fb, x: i128, y: i128, w: usize, h: usize, r: usize, c: Color)
    requires
        old(fb)@.wf(),
        0 <= x <= WIDE_LIMIT,
        0 <= y <= WIDE_LIMIT,
    ensures
        final(fb)@ == old(fb)@.draw(
            round_rect_dots(
                x as int,
                y as int,
                w as int,
                h as int,
                r as int,
                c,
                old(fb)@.width as int,
                old(fb)@.height as int,
            ),
        ),
        final(fb)@.wf(),
{
    let ghost start = fb@;
    let ghost sw = fb@.width as int;
    let ghost sh = fb@.height as int;
    let xi = x;
    let yi = y;
    let wi = w as i128;
    let hi = h as i128;
    let ri = r as i128;
    let inner_h: usize = if hi >= 2 * ri { (hi - 2 * ri) as usize } else { 0 };
    let ghost p1 = if w > 2 * r { block_on(x + r, y as int, w - 2 * r, h as int, c, sw, sh) } else { Seq::<Dot>::empty() };
    let ghost p2 = if r > 0 { block_on(x as int, y + r, r as int, minus(h as int, 2 * r), c, sw, sh) } else { Seq::<Dot>::empty() };
    let ghost p3 = if r > 0 {
        block_on(x + minus(w as int, r as int), y + r, r as int, minus(h as int, 2 * r), c, sw, sh)
    } else {
        Seq::<Dot>::empty()
    };
    if wi > 2 * ri {
        fill_block(fb, xi + ri, yi, (wi - 2 * ri) as usize, h, c);
    }
    proof {
        assert(fb@ == start.draw(p1));
        lemma_draw_wf(start, p1);
    }
    if r > 0 {
        fill_block(fb, xi, yi + ri, r, inner_h, c);
    }
    proof {
        lemma_draw_concat(start, p1, p2);
        lemma_draw_wf(start, p1 + p2);
    }
    if r > 0 {
        let off: i128 = if wi >= ri { wi - ri } else { 0 };
        fill_block(fb, xi + off, yi + ri, r, inner_h, c);
    }
    proof {
        lemma_draw_concat(start, p1 + p2, p3);
        lemma_draw_wf(start, p1 + p2 + p3);
    }
    let ghost parts = p1 + p2 + p3;
    if r > isize::MAX as usize {
        proof {
            assert(parts + Seq::<Dot>::empty() =~= parts);
        }
        return ;
    }
    proof {
        assert(0 <= ri * ri <= 0x3FFF_FFFF_FFFF_FFFF_0000_0000_0000_0001) by (nonlinear_arith)
            requires
                0 <= ri <= 0x7FFF_FFFF_FFFF_FFFF,
        ;
        assert(parts + corners(x as int, y as int, w as int, h as int, r as int, 0, c) =~= parts);
    }
    let rsq: i128 = ri * ri;
    let mut dy: i128 = -ri;
    while dy <= ri
        invariant
            fb@.wf(),
            ri == r,
            xi == x,
            yi == y,
            wi == w,
            hi == h,
            0 <= x <= WIDE_LIMIT,
            0 <= y <= WIDE_LIMIT,
            0 <= ri <= 0x7FFF_FFFF_FFFF_FFFF,
            rsq == ri * ri,
            -ri <= dy <= ri + 1,
            fb@ == start.draw(parts + corners(x as int, y as int, w as int, h as int, r as int, (dy + ri) as nat, c)),
        decreases ri + 1 - dy,
    {
        let ghost rows = parts + corners(x as int, y as int, w as int, h as int, r as int, (dy + ri) as nat, c);
        let ghost base = fb@;
        let mut dx: i128 = -ri;
        proof {
            assert(0 <= dy * dy <= 0x3FFF_FFFF_FFFF_FFFF_0000_0000_0000_0001) by (nonlinear_arith)
                requires
                    -0x7FFF_FFFF_FFFF_FFFF <= dy <= 0x7FFF_FFFF_FFFF_FFFF,
            ;
        }
        while dx <= ri
            invariant
                fb@.wf(),
                ri == r,
                xi == x,
                yi == y,
                wi == w,
                hi == h,
                0 <= x <= WIDE_LIMIT,
                0 <= y <= WIDE_LIMIT,
                0 <= ri <= 0x7FFF_FFFF_FFFF_FFFF,
                rsq == ri * ri,
                -ri <= dy <= ri,
                0 <= dy * dy <= 0x3FFF_FFFF_FFFF_FFFF_0000_0000_0000_0001,
                -ri <= dx <= ri + 1,
                fb@ == base.draw(corner_row(x as int, y as int, w as int, h as int, r as int, dy as int, (dx + ri) as nat, c)),
            decreases ri + 1 - dx,
        {
            proof {
                assert(0 <= dx * dx <= 0x3FFF_FFFF_FFFF_FFFF_0000_0000_0000_0001) by (nonlinear_arith)
                    requires
                        -0x7FFF_FFFF_FFFF_FFFF <= dx <= 0x7FFF_FFFF_FFFF_FFFF,
                ;
                assert(-(r as int) + ((dx + ri + 1) as nat) - 1 == dx);
            }
            if dx * dx + dy * dy <= rsq {
                let ghost before = corner_row(x as int, y as int, w as int, h as int, r as int, dy as int, (dx + ri) as nat, c);
                let ghost four = corner_dots(x as int, y as int, w as int, h as int, r as int, dx as int, dy as int, c);
                plot_at(fb, xi + ri + dx, yi + ri + dy, c);
                plot_at(fb, xi + wi - ri + dx, yi + ri + dy, c);
                plot_at(fb, xi + ri + dx, yi + hi - ri + dy, c);
                plot_at(fb, xi + wi - ri + dx, yi + hi - ri + dy, c);
                proof {
                    lemma_draw_four(base.draw(before), four);
                    lemma_draw_concat(base, before, four);
                }
            }
            dx += 1;
        }
        proof {
            assert(-(r as int) + ((dy + ri + 1) as nat) - 1 == dy);
            let row = corner_row(x as int, y as int, w as int, h as int, r as int, dy as int, (2 * r + 1) as nat, c);
            lemma_draw_concat(start, rows, row);
            assert(rows + row =~= parts + corners(x as int, y as int, w as int, h as int, r as int, (dy + ri + 1) as nat, c));
        }
        dy += 1;
    }
}

/// Painting a list of four dots is painting them one after another.
proof fn lemma_draw_four(fb: FbView, four: Seq<Dot>)
    requires
        four.len() == 4,
    ensures
        fb.draw(four) == fb.plot(four[0].x, four[0].y, four[0].c).plot(four[1].x, four[1].y, four[1].c).plot(
            four[2].x,
            four[2].y,
            four[2].c,
        ).plot(four[3].x, four[3].y, four[3].c),
{
    let a = four.take(1);
    let b = four.take(2);
    let c = four.take(3);
    assert(four.drop_last() =~= c);
    assert(c.drop_last() =~= b);
    assert(b.drop_last() =~= a);
    assert(a.drop_last() =~= Seq::<Dot>::empty());
    assert(fb.draw(a.drop_last()) == fb);
    assert(fb.draw(a) == fb.plot(four[0].x, four[0].y, four[0].c));
    assert(fb.draw(b) == fb.draw(a).plot(four[1].x, four[1].y, four[1].c));
    assert(fb.draw(c) == fb.draw(b).plot(four[2].x, four[2].y, four[2].c));
    assert(fb.draw(four) == fb.draw(c).plot(four[3].x, four[3].y, four[3].c));
}

/// One more step of painting: where the frame buffer is what painting
/// `more` after `acc` gives, it is what painting the joined list gives, and
/// it has kept its shape.
pub proof fn lemma_more(start: FbView, acc: Seq<Dot>, more: Seq<Dot>, now: FbView)
    requires
        start.wf(),
        now == start.draw(acc).draw(more),
    ensures
        now == start.draw(acc + more),
        now.wf(),
        now.width == start.width,
        now.height == start.height,
{
    lemma_draw_concat(start, acc, more);
    lemma_draw_wf(start, acc + more);
}

} // verus!
