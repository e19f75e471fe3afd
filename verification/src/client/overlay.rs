//! What the client draws over the video: menu bar, text, cursor and panels.
//!
//! Everything is drawn straight into the framebuffer, whose pixels are
//! 0x00RRGGBB and whose rows are `stride` pixels apart.
use font8x8::UnicodeFonts;
use vstd::prelude::*;
use crate::pixels;
use crate::protocol::messages::WindowInfo;
use crate::text;

verus! {

pub const CURSOR_OUTLINE: u32 = 0x000000;

pub const CURSOR_FILL: u32 = 0xFFFFFF;

/// The options that the menu bar toggles.
#[derive(Debug, Clone, Copy, PartialEq, Eq, Structural)]
pub struct MenuState {
    pub show_data_rate: bool,
    pub client_cursor: bool,
    /// Whether the window list is open. It covers part of the remote screen,
    /// so it starts closed.
    pub show_windows: bool,
}

impl MenuState {
    /// The options at the start.
    pub fn new() -> (m: Self)
        ensures
            m == (MenuState { show_data_rate: true, client_cursor: true, show_windows: false }),
    {
        MenuState { show_data_rate: true, client_cursor: true, show_windows: false }
    }
}

/// The eight rows of a character's glyph in the font's Basic Latin block.
pub uninterp spec fn basic_glyph(ch: char) -> Option<Seq<u8>>;

/// `BASIC_FONTS.get` of the `font8x8` crate: the glyph of a character, one
/// byte per row with the leftmost pixel in the lowest bit. It has the 128
/// characters of ASCII and no other. Which pixels a glyph has is only named.
#[verifier::external_body]
fn glyph_of(ch: char) -> (r: Option<[u8; 8]>)
    ensures
        r is Some <==> (ch as u32) < 128,
        match r {
            Some(g) => basic_glyph(ch) == Some(g@),
            None => basic_glyph(ch) is None,
        },
{
    font8x8::BASIC_FONTS.get(ch)
}

/// Whether a row of a glyph has a pixel in a column.
pub open spec fn glyph_bit(row: u8, col: u8) -> bool {
    row & (1u8 << col) != 0u8
}

/// Whether pixel number `k` of a glyph drawn at double size, counted row by
/// row, is set and falls on position `i` of the framebuffer.
pub open spec fn glyph_hits(glyph: Seq<u8>, stride: int, x: int, y: int, k: int, i: int) -> bool {
    &&& glyph_bit(glyph[k / 32], ((k % 16) / 2) as u8)
    &&& i == (y + k / 16) * stride + x + k % 16
}

/// The framebuffer after the first `n` pixels of a glyph were drawn.
pub open spec fn glyph_part(
    buf: Seq<u32>,
    stride: int,
    x: int,
    y: int,
    glyph: Seq<u8>,
    color: u32,
    n: int,
) -> Seq<u32> {
    Seq::new(
        buf.len(),
        |i: int|
            if exists|k: int| 0 <= k < n && #[trigger] glyph_hits(glyph, stride, x, y, k, i) {
                color
            } else {
                buf[i]
            },
    )
}

/// The framebuffer after a glyph was drawn: 16 by 16 pixels, two by two for
/// each pixel of the glyph.
pub open spec fn with_glyph(
    buf: Seq<u32>,
    stride: int,
    x: int,
    y: int,
    glyph: Seq<u8>,
    color: u32,
) -> Seq<u32> {
    glyph_part(buf, stride, x, y, glyph, color, 256)
}

/// Whether the positions of `n` characters drawn at a place can be computed.
pub open spec fn text_fits(stride: int, x: int, y: int, n: int) -> bool {
    y + 16 <= usize::MAX && (y + 16) * stride + x + 16 * n <= usize::MAX
}

/// Draws a glyph at double size. Pixels past the end of the framebuffer are
/// left out.
pub fn draw_glyph(
    buf: &mut [u32],
    stride: usize,
    x: usize,
    y: usize,
    glyph: &[u8; 8],
    color: u32,
)
    requires
        text_fits(stride as int, x as int, y as int, 1),
    ensures
        final(buf)@ == with_glyph(
            old(buf)@,
            stride as int,
            x as int,
            y as int,
            glyph@,
            color,
        ),
{
    let ghost before = buf@;
    let ghost st = stride as int;
    let mut k: usize = 0;
    assert(buf@ == glyph_part(before, st, x as int, y as int, glyph@, color, 0));
    while k < 256
        invariant
            k <= 256,
            st == stride,
            text_fits(st, x as int, y as int, 1),
            buf@ == glyph_part(before, st, x as int, y as int, glyph@, color, k as int),
        decreases 256 - k,
    {
        let r: usize = k / 16;
        let c: usize = k % 16;
        let ghost part = buf@;
        let bits: u8 = glyph[r / 2];
        let col: u8 = (c / 2) as u8;
        assert(r / 2 == k / 32);
        assert((y + r) * st <= (y + 16) * st && 0 <= (y + r) * st) by (nonlinear_arith)
            requires
                r <= 16,
                st >= 0,
                y >= 0,
                r >= 0,
        ;
        if bits & (1u8 << col) != 0 {
            let idx: usize = (y + r) * stride + (x + c);
            assert(glyph_hits(glyph@, st, x as int, y as int, k as int, idx as int));
            if idx < buf.len() {
                buf[idx] = color;
            }
        }
        proof {
            let next = glyph_part(before, st, x as int, y as int, glyph@, color, k + 1);
            assert forall|i: int| 0 <= i < before.len() implies buf@[i] == next[i] by {
                let was = exists|q: int|
                    0 <= q < k && #[trigger] glyph_hits(glyph@, st, x as int, y as int, q, i);
                let is = exists|q: int|
                    0 <= q < k + 1 && #[trigger] glyph_hits(
                        glyph@,
                        st,
                        x as int,
                        y as int,
                        q,
                        i,
                    );
                if was {
                    let q = choose|q: int|
                        0 <= q < k && #[trigger] glyph_hits(glyph@, st, x as int, y as int, q, i);
                    assert(0 <= q < k + 1 && glyph_hits(glyph@, st, x as int, y as int, q, i));
                    assert(is);
                }
                if glyph_hits(glyph@, st, x as int, y as int, k as int, i) {
                    assert(is);
                }
                if is && !was {
                    assert(glyph_hits(glyph@, st, x as int, y as int, k as int, i));
                }
            }
            assert(buf@ == next);
        }
        k = k + 1;
    }
}

/// The framebuffer after one character was drawn. A character without a glyph
/// leaves it alone.
pub open spec fn with_char(
    buf: Seq<u32>,
    stride: int,
    x: int,
    y: int,
    ch: char,
    color: u32,
) -> Seq<u32> {
    match basic_glyph(ch) {
        Some(g) => with_glyph(buf, stride, x, y, g, color),
        None => buf,
    }
}

fn draw_char(buf: &mut [u32], stride: usize, x: usize, y: usize, ch: char, color: u32)
    requires
        text_fits(stride as int, x as int, y as int, 1),
    ensures
        final(buf)@ == with_char(old(buf)@, stride as int, x as int, y as int, ch, color),
{
    match glyph_of(ch) {
        Some(glyph) => draw_glyph(buf, stride, x, y, &glyph, color),
        None => {},
    }
}

/// The framebuffer after a text was drawn, character by character, each 16
/// pixels wide.
pub open spec fn with_text(
    buf: Seq<u32>,
    stride: int,
    x: int,
    y: int,
    s: Seq<char>,
    color: u32,
) -> Seq<u32>
    decreases s.len(),
{
    if s.len() == 0 {
        buf
    } else {
        with_char(
            with_text(buf, stride, x, y, s.drop_last(), color),
            stride,
            x + 16 * (s.len() - 1),
            y,
            s.last(),
            color,
        )
    }
}

pub proof fn with_text_len(
    buf: Seq<u32>,
    stride: int,
    x: int,
    y: int,
    s: Seq<char>,
    color: u32,
)
    ensures
        with_text(buf, stride, x, y, s, color).len() == buf.len(),
    decreases s.len(),
{
    if s.len() > 0 {
        with_text_len(buf, stride, x, y, s.drop_last(), color);
    }
}

fn draw_chars(buf: &mut [u32], stride: usize, x: usize, y: usize, s: &[char], color: u32)
    requires
        text_fits(stride as int, x as int, y as int, s@.len() as int),
    ensures
        final(buf)@ == with_text(old(buf)@, stride as int, x as int, y as int, s@, color),
{
    let ghost before = buf@;
    let mut i: usize = 0;
    assert(s@.take(0).len() == 0);
    while i < s.len()
        invariant
            i <= s@.len(),
            text_fits(stride as int, x as int, y as int, s@.len() as int),
            buf@ == with_text(before, stride as int, x as int, y as int, s@.take(i as int), color),
        decreases s@.len() - i,
    {
        proof {
            assert(0 <= (y + 16) * stride) by (nonlinear_arith)
                requires
                    y >= 0,
                    stride >= 0,
            ;
            assert(s@.take(i + 1).drop_last() == s@.take(i as int));
            assert(s@.take(i + 1).last() == s@[i as int]);
        }
        draw_char(buf, stride, x + i * 16, y, s[i], color);
        i = i + 1;
    }
    assert(s@.take(i as int) == s@);
}

/// Draws a text, each character 16 pixels square.
pub fn draw_text(buf: &mut [u32], stride: usize, x: usize, y: usize, text: &str, color: u32)
    requires
        text_fits(stride as int, x as int, y as int, text@.len() as int),
    ensures
        final(buf)@ == with_text(old(buf)@, stride as int, x as int, y as int, text@, color),
{
    draw_chars(buf, stride, x, y, &text::chars_of(text), color)
}

/// Whether position `i` of a framebuffer with `len` pixels lies in a rectangle,
/// clipped to whole rows of the framebuffer.
pub open spec fn in_rect(
    len: int,
    stride: int,
    x: int,
    y: int,
    w: int,
    h: int,
    i: int,
) -> bool {
    &&& stride > 0
    &&& i / stride < len / stride
    &&& y <= i / stride < y + h
    &&& x <= i % stride < x + w
}

/// Where a rectangle ends in a row, before it is clipped to that row.
pub open spec fn row_end(stride: int, x: int, w: int, row: int) -> int {
    row * stride + x + w
}

/// Whether the positions of a rectangle can be computed, in each row that is
/// drawn.
pub open spec fn rect_fits(len: int, stride: int, x: int, y: int, w: int, h: int) -> bool {
    &&& y + h <= usize::MAX
    &&& forall|row: int|
        stride > 0 && y <= row < y + h && row < len / stride ==> #[trigger] row_end(
            stride,
            x,
            w,
            row,
        ) <= usize::MAX
}

/// Whether the columns of a rectangle can be computed, where any of its rows
/// is drawn.
pub open spec fn columns_fit(len: int, stride: int, x: int, y: int, w: int, h: int) -> bool {
    &&& y + h <= usize::MAX
    &&& stride > 0 && h > 0 && y < len / stride ==> x + w <= usize::MAX
}

/// Whether the positions of an outline can be computed.
pub open spec fn outline_fits(len: int, stride: int, x: int, y: int, w: int, h: int) -> bool {
    &&& 1 <= x + w <= usize::MAX
    &&& 1 <= y + h
    &&& rect_fits(len, stride, x, y, w, 1)
    &&& rect_fits(len, stride, x, y + h - 1, w, 1)
    &&& rect_fits(len, stride, x, y, 1, h)
    &&& rect_fits(len, stride, x + w - 1, y, 1, h)
}

proof fn inner_rect_fits(
    len: int,
    stride: int,
    outer: (int, int, int, int),
    x: int,
    y: int,
    w: int,
    h: int,
)
    requires
        rect_fits(len, stride, outer.0, outer.1, outer.2, outer.3),
        outer.1 <= y,
        y + h <= outer.1 + outer.3,
        x + w <= outer.0 + outer.2,
    ensures
        rect_fits(len, stride, x, y, w, h),
{
    assert forall|row: int|
        stride > 0 && y <= row < y + h && row < len / stride implies #[trigger] row_end(
        stride,
        x,
        w,
        row,
    ) <= usize::MAX by {
        assert(row_end(stride, outer.0, outer.2, row) <= usize::MAX);
    }
}

proof fn inner_outline_fits(
    len: int,
    stride: int,
    outer: (int, int, int, int),
    x: int,
    y: int,
    w: int,
    h: int,
)
    requires
        rect_fits(len, stride, outer.0, outer.1, outer.2, outer.3),
        0 <= outer.1 <= y,
        0 <= x,
        1 <= w,
        1 <= h,
        y + h <= outer.1 + outer.3,
        x + w <= outer.0 + outer.2,
        x + w <= usize::MAX,
    ensures
        outline_fits(len, stride, x, y, w, h),
{
    inner_rect_fits(len, stride, outer, x, y, w, 1);
    inner_rect_fits(len, stride, outer, x, y + h - 1, w, 1);
    inner_rect_fits(len, stride, outer, x, y, 1, h);
    inner_rect_fits(len, stride, outer, x + w - 1, y, 1, h);
}

/// A rectangle that ends no further past the end of a row than there is room
/// behind the framebuffer can be drawn. One that ends within its rows always
/// can.
pub proof fn rects_fit_with_room(len: int, stride: int, x: int, y: int, w: int, h: int)
    requires
        0 <= y,
        y + h <= usize::MAX,
        len + x + w - stride <= usize::MAX,
    ensures
        rect_fits(len, stride, x, y, w, h),
{
    assert forall|row: int|
        stride > 0 && y <= row < y + h && row < len / stride implies #[trigger] row_end(
        stride,
        x,
        w,
        row,
    ) <= usize::MAX by {
        rows_inside(len, stride, row);
    }
}

/// The framebuffer after a rectangle was filled.
pub open spec fn with_rect(
    buf: Seq<u32>,
    stride: int,
    x: int,
    y: int,
    w: int,
    h: int,
    color: u32,
) -> Seq<u32> {
    Seq::new(
        buf.len(),
        |i: int|
            if in_rect(buf.len() as int, stride, x, y, w, h, i) {
                color
            } else {
                buf[i]
            },
    )
}

proof fn next_rect_row(len: int, stride: int, x: int, y: int, w: int, row: int, i: int)
    requires
        stride > 0,
        0 <= y <= row < len / stride,
        0 <= x,
        0 <= w,
        0 <= i < len,
    ensures
        in_rect(len, stride, x, y, w, row + 1 - y, i) <==> in_rect(
            len,
            stride,
            x,
            y,
            w,
            row - y,
            i,
        ) || (row * stride + x <= i < row * stride + x + w && i < row * stride + stride),
{
    vstd::arithmetic::div_mod::lemma_fundamental_div_mod(i, stride);
    vstd::arithmetic::div_mod::lemma_mod_bound(i, stride);
    let q = i / stride;
    let m = i % stride;
    assert(stride * q == q * stride) by (nonlinear_arith);
    if row * stride + x <= i < row * stride + stride {
        pixels::row_position(row, i - row * stride, stride);
    }
}

proof fn rows_inside(len: int, stride: int, row: int)
    requires
        stride > 0,
        0 <= row < len / stride,
    ensures
        0 <= row * stride,
        row * stride + stride <= len,
{
    vstd::arithmetic::div_mod::lemma_fundamental_div_mod(len, stride);
    vstd::arithmetic::div_mod::lemma_mod_bound(len, stride);
    let q = len / stride;
    assert(0 <= row * stride && row * stride + stride <= len) by (nonlinear_arith)
        requires
            0 <= row < q,
            stride > 0,
            stride * q <= len,
    ;
}

/// Fills a rectangle. What lies outside the rows of the framebuffer is left
/// out.
pub fn fill_rect(
    buf: &mut [u32],
    stride: usize,
    x: usize,
    y: usize,
    w: usize,
    h: usize,
    color: u32,
)
    requires
        rect_fits(
            old(buf)@.len() as int,
            stride as int,
            x as int,
            y as int,
            w as int,
            h as int,
        ),
    ensures
        final(buf)@ == with_rect(
            old(buf)@,
            stride as int,
            x as int,
            y as int,
            w as int,
            h as int,
            color,
        ),
{
    let ghost before = buf@;
    let ghost st = stride as int;
    if stride == 0 {
        assert(buf@ == with_rect(before, st, x as int, y as int, w as int, h as int, color));
        return ;
    }
    let len: usize = buf.len();
    let h_total: usize = len / stride;
    let bottom: usize = if y + h < h_total {
        y + h
    } else {
        h_total
    };
    let mut row: usize = y;
    assert(buf@ == with_rect(before, st, x as int, y as int, w as int, 0, color));
    while row < bottom
        invariant
            y <= row,
            row <= bottom || row == y,
            0 < stride,
            st == stride,
            len == before.len(),
            len == buf@.len(),
            bottom <= h_total,
            bottom <= y + h,
            h_total == len / stride,
            rect_fits(len as int, st, x as int, y as int, w as int, h as int),
            buf@ == with_rect(before, st, x as int, y as int, w as int, row - y, color),
        decreases bottom - row,
    {
        proof {
            rows_inside(len as int, st, row as int);
            assert(row_end(st, x as int, w as int, row as int) <= usize::MAX);
        }
        let start: usize = row * stride + x;
        let row_end: usize = row * stride + stride;
        let end: usize = if start + w < row_end {
            start + w
        } else {
            row_end
        };
        let ghost part = buf@;
        let mut i: usize = start;
        while i < end
            invariant
                start <= i,
                i <= end || i == start,
                end <= len,
                len == buf@.len(),
                len == part.len(),
                forall|k: int|
                    0 <= k < len ==> #[trigger] buf@[k] == (if start <= k < i {
                        color
                    } else {
                        part[k]
                    }),
            decreases end - i,
        {
            buf[i] = color;
            i = i + 1;
        }
        proof {
            let next = with_rect(before, st, x as int, y as int, w as int, row + 1 - y, color);
            assert forall|k: int| 0 <= k < len implies buf@[k] == next[k] by {
                next_rect_row(len as int, st, x as int, y as int, w as int, row as int, k);
            }
            assert(buf@ == next);
        }
        row = row + 1;
    }
    proof {
        let all = with_rect(before, st, x as int, y as int, w as int, h as int, color);
        assert forall|k: int| 0 <= k < len implies buf@[k] == all[k] by {
            vstd::arithmetic::div_mod::lemma_div_is_ordered(k, len as int, st);
        }
        assert(buf@ == all);
    }
}

/// One of the three channels of a pixel: 2 is red, 1 green, 0 blue.
pub open spec fn channel(p: u32, n: int) -> int {
    if n == 2 {
        (p as int / 65536) % 256
    } else if n == 1 {
        (p as int / 256) % 256
    } else {
        p as int % 256
    }
}

/// One channel of a pixel over another at some opacity out of 255.
pub open spec fn mixed(dst: u32, src: u32, alpha: int, n: int) -> int {
    (channel(src, n) * alpha + channel(dst, n) * (255 - alpha)) / 255
}

/// A pixel over another at some opacity out of 255.
pub open spec fn blended(dst: u32, src: u32, alpha: int) -> u32 {
    (mixed(dst, src, alpha, 2) * 65536 + mixed(dst, src, alpha, 1) * 256 + mixed(
        dst,
        src,
        alpha,
        0,
    )) as u32
}

fn mix(s: u32, d: u32, alpha: u32) -> (r: u32)
    requires
        s < 256,
        d < 256,
        alpha <= 255,
    ensures
        r == (s * alpha + d * (255 - alpha)) / 255,
        r < 256,
{
    assert(s * alpha <= 255 * alpha && d * (255 - alpha) <= 255 * (255 - alpha) && 0 <= s * alpha
        && 0 <= d * (255 - alpha)) by (nonlinear_arith)
        requires
            0 <= s < 256,
            0 <= d < 256,
            0 <= alpha <= 255,
    ;
    (s * alpha + d * (255 - alpha)) / 255
}

/// Puts a pixel over another at an opacity out of 255.
pub fn blend(dst: u32, src: u32, alpha: u32) -> (p: u32)
    requires
        alpha <= 255,
    ensures
        p == blended(dst, src, alpha as int),
{
    let r: u32 = mix((src / 65536) % 256, (dst / 65536) % 256, alpha);
    let g: u32 = mix((src / 256) % 256, (dst / 256) % 256, alpha);
    let b: u32 = mix(src % 256, dst % 256, alpha);
    r * 65536 + g * 256 + b
}

/// Full opacity gives the pixel on top and no opacity the one below.
pub proof fn blending_ends(dst: u32, src: u32)
    requires
        dst < 0x100_0000,
        src < 0x100_0000,
    ensures
        blended(dst, src, 255) == src,
        blended(dst, src, 0) == dst,
{
    assert(forall|c: int| 0 <= c < 256 ==> #[trigger] (c * 255) / 255 == c);
    assert(forall|c: int| 0 <= c < 256 ==> #[trigger] (c * 0) == 0);
    assert((channel(src, 2) * 255) / 255 == channel(src, 2));
    assert((channel(src, 1) * 255) / 255 == channel(src, 1));
    assert((channel(src, 0) * 255) / 255 == channel(src, 0));
    assert((channel(dst, 2) * 255) / 255 == channel(dst, 2));
    assert((channel(dst, 1) * 255) / 255 == channel(dst, 1));
    assert((channel(dst, 0) * 255) / 255 == channel(dst, 0));
    assert(channel(dst, 2) * 0 == 0 && channel(dst, 1) * 0 == 0 && channel(dst, 0) * 0 == 0);
    assert(channel(src, 2) * 0 == 0 && channel(src, 1) * 0 == 0 && channel(src, 0) * 0 == 0);
}

/// The framebuffer after a rectangle was tinted.
pub open spec fn with_tint(
    buf: Seq<u32>,
    stride: int,
    x: int,
    y: int,
    w: int,
    h: int,
    color: u32,
    alpha: int,
) -> Seq<u32> {
    Seq::new(
        buf.len(),
        |i: int|
            if in_rect(buf.len() as int, stride, x, y, w, h, i) {
                blended(buf[i], color, alpha)
            } else {
                buf[i]
            },
    )
}

/// Lays a translucent rectangle over the framebuffer.
pub fn fill_rect_alpha(
    buf: &mut [u32],
    stride: usize,
    x: usize,
    y: usize,
    w: usize,
    h: usize,
    color: u32,
    alpha: u32,
)
    requires
        columns_fit(
            old(buf)@.len() as int,
            stride as int,
            x as int,
            y as int,
            w as int,
            h as int,
        ),
        alpha <= 255,
    ensures
        final(buf)@ == with_tint(
            old(buf)@,
            stride as int,
            x as int,
            y as int,
            w as int,
            h as int,
            color,
            alpha as int,
        ),
{
    let ghost before = buf@;
    let ghost st = stride as int;
    let ghost al = alpha as int;
    if stride == 0 {
        assert(buf@ == with_tint(before, st, x as int, y as int, w as int, h as int, color, al));
        return ;
    }
    let len: usize = buf.len();
    let h_total: usize = len / stride;
    let bottom: usize = if y + h < h_total {
        y + h
    } else {
        h_total
    };
    let mut row: usize = y;
    assert(buf@ == with_tint(before, st, x as int, y as int, w as int, 0, color, al));
    while row < bottom
        invariant
            y <= row,
            row <= bottom || row == y,
            0 < stride,
            st == stride,
            al == alpha,
            alpha <= 255,
            len == before.len(),
            len == buf@.len(),
            bottom <= h_total,
            bottom <= y + h,
            h_total == len / stride,
            columns_fit(len as int, st, x as int, y as int, w as int, h as int),
            buf@ == with_tint(before, st, x as int, y as int, w as int, row - y, color, al),
        decreases bottom - row,
    {
        proof {
            rows_inside(len as int, st, row as int);
        }
        let base: usize = row * stride;
        let right: usize = if x + w < stride {
            x + w
        } else {
            stride
        };
        let ghost part = buf@;
        let mut column: usize = x;
        while column < right
            invariant
                x <= column,
                column <= right || column == x,
                base + right <= len,
                al == alpha,
                alpha <= 255,
                len == buf@.len(),
                len == part.len(),
                forall|k: int|
                    0 <= k < len ==> #[trigger] buf@[k] == (if base + x <= k < base + column {
                        blended(part[k], color, al)
                    } else {
                        part[k]
                    }),
            decreases right - column,
        {
            let i: usize = base + column;
            buf[i] = blend(buf[i], color, alpha);
            column = column + 1;
        }
        proof {
            let next = with_tint(before, st, x as int, y as int, w as int, row + 1 - y, color, al);
            assert forall|k: int| 0 <= k < len implies buf@[k] == next[k] by {
                next_rect_row(len as int, st, x as int, y as int, w as int, row as int, k);
                if base + x <= k < base + right {
                    pixels::row_position(row as int, k - row * st, st);
                    assert(part[k] == before[k]);
                }
            }
            assert(buf@ == next);
        }
        row = row + 1;
    }
    proof {
        let all = with_tint(before, st, x as int, y as int, w as int, h as int, color, al);
        assert forall|k: int| 0 <= k < len implies buf@[k] == all[k] by {
            vstd::arithmetic::div_mod::lemma_div_is_ordered(k, len as int, st);
        }
        assert(buf@ == all);
    }
}

/// The framebuffer after the outline of a rectangle was drawn, one pixel wide.
pub open spec fn with_outline(
    buf: Seq<u32>,
    stride: int,
    x: int,
    y: int,
    w: int,
    h: int,
    color: u32,
) -> Seq<u32> {
    let top = with_rect(buf, stride, x, y, w, 1, color);
    let bottom = with_rect(top, stride, x, y + h - 1, w, 1, color);
    let left = with_rect(bottom, stride, x, y, 1, h, color);
    with_rect(left, stride, x + w - 1, y, 1, h, color)
}

/// Draws the outline of a rectangle, one pixel wide.
pub fn draw_rect_outline(
    buf: &mut [u32],
    stride: usize,
    x: usize,
    y: usize,
    w: usize,
    h: usize,
    color: u32,
)
    requires
        outline_fits(
            old(buf)@.len() as int,
            stride as int,
            x as int,
            y as int,
            w as int,
            h as int,
        ),
    ensures
        final(buf)@ == with_outline(
            old(buf)@,
            stride as int,
            x as int,
            y as int,
            w as int,
            h as int,
            color,
        ),
{
    fill_rect(buf, stride, x, y, w, 1, color);
    fill_rect(buf, stride, x, y + h - 1, w, 1, color);
    fill_rect(buf, stride, x, y, 1, h, color);
    fill_rect(buf, stride, x + w - 1, y, 1, h, color);
}

/// The arrow that stands for the pointer until the server sends its own: `#`
/// is outline, `X` is fill. Its tip is the top left corner.
pub const CURSOR_SPRITE: [&'static str; 16] = [
    "#...............",
    "##..............",
    "#X#.............",
    "#XX#............",
    "#XXX#...........",
    "#XXXX#..........",
    "#XXXXX#.........",
    "#XXXXXX#........",
    "#XXXXXXX#.......",
    "#XXXXXXXX#......",
    "#XXXXX####......",
    "#XX#XX#.........",
    "#X#.#XX#........",
    "##..#XX#........",
    "#....#XX#.......",
    "......##........",
];

/// The cursor image that the server last sent. It has no position: the pointer
/// is drawn where the local mouse is, since going through the server would add
/// the very delay that a local cursor avoids.
#[derive(Debug, Clone)]
pub struct RemoteCursor {
    pub hotspot_x: i32,
    pub hotspot_y: i32,
    pub width: u32,
    pub height: u32,
    pub visible: bool,
    /// RGBA pixels, four bytes each.
    pub rgba: Vec<u8>,
}

impl Default for RemoteCursor {
    fn default() -> (c: Self)
        ensures
            c.hotspot_x == 0,
            c.hotspot_y == 0,
            c.width == 0,
            c.height == 0,
            !c.visible,
            c.rgba@.len() == 0,
    {
        RemoteCursor {
            hotspot_x: 0,
            hotspot_y: 0,
            width: 0,
            height: 0,
            visible: false,
            rgba: Vec::new(),
        }
    }
}

impl RemoteCursor {
    /// Whether there is no image.
    pub open spec fn empty(self) -> bool {
        self.rgba@.len() == 0 || self.width == 0 || self.height == 0
    }

    /// Whether there is no image yet, as right after connecting.
    pub fn is_empty(&self) -> (b: bool)
        ensures
            b == self.empty(),
    {
        self.rgba.len() == 0 || self.width == 0 || self.height == 0
    }

    /// What a pixel becomes under the cursor's pixel at a row and column.
    pub open spec fn over(self, row: int, col: int, below: u32) -> u32 {
        let off = (row * self.width + col) * 4;
        if off + 4 <= self.rgba@.len() && self.rgba@[off + 3] != 0 {
            let src = pixels::rgb(self.rgba@[off], self.rgba@[off + 1], self.rgba@[off + 2]);
            if self.rgba@[off + 3] == 255 {
                src
            } else {
                blended(below, src, self.rgba@[off + 3] as int)
            }
        } else {
            below
        }
    }
}

/// Whether a framebuffer position is one where an image whose corner is at
/// (`left`, `top`) shows the given row and column.
pub open spec fn shows(
    fb_width: u32,
    fb_height: u32,
    left: int,
    top: int,
    row: int,
    col: int,
    i: int,
) -> bool {
    &&& fb_width > 0
    &&& i / (fb_width as int) == top + row
    &&& i % (fb_width as int) == left + col
    &&& i / (fb_width as int) < (fb_height as i32)
    &&& i % (fb_width as int) < (fb_width as i32)
}

/// The framebuffer with a cursor drawn as far as column `c` of row `r`.
pub open spec fn cursor_part(
    buf: Seq<u32>,
    fb_width: u32,
    fb_height: u32,
    left: int,
    top: int,
    cursor: RemoteCursor,
    r: int,
    c: int,
) -> Seq<u32> {
    Seq::new(
        buf.len(),
        |i: int|
            {
                let row = i / (fb_width as int) - top;
                let col = i % (fb_width as int) - left;
                if shows(fb_width, fb_height, left, top, row, col, i) && 0 <= row && 0 <= col
                    < cursor.width && (row < r || (row == r && col < c)) {
                    cursor.over(row, col, buf[i])
                } else {
                    buf[i]
                }
            },
    )
}

/// The framebuffer with the server's cursor drawn so that its hotspot is at
/// (`x`, `y`).
pub open spec fn with_remote_cursor(
    buf: Seq<u32>,
    fb_width: u32,
    fb_height: u32,
    x: int,
    y: int,
    cursor: RemoteCursor,
) -> Seq<u32> {
    if !cursor.visible || cursor.empty() {
        buf
    } else {
        cursor_part(
            buf,
            fb_width,
            fb_height,
            x - cursor.hotspot_x,
            y - cursor.hotspot_y,
            cursor,
            cursor.height as int,
            0,
        )
    }
}

proof fn shown_at(fb_width: u32, fb_height: u32, left: int, top: int, row: int, col: int, i: int)
    requires
        0 <= left + col < (fb_width as i32),
        0 <= top + row < (fb_height as i32),
    ensures
        shows(fb_width, fb_height, left, top, row, col, i) <==> i == (top + row) * fb_width + left
            + col,
{
    let w = fb_width as int;
    assert((fb_width as i32) <= w) by {
        if fb_width <= i32::MAX {
        } else {
            assert(fb_width > 0x7fff_ffffu32 ==> (fb_width as i32) < 0) by (bit_vector);
        }
    }
    vstd::arithmetic::div_mod::lemma_fundamental_div_mod(i, w);
    assert(w * (i / w) == (i / w) * w) by (nonlinear_arith);
    if i == (top + row) * w + (left + col) {
        pixels::row_position(top + row, left + col, w);
    }
}

/// Draws the server's cursor so that its hotspot is under the pointer at
/// (`x`, `y`). The image has real transparency and is blended.
pub fn draw_remote_cursor(
    buf: &mut [u32],
    fb_width: u32,
    fb_height: u32,
    x: i32,
    y: i32,
    cursor: &RemoteCursor,
)
    ensures
        final(buf)@ == with_remote_cursor(
            old(buf)@,
            fb_width,
            fb_height,
            x as int,
            y as int,
            *cursor,
        ),
{
    if !cursor.visible || cursor.is_empty() {
        return ;
    }
    let ghost before = buf@;
    let left: i64 = x as i64 - cursor.hotspot_x as i64;
    let top: i64 = y as i64 - cursor.hotspot_y as i64;
    let right_limit: i64 = (fb_width as i32) as i64;
    let bottom_limit: i64 = (fb_height as i32) as i64;
    let len: usize = buf.len();
    let mut row: u32 = 0;
    assert(buf@ == cursor_part(
        before,
        fb_width,
        fb_height,
        left as int,
        top as int,
        *cursor,
        0,
        0,
    ));
    while row < cursor.height
        invariant
            row <= cursor.height,
            len == before.len(),
            left == x - cursor.hotspot_x,
            top == y - cursor.hotspot_y,
            right_limit == (fb_width as i32),
            bottom_limit == (fb_height as i32),
            buf@ == cursor_part(
                before,
                fb_width,
                fb_height,
                left as int,
                top as int,
                *cursor,
                row as int,
                0,
            ),
        decreases cursor.height - row,
    {
        let py: i64 = top + row as i64;
        let mut col: u32 = 0;
        while col < cursor.width
            invariant
                row < cursor.height,
                col <= cursor.width,
                len == before.len(),
                left == x - cursor.hotspot_x,
                top == y - cursor.hotspot_y,
                py == top + row,
                right_limit == (fb_width as i32),
                bottom_limit == (fb_height as i32),
                buf@ == cursor_part(
                    before,
                    fb_width,
                    fb_height,
                    left as int,
                    top as int,
                    *cursor,
                    row as int,
                    col as int,
                ),
            decreases cursor.width - col,
        {
            let ghost part = buf@;
            let px: i64 = left + col as i64;
            if py >= 0 && py < bottom_limit && px >= 0 && px < right_limit {
                assert(0 <= py * fb_width <= 0x7fff_ffff * 0xffff_ffff) by (nonlinear_arith)
                    requires
                        0 <= py <= 0x7fff_ffff,
                        0 <= fb_width <= 0xffff_ffff,
                ;
                let idx: u64 = py as u64 * fb_width as u64 + px as u64;
                if idx < len as u64 {
                    cursor_pixel(buf, idx as usize, cursor, row, col);
                }
            }
            proof {
                let next = cursor_part(
                    before,
                    fb_width,
                    fb_height,
                    left as int,
                    top as int,
                    *cursor,
                    row as int,
                    col + 1,
                );
                assert forall|i: int| 0 <= i < len implies buf@[i] == next[i] by {
                    if 0 <= px < right_limit && 0 <= py < bottom_limit {
                        shown_at(
                            fb_width,
                            fb_height,
                            left as int,
                            top as int,
                            row as int,
                            col as int,
                            i,
                        );
                    } else if fb_width > 0 {
                        vstd::arithmetic::div_mod::lemma_mod_bound(i, fb_width as int);
                        vstd::arithmetic::div_mod::lemma_div_pos_is_pos(i, fb_width as int);
                    }
                }
                assert(buf@ == next);
            }
            col = col + 1;
        }
        proof {
            assert(buf@ == cursor_part(
                before,
                fb_width,
                fb_height,
                left as int,
                top as int,
                *cursor,
                row + 1,
                0,
            ));
        }
        row = row + 1;
    }
}

fn cursor_pixel(buf: &mut [u32], idx: usize, cursor: &RemoteCursor, row: u32, col: u32)
    requires
        idx < old(buf)@.len(),
    ensures
        final(buf)@ == old(buf)@.update(
            idx as int,
            cursor.over(row as int, col as int, old(buf)@[idx as int]),
        ),
{
    assert(0 <= row * cursor.width <= 0xffff_ffff * 0xffff_ffff) by (nonlinear_arith)
        requires
            0 <= row <= 0xffff_ffff,
            0 <= cursor.width <= 0xffff_ffff,
    ;
    let off: u128 = (row as u128 * cursor.width as u128 + col as u128) * 4;
    if off + 4 <= cursor.rgba.len() as u128 {
        let o: usize = off as usize;
        let a: u8 = cursor.rgba[o + 3];
        if a != 0 {
            let src: u32 = cursor.rgba[o] as u32 * 65536 + cursor.rgba[o + 1] as u32 * 256
                + cursor.rgba[o + 2] as u32;
            buf[idx] = if a == 255 {
                src
            } else {
                blend(buf[idx], src, a as u32)
            };
        }
    }
    assert(buf@ == old(buf)@.update(
        idx as int,
        cursor.over(row as int, col as int, old(buf)@[idx as int]),
    ));
}

/// The color of the local cursor at a row and column, where it has one.
pub open spec fn sprite_color(row: int, col: int) -> Option<u32> {
    if 0 <= row < 16 && 0 <= col < CURSOR_SPRITE@[row]@.len() {
        let ch = CURSOR_SPRITE@[row]@[col];
        if ch == '#' {
            Some(CURSOR_OUTLINE)
        } else if ch == 'X' {
            Some(CURSOR_FILL)
        } else {
            None
        }
    } else {
        None
    }
}

/// The framebuffer with the local cursor drawn as far as column `c` of row `r`.
pub open spec fn sprite_part(
    buf: Seq<u32>,
    fb_width: u32,
    fb_height: u32,
    x: int,
    y: int,
    r: int,
    c: int,
) -> Seq<u32> {
    Seq::new(
        buf.len(),
        |i: int|
            {
                let row = i / (fb_width as int) - y;
                let col = i % (fb_width as int) - x;
                match sprite_color(row, col) {
                    Some(color) => if shows(fb_width, fb_height, x, y, row, col, i) && (row < r || (
                    row == r && col < c)) {
                        color
                    } else {
                        buf[i]
                    },
                    None => buf[i],
                }
            },
    )
}

/// The framebuffer with the local cursor drawn at (`x`, `y`).
pub open spec fn with_local_cursor(
    buf: Seq<u32>,
    fb_width: u32,
    fb_height: u32,
    x: int,
    y: int,
) -> Seq<u32> {
    sprite_part(buf, fb_width, fb_height, x, y, 16, 0)
}

/// Draws the local cursor with its tip at (`x`, `y`).
pub fn draw_local_cursor(buf: &mut [u32], fb_width: u32, fb_height: u32, x: i32, y: i32)
    ensures
        final(buf)@ == with_local_cursor(old(buf)@, fb_width, fb_height, x as int, y as int),
{
    let sprite = CURSOR_SPRITE;
    let ghost before = buf@;
    let right_limit: i64 = (fb_width as i32) as i64;
    let bottom_limit: i64 = (fb_height as i32) as i64;
    let len: usize = buf.len();
    let mut row: usize = 0;
    assert(buf@ == sprite_part(before, fb_width, fb_height, x as int, y as int, 0, 0));
    while row < 16
        invariant
            row <= 16,
            len == before.len(),
            sprite@ == CURSOR_SPRITE@,
            right_limit == (fb_width as i32),
            bottom_limit == (fb_height as i32),
            buf@ == sprite_part(before, fb_width, fb_height, x as int, y as int, row as int, 0),
        decreases 16 - row,
    {
        let line = text::chars_of(sprite[row]);
        let py: i64 = y as i64 + row as i64;
        let mut col: usize = 0;
        while col < line.len()
            invariant
                row < 16,
                col <= line@.len(),
                line@ == CURSOR_SPRITE@[row as int]@,
                len == before.len(),
                py == y + row,
                right_limit == (fb_width as i32),
                bottom_limit == (fb_height as i32),
                buf@ == sprite_part(
                    before,
                    fb_width,
                    fb_height,
                    x as int,
                    y as int,
                    row as int,
                    col as int,
                ),
            decreases line@.len() - col,
        {
            let ch = line[col];
            let px: i128 = x as i128 + col as i128;
            if (ch == '#' || ch == 'X') && py >= 0 && py < bottom_limit && px >= 0 && px
                < right_limit as i128 {
                let color: u32 = if ch == '#' {
                    CURSOR_OUTLINE
                } else {
                    CURSOR_FILL
                };
                assert(0 <= py * fb_width <= 0x7fff_ffff * 0xffff_ffff) by (nonlinear_arith)
                    requires
                        0 <= py <= 0x7fff_ffff,
                        0 <= fb_width <= 0xffff_ffff,
                ;
                let idx: u64 = py as u64 * fb_width as u64 + px as u64;
                if idx < len as u64 {
                    buf[idx as usize] = color;
                }
            }
            proof {
                let next = sprite_part(
                    before,
                    fb_width,
                    fb_height,
                    x as int,
                    y as int,
                    row as int,
                    col + 1,
                );
                assert forall|i: int| 0 <= i < len implies buf@[i] == next[i] by {
                    if 0 <= px < right_limit && 0 <= py < bottom_limit {
                        shown_at(
                            fb_width,
                            fb_height,
                            x as int,
                            y as int,
                            row as int,
                            col as int,
                            i,
                        );
                    } else if fb_width > 0 {
                        vstd::arithmetic::div_mod::lemma_mod_bound(i, fb_width as int);
                        vstd::arithmetic::div_mod::lemma_div_pos_is_pos(i, fb_width as int);
                    }
                }
                assert(buf@ == next);
            }
            col = col + 1;
        }
        proof {
            assert(buf@ == sprite_part(
                before,
                fb_width,
                fb_height,
                x as int,
                y as int,
                row + 1,
                0,
            ));
        }
        row = row + 1;
    }
}

/// The number of times a number has to be halved until it is exact in a 64-bit
/// floating-point number, which has 53 bits.
pub open spec fn excess_bits(n: nat) -> nat
    decreases n,
{
    if n < 0x20_0000_0000_0000 {
        0
    } else {
        1 + excess_bits(n / 2)
    }
}

/// `a / b` rounded to the nearest whole number, a tie to the even one.
pub open spec fn nearest_even(a: nat, b: nat) -> nat {
    let q = a / b;
    let r = a % b;
    if 2 * r > b || (2 * r == b && q % 2 == 1) {
        q + 1
    } else {
        q
    }
}

/// Two to the power of `k`.
pub open spec fn power_of_two(k: nat) -> nat
    decreases k,
{
    if k == 0 {
        1
    } else {
        2 * power_of_two((k - 1) as nat)
    }
}

/// A number as a 64-bit floating-point number holds it.
pub open spec fn as_double(n: nat) -> nat {
    let step = power_of_two(excess_bits(n));
    nearest_even(n, step) * step
}

/// A multiple of `unit`, with one digit behind the point.
pub open spec fn one_decimal(n: nat, unit: nat) -> Seq<char> {
    let tenths = nearest_even(10 * n, unit);
    text::decimal(tenths / 10) + "."@ + text::decimal(tenths % 10)
}

/// How a data rate is shown.
pub open spec fn rate_text(bytes_per_sec: u64) -> Seq<char> {
    let bps = as_double(bytes_per_sec as nat);
    if bps >= 1_048_576 {
        one_decimal(bps, 1_048_576) + " MB/s"@
    } else if bps >= 1024 {
        one_decimal(bps, 1024) + " KB/s"@
    } else {
        text::decimal(bps) + " B/s"@
    }
}

fn rounded_double(n: u64) -> (r: u128)
    ensures
        r == as_double(n as nat),
        r <= 0x2_0000_0000_0000_0000,
{
    let mut m: u64 = n;
    let mut step: u128 = 1;
    let ghost mut k: nat = 0;
    while m >= 0x20_0000_0000_0000
        invariant
            step == power_of_two(k),
            excess_bits(n as nat) == k + excess_bits(m as nat),
            m * step <= n,
            1 <= step,
            m <= u64::MAX,
        decreases m,
    {
        proof {
            assert(step <= 0x1_0000_0000_0000_0000) by (nonlinear_arith)
                requires
                    m * step <= n,
                    m >= 1,
                    n <= u64::MAX,
                    step >= 1,
            ;
            assert((m / 2) * (step * 2) <= m * step) by (nonlinear_arith)
                requires
                    (m / 2) * 2 <= m,
                    step >= 1,
            ;
            k = k + 1;
        }
        m = m / 2;
        step = step * 2;
    }
    proof {
        assert(step <= 0x1_0000_0000_0000_0000 || m == 0) by (nonlinear_arith)
            requires
                m * step <= n,
                n <= u64::MAX,
                step >= 1,
        ;
        step_bound(n as nat);
        assert(step == power_of_two(excess_bits(n as nat)));
    }
    let q: u128 = n as u128 / step;
    let rest: u128 = n as u128 % step;
    assert(q <= n) by (nonlinear_arith)
        requires
            q == n as int / step as int,
            step >= 1,
            n >= 0,
    ;
    let q: u128 = if 2 * rest > step || (2 * rest == step && q % 2 == 1) {
        q + 1
    } else {
        q
    };
    proof {
        assert(q * step <= 0x1_0000_0000_0000_0000 + 0x1_0000_0000_0000_0000) by (nonlinear_arith)
            requires
                q <= n as int / step as int + 1,
                step >= 1,
                step <= 0x1_0000_0000_0000_0000,
                n <= u64::MAX,
                n >= 0,
        ;
        assert(q * step >= 0) by (nonlinear_arith)
            requires
                q >= 0,
                step >= 0,
        ;
    }
    q * step
}

proof fn step_bound(n: nat)
    requires
        n <= u64::MAX,
    ensures
        1 <= power_of_two(excess_bits(n)) <= 0x1_0000_0000_0000_0000,
{
    power_of_halvings(n);
    if n == 0 {
    } else {
        let p = power_of_two(excess_bits(n));
        assert(p <= n || excess_bits(n) == 0);
    }
}

proof fn power_of_halvings(n: nat)
    ensures
        power_of_two(excess_bits(n)) >= 1,
        excess_bits(n) > 0 ==> power_of_two(excess_bits(n)) <= n,
    decreases n,
{
    if n >= 0x20_0000_0000_0000 {
        power_of_halvings(n / 2);
        let e = excess_bits(n / 2);
        assert(power_of_two(excess_bits(n)) == 2 * power_of_two(e));
    }
}

fn one_decimal_text(n: u128, unit: u128) -> (s: String)
    requires
        n <= 0x2_0000_0000_0000_0000,
        1024 <= unit <= 1_048_576,
        n / unit <= 0xFFF_FFFF_FFFF_FFFF,
    ensures
        s@ == one_decimal(n as nat, unit as nat),
{
    let a: u128 = 10 * n;
    let q: u128 = a / unit;
    let r: u128 = a % unit;
    assert(q <= 10 * (n / unit) + 10) by (nonlinear_arith)
        requires
            q == (10 * n as int) / unit as int,
            unit >= 1,
            n >= 0,
    ;
    let tenths: u128 = if 2 * r > unit || (2 * r == unit && q % 2 == 1) {
        q + 1
    } else {
        q
    };
    text::decimal_text((tenths / 10) as u64).concat(".").concat(
        text::decimal_text((tenths % 10) as u64).as_str(),
    )
}

/// Shows a data rate with its unit, to one decimal place.
pub fn format_rate(bytes_per_sec: u64) -> (s: String)
    ensures
        s@ == rate_text(bytes_per_sec),
{
    let bps: u128 = rounded_double(bytes_per_sec);
    if bps >= 1_048_576 {
        assert(bps / 1_048_576 <= 0xFFF_FFFF_FFFF_FFFF);
        one_decimal_text(bps, 1_048_576).concat(" MB/s")
    } else if bps >= 1024 {
        assert(bps / 1024 <= 0xFFF_FFFF_FFFF_FFFF);
        one_decimal_text(bps, 1024).concat(" KB/s")
    } else {
        text::decimal_text(bps as u64).concat(" B/s")
    }
}

/// Side of the on-screen keyboard button.
pub const KBD_BTN_SIZE: u32 = 46;

/// Distance of the keyboard button from the corner.
pub const KBD_BTN_MARGIN: u32 = 18;

/// Where the keyboard button is: x, y, width and height.
pub open spec fn button_rect(fb_width: u32, fb_height: u32) -> (u32, u32, u32, u32) {
    (
        if fb_width >= 64 {
            (fb_width - 64) as u32
        } else {
            0
        },
        if fb_height >= 64 {
            (fb_height - 64) as u32
        } else {
            0
        },
        46,
        46,
    )
}

/// Where the keyboard button is, in the bottom right corner: x, y, width and
/// height.
pub fn keyboard_button_rect(fb_width: u32, fb_height: u32) -> (r: (u32, u32, u32, u32))
    ensures
        r == button_rect(fb_width, fb_height),
{
    let s: u32 = KBD_BTN_SIZE;
    let x: u32 = fb_width.saturating_sub(s + KBD_BTN_MARGIN);
    let y: u32 = fb_height.saturating_sub(s + KBD_BTN_MARGIN);
    (x, y, s, s)
}

pub const BAR_BG: u32 = 0x181825;

pub const BAR_BORDER: u32 = 0x313244;

pub const BAR_TEXT: u32 = 0xCDD6F4;

pub const BAR_HOVER_BG: u32 = 0x313244;

/// The green of options that are on.
pub const BAR_ON_FG: u32 = 0xA6E3A1;

/// Height of the menu bar.
pub const MENUBAR_HEIGHT: u32 = 24;

/// The framebuffer with the first `n` of eight little keys drawn, in two rows
/// of four.
pub open spec fn with_keys(
    buf: Seq<u32>,
    stride: int,
    x: int,
    y: int,
    color: u32,
    n: int,
) -> Seq<u32>
    decreases n,
{
    if n <= 0 {
        buf
    } else {
        with_rect(
            with_keys(buf, stride, x, y, color, n - 1),
            stride,
            x + ((n - 1) % 4) * 6,
            y + ((n - 1) / 4) * 6,
            3,
            3,
            color,
        )
    }
}

pub proof fn with_keys_len(buf: Seq<u32>, stride: int, x: int, y: int, color: u32, n: int)
    ensures
        with_keys(buf, stride, x, y, color, n).len() == buf.len(),
    decreases n,
{
    if n > 0 {
        with_keys_len(buf, stride, x, y, color, n - 1);
    }
}

/// The framebuffer with the keyboard button drawn: a translucent panel, its
/// border, and a keyboard of eight keys and a space bar.
pub open spec fn with_keyboard_button(
    buf: Seq<u32>,
    fb_width: u32,
    fb_height: u32,
    active: bool,
) -> Seq<u32> {
    let (x, y, w, h) = button_rect(fb_width, fb_height);
    let st = fb_width as int;
    let fg = if active {
        BAR_ON_FG
    } else {
        0xCDD6F4
    };
    let border = if active {
        BAR_ON_FG
    } else {
        0x585B70
    };
    let panel = with_tint(
        buf,
        st,
        x as int,
        y as int,
        46,
        46,
        0x1E1E2E,
        if active {
            210
        } else {
            140
        },
    );
    let framed = with_outline(panel, st, x as int, y as int, 46, 46, border);
    let body = with_outline(framed, st, x + 10, y + 10, 26, 26, fg);
    let keys = with_keys(body, st, x + 14, y + 14, fg, 8);
    with_rect(keys, st, x + 14, y + 30, 18, 2, fg)
}

/// Draws the translucent keyboard button in the bottom right corner, lit while
/// the on-screen keyboard is up.
pub fn draw_keyboard_button(buf: &mut [u32], fb_width: u32, fb_height: u32, active: bool)
    requires
        ({
            let r = button_rect(fb_width, fb_height);
            rect_fits(
                old(buf)@.len() as int,
                fb_width as int,
                r.0 as int,
                r.1 as int,
                r.2 as int,
                r.3 as int,
            )
        }),
    ensures
        final(buf)@ == with_keyboard_button(old(buf)@, fb_width, fb_height, active),
{
    let (x, y, w, h) = keyboard_button_rect(fb_width, fb_height);
    let (x, y): (usize, usize) = (x as usize, y as usize);
    let stride: usize = fb_width as usize;
    let bg_alpha: u32 = if active {
        210
    } else {
        140
    };
    let ghost st = stride as int;
    let ghost len = buf@.len() as int;
    let ghost button: (int, int, int, int) = (x as int, y as int, 46, 46);
    proof {
        inner_outline_fits(len, st, button, x as int, y as int, 46, 46);
        inner_outline_fits(len, st, button, x + 10, y + 10, 26, 26);
        inner_rect_fits(len, st, button, x + 14, y + 30, 18, 2);
    }
    fill_rect_alpha(buf, stride, x, y, 46, 46, 0x1E1E2E, bg_alpha);
    let border: u32 = if active {
        BAR_ON_FG
    } else {
        0x585B70
    };
    draw_rect_outline(buf, stride, x, y, 46, 46, border);
    let fg: u32 = if active {
        BAR_ON_FG
    } else {
        0xCDD6F4
    };
    draw_rect_outline(buf, stride, x + 10, y + 10, 26, 26, fg);
    let ghost body = buf@;
    let mut k: usize = 0;
    while k < 8
        invariant
            k <= 8,
            body.len() == len,
            st == stride,
            x + 46 <= usize::MAX,
            button == (x as int, y as int, 46int, 46int),
            rect_fits(len, st, x as int, y as int, 46, 46),
            buf@ == with_keys(body, stride as int, x + 14, y + 14, fg, k as int),
        decreases 8 - k,
    {
        proof {
            with_keys_len(body, stride as int, x + 14, y + 14, fg, k as int);
            inner_rect_fits(len, st, button, x + 14 + (k % 4) * 6, y + 14 + (k / 4) * 6, 3, 3);
        }
        fill_rect(buf, stride, x + 14 + (k % 4) * 6, y + 14 + (k / 4) * 6, 3, 3, fg);
        k = k + 1;
    }
    proof {
        with_keys_len(body, stride as int, x + 14, y + 14, fg, 8);
    }
    fill_rect(buf, stride, x + 14, y + 30, 18, 2, fg);
}

/// Whether a position is on the keyboard button.
pub fn hit_test_keyboard_button(fb_width: u32, fb_height: u32, x: i32, y: i32) -> (b: bool)
    ensures
        ({
            let r = button_rect(fb_width, fb_height);
            b == (x >= (r.0 as i32) && x < ((r.0 + r.2) as u32 as i32) && y >= (r.1 as i32) && y < ((r.1
                + r.3) as u32 as i32))
        }),
{
    let (bx, by, bw, bh) = keyboard_button_rect(fb_width, fb_height);
    x >= bx as i32 && x < (bx + bw) as i32 && y >= by as i32 && y < (by + bh) as i32
}

/// Amber, for caution.
pub const RECONNECT_FG: u32 = 0xF9E2AF;

pub const RECONNECT_BG: u32 = 0x181825;

/// What the reconnect banner says.
pub open spec fn banner_text(attempt: u32) -> Seq<char> {
    " Reconnecting... (attempt "@ + text::decimal(attempt as nat) + ") "@
}

/// Width of the reconnect banner.
pub open spec fn banner_width(attempt: u32) -> int {
    16 * banner_text(attempt).len() as int + 16
}

/// Left edge of the reconnect banner, which is centered where there is room.
pub open spec fn banner_x(fb_width: u32, attempt: u32) -> int {
    if fb_width >= banner_width(attempt) {
        (fb_width - banner_width(attempt)) / 2
    } else {
        0
    }
}

/// The framebuffer with the reconnect banner drawn, centered under the menu
/// bar.
pub open spec fn with_banner(buf: Seq<u32>, fb_width: u32, attempt: u32) -> Seq<u32> {
    let w = banner_width(attempt);
    let x = banner_x(fb_width, attempt);
    let st = fb_width as int;
    let panel = with_tint(buf, st, x, 36, w, 28, RECONNECT_BG, 220);
    let framed = with_outline(panel, st, x, 36, w, 28, RECONNECT_FG);
    with_text(framed, st, x + 8, 42, banner_text(attempt), RECONNECT_FG)
}

/// Whether the positions in a reconnect banner can be computed.
pub open spec fn banner_fits(len: int, fb_width: u32, attempt: u32) -> bool {
    let x = banner_x(fb_width, attempt);
    &&& rect_fits(len, fb_width as int, x, 36, banner_width(attempt), 28)
    &&& text_fits(fb_width as int, x + 8, 42, banner_text(attempt).len() as int)
}

proof fn banner_len(attempt: u32)
    ensures
        banner_text(attempt).len() <= 48,
{
    text::decimal_len_machine(attempt as u64);
    reveal_strlit(" Reconnecting... (attempt ");
    reveal_strlit(") ");
}

/// Draws the banner that a dropped connection is being retried, over whatever
/// picture was there last.
pub fn draw_reconnect_banner(buf: &mut [u32], fb_width: u32, fb_height: u32, attempt: u32)
    requires
        banner_fits(old(buf)@.len() as int, fb_width, attempt),
    ensures
        final(buf)@ == with_banner(old(buf)@, fb_width, attempt),
{
    proof {
        banner_len(attempt);
    }
    let mut s = text::chars_of(" Reconnecting... (attempt ");
    let mut digits = text::decimal_chars(attempt as u64);
    s.append(&mut digits);
    text::push_str(&mut s, ") ");
    assert(s@ == banner_text(attempt));
    let w: usize = s.len() * 16 + 16;
    let stride: usize = fb_width as usize;
    let x: usize = stride.saturating_sub(w) / 2;
    proof {
        let banner = (x as int, 36int, w as int, 28int);
        inner_outline_fits(buf@.len() as int, stride as int, banner, x as int, 36, w as int, 28);
    }
    fill_rect_alpha(buf, stride, x, 36, w, 28, RECONNECT_BG, 220);
    draw_rect_outline(buf, stride, x, 36, w, 28, RECONNECT_FG);
    draw_chars(buf, stride, x + 8, 42, &s, RECONNECT_FG);
}

/// An entry of the menu bar.
#[derive(Debug, Clone, Copy, PartialEq, Eq, Structural)]
pub enum BarItem {
    DataRate,
    ClientCursor,
    Windows,
    Fullscreen,
    Quit,
}

/// The entries of the menu bar, from left to right.
pub const BAR_ITEMS: [BarItem; 5] = [
    BarItem::DataRate,
    BarItem::ClientCursor,
    BarItem::Windows,
    BarItem::Fullscreen,
    BarItem::Quit,
];

/// What the menu bar shows.
#[derive(Debug, Clone, Copy, PartialEq, Eq, Structural)]
pub struct BarStatus {
    pub show_data_rate: bool,
    pub client_cursor: bool,
    pub show_windows: bool,
    pub fullscreen: bool,
    pub data_rate: u64,
    pub window_count: usize,
    pub hovered: Option<BarItem>,
}

impl BarItem {
    /// The text of an entry.
    pub open spec fn label_text(self, st: BarStatus) -> Seq<char> {
        match self {
            BarItem::DataRate => if st.show_data_rate {
                " "@ + rate_text(st.data_rate) + " "@
            } else {
                " Data rate "@
            },
            BarItem::ClientCursor => if st.client_cursor {
                " [x] Local cursor "@
            } else {
                " [ ] Local cursor "@
            },
            BarItem::Windows => (if st.show_windows {
                " [x] Windows ("@
            } else {
                " [ ] Windows ("@
            }) + text::decimal(st.window_count as nat) + ") "@,
            BarItem::Fullscreen => if st.fullscreen {
                " Windowed "@
            } else {
                " Fullscreen "@
            },
            BarItem::Quit => " Quit "@,
        }
    }

    /// The text of an entry: what it toggles, and how that stands.
    pub fn label(
        &self,
        show_data_rate: bool,
        client_cursor: bool,
        show_windows: bool,
        fullscreen: bool,
        rate: u64,
        window_count: usize,
    ) -> (s: String)
        ensures
            s@ == self.label_text(
                (BarStatus {
                    show_data_rate,
                    client_cursor,
                    show_windows,
                    fullscreen,
                    data_rate: rate,
                    window_count,
                    hovered: None,
                }),
            ),
    {
        match self {
            BarItem::DataRate => {
                if show_data_rate {
                    String::from_str(" ").concat(format_rate(rate).as_str()).concat(" ")
                } else {
                    String::from_str(" Data rate ")
                }
            },
            BarItem::ClientCursor => {
                if client_cursor {
                    String::from_str(" [x] Local cursor ")
                } else {
                    String::from_str(" [ ] Local cursor ")
                }
            },
            BarItem::Windows => {
                let head = if show_windows {
                    String::from_str(" [x] Windows (")
                } else {
                    String::from_str(" [ ] Windows (")
                };
                head.concat(text::decimal_text(window_count as u64).as_str()).concat(") ")
            },
            BarItem::Fullscreen => {
                if fullscreen {
                    String::from_str(" Windowed ")
                } else {
                    String::from_str(" Fullscreen ")
                }
            },
            BarItem::Quit => String::from_str(" Quit "),
        }
    }

    /// The color of an entry: green for options that are on.
    pub open spec fn color(self, st: BarStatus) -> u32 {
        if (self == BarItem::DataRate && st.show_data_rate) || (self == BarItem::ClientCursor
            && st.client_cursor) || (self == BarItem::Windows && st.show_windows) {
            BAR_ON_FG
        } else {
            BAR_TEXT
        }
    }
}

proof fn label_len(item: BarItem, st: BarStatus)
    ensures
        1 <= item.label_text(st).len() <= 64,
{
    reveal_strlit(" ");
    reveal_strlit(" Data rate ");
    reveal_strlit(" [x] Local cursor ");
    reveal_strlit(" [ ] Local cursor ");
    reveal_strlit(" [x] Windows (");
    reveal_strlit(" [ ] Windows (");
    reveal_strlit(") ");
    reveal_strlit(" Windowed ");
    reveal_strlit(" Fullscreen ");
    reveal_strlit(" Quit ");
    reveal_strlit(".");
    reveal_strlit(" MB/s");
    reveal_strlit(" KB/s");
    reveal_strlit(" B/s");
    text::decimal_len_machine(st.window_count as u64);
    rate_text_len(st.data_rate);
}

proof fn rate_text_len(rate: u64)
    ensures
        rate_text(rate).len() <= 40,
{
    reveal_strlit(".");
    reveal_strlit(" MB/s");
    reveal_strlit(" KB/s");
    reveal_strlit(" B/s");
    double_bound(rate as nat);
    let bps = as_double(rate as nat);
    if bps >= 1024 {
        let unit: nat = if bps >= 1_048_576 {
            1_048_576
        } else {
            1024
        };
        let tenths = nearest_even(10 * bps, unit);
        assert(tenths <= u64::MAX);
        text::decimal_len_machine((tenths / 10) as u64);
        text::decimal_len_machine((tenths % 10) as u64);
    } else {
        text::decimal_len_machine(bps as u64);
    }
}

proof fn double_bound(n: nat)
    requires
        n <= u64::MAX,
    ensures
        as_double(n) <= 0x2_0000_0000_0000_0000,
{
    step_bound(n);
    let step = power_of_two(excess_bits(n));
    let q = nearest_even(n, step);
    assert(q * step <= 0x2_0000_0000_0000_0000) by (nonlinear_arith)
        requires
            q <= n / step + 1,
            1 <= step <= 0x1_0000_0000_0000_0000,
            n <= u64::MAX,
    ;
}

/// Where the entries of the menu bar are.
#[derive(Debug, Clone)]
pub struct BarLayout {
    /// Entry, left edge and width, in pixels.
    pub item_rects: Vec<(BarItem, u32, u32)>,
}

/// Width of an entry.
pub open spec fn bar_width(st: BarStatus, k: int) -> int {
    16 * BAR_ITEMS@[k].label_text(st).len() as int
}

/// Left edge of entry number `k`.
pub open spec fn bar_x(st: BarStatus, k: int) -> int
    decreases k,
{
    if k <= 0 {
        180
    } else {
        bar_x(st, k - 1) + bar_width(st, k - 1) + 4
    }
}

/// The framebuffer with the menu bar drawn up to its first `k` entries.
pub open spec fn bar_part(buf: Seq<u32>, stride: int, st: BarStatus, k: int) -> Seq<u32>
    decreases k,
{
    if k <= 0 {
        let strip = with_rect(buf, stride, 0, 0, stride, 24, BAR_BG);
        let line = with_rect(strip, stride, 0, 23, stride, 1, BAR_BORDER);
        with_text(line, stride, 8, 4, " Termland "@, 0x89B4FA)
    } else {
        let before = bar_part(buf, stride, st, k - 1);
        let item = BAR_ITEMS@[k - 1];
        let x = bar_x(st, k - 1);
        let lit = if st.hovered == Some(item) {
            with_rect(before, stride, x, 0, bar_width(st, k - 1), 23, BAR_HOVER_BG)
        } else {
            before
        };
        with_text(lit, stride, x, 4, item.label_text(st), item.color(st))
    }
}

/// The framebuffer with the menu bar drawn.
pub open spec fn with_menubar(buf: Seq<u32>, fb_width: u32, st: BarStatus) -> Seq<u32> {
    bar_part(buf, fb_width as int, st, 5)
}

/// Whether the positions in an entry of the menu bar can be computed.
pub open spec fn entry_fits(len: int, fb_width: u32, st: BarStatus, k: int) -> bool {
    let x = bar_x(st, k);
    &&& text_fits(fb_width as int, x, 4, BAR_ITEMS@[k].label_text(st).len() as int)
    &&& st.hovered == Some(BAR_ITEMS@[k]) ==> rect_fits(
        len,
        fb_width as int,
        x,
        0,
        bar_width(st, k),
        23,
    )
}

/// Whether the positions in the menu bar can be computed.
pub open spec fn bar_fits(len: int, fb_width: u32, st: BarStatus) -> bool {
    &&& text_fits(fb_width as int, 8, 4, " Termland "@.len() as int)
    &&& forall|k: int| 0 <= k < 5 ==> #[trigger] entry_fits(len, fb_width, st, k)
}

/// The layout of the menu bar: each entry with its left edge and width.
pub open spec fn bar_layout(st: BarStatus, k: int) -> Seq<(BarItem, u32, u32)> {
    Seq::new(
        k as nat,
        |i: int| (BAR_ITEMS@[i], bar_x(st, i) as u32, bar_width(st, i) as u32),
    )
}

pub proof fn bar_bounds(st: BarStatus, k: int)
    requires
        0 <= k <= 5,
    ensures
        180 <= bar_x(st, k) <= 180 + k * 1028,
        k < 5 ==> 16 <= bar_width(st, k) <= 1024,
    decreases k,
{
    if k < 5 {
        label_len(BAR_ITEMS@[k], st);
    }
    if k > 0 {
        bar_bounds(st, k - 1);
    }
}

pub proof fn bar_part_len(buf: Seq<u32>, stride: int, st: BarStatus, k: int)
    ensures
        bar_part(buf, stride, st, k).len() == buf.len(),
    decreases k,
{
    if k <= 0 {
        let strip = with_rect(buf, stride, 0, 0, stride, 24, BAR_BG);
        let line = with_rect(strip, stride, 0, 23, stride, 1, BAR_BORDER);
        with_text_len(line, stride, 8, 4, " Termland "@, 0x89B4FA);
    } else {
        bar_part_len(buf, stride, st, k - 1);
        let item = BAR_ITEMS@[k - 1];
        let before = bar_part(buf, stride, st, k - 1);
        let x = bar_x(st, k - 1);
        let lit = if st.hovered == Some(item) {
            with_rect(before, stride, x, 0, bar_width(st, k - 1), 23, BAR_HOVER_BG)
        } else {
            before
        };
        with_text_len(lit, stride, x, 4, item.label_text(st), item.color(st));
    }
}

fn is_hovered(hovered: Option<BarItem>, item: BarItem) -> (b: bool)
    ensures
        b == (hovered == Some(item)),
{
    match hovered {
        Some(h) => h == item,
        None => false,
    }
}

/// Draws the menu bar at the top and says where its entries are.
#[allow(clippy::too_many_arguments)]
pub fn draw_menubar(
    buf: &mut [u32],
    fb_width: u32,
    fb_height: u32,
    show_data_rate: bool,
    client_cursor: bool,
    show_windows: bool,
    fullscreen: bool,
    data_rate: u64,
    window_count: usize,
    hovered: Option<BarItem>,
) -> (layout: BarLayout)
    requires
        ({
            let st = BarStatus {
                show_data_rate,
                client_cursor,
                show_windows,
                fullscreen,
                data_rate,
                window_count,
                hovered,
            };
            bar_fits(old(buf)@.len() as int, fb_width, st)
        }),
    ensures
        ({
            let st = BarStatus {
                show_data_rate,
                client_cursor,
                show_windows,
                fullscreen,
                data_rate,
                window_count,
                hovered,
            };
            &&& final(buf)@ == with_menubar(old(buf)@, fb_width, st)
            &&& layout.item_rects@ == bar_layout(st, 5)
        }),
{
    let st = BarStatus {
        show_data_rate,
        client_cursor,
        show_windows,
        fullscreen,
        data_rate,
        window_count,
        hovered,
    };
    draw_bar(buf, fb_width, &st)
}

fn draw_bar(buf: &mut [u32], fb_width: u32, st: &BarStatus) -> (layout: BarLayout)
    requires
        bar_fits(old(buf)@.len() as int, fb_width, *st),
    ensures
        final(buf)@ == with_menubar(old(buf)@, fb_width, *st),
        layout.item_rects@ == bar_layout(*st, 5),
{
    let ghost before = buf@;
    let stride: usize = fb_width as usize;
    let ghost sd = stride as int;
    let items = BAR_ITEMS;
    let len: usize = buf.len();
    proof {
        rects_fit_with_room(len as int, sd, 0, 0, sd, 24);
        rects_fit_with_room(len as int, sd, 0, 23, sd, 1);
    }
    fill_rect(buf, stride, 0, 0, stride, 24, BAR_BG);
    fill_rect(buf, stride, 0, 23, stride, 1, BAR_BORDER);
    draw_text(buf, stride, 8, 4, " Termland ", 0x89B4FA);
    let mut x: usize = 180;
    let mut item_rects: Vec<(BarItem, u32, u32)> = Vec::new();
    let mut k: usize = 0;
    while k < 5
        invariant
            k <= 5,
            sd == stride,
            stride == fb_width,
            items@ == BAR_ITEMS@,
            bar_fits(before.len() as int, fb_width, *st),
            x == bar_x(*st, k as int),
            item_rects@ == bar_layout(*st, k as int),
            buf@ == bar_part(before, sd, *st, k as int),
        decreases 5 - k,
    {
        let item = items[k];
        let label = text::chars_of(
            item.label(
                st.show_data_rate,
                st.client_cursor,
                st.show_windows,
                st.fullscreen,
                st.data_rate,
                st.window_count,
            ).as_str(),
        );
        proof {
            bar_bounds(*st, k as int);
            bar_part_len(before, sd, *st, k as int);
            assert(label@ == BAR_ITEMS@[k as int].label_text(*st));
            assert(entry_fits(before.len() as int, fb_width, *st, k as int));
        }
        let item_w: usize = label.len() * 16;
        if is_hovered(st.hovered, item) {
            fill_rect(buf, stride, x, 0, item_w, 23, BAR_HOVER_BG);
        }
        let on = match item {
            BarItem::DataRate => st.show_data_rate,
            BarItem::ClientCursor => st.client_cursor,
            BarItem::Windows => st.show_windows,
            _ => false,
        };
        let color: u32 = if on {
            BAR_ON_FG
        } else {
            BAR_TEXT
        };
        draw_chars(buf, stride, x, 4, &label, color);
        item_rects.push((item, x as u32, item_w as u32));
        assert(item_rects@ == bar_layout(*st, k + 1));
        x = x + item_w + 4;
        k = k + 1;
    }
    BarLayout { item_rects }
}

/// Whether a column lies in an entry of the menu bar.
pub open spec fn on_entry(rect: (BarItem, u32, u32), x: i32) -> bool {
    x >= (rect.1 as i32) && x < ((rect.1 + rect.2) as u32 as i32)
}

/// The entry under a column: the first one that has it.
pub open spec fn entry_at(rects: Seq<(BarItem, u32, u32)>, x: i32) -> Option<BarItem>
    decreases rects.len(),
{
    if rects.len() == 0 {
        None
    } else if on_entry(rects[0], x) {
        Some(rects[0].0)
    } else {
        entry_at(rects.skip(1), x)
    }
}

/// The menu bar entry under a position, if there is one. `in_bar` says whether
/// the position is in the bar's rows at all.
pub fn hit_test_menubar(layout: &BarLayout, x: i32, in_bar: bool) -> (r: Option<BarItem>)
    requires
        forall|i: int|
            0 <= i < layout.item_rects@.len() ==> (#[trigger] layout.item_rects@[i]).1
                + layout.item_rects@[i].2 <= u32::MAX,
    ensures
        r == (if in_bar {
            entry_at(layout.item_rects@, x)
        } else {
            None
        }),
{
    if !in_bar {
        return None;
    }
    let rects = &layout.item_rects;
    let mut i: usize = 0;
    assert(rects@.skip(0) == rects@);
    while i < rects.len()
        invariant
            i <= rects@.len(),
            in_bar,
            rects@ == layout.item_rects@,
            forall|k: int|
                0 <= k < rects@.len() ==> (#[trigger] rects@[k]).1 + rects@[k].2 <= u32::MAX,
            entry_at(rects@, x) == entry_at(rects@.skip(i as int), x),
        decreases rects@.len() - i,
    {
        let (item, ix, iw) = rects[i];
        proof {
            assert(rects@.skip(i as int)[0] == rects@[i as int]);
            assert(rects@.skip(i as int).skip(1) == rects@.skip(i + 1));
        }
        if x >= ix as i32 && x < (ix + iw) as i32 {
            return Some(item);
        }
        i = i + 1;
    }
    None
}

proof fn entry_found(rects: Seq<(BarItem, u32, u32)>, k: int, x: i32)
    requires
        0 <= k < rects.len(),
        on_entry(rects[k], x),
        forall|j: int| 0 <= j < k ==> !on_entry(#[trigger] rects[j], x),
    ensures
        entry_at(rects, x) == Some(rects[k].0),
    decreases rects.len(),
{
    if k > 0 {
        let t = rects.skip(1);
        assert(!on_entry(rects[0], x));
        assert forall|j: int| 0 <= j < k - 1 implies !on_entry(#[trigger] t[j], x) by {
            assert(t[j] == rects[j + 1]);
        }
        entry_found(t, k - 1, x);
    }
}

proof fn bar_x_grows(st: BarStatus, j: int, k: int)
    requires
        0 <= j < k <= 5,
    ensures
        bar_x(st, j) + bar_width(st, j) < bar_x(st, k),
    decreases k - j,
{
    bar_bounds(st, j);
    if k > j + 1 {
        bar_x_grows(st, j, k - 1);
        bar_bounds(st, k - 1);
    }
}

/// A click on any column of an entry, as the bar was drawn, finds that entry.
pub proof fn clicks_find_their_entry(st: BarStatus, k: int, x: i32)
    requires
        0 <= k < 5,
        bar_x(st, k) <= x < bar_x(st, k) + bar_width(st, k),
    ensures
        entry_at(bar_layout(st, 5), x) == Some(BAR_ITEMS@[k]),
        forall|i: int|
            0 <= i < 5 ==> (#[trigger] bar_layout(st, 5)[i]).1 + bar_layout(st, 5)[i].2 <= u32::MAX,
{
    let rects = bar_layout(st, 5);
    assert forall|i: int| 0 <= i < 5 implies (#[trigger] rects[i]).1 == bar_x(st, i) && rects[i].2
        == bar_width(st, i) && bar_x(st, i) + bar_width(st, i) <= 8192 by {
        bar_bounds(st, i);
    }
    assert(on_entry(rects[k], x));
    assert forall|j: int| 0 <= j < k implies !on_entry(#[trigger] rects[j], x) by {
        bar_x_grows(st, j, k);
    }
    entry_found(rects, k, x);
}

/// One window's row in the list: focus marker, state, and title, or the
/// application's id where it has no title yet.
pub open spec fn window_line(w: WindowInfo) -> Seq<char> {
    (if w.activated {
        "> "@
    } else {
        "  "@
    }) + (if w.minimized {
        "_ "@
    } else if w.fullscreen {
        "[] "@
    } else if w.maximized {
        "^ "@
    } else {
        ""@
    }) + (if w.title@.len() > 0 {
        w.title@
    } else if w.app_id@.len() > 0 {
        w.app_id@
    } else {
        "(untitled)"@
    })
}

/// One window's row in the list.
pub fn display_line(w: &WindowInfo) -> (s: String)
    ensures
        s@ == window_line(*w),
{
    let marker = if w.activated {
        "> "
    } else {
        "  "
    };
    let state = if w.minimized {
        "_ "
    } else if w.fullscreen {
        "[] "
    } else if w.maximized {
        "^ "
    } else {
        ""
    };
    let name = if !w.title.as_str().is_empty() {
        w.title.as_str()
    } else if !w.app_id.as_str().is_empty() {
        w.app_id.as_str()
    } else {
        "(untitled)"
    };
    String::from_str(marker).concat(state).concat(name)
}

/// A text cut to `max` characters, the last one an ellipsis where it was cut.
/// Where there is room for no character at all, nothing is left.
pub open spec fn truncated(s: Seq<char>, max: int) -> Seq<char> {
    if s.len() <= max {
        s
    } else if max <= 0 {
        Seq::empty()
    } else {
        s.take(max - 1).push('\u{2026}')
    }
}

/// Cuts a text to `max` characters and marks that it was cut.
pub fn truncate(s: &str, max: usize) -> (r: String)
    ensures
        r@ == truncated(s@, max as int),
{
    let chars = text::chars_of(s);
    if chars.len() <= max {
        return String::from_str(s);
    }
    if max == 0 {
        return String::new();
    }
    let mut kept = text::slice_chars(&chars, 0, max - 1);
    kept.push('\u{2026}');
    assert(kept@ == truncated(s@, max as int));
    text::text_of(&kept)
}

/// No text is longer than its limit. One that fits is left as it is. Of one
/// that does not, as many characters as the limit allows are left, and the last
/// of them marks the cut.
pub proof fn truncation_keeps_to_its_limit(s: Seq<char>, max: int)
    requires
        max >= 0,
    ensures
        truncated(s, max).len() <= max,
        s.len() <= max ==> truncated(s, max) == s,
        s.len() > max ==> truncated(s, max).len() == max,
        s.len() > max && max >= 1 ==> truncated(s, max) == s.take(max - 1).push('\u{2026}'),
{
}

/// The title of the window list.
pub open spec fn list_title(n: nat) -> Seq<char> {
    if n == 0 {
        "No windows"@
    } else {
        "Windows ("@ + text::decimal(n) + ")"@
    }
}

/// The length of the longest row among the first windows, or of the title.
pub open spec fn longest_row(windows: Seq<WindowInfo>, title_len: int) -> int
    decreases windows.len(),
{
    if windows.len() == 0 {
        title_len
    } else {
        let before = longest_row(windows.drop_last(), title_len);
        let last = window_line(windows.last()).len() as int;
        if last > before {
            last
        } else {
            before
        }
    }
}

/// The width of the window list: as wide as its longest row, but within a
/// third of the screen (or 200 pixels, where a third is less), since it covers
/// what one is working on.
pub open spec fn panel_width(windows: Seq<WindowInfo>, fb_width: u32) -> int {
    let wanted = longest_row(windows, list_title(windows.len()).len() as int) * 16 + 24;
    let third = fb_width as int / 3;
    let most = if third > 200 {
        third
    } else {
        200
    };
    if wanted < most {
        wanted
    } else {
        most
    }
}

/// The height of the window list.
pub open spec fn panel_height(n: nat) -> int {
    40 + 20 * (if n > 1 {
        n as int
    } else {
        1
    })
}

/// The framebuffer with the first `k` rows of the window list drawn.
pub open spec fn with_rows(
    buf: Seq<u32>,
    stride: int,
    windows: Seq<WindowInfo>,
    y: int,
    usable: int,
    k: int,
) -> Seq<u32>
    decreases k,
{
    if k <= 0 {
        buf
    } else {
        let w = windows[k - 1];
        with_text(
            with_rows(buf, stride, windows, y, usable, k - 1),
            stride,
            18,
            y + 30 + (k - 1) * 20,
            truncated(window_line(w), usable),
            if w.activated {
                BAR_ON_FG
            } else {
                BAR_TEXT
            },
        )
    }
}

/// Whether there is room for the whole window list.
pub open spec fn list_shown(
    fb_width: u32,
    fb_height: u32,
    windows: Seq<WindowInfo>,
    top_offset: u32,
) -> bool {
    &&& top_offset + 8 + panel_height(windows.len()) < fb_height
    &&& panel_width(windows, fb_width) < fb_width
}

/// The framebuffer with the window list drawn, or as it was where there is no
/// room for the whole list.
pub open spec fn with_window_list(
    buf: Seq<u32>,
    fb_width: u32,
    fb_height: u32,
    windows: Seq<WindowInfo>,
    top_offset: u32,
) -> Seq<u32> {
    let pw = panel_width(windows, fb_width);
    let ph = panel_height(windows.len());
    let y = top_offset + 8;
    let st = fb_width as int;
    if !list_shown(fb_width, fb_height, windows, top_offset) {
        buf
    } else {
        let panel = with_tint(buf, st, 8, y, pw, ph, BAR_BG, 220);
        let framed = with_outline(panel, st, 8, y, pw, ph, BAR_BORDER);
        let titled = with_text(framed, st, 18, y + 8, list_title(windows.len()), 0x89B4FA);
        with_rows(titled, st, windows, y, (pw - 24) / 16, windows.len() as int)
    }
}

/// Drawing the window list keeps the size of the framebuffer.
pub proof fn with_window_list_len(
    buf: Seq<u32>,
    fb_width: u32,
    fb_height: u32,
    windows: Seq<WindowInfo>,
    top_offset: u32,
)
    ensures
        with_window_list(buf, fb_width, fb_height, windows, top_offset).len() == buf.len(),
{
    let pw = panel_width(windows, fb_width);
    let ph = panel_height(windows.len());
    let y = top_offset + 8;
    let st = fb_width as int;
    let panel = with_tint(buf, st, 8, y, pw, ph, BAR_BG, 220);
    let framed = with_outline(panel, st, 8, y, pw, ph, BAR_BORDER);
    let titled = with_text(framed, st, 18, y + 8, list_title(windows.len()), 0x89B4FA);
    with_text_len(framed, st, 18, y + 8, list_title(windows.len()), 0x89B4FA);
    with_rows_len(titled, st, windows, y, (pw - 24) / 16, windows.len() as int);
}

/// Whether the positions in a window list can be computed.
pub open spec fn list_fits(
    len: int,
    fb_width: u32,
    fb_height: u32,
    windows: Seq<WindowInfo>,
    top_offset: u32,
) -> bool {
    let y = top_offset + 8;
    let pw = panel_width(windows, fb_width);
    let ph = panel_height(windows.len());
    let title_len = list_title(windows.len()).len() as int;
    &&& y + ph <= usize::MAX
    &&& longest_row(windows, title_len) * 16 + 24 <= usize::MAX
    &&& list_shown(fb_width, fb_height, windows, top_offset) ==> {
        &&& rect_fits(len, fb_width as int, 8, y, pw, ph)
        &&& text_fits(fb_width as int, 18, y + 8, title_len)
        &&& forall|i: int|
            0 <= i < windows.len() ==> #[trigger] line_fits(fb_width, windows, y, i)
    }
}

/// Whether the positions in a row of the window list can be computed.
pub open spec fn line_fits(fb_width: u32, windows: Seq<WindowInfo>, y: int, i: int) -> bool {
    text_fits(
        fb_width as int,
        18,
        y + 30 + i * 20,
        truncated(window_line(windows[i]), (panel_width(windows, fb_width) - 24) / 16).len() as int,
    )
}

pub proof fn with_rows_len(
    buf: Seq<u32>,
    stride: int,
    windows: Seq<WindowInfo>,
    y: int,
    usable: int,
    k: int,
)
    ensures
        with_rows(buf, stride, windows, y, usable, k).len() == buf.len(),
    decreases k,
{
    if k > 0 {
        with_rows_len(buf, stride, windows, y, usable, k - 1);
        let w = windows[k - 1];
        with_text_len(
            with_rows(buf, stride, windows, y, usable, k - 1),
            stride,
            18,
            y + 30 + (k - 1) * 20,
            truncated(window_line(w), usable),
            if w.activated {
                BAR_ON_FG
            } else {
                BAR_TEXT
            },
        );
    }
}

fn longest(windows: &[WindowInfo], title_len: usize) -> (n: usize)
    ensures
        n == longest_row(windows@, title_len as int),
        title_len <= n,
{
    let mut n: usize = title_len;
    let mut i: usize = 0;
    assert(windows@.take(0).len() == 0);
    while i < windows.len()
        invariant
            i <= windows@.len(),
            n == longest_row(windows@.take(i as int), title_len as int),
            title_len <= n,
        decreases windows@.len() - i,
    {
        let line = text::chars_of(display_line(&windows[i]).as_str());
        proof {
            assert(windows@.take(i + 1).drop_last() == windows@.take(i as int));
            assert(windows@.take(i + 1).last() == windows@[i as int]);
        }
        if line.len() > n {
            n = line.len();
        }
        i = i + 1;
    }
    assert(windows@.take(i as int) == windows@);
    n
}

/// Draws the list of the session's windows as a panel under the menu bar. The
/// focused window is marked. Where the panel does not fit nothing is drawn.
pub fn draw_window_list(
    buf: &mut [u32],
    fb_width: u32,
    fb_height: u32,
    windows: &[WindowInfo],
    top_offset: u32,
)
    requires
        list_fits(old(buf)@.len() as int, fb_width, fb_height, windows@, top_offset),
    ensures
        final(buf)@ == with_window_list(old(buf)@, fb_width, fb_height, windows@, top_offset),
{
    let stride: usize = fb_width as usize;
    let ghost st = stride as int;
    let count: usize = windows.len();
    proof {
        reveal_strlit("No windows");
        reveal_strlit("Windows (");
        reveal_strlit(")");
        text::decimal_len_machine(count as u64);
    }
    let title = if count == 0 {
        String::from_str("No windows")
    } else {
        String::from_str("Windows (").concat(text::decimal_text(count as u64).as_str()).concat(")")
    };
    let title_chars = text::chars_of(title.as_str());
    assert(title@ == list_title(windows@.len()));
    let max_chars: usize = longest(windows, title_chars.len());
    let third: usize = stride / 3;
    let max_w: usize = if third > 200 {
        third
    } else {
        200
    };
    let wanted: usize = max_chars * 16 + 24;
    let panel_w: usize = if wanted < max_w {
        wanted
    } else {
        max_w
    };
    let rows: usize = if count > 1 {
        count
    } else {
        1
    };
    let panel_h: usize = 40 + 20 * rows;
    let y: usize = top_offset as usize + 8;
    if y + panel_h >= fb_height as usize || panel_w >= stride {
        return ;
    }
    assert(panel_w == panel_width(windows@, fb_width));
    assert(panel_h == panel_height(windows@.len()));
    proof {
        let panel = (8int, y as int, panel_w as int, panel_h as int);
        let len = buf@.len() as int;
        inner_outline_fits(len, st, panel, 8, y as int, panel_w as int, panel_h as int);
    }
    fill_rect_alpha(buf, stride, 8, y, panel_w, panel_h, BAR_BG, 220);
    draw_rect_outline(buf, stride, 8, y, panel_w, panel_h, BAR_BORDER);
    draw_chars(buf, stride, 18, y + 8, &title_chars, 0x89B4FA);
    let usable: usize = (panel_w - 24) / 16;
    let ghost titled = buf@;
    proof {
        with_text_len(
            with_outline(
                with_tint(old(buf)@, st, 8, y as int, panel_w as int, panel_h as int, BAR_BG, 220),
                st,
                8,
                y as int,
                panel_w as int,
                panel_h as int,
                BAR_BORDER,
            ),
            st,
            18,
            y + 8,
            title@,
            0x89B4FA,
        );
    }
    let mut i: usize = 0;
    while i < count
        invariant
            i <= count,
            count == windows@.len(),
            st == stride,
            stride == fb_width,
            usable == (panel_width(windows@, fb_width) - 24) / 16,
            panel_h == 40 + 20 * rows,
            rows >= count,
            y + panel_h < fb_height,
            forall|k: int|
                0 <= k < windows@.len() ==> #[trigger] line_fits(fb_width, windows@, y as int, k),
            buf@ == with_rows(titled, st, windows@, y as int, usable as int, i as int),
        decreases count - i,
    {
        let w = &windows[i];
        let row_y: usize = y + 30 + i * 20;
        let color: u32 = if w.activated {
            BAR_ON_FG
        } else {
            BAR_TEXT
        };
        let line = truncate(display_line(w).as_str(), usable);
        assert(line_fits(fb_width, windows@, y as int, i as int));
        draw_text(buf, stride, 18, row_y, line.as_str(), color);
        i = i + 1;
    }
}

proof fn longest_row_bound(windows: Seq<WindowInfo>, title_len: int, most: int)
    requires
        title_len <= most,
        forall|i: int| 0 <= i < windows.len() ==> window_line(#[trigger] windows[i]).len() <= most,
    ensures
        title_len <= longest_row(windows, title_len) <= most,
    decreases windows.len(),
{
    if windows.len() > 0 {
        let before = windows.drop_last();
        assert forall|i: int| 0 <= i < before.len() implies window_line(
            #[trigger] before[i],
        ).len() <= most by {
            assert(before[i] == windows[i]);
        }
        longest_row_bound(before, title_len, most);
        assert(windows.last() == windows[windows.len() - 1]);
    }
}

proof fn text_fits_above(fb_width: u32, fb_height: u32, x: int, y: int, n: int)
    requires
        fb_width > 0,
        0 <= y < fb_height,
        0 <= x + 16 * n <= fb_width + 1024,
        (fb_height + 64) * fb_width + fb_width + 1024 <= usize::MAX,
    ensures
        text_fits(fb_width as int, x, y, n),
{
    assert((y + 16) * fb_width <= (fb_height + 64) * fb_width) by (nonlinear_arith)
        requires
            y + 16 <= fb_height + 64,
            fb_width >= 0,
    ;
    assert(y + 16 <= (y + 16) * fb_width) by (nonlinear_arith)
        requires
            fb_width >= 1,
            y >= 0,
    ;
}

/// Where a framebuffer leaves room for some more pixels, the menu bar and the
/// reconnect banner can be drawn, whatever they show.
pub proof fn bars_fit_with_room(len: int, fb_width: u32, st: BarStatus, attempt: u32)
    requires
        0 <= len,
        len + 8192 <= usize::MAX,
        60 * fb_width + 8192 <= usize::MAX,
    ensures
        bar_fits(len, fb_width, st),
        banner_fits(len, fb_width, attempt),
{
    let w = fb_width as int;
    reveal_strlit(" Termland ");
    assert((4 + 16) * w == 20 * w);
    assert forall|k: int| 0 <= k < 5 implies #[trigger] entry_fits(len, fb_width, st, k) by {
        bar_bounds(st, k);
        rects_fit_with_room(len, w, bar_x(st, k), 0, bar_width(st, k), 23);
    }
    banner_len(attempt);
    assert((42 + 16) * w == 58 * w);
    let x = banner_x(fb_width, attempt);
    rects_fit_with_room(len, w, x, 36, banner_width(attempt), 28);
}

/// Where a framebuffer leaves room for some more pixels and rows, a list of
/// windows whose titles are not absurdly long can be drawn.
pub proof fn lists_fit_with_room(
    len: int,
    fb_width: u32,
    fb_height: u32,
    windows: Seq<WindowInfo>,
    top_offset: u32,
)
    requires
        0 <= len,
        len + 8192 <= usize::MAX,
        windows.len() <= usize::MAX,
        (fb_height + 64) * fb_width + fb_width + 1024 <= usize::MAX,
        top_offset + 8 + panel_height(windows.len()) <= usize::MAX,
        forall|i: int|
            0 <= i < windows.len() ==> 16 * window_line(#[trigger] windows[i]).len() + 24
                <= usize::MAX,
    ensures
        list_fits(len, fb_width, fb_height, windows, top_offset),
{
    let y = top_offset + 8;
    let pw = panel_width(windows, fb_width);
    let ph = panel_height(windows.len());
    let title_len = list_title(windows.len()).len() as int;
    reveal_strlit("No windows");
    reveal_strlit("Windows (");
    reveal_strlit(")");
    text::decimal_len_machine(windows.len() as u64);
    longest_row_bound(windows, title_len, (usize::MAX - 24) / 16);
    if list_shown(fb_width, fb_height, windows, top_offset) {
        rects_fit_with_room(len, fb_width as int, 8, y, pw, ph);
        text_fits_above(fb_width, fb_height, 18, y + 8, title_len);
        assert forall|i: int| 0 <= i < windows.len() implies #[trigger] line_fits(
            fb_width,
            windows,
            y,
            i,
        ) by {
            let usable = (pw - 24) / 16;
            let n = truncated(window_line(windows[i]), usable).len() as int;
            truncation_keeps_to_its_limit(window_line(windows[i]), usable);
            text_fits_above(fb_width, fb_height, 18, y + 30 + i * 20, n);
        }
    }
}

/// The pixel of a row and column.
pub open spec fn at(buf: Seq<u32>, stride: int, row: int, col: int) -> u32 {
    buf[row * stride + col]
}

proof fn placed(len: int, stride: int, row: int, col: int)
    requires
        0 <= row < len / stride,
        0 <= col < stride,
    ensures
        0 <= row * stride + col < len,
        (row * stride + col) / stride == row,
        (row * stride + col) % stride == col,
{
    pixels::row_position(row, col, stride);
    assert(row * stride + col < len && 0 <= row * stride) by (nonlinear_arith)
        requires
            0 <= row < len / stride,
            0 <= col < stride,
    ;
}

/// A filled rectangle has its color from its corner on, as wide and high as it
/// was asked for, and nothing beside it changes.
pub proof fn rectangles_are_filled_alone()
    ensures
        forall|
            buf: &mut [u32],
            stride: usize,
            x: usize,
            y: usize,
            w: usize,
            h: usize,
            color: u32,
        | #[trigger]
            call_ensures(fill_rect, (buf, stride, x, y, w, h, color), ()) ==> final(buf)@.len()
                == buf@.len() && forall|row: int, col: int|
                0 <= row < buf@.len() as int / stride as int && 0 <= col < stride ==> #[trigger] at(
                    final(buf)@,
                    stride as int,
                    row,
                    col,
                ) == if y <= row < y + h && x <= col < x + w {
                    color
                } else {
                    at(buf@, stride as int, row, col)
                },
{
    assert forall|
        buf: &mut [u32],
        stride: usize,
        x: usize,
        y: usize,
        w: usize,
        h: usize,
        color: u32,
    | #[trigger]
        call_ensures(fill_rect, (buf, stride, x, y, w, h, color), ()) implies final(buf)@.len()
        == buf@.len() && forall|row: int, col: int|
        0 <= row < buf@.len() as int / stride as int && 0 <= col < stride ==> #[trigger] at(
            final(buf)@,
            stride as int,
            row,
            col,
        ) == if y <= row < y + h && x <= col < x + w {
            color
        } else {
            at(buf@, stride as int, row, col)
        } by {
        assert forall|row: int, col: int|
            0 <= row < buf@.len() as int / stride as int && 0 <= col < stride implies #[trigger] at(
            final(buf)@,
            stride as int,
            row,
            col,
        ) == if y <= row < y + h && x <= col < x + w {
            color
        } else {
            at(buf@, stride as int, row, col)
        } by {
            placed(buf@.len() as int, stride as int, row, col);
        }
    }
}

/// A tinted rectangle mixes its color into what is there, as `blend` does, and
/// nothing beside it changes.
pub proof fn rectangles_are_tinted_alone()
    ensures
        forall|
            buf: &mut [u32],
            stride: usize,
            x: usize,
            y: usize,
            w: usize,
            h: usize,
            color: u32,
            alpha: u32,
            row: int,
            col: int,
            p: u32,
        |
            #![trigger call_ensures(fill_rect_alpha, (buf, stride, x, y, w, h, color, alpha), ()),
                call_ensures(blend, (at(buf@, stride as int, row, col), color, alpha), p)]
            call_ensures(fill_rect_alpha, (buf, stride, x, y, w, h, color, alpha), ())
                && call_ensures(blend, (at(buf@, stride as int, row, col), color, alpha), p)
                && alpha <= 255 && 0 <= row < buf@.len() as int / stride as int && 0 <= col < stride
                ==> {
                &&& y <= row < y + h && x <= col < x + w ==> at(
                    final(buf)@,
                    stride as int,
                    row,
                    col,
                ) == p
                &&& !(y <= row < y + h && x <= col < x + w) ==> at(
                    final(buf)@,
                    stride as int,
                    row,
                    col,
                ) == at(buf@, stride as int, row, col)
            },
{
    assert forall|
        buf: &mut [u32],
        stride: usize,
        x: usize,
        y: usize,
        w: usize,
        h: usize,
        color: u32,
        alpha: u32,
        row: int,
        col: int,
        p: u32,
    |
        #![trigger call_ensures(fill_rect_alpha, (buf, stride, x, y, w, h, color, alpha), ()),
            call_ensures(blend, (at(buf@, stride as int, row, col), color, alpha), p)]
        call_ensures(fill_rect_alpha, (buf, stride, x, y, w, h, color, alpha), ()) && call_ensures(
            blend,
            (at(buf@, stride as int, row, col), color, alpha),
            p,
        ) && alpha <= 255 && 0 <= row < buf@.len() as int / stride as int && 0 <= col
            < stride implies {
        &&& y <= row < y + h && x <= col < x + w ==> at(final(buf)@, stride as int, row, col) == p
        &&& !(y <= row < y + h && x <= col < x + w) ==> at(final(buf)@, stride as int, row, col)
            == at(buf@, stride as int, row, col)
    } by {
        placed(buf@.len() as int, stride as int, row, col);
    }
}

/// A mixed color is the one or the other at the ends, and between them each of
/// its three parts weighs the two by the amount, rounded down.
pub proof fn colors_are_weighed(dst: u32, src: u32, alpha: u32, p: u32)
    requires
        alpha <= 255,
        call_ensures(blend, (dst, src, alpha), p),
    ensures
        p < 0x100_0000,
        ({
            let n = src as int / 65536 % 256 * alpha + dst as int / 65536 % 256 * (255 - alpha);
            255 * (p as int / 65536) <= n < 255 * (p as int / 65536) + 255
        }),
        ({
            let n = src as int / 256 % 256 * alpha + dst as int / 256 % 256 * (255 - alpha);
            255 * (p as int / 256 % 256) <= n < 255 * (p as int / 256 % 256) + 255
        }),
        ({
            let n = src as int % 256 * alpha + dst as int % 256 * (255 - alpha);
            255 * (p as int % 256) <= n < 255 * (p as int % 256) + 255
        }),
        alpha == 255 && src < 0x100_0000 ==> p == src,
        alpha == 0 && dst < 0x100_0000 ==> p == dst,
{
    let a = alpha as int;
    mix_bound(channel(src, 2), channel(dst, 2), a);
    mix_bound(channel(src, 1), channel(dst, 1), a);
    mix_bound(channel(src, 0), channel(dst, 0), a);
    packed_parts(p, mixed(dst, src, a, 2), mixed(dst, src, a, 1), mixed(dst, src, a, 0));
    if alpha == 255 && src < 0x100_0000 {
        packed_parts(src, channel(src, 2), channel(src, 1), channel(src, 0));
    }
    if alpha == 0 && dst < 0x100_0000 {
        packed_parts(dst, channel(dst, 2), channel(dst, 1), channel(dst, 0));
    }
}

proof fn packed_parts(p: u32, r: int, g: int, b: int)
    requires
        0 <= r <= 255,
        0 <= g <= 255,
        0 <= b <= 255,
        p == r * 65536 + g * 256 + b || p < 0x100_0000 && r == p as int / 65536 % 256 && g == p as int
            / 256 % 256 && b == p as int % 256,
    ensures
        p == r * 65536 + g * 256 + b,
        p < 0x100_0000,
        p as int / 65536 == r,
        p as int / 256 % 256 == g,
        p as int % 256 == b,
{
}

proof fn mix_bound(s: int, d: int, a: int)
    requires
        0 <= s <= 255,
        0 <= d <= 255,
        0 <= a <= 255,
    ensures
        0 <= s * a + d * (255 - a) <= 255 * 255,
        0 <= (s * a + d * (255 - a)) / 255 <= 255,
        a == 255 ==> (s * a + d * (255 - a)) / 255 == s,
        a == 0 ==> (s * a + d * (255 - a)) / 255 == d,
{
    let n = s * a + d * (255 - a);
    assert(0 <= n <= 255 * 255) by (nonlinear_arith)
        requires
            n == s * a + d * (255 - a),
            0 <= s <= 255,
            0 <= d <= 255,
            0 <= a <= 255,
    ;
    if a == 255 {
        assert(n == 255 * s) by (nonlinear_arith)
            requires
                n == s * a + d * (255 - a),
                a == 255,
        ;
    }
    if a == 0 {
        assert(n == 255 * d) by (nonlinear_arith)
            requires
                n == s * a + d * (255 - a),
                a == 0,
        ;
    }
}

/// An outline runs along the four edges of its rectangle; what it surrounds and
/// what lies beside it stays.
pub proof fn outlines_run_along_the_edges()
    ensures
        forall|
            buf: &mut [u32],
            stride: usize,
            x: usize,
            y: usize,
            w: usize,
            h: usize,
            color: u32,
            row: int,
            col: int,
        |
            #![trigger call_ensures(draw_rect_outline, (buf, stride, x, y, w, h, color), ()),
                at(final(buf)@, stride as int, row, col)]
            call_ensures(draw_rect_outline, (buf, stride, x, y, w, h, color), ()) && 0 <= row
                < buf@.len() as int / stride as int && 0 <= col < stride && w > 0 && h > 0 ==> {
                let inside = y <= row < y + h && x <= col < x + w;
                let edge = row == y || row == y + h - 1 || col == x || col == x + w - 1;
                &&& inside && edge ==> at(final(buf)@, stride as int, row, col) == color
                &&& !(inside && edge) ==> at(final(buf)@, stride as int, row, col) == at(
                    buf@,
                    stride as int,
                    row,
                    col,
                )
            },
{
    assert forall|
        buf: &mut [u32],
        stride: usize,
        x: usize,
        y: usize,
        w: usize,
        h: usize,
        color: u32,
        row: int,
        col: int,
    |
        #![trigger call_ensures(draw_rect_outline, (buf, stride, x, y, w, h, color), ()),
            at(final(buf)@, stride as int, row, col)]
        call_ensures(draw_rect_outline, (buf, stride, x, y, w, h, color), ()) && 0 <= row
            < buf@.len() as int / stride as int && 0 <= col < stride && w > 0 && h > 0 implies {
        let inside = y <= row < y + h && x <= col < x + w;
        let edge = row == y || row == y + h - 1 || col == x || col == x + w - 1;
        &&& inside && edge ==> at(final(buf)@, stride as int, row, col) == color
        &&& !(inside && edge) ==> at(final(buf)@, stride as int, row, col) == at(
            buf@,
            stride as int,
            row,
            col,
        )
    } by {
        placed(buf@.len() as int, stride as int, row, col);
    }
}

/// The server's pointer stands with its tip where the pointer is: each of its
/// pixels covers, lets through or mixes with what is below, and nothing else
/// changes. One that is hidden or has no picture changes nothing.
pub proof fn the_servers_pointer_is_drawn()
    ensures
        forall|buf: &mut [u32], fw: u32, fh: u32, x: i32, y: i32, cursor: &RemoteCursor| #[trigger]
            call_ensures(draw_remote_cursor, (buf, fw, fh, x, y, cursor), ()) ==> {
                &&& final(buf)@.len() == buf@.len()
                &&& !cursor.visible || cursor.rgba@.len() == 0 || cursor.width == 0 || cursor.height
                    == 0 ==> final(buf)@ == buf@
            },
        forall|
            buf: &mut [u32],
            fw: u32,
            fh: u32,
            x: i32,
            y: i32,
            cursor: &RemoteCursor,
            row: int,
            col: int,
        |
            #![trigger call_ensures(draw_remote_cursor, (buf, fw, fh, x, y, cursor), ()),
                at(final(buf)@, fw as int, row, col)]
            call_ensures(draw_remote_cursor, (buf, fw, fh, x, y, cursor), ()) && 0 <= row
                < buf@.len() as int / fw as int && 0 <= col < fw && row < fh && fw <= i32::MAX && fh
                <= i32::MAX && cursor.visible && cursor.rgba@.len() == 4 * (cursor.width
                * cursor.height) ==> {
                let r = row - (y - cursor.hotspot_y);
                let c = col - (x - cursor.hotspot_x);
                let k = 4 * (r * cursor.width + c);
                let on = 0 <= r < cursor.height && 0 <= c < cursor.width;
                let below = at(buf@, fw as int, row, col);
                let now = at(final(buf)@, fw as int, row, col);
                &&& !on ==> now == below
                &&& on && cursor.rgba@[k + 3] == 0 ==> now == below
                &&& on && cursor.rgba@[k + 3] == 255 ==> now / 65536 == cursor.rgba@[k] && now / 256
                    % 256 == cursor.rgba@[k + 1] && now % 256 == cursor.rgba@[k + 2]
            },
{
    assert forall|
        buf: &mut [u32],
        fw: u32,
        fh: u32,
        x: i32,
        y: i32,
        cursor: &RemoteCursor,
        row: int,
        col: int,
    |
        #![trigger call_ensures(draw_remote_cursor, (buf, fw, fh, x, y, cursor), ()),
            at(final(buf)@, fw as int, row, col)]
        call_ensures(draw_remote_cursor, (buf, fw, fh, x, y, cursor), ()) && 0 <= row < buf@.len() as int / fw as int && 0 <= col < fw && row < fh && fw <= i32::MAX && fh <= i32::MAX
            && cursor.visible && cursor.rgba@.len() == 4 * (cursor.width
            * cursor.height) implies {
        let r = row - (y - cursor.hotspot_y);
        let c = col - (x - cursor.hotspot_x);
        let k = 4 * (r * cursor.width + c);
        let on = 0 <= r < cursor.height && 0 <= c < cursor.width;
        let below = at(buf@, fw as int, row, col);
        let now = at(final(buf)@, fw as int, row, col);
        &&& !on ==> now == below
        &&& on && cursor.rgba@[k + 3] == 0 ==> now == below
        &&& on && cursor.rgba@[k + 3] == 255 ==> now / 65536 == cursor.rgba@[k] && now / 256 % 256
            == cursor.rgba@[k + 1] && now % 256 == cursor.rgba@[k + 2]
    } by {
        placed(buf@.len() as int, fw as int, row, col);
        let r = row - (y - cursor.hotspot_y);
        let c = col - (x - cursor.hotspot_x);
        if 0 <= r < cursor.height && 0 <= c < cursor.width {
            let cw = cursor.width as int;
            let ch = cursor.height as int;
            assert(0 <= r * cw && r * cw + c < cw * ch) by (nonlinear_arith)
                requires
                    0 <= r < ch,
                    0 <= c < cw,
            ;
        }
    }
}

/// The pointer drawn here is an arrow that points up and to the left, with its
/// tip where the pointer is: an edge down its left side and along its slope,
/// filled between.
pub proof fn the_arrow_points_at_its_place()
    ensures
        forall|buf: &mut [u32], fw: u32, fh: u32, x: i32, y: i32, row: int, col: int|
            #![trigger call_ensures(draw_local_cursor, (buf, fw, fh, x, y), ()),
                at(final(buf)@, fw as int, row, col)]
            call_ensures(draw_local_cursor, (buf, fw, fh, x, y), ()) && 0 <= row < buf@.len() as int
                / fw as int && 0 <= col < fw && row < fh && fw <= i32::MAX && fh <= i32::MAX ==> {
                let r = row - y;
                let c = col - x;
                let now = at(final(buf)@, fw as int, row, col);
                &&& 0 <= r < 10 && (c == 0 || c == r) ==> now == 0x000000
                &&& 0 <= r < 10 && 0 < c < r ==> now == 0xFFFFFF
                &&& r < 0 || r >= 16 || c < 0 || c >= 16 || (0 <= r < 10 && c > r) ==> now == at(
                    buf@,
                    fw as int,
                    row,
                    col,
                )
            },
{
    assert forall|buf: &mut [u32], fw: u32, fh: u32, x: i32, y: i32, row: int, col: int|
        #![trigger call_ensures(draw_local_cursor, (buf, fw, fh, x, y), ()),
            at(final(buf)@, fw as int, row, col)]
        call_ensures(draw_local_cursor, (buf, fw, fh, x, y), ()) && 0 <= row < buf@.len() as int
            / fw as int && 0 <= col < fw && row < fh && fw <= i32::MAX && fh <= i32::MAX implies {
        let r = row - y;
        let c = col - x;
        let now = at(final(buf)@, fw as int, row, col);
        &&& 0 <= r < 10 && (c == 0 || c == r) ==> now == 0x000000
        &&& 0 <= r < 10 && 0 < c < r ==> now == 0xFFFFFF
        &&& r < 0 || r >= 16 || c < 0 || c >= 16 || (0 <= r < 10 && c > r) ==> now == at(
            buf@,
            fw as int,
            row,
            col,
        )
    } by {
        placed(buf@.len() as int, fw as int, row, col);
        sprite_is_an_arrow(row - y, col - x);
    }
}

proof fn sprite_is_an_arrow(r: int, c: int)
    ensures
        0 <= r < 10 && (c == 0 || c == r) ==> sprite_color(r, c) == Some(CURSOR_OUTLINE),
        0 <= r < 10 && 0 < c < r ==> sprite_color(r, c) == Some(CURSOR_FILL),
        r < 0 || r >= 16 || c < 0 || c >= 16 || (0 <= r < 10 && c > r) ==> sprite_color(r, c) is None,
{
    reveal_strlit("#...............");
    reveal_strlit("##..............");
    reveal_strlit("#X#.............");
    reveal_strlit("#XX#............");
    reveal_strlit("#XXX#...........");
    reveal_strlit("#XXXX#..........");
    reveal_strlit("#XXXXX#.........");
    reveal_strlit("#XXXXXX#........");
    reveal_strlit("#XXXXXXX#.......");
    reveal_strlit("#XXXXXXXX#......");
    reveal_strlit("#XXXXX####......");
    reveal_strlit("#XX#XX#.........");
    reveal_strlit("#X#.#XX#........");
    reveal_strlit("##..#XX#........");
    reveal_strlit("#....#XX#.......");
    reveal_strlit("......##........");
    let s = CURSOR_SPRITE@;
    assert(s.len() == 16);
    assert(s[0] == "#..............." && s[1] == "##.............." && s[2] == "#X#............."
        && s[3] == "#XX#............");
    assert(s[4] == "#XXX#..........." && s[5] == "#XXXX#.........." && s[6] == "#XXXXX#........."
        && s[7] == "#XXXXXX#........");
    assert(s[8] == "#XXXXXXX#......." && s[9] == "#XXXXXXXX#......" && s[10] == "#XXXXX####......"
        && s[11] == "#XX#XX#.........");
    assert(s[12] == "#X#.#XX#........" && s[13] == "##..#XX#........" && s[14] == "#....#XX#......."
        && s[15] == "......##........");
}

proof fn glyph_pixel(
    buf: Seq<u32>,
    stride: int,
    x: int,
    y: int,
    glyph: Seq<u8>,
    color: u32,
    row: int,
    col: int,
)
    requires
        0 <= row < buf.len() as int / stride,
        0 <= col < stride,
        0 <= x,
        0 <= y,
        x + 16 <= stride,
    ensures
        at(with_glyph(buf, stride, x, y, glyph, color), stride, row, col) == if y <= row < y + 16
            && x <= col < x + 16 && glyph[(row - y) / 2] & (1u8 << (((col - x) / 2) as u8)) != 0u8 {
            color
        } else {
            at(buf, stride, row, col)
        },
{
    let i = row * stride + col;
    placed(buf.len() as int, stride, row, col);
    let k0 = (row - y) * 16 + (col - x);
    if y <= row < y + 16 && x <= col < x + 16 {
        assert(k0 / 16 == row - y && k0 % 16 == col - x);
        assert(k0 / 32 == (row - y) / 2);
        assert(i == (y + k0 / 16) * stride + x + k0 % 16);
        if glyph[(row - y) / 2] & (1u8 << (((col - x) / 2) as u8)) != 0u8 {
            assert(glyph_hits(glyph, stride, x, y, k0, i));
        }
    }
    assert forall|k: int|
        0 <= k < 256 && #[trigger] glyph_hits(glyph, stride, x, y, k, i) implies k == k0 && y <= row
        < y + 16 && x <= col < x + 16 by {
        pixels::row_position(y + k / 16, x + k % 16, stride);
    }
}

/// A letter's picture is drawn twice its size, the lowest bit of each row to the
/// left; where a bit is not set, and beside it, nothing changes.
pub proof fn letters_are_drawn_bit_by_bit()
    ensures
        forall|
            buf: &mut [u32],
            stride: usize,
            x: usize,
            y: usize,
            glyph: &[u8; 8],
            color: u32,
            row: int,
            col: int,
        |
            #![trigger call_ensures(draw_glyph, (buf, stride, x, y, glyph, color), ()),
                at(final(buf)@, stride as int, row, col)]
            call_ensures(draw_glyph, (buf, stride, x, y, glyph, color), ()) && 0 <= row
                < buf@.len() as int / stride as int && 0 <= col < stride && x + 16 <= stride ==> at(
                final(buf)@,
                stride as int,
                row,
                col,
            ) == if y <= row < y + 16 && x <= col < x + 16 && glyph@[(row - y) / 2] & (1u8 << (((col
                - x) / 2) as u8)) != 0u8 {
                color
            } else {
                at(buf@, stride as int, row, col)
            },
{
    assert forall|
        buf: &mut [u32],
        stride: usize,
        x: usize,
        y: usize,
        glyph: &[u8; 8],
        color: u32,
        row: int,
        col: int,
    |
        #![trigger call_ensures(draw_glyph, (buf, stride, x, y, glyph, color), ()),
            at(final(buf)@, stride as int, row, col)]
        call_ensures(draw_glyph, (buf, stride, x, y, glyph, color), ()) && 0 <= row
            < buf@.len() as int / stride as int && 0 <= col < stride && x + 16
            <= stride implies at(final(buf)@, stride as int, row, col) == if y <= row < y + 16 && x
        <= col < x + 16 && glyph@[(row - y) / 2] & (1u8 << (((col - x) / 2) as u8)) != 0u8 {
        color
    } else {
        at(buf@, stride as int, row, col)
    } by {
        glyph_pixel(
            buf@,
            stride as int,
            x as int,
            y as int,
            glyph@,
            color,
            row,
            col,
        );
    }
}

proof fn text_joins(
    buf: Seq<u32>,
    stride: int,
    x: int,
    y: int,
    a: Seq<char>,
    b: Seq<char>,
    color: u32,
)
    ensures
        with_text(buf, stride, x, y, a + b, color) == with_text(
            with_text(buf, stride, x, y, a, color),
            stride,
            x + 16 * a.len(),
            y,
            b,
            color,
        ),
    decreases b.len(),
{
    if b.len() == 0 {
        assert(a + b =~= a);
    } else {
        text_joins(buf, stride, x, y, a, b.drop_last(), color);
        assert((a + b).drop_last() =~= a + b.drop_last());
        assert((a + b).last() == b.last());
        assert(x + 16 * ((a + b).len() - 1) == x + 16 * a.len() + 16 * (b.len() - 1));
    }
}

/// A text is drawn letter by letter, each a letter's width behind the one before:
/// the first part of a text and then the rest behind it is the text, and a letter
/// alone is its picture.
pub proof fn texts_are_drawn_letter_by_letter()
    ensures
        forall|
            buf: &mut [u32],
            stride: usize,
            x: usize,
            y: usize,
            text: &str,
            color: u32,
            first: &mut [u32],
            a: &str,
            then_on: &mut [u32],
            x2: usize,
            b: &str,
        |
            #![trigger call_ensures(draw_text, (buf, stride, x, y, text, color), ()),
                call_ensures(draw_text, (first, stride, x, y, a, color), ()),
                call_ensures(draw_text, (then_on, stride, x2, y, b, color), ())]
            call_ensures(draw_text, (buf, stride, x, y, text, color), ()) && call_ensures(
                draw_text,
                (first, stride, x, y, a, color),
                (),
            ) && call_ensures(draw_text, (then_on, stride, x2, y, b, color), ()) && text@ == a@ + b@
                && first@ == buf@ && then_on@ == final(first)@ && x2 == x + 16 * a@.len()
                ==> final(buf)@ == final(then_on)@,
        forall|
            buf: &mut [u32],
            stride: usize,
            x: usize,
            y: usize,
            text: &str,
            color: u32,
            other: &mut [u32],
            glyph: &[u8; 8],
        |
            #![trigger call_ensures(draw_text, (buf, stride, x, y, text, color), ()),
                call_ensures(draw_glyph, (other, stride, x, y, glyph, color), ())]
            call_ensures(draw_text, (buf, stride, x, y, text, color), ()) && call_ensures(
                draw_glyph,
                (other, stride, x, y, glyph, color),
                (),
            ) && other@ == buf@ && text@.len() == 1 && basic_glyph(text@[0]) == Some(glyph@)
                ==> final(buf)@ == final(other)@,
        forall|buf: &mut [u32], stride: usize, x: usize, y: usize, text: &str, color: u32| #[trigger]
            call_ensures(draw_text, (buf, stride, x, y, text, color), ()) && (text@.len() == 0
                || text@.len() == 1 && basic_glyph(text@[0]) is None) ==> final(buf)@ == buf@,
{
    assert forall|
        buf: &mut [u32],
        stride: usize,
        x: usize,
        y: usize,
        text: &str,
        color: u32,
        first: &mut [u32],
        a: &str,
        then_on: &mut [u32],
        x2: usize,
        b: &str,
    |
        #![trigger call_ensures(draw_text, (buf, stride, x, y, text, color), ()),
            call_ensures(draw_text, (first, stride, x, y, a, color), ()),
            call_ensures(draw_text, (then_on, stride, x2, y, b, color), ())]
        call_ensures(draw_text, (buf, stride, x, y, text, color), ()) && call_ensures(
            draw_text,
            (first, stride, x, y, a, color),
            (),
        ) && call_ensures(draw_text, (then_on, stride, x2, y, b, color), ()) && text@ == a@ + b@
            && first@ == buf@ && then_on@ == final(first)@ && x2 == x + 16 * a@.len() implies final(buf)@
        == final(then_on)@ by {
        text_joins(buf@, stride as int, x as int, y as int, a@, b@, color);
    }
    assert forall|buf: &mut [u32], stride: usize, x: usize, y: usize, text: &str, color: u32|
        #![trigger call_ensures(draw_text, (buf, stride, x, y, text, color), ())]
        text@.len() == 1 implies with_text(
        buf@,
        stride as int,
        x as int,
        y as int,
        text@,
        color,
    ) == with_char(buf@, stride as int, x as int, y as int, text@[0], color) by {
        assert(text@.drop_last() =~= Seq::empty());
        assert(with_text(
            buf@,
            stride as int,
            x as int,
            y as int,
            text@.drop_last(),
            color,
        ) == buf@);
    }
}

proof fn text_pixel(
    buf: Seq<u32>,
    stride: int,
    x: int,
    y: int,
    s: Seq<char>,
    color: u32,
    row: int,
    col: int,
)
    requires
        0 <= row < buf.len() as int / stride,
        0 <= col < stride,
        0 <= x,
        0 <= y,
        x + 16 * s.len() <= stride,
    ensures
        ({
            let now = at(with_text(buf, stride, x, y, s, color), stride, row, col);
            &&& now == at(buf, stride, row, col) || now == color
            &&& !(y <= row < y + 16 && x <= col < x + 16 * s.len()) ==> now == at(
                buf,
                stride,
                row,
                col,
            )
        }),
        with_text(buf, stride, x, y, s, color).len() == buf.len(),
    decreases s.len(),
{
    if s.len() > 0 {
        let t = s.drop_last();
        text_pixel(buf, stride, x, y, t, color, row, col);
        let before = with_text(buf, stride, x, y, t, color);
        if let Some(g) = basic_glyph(s.last()) {
            glyph_pixel(before, stride, x + 16 * (s.len() - 1), y, g, color, row, col);
        }
    }
}

/// A text touches no pixel above or below its line or beside its letters, and
/// those that it touches have its color.
pub proof fn texts_stay_on_their_line()
    ensures
        forall|
            buf: &mut [u32],
            stride: usize,
            x: usize,
            y: usize,
            text: &str,
            color: u32,
            row: int,
            col: int,
        |
            #![trigger call_ensures(draw_text, (buf, stride, x, y, text, color), ()),
                at(final(buf)@, stride as int, row, col)]
            call_ensures(draw_text, (buf, stride, x, y, text, color), ()) && 0 <= row
                < buf@.len() as int / stride as int && 0 <= col < stride && x + 16 * text@.len()
                <= stride ==> {
                let now = at(final(buf)@, stride as int, row, col);
                &&& now == at(buf@, stride as int, row, col) || now == color
                &&& !(y <= row < y + 16 && x <= col < x + 16 * text@.len()) ==> now == at(
                    buf@,
                    stride as int,
                    row,
                    col,
                )
            },
{
    assert forall|
        buf: &mut [u32],
        stride: usize,
        x: usize,
        y: usize,
        text: &str,
        color: u32,
        row: int,
        col: int,
    |
        #![trigger call_ensures(draw_text, (buf, stride, x, y, text, color), ()),
            at(final(buf)@, stride as int, row, col)]
        call_ensures(draw_text, (buf, stride, x, y, text, color), ()) && 0 <= row
            < buf@.len() as int / stride as int && 0 <= col < stride && x + 16 * text@.len()
            <= stride implies {
        let now = at(final(buf)@, stride as int, row, col);
        &&& now == at(buf@, stride as int, row, col) || now == color
        &&& !(y <= row < y + 16 && x <= col < x + 16 * text@.len()) ==> now == at(
            buf@,
            stride as int,
            row,
            col,
        )
    } by {
        text_pixel(buf@, stride as int, x as int, y as int, text@, color, row, col);
    }
}

/// A rate is told in bytes, in kilobytes from one on and in megabytes from one
/// on, to the nearest tenth; it ends with its unit.
pub proof fn rates_are_told_to_a_tenth(n: u64, s: String)
    requires
        call_ensures(format_rate, (n,), s),
        n < 0x20_0000_0000_0000,
    ensures
        n < 1024 ==> s@.len() > 4 && text::decimal_value(s@.take(s@.len() - 4)) == n && s@.skip(
            s@.len() - 4,
        ) == " B/s"@,
        1024 <= n < 1_048_576 ==> tells_tenths(s@, n as nat, 1024) && s@.skip(s@.len() - 5)
            == " KB/s"@,
        n >= 1_048_576 ==> tells_tenths(s@, n as nat, 1_048_576) && s@.skip(s@.len() - 5)
            == " MB/s"@,
{
    reveal_strlit(" B/s");
    reveal_strlit(" KB/s");
    reveal_strlit(" MB/s");
    assert(excess_bits(n as nat) == 0);
    assert(power_of_two(0) == 1);
    let step = power_of_two(excess_bits(n as nat));
    assert(step == 1);
    let q = nearest_even(n as nat, step);
    assert(q == n);
    assert(q * step == q) by (nonlinear_arith)
        requires
            step == 1,
    ;
    assert(as_double(n as nat) == n);
    if n < 1024 {
        text::decimals_read_back(n as nat);
        assert(s@.take(s@.len() - 4) =~= text::decimal(n as nat));
        assert(s@.skip(s@.len() - 4) =~= " B/s"@);
    } else {
        let unit: nat = if n < 1_048_576 {
            1024
        } else {
            1_048_576
        };
        let tenths = nearest_even((10 * n) as nat, unit);
        let whole = text::decimal(tenths / 10);
        let part = text::decimal(tenths % 10);
        reveal_strlit(".");
        text::decimals_read_back(tenths / 10);
        text::decimals_read_back(tenths % 10);
        let d = whole.len() as int;
        assert(part.len() == 1);
        assert(s@.len() == d + 7);
        assert(s@.take(s@.len() - 7) =~= whole);
        assert(s@.subrange(s@.len() - 6, s@.len() - 5) =~= part);
        assert(s@[s@.len() - 7] == '.');
        if n < 1_048_576 {
            assert(s@.skip(s@.len() - 5) =~= " KB/s"@);
        } else {
            assert(s@.skip(s@.len() - 5) =~= " MB/s"@);
        }
    }
}

/// Whether a text tells an amount in units to the nearest tenth: the digits
/// before and behind the point are off by half a tenth at most.
pub open spec fn tells_tenths(s: Seq<char>, n: nat, unit: int) -> bool {
    let tenths = 10 * text::decimal_value(s.take(s.len() - 7)) + text::decimal_value(
        s.subrange(s.len() - 6, s.len() - 5),
    );
    &&& s.len() > 7
    &&& s[s.len() - 7] == '.'
    &&& -unit <= 2 * (tenths * unit - 10 * n) <= unit
}

/// The keyboard's button stands in the lower right corner, with its margin to
/// both edges, and is hit where it stands.
pub proof fn the_button_stands_in_its_corner(
    fw: u32,
    fh: u32,
    r: (u32, u32, u32, u32),
    x: i32,
    y: i32,
    b: bool,
)
    requires
        call_ensures(keyboard_button_rect, (fw, fh), r),
        call_ensures(hit_test_keyboard_button, (fw, fh, x, y), b),
        fw <= i32::MAX,
        fh <= i32::MAX,
    ensures
        r.2 == KBD_BTN_SIZE && r.3 == KBD_BTN_SIZE,
        fw >= 64 ==> r.0 + r.2 + 18 == fw,
        fh >= 64 ==> r.1 + r.3 + 18 == fh,
        fw < 64 ==> r.0 == 0,
        fh < 64 ==> r.1 == 0,
        b <==> r.0 <= x < r.0 + r.2 && r.1 <= y < r.1 + r.3,
{
}

/// A part of the bar says whether it is on, how many windows there are and how
/// fast data comes.
pub proof fn labels_say_what_is_on(
    item: &BarItem,
    show_data_rate: bool,
    client_cursor: bool,
    show_windows: bool,
    fullscreen: bool,
    rate: u64,
    window_count: usize,
    s: String,
    told: String,
)
    requires
        call_ensures(
            BarItem::label,
            (
                item,
                show_data_rate,
                client_cursor,
                show_windows,
                fullscreen,
                rate,
                window_count,
            ),
            s,
        ),
        call_ensures(format_rate, (rate,), told),
    ensures
        *item is DataRate && show_data_rate ==> s@.len() == told@.len() + 2 && s@.subrange(
            1,
            s@.len() - 1,
        ) == told@,
        *item is DataRate && !show_data_rate ==> s@ == " Data rate "@,
        *item is ClientCursor ==> s@[1] == '[' && (s@[2] == 'x' <==> client_cursor) && s@.skip(5)
            == "Local cursor "@,
        *item is Windows ==> s@[1] == '[' && (s@[2] == 'x' <==> show_windows) && s@.subrange(5, 14)
            == "Windows ("@ && text::decimal_value(s@.subrange(14, s@.len() - 2)) == window_count,
        *item is Fullscreen ==> (fullscreen <==> s@ == " Windowed "@) && (!fullscreen <==> s@
            == " Fullscreen "@),
        *item is Quit ==> s@ == " Quit "@,
{
    reveal_strlit(" ");
    reveal_strlit(" [x] Local cursor ");
    reveal_strlit(" [ ] Local cursor ");
    reveal_strlit("Local cursor ");
    reveal_strlit(" [x] Windows (");
    reveal_strlit(" [ ] Windows (");
    reveal_strlit("Windows (");
    reveal_strlit(") ");
    reveal_strlit(" Windowed ");
    reveal_strlit(" Fullscreen ");
    match *item {
        BarItem::DataRate => {
            if show_data_rate {
                assert(s@.subrange(1, s@.len() - 1) =~= told@);
            }
        },
        BarItem::ClientCursor => {
            assert(s@.skip(5) =~= "Local cursor "@);
        },
        BarItem::Windows => {
            text::decimals_read_back(window_count as nat);
            assert(s@.subrange(5, 14) =~= "Windows ("@);
            assert(s@.subrange(14, s@.len() - 2) =~= text::decimal(window_count as nat));
        },
        BarItem::Fullscreen => {
            assert(" Windowed "@.len() != " Fullscreen "@.len());
        },
        BarItem::Quit => {},
    }
}

proof fn entry_at_finds(rects: Seq<(BarItem, u32, u32)>, x: i32)
    ensures
        entry_at(rects, x) is None <==> forall|i: int|
            0 <= i < rects.len() ==> !on_entry(#[trigger] rects[i], x),
        entry_at(rects, x) matches Some(item) ==> exists|i: int|
            0 <= i < rects.len() && on_entry(#[trigger] rects[i], x) && rects[i].0 == item && forall|
                k: int,
            |
                0 <= k < i ==> !on_entry(#[trigger] rects[k], x),
    decreases rects.len(),
{
    if rects.len() > 0 {
        let t = rects.skip(1);
        entry_at_finds(t, x);
        if !on_entry(rects[0], x) {
            assert forall|i: int| 0 < i < rects.len() implies #[trigger] rects[i] == t[i - 1] by {}
            if let Some(item) = entry_at(t, x) {
                let i = choose|i: int|
                    0 <= i < t.len() && on_entry(#[trigger] t[i], x) && t[i].0 == item && forall|
                        k: int,
                    |
                        0 <= k < i ==> !on_entry(#[trigger] t[k], x);
                assert(rects[i + 1] == t[i]);
                assert forall|k: int| 0 <= k < i + 1 implies !on_entry(#[trigger] rects[k], x) by {
                    if k > 0 {
                        assert(rects[k] == t[k - 1]);
                    }
                }
            } else {
                assert forall|i: int| 0 <= i < rects.len() implies !on_entry(#[trigger] rects[i], x) by {
                    if i > 0 {
                        assert(rects[i] == t[i - 1]);
                    }
                }
            }
        }
    }
}

/// A click on the bar finds the entry that stands there and no other; one beside
/// all of them, or off the bar, finds none.
pub proof fn clicks_find_what_stands_there(
    layout: &BarLayout,
    x: i32,
    in_bar: bool,
    r: Option<BarItem>,
)
    requires
        call_ensures(hit_test_menubar, (layout, x, in_bar), r),
        forall|i: int|
            0 <= i < layout.item_rects@.len() ==> (#[trigger] layout.item_rects@[i]).1
                + layout.item_rects@[i].2 <= i32::MAX,
    ensures
        !in_bar ==> r is None,
        r matches Some(item) ==> exists|i: int|
            0 <= i < layout.item_rects@.len() && (#[trigger] layout.item_rects@[i]).0 == item
                && layout.item_rects@[i].1 <= x < layout.item_rects@[i].1 + layout.item_rects@[i].2,
        in_bar && r is None ==> forall|i: int|
            0 <= i < layout.item_rects@.len() ==> !((#[trigger] layout.item_rects@[i]).1 <= x
                < layout.item_rects@[i].1 + layout.item_rects@[i].2),
{
    let rects = layout.item_rects@;
    entry_at_finds(rects, x);
    if in_bar {
        if let Some(item) = r {
            let i = choose|i: int|
                0 <= i < rects.len() && on_entry(#[trigger] rects[i], x) && rects[i].0 == item;
            assert(rects[i].1 <= x < rects[i].1 + rects[i].2);
        } else {
            assert forall|i: int| 0 <= i < rects.len() implies !((#[trigger] rects[i]).1 <= x
                < rects[i].1 + rects[i].2) by {
                assert(!on_entry(rects[i], x));
            }
        }
    }
}

/// A window's line names the window by its title, else by its program, and marks
/// the one that is used and those that are small, large or fill the screen.
pub proof fn lines_name_their_window(w: &WindowInfo, s: String)
    requires
        call_ensures(display_line, (w,), s),
    ensures
        s@.len() >= 2,
        s@[0] == '>' <==> w.activated,
        !w.activated ==> s@[0] == ' ',
        w.title@.len() > 0 ==> s@.len() >= w.title@.len() && s@.skip(s@.len() - w.title@.len())
            == w.title@,
        w.title@.len() == 0 && w.app_id@.len() > 0 ==> s@.skip(s@.len() - w.app_id@.len())
            == w.app_id@,
        w.title@.len() == 0 && w.app_id@.len() == 0 ==> s@.skip(s@.len() - 10) == "(untitled)"@,
        w.minimized ==> s@.subrange(2, 4) == "_ "@,
        !w.minimized && w.fullscreen ==> s@.subrange(2, 5) == "[] "@,
        !w.minimized && !w.fullscreen && w.maximized ==> s@.subrange(2, 4) == "^ "@,
        !w.minimized && !w.fullscreen && !w.maximized && w.title@.len() > 0 ==> s@.len() == 2
            + w.title@.len(),
{
    reveal_strlit("> ");
    reveal_strlit("  ");
    reveal_strlit("_ ");
    reveal_strlit("[] ");
    reveal_strlit("^ ");
    reveal_strlit("");
    reveal_strlit("(untitled)");
    if w.title@.len() > 0 {
        assert(s@.skip(s@.len() - w.title@.len()) =~= w.title@);
    } else if w.app_id@.len() > 0 {
        assert(s@.skip(s@.len() - w.app_id@.len()) =~= w.app_id@);
    } else {
        assert(s@.skip(s@.len() - 10) =~= "(untitled)"@);
    }
    if w.minimized {
        assert(s@.subrange(2, 4) =~= "_ "@);
    } else if w.fullscreen {
        assert(s@.subrange(2, 5) =~= "[] "@);
    } else if w.maximized {
        assert(s@.subrange(2, 4) =~= "^ "@);
    }
}

/// A text that is short enough stays; of a longer one the beginning is kept, and
/// a mark at the end tells that there was more.
pub proof fn long_texts_keep_their_beginning(
    s: &str,
    max: usize,
    r: String,
    m: MenuState,
    c: &RemoteCursor,
    b: bool,
)
    requires
        call_ensures(truncate, (s, max), r),
        call_ensures(MenuState::new, (), m),
        call_ensures(RemoteCursor::is_empty, (c,), b),
    ensures
        r@.len() <= max,
        s@.len() <= max ==> r@ == s@,
        s@.len() > max && max > 0 ==> r@.len() == max && r@.take(max - 1) == s@.take(max - 1)
            && r@.last() == '\u{2026}',
        m.show_data_rate && m.client_cursor && !m.show_windows,
        b <==> c.rgba@.len() == 0 || c.width == 0 || c.height == 0,
{
    if s@.len() > max && max > 0 {
        assert(r@.take(max - 1) =~= s@.take(max - 1));
    }
}

proof fn rect_pixel(
    buf: Seq<u32>,
    stride: int,
    x: int,
    y: int,
    w: int,
    h: int,
    color: u32,
    row: int,
    col: int,
)
    requires
        0 <= row < buf.len() as int / stride,
        0 <= col < stride,
    ensures
        at(with_rect(buf, stride, x, y, w, h, color), stride, row, col) == if y <= row < y + h && x
            <= col < x + w {
            color
        } else {
            at(buf, stride, row, col)
        },
        with_rect(buf, stride, x, y, w, h, color).len() == buf.len(),
{
    placed(buf.len() as int, stride, row, col);
}

proof fn outline_pixel(
    buf: Seq<u32>,
    stride: int,
    x: int,
    y: int,
    w: int,
    h: int,
    color: u32,
    row: int,
    col: int,
)
    requires
        0 <= row < buf.len() as int / stride,
        0 <= col < stride,
        w > 0,
        h > 0,
    ensures
        ({
            let inside = y <= row < y + h && x <= col < x + w;
            let edge = row == y || row == y + h - 1 || col == x || col == x + w - 1;
            at(with_outline(buf, stride, x, y, w, h, color), stride, row, col) == if inside && edge {
                color
            } else {
                at(buf, stride, row, col)
            }
        }),
        with_outline(buf, stride, x, y, w, h, color).len() == buf.len(),
{
    placed(buf.len() as int, stride, row, col);
}

proof fn tint_pixel(
    buf: Seq<u32>,
    stride: int,
    x: int,
    y: int,
    w: int,
    h: int,
    color: u32,
    alpha: int,
    row: int,
    col: int,
)
    requires
        0 <= row < buf.len() as int / stride,
        0 <= col < stride,
    ensures
        at(with_tint(buf, stride, x, y, w, h, color, alpha), stride, row, col) == if y <= row < y + h
            && x <= col < x + w {
            blended(at(buf, stride, row, col), color, alpha)
        } else {
            at(buf, stride, row, col)
        },
        with_tint(buf, stride, x, y, w, h, color, alpha).len() == buf.len(),
{
    placed(buf.len() as int, stride, row, col);
}

proof fn keys_pixel(
    buf: Seq<u32>,
    stride: int,
    x: int,
    y: int,
    color: u32,
    n: int,
    row: int,
    col: int,
)
    requires
        0 <= row < buf.len() as int / stride,
        0 <= col < stride,
        0 <= n <= 8,
    ensures
        ({
            let now = at(with_keys(buf, stride, x, y, color, n), stride, row, col);
            &&& now == at(buf, stride, row, col) || now == color
            &&& !(y <= row < y + 9 && x <= col < x + 21) ==> now == at(buf, stride, row, col)
        }),
        with_keys(buf, stride, x, y, color, n).len() == buf.len(),
    decreases n,
{
    if n > 0 {
        keys_pixel(buf, stride, x, y, color, n - 1, row, col);
        rect_pixel(
            with_keys(buf, stride, x, y, color, n - 1),
            stride,
            x + ((n - 1) % 4) * 6,
            y + ((n - 1) / 4) * 6,
            3,
            3,
            color,
            row,
            col,
        );
    }
}

/// The keyboard's button is drawn where it is hit and nowhere else; its edge is
/// lit while the keyboard is shown.
pub proof fn the_button_is_drawn_where_it_stands()
    ensures
        forall|
            buf: &mut [u32],
            fw: u32,
            fh: u32,
            active: bool,
            r: (u32, u32, u32, u32),
            row: int,
            col: int,
        |
            #![trigger call_ensures(draw_keyboard_button, (buf, fw, fh, active), ()),
                call_ensures(keyboard_button_rect, (fw, fh), r), at(final(buf)@, fw as int, row, col)]
            call_ensures(draw_keyboard_button, (buf, fw, fh, active), ()) && call_ensures(
                keyboard_button_rect,
                (fw, fh),
                r,
            ) && 0 <= row < buf@.len() as int / fw as int && 0 <= col < fw ==> {
                let inside = r.1 <= row < r.1 + r.3 && r.0 <= col < r.0 + r.2;
                let edge = row == r.1 || row == r.1 + r.3 - 1 || col == r.0 || col == r.0 + r.2 - 1;
                let now = at(final(buf)@, fw as int, row, col);
                &&& !inside ==> now == at(buf@, fw as int, row, col)
                &&& inside && edge && active ==> now == 0xA6E3A1
                &&& inside && edge && !active ==> now == 0x585B70
            },
{
    assert forall|
        buf: &mut [u32],
        fw: u32,
        fh: u32,
        active: bool,
        r: (u32, u32, u32, u32),
        row: int,
        col: int,
    |
        #![trigger call_ensures(draw_keyboard_button, (buf, fw, fh, active), ()),
            call_ensures(keyboard_button_rect, (fw, fh), r), at(final(buf)@, fw as int, row, col)]
        call_ensures(draw_keyboard_button, (buf, fw, fh, active), ()) && call_ensures(
            keyboard_button_rect,
            (fw, fh),
            r,
        ) && 0 <= row < buf@.len() as int / fw as int && 0 <= col < fw implies {
        let inside = r.1 <= row < r.1 + r.3 && r.0 <= col < r.0 + r.2;
        let edge = row == r.1 || row == r.1 + r.3 - 1 || col == r.0 || col == r.0 + r.2 - 1;
        let now = at(final(buf)@, fw as int, row, col);
        &&& !inside ==> now == at(buf@, fw as int, row, col)
        &&& inside && edge && active ==> now == 0xA6E3A1
        &&& inside && edge && !active ==> now == 0x585B70
    } by {
        let x = r.0 as int;
        let y = r.1 as int;
        let st = fw as int;
        let fg = if active {
            BAR_ON_FG
        } else {
            0xCDD6F4
        };
        let border = if active {
            BAR_ON_FG
        } else {
            0x585B70
        };
        let alpha: int = if active {
            210
        } else {
            140
        };
        let panel = with_tint(buf@, st, x, y, 46, 46, 0x1E1E2E, alpha);
        let framed = with_outline(panel, st, x, y, 46, 46, border);
        let body = with_outline(framed, st, x + 10, y + 10, 26, 26, fg);
        let keys = with_keys(body, st, x + 14, y + 14, fg, 8);
        tint_pixel(buf@, st, x, y, 46, 46, 0x1E1E2E, alpha, row, col);
        outline_pixel(panel, st, x, y, 46, 46, border, row, col);
        outline_pixel(framed, st, x + 10, y + 10, 26, 26, fg, row, col);
        keys_pixel(body, st, x + 14, y + 14, fg, 8, row, col);
        rect_pixel(keys, st, x + 14, y + 30, 18, 2, fg, row, col);
        assert(final(buf)@ == with_rect(keys, st, x + 14, y + 30, 18, 2, fg));
    }
}

/// While the connection is lost a banner below the bar tells so, with the number
/// of the attempt; it is framed, stands in the middle, and nothing beside it
/// changes.
pub proof fn banners_tell_the_attempt()
    ensures
        forall|buf: &mut [u32], fw: u32, fh: u32, attempt: u32| #[trigger]
            call_ensures(draw_reconnect_banner, (buf, fw, fh, attempt), ()) ==> exists|
                before: Seq<u32>,
                x: int,
                said: Seq<char>,
            |
                {
                    &&& final(buf)@ == #[trigger] with_text(before, fw as int, x, 42, said, 0xF9E2AF)
                    &&& text::holds(said, text::decimal(attempt as nat))
                    &&& text::holds(said, "Reconnecting"@)
                    &&& 16 * said.len() + 16 <= fw ==> -1 <= fw - 2 * x - 16 * said.len() <= 1
                },
        forall|
            buf: &mut [u32],
            fw: u32,
            fh: u32,
            attempt: u32,
            row: int,
            col: int,
        |
            #![trigger call_ensures(draw_reconnect_banner, (buf, fw, fh, attempt), ()),
                at(final(buf)@, fw as int, row, col)]
            call_ensures(draw_reconnect_banner, (buf, fw, fh, attempt), ()) && 0 <= row
                < buf@.len() as int / fw as int && 0 <= col < fw && 600 + 16 * text::decimal(
                attempt as nat,
            ).len() <= fw ==> {
                let now = at(final(buf)@, fw as int, row, col);
                &&& row < 36 || row >= 64 ==> now == at(buf@, fw as int, row, col)
                &&& (row == 36 || row == 63) && now != at(buf@, fw as int, row, col) ==> now
                    == 0xF9E2AF
            },
{
    reveal_strlit(" Reconnecting... (attempt ");
    reveal_strlit(") ");
    assert forall|buf: &mut [u32], fw: u32, fh: u32, attempt: u32| #[trigger]
        call_ensures(draw_reconnect_banner, (buf, fw, fh, attempt), ()) implies exists|
        before: Seq<u32>,
        x: int,
        said: Seq<char>,
    |
        {
            &&& final(buf)@ == #[trigger] with_text(before, fw as int, x, 42, said, 0xF9E2AF)
            &&& text::holds(said, text::decimal(attempt as nat))
            &&& text::holds(said, "Reconnecting"@)
            &&& 16 * said.len() + 16 <= fw ==> -1 <= fw - 2 * x - 16 * said.len() <= 1
        } by {
        let w = banner_width(attempt);
        let x = banner_x(fw, attempt);
        let st = fw as int;
        let said = banner_text(attempt);
        let panel = with_tint(buf@, st, x, 36, w, 28, RECONNECT_BG, 220);
        let framed = with_outline(panel, st, x, 36, w, 28, RECONNECT_FG);
        let a = " Reconnecting... (attempt "@;
        let b = ") "@;
        assert(said == a + text::decimal(attempt as nat) + b);
        reveal_strlit("Reconnecting");
        reveal_strlit(" ");
        let rest = said.skip(13);
        assert(said =~= " "@ + "Reconnecting"@ + rest);
        assert(final(buf)@ == with_text(framed, fw as int, x + 8, 42, said, 0xF9E2AF));
        assert(text::holds(said, text::decimal(attempt as nat)));
        assert(text::holds(said, "Reconnecting"@));
    }
    assert forall|buf: &mut [u32], fw: u32, fh: u32, attempt: u32, row: int, col: int|
        #![trigger call_ensures(draw_reconnect_banner, (buf, fw, fh, attempt), ()),
            at(final(buf)@, fw as int, row, col)]
        call_ensures(draw_reconnect_banner, (buf, fw, fh, attempt), ()) && 0 <= row
            < buf@.len() as int / fw as int && 0 <= col < fw && 600 + 16 * text::decimal(
            attempt as nat,
        ).len() <= fw implies {
        let now = at(final(buf)@, fw as int, row, col);
        &&& row < 36 || row >= 64 ==> now == at(buf@, fw as int, row, col)
        &&& (row == 36 || row == 63) && now != at(buf@, fw as int, row, col) ==> now == 0xF9E2AF
    } by {
        let w = banner_width(attempt);
        let x = banner_x(fw, attempt);
        let st = fw as int;
        let said = banner_text(attempt);
        let panel = with_tint(buf@, st, x, 36, w, 28, RECONNECT_BG, 220);
        let framed = with_outline(panel, st, x, 36, w, 28, RECONNECT_FG);
        assert(said.len() == 28 + text::decimal(attempt as nat).len());
        tint_pixel(buf@, st, x, 36, w, 28, RECONNECT_BG, 220, row, col);
        outline_pixel(panel, st, x, 36, w, 28, RECONNECT_FG, row, col);
        text_pixel(framed, st, x + 8, 42, said, RECONNECT_FG, row, col);
    }
}

proof fn bar_pixel(
    buf: Seq<u32>,
    stride: int,
    st: BarStatus,
    n: int,
    row: int,
    col: int,
)
    requires
        0 <= row < buf.len() as int / stride,
        0 <= col < stride,
        0 <= n <= 5,
        bar_x(st, n) <= stride + 4,
        n == 0 ==> stride >= 184,
    ensures
        ({
            let now = at(bar_part(buf, stride, st, n), stride, row, col);
            &&& row >= 24 ==> now == at(buf, stride, row, col)
            &&& row < 23 && col >= bar_x(st, n) ==> now == 0x181825
            &&& row == 23 ==> now == 0x313244
            &&& forall|k: int|
                0 <= k < n && row < 23 && bar_x(st, k) <= col < bar_x(st, k) + #[trigger] bar_width(
                    st,
                    k,
                ) ==> shows_entry(now, row, BAR_ITEMS@[k], st)
        }),
        bar_part(buf, stride, st, n).len() == buf.len(),
    decreases n,
{
    reveal_strlit(" Termland ");
    bar_part_len(buf, stride, st, n);
    if n == 0 {
        let strip = with_rect(buf, stride, 0, 0, stride, 24, BAR_BG);
        let line = with_rect(strip, stride, 0, 23, stride, 1, BAR_BORDER);
        rect_pixel(buf, stride, 0, 0, stride, 24, BAR_BG, row, col);
        rect_pixel(strip, stride, 0, 23, stride, 1, BAR_BORDER, row, col);
        text_pixel(line, stride, 8, 4, " Termland "@, 0x89B4FA, row, col);
    } else {
        bar_bounds(st, n - 1);
        bar_bounds(st, n);
        bar_pixel(buf, stride, st, n - 1, row, col);
        let before = bar_part(buf, stride, st, n - 1);
        let item = BAR_ITEMS@[n - 1];
        let x = bar_x(st, n - 1);
        let w = bar_width(st, n - 1);
        let lit = if st.hovered == Some(item) {
            with_rect(before, stride, x, 0, w, 23, BAR_HOVER_BG)
        } else {
            before
        };
        rect_pixel(before, stride, x, 0, w, 23, BAR_HOVER_BG, row, col);
        text_pixel(lit, stride, x, 4, item.label_text(st), item.color(st), row, col);
        let now = at(bar_part(buf, stride, st, n), stride, row, col);
        assert forall|k: int|
            0 <= k < n && row < 23 && bar_x(st, k) <= col < bar_x(st, k) + #[trigger] bar_width(
                st,
                k,
            ) implies shows_entry(now, row, BAR_ITEMS@[k], st) by {
            if k < n - 1 {
                bar_places_grow(st, k, n - 1);
            }
        }
    }
}

proof fn bar_places_grow(st: BarStatus, k: int, n: int)
    requires
        0 <= k < n <= 5,
    ensures
        bar_x(st, k) + bar_width(st, k) + 4 <= bar_x(st, n),
    decreases n,
{
    bar_bounds(st, n - 1);
    if k < n - 1 {
        bar_places_grow(st, k, n - 1);
    }
}

/// Whether a pixel of an entry is one that may stand there: the ground, which is
/// lighter under the mouse, or the letters, which are lit while what the entry
/// names is on. Above and below the letters there is only the ground.
pub open spec fn shows_entry(pixel: u32, row: int, item: BarItem, st: BarStatus) -> bool {
    let ground: u32 = if st.hovered == Some(item) {
        0x313244
    } else {
        0x181825
    };
    let on = (item is DataRate && st.show_data_rate) || (item is ClientCursor && st.client_cursor)
        || (item is Windows && st.show_windows);
    let letters: u32 = if on {
        0xA6E3A1
    } else {
        0xCDD6F4
    };
    &&& pixel == ground || pixel == letters
    &&& row < 4 || row >= 20 ==> pixel == ground
}

/// The bar is drawn in its own rows and leaves those below it alone. Its entries
/// stand from left to right in their order, each as wide as its label, with a
/// gap between; each is lit by whether it is on and whether the mouse is over it.
pub proof fn the_bar_shows_its_entries()
    ensures
        forall|
            buf: &mut [u32],
            fw: u32,
            fh: u32,
            show_data_rate: bool,
            client_cursor: bool,
            show_windows: bool,
            fullscreen: bool,
            data_rate: u64,
            window_count: usize,
            hovered: Option<BarItem>,
            layout: BarLayout,
        | #[trigger]
            call_ensures(
                draw_menubar,
                (
                    buf,
                    fw,
                    fh,
                    show_data_rate,
                    client_cursor,
                    show_windows,
                    fullscreen,
                    data_rate,
                    window_count,
                    hovered,
                ),
                layout,
            ) ==> {
                let r = layout.item_rects@;
                &&& r.len() == 5
                &&& r[0].0 is DataRate && r[1].0 is ClientCursor && r[2].0 is Windows
                    && r[3].0 is Fullscreen && r[4].0 is Quit
                &&& r[0].1 == 180
                &&& r[1].1 == r[0].1 + r[0].2 + 4
                &&& r[2].1 == r[1].1 + r[1].2 + 4
                &&& r[3].1 == r[2].1 + r[2].2 + 4
                &&& r[4].1 == r[3].1 + r[3].2 + 4
            },
        forall|
            buf: &mut [u32],
            fw: u32,
            fh: u32,
            show_data_rate: bool,
            client_cursor: bool,
            show_windows: bool,
            fullscreen: bool,
            data_rate: u64,
            window_count: usize,
            hovered: Option<BarItem>,
            layout: BarLayout,
            k: int,
            s: String,
        |
            #![trigger call_ensures(draw_menubar, (buf, fw, fh, show_data_rate, client_cursor, show_windows, fullscreen, data_rate, window_count, hovered), layout),
                call_ensures(BarItem::label, (&layout.item_rects@[k].0, show_data_rate, client_cursor, show_windows, fullscreen, data_rate, window_count), s)]
            call_ensures(
                draw_menubar,
                (
                    buf,
                    fw,
                    fh,
                    show_data_rate,
                    client_cursor,
                    show_windows,
                    fullscreen,
                    data_rate,
                    window_count,
                    hovered,
                ),
                layout,
            ) && 0 <= k < 5 && call_ensures(
                BarItem::label,
                (
                    &layout.item_rects@[k].0,
                    show_data_rate,
                    client_cursor,
                    show_windows,
                    fullscreen,
                    data_rate,
                    window_count,
                ),
                s,
            ) ==> layout.item_rects@[k].2 == 16 * s@.len(),
        forall|
            buf: &mut [u32],
            fw: u32,
            fh: u32,
            show_data_rate: bool,
            client_cursor: bool,
            show_windows: bool,
            fullscreen: bool,
            data_rate: u64,
            window_count: usize,
            hovered: Option<BarItem>,
            layout: BarLayout,
            row: int,
            col: int,
        |
            #![trigger call_ensures(draw_menubar, (buf, fw, fh, show_data_rate, client_cursor, show_windows, fullscreen, data_rate, window_count, hovered), layout),
                at(final(buf)@, fw as int, row, col)]
            call_ensures(
                draw_menubar,
                (
                    buf,
                    fw,
                    fh,
                    show_data_rate,
                    client_cursor,
                    show_windows,
                    fullscreen,
                    data_rate,
                    window_count,
                    hovered,
                ),
                layout,
            ) && 0 <= row < buf@.len() as int / fw as int && 0 <= col < fw
                && layout.item_rects@[4].1 + layout.item_rects@[4].2 <= fw ==> {
                let now = at(final(buf)@, fw as int, row, col);
                let st = BarStatus {
                    show_data_rate,
                    client_cursor,
                    show_windows,
                    fullscreen,
                    data_rate,
                    window_count,
                    hovered,
                };
                &&& row >= 24 ==> now == at(buf@, fw as int, row, col)
                &&& row == 23 ==> now == 0x313244
                &&& forall|k: int|
                    0 <= k < 5 && row < 23 && (#[trigger] layout.item_rects@[k]).1 <= col
                        < layout.item_rects@[k].1 + layout.item_rects@[k].2 ==> shows_entry(
                        now,
                        row,
                        layout.item_rects@[k].0,
                        st,
                    )
            },
{
    assert forall|st: BarStatus, k: int| 0 <= k < 5 implies {
        let r = #[trigger] bar_layout(st, 5)[k];
        &&& r.0 == BAR_ITEMS@[k]
        &&& r.1 == bar_x(st, k)
        &&& r.2 == bar_width(st, k)
    } by {
        bar_bounds(st, k);
    }
    assert forall|st: BarStatus| {
        let r = #[trigger] bar_layout(st, 5);
        &&& r.len() == 5
        &&& r[0].0 is DataRate && r[1].0 is ClientCursor && r[2].0 is Windows && r[3].0 is Fullscreen
            && r[4].0 is Quit
        &&& r[0].1 == 180
        &&& r[1].1 == r[0].1 + r[0].2 + 4
        &&& r[2].1 == r[1].1 + r[1].2 + 4
        &&& r[3].1 == r[2].1 + r[2].2 + 4
        &&& r[4].1 == r[3].1 + r[3].2 + 4
    } by {
        let r = bar_layout(st, 5);
        assert(bar_x(st, 1) == bar_x(st, 0) + bar_width(st, 0) + 4);
        assert(bar_x(st, 2) == bar_x(st, 1) + bar_width(st, 1) + 4);
        assert(bar_x(st, 3) == bar_x(st, 2) + bar_width(st, 2) + 4);
        assert(bar_x(st, 4) == bar_x(st, 3) + bar_width(st, 3) + 4);
    }
    assert forall|
        buf: &mut [u32],
        fw: u32,
        fh: u32,
        show_data_rate: bool,
        client_cursor: bool,
        show_windows: bool,
        fullscreen: bool,
        data_rate: u64,
        window_count: usize,
        hovered: Option<BarItem>,
        layout: BarLayout,
        row: int,
        col: int,
    |
        #![trigger call_ensures(draw_menubar, (buf, fw, fh, show_data_rate, client_cursor, show_windows, fullscreen, data_rate, window_count, hovered), layout),
            at(final(buf)@, fw as int, row, col)]
        call_ensures(
            draw_menubar,
            (
                buf,
                fw,
                fh,
                show_data_rate,
                client_cursor,
                show_windows,
                fullscreen,
                data_rate,
                window_count,
                hovered,
            ),
            layout,
        ) && 0 <= row < buf@.len() as int / fw as int && 0 <= col < fw && layout.item_rects@[4].1
            + layout.item_rects@[4].2 <= fw implies {
        let now = at(final(buf)@, fw as int, row, col);
        let st = BarStatus {
            show_data_rate,
            client_cursor,
            show_windows,
            fullscreen,
            data_rate,
            window_count,
            hovered,
        };
        &&& row >= 24 ==> now == at(buf@, fw as int, row, col)
        &&& row == 23 ==> now == 0x313244
        &&& forall|k: int|
            0 <= k < 5 && row < 23 && (#[trigger] layout.item_rects@[k]).1 <= col
                < layout.item_rects@[k].1 + layout.item_rects@[k].2 ==> shows_entry(
                now,
                row,
                layout.item_rects@[k].0,
                st,
            )
    } by {
        let st = BarStatus {
            show_data_rate,
            client_cursor,
            show_windows,
            fullscreen,
            data_rate,
            window_count,
            hovered,
        };
        bar_bounds(st, 4);
        assert(bar_x(st, 5) == bar_x(st, 4) + bar_width(st, 4) + 4);
        assert(bar_layout(st, 5)[4].1 == bar_x(st, 4));
        bar_pixel(buf@, fw as int, st, 5, row, col);
        let now = at(final(buf)@, fw as int, row, col);
        assert forall|k: int|
            0 <= k < 5 && row < 23 && (#[trigger] layout.item_rects@[k]).1 <= col
                < layout.item_rects@[k].1 + layout.item_rects@[k].2 implies shows_entry(
            now,
            row,
            layout.item_rects@[k].0,
            st,
        ) by {
            assert(layout.item_rects@[k] == bar_layout(st, 5)[k]);
            assert(bar_width(st, k) == layout.item_rects@[k].2);
        }
    }
}

proof fn longest_row_is_longest(windows: Seq<WindowInfo>, title_len: int, i: int)
    requires
        0 <= i < windows.len(),
    ensures
        window_line(windows[i]).len() <= longest_row(windows, title_len),
    decreases windows.len(),
{
    let t = windows.drop_last();
    if i < t.len() {
        longest_row_is_longest(t, title_len, i);
        assert(t[i] == windows[i]);
    }
}

proof fn rows_pixel(
    buf: Seq<u32>,
    stride: int,
    windows: Seq<WindowInfo>,
    y: int,
    usable: int,
    n: int,
    row: int,
    col: int,
)
    requires
        0 <= row < buf.len() as int / stride,
        0 <= col < stride,
        0 <= y,
        0 <= usable,
        18 + 16 * usable <= stride,
        0 <= n <= windows.len(),
    ensures
        ({
            let now = at(with_rows(buf, stride, windows, y, usable, n), stride, row, col);
            &&& col < 18 || col >= 18 + 16 * usable ==> now == at(buf, stride, row, col)
            &&& row < y + 30 || row >= y + 30 + 20 * n ==> now == at(buf, stride, row, col)
            &&& forall|i: int|
                0 <= i < n && #[trigger] line_top(y, i) <= row < line_top(y, i) + 20 ==> now == at(
                    with_rows(buf, stride, windows, y, usable, i + 1),
                    stride,
                    row,
                    col,
                ) && at(with_rows(buf, stride, windows, y, usable, i), stride, row, col) == at(
                    buf,
                    stride,
                    row,
                    col,
                )
        }),
        with_rows(buf, stride, windows, y, usable, n).len() == buf.len(),
    decreases n,
{
    with_rows_len(buf, stride, windows, y, usable, n);
    if n > 0 {
        rows_pixel(buf, stride, windows, y, usable, n - 1, row, col);
        let w = windows[n - 1];
        truncation_keeps_to_its_limit(window_line(w), usable);
        text_pixel(
            with_rows(buf, stride, windows, y, usable, n - 1),
            stride,
            18,
            y + 30 + (n - 1) * 20,
            truncated(window_line(w), usable),
            if w.activated {
                BAR_ON_FG
            } else {
                BAR_TEXT
            },
            row,
            col,
        );
    }
}

/// The first row of pixels of a window's line in the list.
pub open spec fn line_top(y: int, i: int) -> int {
    y + 30 + 20 * i
}

/// Whether a pixel comes from a text on its row, drawn over some ground.
pub open spec fn row_shows(
    pixel: u32,
    stride: int,
    x: int,
    y: int,
    s: Seq<char>,
    color: u32,
    row: int,
    col: int,
) -> bool {
    exists|ground: Seq<u32>|
        pixel == at(
            #[trigger] with_text(ground, stride, x, y, s, color),
            stride,
            row,
            col,
        )
}

/// The list of windows is drawn in its panel, below the bar, where there is room
/// for it, and changes nothing beside it. Each window has a line of its own, in
/// order, that shows how it is called; the window that is used is lit.
pub proof fn the_list_shows_every_window()
    ensures
        forall|buf: &mut [u32], fw: u32, fh: u32, windows: &[WindowInfo], top: u32| #[trigger]
            call_ensures(draw_window_list, (buf, fw, fh, windows, top), ()) && top + 48 + 20
                * windows@.len() >= fh ==> final(buf)@ == buf@,
        forall|
            buf: &mut [u32],
            fw: u32,
            fh: u32,
            windows: &[WindowInfo],
            top: u32,
            row: int,
            col: int,
        |
            #![trigger call_ensures(draw_window_list, (buf, fw, fh, windows, top), ()),
                at(final(buf)@, fw as int, row, col)]
            call_ensures(draw_window_list, (buf, fw, fh, windows, top), ()) && 0 <= row
                < buf@.len() as int / fw as int && 0 <= col < fw && fw > 200 && 178 + 16
                * text::decimal(windows@.len()).len() <= fw && top + 68 + 20 * windows@.len() < fh
                ==> {
                let now = at(final(buf)@, fw as int, row, col);
                &&& row < top + 8 || row >= top + 68 + 20 * windows@.len() || col < 8 ==> now == at(
                    buf@,
                    fw as int,
                    row,
                    col,
                )
                &&& row == top + 8 && col == 8 ==> now == 0x313244
            },
        forall|
            buf: &mut [u32],
            fw: u32,
            fh: u32,
            windows: &[WindowInfo],
            top: u32,
            row: int,
            col: int,
            i: int,
            s: String,
        |
            #![trigger call_ensures(draw_window_list, (buf, fw, fh, windows, top), ()),
                at(final(buf)@, fw as int, row, col),
                call_ensures(display_line, (&windows@[i],), s)]
            call_ensures(draw_window_list, (buf, fw, fh, windows, top), ()) && 0 <= i
                < windows@.len() && call_ensures(display_line, (&windows@[i],), s) && 0 <= row
                < buf@.len() as int / fw as int && 0 <= col < fw && fw > 200 && 178 + 16
                * text::decimal(windows@.len()).len() <= fw && top + 68 + 20 * windows@.len() < fh
                && 16 * s@.len() + 24 <= 200 && line_top(top + 8, i) <= row < line_top(top + 8, i)
                + 20 ==> row_shows(
                at(final(buf)@, fw as int, row, col),
                fw as int,
                18,
                line_top(top + 8, i),
                s@,
                if windows@[i].activated {
                    0xA6E3A1
                } else {
                    0xCDD6F4
                },
                row,
                col,
            ),
{
    assert forall|
        buf: &mut [u32],
        fw: u32,
        fh: u32,
        windows: &[WindowInfo],
        top: u32,
        row: int,
        col: int,
    |
        #![trigger call_ensures(draw_window_list, (buf, fw, fh, windows, top), ()),
            at(final(buf)@, fw as int, row, col)]
        call_ensures(draw_window_list, (buf, fw, fh, windows, top), ()) && 0 <= row
            < buf@.len() as int / fw as int && 0 <= col < fw && fw > 200 && 178 + 16 * text::decimal(
            windows@.len(),
        ).len() <= fw && top + 68 + 20 * windows@.len() < fh implies {
        let now = at(final(buf)@, fw as int, row, col);
        &&& row < top + 8 || row >= top + 68 + 20 * windows@.len() || col < 8 ==> now == at(
            buf@,
            fw as int,
            row,
            col,
        )
        &&& row == top + 8 && col == 8 ==> now == 0x313244
    } by {
        list_pixel(buf@, fw, fh, windows@, top, row, col);
    }
    assert forall|
        buf: &mut [u32],
        fw: u32,
        fh: u32,
        windows: &[WindowInfo],
        top: u32,
        row: int,
        col: int,
        i: int,
        s: String,
    |
        #![trigger call_ensures(draw_window_list, (buf, fw, fh, windows, top), ()),
            at(final(buf)@, fw as int, row, col),
            call_ensures(display_line, (&windows@[i],), s)]
        call_ensures(draw_window_list, (buf, fw, fh, windows, top), ()) && 0 <= i < windows@.len()
            && call_ensures(display_line, (&windows@[i],), s) && 0 <= row < buf@.len() as int
            / fw as int && 0 <= col < fw && fw > 200 && 178 + 16 * text::decimal(
            windows@.len(),
        ).len() <= fw && top + 68 + 20 * windows@.len() < fh && 16 * s@.len() + 24 <= 200
            && line_top(top + 8, i) <= row < line_top(top + 8, i) + 20 implies row_shows(
        at(final(buf)@, fw as int, row, col),
        fw as int,
        18,
        line_top(top + 8, i),
        s@,
        if windows@[i].activated {
            0xA6E3A1
        } else {
            0xCDD6F4
        },
        row,
        col,
    ) by {
        list_pixel(buf@, fw, fh, windows@, top, row, col);
        let title = list_title(windows@.len());
        longest_row_is_longest(windows@, title.len() as int, i);
        let pw = panel_width(windows@, fw);
        let usable = (pw - 24) / 16;
        assert(usable >= s@.len());
        let titled = list_titled(buf@, fw, windows@, top);
        assert(at(final(buf)@, fw as int, row, col) == at(
            with_rows(titled, fw as int, windows@, top + 8, usable, i + 1),
            fw as int,
            row,
            col,
        ));
    }
}

spec fn list_titled(buf: Seq<u32>, fw: u32, windows: Seq<WindowInfo>, top: u32) -> Seq<u32> {
    let pw = panel_width(windows, fw);
    let ph = panel_height(windows.len());
    let y = top + 8;
    let panel = with_tint(buf, fw as int, 8, y, pw, ph, BAR_BG, 220);
    let framed = with_outline(panel, fw as int, 8, y, pw, ph, BAR_BORDER);
    with_text(framed, fw as int, 18, y + 8, list_title(windows.len()), 0x89B4FA)
}

proof fn list_pixel(
    buf: Seq<u32>,
    fw: u32,
    fh: u32,
    windows: Seq<WindowInfo>,
    top: u32,
    row: int,
    col: int,
)
    requires
        0 <= row < buf.len() as int / fw as int,
        0 <= col < fw,
        fw > 200,
        178 + 16 * text::decimal(windows.len()).len() <= fw,
        top + 68 + 20 * windows.len() < fh,
    ensures
        ({
            let now = at(
                with_window_list(buf, fw, fh, windows, top),
                fw as int,
                row,
                col,
            );
            let usable = (panel_width(windows, fw) - 24) / 16;
            let titled = list_titled(buf, fw, windows, top);
            &&& row < top + 8 || row >= top + 68 + 20 * windows.len() || col < 8 ==> now == at(
                buf,
                fw as int,
                row,
                col,
            )
            &&& row == top + 8 && col == 8 ==> now == 0x313244
            &&& row < top + 38 ==> now == at(titled, fw as int, row, col)
            &&& forall|i: int|
                0 <= i < windows.len() && #[trigger] line_top(top + 8, i) <= row < line_top(
                    top + 8,
                    i,
                ) + 20 ==> now == at(
                    with_rows(titled, fw as int, windows, top + 8, usable, i + 1),
                    fw as int,
                    row,
                    col,
                )
        }),
{
    reveal_strlit("No windows");
    reveal_strlit("Windows (");
    reveal_strlit(")");
    let st = fw as int;
    let pw = panel_width(windows, fw);
    let ph = panel_height(windows.len());
    let y = top + 8;
    let title = list_title(windows.len());
    text::decimals_read_back(windows.len());
    longest_row_grows(windows, title.len() as int);
    let usable = (pw - 24) / 16;
    assert(list_shown(fw, fh, windows, top));
    let panel = with_tint(buf, st, 8, y, pw, ph, BAR_BG, 220);
    let framed = with_outline(panel, st, 8, y, pw, ph, BAR_BORDER);
    tint_pixel(buf, st, 8, y, pw, ph, BAR_BG, 220, row, col);
    outline_pixel(panel, st, 8, y, pw, ph, BAR_BORDER, row, col);
    text_pixel(framed, st, 18, y + 8, title, 0x89B4FA, row, col);
    let titled = list_titled(buf, fw, windows, top);
    rows_pixel(titled, st, windows, y, usable, windows.len() as int, row, col);
}

proof fn longest_row_grows(windows: Seq<WindowInfo>, title_len: int)
    ensures
        longest_row(windows, title_len) >= title_len,
    decreases windows.len(),
{
    if windows.len() > 0 {
        longest_row_grows(windows.drop_last(), title_len);
    }
}

/// The list of windows has a title that tells how many there are, or that there
/// are none.
pub proof fn lists_tell_how_many()
    ensures
        forall|
            buf: &mut [u32],
            fw: u32,
            fh: u32,
            windows: &[WindowInfo],
            top: u32,
            row: int,
            col: int,
        |
            #![trigger call_ensures(draw_window_list, (buf, fw, fh, windows, top), ()),
                at(final(buf)@, fw as int, row, col)]
            call_ensures(draw_window_list, (buf, fw, fh, windows, top), ()) && 0 <= row
                < buf@.len() as int / fw as int && 0 <= col < fw && fw > 200 && 178 + 16
                * text::decimal(windows@.len()).len() <= fw && top + 68 + 20 * windows@.len() < fh
                && top + 16 <= row < top + 32 ==> row_shows(
                at(final(buf)@, fw as int, row, col),
                fw as int,
                18,
                top + 16,
                if windows@.len() == 0 {
                    "No windows"@
                } else {
                    "Windows ("@ + text::decimal(windows@.len()) + ")"@
                },
                0x89B4FA,
                row,
                col,
            ),
{
    assert forall|
        buf: &mut [u32],
        fw: u32,
        fh: u32,
        windows: &[WindowInfo],
        top: u32,
        row: int,
        col: int,
    |
        #![trigger call_ensures(draw_window_list, (buf, fw, fh, windows, top), ()),
            at(final(buf)@, fw as int, row, col)]
        call_ensures(draw_window_list, (buf, fw, fh, windows, top), ()) && 0 <= row
            < buf@.len() as int / fw as int && 0 <= col < fw && fw > 200 && 178 + 16 * text::decimal(
            windows@.len(),
        ).len() <= fw && top + 68 + 20 * windows@.len() < fh && top + 16 <= row < top
            + 32 implies row_shows(
        at(final(buf)@, fw as int, row, col),
        fw as int,
        18,
        top + 16,
        if windows@.len() == 0 {
            "No windows"@
        } else {
            "Windows ("@ + text::decimal(windows@.len()) + ")"@
        },
        0x89B4FA,
        row,
        col,
    ) by {
        list_pixel(buf@, fw, fh, windows@, top, row, col);
        let titled = list_titled(buf@, fw, windows@, top);
        assert(at(final(buf)@, fw as int, row, col) == at(titled, fw as int, row, col));
    }
}

} // verus!
