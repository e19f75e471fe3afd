//! Capturing frames of an output: which of the offered buffers to take, when a
//! frame is there, and how its bytes become RGBA.
use vstd::prelude::*;
use crate::text;

verus! {

/// Why a frame could not be captured.
#[derive(Debug, Clone)]
pub enum CaptureError {
    Connect(String),
    NoShm,
    NoOutput,
    NoScreencopy,
    Failed(String),
    ShmError(String),
}

impl CaptureError {
    /// What the error says.
    pub open spec fn text(self) -> Seq<char> {
        match self {
            CaptureError::Connect(e) => "wayland connect: "@ + e@,
            CaptureError::NoShm => "no wl_shm global"@,
            CaptureError::NoOutput => "no wl_output global"@,
            CaptureError::NoScreencopy => "no screencopy manager global"@,
            CaptureError::Failed(e) => "capture failed: "@ + e@,
            CaptureError::ShmError(e) => "shm error: "@ + e@,
        }
    }

    /// Writes what the error says.
    pub fn message(&self) -> (s: String)
        ensures
            s@ == self.text(),
    {
        match self {
            CaptureError::Connect(e) => after("wayland connect: ", e),
            CaptureError::NoShm => String::from_str("no wl_shm global"),
            CaptureError::NoOutput => String::from_str("no wl_output global"),
            CaptureError::NoScreencopy => String::from_str("no screencopy manager global"),
            CaptureError::Failed(e) => after("capture failed: ", e),
            CaptureError::ShmError(e) => after("shm error: ", e),
        }
    }
}

/// A text behind another.
pub(crate) fn after(head: &str, tail: &str) -> (s: String)
    ensures
        s@ == head@ + tail@,
{
    let mut out = text::chars_of(head);
    text::push_str(&mut out, tail);
    text::text_of(&out)
}

/// How the bytes of a pixel lie in memory. Format names give the bits from the
/// highest down and memory holds them from the lowest up, so the bytes come in
/// reverse: ARGB8888 lies as blue, green, red, alpha.
#[derive(Debug, Clone, Copy, PartialEq, Eq, Structural)]
pub struct Layout {
    /// Three or four bytes.
    pub bytes: usize,
    /// Whether blue comes first and red third, not the other way round.
    pub blue_first: bool,
    /// Whether a fourth byte holds alpha; where it does not, it means nothing.
    pub alpha: bool,
}

/// ARGB8888 as wl_shm numbers it.
pub const SHM_ARGB8888: u32 = 0;

/// XRGB8888 as wl_shm numbers it.
pub const SHM_XRGB8888: u32 = 1;

/// `AR24`
pub const ARGB8888: u32 = 875713089;

/// `XR24`
pub const XRGB8888: u32 = 875713112;

/// `AB24`
pub const ABGR8888: u32 = 875708993;

/// `XB24`
pub const XBGR8888: u32 = 875709016;

/// `BG24`
pub const BGR888: u32 = 875710274;

/// `RG24`
pub const RGB888: u32 = 875710290;

/// Whether a format is a known one of four bytes per pixel.
pub open spec fn four_bytes(format: u32) -> bool {
    format == SHM_ARGB8888 || format == SHM_XRGB8888 || format == ARGB8888 || format == XRGB8888
        || format == ABGR8888 || format == XBGR8888
}

/// Whether a format is a known one of three bytes per pixel.
pub open spec fn three_bytes(format: u32) -> bool {
    format == BGR888 || format == RGB888
}

/// The layout of a format. One that is not known is taken for ARGB8888.
pub open spec fn layout_of(format: u32) -> Layout {
    Layout {
        bytes: if three_bytes(format) {
            3
        } else {
            4
        },
        blue_first: !(format == ABGR8888 || format == XBGR8888 || format == BGR888),
        alpha: !(format == SHM_XRGB8888 || format == XRGB8888 || format == XBGR8888 || three_bytes(
            format,
        )),
    }
}

/// Tests for a known format of four bytes per pixel.
pub fn is_four_bytes(format: u32) -> (b: bool)
    ensures
        b == four_bytes(format),
{
    format == SHM_ARGB8888 || format == SHM_XRGB8888 || format == ARGB8888 || format == XRGB8888
        || format == ABGR8888 || format == XBGR8888
}

/// Tests for a known format of three bytes per pixel.
pub fn is_three_bytes(format: u32) -> (b: bool)
    ensures
        b == three_bytes(format),
{
    format == BGR888 || format == RGB888
}

/// The layout of a format.
pub fn layout(format: u32) -> (l: Layout)
    ensures
        l == layout_of(format),
{
    let three = is_three_bytes(format);
    Layout {
        bytes: if three {
            3
        } else {
            4
        },
        blue_first: !(format == ABGR8888 || format == XBGR8888 || format == BGR888),
        alpha: !(format == SHM_XRGB8888 || format == XRGB8888 || format == XBGR8888 || three),
    }
}

/// A buffer that the compositor offers to copy a frame into.
#[derive(Debug, Clone, Copy, PartialEq, Eq, Structural)]
pub struct Offer {
    pub format: u32,
    pub width: u32,
    pub height: u32,
    /// From one row to the next, in bytes.
    pub stride: u32,
}

/// The capture of one frame.
#[derive(Debug, Clone, Copy, PartialEq, Eq, Structural)]
pub struct FrameCapture {
    /// The offer that is taken so far.
    pub offer: Option<Offer>,
    pub ready: bool,
    pub failed: bool,
}

/// What to do about a frame that is being copied.
#[derive(Debug, Clone)]
pub enum CaptureStep {
    Wait,
    Read,
    Fail(CaptureError),
}

/// The offer that is taken after another comes: one of four bytes per pixel in
/// any case, one of three where none of four was taken, and no other.
pub open spec fn chosen(taken: Option<Offer>, next: Offer) -> Option<Offer> {
    if four_bytes(next.format) {
        Some(next)
    } else if three_bytes(next.format) && (taken matches Some(t) ==> three_bytes(t.format)) {
        Some(next)
    } else {
        taken
    }
}

/// The offer that is taken after some have come.
pub open spec fn chosen_of(offers: Seq<Offer>) -> Option<Offer>
    decreases offers.len(),
{
    if offers.len() == 0 {
        None
    } else {
        chosen(chosen_of(offers.drop_last()), offers.last())
    }
}

impl FrameCapture {
    /// Before anything was offered.
    pub fn new() -> (c: FrameCapture)
        ensures
            c == (FrameCapture { offer: None, ready: false, failed: false }),
    {
        FrameCapture { offer: None, ready: false, failed: false }
    }

    /// Takes an offer or leaves it.
    pub fn buffer(&mut self, next: Offer)
        ensures
            *final(self) == (FrameCapture { offer: chosen(old(self).offer, next), ..*old(self) }),
    {
        let replaceable = match self.offer {
            Some(t) => is_three_bytes(t.format),
            None => true,
        };
        if is_four_bytes(next.format) || (is_three_bytes(next.format) && replaceable) {
            self.offer = Some(next);
        }
    }

    /// The frame is copied.
    pub fn frame_ready(&mut self)
        ensures
            *final(self) == (FrameCapture { ready: true, ..*old(self) }),
    {
        self.ready = true;
    }

    /// The frame could not be copied.
    pub fn frame_failed(&mut self)
        ensures
            *final(self) == (FrameCapture { failed: true, ..*old(self) }),
    {
        self.failed = true;
    }

    /// The buffer to make, once the offers have come.
    pub fn buffer_info(&self) -> (r: Result<Offer, CaptureError>)
        ensures
            match self.offer {
                Some(o) => r == Ok::<Offer, CaptureError>(o),
                None => r matches Err(CaptureError::Failed(e)) && e@ == "no buffer info received"@,
            },
    {
        match self.offer {
            Some(o) => Ok(o),
            None => Err(CaptureError::Failed(String::from_str("no buffer info received"))),
        }
    }

    /// What to do while the frame is copied.
    pub fn step(&self) -> (s: CaptureStep)
        ensures
            if self.failed {
                s matches CaptureStep::Fail(CaptureError::Failed(e)) && e@
                    == "compositor reported failure"@
            } else if self.ready {
                s is Read
            } else {
                s is Wait
            },
    {
        if self.failed {
            CaptureStep::Fail(CaptureError::Failed(String::from_str("compositor reported failure")))
        } else if self.ready {
            CaptureStep::Read
        } else {
            CaptureStep::Wait
        }
    }
}

/// Whatever order the offers come in: the one taken is among them and can be
/// read, none is taken only where none can be read, and one of four bytes per
/// pixel is preferred.
pub proof fn a_readable_offer_is_taken(offers: Seq<Offer>)
    ensures
        chosen_of(offers) matches Some(o) ==> offers.contains(o) && (four_bytes(o.format)
            || three_bytes(o.format)),
        chosen_of(offers) is None ==> forall|i: int|
            0 <= i < offers.len() ==> !four_bytes((#[trigger] offers[i]).format) && !three_bytes(
                offers[i].format,
            ),
        (exists|i: int| 0 <= i < offers.len() && four_bytes((#[trigger] offers[i]).format)) ==> (
        chosen_of(offers) matches Some(o) && four_bytes(o.format)),
    decreases offers.len(),
{
    if offers.len() > 0 {
        let t = offers.drop_last();
        a_readable_offer_is_taken(t);
        assert(offers[offers.len() - 1] == offers.last());
        if let Some(o) = chosen_of(t) {
            let i = choose|i: int| 0 <= i < t.len() && t[i] == o;
            assert(offers[i] == o);
        }
        assert forall|i: int| 0 <= i < t.len() implies t[i] == #[trigger] offers[i] by {
        }
    }
}

/// Which globals a capturer needs and binds.
#[derive(Debug, Clone, Copy, PartialEq, Eq, Structural)]
pub enum CaptureGlobal {
    Shm,
    Output,
    Screencopy,
}

/// The lower of two versions.
pub open spec fn lower(a: u32, b: u32) -> u32 {
    if a < b {
        a
    } else {
        b
    }
}

/// The lower of two versions.
pub fn min_version(a: u32, b: u32) -> (v: u32)
    ensures
        v == lower(a, b),
{
    if a < b {
        a
    } else {
        b
    }
}

/// Which global an announced interface is and the version to bind; of the
/// outputs only the first is taken.
pub fn capture_global(interface: &str, version: u32, have_output: bool) -> (r: Option<
    (CaptureGlobal, u32),
>)
    ensures
        r == (if interface@ == "wl_shm"@ {
            Some((CaptureGlobal::Shm, lower(version, 1)))
        } else if interface@ == "wl_output"@ {
            if have_output {
                None
            } else {
                Some((CaptureGlobal::Output, lower(version, 4)))
            }
        } else if interface@ == "zwlr_screencopy_manager_v1"@ {
            Some((CaptureGlobal::Screencopy, lower(version, 3)))
        } else {
            None
        }),
{
    if text::same_text(interface, "wl_shm") {
        Some((CaptureGlobal::Shm, min_version(version, 1)))
    } else if text::same_text(interface, "wl_output") {
        if have_output {
            None
        } else {
            Some((CaptureGlobal::Output, min_version(version, 4)))
        }
    } else if text::same_text(interface, "zwlr_screencopy_manager_v1") {
        Some((CaptureGlobal::Screencopy, min_version(version, 3)))
    } else {
        None
    }
}

/// Whether the globals that were found suffice.
pub fn check_globals(shm: bool, output: bool, screencopy: bool) -> (r: Result<(), CaptureError>)
    ensures
        r is Ok <==> shm && output && screencopy,
        !shm ==> r == Err::<(), CaptureError>(CaptureError::NoShm),
        shm && !output ==> r == Err::<(), CaptureError>(CaptureError::NoOutput),
        shm && output && !screencopy ==> r == Err::<(), CaptureError>(CaptureError::NoScreencopy),
{
    if !shm {
        Err(CaptureError::NoShm)
    } else if !output {
        Err(CaptureError::NoOutput)
    } else if !screencopy {
        Err(CaptureError::NoScreencopy)
    } else {
        Ok(())
    }
}

/// How many bytes the rows of a buffer take.
pub fn buffer_size(stride: u32, height: u32) -> (n: usize)
    requires
        stride * height <= u32::MAX,
    ensures
        n == stride * height,
{
    let n: u32 = stride * height;
    n as usize
}

/// Red, green, blue and alpha.
pub type Rgba = (u8, u8, u8, u8);

/// The pixel that starts at a byte. Where alpha is not kept, or there is none,
/// the pixel is opaque.
pub open spec fn source_pixel(data: Seq<u8>, at: int, l: Layout, keep_alpha: bool) -> Rgba {
    let (r, b) = if l.blue_first {
        (data[at + 2], data[at])
    } else {
        (data[at], data[at + 2])
    };
    (
        r,
        data[at + 1],
        b,
        if keep_alpha && l.alpha {
            data[at + 3]
        } else {
            255
        },
    )
}

/// The pixel at a column and row of packed RGBA.
pub open spec fn rgba_pixel(rgba: Seq<u8>, width: int, x: int, y: int) -> Rgba {
    let at = 4 * (y * width + x);
    (rgba[at], rgba[at + 1], rgba[at + 2], rgba[at + 3])
}

/// Whether packed RGBA is a picture whose rows lie `stride` bytes apart in a
/// layout.
pub open spec fn converted(
    data: Seq<u8>,
    width: int,
    height: int,
    stride: int,
    l: Layout,
    keep_alpha: bool,
    rgba: Seq<u8>,
) -> bool {
    &&& rgba.len() == 4 * (width * height)
    &&& forall|x: int, y: int|
        0 <= x < width && 0 <= y < height ==> #[trigger] rgba_pixel(rgba, width, x, y)
            == source_pixel(data, y * stride + x * l.bytes, l, keep_alpha)
}

/// Whether the rows of a picture lie within some bytes.
pub open spec fn rows_lie_within(
    width: int,
    height: int,
    stride: int,
    bytes: int,
    len: int,
) -> bool {
    width > 0 && height > 0 ==> (height - 1) * stride + width * bytes <= len
}

proof fn earlier_pixels(width: int, x: int, y: int, a: int, b: int)
    requires
        0 <= a < width,
        0 <= b,
        b < y || (b == y && a < x),
        0 <= x,
    ensures
        b * width + a + 1 <= y * width + x,
        0 <= b * width,
{
    assert(b * width + a + 1 <= y * width + x && 0 <= b * width) by (nonlinear_arith)
        requires
            0 <= a < width,
            0 <= b,
            b < y || (b == y && a < x),
            0 <= x,
    ;
}

/// Packs a picture whose rows lie `stride` bytes apart as RGBA.
pub(crate) fn pack_rgba(
    data: &[u8],
    width: u32,
    height: u32,
    stride: u32,
    l: Layout,
    keep_alpha: bool,
) -> (rgba: Vec<u8>)
    requires
        l.bytes == 3 || l.bytes == 4,
        l.alpha ==> l.bytes == 4,
        rows_lie_within(
            width as int,
            height as int,
            stride as int,
            l.bytes as int,
            data@.len() as int,
        ),
    ensures
        converted(
            data@,
            width as int,
            height as int,
            stride as int,
            l,
            keep_alpha,
            rgba@,
        ),
{
    let ghost w = width as int;
    let ghost h = height as int;
    let ghost st = stride as int;
    let data_len: usize = data.len();
    let mut rgba: Vec<u8> = Vec::new();
    let mut y: u32 = 0;
    proof {
        assert(4 * (0 * w) == 0) by (nonlinear_arith);
    }
    while y < height
        invariant
            w == width,
            h == height,
            st == stride,
            data_len == data@.len(),
            l.bytes == 3 || l.bytes == 4,
            l.alpha ==> l.bytes == 4,
            rows_lie_within(w, h, st, l.bytes as int, data@.len() as int),
            0 <= y <= h,
            rgba@.len() == 4 * (y * w),
            forall|a: int, b: int|
                0 <= a < w && 0 <= b < y ==> #[trigger] rgba_pixel(rgba@, w, a, b) == source_pixel(
                    data@,
                    b * st + a * l.bytes,
                    l,
                    keep_alpha,
                ),
        decreases h - y,
    {
        let mut x: u32 = 0;
        while x < width
            invariant
                w == width,
                h == height,
                st == stride,
                data_len == data@.len(),
                l.bytes == 3 || l.bytes == 4,
                l.alpha ==> l.bytes == 4,
                rows_lie_within(w, h, st, l.bytes as int, data@.len() as int),
                0 <= y < h,
                0 <= x <= w,
                rgba@.len() == 4 * (y * w + x),
                forall|a: int, b: int|
                    0 <= a < w && 0 <= b && (b < y || (b == y && a < x))
                        ==> #[trigger] rgba_pixel(rgba@, w, a, b) == source_pixel(
                        data@,
                        b * st + a * l.bytes,
                        l,
                        keep_alpha,
                    ),
            decreases w - x,
        {
            let ghost before = rgba@;
            proof {
                let n = l.bytes as int;
                let yi = y as int;
                let xi = x as int;
                assert(yi * st + xi * n + n <= (h - 1) * st + w * n && 0 <= yi * st && 0 <= xi * n)
                    by (nonlinear_arith)
                    requires
                        0 <= yi <= h - 1,
                        0 <= xi <= w - 1,
                        0 <= st,
                        0 <= n,
                ;
            }
            let row: usize = y as usize * stride as usize;
            let at: usize = row + x as usize * l.bytes;
            let first: u8 = data[at];
            let g: u8 = data[at + 1];
            let third: u8 = data[at + 2];
            if l.blue_first {
                rgba.push(third);
                rgba.push(g);
                rgba.push(first);
            } else {
                rgba.push(first);
                rgba.push(g);
                rgba.push(third);
            }
            if keep_alpha && l.alpha {
                rgba.push(data[at + 3]);
            } else {
                rgba.push(255);
            }
            proof {
                assert forall|a: int, b: int|
                    0 <= a < w && 0 <= b && (b < y || (b == y && a < x + 1)) implies #[trigger]
                    rgba_pixel(rgba@, w, a, b) == source_pixel(
                    data@,
                    b * st + a * l.bytes,
                    l,
                    keep_alpha,
                ) by {
                    if b == y && a == x {
                    } else {
                        earlier_pixels(w, x as int, y as int, a, b);
                        assert(rgba_pixel(before, w, a, b) == rgba_pixel(rgba@, w, a, b));
                    }
                }
            }
            x = x + 1;
        }
        proof {
            assert((y + 1) * w == y * w + w) by (nonlinear_arith);
        }
        y = y + 1;
    }
    proof {
        assert(h * w == w * h) by (nonlinear_arith);
    }
    rgba
}

/// A captured frame as RGBA. An output has no transparency: every pixel is
/// opaque.
pub fn read_shm_to_rgba(data: &[u8], width: u32, height: u32, stride: u32, format: u32) -> (rgba: Vec<
    u8,
>)
    requires
        rows_lie_within(
            width as int,
            height as int,
            stride as int,
            layout_of(format).bytes as int,
            data@.len() as int,
        ),
    ensures
        converted(
            data@,
            width as int,
            height as int,
            stride as int,
            layout_of(format),
            false,
            rgba@,
        ),
{
    let l = layout(format);
    pack_rgba(data, width, height, stride, l, false)
}

/// Every pixel of a captured frame is opaque.
pub proof fn frames_are_opaque(
    data: Seq<u8>,
    width: int,
    height: int,
    stride: int,
    format: u32,
    rgba: Seq<u8>,
    x: int,
    y: int,
)
    requires
        converted(data, width, height, stride, layout_of(format), false, rgba),
        0 <= x < width,
        0 <= y < height,
    ensures
        rgba_pixel(rgba, width, x, y).3 == 255,
{
}

/// A format outside the first two goes by four letters; each that is known is
/// the one that its letters spell.
pub open spec fn spelled(a: char, b: char, c: char, d: char) -> int {
    a as int + 256 * (b as int) + 65536 * (c as int) + 16777216 * (d as int)
}

/// Formats have the numbers that their letters spell, and their pixels are read
/// as they say: three bytes or four, blue first or last, with transparency or
/// without.
pub proof fn formats_are_read_as_they_say(format: u32, l: Layout, four: bool, three: bool)
    requires
        call_ensures(layout, (format,), l),
        call_ensures(is_four_bytes, (format,), four),
        call_ensures(is_three_bytes, (format,), three),
    ensures
        ARGB8888 == spelled('A', 'R', '2', '4'),
        XRGB8888 == spelled('X', 'R', '2', '4'),
        ABGR8888 == spelled('A', 'B', '2', '4'),
        XBGR8888 == spelled('X', 'B', '2', '4'),
        BGR888 == spelled('B', 'G', '2', '4'),
        RGB888 == spelled('R', 'G', '2', '4'),
        SHM_ARGB8888 == 0 && SHM_XRGB8888 == 1,
        l.bytes == 3 <==> format == RGB888 || format == BGR888,
        l.bytes == 3 || l.bytes == 4,
        l.blue_first <==> format != ABGR8888 && format != XBGR8888 && format != BGR888,
        format == ARGB8888 || format == SHM_ARGB8888 || format == ABGR8888 ==> l.alpha,
        format == XRGB8888 || format == SHM_XRGB8888 || format == XBGR8888 || format == RGB888
            || format == BGR888 ==> !l.alpha,
        three <==> format == RGB888 || format == BGR888,
        four <==> format == ARGB8888 || format == SHM_ARGB8888 || format == XRGB8888 || format
            == SHM_XRGB8888 || format == ABGR8888 || format == XBGR8888,
{
}

/// What is offered first in a format that can be read is taken, one of four
/// bytes before one of three; what was taken is what is used.
pub proof fn readable_offers_are_used()
    ensures
        forall|c: &mut FrameCapture, o: Offer| #[trigger]
            call_ensures(FrameCapture::buffer, (c, o), ()) ==> {
                &&& final(c).ready == c.ready && final(c).failed == c.failed
                &&& final(c).offer == Some(o) || final(c).offer == c.offer
                &&& o.format == SHM_ARGB8888 || o.format == SHM_XRGB8888 || o.format == ARGB8888
                    || o.format == XRGB8888 || o.format == ABGR8888 || o.format == XBGR8888
                    ==> final(c).offer == Some(o)
                &&& (o.format == RGB888 || o.format == BGR888) && (c.offer is None
                    || c.offer->0.format == RGB888 || c.offer->0.format == BGR888)
                    ==> final(c).offer == Some(o)
                &&& (o.format == RGB888 || o.format == BGR888) && c.offer is Some
                    && c.offer->0.format != RGB888 && c.offer->0.format != BGR888
                    ==> final(c).offer == c.offer
                &&& final(c).offer != c.offer ==> o.format == SHM_ARGB8888 || o.format
                    == SHM_XRGB8888 || o.format == ARGB8888 || o.format == XRGB8888 || o.format
                    == ABGR8888 || o.format == XBGR8888 || o.format == RGB888 || o.format == BGR888
            },
        forall|c: &mut FrameCapture| #[trigger]
            call_ensures(FrameCapture::frame_ready, (c,), ()) ==> final(c).ready && final(c).failed
                == c.failed && final(c).offer == c.offer,
        forall|c: &mut FrameCapture| #[trigger]
            call_ensures(FrameCapture::frame_failed, (c,), ()) ==> final(c).failed && final(c).ready
                == c.ready && final(c).offer == c.offer,
        forall|c: &FrameCapture, r: Result<Offer, CaptureError>| #[trigger]
            call_ensures(FrameCapture::buffer_info, (c,), r) ==> {
                &&& c.offer matches Some(o) ==> r == Ok::<Offer, CaptureError>(o)
                &&& c.offer is None ==> (r matches Err(e) && e is Failed)
            },
        forall|c: &FrameCapture, s: CaptureStep| #[trigger]
            call_ensures(FrameCapture::step, (c,), s) ==> {
                &&& s is Fail <==> c.failed
                &&& s is Read <==> c.ready && !c.failed
                &&& s is Wait <==> !c.ready && !c.failed
            },
        forall|c: FrameCapture| #[trigger]
            call_ensures(FrameCapture::new, (), c) ==> c.offer is None && !c.ready && !c.failed,
{
}

/// A captured frame shows the pixels that were read, color by color, and none of
/// them lets anything through.
pub proof fn frames_show_their_pixels(
    data: &[u8],
    width: u32,
    height: u32,
    stride: u32,
    format: u32,
    rgba: Vec<u8>,
    x: int,
    y: int,
)
    requires
        rows_lie_within(
            width as int,
            height as int,
            stride as int,
            layout_of(format).bytes as int,
            data@.len() as int,
        ),
        call_ensures(read_shm_to_rgba, (data, width, height, stride, format), rgba),
        0 <= x < width,
        0 <= y < height,
    ensures
        rgba@.len() == 4 * (width * height),
        ({
            let to = 4 * (y * width + x);
            let bytes: int = if format == RGB888 || format == BGR888 {
                3
            } else {
                4
            };
            let from = y * stride + x * bytes;
            let blue_last = format == ABGR8888 || format == XBGR8888 || format == BGR888;
            &&& rgba@[to + 1] == data@[from + 1]
            &&& blue_last ==> rgba@[to] == data@[from] && rgba@[to + 2] == data@[from + 2]
            &&& !blue_last ==> rgba@[to] == data@[from + 2] && rgba@[to + 2] == data@[from]
            &&& rgba@[to + 3] == 255
        }),
{
    let p = rgba_pixel(rgba@, width as int, x, y);
    let l = layout_of(format);
    assert(p == source_pixel(data@, y * stride + x * l.bytes, l, false));
}

/// What a capture needs is found by its name, once, and no newer than it is
/// known; the first that is missing is told. A buffer holds every row.
pub proof fn captures_need_all_of_their_globals(
    interface: &str,
    version: u32,
    have_output: bool,
    g: Option<(CaptureGlobal, u32)>,
    shm: bool,
    output: bool,
    screencopy: bool,
    r: Result<(), CaptureError>,
    a: u32,
    b: u32,
    v: u32,
    stride: u32,
    height: u32,
    n: usize,
)
    requires
        call_ensures(capture_global, (interface, version, have_output), g),
        call_ensures(check_globals, (shm, output, screencopy), r),
        call_ensures(min_version, (a, b), v),
        stride * height <= u32::MAX,
        call_ensures(buffer_size, (stride, height), n),
    ensures
        g matches Some(x) ==> {
            &&& x.1 <= version
            &&& x.0 is Shm ==> interface@ == "wl_shm"@ && x.1 <= 1
            &&& x.0 is Output ==> interface@ == "wl_output"@ && !have_output && x.1 <= 4
            &&& x.0 is Screencopy ==> interface@ == "zwlr_screencopy_manager_v1"@ && x.1 <= 3
        },
        interface@ == "wl_shm"@ ==> g is Some,
        interface@ == "wl_output"@ && !have_output ==> g is Some,
        interface@ == "zwlr_screencopy_manager_v1"@ ==> g is Some,
        r is Ok <==> shm && output && screencopy,
        r matches Err(x) ==> (x is NoShm <==> !shm) && (x is NoOutput <==> shm && !output) && (
        x is NoScreencopy <==> shm && output && !screencopy),
        v <= a && v <= b && (v == a || v == b),
        n == stride * height,
{
    reveal_strlit("wl_shm");
    reveal_strlit("wl_output");
    reveal_strlit("zwlr_screencopy_manager_v1");
    assert("wl_shm"@.len() == 6 && "wl_output"@.len() == 9);
    assert("zwlr_screencopy_manager_v1"@.len() == 26);
}

/// An error that has a reason says it at its end, and none is silent.
pub proof fn capture_errors_say_why(e: &CaptureError, s: String)
    requires
        call_ensures(CaptureError::message, (e,), s),
    ensures
        e matches CaptureError::Connect(x) ==> text::has_suffix(s@, x@),
        e matches CaptureError::Failed(x) ==> text::has_suffix(s@, x@),
        e matches CaptureError::ShmError(x) ==> text::has_suffix(s@, x@),
        s@.len() > 0,
{
    reveal_strlit("wayland connect: ");
    reveal_strlit("capture failed: ");
    reveal_strlit("shm error: ");
    reveal_strlit("no wl_shm global");
    reveal_strlit("no wl_output global");
    reveal_strlit("no screencopy manager global");
    match *e {
        CaptureError::Connect(x) => {
            assert(s@.skip(s@.len() - x@.len()) =~= x@);
        },
        CaptureError::Failed(x) => {
            assert(s@.skip(s@.len() - x@.len()) =~= x@);
        },
        CaptureError::ShmError(x) => {
            assert(s@.skip(s@.len() - x@.len()) =~= x@);
        },
        _ => {},
    }
}

} // verus!
