//! Pictures as rows of pixels.
use vstd::prelude::*;

verus! {

/// Red, green and blue in one number, as windows take pixels.
pub open spec fn rgb(r: u8, g: u8, b: u8) -> u32 {
    (r * 65536 + g * 256 + b) as u32
}

/// A position in a picture determines its row and column.
pub proof fn row_position(row: int, col: int, stride: int)
    requires
        0 <= row,
        0 <= col < stride,
    ensures
        (row * stride + col) / stride == row,
        (row * stride + col) % stride == col,
{
    vstd::arithmetic::div_mod::lemma_fundamental_div_mod_converse(
        row * stride + col,
        stride,
        row,
        col,
    );
}

/// Rows before a row fit before it.
pub proof fn rows_fit(row: int, rows: int, stride: int)
    requires
        0 <= row < rows,
        0 <= stride,
    ensures
        0 <= row * stride,
        row * stride + stride <= rows * stride,
        0 <= rows * stride,
{
    assert(0 <= row * stride && row * stride + stride <= rows * stride && 0 <= rows * stride)
        by (nonlinear_arith)
        requires
            0 <= row < rows,
            0 <= stride,
    ;
}

/// The pixel at a row and column of RGBA rows that are `stride` bytes apart.
pub open spec fn pixel_at(data: Seq<u8>, stride: int, row: int, col: int) -> u32 {
    let i = row * stride + col * 4;
    rgb(data[i], data[i + 1], data[i + 2])
}

/// The pixels of a picture whose RGBA rows are `stride` bytes apart, row by
/// row. Alpha is dropped.
pub open spec fn picture(data: Seq<u8>, stride: int, width: int, height: int) -> Seq<u32> {
    Seq::new(
        (width * height) as nat,
        |i: int| pixel_at(data, stride, i / width, i % width),
    )
}

/// A picture has a pixel for each row and column, row by row, and each pixel
/// holds red, green and blue and nothing above them.
pub proof fn pictures_are_whole(data: Seq<u8>, stride: int, width: int, height: int)
    requires
        0 <= width,
        0 <= height,
    ensures
        picture(data, stride, width, height).len() == width * height,
        forall|i: int|
            0 <= i < width * height ==> #[trigger] picture(data, stride, width, height)[i]
                <= 0x00FF_FFFF,
        forall|row: int, col: int|
            0 <= row < height && 0 <= col < width ==> picture(data, stride, width, height)[row
                * width + col] == #[trigger] pixel_at(data, stride, row, col),
{
    assert(0 <= width * height) by (nonlinear_arith)
        requires
            0 <= width,
            0 <= height,
    ;
    assert forall|row: int, col: int| 0 <= row < height && 0 <= col < width implies picture(
        data,
        stride,
        width,
        height,
    )[row * width + col] == #[trigger] pixel_at(data, stride, row, col) by {
        rows_fit(row, height, width);
        assert(width * height == height * width) by (nonlinear_arith);
        row_position(row, col, width);
    }
}

/// Whether the bytes hold the red, green and blue of every pixel.
pub open spec fn colors_lie_within(len: int, stride: int, width: int, height: int) -> bool {
    width > 0 && height > 0 ==> (height - 1) * stride + (width - 1) * 4 + 3 <= len
}

/// Reads the pixels of a picture whose RGBA rows are `stride` bytes apart.
pub fn pixels_of_rows(data: &[u8], stride: usize, width: usize, height: usize) -> (pixels: Vec<u32>)
    requires
        colors_lie_within(data@.len() as int, stride as int, width as int, height as int),
    ensures
        pixels@ == picture(data@, stride as int, width as int, height as int),
{
    let data_len: usize = data.len();
    let ghost all = picture(data@, stride as int, width as int, height as int);
    let ghost w = width as int;
    let ghost st = stride as int;
    let mut pixels: Vec<u32> = Vec::new();
    proof {
        assert(0 <= w * height) by (nonlinear_arith)
            requires
                w >= 0,
                height >= 0,
        ;
        assert(0 * w == 0 && 0 * height == 0) by (nonlinear_arith);
    }
    if width == 0 {
        assert(pixels@ == all);
        return pixels;
    }
    let mut row: usize = 0;
    assert(pixels@ == all.take(0));
    while row < height
        invariant
            row <= height,
            0 < width,
            w == width,
            st == stride,
            colors_lie_within(data_len as int, st, w, height as int),
            data_len == data@.len(),
            all == picture(data@, st, w, height as int),
            all.len() == w * height,
            pixels@ == all.take(row * w),
        decreases height - row,
    {
        proof {
            assert(0 <= row * st <= (height - 1) * st) by (nonlinear_arith)
                requires
                    0 <= row <= height - 1,
                    0 <= st,
            ;
            rows_fit(row as int, height as int, w);
            assert(w * height == height * w) by (nonlinear_arith);
        }
        let row_start: usize = row * stride;
        let mut col: usize = 0;
        while col < width
            invariant
                row < height,
                col <= width,
                w == width,
                st == stride,
                row_start == row * st,
                row_start + (w - 1) * 4 + 3 <= data_len,
                data_len == data@.len(),
                all == picture(data@, st, w, height as int),
                all.len() == w * height,
                row * w + w <= all.len(),
                0 <= row * w,
                pixels@ == all.take(row * w + col),
            decreases width - col,
        {
            let i: usize = row_start + col * 4;
            let r: u32 = data[i] as u32;
            let g: u32 = data[i + 1] as u32;
            let b: u32 = data[i + 2] as u32;
            pixels.push(r * 65536 + g * 256 + b);
            proof {
                row_position(row as int, col as int, w);
                let k = row * w + col;
                assert(all[k] == pixel_at(data@, st, row as int, col as int));
                assert(all.take(k + 1) == all.take(k).push(all[k]));
            }
            col = col + 1;
        }
        proof {
            assert((row + 1) * w == row * w + w) by (nonlinear_arith);
        }
        row = row + 1;
    }
    proof {
        assert(w * height == height * w) by (nonlinear_arith);
        assert(all.take(height * w) == all);
    }
    pixels
}

/// The pixel of a row and column is made of the three bytes that stand there:
/// the first is the red, the second the green, the third the blue.
pub proof fn pixels_keep_their_place_and_color(
    data: &[u8],
    stride: usize,
    width: usize,
    height: usize,
    pixels: Vec<u32>,
    row: int,
    col: int,
)
    requires
        colors_lie_within(data@.len() as int, stride as int, width as int, height as int),
        call_ensures(pixels_of_rows, (data, stride, width, height), pixels),
        0 <= row < height,
        0 <= col < width,
    ensures
        pixels@.len() == width * height,
        ({
            let p = pixels@[row * width + col];
            let i = row * stride + 4 * col;
            &&& p / 65536 == data@[i]
            &&& p / 256 % 256 == data@[i + 1]
            &&& p % 256 == data@[i + 2]
        }),
{
    pictures_are_whole(data@, stride as int, width as int, height as int);
    assert(pixels@[row * width + col] == pixel_at(data@, stride as int, row, col));
}

} // verus!
