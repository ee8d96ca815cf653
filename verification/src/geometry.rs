//! Dimensions of the panel and of the rectangles on it.

use vstd::prelude::*;

verus! {

/// Width of the display
pub const WIDTH: u32 = 800;

/// Height of the display
pub const HEIGHT: u32 = 480;

/// Bytes in one row of the panel, eight pixels to a byte.
pub const ROW_BYTES: u32 = WIDTH / 8;

/// Bytes in one image of the panel.
pub const FRAME_BYTES: u32 = ROW_BYTES * HEIGHT;

/// Length of a buffer whose rows start on byte boundaries.
pub open spec fn packed_len(width: int, height: int) -> int {
    (width + 7) / 8 * height
}

/// Bytes that an image of `width` by `height` pixels takes, each row padded to full bytes.
pub fn buffer_len(width: usize, height: usize) -> (len: usize)
    requires
        width + 7 <= usize::MAX,
        packed_len(width as int, height as int) <= usize::MAX,
    ensures
        len == packed_len(width as int, height as int),
{
    (width + 7) / 8 * height
}

/// A nonempty rectangle on the screen that starts and ends on byte boundaries.
pub open spec fn on_screen(x: int, y: int, width: int, height: int) -> bool {
    &&& 0 <= x && 0 <= y
    &&& 0 < width && 0 < height
    &&& x + width <= WIDTH && y + height <= HEIGHT
    &&& x % 8 == 0 && width % 8 == 0
}

/// A rectangle together with the length of the buffer that fills it, packed tightly.
pub open spec fn valid_region(len: int, x: int, y: int, width: int, height: int) -> bool {
    &&& on_screen(x, y, width, height)
    &&& len == width / 8 * height
}

/// Whether a buffer of `len` bytes is one whole image.
pub fn is_full_frame(len: usize) -> (fits: bool)
    ensures
        fits == (len == FRAME_BYTES),
        fits <==> len == 48_000,
{
    len == buffer_len(WIDTH as usize, HEIGHT as usize)
}

/// Whether a buffer of `len` bytes fills the rectangle exactly, the rectangle being nonempty,
/// on the screen, and aligned to bytes.
pub fn region_fits(len: usize, x: u32, y: u32, width: u32, height: u32) -> (fits: bool)
    ensures
        fits == valid_region(len as int, x as int, y as int, width as int, height as int),
        fits <==> width > 0 && height > 0 && x < 800 && y < 480 && width <= 800 - x && height <= 480
            - y && x % 8 == 0 && width % 8 == 0 && len == width / 8 * height,
{
    if !(width > 0 && height > 0) {
        return false;
    }
    if !(x < WIDTH && y < HEIGHT) {
        return false;
    }
    if !(width <= WIDTH - x && height <= HEIGHT - y) {
        return false;
    }
    if !(x % 8 == 0 && width % 8 == 0) {
        return false;
    }
    assert(width / 8 * height <= 100 * 480) by (nonlinear_arith)
        requires
            width / 8 <= 100,
            height <= 480,
    ;
    len == (width / 8 * height) as usize
}

/// The panel has 800 by 480 pixels, a row of it takes 100 bytes, and an image 48000.
pub proof fn law_dimensions()
    ensures
        WIDTH == 800,
        HEIGHT == 480,
        ROW_BYTES == 100,
        FRAME_BYTES == 48_000,
        packed_len(WIDTH as int, HEIGHT as int) == 48_000,
{
}

/// A row takes the fewest whole bytes that hold its pixels, and an image as many such rows as it
/// is high.
pub proof fn law_rows_are_padded_to_bytes(width: int, height: int)
    requires
        0 <= width,
        0 <= height,
    ensures
        ({
            let row = packed_len(width, 1);
            &&& width <= 8 * row < width + 8
            &&& packed_len(width, height) == row * height
        }),
{
}

/// A region is accepted exactly when it is nonempty, lies on a screen of 800 by 480 pixels,
/// starts and ends on multiples of eight columns, and has as many bytes as its pixels take.
pub proof fn law_accepted_regions(len: int, x: int, y: int, width: int, height: int)
    requires
        0 <= x,
        0 <= y,
        0 <= width,
        0 <= height,
    ensures
        valid_region(len, x, y, width, height) <==> {
            &&& width > 0 && height > 0
            &&& x < 800 && y < 480
            &&& width <= 800 - x && height <= 480 - y
            &&& x % 8 == 0 && width % 8 == 0
            &&& len == width / 8 * height
        },
{
}

/// Which rows a region covers does not matter as long as they are on the screen: moved up or down
/// by any number of rows it is accepted all the same, and so it is when moved sideways by
/// whole bytes.
pub proof fn law_accepted_regions_can_be_moved(
    len: int,
    x: int,
    y: int,
    width: int,
    height: int,
    bytes: int,
    rows: int,
)
    requires
        valid_region(len, x, y, width, height),
        0 <= x + 8 * bytes,
        x + 8 * bytes + width <= 800,
        0 <= y + rows,
        y + rows + height <= 480,
    ensures
        valid_region(len, x + 8 * bytes, y + rows, width, height),
{
}

/// An accepted region is cut into two accepted ones by any row within it.
pub proof fn law_accepted_regions_can_be_cut(
    len: int,
    x: int,
    y: int,
    width: int,
    height: int,
    rows: int,
)
    requires
        valid_region(len, x, y, width, height),
        0 < rows < height,
    ensures
        valid_region(width / 8 * rows, x, y, width, rows),
        valid_region(len - width / 8 * rows, x, y + rows, width, height - rows),
{
    assert(width / 8 * height - width / 8 * rows == width / 8 * (height - rows))
        by (nonlinear_arith);
}

} // verus!
