//! Frames as row-major pixel sequences, and the one operation frame decoding
//! is made of: writing a square block of pixels.

use vstd::arithmetic::div_mod::{
    lemma_fundamental_div_mod, lemma_fundamental_div_mod_converse, lemma_mod_bound,
};
use vstd::prelude::*;

verus! {

/// Largest width and height a frame can have.
pub const MAX_SIDE: usize = 0xFFFF;

/// Index of pixel (`x`, `y`) in a frame `width` pixels wide.
pub open spec fn pixel_index(width: int, x: int, y: int) -> int {
    y * width + x
}

/// `frame` with the block of `n`×`n` pixels at (`x0`, `y0`) replaced: pixel
/// (`x0 + dx`, `y0 + dy`) becomes `src(dx, dy)`, every pixel outside the
/// block stays.
pub open spec fn blit<C>(
    frame: Seq<C>,
    width: int,
    x0: int,
    y0: int,
    n: int,
    src: spec_fn(int, int) -> C,
) -> Seq<C> {
    blit_rows(frame, width, x0, y0, n, src, n, 0)
}

/// `frame` with the first `rows` rows of the block replaced, and the first
/// `cols` pixels of the row after them.
pub open spec fn blit_rows<C>(
    frame: Seq<C>,
    width: int,
    x0: int,
    y0: int,
    n: int,
    src: spec_fn(int, int) -> C,
    rows: int,
    cols: int,
) -> Seq<C> {
    Seq::new(
        frame.len(),
        |i: int|
            {
                let dx = i % width - x0;
                let dy = i / width - y0;
                if 0 <= dx < n && 0 <= dy < n && (dy < rows || (dy == rows && dx < cols)) {
                    src(dx, dy)
                } else {
                    frame[i]
                }
            },
    )
}

/// Pixels taken from a grid stored in `source`: the grid starts at `base`,
/// its rows are `stride` apart, and with `doubled` each grid pixel covers
/// 2×2 pixels of the block.
pub open spec fn from_grid<C>(source: Seq<C>, base: int, stride: int, doubled: bool) -> spec_fn(
    int,
    int,
) -> C {
    |dx: int, dy: int|
        if doubled {
            source[base + stride * (dy / 2) + dx / 2]
        } else {
            source[base + stride * dy + dx]
        }
}

/// The last row and column of the grid that a block of `n`×`n` pixels is
/// taken from.
pub open spec fn grid_side(n: int, doubled: bool) -> int {
    if doubled {
        (n - 1) / 2
    } else {
        n - 1
    }
}

/// A pixel inside a frame has an index inside the frame.
pub proof fn lemma_pixel_index(width: int, height: int, x: int, y: int)
    requires
        0 <= x < width,
        0 <= y < height,
    ensures
        0 <= pixel_index(width, x, y) < width * height,
        pixel_index(width, x, y) % width == x,
        pixel_index(width, x, y) / width == y,
{
    assert(0 <= y * width && y * width + width <= height * width && height * width == width
        * height) by (nonlinear_arith)
        requires
            0 <= y < height,
            0 < width,
    ;
    assert(y * width == width * y) by (nonlinear_arith);
    lemma_fundamental_div_mod_converse(pixel_index(width, x, y), width, y, x);
}

/// Every index of a frame is the index of one pixel.
pub proof fn lemma_index_pixel(width: int, i: int)
    requires
        0 < width,
        0 <= i,
    ensures
        0 <= i % width < width,
        0 <= i / width,
        pixel_index(width, i % width, i / width) == i,
{
    lemma_fundamental_div_mod(i, width);
    lemma_mod_bound(i, width);
    assert(width * (i / width) == (i / width) * width) by (nonlinear_arith);
    assert(0 <= i / width) by (nonlinear_arith)
        requires
            0 < width,
            0 <= i,
    ;
}

/// Writing pixel (`cols`, `rows`) of the block extends the part of the block
/// already written by that pixel.
proof fn lemma_blit_step<C>(
    frame: Seq<C>,
    width: int,
    height: int,
    x0: int,
    y0: int,
    n: int,
    src: spec_fn(int, int) -> C,
    rows: int,
    cols: int,
)
    requires
        frame.len() == width * height,
        0 <= x0,
        x0 + n <= width,
        0 <= y0,
        y0 + n <= height,
        0 <= rows < n,
        0 <= cols < n,
    ensures
        0 <= pixel_index(width, x0 + cols, y0 + rows) < frame.len(),
        blit_rows(frame, width, x0, y0, n, src, rows, cols).update(
            pixel_index(width, x0 + cols, y0 + rows),
            src(cols, rows),
        ) == blit_rows(frame, width, x0, y0, n, src, rows, cols + 1),
{
    let at = pixel_index(width, x0 + cols, y0 + rows);
    lemma_pixel_index(width, height, x0 + cols, y0 + rows);
    let before = blit_rows(frame, width, x0, y0, n, src, rows, cols);
    let after = blit_rows(frame, width, x0, y0, n, src, rows, cols + 1);
    assert forall|i: int| 0 <= i < frame.len() implies before.update(at, src(cols, rows))[i]
        == after[i] by {
        lemma_index_pixel(width, i);
    }
    assert(before.update(at, src(cols, rows)) =~= after);
}

/// Nothing of the block written yet is the frame itself; a row written to
/// its end is the next row not yet begun.
proof fn lemma_blit_rows<C>(
    frame: Seq<C>,
    width: int,
    x0: int,
    y0: int,
    n: int,
    src: spec_fn(int, int) -> C,
    rows: int,
)
    ensures
        blit_rows(frame, width, x0, y0, n, src, 0, 0) == frame,
        blit_rows(frame, width, x0, y0, n, src, rows, n) == blit_rows(
            frame,
            width,
            x0,
            y0,
            n,
            src,
            rows + 1,
            0,
        ),
{
    assert(blit_rows(frame, width, x0, y0, n, src, 0, 0) =~= frame);
    assert(blit_rows(frame, width, x0, y0, n, src, rows, n) =~= blit_rows(
        frame,
        width,
        x0,
        y0,
        n,
        src,
        rows + 1,
        0,
    ));
}

/// Writing a block changes no pixel outside the block and keeps the frame's
/// size.
pub proof fn lemma_blit_outside<C>(
    frame: Seq<C>,
    width: int,
    height: int,
    x0: int,
    y0: int,
    n: int,
    src: spec_fn(int, int) -> C,
    x: int,
    y: int,
)
    requires
        frame.len() == width * height,
        0 <= x < width,
        0 <= y < height,
        !(x0 <= x < x0 + n && y0 <= y < y0 + n),
    ensures
        blit(frame, width, x0, y0, n, src).len() == frame.len(),
        blit(frame, width, x0, y0, n, src)[pixel_index(width, x, y)] == frame[pixel_index(
            width,
            x,
            y,
        )],
{
    lemma_pixel_index(width, height, x, y);
}

/// Writing a block sets each pixel of the block to what the source gives
/// for it.
pub proof fn lemma_blit_inside<C>(
    frame: Seq<C>,
    width: int,
    height: int,
    x0: int,
    y0: int,
    n: int,
    src: spec_fn(int, int) -> C,
    dx: int,
    dy: int,
)
    requires
        frame.len() == width * height,
        0 <= x0,
        x0 + n <= width,
        0 <= y0,
        y0 + n <= height,
        0 <= dx < n,
        0 <= dy < n,
    ensures
        blit(frame, width, x0, y0, n, src)[pixel_index(width, x0 + dx, y0 + dy)] == src(dx, dy),
{
    lemma_pixel_index(width, height, x0 + dx, y0 + dy);
}

/// Writes the block of `n`×`n` pixels at (`x0`, `y0`) of `frame` from a grid
/// stored in `source`.
#[verifier::rlimit(40)]
pub(crate) fn write_block<C: Copy>(
    frame: &mut Vec<C>,
    width: usize,
    height: usize,
    x0: usize,
    y0: usize,
    n: usize,
    source: &[C],
    base: usize,
    stride: usize,
    doubled: bool,
)
    requires
        old(frame)@.len() == width * height,
        width <= MAX_SIDE,
        height <= MAX_SIDE,
        x0 + n <= width,
        y0 + n <= height,
        0 < n <= 8,
        stride <= MAX_SIDE,
        base + stride * grid_side(n as int, doubled) + grid_side(n as int, doubled) < source@.len(),
    ensures
        final(frame)@ == blit(
            old(frame)@,
            width as int,
            x0 as int,
            y0 as int,
            n as int,
            from_grid(source@, base as int, stride as int, doubled),
        ),
{
    let ghost before = frame@;
    let ghost src = from_grid(source@, base as int, stride as int, doubled);
    let source_len = source.len();
    proof {
        lemma_blit_rows(before, width as int, x0 as int, y0 as int, n as int, src, 0);
    }
    let mut r: usize = 0;
    while r < n
        invariant
            r <= n <= 8,
            source_len == source@.len(),
            frame@.len() == before.len(),
            before.len() == width * height,
            width <= MAX_SIDE,
            height <= MAX_SIDE,
            x0 + n <= width,
            y0 + n <= height,
            stride <= MAX_SIDE,
            base + stride * grid_side(n as int, doubled) + grid_side(n as int, doubled)
                < source@.len(),
            src == from_grid(source@, base as int, stride as int, doubled),
            frame@ == blit_rows(
                before,
                width as int,
                x0 as int,
                y0 as int,
                n as int,
                src,
                r as int,
                0,
            ),
        decreases n - r,
    {
        let from_row = if doubled {
            r / 2
        } else {
            r
        };
        assert(stride * from_row <= stride * grid_side(n as int, doubled)) by (nonlinear_arith)
            requires
                from_row <= grid_side(n as int, doubled),
                0 <= stride,
        ;
        assert(stride * grid_side(n as int, doubled) <= 0xFFFF * 7) by (nonlinear_arith)
            requires
                0 <= stride <= 0xFFFF,
                0 <= grid_side(n as int, doubled) <= 7,
        ;
        let from = base + stride * from_row;
        proof {
            lemma_pixel_index(width as int, height as int, x0 as int, (y0 + r) as int);
            lemma_pixel_index(width as int, height as int, x0 + n - 1, (y0 + r) as int);
            assert(width * height <= 0xFFFF * 0xFFFF) by (nonlinear_arith)
                requires
                    0 <= width <= 0xFFFF,
                    0 <= height <= 0xFFFF,
            ;
        }
        let to = (y0 + r) * width + x0;
        let mut c: usize = 0;
        while c < n
            invariant
                c <= n <= 8,
                r < n,
                source_len == source@.len(),
                before.len() == width * height,
                before.len() <= 0xFFFF * 0xFFFF,
                frame@.len() == before.len(),
                x0 + n <= width,
                y0 + n <= height,
                to == pixel_index(width as int, x0 as int, (y0 + r) as int),
                to + n <= before.len(),
                from == base + stride * (if doubled {
                    r as int / 2
                } else {
                    r as int
                }),
                from + grid_side(n as int, doubled) < source@.len(),
                src == from_grid(source@, base as int, stride as int, doubled),
                frame@ == blit_rows(
                    before,
                    width as int,
                    x0 as int,
                    y0 as int,
                    n as int,
                    src,
                    r as int,
                    c as int,
                ),
            decreases n - c,
        {
            let pixel = if doubled {
                source[from + c / 2]
            } else {
                source[from + c]
            };
            proof {
                lemma_blit_step(
                    before,
                    width as int,
                    height as int,
                    x0 as int,
                    y0 as int,
                    n as int,
                    src,
                    r as int,
                    c as int,
                );
                assert(pixel == src(c as int, r as int));
                assert(to + c == pixel_index(width as int, x0 + c, y0 + r));
            }
            frame[to + c] = pixel;
            c = c + 1;
        }
        proof {
            lemma_blit_rows(before, width as int, x0 as int, y0 as int, n as int, src, r as int);
        }
        r = r + 1;
    }
}

} // verus!
