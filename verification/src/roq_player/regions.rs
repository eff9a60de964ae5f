//! Which pixels of a frame a block can change, and what follows for the
//! blocks that are skipped.

use super::blocks::{from_grid, lemma_blit_outside, pixel_index};
use super::frame::{
    block4, block8, cell_fill, cell_source, decode, macroblock, motion_copy, motion_x, motion_y,
    row_prefix, rows_prefix, FrameInput, FrameState, MODE_CCC, MODE_MOT,
};
use vstd::prelude::*;

verus! {

/// Whether pixel (`x`, `y`) lies in the block of `n`×`n` pixels at
/// (`x0`, `y0`).
pub open spec fn in_block(x: int, y: int, x0: int, y0: int, n: int) -> bool {
    x0 <= x < x0 + n && y0 <= y < y0 + n
}

/// Whether pixel (`x`, `y`) lies in the frame.
pub open spec fn in_frame<C>(input: FrameInput<C>, x: int, y: int) -> bool {
    0 <= x < input.width && 0 <= y < input.height
}

/// Whether `after` has the frame size of `before` and the same pixel at
/// (`x`, `y`).
pub open spec fn keeps<C>(
    input: FrameInput<C>,
    before: FrameState<C>,
    after: FrameState<C>,
    x: int,
    y: int,
) -> bool {
    after.frame.len() == before.frame.len() && after.frame[pixel_index(input.width, x, y)]
        == before.frame[pixel_index(input.width, x, y)]
}

/// Filling a block from the codebook changes no pixel outside the block.
pub proof fn lemma_cell_fill_outside<C>(
    input: FrameInput<C>,
    st: FrameState<C>,
    x0: int,
    y0: int,
    n: int,
    x: int,
    y: int,
)
    requires
        st.frame.len() == input.width * input.height,
        in_frame(input, x, y),
        !in_block(x, y, x0, y0, n),
    ensures
        keeps(input, st, cell_fill(input, st, x0, y0, n), x, y),
{
    if !st.failed && st.cursor.pos < input.payload.len() {
        lemma_blit_outside(
            st.frame,
            input.width,
            input.height,
            x0,
            y0,
            n,
            cell_source(input.codebook, input.payload[st.cursor.pos] as int, n),
            x,
            y,
        );
    }
}

/// Copying a block from the previous frame changes no pixel outside the
/// block.
pub proof fn lemma_motion_copy_outside<C>(
    input: FrameInput<C>,
    st: FrameState<C>,
    x0: int,
    y0: int,
    n: int,
    x: int,
    y: int,
)
    requires
        st.frame.len() == input.width * input.height,
        in_frame(input, x, y),
        !in_block(x, y, x0, y0, n),
    ensures
        keeps(input, st, motion_copy(input, st, x0, y0, n), x, y),
{
    if !st.failed && st.cursor.pos < input.payload.len() {
        let b = input.payload[st.cursor.pos];
        let sx = x0 + motion_x(b, input.bias_x);
        let sy = y0 + motion_y(b, input.bias_y);
        lemma_blit_outside(
            st.frame,
            input.width,
            input.height,
            x0,
            y0,
            n,
            from_grid(input.previous, pixel_index(input.width, sx, sy), input.width, false),
            x,
            y,
        );
    }
}

/// Decoding a block of 4×4 pixels changes no pixel outside the block.
pub proof fn lemma_block4_outside<C>(
    input: FrameInput<C>,
    st: FrameState<C>,
    x0: int,
    y0: int,
    x: int,
    y: int,
)
    requires
        st.frame.len() == input.width * input.height,
        in_frame(input, x, y),
        !in_block(x, y, x0, y0, 4),
    ensures
        keeps(input, st, block4(input, st, x0, y0), x, y),
{
    reveal(block4);
    if !st.failed && st.cursor.can_fetch(input.payload) {
        let taken = FrameState {
            frame: st.frame,
            cursor: st.cursor.fetch(input.payload),
            failed: false,
        };
        lemma_motion_copy_outside(input, taken, x0, y0, 4, x, y);
        lemma_cell_fill_outside(input, taken, x0, y0, 4, x, y);
        let c1 = cell_fill(input, taken, x0, y0, 2);
        lemma_cell_fill_outside(input, taken, x0, y0, 2, x, y);
        let c2 = cell_fill(input, c1, x0 + 2, y0, 2);
        lemma_cell_fill_outside(input, c1, x0 + 2, y0, 2, x, y);
        let c3 = cell_fill(input, c2, x0, y0 + 2, 2);
        lemma_cell_fill_outside(input, c2, x0, y0 + 2, 2, x, y);
        lemma_cell_fill_outside(input, c3, x0 + 2, y0 + 2, 2, x, y);
    }
}

/// Decoding a block of 8×8 pixels changes no pixel outside the block.
pub proof fn lemma_block8_outside<C>(
    input: FrameInput<C>,
    st: FrameState<C>,
    x0: int,
    y0: int,
    x: int,
    y: int,
)
    requires
        st.frame.len() == input.width * input.height,
        in_frame(input, x, y),
        !in_block(x, y, x0, y0, 8),
    ensures
        keeps(input, st, block8(input, st, x0, y0), x, y),
{
    reveal(block8);
    if !st.failed && st.cursor.can_fetch(input.payload) {
        let taken = FrameState {
            frame: st.frame,
            cursor: st.cursor.fetch(input.payload),
            failed: false,
        };
        lemma_motion_copy_outside(input, taken, x0, y0, 8, x, y);
        lemma_cell_fill_outside(input, taken, x0, y0, 8, x, y);
        let b1 = block4(input, taken, x0, y0);
        lemma_block4_outside(input, taken, x0, y0, x, y);
        let b2 = block4(input, b1, x0 + 4, y0);
        lemma_block4_outside(input, b1, x0 + 4, y0, x, y);
        let b3 = block4(input, b2, x0, y0 + 4);
        lemma_block4_outside(input, b2, x0, y0 + 4, x, y);
        lemma_block4_outside(input, b3, x0 + 4, y0 + 4, x, y);
    }
}

/// Decoding a macroblock changes no pixel outside the macroblock.
pub proof fn lemma_macroblock_outside<C>(
    input: FrameInput<C>,
    st: FrameState<C>,
    mb_x: int,
    mb_y: int,
    x: int,
    y: int,
)
    requires
        st.frame.len() == input.width * input.height,
        in_frame(input, x, y),
        !in_block(x, y, 16 * mb_x, 16 * mb_y, 16),
    ensures
        keeps(input, st, macroblock(input, st, mb_x, mb_y), x, y),
{
    reveal(macroblock);
    let b1 = block8(input, st, 16 * mb_x, 16 * mb_y);
    lemma_block8_outside(input, st, 16 * mb_x, 16 * mb_y, x, y);
    let b2 = block8(input, b1, 16 * mb_x + 8, 16 * mb_y);
    lemma_block8_outside(input, b1, 16 * mb_x + 8, 16 * mb_y, x, y);
    let b3 = block8(input, b2, 16 * mb_x, 16 * mb_y + 8);
    lemma_block8_outside(input, b2, 16 * mb_x, 16 * mb_y + 8, x, y);
    lemma_block8_outside(input, b3, 16 * mb_x + 8, 16 * mb_y + 8, x, y);
}

/// The macroblocks `from` up to `count` of a row change no pixel outside
/// themselves.
pub proof fn lemma_row_outside<C>(
    input: FrameInput<C>,
    st: FrameState<C>,
    mb_y: int,
    from: nat,
    count: nat,
    x: int,
    y: int,
)
    requires
        st.frame.len() == input.width * input.height,
        in_frame(input, x, y),
        from <= count,
        !(16 * from <= x < 16 * count && 16 * mb_y <= y < 16 * mb_y + 16),
    ensures
        row_prefix(input, st, mb_y, count).frame.len() == st.frame.len(),
        keeps(input, row_prefix(input, st, mb_y, from), row_prefix(input, st, mb_y, count), x, y),
    decreases count,
{
    lemma_row_size(input, st, mb_y, from);
    lemma_row_size(input, st, mb_y, count);
    if from < count {
        lemma_row_outside(input, st, mb_y, from, (count - 1) as nat, x, y);
        lemma_row_size(input, st, mb_y, (count - 1) as nat);
        lemma_macroblock_outside(
            input,
            row_prefix(input, st, mb_y, (count - 1) as nat),
            count - 1,
            mb_y,
            x,
            y,
        );
    }
}

/// Decoding a block of 4×4 pixels keeps the size of the frame.
pub proof fn lemma_block4_size<C>(input: FrameInput<C>, st: FrameState<C>, x0: int, y0: int)
    ensures
        block4(input, st, x0, y0).frame.len() == st.frame.len(),
{
    reveal(block4);
}

/// Decoding a block of 8×8 pixels keeps the size of the frame.
pub proof fn lemma_block8_size<C>(input: FrameInput<C>, st: FrameState<C>, x0: int, y0: int)
    ensures
        block8(input, st, x0, y0).frame.len() == st.frame.len(),
{
    reveal(block8);
    if !st.failed && st.cursor.can_fetch(input.payload) {
        let taken = FrameState {
            frame: st.frame,
            cursor: st.cursor.fetch(input.payload),
            failed: false,
        };
        let b1 = block4(input, taken, x0, y0);
        lemma_block4_size(input, taken, x0, y0);
        let b2 = block4(input, b1, x0 + 4, y0);
        lemma_block4_size(input, b1, x0 + 4, y0);
        let b3 = block4(input, b2, x0, y0 + 4);
        lemma_block4_size(input, b2, x0, y0 + 4);
        lemma_block4_size(input, b3, x0 + 4, y0 + 4);
    }
}

/// Decoding a macroblock keeps the size of the frame.
pub proof fn lemma_macroblock_size<C>(input: FrameInput<C>, st: FrameState<C>, mb_x: int, mb_y: int)
    ensures
        macroblock(input, st, mb_x, mb_y).frame.len() == st.frame.len(),
{
    reveal(macroblock);
    let b1 = block8(input, st, 16 * mb_x, 16 * mb_y);
    lemma_block8_size(input, st, 16 * mb_x, 16 * mb_y);
    let b2 = block8(input, b1, 16 * mb_x + 8, 16 * mb_y);
    lemma_block8_size(input, b1, 16 * mb_x + 8, 16 * mb_y);
    let b3 = block8(input, b2, 16 * mb_x, 16 * mb_y + 8);
    lemma_block8_size(input, b2, 16 * mb_x, 16 * mb_y + 8);
    lemma_block8_size(input, b3, 16 * mb_x + 8, 16 * mb_y + 8);
}

/// The rows `from` up to `count` of macroblocks change no pixel outside
/// themselves.
pub proof fn lemma_rows_outside<C>(
    input: FrameInput<C>,
    st: FrameState<C>,
    from: nat,
    count: nat,
    x: int,
    y: int,
)
    requires
        st.frame.len() == input.width * input.height,
        in_frame(input, x, y),
        from <= count,
        !(16 * from <= y < 16 * count),
    ensures
        rows_prefix(input, st, count).frame.len() == st.frame.len(),
        keeps(input, rows_prefix(input, st, from), rows_prefix(input, st, count), x, y),
    decreases count,
{
    lemma_rows_size(input, st, from);
    lemma_rows_size(input, st, count);
    if from < count {
        lemma_rows_outside(input, st, from, (count - 1) as nat, x, y);
        lemma_rows_size(input, st, (count - 1) as nat);
        lemma_row_outside(
            input,
            rows_prefix(input, st, (count - 1) as nat),
            count - 1,
            0,
            (input.width / 16) as nat,
            x,
            y,
        );
    }
}

/// Decoding macroblocks of a row keeps the size of the frame.
pub proof fn lemma_row_size<C>(input: FrameInput<C>, st: FrameState<C>, mb_y: int, count: nat)
    ensures
        row_prefix(input, st, mb_y, count).frame.len() == st.frame.len(),
    decreases count,
{
    if count > 0 {
        lemma_row_size(input, st, mb_y, (count - 1) as nat);
        lemma_macroblock_size(input, row_prefix(input, st, mb_y, (count - 1) as nat), count - 1, mb_y);
    }
}

/// Decoding rows of macroblocks keeps the size of the frame.
pub proof fn lemma_rows_size<C>(input: FrameInput<C>, st: FrameState<C>, count: nat)
    ensures
        rows_prefix(input, st, count).frame.len() == st.frame.len(),
    decreases count,
{
    if count > 0 {
        lemma_rows_size(input, st, (count - 1) as nat);
        lemma_row_size(
            input,
            rows_prefix(input, st, (count - 1) as nat),
            count - 1,
            (input.width / 16) as nat,
        );
    }
}

/// The state in which the decoding of the macroblock in column `mb_x` and
/// row `mb_y` starts, when the frame is decoded onto `frame`.
pub open spec fn before_macroblock<C>(input: FrameInput<C>, frame: Seq<C>, mb_x: nat, mb_y: nat)
    -> FrameState<C> {
    row_prefix(input, rows_prefix(input, FrameState::start(frame), mb_y), mb_y as int, mb_x)
}

/// Left edge of block `q` of the macroblock in column `mb_x`.
pub open spec fn block_x(mb_x: int, q: int) -> int {
    16 * mb_x + 8 * (q % 2)
}

/// Upper edge of block `q` of the macroblock in row `mb_y`.
pub open spec fn block_y(mb_y: int, q: int) -> int {
    16 * mb_y + 8 * (q / 2)
}

/// The state in which the decoding of block `q` of a macroblock starts,
/// when the decoding of the macroblock starts in `st`.
pub open spec fn before_block<C>(
    input: FrameInput<C>,
    st: FrameState<C>,
    mb_x: int,
    mb_y: int,
    q: nat,
) -> FrameState<C>
    decreases q,
{
    if q == 0 {
        st
    } else {
        block8(
            input,
            before_block(input, st, mb_x, mb_y, (q - 1) as nat),
            block_x(mb_x, q - 1),
            block_y(mb_y, q - 1),
        )
    }
}

/// The state in which the decoding of part `j` of a divided block at
/// (`x0`, `y0`) starts, when `taken` is the state after the block's mode was
/// taken.
pub open spec fn before_part<C>(
    input: FrameInput<C>,
    taken: FrameState<C>,
    x0: int,
    y0: int,
    j: nat,
) -> FrameState<C>
    decreases j,
{
    if j == 0 {
        taken
    } else {
        block4(
            input,
            before_part(input, taken, x0, y0, (j - 1) as nat),
            x0 + 4 * ((j - 1) % 2),
            y0 + 4 * ((j - 1) / 2),
        )
    }
}

/// The state after the mode of the block whose decoding starts in `st` was
/// taken.
pub open spec fn mode_taken<C>(input: FrameInput<C>, st: FrameState<C>) -> FrameState<C> {
    FrameState { frame: st.frame, cursor: st.cursor.fetch(input.payload), failed: false }
}

/// Whether the block whose decoding starts in `st` has the given mode.
pub open spec fn has_mode<C>(input: FrameInput<C>, st: FrameState<C>, mode: u16) -> bool {
    !st.failed && st.cursor.can_fetch(input.payload) && mode_taken(input, st).cursor.mode() == mode
}

/// A pixel of block `q` that the decoding of block `q` keeps is kept by the
/// decoding of the whole macroblock.
proof fn lemma_through_macroblock<C>(
    input: FrameInput<C>,
    st: FrameState<C>,
    mb_x: int,
    mb_y: int,
    q: nat,
    x: int,
    y: int,
)
    requires
        st.frame.len() == input.width * input.height,
        in_frame(input, x, y),
        q < 4,
        in_block(x, y, block_x(mb_x, q as int), block_y(mb_y, q as int), 8),
        keeps(
            input,
            before_block(input, st, mb_x, mb_y, q),
            block8(
                input,
                before_block(input, st, mb_x, mb_y, q),
                block_x(mb_x, q as int),
                block_y(mb_y, q as int),
            ),
            x,
            y,
        ),
    ensures
        keeps(input, st, before_block(input, st, mb_x, mb_y, q), x, y),
        keeps(input, st, macroblock(input, st, mb_x, mb_y), x, y),
{
    reveal(macroblock);
    reveal_with_fuel(before_block, 5);
    let b0 = st;
    let b1 = block8(input, b0, 16 * mb_x, 16 * mb_y);
    let b2 = block8(input, b1, 16 * mb_x + 8, 16 * mb_y);
    let b3 = block8(input, b2, 16 * mb_x, 16 * mb_y + 8);
    let b4 = block8(input, b3, 16 * mb_x + 8, 16 * mb_y + 8);
    lemma_block8_size(input, b0, 16 * mb_x, 16 * mb_y);
    lemma_block8_size(input, b1, 16 * mb_x + 8, 16 * mb_y);
    lemma_block8_size(input, b2, 16 * mb_x, 16 * mb_y + 8);
    lemma_block8_size(input, b3, 16 * mb_x + 8, 16 * mb_y + 8);
    assert(before_block(input, st, mb_x, mb_y, 1) == b1);
    assert(before_block(input, st, mb_x, mb_y, 2) == b2);
    assert(before_block(input, st, mb_x, mb_y, 3) == b3);
    if q != 0 {
        lemma_block8_outside(input, b0, 16 * mb_x, 16 * mb_y, x, y);
    }
    if q != 1 {
        lemma_block8_outside(input, b1, 16 * mb_x + 8, 16 * mb_y, x, y);
    }
    if q != 2 {
        lemma_block8_outside(input, b2, 16 * mb_x, 16 * mb_y + 8, x, y);
    }
    if q != 3 {
        lemma_block8_outside(input, b3, 16 * mb_x + 8, 16 * mb_y + 8, x, y);
    }
    assert(macroblock(input, st, mb_x, mb_y) == b4);
}

/// A pixel of a macroblock that the decoding of the macroblock keeps is
/// kept by the decoding of the whole frame.
proof fn lemma_through_frame<C>(
    input: FrameInput<C>,
    frame: Seq<C>,
    mb_x: nat,
    mb_y: nat,
    x: int,
    y: int,
)
    requires
        input.wf(),
        frame.len() == input.width * input.height,
        mb_x < input.width / 16,
        mb_y < input.height / 16,
        in_block(x, y, 16 * (mb_x as int), 16 * (mb_y as int), 16),
        keeps(
            input,
            before_macroblock(input, frame, mb_x, mb_y),
            macroblock(input, before_macroblock(input, frame, mb_x, mb_y), mb_x as int, mb_y as int),
            x,
            y,
        ),
    ensures
        in_frame(input, x, y),
        before_macroblock(input, frame, mb_x, mb_y).frame.len() == frame.len(),
        before_macroblock(input, frame, mb_x, mb_y).frame[pixel_index(input.width, x, y)]
            == frame[pixel_index(input.width, x, y)],
        decode(input, frame).frame[pixel_index(input.width, x, y)] == frame[pixel_index(
            input.width,
            x,
            y,
        )],
{
    reveal(decode);
    let start = FrameState::start(frame);
    let columns = (input.width / 16) as nat;
    let rows = (input.height / 16) as nat;
    let row_start = rows_prefix(input, start, mb_y);
    lemma_rows_outside(input, start, 0, mb_y, x, y);
    lemma_row_outside(input, row_start, mb_y as int, 0, mb_x, x, y);
    lemma_row_outside(input, row_start, mb_y as int, mb_x + 1, columns, x, y);
    assert(row_prefix(input, row_start, mb_y as int, columns) == rows_prefix(
        input,
        start,
        mb_y + 1,
    ));
    lemma_rows_outside(input, start, mb_y + 1, rows, x, y);
}

/// A block that is skipped shows what the frame buffer held before the
/// frame was decoded onto it.
pub proof fn lemma_skipped_block_keeps_canvas<C>(
    input: FrameInput<C>,
    frame: Seq<C>,
    mb_x: nat,
    mb_y: nat,
    q: nat,
    x: int,
    y: int,
)
    requires
        input.wf(),
        frame.len() == input.width * input.height,
        mb_x < input.width / 16,
        mb_y < input.height / 16,
        q < 4,
        in_block(x, y, block_x(mb_x as int, q as int), block_y(mb_y as int, q as int), 8),
        has_mode(
            input,
            before_block(
                input,
                before_macroblock(input, frame, mb_x, mb_y),
                mb_x as int,
                mb_y as int,
                q,
            ),
            MODE_MOT,
        ),
    ensures
        decode(input, frame).frame[pixel_index(input.width, x, y)] == frame[pixel_index(
            input.width,
            x,
            y,
        )],
{
    let st = before_macroblock(input, frame, mb_x, mb_y);
    lemma_row_size(input, rows_prefix(input, FrameState::start(frame), mb_y), mb_y as int, mb_x);
    lemma_rows_size(input, FrameState::start(frame), mb_y);
    assert(block8(
        input,
        before_block(input, st, mb_x as int, mb_y as int, q),
        block_x(mb_x as int, q as int),
        block_y(mb_y as int, q as int),
    ).frame == before_block(input, st, mb_x as int, mb_y as int, q).frame) by {
        reveal(block8);
    }
    lemma_before_block_size(input, st, mb_x as int, mb_y as int, q);
    lemma_through_macroblock(input, st, mb_x as int, mb_y as int, q, x, y);
    lemma_through_frame(input, frame, mb_x, mb_y, x, y);
}

/// Decoding blocks of a macroblock keeps the size of the frame.
proof fn lemma_before_block_size<C>(
    input: FrameInput<C>,
    st: FrameState<C>,
    mb_x: int,
    mb_y: int,
    q: nat,
)
    ensures
        before_block(input, st, mb_x, mb_y, q).frame.len() == st.frame.len(),
    decreases q,
{
    if q > 0 {
        lemma_before_block_size(input, st, mb_x, mb_y, (q - 1) as nat);
        lemma_block8_size(
            input,
            before_block(input, st, mb_x, mb_y, (q - 1) as nat),
            block_x(mb_x, q - 1),
            block_y(mb_y, q - 1),
        );
    }
}

/// A part of a divided block that is skipped shows what the frame buffer
/// held before the frame was decoded onto it.
pub proof fn lemma_skipped_part_keeps_canvas<C>(
    input: FrameInput<C>,
    frame: Seq<C>,
    mb_x: nat,
    mb_y: nat,
    q: nat,
    j: nat,
    x: int,
    y: int,
)
    requires
        input.wf(),
        frame.len() == input.width * input.height,
        mb_x < input.width / 16,
        mb_y < input.height / 16,
        q < 4,
        j < 4,
        in_block(
            x,
            y,
            block_x(mb_x as int, q as int) + 4 * (j % 2),
            block_y(mb_y as int, q as int) + 4 * (j / 2),
            4,
        ),
        has_mode(
            input,
            before_block(
                input,
                before_macroblock(input, frame, mb_x, mb_y),
                mb_x as int,
                mb_y as int,
                q,
            ),
            MODE_CCC,
        ),
        has_mode(
            input,
            before_part(
                input,
                mode_taken(
                    input,
                    before_block(
                        input,
                        before_macroblock(input, frame, mb_x, mb_y),
                        mb_x as int,
                        mb_y as int,
                        q,
                    ),
                ),
                block_x(mb_x as int, q as int),
                block_y(mb_y as int, q as int),
                j,
            ),
            MODE_MOT,
        ),
    ensures
        decode(input, frame).frame[pixel_index(input.width, x, y)] == frame[pixel_index(
            input.width,
            x,
            y,
        )],
{
    let st = before_macroblock(input, frame, mb_x, mb_y);
    lemma_row_size(input, rows_prefix(input, FrameState::start(frame), mb_y), mb_y as int, mb_x);
    lemma_rows_size(input, FrameState::start(frame), mb_y);
    let bq = before_block(input, st, mb_x as int, mb_y as int, q);
    lemma_before_block_size(input, st, mb_x as int, mb_y as int, q);
    let x0 = block_x(mb_x as int, q as int);
    let y0 = block_y(mb_y as int, q as int);
    let taken = mode_taken(input, bq);
    assert(keeps(input, bq, block8(input, bq, x0, y0), x, y)) by {
        reveal(block8);
        reveal_with_fuel(before_part, 5);
        let part0 = taken;
        let part1 = block4(input, part0, x0, y0);
        let part2 = block4(input, part1, x0 + 4, y0);
        let part3 = block4(input, part2, x0, y0 + 4);
        let part4 = block4(input, part3, x0 + 4, y0 + 4);
        lemma_block4_size(input, part0, x0, y0);
        lemma_block4_size(input, part1, x0 + 4, y0);
        lemma_block4_size(input, part2, x0, y0 + 4);
        lemma_block4_size(input, part3, x0 + 4, y0 + 4);
        assert(before_part(input, taken, x0, y0, 1) == part1);
        assert(before_part(input, taken, x0, y0, 2) == part2);
        assert(before_part(input, taken, x0, y0, 3) == part3);
        assert(block8(input, bq, x0, y0) == part4);
        assert(in_frame(input, x, y));
        if j != 0 {
            lemma_block4_outside(input, part0, x0, y0, x, y);
        } else {
            assert(part1.frame == part0.frame) by {
                reveal(block4);
            }
        }
        if j != 1 {
            lemma_block4_outside(input, part1, x0 + 4, y0, x, y);
        } else {
            assert(part2.frame == part1.frame) by {
                reveal(block4);
            }
        }
        if j != 2 {
            lemma_block4_outside(input, part2, x0, y0 + 4, x, y);
        } else {
            assert(part3.frame == part2.frame) by {
                reveal(block4);
            }
        }
        if j != 3 {
            lemma_block4_outside(input, part3, x0 + 4, y0 + 4, x, y);
        } else {
            assert(part4.frame == part3.frame) by {
                reveal(block4);
            }
        }
    }
    lemma_through_macroblock(input, st, mb_x as int, mb_y as int, q, x, y);
    lemma_through_frame(input, frame, mb_x, mb_y, x, y);
}

} // verus!
