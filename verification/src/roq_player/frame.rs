//! Decoding the payload of a video chunk into a frame: macroblocks of
//! 16×16 pixels in raster order, each made of four blocks of 8×8 pixels
//! that are skipped, copied from the previous frame, filled from the
//! codebook or divided once more.

use super::blocks::{
    blit, from_grid, lemma_blit_inside, lemma_pixel_index, pixel_index, write_block, MAX_SIDE,
};
use super::bytes::{ByteReader, RoqError};
use super::codebook::{Codebook, CodebookView};
use vstd::prelude::*;

verus! {

/// Mode of a block that is left as it is.
pub const MODE_MOT: u16 = 0;

/// Mode of a block that is copied from the previous frame.
pub const MODE_FCC: u16 = 1;

/// Mode of a block that is filled from one codebook cell.
pub const MODE_SDL: u16 = 2;

/// Mode of a block that is divided into four.
pub const MODE_CCC: u16 = 3;

/// A byte as a signed 8-bit number.
pub open spec fn signed_byte(b: int) -> int {
    if b >= 128 {
        b - 256
    } else {
        b
    }
}

/// Horizontal bias of all motion vectors of a video chunk: the high byte of
/// the chunk's argument, signed.
pub open spec fn bias_x(arg: u16) -> int {
    signed_byte((arg >> 8) as int)
}

/// Vertical bias of all motion vectors of a video chunk: the low byte of the
/// chunk's argument, signed.
pub open spec fn bias_y(arg: u16) -> int {
    signed_byte((arg & 0xFF) as int)
}

/// Horizontal motion that a motion byte stands for.
pub open spec fn motion_x(b: u8, bias: int) -> int {
    8 - (b >> 4) as int - bias
}

/// Vertical motion that a motion byte stands for.
pub open spec fn motion_y(b: u8, bias: int) -> int {
    8 - (b & 0xF) as int - bias
}

/// Where the mode bits stand: the read position in the payload, the 16 mode
/// bits read last and how many of them are not used yet.
pub struct ModeCursor {
    pub pos: int,
    pub count: u16,
    pub set: u16,
}

impl ModeCursor {
    /// The position is inside the payload and an even number of bits, at
    /// most 16, is left.
    pub open spec fn wf(self, payload: Seq<u8>) -> bool {
        0 <= self.pos <= payload.len() && self.count % 2 == 0 && self.count <= 16
    }

    /// Whether the next mode can be had: there are bits left, or two bytes
    /// to read new ones from.
    pub open spec fn can_fetch(self, payload: Seq<u8>) -> bool {
        self.count != 0 || self.pos + 2 <= payload.len()
    }

    /// The cursor after the next mode was taken: with no bits left, two
    /// bytes are read first, the low byte before the high byte.
    pub open spec fn fetch(self, payload: Seq<u8>) -> ModeCursor {
        if self.count == 0 {
            ModeCursor {
                pos: self.pos + 2,
                count: 14,
                set: ((payload[self.pos + 1] as u16) << 8) | (payload[self.pos] as u16),
            }
        } else {
            ModeCursor { pos: self.pos, count: (self.count - 2) as u16, set: self.set }
        }
    }

    /// The mode taken last: the two bits above those not used yet.
    pub open spec fn mode(self) -> u16 {
        (self.set >> self.count) & 3
    }

    /// The cursor one byte further.
    pub open spec fn step(self) -> ModeCursor {
        ModeCursor { pos: self.pos + 1, count: self.count, set: self.set }
    }
}

/// What stays the same while one video chunk is decoded.
pub struct FrameInput<C> {
    pub payload: Seq<u8>,
    pub previous: Seq<C>,
    pub codebook: CodebookView<C>,
    pub width: int,
    pub height: int,
    pub bias_x: int,
    pub bias_y: int,
}

impl<C> FrameInput<C> {
    /// The dimensions fit, the previous frame has one pixel for each pixel
    /// of the frame and the codebook is whole.
    pub open spec fn wf(self) -> bool {
        &&& 0 <= self.width <= MAX_SIDE
        &&& 0 <= self.height <= MAX_SIDE
        &&& self.previous.len() == self.width * self.height
        &&& self.codebook.wf()
    }
}

/// What changes while one video chunk is decoded: the frame, the cursor,
/// and whether the payload has run out.
pub struct FrameState<C> {
    pub frame: Seq<C>,
    pub cursor: ModeCursor,
    pub failed: bool,
}

impl<C> FrameState<C> {
    /// The state in which decoding starts on `frame`.
    pub open spec fn start(frame: Seq<C>) -> FrameState<C> {
        FrameState { frame, cursor: ModeCursor { pos: 0, count: 0, set: 0 }, failed: false }
    }

    /// The state after the payload has run out.
    pub open spec fn fail(self) -> FrameState<C> {
        FrameState { frame: self.frame, cursor: self.cursor, failed: true }
    }
}

/// The pixels of codebook cell `index` as the source for a block of `n`×`n`
/// pixels: a block of 8 takes a 4×4 cell, each pixel doubled in both
/// directions, a block of 4 takes a 4×4 cell and a block of 2 a 2×2 cell.
pub open spec fn cell_source<C>(codebook: CodebookView<C>, index: int, n: int) -> spec_fn(
    int,
    int,
) -> C {
    if n == 8 {
        from_grid(codebook.cells4, 16 * index, 4, true)
    } else if n == 4 {
        from_grid(codebook.cells4, 16 * index, 4, false)
    } else {
        from_grid(codebook.cells2, 4 * index, 2, false)
    }
}

/// A block filled from the codebook: one byte names the cell.
pub open spec fn cell_fill<C>(input: FrameInput<C>, st: FrameState<C>, x0: int, y0: int, n: int)
    -> FrameState<C> {
    if st.failed {
        st
    } else if st.cursor.pos >= input.payload.len() {
        st.fail()
    } else {
        FrameState {
            frame: blit(
                st.frame,
                input.width,
                x0,
                y0,
                n,
                cell_source(input.codebook, input.payload[st.cursor.pos] as int, n),
            ),
            cursor: st.cursor.step(),
            failed: false,
        }
    }
}

/// Whether a block of `n`×`n` pixels at (`x`, `y`) lies inside the frame.
pub open spec fn block_inside<C>(input: FrameInput<C>, x: int, y: int, n: int) -> bool {
    0 <= x <= input.width - n && 0 <= y <= input.height - n
}

/// A block copied from the previous frame: one byte gives the motion. A
/// source block that does not lie inside the frame leaves the block as it
/// is.
pub open spec fn motion_copy<C>(input: FrameInput<C>, st: FrameState<C>, x0: int, y0: int, n: int)
    -> FrameState<C> {
    if st.failed {
        st
    } else if st.cursor.pos >= input.payload.len() {
        st.fail()
    } else {
        let b = input.payload[st.cursor.pos];
        let sx = x0 + motion_x(b, input.bias_x);
        let sy = y0 + motion_y(b, input.bias_y);
        FrameState {
            frame: if block_inside(input, sx, sy, n) {
                blit(
                    st.frame,
                    input.width,
                    x0,
                    y0,
                    n,
                    from_grid(input.previous, pixel_index(input.width, sx, sy), input.width, false),
                )
            } else {
                st.frame
            },
            cursor: st.cursor.step(),
            failed: false,
        }
    }
}

/// A block of 4×4 pixels made of four 2×2 cells: top left, top right,
/// bottom left, bottom right.
pub open spec fn four_cells<C>(input: FrameInput<C>, st: FrameState<C>, x0: int, y0: int)
    -> FrameState<C> {
    cell_fill(
        input,
        cell_fill(input, cell_fill(input, cell_fill(input, st, x0, y0, 2), x0 + 2, y0, 2), x0, y0 + 2, 2),
        x0 + 2,
        y0 + 2,
        2,
    )
}

/// A block of 4×4 pixels decoded: its mode is taken and carried out.
#[verifier::opaque]
pub open spec fn block4<C>(input: FrameInput<C>, st: FrameState<C>, x0: int, y0: int)
    -> FrameState<C> {
    if st.failed {
        st
    } else if !st.cursor.can_fetch(input.payload) {
        st.fail()
    } else {
        let taken = FrameState {
            frame: st.frame,
            cursor: st.cursor.fetch(input.payload),
            failed: false,
        };
        let mode = taken.cursor.mode();
        if mode == MODE_MOT {
            taken
        } else if mode == MODE_FCC {
            motion_copy(input, taken, x0, y0, 4)
        } else if mode == MODE_SDL {
            cell_fill(input, taken, x0, y0, 4)
        } else {
            four_cells(input, taken, x0, y0)
        }
    }
}

/// A block of 8×8 pixels divided into four blocks of 4×4: top left, top
/// right, bottom left, bottom right.
pub open spec fn four_blocks<C>(input: FrameInput<C>, st: FrameState<C>, x0: int, y0: int)
    -> FrameState<C> {
    block4(
        input,
        block4(input, block4(input, block4(input, st, x0, y0), x0 + 4, y0), x0, y0 + 4),
        x0 + 4,
        y0 + 4,
    )
}

/// A block of 8×8 pixels decoded: its mode is taken and carried out.
#[verifier::opaque]
pub open spec fn block8<C>(input: FrameInput<C>, st: FrameState<C>, x0: int, y0: int)
    -> FrameState<C> {
    if st.failed {
        st
    } else if !st.cursor.can_fetch(input.payload) {
        st.fail()
    } else {
        let taken = FrameState {
            frame: st.frame,
            cursor: st.cursor.fetch(input.payload),
            failed: false,
        };
        let mode = taken.cursor.mode();
        if mode == MODE_MOT {
            taken
        } else if mode == MODE_FCC {
            motion_copy(input, taken, x0, y0, 8)
        } else if mode == MODE_SDL {
            cell_fill(input, taken, x0, y0, 8)
        } else {
            four_blocks(input, taken, x0, y0)
        }
    }
}

/// The macroblock in column `mb_x` and row `mb_y` decoded: its four blocks,
/// top left, top right, bottom left, bottom right.
#[verifier::opaque]
pub open spec fn macroblock<C>(input: FrameInput<C>, st: FrameState<C>, mb_x: int, mb_y: int)
    -> FrameState<C> {
    block8(
        input,
        block8(
            input,
            block8(input, block8(input, st, 16 * mb_x, 16 * mb_y), 16 * mb_x + 8, 16 * mb_y),
            16 * mb_x,
            16 * mb_y + 8,
        ),
        16 * mb_x + 8,
        16 * mb_y + 8,
    )
}

/// The first `count` macroblocks of row `mb_y` decoded.
pub open spec fn row_prefix<C>(input: FrameInput<C>, st: FrameState<C>, mb_y: int, count: nat)
    -> FrameState<C>
    decreases count,
{
    if count == 0 {
        st
    } else {
        macroblock(input, row_prefix(input, st, mb_y, (count - 1) as nat), count - 1, mb_y)
    }
}

/// The first `count` rows of macroblocks decoded.
pub open spec fn rows_prefix<C>(input: FrameInput<C>, st: FrameState<C>, count: nat) -> FrameState<
    C,
>
    decreases count,
{
    if count == 0 {
        st
    } else {
        row_prefix(
            input,
            rows_prefix(input, st, (count - 1) as nat),
            count - 1,
            (input.width / 16) as nat,
        )
    }
}

/// Decoding a video chunk onto `frame`: all whole macroblocks, row by row.
/// Where the payload runs out, decoding stops with what was decoded up to
/// there.
#[verifier::opaque]
pub open spec fn decode<C>(input: FrameInput<C>, frame: Seq<C>) -> FrameState<C> {
    rows_prefix(input, FrameState::start(frame), (input.height / 16) as nat)
}

/// Once the payload has run out, the rest of a row changes nothing.
pub proof fn lemma_row_stays_failed<C>(
    input: FrameInput<C>,
    st: FrameState<C>,
    mb_y: int,
    done: nat,
    count: nat,
)
    requires
        done <= count,
        row_prefix(input, st, mb_y, done).failed,
    ensures
        row_prefix(input, st, mb_y, count) == row_prefix(input, st, mb_y, done),
    decreases count,
{
    if done < count {
        lemma_row_stays_failed(input, st, mb_y, done, (count - 1) as nat);
        reveal(macroblock);
        reveal(block8);
    }
}

/// Once the payload has run out, the rest of the rows change nothing.
pub proof fn lemma_rows_stay_failed<C>(
    input: FrameInput<C>,
    st: FrameState<C>,
    done: nat,
    count: nat,
)
    requires
        done <= count,
        rows_prefix(input, st, done).failed,
    ensures
        rows_prefix(input, st, count) == rows_prefix(input, st, done),
    decreases count,
{
    if done < count {
        lemma_rows_stay_failed(input, st, done, (count - 1) as nat);
        lemma_row_stays_failed(
            input,
            rows_prefix(input, st, (count - 1) as nat),
            count - 1,
            0,
            (input.width / 16) as nat,
        );
    }
}

/// Without bias a motion byte `b` stands for the motion
/// (`8 - (b >> 4)`, `8 - (b & 0xF)`), and `0x88` for no motion at all.
pub proof fn lemma_motion_without_bias(b: u8)
    ensures
        bias_x(0) == 0,
        bias_y(0) == 0,
        motion_x(b, bias_x(0)) == 8 - (b >> 4),
        motion_y(b, bias_y(0)) == 8 - (b & 0xF),
        -7 <= motion_x(b, 0) <= 8,
        -7 <= motion_y(b, 0) <= 8,
        b == 0x88 ==> motion_x(b, 0) == 0 && motion_y(b, 0) == 0,
{
    assert(0u16 >> 8 == 0 && 0u16 & 0xFF == 0) by (bit_vector);
    assert(b >> 4 <= 15 && b & 0xF <= 15) by (bit_vector);
    assert(0x88u8 >> 4 == 8 && 0x88u8 & 0xF == 8) by (bit_vector);
}

/// A block copied without motion shows the block of the previous frame.
pub proof fn lemma_stationary_copy<C>(
    input: FrameInput<C>,
    st: FrameState<C>,
    x0: int,
    y0: int,
    n: int,
    dx: int,
    dy: int,
)
    requires
        input.wf(),
        st.frame.len() == input.width * input.height,
        !st.failed,
        st.cursor.pos < input.payload.len(),
        motion_x(input.payload[st.cursor.pos], input.bias_x) == 0,
        motion_y(input.payload[st.cursor.pos], input.bias_y) == 0,
        block_inside(input, x0, y0, n),
        0 <= dx < n,
        0 <= dy < n,
    ensures
        motion_copy(input, st, x0, y0, n).frame[pixel_index(input.width, x0 + dx, y0 + dy)]
            == input.previous[pixel_index(input.width, x0 + dx, y0 + dy)],
{
    let source = from_grid(input.previous, pixel_index(input.width, x0, y0), input.width, false);
    lemma_blit_inside(
        st.frame,
        input.width,
        input.height,
        x0,
        y0,
        n,
        source,
        dx,
        dy,
    );
    assert(pixel_index(input.width, x0, y0) + input.width * dy + dx == pixel_index(
        input.width,
        x0 + dx,
        y0 + dy,
    )) by (nonlinear_arith);
}

/// A block of 4×4 or 8×8 pixels filled from a 4×4 cell of one color is of
/// that color all over.
pub proof fn lemma_solid_fill<C>(
    input: FrameInput<C>,
    st: FrameState<C>,
    x0: int,
    y0: int,
    n: int,
    color: C,
    dx: int,
    dy: int,
)
    requires
        input.wf(),
        st.frame.len() == input.width * input.height,
        !st.failed,
        st.cursor.pos < input.payload.len(),
        forall|j: int|
            0 <= j < 16 ==> input.codebook.cell4(input.payload[st.cursor.pos] as int, j) == color,
        n == 4 || n == 8,
        block_inside(input, x0, y0, n),
        0 <= dx < n,
        0 <= dy < n,
    ensures
        cell_fill(input, st, x0, y0, n).frame[pixel_index(input.width, x0 + dx, y0 + dy)]
            == color,
{
    let index = input.payload[st.cursor.pos] as int;
    lemma_blit_inside(
        st.frame,
        input.width,
        input.height,
        x0,
        y0,
        n,
        cell_source(input.codebook, index, n),
        dx,
        dy,
    );
    if n == 8 {
        assert(input.codebook.cell4(index, 4 * (dy / 2) + dx / 2) == color);
    } else {
        assert(input.codebook.cell4(index, 4 * dy + dx) == color);
    }
}

/// What stays the same while one video chunk is decoded: the previous
/// frame, the codebook, the frame's dimensions and the bias of the motion
/// vectors.
pub(crate) struct FrameContext<'a, C> {
    pub previous: &'a [C],
    pub codebook: &'a Codebook<C>,
    pub width: usize,
    pub height: usize,
    pub bias_x: i32,
    pub bias_y: i32,
}

impl<'a, C> FrameContext<'a, C> {
    /// The context together with a payload.
    pub(crate) open spec fn input(&self, payload: Seq<u8>) -> FrameInput<C> {
        FrameInput {
            payload,
            previous: self.previous@,
            codebook: self.codebook@,
            width: self.width as int,
            height: self.height as int,
            bias_x: self.bias_x as int,
            bias_y: self.bias_y as int,
        }
    }

    /// The previous frame has the context's dimensions, the codebook is
    /// whole and each bias is a signed byte.
    pub(crate) open spec fn wf(&self) -> bool {
        &&& self.input(Seq::empty()).wf()
        &&& -128 <= self.bias_x <= 127
        &&& -128 <= self.bias_y <= 127
    }
}

/// The cursor that a reader and the two mode variables stand for.
pub open spec fn cursor_of(reader: &ByteReader, count: u16, set: u16) -> ModeCursor {
    ModeCursor { pos: reader.position(), count, set }
}

/// The state that a frame, a reader and the two mode variables stand for.
pub open spec fn state_of<C>(frame: Seq<C>, reader: &ByteReader, count: u16, set: u16)
    -> FrameState<C> {
    FrameState { frame, cursor: cursor_of(reader, count, set), failed: false }
}

/// Takes the next block mode: two bits, the most significant of the 16
/// mode bits first. With no bits left, two bytes are read for the next 16,
/// the low byte first. Fails with `IOError`, changing nothing, when those
/// two bytes are not there.
pub fn get_mode(reader: &mut ByteReader, mode_count: &mut u16, mode_set: &mut u16) -> (r: Result<
    u16,
    RoqError,
>)
    requires
        *old(mode_count) % 2 == 0,
        *old(mode_count) <= 16,
    ensures
        final(reader).bytes() == old(reader).bytes(),
        ({
            let payload = old(reader).bytes();
            let before = cursor_of(old(reader), *old(mode_count), *old(mode_set));
            let after = cursor_of(final(reader), *final(mode_count), *final(mode_set));
            &&& before.wf(payload)
            &&& after.wf(payload)
            &&& before.can_fetch(payload) ==> after == before.fetch(payload) && r == Ok::<
                u16,
                RoqError,
            >(after.mode()) && after.mode() <= 3
            &&& !before.can_fetch(payload) ==> after == before && r == Err::<u16, RoqError>(
                RoqError::IOError,
            )
        }),
{
    let left = reader.remaining();
    if *mode_count == 0 {
        if left < 2 {
            return Err(RoqError::IOError);
        }
        let lo = reader.read_u8()?;
        let hi = reader.read_u8()?;
        *mode_set = ((hi as u16) << 8) | (lo as u16);
        *mode_count = 16;
    }
    *mode_count = *mode_count - 2;
    let set = *mode_set;
    let count = *mode_count;
    assert((set >> count) & 3 <= 3) by (bit_vector);
    Ok((set >> count) & 3)
}

/// Fills the block from the codebook cell that the next byte names.
fn fill_from_cell<C: Copy>(
    frame: &mut Vec<C>,
    ctx: &FrameContext<C>,
    reader: &mut ByteReader,
    Ghost(cursor): Ghost<ModeCursor>,
    x0: usize,
    y0: usize,
    n: usize,
) -> (r: Result<(), RoqError>)
    requires
        ctx.wf(),
        old(frame)@.len() == ctx.width * ctx.height,
        cursor.pos == old(reader).position(),
        n == 8 || n == 4 || n == 2,
        x0 + n <= ctx.width,
        y0 + n <= ctx.height,
    ensures
        final(reader).bytes() == old(reader).bytes(),
        final(frame)@.len() == old(frame)@.len(),
        ({
            let out = cell_fill(
                ctx.input(old(reader).bytes()),
                FrameState { frame: old(frame)@, cursor, failed: false },
                x0 as int,
                y0 as int,
                n as int,
            );
            &&& final(frame)@ == out.frame
            &&& final(reader).position() == out.cursor.pos
            &&& out.cursor.count == cursor.count
            &&& out.cursor.set == cursor.set
            &&& r is Ok <==> !out.failed
            &&& r is Err ==> r->Err_0 is IOError
        }),
{
    let index = reader.read_u8()? as usize;
    if n == 8 {
        write_block(frame, ctx.width, ctx.height, x0, y0, n, ctx.codebook.cells4(), 16 * index, 4, true);
    } else if n == 4 {
        write_block(
            frame,
            ctx.width,
            ctx.height,
            x0,
            y0,
            n,
            ctx.codebook.cells4(),
            16 * index,
            4,
            false,
        );
    } else {
        write_block(frame, ctx.width, ctx.height, x0, y0, n, ctx.codebook.cells2(), 4 * index, 2, false);
    }
    Ok(())
}

/// Copies the block from the previous frame, moved by what the next byte
/// says; leaves it as it is when the source block is not inside the frame.
#[verifier::rlimit(40)]
fn copy_with_motion<C: Copy>(
    frame: &mut Vec<C>,
    ctx: &FrameContext<C>,
    reader: &mut ByteReader,
    Ghost(cursor): Ghost<ModeCursor>,
    x0: usize,
    y0: usize,
    n: usize,
) -> (r: Result<(), RoqError>)
    requires
        ctx.wf(),
        old(frame)@.len() == ctx.width * ctx.height,
        cursor.pos == old(reader).position(),
        n == 8 || n == 4,
        x0 + n <= ctx.width,
        y0 + n <= ctx.height,
    ensures
        final(reader).bytes() == old(reader).bytes(),
        final(frame)@.len() == old(frame)@.len(),
        ({
            let out = motion_copy(
                ctx.input(old(reader).bytes()),
                FrameState { frame: old(frame)@, cursor, failed: false },
                x0 as int,
                y0 as int,
                n as int,
            );
            &&& final(frame)@ == out.frame
            &&& final(reader).position() == out.cursor.pos
            &&& out.cursor.count == cursor.count
            &&& out.cursor.set == cursor.set
            &&& r is Ok <==> !out.failed
            &&& r is Err ==> r->Err_0 is IOError
        }),
{
    let b = reader.read_u8()?;
    assert(b >> 4 <= 15 && b & 0xF <= 15) by (bit_vector);
    let sx: i32 = x0 as i32 + (8 - (b >> 4) as i32 - ctx.bias_x);
    let sy: i32 = y0 as i32 + (8 - (b & 0xF) as i32 - ctx.bias_y);
    if 0 <= sx && sx <= ctx.width as i32 - n as i32 && 0 <= sy && sy <= ctx.height as i32
        - n as i32 {
        proof {
            lemma_pixel_index(ctx.width as int, ctx.height as int, sx as int, sy as int);
            lemma_pixel_index(ctx.width as int, ctx.height as int, sx + n - 1, sy + n - 1);
            assert((sy + n - 1) * ctx.width == sy * ctx.width + ctx.width * (n - 1))
                by (nonlinear_arith);
            assert(ctx.width * ctx.height <= 0xFFFF * 0xFFFF) by (nonlinear_arith)
                requires
                    0 <= ctx.width <= 0xFFFF,
                    0 <= ctx.height <= 0xFFFF,
            ;
        }
        let base = sy as usize * ctx.width + sx as usize;
        write_block(frame, ctx.width, ctx.height, x0, y0, n, ctx.previous, base, ctx.width, false);
    }
    Ok(())
}

/// Decodes one block of 4×4 pixels.
#[verifier::rlimit(40)]
fn decode_block4<C: Copy>(
    frame: &mut Vec<C>,
    ctx: &FrameContext<C>,
    reader: &mut ByteReader,
    mode_count: &mut u16,
    mode_set: &mut u16,
    x0: usize,
    y0: usize,
) -> (r: Result<(), RoqError>)
    requires
        ctx.wf(),
        old(frame)@.len() == ctx.width * ctx.height,
        *old(mode_count) % 2 == 0,
        *old(mode_count) <= 16,
        x0 + 4 <= ctx.width,
        y0 + 4 <= ctx.height,
    ensures
        final(reader).bytes() == old(reader).bytes(),
        final(frame)@.len() == old(frame)@.len(),
        *final(mode_count) % 2 == 0,
        *final(mode_count) <= 16,
        ({
            let out = block4(
                ctx.input(old(reader).bytes()),
                state_of(old(frame)@, old(reader), *old(mode_count), *old(mode_set)),
                x0 as int,
                y0 as int,
            );
            &&& final(frame)@ == out.frame
            &&& r is Ok <==> !out.failed
            &&& r is Ok ==> out == state_of(
                final(frame)@,
                final(reader),
                *final(mode_count),
                *final(mode_set),
            )
            &&& r is Err ==> r->Err_0 is IOError
        }),
{
    proof {
        reveal(block4);
    }
    let mode = get_mode(reader, mode_count, mode_set)?;
    let ghost cursor = cursor_of(reader, *mode_count, *mode_set);
    if mode == MODE_MOT {
    } else if mode == MODE_FCC {
        copy_with_motion(frame, ctx, reader, Ghost(cursor), x0, y0, 4)?;
    } else if mode == MODE_SDL {
        fill_from_cell(frame, ctx, reader, Ghost(cursor), x0, y0, 4)?;
    } else {
        fill_from_cell(frame, ctx, reader, Ghost(cursor), x0, y0, 2)?;
        fill_from_cell(frame, ctx, reader, Ghost(cursor.step()), x0 + 2, y0, 2)?;
        fill_from_cell(frame, ctx, reader, Ghost(cursor.step().step()), x0, y0 + 2, 2)?;
        fill_from_cell(frame, ctx, reader, Ghost(cursor.step().step().step()), x0 + 2, y0 + 2, 2)?;
    }
    Ok(())
}

/// Decodes one block of 8×8 pixels.
#[verifier::rlimit(40)]
fn decode_block8<C: Copy>(
    frame: &mut Vec<C>,
    ctx: &FrameContext<C>,
    reader: &mut ByteReader,
    mode_count: &mut u16,
    mode_set: &mut u16,
    x0: usize,
    y0: usize,
) -> (r: Result<(), RoqError>)
    requires
        ctx.wf(),
        old(frame)@.len() == ctx.width * ctx.height,
        *old(mode_count) % 2 == 0,
        *old(mode_count) <= 16,
        x0 + 8 <= ctx.width,
        y0 + 8 <= ctx.height,
    ensures
        final(reader).bytes() == old(reader).bytes(),
        final(frame)@.len() == old(frame)@.len(),
        *final(mode_count) % 2 == 0,
        *final(mode_count) <= 16,
        ({
            let out = block8(
                ctx.input(old(reader).bytes()),
                state_of(old(frame)@, old(reader), *old(mode_count), *old(mode_set)),
                x0 as int,
                y0 as int,
            );
            &&& final(frame)@ == out.frame
            &&& r is Ok <==> !out.failed
            &&& r is Ok ==> out == state_of(
                final(frame)@,
                final(reader),
                *final(mode_count),
                *final(mode_set),
            )
            &&& r is Err ==> r->Err_0 is IOError
        }),
{
    proof {
        reveal(block8);
        reveal(block4);
    }
    let mode = get_mode(reader, mode_count, mode_set)?;
    let ghost cursor = cursor_of(reader, *mode_count, *mode_set);
    if mode == MODE_MOT {
    } else if mode == MODE_FCC {
        copy_with_motion(frame, ctx, reader, Ghost(cursor), x0, y0, 8)?;
    } else if mode == MODE_SDL {
        fill_from_cell(frame, ctx, reader, Ghost(cursor), x0, y0, 8)?;
    } else {
        decode_block4(frame, ctx, reader, mode_count, mode_set, x0, y0)?;
        decode_block4(frame, ctx, reader, mode_count, mode_set, x0 + 4, y0)?;
        decode_block4(frame, ctx, reader, mode_count, mode_set, x0, y0 + 4)?;
        decode_block4(frame, ctx, reader, mode_count, mode_set, x0 + 4, y0 + 4)?;
    }
    Ok(())
}

/// Decodes the macroblock in column `mb_x` and row `mb_y`.
#[verifier::rlimit(40)]
fn decode_macroblock<C: Copy>(
    frame: &mut Vec<C>,
    ctx: &FrameContext<C>,
    reader: &mut ByteReader,
    mode_count: &mut u16,
    mode_set: &mut u16,
    mb_x: usize,
    mb_y: usize,
) -> (r: Result<(), RoqError>)
    requires
        ctx.wf(),
        old(frame)@.len() == ctx.width * ctx.height,
        *old(mode_count) % 2 == 0,
        *old(mode_count) <= 16,
        16 * mb_x + 16 <= ctx.width,
        16 * mb_y + 16 <= ctx.height,
    ensures
        final(reader).bytes() == old(reader).bytes(),
        final(frame)@.len() == old(frame)@.len(),
        *final(mode_count) % 2 == 0,
        *final(mode_count) <= 16,
        ({
            let out = macroblock(
                ctx.input(old(reader).bytes()),
                state_of(old(frame)@, old(reader), *old(mode_count), *old(mode_set)),
                mb_x as int,
                mb_y as int,
            );
            &&& final(frame)@ == out.frame
            &&& r is Ok <==> !out.failed
            &&& r is Ok ==> out == state_of(
                final(frame)@,
                final(reader),
                *final(mode_count),
                *final(mode_set),
            )
            &&& r is Err ==> r->Err_0 is IOError
        }),
{
    proof {
        reveal(macroblock);
        reveal(block8);
    }
    decode_block8(frame, ctx, reader, mode_count, mode_set, 16 * mb_x, 16 * mb_y)?;
    decode_block8(frame, ctx, reader, mode_count, mode_set, 16 * mb_x + 8, 16 * mb_y)?;
    decode_block8(frame, ctx, reader, mode_count, mode_set, 16 * mb_x, 16 * mb_y + 8)?;
    decode_block8(frame, ctx, reader, mode_count, mode_set, 16 * mb_x + 8, 16 * mb_y + 8)?;
    Ok(())
}

/// Decodes the payload of a video chunk onto `frame`, which holds what the
/// blocks that are skipped keep. Fails with `IOError` exactly when the
/// payload runs out before the last macroblock is done; `frame` then holds
/// what was decoded up to there.
#[verifier::rlimit(40)]
pub(crate) fn decode_frame<C: Copy>(frame: &mut Vec<C>, ctx: &FrameContext<C>, payload: &[u8]) -> (r:
    Result<(), RoqError>)
    requires
        ctx.wf(),
        old(frame)@.len() == ctx.width * ctx.height,
    ensures
        final(frame)@.len() == old(frame)@.len(),
        final(frame)@ == decode(ctx.input(payload@), old(frame)@).frame,
        r is Ok <==> !decode(ctx.input(payload@), old(frame)@).failed,
        r is Err ==> r->Err_0 is IOError,
{
    let ghost input = ctx.input(payload@);
    let ghost start = FrameState::start(frame@);
    proof {
        reveal(decode);
    }
    let mb_width = ctx.width / 16;
    let mb_height = ctx.height / 16;
    let mut reader = ByteReader::new(payload);
    let mut mode_count: u16 = 0;
    let mut mode_set: u16 = 0;
    let mut mb_y: usize = 0;
    while mb_y < mb_height
        invariant
            ctx.wf(),
            input == ctx.input(payload@),
            start == FrameState::start(old(frame)@),
            reader.bytes() == payload@,
            mb_width == ctx.width / 16,
            mb_height == ctx.height / 16,
            mb_y <= mb_height,
            frame@.len() == ctx.width * ctx.height,
            old(frame)@.len() == ctx.width * ctx.height,
            mode_count % 2 == 0,
            mode_count <= 16,
            state_of(frame@, &reader, mode_count, mode_set) == rows_prefix(input, start, mb_y as nat),
        decreases mb_height - mb_y,
    {
        let ghost row_start = state_of(frame@, &reader, mode_count, mode_set);
        let mut mb_x: usize = 0;
        while mb_x < mb_width
            invariant
                ctx.wf(),
                input == ctx.input(payload@),
                start == FrameState::start(old(frame)@),
                reader.bytes() == payload@,
                mb_width == ctx.width / 16,
                mb_height == ctx.height / 16,
                mb_y < mb_height,
                mb_x <= mb_width,
                frame@.len() == ctx.width * ctx.height,
                old(frame)@.len() == ctx.width * ctx.height,
                mode_count % 2 == 0,
                mode_count <= 16,
                row_start == rows_prefix(input, start, mb_y as nat),
                state_of(frame@, &reader, mode_count, mode_set) == row_prefix(
                    input,
                    row_start,
                    mb_y as int,
                    mb_x as nat,
                ),
            decreases mb_width - mb_x,
        {
            let done = decode_macroblock(
                frame,
                ctx,
                &mut reader,
                &mut mode_count,
                &mut mode_set,
                mb_x,
                mb_y,
            );
            if let Err(e) = done {
                proof {
                    reveal(decode);
                    lemma_row_stays_failed(
                        input,
                        row_start,
                        mb_y as int,
                        (mb_x + 1) as nat,
                        mb_width as nat,
                    );
                    lemma_rows_stay_failed(input, start, (mb_y + 1) as nat, mb_height as nat);
                }
                return Err(e);
            }
            mb_x = mb_x + 1;
        }
        mb_y = mb_y + 1;
    }
    Ok(())
}

} // verus!
