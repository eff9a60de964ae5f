//! The state a stream is decoded with, and what each kind of chunk does to
//! it.

use super::bytes::{le_u16, ByteReader, RoqError};
use super::codebook::{unpack, Codebook, CodebookView};
use super::colorspace::Colorspace;
use super::dpcm::{decode_mono, decode_stereo, mono_samples, stereo_samples};
use super::blocks::pixel_index;
use super::frame::{
    bias_x, bias_y, decode, decode_frame, signed_byte, FrameContext, FrameInput, MODE_MOT,
};
use super::regions::{
    before_block, before_macroblock, block_x, block_y, has_mode, in_block,
    lemma_skipped_block_keeps_canvas,
};
use std::marker::PhantomData;
use vstd::prelude::*;

verus! {

/// Id of the chunk that gives the frame's dimensions.
pub const CHUNK_INFO: u16 = 0x1001;

/// Id of the chunk that updates the codebook.
pub const CHUNK_CODEBOOK: u16 = 0x1002;

/// Id of the chunk that holds a frame.
pub const CHUNK_VIDEO: u16 = 0x1011;

/// Id of the chunk that holds mono sound.
pub const CHUNK_SOUND_MONO: u16 = 0x1020;

/// Id of the chunk that holds stereo sound.
pub const CHUNK_SOUND_STEREO: u16 = 0x1021;

/// What a chunk was, once it is decoded.
#[derive(Clone, Copy, Debug, PartialEq, Eq)]
pub enum ChunkKind {
    /// The dimensions are known and the frame buffers allocated.
    InitVideo,
    /// The codebook was updated.
    Codebook,
    /// A frame was decoded; it is the current frame.
    Video,
    /// Sound of that many channels was decoded; it is the current sound.
    Audio(i32),
    /// The chunk's id is not one the decoder knows; nothing was changed.
    Custom,
}

/// What a decoder holds.
pub struct DecoderView<C> {
    pub width: u16,
    pub height: u16,
    pub alpha: bool,
    pub codebook: CodebookView<C>,
    pub framebuf0: Seq<C>,
    pub framebuf1: Seq<C>,
    pub audio: Seq<i16>,
    pub cur_frame: usize,
    pub next_frame: usize,
}

impl<C> DecoderView<C> {
    /// The codebook is whole and both frame buffers have one pixel for each
    /// pixel of the frame.
    pub open spec fn wf(self) -> bool {
        &&& self.codebook.wf()
        &&& self.framebuf0.len() == self.width * self.height
        &&& self.framebuf1.len() == self.width * self.height
    }

    /// The frame buffer that frame number `frame` is decoded into: the
    /// first for even numbers, the second for odd ones.
    pub open spec fn buffer_of(self, frame: usize) -> Seq<C> {
        if frame % 2 == 0 {
            self.framebuf0
        } else {
            self.framebuf1
        }
    }

    /// The frame decoded last.
    pub open spec fn current_frame(self) -> Seq<C> {
        self.buffer_of(self.cur_frame)
    }

    /// The frame buffer that the next frame is decoded into as it stands
    /// before the blocks are decoded: for frame number 1 a copy of the other
    /// buffer, which holds frame number 0, else the buffer as it is.
    pub open spec fn canvas(self) -> Seq<C> {
        if self.next_frame == 1 {
            self.framebuf0
        } else {
            self.buffer_of(self.next_frame)
        }
    }

    /// The frame buffer that the next frame is not decoded into: it holds
    /// the frame before.
    pub open spec fn reference(self) -> Seq<C> {
        self.buffer_of(next_counter(self.next_frame))
    }

    /// What the decoding of the next frame takes from the decoder and from
    /// a video chunk's payload and argument.
    pub open spec fn frame_input(self, payload: Seq<u8>, arg: u16) -> FrameInput<C> {
        FrameInput {
            payload,
            previous: self.reference(),
            codebook: self.codebook,
            width: self.width as int,
            height: self.height as int,
            bias_x: bias_x(arg),
            bias_y: bias_y(arg),
        }
    }
}

/// The frame number after `n`. The numbers count up; at the largest
/// `usize` they go on with the one before, so that even and odd numbers
/// take turns for ever.
pub open spec fn next_counter(n: usize) -> usize {
    if n == usize::MAX {
        (n - 1) as usize
    } else {
        (n + 1) as usize
    }
}

/// The decoder after a chunk, and what the chunk was or why it could not be
/// decoded.
pub struct Decoded<C> {
    pub decoder: DecoderView<C>,
    pub outcome: Result<ChunkKind, RoqError>,
}

/// The decoder before the first chunk: no dimensions, a codebook of
/// default pixels, no frame and no sound.
pub open spec fn initial<C: Copy, S: Colorspace<C>>() -> DecoderView<C> {
    DecoderView {
        width: 0,
        height: 0,
        alpha: false,
        codebook: CodebookView::filled(S::spec_default()),
        framebuf0: Seq::empty(),
        framebuf1: Seq::empty(),
        audio: Seq::empty(),
        cur_frame: 0,
        next_frame: 0,
    }
}

/// An info chunk: width and height, two little-endian `u16`, set the
/// dimensions; an argument that is not zero says that the stream has alpha;
/// both frame buffers become default pixels. A payload under four bytes is
/// an error and changes nothing.
pub open spec fn init_video<C: Copy, S: Colorspace<C>>(
    d: DecoderView<C>,
    payload: Seq<u8>,
    arg: u16,
) -> Decoded<C> {
    if payload.len() < 4 {
        Decoded { decoder: d, outcome: Err(RoqError::IOError) }
    } else {
        let width = le_u16(payload, 0) as u16;
        let height = le_u16(payload, 2) as u16;
        Decoded {
            decoder: DecoderView {
                width,
                height,
                alpha: arg != 0,
                framebuf0: Seq::new((width * height) as nat, |i: int| S::spec_default()),
                framebuf1: Seq::new((width * height) as nat, |i: int| S::spec_default()),
                ..d
            },
            outcome: Ok(ChunkKind::InitVideo),
        }
    }
}

/// A codebook chunk: the codebook is updated as far as the payload goes; a
/// payload that ends before the cells it announces is an error.
pub open spec fn unpack_codebook<C: Copy, S: Colorspace<C>>(
    d: DecoderView<C>,
    payload: Seq<u8>,
    size: u32,
    arg: u16,
) -> Decoded<C> {
    let unpacked = unpack::<C, S>(d.codebook, payload, size, arg, d.alpha);
    Decoded {
        decoder: DecoderView { codebook: unpacked.codebook, ..d },
        outcome: if unpacked.complete {
            Ok(ChunkKind::Codebook)
        } else {
            Err(RoqError::IOError)
        },
    }
}

/// A video chunk: the next frame number becomes the current one, and the
/// frame is decoded into that number's buffer, starting from the canvas and
/// with the other buffer as the previous frame. A payload that ends before
/// the last macroblock is an error; the buffer then holds what was decoded
/// up to there.
pub open spec fn unpack_vq<C>(d: DecoderView<C>, payload: Seq<u8>, arg: u16) -> Decoded<C> {
    let out = decode(d.frame_input(payload, arg), d.canvas());
    Decoded {
        decoder: DecoderView {
            cur_frame: d.next_frame,
            next_frame: next_counter(d.next_frame),
            framebuf0: if d.next_frame % 2 == 0 {
                out.frame
            } else {
                d.framebuf0
            },
            framebuf1: if d.next_frame % 2 == 0 {
                d.framebuf1
            } else {
                out.frame
            },
            ..d
        },
        outcome: if out.failed {
            Err(RoqError::IOError)
        } else {
            Ok(ChunkKind::Video)
        },
    }
}

/// A chunk decoded: what each id does, and that any other id changes
/// nothing.
pub open spec fn decode_chunk<C: Copy, S: Colorspace<C>>(
    d: DecoderView<C>,
    id: u16,
    size: u32,
    arg: u16,
    payload: Seq<u8>,
) -> Decoded<C> {
    if id == CHUNK_INFO {
        init_video::<C, S>(d, payload, arg)
    } else if id == CHUNK_CODEBOOK {
        unpack_codebook::<C, S>(d, payload, size, arg)
    } else if id == CHUNK_VIDEO {
        unpack_vq(d, payload, arg)
    } else if id == CHUNK_SOUND_MONO {
        Decoded {
            decoder: DecoderView { audio: mono_samples(payload, arg), ..d },
            outcome: Ok(ChunkKind::Audio(1)),
        }
    } else if id == CHUNK_SOUND_STEREO {
        Decoded {
            decoder: DecoderView { audio: stereo_samples(payload, arg), ..d },
            outcome: Ok(ChunkKind::Audio(2)),
        }
    } else {
        Decoded { decoder: d, outcome: Ok(ChunkKind::Custom) }
    }
}

/// The second frame of a stream is decoded onto a copy of the first, with
/// the first as its previous frame, and leaves the buffer of the first as it
/// is.
pub proof fn lemma_second_frame_starts_from_first<C>(
    d: DecoderView<C>,
    first: Seq<u8>,
    first_arg: u16,
    second: Seq<u8>,
    second_arg: u16,
)
    requires
        d.next_frame == 0,
    ensures
        ({
            let d1 = unpack_vq(d, first, first_arg).decoder;
            let d2 = unpack_vq(d1, second, second_arg).decoder;
            &&& d1.cur_frame == 0
            &&& d1.next_frame == 1
            &&& d1.canvas() == d1.current_frame()
            &&& d1.reference() == d1.current_frame()
            &&& d2.cur_frame == 1
            &&& d2.current_frame() == decode(
                d1.frame_input(second, second_arg),
                d1.current_frame(),
            ).frame
            &&& d2.buffer_of(0) == d1.current_frame()
        }),
{
}

/// Where the frame buffer that a frame is decoded onto agrees with the
/// previous frame, a block that is skipped shows the previous frame. The
/// two agree everywhere for the second frame of a stream.
pub proof fn lemma_skipped_block_shows_previous_frame<C>(
    d: DecoderView<C>,
    payload: Seq<u8>,
    arg: u16,
    mb_x: nat,
    mb_y: nat,
    q: nat,
    x: int,
    y: int,
)
    requires
        d.wf(),
        mb_x < d.width / 16,
        mb_y < d.height / 16,
        q < 4,
        in_block(x, y, block_x(mb_x as int, q as int), block_y(mb_y as int, q as int), 8),
        has_mode(
            d.frame_input(payload, arg),
            before_block(
                d.frame_input(payload, arg),
                before_macroblock(d.frame_input(payload, arg), d.canvas(), mb_x, mb_y),
                mb_x as int,
                mb_y as int,
                q,
            ),
            MODE_MOT,
        ),
        d.next_frame == 1 || d.canvas()[pixel_index(d.width as int, x, y)] == d.reference()[pixel_index(
            d.width as int,
            x,
            y,
        )],
    ensures
        unpack_vq(d, payload, arg).decoder.current_frame()[pixel_index(d.width as int, x, y)]
            == d.reference()[pixel_index(d.width as int, x, y)],
{
    lemma_skipped_block_keeps_canvas(d.frame_input(payload, arg), d.canvas(), mb_x, mb_y, q, x, y);
}

/// The decoder of one stream: dimensions, codebook, the two frame buffers
/// that take turns, and the sound decoded last.
pub struct RoqDecoder<C: Copy, S: Colorspace<C>> {
    width: u16,
    height: u16,
    alpha: bool,
    codebook: Codebook<C>,
    framebuf0: Vec<C>,
    framebuf1: Vec<C>,
    audiobuf: Vec<i16>,
    cur_frame: usize,
    next_frame: usize,
    phantom: PhantomData<S>,
}

impl<C: Copy, S: Colorspace<C>> View for RoqDecoder<C, S> {
    type V = DecoderView<C>;

    closed spec fn view(&self) -> DecoderView<C> {
        DecoderView {
            width: self.width,
            height: self.height,
            alpha: self.alpha,
            codebook: self.codebook@,
            framebuf0: self.framebuf0@,
            framebuf1: self.framebuf1@,
            audio: self.audiobuf@,
            cur_frame: self.cur_frame,
            next_frame: self.next_frame,
        }
    }
}

/// A buffer of `n` pixels, all `fill`.
fn filled<C: Copy>(fill: C, n: usize) -> (pixels: Vec<C>)
    ensures
        pixels@ == Seq::new(n as nat, |i: int| fill),
{
    let mut pixels: Vec<C> = Vec::new();
    let mut i: usize = 0;
    while i < n
        invariant
            i <= n,
            pixels@.len() == i,
            forall|k: int| 0 <= k < i ==> pixels@[k] == fill,
        decreases n - i,
    {
        pixels.push(fill);
        i = i + 1;
    }
    assert(pixels@ =~= Seq::new(n as nat, |i: int| fill));
    pixels
}

/// Copies every pixel of `from` to `to`.
fn copy_pixels<C: Copy>(from: &Vec<C>, to: &mut Vec<C>)
    requires
        from@.len() == old(to)@.len(),
    ensures
        final(to)@ == from@,
{
    let mut i: usize = 0;
    while i < to.len()
        invariant
            from@.len() == to@.len(),
            i <= to@.len(),
            forall|k: int| 0 <= k < i ==> to@[k] == from@[k],
        decreases to@.len() - i,
    {
        to[i] = from[i];
        i = i + 1;
    }
    assert(to@ =~= from@);
}

/// A byte of a video chunk's argument as a signed number.
fn signed(byte: u16) -> (v: i32)
    requires
        byte <= 255,
    ensures
        v == signed_byte(byte as int),
{
    if byte >= 128 {
        byte as i32 - 256
    } else {
        byte as i32
    }
}

impl<C: Copy, S: Colorspace<C>> RoqDecoder<C, S> {
    /// A decoder that has seen no chunk.
    pub fn new() -> (decoder: Self)
        ensures
            decoder@.wf(),
            decoder@ == initial::<C, S>(),
    {
        RoqDecoder {
            width: 0,
            height: 0,
            alpha: false,
            codebook: Codebook::new(S::default()),
            framebuf0: Vec::new(),
            framebuf1: Vec::new(),
            audiobuf: Vec::new(),
            cur_frame: 0,
            next_frame: 0,
            phantom: PhantomData,
        }
    }

    /// Width of the frame in pixels; zero before the info chunk.
    pub fn width(&self) -> (width: u16)
        ensures
            width == self@.width,
    {
        self.width
    }

    /// Height of the frame in pixels; zero before the info chunk.
    pub fn height(&self) -> (height: u16)
        ensures
            height == self@.height,
    {
        self.height
    }

    /// Retrieve the current framebuffer for display.
    pub fn get_framebuffer_data(&self) -> (frame: &[C])
        ensures
            frame@ == self@.current_frame(),
    {
        if self.cur_frame % 2 == 0 {
            self.framebuf0.as_slice()
        } else {
            self.framebuf1.as_slice()
        }
    }

    /// The sound decoded last.
    pub fn get_audio_data(&self) -> (samples: &[i16])
        ensures
            samples@ == self@.audio,
    {
        self.audiobuf.as_slice()
    }

    /// Decodes an info chunk.
    pub fn init_video(&mut self, payload: &[u8], chunk_arg: u16) -> (r: Result<(), RoqError>)
        requires
            old(self)@.wf(),
        ensures
            final(self)@.wf(),
            final(self)@ == init_video::<C, S>(old(self)@, payload@, chunk_arg).decoder,
            r is Ok <==> init_video::<C, S>(old(self)@, payload@, chunk_arg).outcome is Ok,
            r is Err ==> r->Err_0 is IOError,
    {
        let mut reader = ByteReader::new(payload);
        let width = reader.read_u16()?;
        let height = reader.read_u16()?;
        assert(width * height <= 0xFFFF * 0xFFFF) by (nonlinear_arith)
            requires
                0 <= width <= 0xFFFF,
                0 <= height <= 0xFFFF,
        ;
        let size: usize = width as usize * height as usize;
        let fill = S::default();
        self.width = width;
        self.height = height;
        self.alpha = chunk_arg != 0;
        self.framebuf0 = filled(fill, size);
        self.framebuf1 = filled(fill, size);
        Ok(())
    }

    /// Decodes a codebook chunk.
    pub fn unpack_codebook(&mut self, payload: &[u8], chunk_size: u32, chunk_arg: u16) -> (r:
        Result<(), RoqError>)
        requires
            old(self)@.wf(),
        ensures
            final(self)@.wf(),
            final(self)@ == unpack_codebook::<C, S>(
                old(self)@,
                payload@,
                chunk_size,
                chunk_arg,
            ).decoder,
            r is Ok <==> unpack_codebook::<C, S>(
                old(self)@,
                payload@,
                chunk_size,
                chunk_arg,
            ).outcome is Ok,
            r is Err ==> r->Err_0 is IOError,
    {
        self.codebook.unpack::<S>(payload, chunk_size, chunk_arg, self.alpha)
    }

    /// Unpacks the payload of a video chunk into the next frame for
    /// display.
    #[verifier::rlimit(40)]
    pub fn unpack_vq(&mut self, payload: &[u8], chunk_arg: u16) -> (r: Result<(), RoqError>)
        requires
            old(self)@.wf(),
        ensures
            final(self)@.wf(),
            final(self)@ == unpack_vq(old(self)@, payload@, chunk_arg).decoder,
            r is Ok <==> unpack_vq(old(self)@, payload@, chunk_arg).outcome is Ok,
            r is Err ==> r->Err_0 is IOError,
    {
        let ghost input = old(self)@.frame_input(payload@, chunk_arg);
        let ghost canvas = old(self)@.canvas();
        self.cur_frame = self.next_frame;
        self.next_frame = if self.next_frame == usize::MAX {
            self.next_frame - 1
        } else {
            self.next_frame + 1
        };
        assert(chunk_arg >> 8 <= 255 && chunk_arg & 0xFF <= 255) by (bit_vector);
        let bias_x = signed(chunk_arg >> 8);
        let bias_y = signed(chunk_arg & 0xFF);
        let width = self.width as usize;
        let height = self.height as usize;
        if self.cur_frame % 2 == 0 {
            let ctx = FrameContext {
                previous: self.framebuf1.as_slice(),
                codebook: &self.codebook,
                width,
                height,
                bias_x,
                bias_y,
            };
            assert(ctx.input(payload@) == input);
            assert(self.framebuf0@ == canvas);
            decode_frame(&mut self.framebuf0, &ctx, payload)
        } else {
            if self.cur_frame == 1 {
                copy_pixels(&self.framebuf0, &mut self.framebuf1);
            }
            let ctx = FrameContext {
                previous: self.framebuf0.as_slice(),
                codebook: &self.codebook,
                width,
                height,
                bias_x,
                bias_y,
            };
            assert(ctx.input(payload@) == input);
            assert(self.framebuf1@ == canvas);
            decode_frame(&mut self.framebuf1, &ctx, payload)
        }
    }

    /// Decodes one chunk, given its id, the size and the argument from its
    /// header and its payload, and says what the chunk was. Fails with
    /// `IOError` exactly when the payload ends before what the chunk
    /// announces.
    pub fn decode_chunk(
        &mut self,
        chunk_id: u16,
        chunk_size: u32,
        chunk_arg: u16,
        payload: &[u8],
    ) -> (r: Result<ChunkKind, RoqError>)
        requires
            old(self)@.wf(),
        ensures
            final(self)@.wf(),
            final(self)@ == decode_chunk::<C, S>(
                old(self)@,
                chunk_id,
                chunk_size,
                chunk_arg,
                payload@,
            ).decoder,
            r == decode_chunk::<C, S>(old(self)@, chunk_id, chunk_size, chunk_arg, payload@).outcome,
    {
        if chunk_id == CHUNK_INFO {
            self.init_video(payload, chunk_arg)?;
            Ok(ChunkKind::InitVideo)
        } else if chunk_id == CHUNK_CODEBOOK {
            self.unpack_codebook(payload, chunk_size, chunk_arg)?;
            Ok(ChunkKind::Codebook)
        } else if chunk_id == CHUNK_VIDEO {
            self.unpack_vq(payload, chunk_arg)?;
            Ok(ChunkKind::Video)
        } else if chunk_id == CHUNK_SOUND_MONO {
            decode_mono(payload, chunk_arg, &mut self.audiobuf);
            Ok(ChunkKind::Audio(1))
        } else if chunk_id == CHUNK_SOUND_STEREO {
            decode_stereo(payload, chunk_arg, &mut self.audiobuf);
            Ok(ChunkKind::Audio(2))
        } else {
            Ok(ChunkKind::Custom)
        }
    }
}

} // verus!
