//! The player: a RoQ stream held in memory, read chunk by chunk, and the
//! events the chunks give rise to.

use super::bytes::{le_u16, le_u32, ByteReader, RoqError};
use super::colorspace::Colorspace;
use super::decoder::{decode_chunk, initial, ChunkKind, DecoderView, RoqDecoder};
use vstd::prelude::*;
use vstd::slice::slice_subrange;

verus! {

/// The signature a RoQ stream starts with.
pub const ROQ_SIGNATURE: u16 = 0x1084;

/// Bytes of the stream's header and of each chunk's header.
pub const HEADER_BYTES: usize = 8;

/// What the player reports to its caller. The slices are the player's own
/// buffers: they hold what is reported until the player is asked again.
pub enum RoqEvent<'a, C: Copy> {
    /// The dimensions are known and the frame buffers allocated.
    InitVideo,
    /// Sound was decoded: the number of channels and the samples, the
    /// channels of a stereo chunk in turn.
    Audio(i32, &'a [i16]),
    /// A frame was decoded: its pixels, row by row.
    Video(&'a [C]),
    /// The stream has no further chunk.
    EndOfFile,
    /// A chunk with an id the player does not know: its id, argument and
    /// payload.
    Custom(u16, u16, &'a [u8]),
}

/// An event with the contents of its slices.
pub enum EventView<C> {
    InitVideo,
    Audio(i32, Seq<i16>),
    Video(Seq<C>),
    EndOfFile,
    Custom(u16, u16, Seq<u8>),
}

impl<'a, C: Copy> View for RoqEvent<'a, C> {
    type V = EventView<C>;

    open spec fn view(&self) -> EventView<C> {
        match *self {
            RoqEvent::InitVideo => EventView::InitVideo,
            RoqEvent::Audio(channels, samples) => EventView::Audio(channels, samples@),
            RoqEvent::Video(frame) => EventView::Video(frame@),
            RoqEvent::EndOfFile => EventView::EndOfFile,
            RoqEvent::Custom(id, arg, payload) => EventView::Custom(id, arg, payload@),
        }
    }
}

/// What a player holds: the frame rate from the stream's header, the
/// decoder, the stream and how far it has been read.
pub struct PlayerView<C> {
    pub framerate: u16,
    pub decoder: DecoderView<C>,
    pub stream: Seq<u8>,
    pub pos: int,
}

impl<C> PlayerView<C> {
    /// The decoder is well formed and the position lies in the stream.
    pub open spec fn wf(self) -> bool {
        self.decoder.wf() && 0 <= self.pos <= self.stream.len()
    }
}

/// Id of the chunk whose header starts at `pos`.
pub open spec fn chunk_id(stream: Seq<u8>, pos: int) -> u16 {
    le_u16(stream, pos) as u16
}

/// Payload size of the chunk whose header starts at `pos`.
pub open spec fn chunk_size(stream: Seq<u8>, pos: int) -> u32 {
    le_u32(stream, pos + 2) as u32
}

/// Argument of the chunk whose header starts at `pos`.
pub open spec fn chunk_arg(stream: Seq<u8>, pos: int) -> u16 {
    le_u16(stream, pos + 6) as u16
}

/// Payload of the chunk whose header starts at `pos`.
pub open spec fn chunk_payload(stream: Seq<u8>, pos: int) -> Seq<u8> {
    stream.subrange(pos + HEADER_BYTES, pos + HEADER_BYTES + chunk_size(stream, pos))
}

/// The player after its next chunk, and what the chunk was: `None` at the
/// end of the stream, which is where no whole chunk header is left, and an
/// error, with nothing changed, where the stream ends inside the payload that
/// the header announces.
pub struct ChunkStep<C> {
    pub player: PlayerView<C>,
    pub outcome: Result<Option<ChunkKind>, RoqError>,
}

/// Reading and decoding the next chunk.
pub open spec fn next_chunk<C: Copy, S: Colorspace<C>>(p: PlayerView<C>) -> ChunkStep<C> {
    if p.stream.len() - p.pos < HEADER_BYTES {
        ChunkStep { player: p, outcome: Ok(None) }
    } else if p.stream.len() - p.pos - HEADER_BYTES < chunk_size(p.stream, p.pos) {
        ChunkStep { player: p, outcome: Err(RoqError::IOError) }
    } else {
        let done = decode_chunk::<C, S>(
            p.decoder,
            chunk_id(p.stream, p.pos),
            chunk_size(p.stream, p.pos),
            chunk_arg(p.stream, p.pos),
            chunk_payload(p.stream, p.pos),
        );
        ChunkStep {
            player: PlayerView {
                framerate: p.framerate,
                decoder: done.decoder,
                stream: p.stream,
                pos: p.pos + HEADER_BYTES + chunk_size(p.stream, p.pos),
            },
            outcome: match done.outcome {
                Ok(kind) => Ok(Some(kind)),
                Err(e) => Err(e),
            },
        }
    }
}

/// The event for a chunk of the given kind whose header starts at `pos`,
/// with the decoder as the chunk left it.
pub open spec fn event_of<C>(
    decoder: DecoderView<C>,
    kind: ChunkKind,
    stream: Seq<u8>,
    pos: int,
) -> EventView<C> {
    match kind {
        ChunkKind::InitVideo => EventView::InitVideo,
        ChunkKind::Audio(channels) => EventView::Audio(channels, decoder.audio),
        ChunkKind::Video => EventView::Video(decoder.current_frame()),
        ChunkKind::Custom => EventView::Custom(
            chunk_id(stream, pos),
            chunk_arg(stream, pos),
            chunk_payload(stream, pos),
        ),
        ChunkKind::Codebook => EventView::EndOfFile,
    }
}

/// The player after its next event, and the event or the error.
pub struct Stepped<C> {
    pub player: PlayerView<C>,
    pub event: Result<EventView<C>, RoqError>,
}

/// Reading on to the next event: codebook chunks are decoded and passed
/// over, any other chunk is decoded and reported, and so are the end of the
/// stream and the first error.
pub open spec fn next_event<C: Copy, S: Colorspace<C>>(p: PlayerView<C>) -> Stepped<C>
    decreases p.stream.len() - p.pos,
{
    let step = next_chunk::<C, S>(p);
    match step.outcome {
        Err(e) => Stepped { player: step.player, event: Err(e) },
        Ok(None) => Stepped { player: step.player, event: Ok(EventView::EndOfFile) },
        Ok(Some(kind)) => if kind is Codebook {
            next_event::<C, S>(step.player)
        } else {
            Stepped {
                player: step.player,
                event: Ok(event_of(step.player.decoder, kind, p.stream, p.pos)),
            }
        },
    }
}

/// The player of a stream that starts with the signature: the frame rate is
/// the last field of the stream's header, the decoder has seen no chunk, and
/// the first chunk follows the header.
pub open spec fn opened<C: Copy, S: Colorspace<C>>(stream: Seq<u8>) -> PlayerView<C> {
    PlayerView {
        framerate: le_u16(stream, 6) as u16,
        decoder: initial::<C, S>(),
        stream,
        pos: HEADER_BYTES as int,
    }
}

/// A player for one RoQ stream.
pub struct RoqPlayer<C: Copy, S: Colorspace<C>> {
    framerate: u16,
    decoder: RoqDecoder<C, S>,
    roqstream: Vec<u8>,
    pos: usize,
}

impl<C: Copy, S: Colorspace<C>> View for RoqPlayer<C, S> {
    type V = PlayerView<C>;

    closed spec fn view(&self) -> PlayerView<C> {
        PlayerView {
            framerate: self.framerate,
            decoder: self.decoder@,
            stream: self.roqstream@,
            pos: self.pos as int,
        }
    }
}

/// What `advance` found: the kind of the chunk, or `None` at the end of the
/// stream, and where the chunk's header starts.
struct Advance {
    kind: Option<ChunkKind>,
    at: usize,
}

impl<C: Copy, S: Colorspace<C>> RoqPlayer<C, S> {
    /// Opens a stream. Fails with `IOError` when the stream is shorter than
    /// its header, and with `ParseError` when it does not start with the
    /// signature.
    pub fn new(stream: Vec<u8>) -> (r: Result<Self, RoqError>)
        ensures
            match r {
                Ok(player) => {
                    &&& stream@.len() >= HEADER_BYTES
                    &&& le_u16(stream@, 0) == ROQ_SIGNATURE
                    &&& player@ == opened::<C, S>(stream@)
                    &&& player@.wf()
                },
                Err(RoqError::IOError) => stream@.len() < HEADER_BYTES,
                Err(RoqError::ParseError) => {
                    &&& stream@.len() >= HEADER_BYTES
                    &&& le_u16(stream@, 0) != ROQ_SIGNATURE
                },
            },
    {
        let mut header = ByteReader::new(stream.as_slice());
        let signature = header.read_u16()?;
        let _size = header.read_u32()?;
        let framerate = header.read_u16()?;
        if signature != ROQ_SIGNATURE {
            return Err(RoqError::ParseError);
        }
        Ok(RoqPlayer { framerate, decoder: RoqDecoder::new(), roqstream: stream, pos: HEADER_BYTES })
    }

    /// Frames per second, from the stream's header.
    pub fn framerate(&self) -> (framerate: u16)
        ensures
            framerate == self@.framerate,
    {
        self.framerate
    }

    /// Width of the frame in pixels; zero before the info chunk.
    pub fn width(&self) -> (width: u16)
        ensures
            width == self@.decoder.width,
    {
        self.decoder.width()
    }

    /// Height of the frame in pixels; zero before the info chunk.
    pub fn height(&self) -> (height: u16)
        ensures
            height == self@.decoder.height,
    {
        self.decoder.height()
    }

    /// Retrieve the current framebuffer for display.
    pub fn get_framebuffer_data(&self) -> (frame: &[C])
        ensures
            frame@ == self@.decoder.current_frame(),
    {
        self.decoder.get_framebuffer_data()
    }

    /// Reads and decodes the next chunk.
    fn advance(&mut self) -> (r: Result<Advance, RoqError>)
        requires
            old(self)@.wf(),
        ensures
            final(self)@.wf(),
            final(self)@ == next_chunk::<C, S>(old(self)@).player,
            match r {
                Ok(found) => next_chunk::<C, S>(old(self)@).outcome == Ok::<
                    Option<ChunkKind>,
                    RoqError,
                >(found.kind) && found.at == old(self)@.pos,
                Err(e) => next_chunk::<C, S>(old(self)@).outcome == Err::<
                    Option<ChunkKind>,
                    RoqError,
                >(e),
            },
    {
        let at = self.pos;
        if self.roqstream.len() - at < HEADER_BYTES {
            return Ok(Advance { kind: None, at });
        }
        let mut reader = ByteReader::starting_at(self.roqstream.as_slice(), at);
        let id = reader.read_u16()?;
        let size = reader.read_u32()?;
        let arg = reader.read_u16()?;
        let payload = reader.read_bytes(size as usize)?;
        self.pos = at + HEADER_BYTES + size as usize;
        let kind = self.decoder.decode_chunk(id, size, arg, payload)?;
        Ok(Advance { kind: Some(kind), at })
    }

    /// Read the next data chunk from the RoQ stream: decodes chunks up to
    /// and including the first that is not a codebook chunk and reports it.
    pub fn read_next(&mut self) -> (r: Result<RoqEvent<'_, C>, RoqError>)
        requires
            old(self)@.wf(),
        ensures
            final(self)@.wf(),
            final(self)@ == next_event::<C, S>(old(self)@).player,
            match r {
                Ok(event) => next_event::<C, S>(old(self)@).event == Ok::<EventView<C>, RoqError>(
                    event@,
                ),
                Err(e) => next_event::<C, S>(old(self)@).event == Err::<EventView<C>, RoqError>(e),
            },
    {
        loop
            invariant
                self@.wf(),
                next_event::<C, S>(self@) == next_event::<C, S>(old(self)@),
            decreases self@.stream.len() - self@.pos,
        {
            let ghost before = self@;
            let found = self.advance()?;
            match found.kind {
                None => {
                    return Ok(RoqEvent::EndOfFile);
                },
                Some(ChunkKind::Codebook) => {},
                Some(ChunkKind::InitVideo) => {
                    return Ok(RoqEvent::InitVideo);
                },
                Some(ChunkKind::Audio(channels)) => {
                    return Ok(RoqEvent::Audio(channels, self.decoder.get_audio_data()));
                },
                Some(ChunkKind::Video) => {
                    return Ok(RoqEvent::Video(self.decoder.get_framebuffer_data()));
                },
                Some(ChunkKind::Custom) => {
                    let mut header = ByteReader::starting_at(self.roqstream.as_slice(), found.at);
                    let id = header.read_u16()?;
                    let size = header.read_u32()?;
                    let arg = header.read_u16()?;
                    let payload = header.read_bytes(size as usize)?;
                    return Ok(RoqEvent::Custom(id, arg, payload));
                },
            }
        }
    }
}

} // verus!
