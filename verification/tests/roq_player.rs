use dbsdk_rs::roq_player::bytes::{ByteReader, RoqError};
use dbsdk_rs::roq_player::codebook::Codebook;
use dbsdk_rs::roq_player::colorspace::{Colorspace, ColorspaceBgr565, ColorspaceRgba8888};
use dbsdk_rs::roq_player::decoder::{ChunkKind, RoqDecoder};
use dbsdk_rs::roq_player::dpcm::{decode_mono, decode_stereo, square_lut};
use dbsdk_rs::roq_player::frame::get_mode;
use dbsdk_rs::roq_player::player::{RoqEvent, RoqPlayer};

/// A format whose pixel shows the sample it was made from.
struct Plain;

impl Colorspace<u32> for Plain {
    fn default() -> u32 {
        0xDEAD_BEEF
    }

    fn convert(y: i32, cb: i32, cr: i32, a: u8) -> u32 {
        ((y as u32) << 24) | ((cb as u32) << 16) | ((cr as u32) << 8) | a as u32
    }
}

/// The 32-bit format: the channel intensities in floating point, packed by
/// the library.
struct Rgba;

impl Colorspace<u32> for Rgba {
    fn default() -> u32 {
        ColorspaceRgba8888::default()
    }

    fn convert(y: i32, cb: i32, cr: i32, a: u8) -> u32 {
        let yp = ((y - 16) as f32) * 1.164;
        let r = (yp + 1.596 * ((cr - 128) as f32)).max(0.0).min(255.0);
        let g = (yp - 0.813 * ((cr - 128) as f32) - 0.391 * ((cb - 128) as f32)).max(0.0).min(255.0);
        let b = (yp + 2.018 * ((cb - 128) as f32)).max(0.0).min(255.0);
        ColorspaceRgba8888::pack(r as u32, g as u32, b as u32, a)
    }
}

/// The 16-bit format: the channel intensities in floating point, packed by
/// the library.
struct Bgr;

impl Colorspace<u16> for Bgr {
    fn default() -> u16 {
        ColorspaceBgr565::default()
    }

    fn convert(y: i32, cb: i32, cr: i32, _a: u8) -> u16 {
        let yp = ((y - 16) as f32) * 1.164;
        let r = ((yp + 1.596 * ((cr - 128) as f32)) / 8.0).max(0.0).min(31.0);
        let g = ((yp - 0.813 * ((cr - 128) as f32) - 0.391 * ((cb - 128) as f32)) / 4.0)
            .max(0.0)
            .min(63.0);
        let b = ((yp + 2.018 * ((cb - 128) as f32)) / 8.0).max(0.0).min(31.0);
        ColorspaceBgr565::pack(r as u16, g as u16, b as u16)
    }
}

fn plain(y: u8, cb: u8, cr: u8, a: u8) -> u32 {
    ((y as u32) << 24) | ((cb as u32) << 16) | ((cr as u32) << 8) | a as u32
}

fn stream_header(framerate: u16) -> Vec<u8> {
    let mut out = vec![0x84, 0x10, 0xFF, 0xFF, 0xFF, 0xFF];
    out.extend_from_slice(&framerate.to_le_bytes());
    out
}

fn chunk(id: u16, arg: u16, payload: &[u8]) -> Vec<u8> {
    let mut out = Vec::new();
    out.extend_from_slice(&id.to_le_bytes());
    out.extend_from_slice(&(payload.len() as u32).to_le_bytes());
    out.extend_from_slice(&arg.to_le_bytes());
    out.extend_from_slice(payload);
    out
}

fn info(width: u16, height: u16, arg: u16) -> Vec<u8> {
    let mut payload = Vec::new();
    payload.extend_from_slice(&width.to_le_bytes());
    payload.extend_from_slice(&height.to_le_bytes());
    payload.extend_from_slice(&[8, 0, 4, 0]);
    chunk(0x1001, arg, &payload)
}

/// A codebook chunk of solid cells: 2×2 cell `i` has luma `lumas[i]`, and
/// 4×4 cell `i` is made of four times 2×2 cell `i`.
fn solid_codebook(lumas: &[u8]) -> Vec<u8> {
    let n = lumas.len() as u16;
    let mut payload = Vec::new();
    for &y in lumas {
        payload.extend_from_slice(&[y, y, y, y, 100, 200]);
    }
    for i in 0..lumas.len() {
        payload.extend_from_slice(&[i as u8; 4]);
    }
    chunk(0x1002, (n << 8) | n, &payload)
}

/// Packs block modes, eight to a word, the first in the highest bits.
fn mode_word(modes: [u8; 8]) -> [u8; 2] {
    let mut word: u16 = 0;
    for m in modes {
        word = (word << 2) | m as u16;
    }
    word.to_le_bytes()
}

fn decoder_16x16(lumas: &[u8]) -> RoqDecoder<u32, Plain> {
    let mut decoder = RoqDecoder::<u32, Plain>::new();
    let mut dims = Vec::new();
    dims.extend_from_slice(&16u16.to_le_bytes());
    dims.extend_from_slice(&16u16.to_le_bytes());
    assert_eq!(decoder.decode_chunk(0x1001, 4, 0, &dims).ok(), Some(ChunkKind::InitVideo));
    let book = solid_codebook(lumas);
    let arg = u16::from_le_bytes([book[6], book[7]]);
    assert_eq!(
        decoder.decode_chunk(0x1002, (book.len() - 8) as u32, arg, &book[8..]).ok(),
        Some(ChunkKind::Codebook)
    );
    decoder
}

/// A frame whose four blocks are filled from the cells `cells`.
fn sdl_frame(cells: [u8; 4]) -> Vec<u8> {
    let mut payload = Vec::new();
    payload.extend_from_slice(&mode_word([2, 2, 2, 2, 0, 0, 0, 0]));
    payload.extend_from_slice(&cells);
    payload
}

fn pixel(frame: &[u32], x: usize, y: usize) -> u32 {
    frame[y * 16 + x]
}

#[test]
fn square_lookup_table_values() {
    assert_eq!(square_lut(5), 25);
    assert_eq!(square_lut(128), 0);
    assert_eq!(square_lut(131), -9);
    assert_eq!(square_lut(0), 0);
    assert_eq!(square_lut(127), 16129);
    assert_eq!(square_lut(255), -16129);
}

#[test]
fn stereo_chunk_of_zeros_decodes_to_zero_samples() {
    let mut decoder = RoqDecoder::<u32, Plain>::new();
    let kind = decoder.decode_chunk(0x1021, 4, 0x0000, &[0, 0, 0, 0]);
    assert_eq!(kind.ok(), Some(ChunkKind::Audio(2)));
    assert_eq!(decoder.get_audio_data(), &[0i16, 0, 0, 0][..]);
}

#[test]
fn mono_chunk_accumulates_squares() {
    let mut out = vec![9i16; 7];
    decode_mono(&[1, 2, 130, 0], 0x0001, &mut out);
    assert_eq!(out, vec![257, 261, 257, 257]);
}

#[test]
fn mono_seed_is_the_low_byte_of_the_argument() {
    let mut out = Vec::new();
    decode_mono(&[0], 0x7F02, &mut out);
    assert_eq!(out, vec![0x0200]);
    decode_mono(&[0], 0x00FF, &mut out);
    assert_eq!(out, vec![-256]);
}

#[test]
fn stereo_channels_are_seeded_from_their_own_byte() {
    let mut out = Vec::new();
    decode_stereo(&[3, 130, 0, 1], 0x0180, &mut out);
    assert_eq!(out, vec![265, 32764, 265, 32765]);
}

#[test]
fn stereo_chunk_leaves_out_a_byte_without_partner() {
    let mut out = Vec::new();
    decode_stereo(&[1, 2, 3], 0, &mut out);
    assert_eq!(out, vec![1, 4]);
}

#[test]
fn samples_wrap_around() {
    let mut out = Vec::new();
    decode_mono(&[127, 127, 127], 0x007F, &mut out);
    let first = 0x7F00i32 + 16129;
    assert_eq!(out[0], (first - 65536) as i16);
    assert_eq!(out[1], (first - 65536 + 16129) as i16);
    assert_eq!(out[2], (first - 65536 + 2 * 16129) as i16);
}

#[test]
fn mono_chunk_reports_one_channel() {
    let mut decoder = RoqDecoder::<u32, Plain>::new();
    assert_eq!(decoder.decode_chunk(0x1020, 2, 0, &[2, 3]).ok(), Some(ChunkKind::Audio(1)));
    assert_eq!(decoder.get_audio_data(), &[4i16, 13][..]);
}

#[test]
fn reader_decodes_little_endian() {
    let data = [0x34, 0x12, 0x78, 0x56, 0x34, 0x12, 0xAB];
    let mut reader = ByteReader::new(&data);
    assert_eq!(reader.remaining(), 7);
    assert_eq!(reader.read_u16().ok(), Some(0x1234));
    assert_eq!(reader.read_u32().ok(), Some(0x1234_5678));
    assert!(matches!(reader.read_u16(), Err(RoqError::IOError)));
    assert!(matches!(reader.read_u32(), Err(RoqError::IOError)));
    assert_eq!(reader.remaining(), 1);
    assert_eq!(reader.read_u8().ok(), Some(0xAB));
    assert!(matches!(reader.read_u8(), Err(RoqError::IOError)));
}

#[test]
fn reader_hands_out_bytes() {
    let data = [1, 2, 3, 4, 5];
    let mut reader = ByteReader::starting_at(&data, 1);
    assert_eq!(reader.read_bytes(3).ok(), Some(&data[1..4]));
    assert!(matches!(reader.read_bytes(2), Err(RoqError::IOError)));
    assert_eq!(reader.read_bytes(1).ok(), Some(&data[4..5]));
    assert_eq!(reader.read_bytes(0).ok(), Some(&data[5..5]));
}

#[test]
fn modes_come_highest_bits_first() {
    let data = [0x1B, 0xE4, 0xFF, 0x00];
    let mut reader = ByteReader::new(&data);
    let mut count: u16 = 0;
    let mut set: u16 = 0;
    let mut modes = Vec::new();
    for _ in 0..8 {
        modes.push(get_mode(&mut reader, &mut count, &mut set).ok().unwrap());
    }
    assert_eq!(modes, vec![3, 2, 1, 0, 0, 1, 2, 3]);
    assert_eq!(count, 0);
    assert_eq!(set, 0xE41B);
    assert_eq!(reader.remaining(), 2);
    assert_eq!(get_mode(&mut reader, &mut count, &mut set).ok(), Some(0));
    assert_eq!(count, 14);
    assert_eq!(set, 0x00FF);
}

#[test]
fn mode_fetch_fails_without_two_bytes() {
    let data = [0xFF];
    let mut reader = ByteReader::new(&data);
    let mut count: u16 = 0;
    let mut set: u16 = 5;
    assert!(matches!(get_mode(&mut reader, &mut count, &mut set), Err(RoqError::IOError)));
    assert_eq!((count, set, reader.remaining()), (0, 5, 1));
}

#[test]
fn default_pixels_are_zero() {
    assert_eq!(ColorspaceBgr565::default(), 0);
    assert_eq!(ColorspaceRgba8888::default(), 0);
    let mut decoder = RoqDecoder::<u16, Bgr>::new();
    assert!(decoder.decode_chunk(0x1001, 4, 0, &[2, 0, 3, 0]).is_ok());
    assert_eq!(decoder.get_framebuffer_data(), &[0u16; 6][..]);
}

#[test]
fn packs_565() {
    assert_eq!(ColorspaceBgr565::pack(31, 63, 31), 0xFFFF);
    assert_eq!(ColorspaceBgr565::pack(1, 2, 3), 2048 + 64 + 3);
    assert_eq!(ColorspaceBgr565::pack(0, 0, 0), 0);
}

#[test]
fn packs_8888() {
    assert_eq!(ColorspaceRgba8888::pack(1, 2, 3, 4), 1 + 2 * 256 + 3 * 65536 + 4 * 16777216);
    assert_eq!(ColorspaceRgba8888::pack(255, 255, 255, 255), 0xFFFF_FFFF);
}

#[test]
fn codebook_cells_are_converted_samples() {
    let mut book = Codebook::<u32>::new(7);
    let payload = [1, 2, 3, 4, 10, 20, 50, 60, 70, 80, 30, 40];
    assert!(book.unpack::<Plain>(&payload, 12, 0x0200, false).is_ok());
    let cells = book.cells2();
    assert_eq!(
        &cells[0..8],
        &[
            plain(1, 10, 20, 255),
            plain(2, 10, 20, 255),
            plain(3, 10, 20, 255),
            plain(4, 10, 20, 255),
            plain(50, 30, 40, 255),
            plain(60, 30, 40, 255),
            plain(70, 30, 40, 255),
            plain(80, 30, 40, 255)
        ][..]
    );
    assert_eq!(cells[8], 7);
    assert_eq!(cells.len(), 1024);
    assert!(book.cells4().iter().all(|&p| p == 7));
}

#[test]
fn codebook_cells_with_alpha() {
    let mut book = Codebook::<u32>::new(7);
    let payload = [1, 201, 2, 202, 3, 203, 4, 204, 10, 20];
    assert!(book.unpack::<Plain>(&payload, 10, 0x0100, true).is_ok());
    assert_eq!(
        &book.cells2()[0..4],
        &[plain(1, 10, 20, 201), plain(2, 10, 20, 202), plain(3, 10, 20, 203), plain(4, 10, 20, 204)][..]
    );
    assert_eq!(book.cells2()[4], 7);
}

#[test]
fn codebook_quadrants() {
    let mut book = Codebook::<u32>::new(0);
    let mut payload = Vec::new();
    for c in 0..4u8 {
        payload.extend_from_slice(&[10 * c, 10 * c + 1, 10 * c + 2, 10 * c + 3, 0, 0]);
    }
    payload.extend_from_slice(&[0, 1, 2, 3]);
    payload.extend_from_slice(&[3, 3, 0, 0]);
    assert!(book.unpack::<Plain>(&payload, payload.len() as u32, 0x0402, false).is_ok());
    let lumas: Vec<u8> = book.cells4()[0..32].iter().map(|p| (p >> 24) as u8).collect();
    assert_eq!(
        lumas,
        vec![
            0, 1, 10, 11, 2, 3, 12, 13, 20, 21, 30, 31, 22, 23, 32, 33, 30, 31, 30, 31, 32, 33, 32,
            33, 0, 1, 0, 1, 2, 3, 2, 3
        ]
    );
    assert_eq!(book.cells4()[32], 0);
}

#[test]
fn solid_cells_make_a_solid_cell() {
    let mut book = Codebook::<u32>::new(0);
    let payload = [9, 9, 9, 9, 1, 2, 0, 0, 0, 0];
    assert!(book.unpack::<Plain>(&payload, 10, 0x0101, false).is_ok());
    assert!(book.cells4()[0..16].iter().all(|&p| p == plain(9, 1, 2, 255)));
}

#[test]
fn zero_count_of_large_cells_without_alpha() {
    let cell = [1, 2, 3, 4, 5, 6];
    let mut book = Codebook::<u32>::new(0);
    assert!(book.unpack::<Plain>(&cell, 6, 0x0100, false).is_ok());
    let mut longer = cell.to_vec();
    longer.extend_from_slice(&[0; 4]);
    let mut book = Codebook::<u32>::new(0);
    assert!(matches!(book.unpack::<Plain>(&longer, 10, 0x0100, false), Err(RoqError::IOError)));
    assert_eq!(book.cells2()[0], plain(1, 5, 6, 255));
    assert_eq!(book.cells4()[0], plain(1, 5, 6, 255));
    assert_eq!(book.cells4()[15], plain(4, 5, 6, 255));
    assert_eq!(book.cells4()[16], 0);
    let mut full = cell.to_vec();
    full.extend_from_slice(&[0; 1024]);
    let mut book = Codebook::<u32>::new(0);
    assert!(book.unpack::<Plain>(&full, 1030, 0x0100, false).is_ok());
    assert!(book.cells4().iter().step_by(16).all(|&p| p == plain(1, 5, 6, 255)));
}

#[test]
fn zero_count_of_large_cells_with_alpha() {
    let cell = [1, 0, 2, 0, 3, 0, 4, 0, 5, 6];
    let mut book = Codebook::<u32>::new(9);
    assert!(book.unpack::<Plain>(&cell, 10, 0x0100, true).is_ok());
    assert!(book.cells4().iter().all(|&p| p == 9));
    let mut longer = cell.to_vec();
    longer.extend_from_slice(&[0; 2]);
    let mut book = Codebook::<u32>::new(9);
    assert!(matches!(book.unpack::<Plain>(&longer, 12, 0x0100, true), Err(RoqError::IOError)));
    assert_eq!(book.cells4()[0], plain(1, 5, 6, 0));
    assert_eq!(book.cells4()[2], plain(1, 5, 6, 0));
    assert_eq!(book.cells4()[8], 9);
}

#[test]
fn zero_count_of_small_cells_means_all() {
    let payload = vec![3u8; 256 * 6];
    let mut book = Codebook::<u32>::new(0);
    assert!(book.unpack::<Plain>(&payload, 256 * 6, 0x0000, false).is_ok());
    assert!(book.cells2().iter().all(|&p| p == plain(3, 3, 3, 255)));
    let mut book = Codebook::<u32>::new(0);
    assert!(matches!(
        book.unpack::<Plain>(&payload[..100], 100, 0x0000, false),
        Err(RoqError::IOError)
    ));
    assert_eq!(book.cells2()[63], plain(3, 3, 3, 255));
    assert_eq!(book.cells2()[64], 0);
}

#[test]
fn end_to_end_solid_frame() {
    let mut stream = stream_header(30);
    stream.extend(info(16, 16, 0));
    stream.extend(solid_codebook(&[77]));
    stream.extend(chunk(0x1011, 0, &sdl_frame([0, 0, 0, 0])));
    let mut player = RoqPlayer::<u32, Plain>::new(stream).ok().unwrap();
    assert_eq!(player.framerate(), 30);
    assert_eq!((player.width(), player.height()), (0, 0));
    assert!(matches!(player.read_next(), Ok(RoqEvent::InitVideo)));
    assert_eq!((player.width(), player.height()), (16, 16));
    assert_eq!(player.get_framebuffer_data(), &[0xDEAD_BEEFu32; 256][..]);
    match player.read_next() {
        Ok(RoqEvent::Video(frame)) => assert_eq!(frame, &[plain(77, 100, 200, 255); 256][..]),
        _ => panic!("expected a frame"),
    }
    assert_eq!(player.get_framebuffer_data(), &[plain(77, 100, 200, 255); 256][..]);
    assert!(matches!(player.read_next(), Ok(RoqEvent::EndOfFile)));
    assert!(matches!(player.read_next(), Ok(RoqEvent::EndOfFile)));
}

#[test]
fn end_to_end_in_rgba() {
    let mut stream = stream_header(24);
    stream.extend(info(16, 16, 0));
    stream.extend(chunk(0x1002, 0x0101, &[235, 235, 235, 235, 128, 128, 0, 0, 0, 0]));
    stream.extend(chunk(0x1011, 0, &sdl_frame([0, 0, 0, 0])));
    let mut player = RoqPlayer::<u32, Rgba>::new(stream).ok().unwrap();
    assert!(matches!(player.read_next(), Ok(RoqEvent::InitVideo)));
    match player.read_next() {
        Ok(RoqEvent::Video(frame)) => assert_eq!(frame, &[0xFFFE_FEFEu32; 256][..]),
        _ => panic!("expected a frame"),
    }
}

#[test]
fn end_to_end_in_565() {
    let mut stream = stream_header(24);
    stream.extend(info(16, 16, 0));
    stream.extend(chunk(0x1002, 0x0101, &[235, 235, 16, 16, 128, 128, 0, 0, 0, 0]));
    stream.extend(chunk(0x1011, 0, &sdl_frame([0, 0, 0, 0])));
    let mut player = RoqPlayer::<u16, Bgr>::new(stream).ok().unwrap();
    assert!(matches!(player.read_next(), Ok(RoqEvent::InitVideo)));
    match player.read_next() {
        Ok(RoqEvent::Video(frame)) => {
            assert_eq!(frame[0], (31 << 11) | (63 << 5) | 31);
            assert_eq!(frame[16 + 15], 0xFFFF);
            assert_eq!(frame[2 * 16], 0);
            assert_eq!(frame[3 * 16 + 9], 0);
            assert_eq!(frame[4 * 16 + 4], 0xFFFF);
            assert_eq!(frame[15 * 16 + 15], 0);
        },
        _ => panic!("expected a frame"),
    }
}

#[test]
fn conversion_clamps() {
    assert_eq!(Rgba::convert(16, 128, 128, 255), 0xFF00_0000);
    assert_eq!(Rgba::convert(255, 255, 255, 1), 0x01FF_7DFF);
    assert_eq!(Rgba::convert(0, 0, 0, 0), 0x0000_8700);
    assert_eq!(Bgr::convert(16, 128, 128, 0), 0);
    assert_eq!(Bgr::convert(81, 90, 240, 0), 31 << 11);
    assert_eq!(Bgr::convert(145, 54, 34, 0), 63 << 5);
    assert_eq!(Bgr::convert(41, 240, 110, 0), 31);
    assert_eq!(Rgba::convert(19, 128, 201, 0), 0x0003_0077);
}

#[test]
fn opening_checks_the_header() {
    assert!(matches!(RoqPlayer::<u32, Plain>::new(vec![]), Err(RoqError::IOError)));
    assert!(matches!(
        RoqPlayer::<u32, Plain>::new(vec![0x84, 0x10, 0xFF, 0xFF, 0xFF, 0xFF, 30]),
        Err(RoqError::IOError)
    ));
    assert!(matches!(
        RoqPlayer::<u32, Plain>::new(vec![0x85, 0x10, 0xFF, 0xFF, 0xFF, 0xFF, 30, 0]),
        Err(RoqError::ParseError)
    ));
    assert!(matches!(
        RoqPlayer::<u32, Plain>::new(vec![0x10, 0x84, 0xFF, 0xFF, 0xFF, 0xFF, 30, 0]),
        Err(RoqError::ParseError)
    ));
    let player = RoqPlayer::<u32, Plain>::new(vec![0x84, 0x10, 0, 0, 0, 0, 0x34, 0x12]).ok().unwrap();
    assert_eq!(player.framerate(), 0x1234);
    assert!(player.get_framebuffer_data().is_empty());
}

#[test]
fn stream_ends_where_no_header_is_left() {
    let mut stream = stream_header(30);
    stream.extend_from_slice(&[0x01, 0x10, 4, 0, 0, 0, 0]);
    let mut player = RoqPlayer::<u32, Plain>::new(stream).ok().unwrap();
    assert!(matches!(player.read_next(), Ok(RoqEvent::EndOfFile)));
}

#[test]
fn payload_cut_short_is_an_error() {
    let mut stream = stream_header(30);
    stream.extend_from_slice(&[0x01, 0x10, 4, 0, 0, 0, 0, 0, 16, 0, 16]);
    let mut player = RoqPlayer::<u32, Plain>::new(stream).ok().unwrap();
    assert!(matches!(player.read_next(), Err(RoqError::IOError)));
    assert_eq!((player.width(), player.height()), (0, 0));
}

#[test]
fn info_chunk_needs_both_dimensions() {
    let mut decoder = RoqDecoder::<u32, Plain>::new();
    assert!(matches!(decoder.decode_chunk(0x1001, 3, 0, &[16, 0, 16]), Err(RoqError::IOError)));
    assert_eq!((decoder.width(), decoder.height()), (0, 0));
    assert_eq!(decoder.decode_chunk(0x1001, 4, 0, &[32, 0, 16, 0]).ok(), Some(ChunkKind::InitVideo));
    assert_eq!((decoder.width(), decoder.height()), (32, 16));
    assert_eq!(decoder.get_framebuffer_data().len(), 512);
}

#[test]
fn unknown_chunks_are_passed_on() {
    let mut stream = stream_header(30);
    stream.extend(chunk(0x1234, 0xABCD, &[1, 2, 3]));
    stream.extend(chunk(0x1020, 0, &[1]));
    let mut player = RoqPlayer::<u32, Plain>::new(stream).ok().unwrap();
    match player.read_next() {
        Ok(RoqEvent::Custom(id, arg, payload)) => {
            assert_eq!((id, arg), (0x1234, 0xABCD));
            assert_eq!(payload, &[1u8, 2, 3][..]);
        },
        _ => panic!("expected a custom chunk"),
    }
    match player.read_next() {
        Ok(RoqEvent::Audio(channels, samples)) => {
            assert_eq!(channels, 1);
            assert_eq!(samples, &[1i16][..]);
        },
        _ => panic!("expected sound"),
    }
    assert!(matches!(player.read_next(), Ok(RoqEvent::EndOfFile)));
}

#[test]
fn codebook_chunks_are_passed_over() {
    let mut stream = stream_header(30);
    stream.extend(solid_codebook(&[1]));
    stream.extend(solid_codebook(&[2, 3]));
    stream.extend(chunk(0x1021, 0, &[2, 3]));
    let mut player = RoqPlayer::<u32, Plain>::new(stream).ok().unwrap();
    match player.read_next() {
        Ok(RoqEvent::Audio(channels, samples)) => {
            assert_eq!(channels, 2);
            assert_eq!(samples, &[4i16, 9][..]);
        },
        _ => panic!("expected sound"),
    }
}

#[test]
fn codebook_cut_short_is_an_error() {
    let mut stream = stream_header(30);
    stream.extend(chunk(0x1002, 0x0200, &[1, 2, 3, 4, 5, 6, 7]));
    stream.extend(chunk(0x1020, 0, &[1]));
    let mut player = RoqPlayer::<u32, Plain>::new(stream).ok().unwrap();
    assert!(matches!(player.read_next(), Err(RoqError::IOError)));
    assert!(matches!(player.read_next(), Ok(RoqEvent::Audio(1, _))));
}

#[test]
fn second_frame_starts_from_the_first() {
    let mut decoder = decoder_16x16(&[10, 20, 30, 40]);
    assert_eq!(decoder.decode_chunk(0x1011, 6, 0, &sdl_frame([0, 1, 2, 3])).ok(), Some(ChunkKind::Video));
    let first = decoder.get_framebuffer_data().to_vec();
    assert_eq!(pixel(&first, 0, 0), plain(10, 100, 200, 255));
    assert_eq!(pixel(&first, 8, 0), plain(20, 100, 200, 255));
    assert_eq!(pixel(&first, 7, 8), plain(30, 100, 200, 255));
    assert_eq!(pixel(&first, 15, 15), plain(40, 100, 200, 255));
    let skip = mode_word([0; 8]);
    assert_eq!(decoder.decode_chunk(0x1011, 2, 0, &skip).ok(), Some(ChunkKind::Video));
    assert_eq!(decoder.get_framebuffer_data(), &first[..]);
}

#[test]
fn skipped_blocks_keep_the_buffer_of_two_frames_before() {
    let mut decoder = decoder_16x16(&[10, 20]);
    assert!(decoder.decode_chunk(0x1011, 6, 0, &sdl_frame([0, 0, 0, 0])).is_ok());
    assert!(decoder.decode_chunk(0x1011, 6, 0, &sdl_frame([1, 1, 1, 1])).is_ok());
    let skip = mode_word([0; 8]);
    assert!(decoder.decode_chunk(0x1011, 2, 0, &skip).is_ok());
    assert_eq!(decoder.get_framebuffer_data(), &[plain(10, 100, 200, 255); 256][..]);
    assert!(decoder.decode_chunk(0x1011, 2, 0, &skip).is_ok());
    assert_eq!(decoder.get_framebuffer_data(), &[plain(20, 100, 200, 255); 256][..]);
}

#[test]
fn stationary_motion_copies_the_block_in_place() {
    let mut decoder = decoder_16x16(&[10, 20, 30, 40]);
    assert!(decoder.decode_chunk(0x1011, 6, 0, &sdl_frame([0, 1, 2, 3])).is_ok());
    let first = decoder.get_framebuffer_data().to_vec();
    assert!(decoder.decode_chunk(0x1011, 6, 0, &sdl_frame([3, 3, 3, 3])).is_ok());
    let mut payload = mode_word([1, 1, 1, 1, 0, 0, 0, 0]).to_vec();
    payload.extend_from_slice(&[0x88; 4]);
    assert!(decoder.decode_chunk(0x1011, 6, 0, &payload).is_ok());
    assert_eq!(decoder.get_framebuffer_data(), &[plain(40, 100, 200, 255); 256][..]);
    let mut decoder = decoder_16x16(&[10, 20, 30, 40]);
    assert!(decoder.decode_chunk(0x1011, 6, 0, &sdl_frame([0, 1, 2, 3])).is_ok());
    let mut payload = mode_word([1, 1, 1, 1, 0, 0, 0, 0]).to_vec();
    payload.extend_from_slice(&[0x88; 4]);
    assert!(decoder.decode_chunk(0x1011, 6, 0, &payload).is_ok());
    assert_eq!(decoder.get_framebuffer_data(), &first[..]);
}

#[test]
fn motion_copies_from_the_previous_frame() {
    let mut decoder = decoder_16x16(&[10, 20, 30, 40, 50]);
    assert!(decoder.decode_chunk(0x1011, 6, 0, &sdl_frame([0, 1, 2, 3])).is_ok());
    // Block 0 from 8 to the right, block 1 from 7 to the left and 8 down,
    // block 2 from 4 to the right and 4 up, block 3 from outside.
    let mut payload = mode_word([1, 1, 1, 1, 0, 0, 0, 0]).to_vec();
    payload.extend_from_slice(&[0x08, 0xF0, 0x4C, 0x77]);
    assert!(decoder.decode_chunk(0x1011, 6, 0, &payload).is_ok());
    let frame = decoder.get_framebuffer_data();
    assert_eq!(pixel(frame, 0, 0), plain(20, 100, 200, 255));
    assert_eq!(pixel(frame, 7, 7), plain(20, 100, 200, 255));
    assert_eq!(pixel(frame, 8, 0), plain(30, 100, 200, 255));
    assert_eq!(pixel(frame, 14, 7), plain(30, 100, 200, 255));
    assert_eq!(pixel(frame, 15, 0), plain(40, 100, 200, 255));
    assert_eq!(pixel(frame, 15, 7), plain(40, 100, 200, 255));
    assert_eq!(pixel(frame, 0, 8), plain(10, 100, 200, 255));
    assert_eq!(pixel(frame, 3, 11), plain(10, 100, 200, 255));
    assert_eq!(pixel(frame, 4, 8), plain(20, 100, 200, 255));
    assert_eq!(pixel(frame, 0, 12), plain(30, 100, 200, 255));
    assert_eq!(pixel(frame, 4, 12), plain(40, 100, 200, 255));
    assert_eq!(pixel(frame, 8, 8), plain(40, 100, 200, 255));
    assert_eq!(pixel(frame, 15, 15), plain(40, 100, 200, 255));
}

#[test]
fn motion_is_biased_by_the_argument() {
    let mut decoder = decoder_16x16(&[10, 20, 30, 40]);
    assert!(decoder.decode_chunk(0x1011, 6, 0, &sdl_frame([0, 1, 2, 3])).is_ok());
    // The argument takes 8 off the horizontal motion: block 1 comes from
    // block 0, and block 0 would come from outside.
    let mut payload = mode_word([1, 1, 0, 0, 0, 0, 0, 0]).to_vec();
    payload.extend_from_slice(&[0x88, 0x88]);
    assert!(decoder.decode_chunk(0x1011, 4, 0x0800, &payload).is_ok());
    let frame = decoder.get_framebuffer_data();
    assert_eq!(pixel(frame, 0, 0), plain(10, 100, 200, 255));
    assert_eq!(pixel(frame, 8, 0), plain(10, 100, 200, 255));
    assert_eq!(pixel(frame, 15, 7), plain(10, 100, 200, 255));
    assert_eq!(pixel(frame, 8, 8), plain(40, 100, 200, 255));
    // The argument adds 8 to the vertical motion: block 0 comes from
    // block 2.
    let mut payload = mode_word([1, 0, 0, 0, 0, 0, 0, 0]).to_vec();
    payload.extend_from_slice(&[0x88]);
    assert!(decoder.decode_chunk(0x1011, 3, 0x00F8, &payload).is_ok());
    assert_eq!(pixel(decoder.get_framebuffer_data(), 0, 0), plain(30, 100, 200, 255));
    assert_eq!(pixel(decoder.get_framebuffer_data(), 7, 7), plain(30, 100, 200, 255));
}

#[test]
fn motion_out_of_the_frame_leaves_the_block() {
    let mut decoder = decoder_16x16(&[10, 20, 30, 40]);
    assert!(decoder.decode_chunk(0x1011, 6, 0, &sdl_frame([0, 1, 2, 3])).is_ok());
    let mut payload = mode_word([1, 1, 1, 1, 0, 0, 0, 0]).to_vec();
    payload.extend_from_slice(&[0x98, 0x78, 0x87, 0x77]);
    assert!(decoder.decode_chunk(0x1011, 6, 0, &payload).is_ok());
    let frame = decoder.get_framebuffer_data();
    assert_eq!(pixel(frame, 0, 0), plain(10, 100, 200, 255));
    assert_eq!(pixel(frame, 8, 0), plain(20, 100, 200, 255));
    assert_eq!(pixel(frame, 0, 8), plain(30, 100, 200, 255));
    assert_eq!(pixel(frame, 8, 8), plain(40, 100, 200, 255));
    // One pixel inside the frame is enough for the copy.
    let mut payload = mode_word([1, 0, 0, 1, 0, 0, 0, 0]).to_vec();
    payload.extend_from_slice(&[0x77, 0x88]);
    assert!(decoder.decode_chunk(0x1011, 4, 0, &payload).is_ok());
    let frame = decoder.get_framebuffer_data();
    assert_eq!(pixel(frame, 0, 0), plain(10, 100, 200, 255));
    assert_eq!(pixel(frame, 6, 6), plain(10, 100, 200, 255));
    assert_eq!(pixel(frame, 7, 6), plain(20, 100, 200, 255));
    assert_eq!(pixel(frame, 6, 7), plain(30, 100, 200, 255));
    assert_eq!(pixel(frame, 7, 7), plain(40, 100, 200, 255));
}

#[test]
fn cell_is_doubled_into_a_block() {
    let mut decoder = RoqDecoder::<u32, Plain>::new();
    assert!(decoder.decode_chunk(0x1001, 4, 0, &[16, 0, 16, 0]).is_ok());
    let mut book = Vec::new();
    for c in 0..4u8 {
        book.extend_from_slice(&[10 * c, 10 * c + 1, 10 * c + 2, 10 * c + 3, 0, 0]);
    }
    book.extend_from_slice(&[0, 1, 2, 3]);
    assert!(decoder.decode_chunk(0x1002, book.len() as u32, 0x0401, &book).is_ok());
    let mut payload = mode_word([0, 2, 0, 0, 0, 0, 0, 0]).to_vec();
    payload.push(0);
    assert!(decoder.decode_chunk(0x1011, 3, 0, &payload).is_ok());
    let frame = decoder.get_framebuffer_data();
    let luma = |x: usize, y: usize| (pixel(frame, x, y) >> 24) as u8;
    let rows: Vec<Vec<u8>> = (0..8).map(|y| (8..16).map(|x| luma(x, y)).collect()).collect();
    assert_eq!(rows[0], vec![0, 0, 1, 1, 10, 10, 11, 11]);
    assert_eq!(rows[1], rows[0]);
    assert_eq!(rows[2], vec![2, 2, 3, 3, 12, 12, 13, 13]);
    assert_eq!(rows[3], rows[2]);
    assert_eq!(rows[4], vec![20, 20, 21, 21, 30, 30, 31, 31]);
    assert_eq!(rows[5], rows[4]);
    assert_eq!(rows[6], vec![22, 22, 23, 23, 32, 32, 33, 33]);
    assert_eq!(rows[7], rows[6]);
    assert_eq!(pixel(frame, 7, 0), 0xDEAD_BEEF);
    assert_eq!(pixel(frame, 8, 8), 0xDEAD_BEEF);
}

#[test]
fn divided_block() {
    let mut decoder = RoqDecoder::<u32, Plain>::new();
    assert!(decoder.decode_chunk(0x1001, 4, 0, &[16, 0, 16, 0]).is_ok());
    let mut book = Vec::new();
    for c in 0..4u8 {
        book.extend_from_slice(&[10 * c, 10 * c + 1, 10 * c + 2, 10 * c + 3, 0, 0]);
    }
    book.extend_from_slice(&[0, 1, 2, 3]);
    assert!(decoder.decode_chunk(0x1002, book.len() as u32, 0x0401, &book).is_ok());
    assert!(decoder.decode_chunk(0x1011, 2, 0, &mode_word([0; 8])).is_ok());
    // Third block divided: skipped, cell 0 as it is, four small cells,
    // motion from 4 to the right of the sub-block. The fourth block is
    // skipped.
    let mut payload = mode_word([0, 0, 3, 0, 2, 3, 1, 0]).to_vec();
    payload.extend_from_slice(&[0, 3, 2, 1, 0, 0x84]);
    assert!(decoder.decode_chunk(0x1011, payload.len() as u32, 0, &payload).is_ok());
    let frame = decoder.get_framebuffer_data();
    let luma = |x: usize, y: usize| (pixel(frame, x, y) >> 24) as u8;
    assert_eq!(pixel(frame, 0, 8), 0xDEAD_BEEF);
    assert_eq!(pixel(frame, 3, 11), 0xDEAD_BEEF);
    let cell: Vec<Vec<u8>> = (8..12).map(|y| (4..8).map(|x| luma(x, y)).collect()).collect();
    assert_eq!(cell, vec![vec![0, 1, 10, 11], vec![2, 3, 12, 13], vec![20, 21, 30, 31], vec![22, 23, 32, 33]]);
    let small: Vec<Vec<u8>> = (12..16).map(|y| (0..4).map(|x| luma(x, y)).collect()).collect();
    assert_eq!(small, vec![vec![30, 31, 20, 21], vec![32, 33, 22, 23], vec![10, 11, 0, 1], vec![12, 13, 2, 3]]);
    assert_eq!(pixel(frame, 4, 12), 0xDEAD_BEEF);
    assert_eq!(pixel(frame, 7, 15), 0xDEAD_BEEF);
    assert_eq!(pixel(frame, 8, 8), 0xDEAD_BEEF);
}

#[test]
fn frame_cut_short_keeps_what_was_decoded() {
    let mut decoder = decoder_16x16(&[10, 20, 30, 40]);
    let mut payload = mode_word([2, 2, 2, 2, 0, 0, 0, 0]).to_vec();
    payload.extend_from_slice(&[0, 1]);
    assert!(matches!(decoder.decode_chunk(0x1011, 4, 0, &payload), Err(RoqError::IOError)));
    let frame = decoder.get_framebuffer_data();
    assert_eq!(pixel(frame, 0, 0), plain(10, 100, 200, 255));
    assert_eq!(pixel(frame, 8, 0), plain(20, 100, 200, 255));
    assert_eq!(pixel(frame, 0, 8), 0xDEAD_BEEF);
    assert!(matches!(decoder.decode_chunk(0x1011, 1, 0, &[0]), Err(RoqError::IOError)));
    assert!(matches!(decoder.decode_chunk(0x1011, 0, 0, &[]), Err(RoqError::IOError)));
}

#[test]
fn frames_smaller_than_a_macroblock_have_no_blocks() {
    let mut decoder = RoqDecoder::<u32, Plain>::new();
    assert_eq!(decoder.decode_chunk(0x1011, 0, 0, &[]).ok(), Some(ChunkKind::Video));
    assert!(decoder.get_framebuffer_data().is_empty());
    assert!(decoder.decode_chunk(0x1001, 4, 0, &[15, 0, 40, 0]).is_ok());
    assert_eq!(decoder.decode_chunk(0x1011, 0, 0, &[]).ok(), Some(ChunkKind::Video));
    assert_eq!(decoder.get_framebuffer_data(), &[0xDEAD_BEEFu32; 600][..]);
}

#[test]
fn macroblocks_in_raster_order() {
    let mut decoder = RoqDecoder::<u32, Plain>::new();
    assert!(decoder.decode_chunk(0x1001, 4, 0, &[40, 0, 32, 0]).is_ok());
    let book = solid_codebook(&[1, 2, 3, 4]);
    assert!(decoder.decode_chunk(0x1002, (book.len() - 8) as u32, 0x0404, &book[8..]).is_ok());
    let mut payload = Vec::new();
    for _ in 0..2 {
        payload.extend_from_slice(&mode_word([2; 8]));
        payload.extend_from_slice(&[0, 0, 0, 0, 1, 1, 1, 1]);
    }
    for cell in 2..4u8 {
        payload[10 * (cell as usize - 2) + 2..10 * (cell as usize - 2) + 10]
            .copy_from_slice(&[2 * cell - 4, 2 * cell - 4, 2 * cell - 4, 2 * cell - 4, 2 * cell - 3, 2 * cell - 3, 2 * cell - 3, 2 * cell - 3]);
    }
    assert!(decoder.decode_chunk(0x1011, payload.len() as u32, 0, &payload).is_ok());
    let frame = decoder.get_framebuffer_data();
    let luma = |x: usize, y: usize| (frame[y * 40 + x] >> 24) as u8;
    assert_eq!((luma(0, 0), luma(15, 15)), (1, 1));
    assert_eq!((luma(16, 0), luma(31, 15)), (2, 2));
    assert_eq!((luma(0, 16), luma(15, 31)), (3, 3));
    assert_eq!((luma(16, 16), luma(31, 31)), (4, 4));
    assert_eq!(frame[32], 0xDEAD_BEEF);
    assert_eq!(frame[31 * 40 + 39], 0xDEAD_BEEF);
}

#[test]
fn stereo_samples_are_taken_apart() {
    let (left, right) = dbsdk_rs::roq_player::dpcm::split_stereo(&[1, -1, 2, -2, 3, -3, 4]);
    assert_eq!(left, vec![1, 2, 3]);
    assert_eq!(right, vec![-1, -2, -3]);
    let (left, right) = dbsdk_rs::roq_player::dpcm::split_stereo(&[]);
    assert!(left.is_empty() && right.is_empty());
}
