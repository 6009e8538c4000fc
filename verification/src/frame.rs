//! Framebuffer frames: their geometry, and their compressed form on the wire.

use vstd::prelude::*;

use crate::config::device::{pixel_bytes, DeviceConfig};

verus! {

#[verifier::external_type_specification]
#[verifier::external_body]
pub struct ExDecompressError(lz4_flex::block::DecompressError);

/// What `lz4_flex::compress_prepend_size` makes of `input`: the LZ4 block of `input`
/// after the length of `input` as a little-endian `u32`.
pub uninterp spec fn lz4_compressed_with_size(input: Seq<u8>) -> Seq<u8>;

/// What `lz4_flex::decompress_size_prepended` makes of `input`; `None` where it fails.
pub uninterp spec fn lz4_decompressed(input: Seq<u8>) -> Option<Seq<u8>>;

/// `lz4_flex::compress_prepend_size`. Its result is named. Its first four bytes are
/// the length of `input` as a little-endian `u32`, as its documentation states, and
/// where that length fits in the `u32`, `decompress_size_prepended` gives `input`
/// back from it, as the documentation pairs the two. The requires exclude the lengths
/// on which the crate's computation of the largest output size overflows.
#[verifier::external_body]
fn compress_prepend_size(input: &[u8]) -> (r: Vec<u8>)
    requires
        input@.len() * 110 <= usize::MAX,
        input@.len() * 110 / 100 + 24 <= usize::MAX,
    ensures
        r@ == lz4_compressed_with_size(input@),
        r@.len() >= 4,
        r@[0] == input@.len() % 0x100,
        r@[1] == (input@.len() / 0x100) % 0x100,
        r@[2] == (input@.len() / 0x10000) % 0x100,
        r@[3] == (input@.len() / 0x1000000) % 0x100,
        input@.len() <= u32::MAX ==> lz4_decompressed(r@) == Some(input@),
{
    lz4_flex::compress_prepend_size(input)
}

/// `lz4_flex::decompress_size_prepended`. Its result is named; an input shorter than
/// the four bytes of the length is refused, as its source shows.
#[verifier::external_body]
fn decompress_size_prepended(input: &[u8]) -> (r: Result<Vec<u8>, lz4_flex::block::DecompressError>)
    ensures
        (r is Ok) <==> lz4_decompressed(input@) is Some,
        r matches Ok(v) ==> lz4_decompressed(input@) == Some(v@),
        input@.len() < 4 ==> r is Err,
{
    lz4_flex::decompress_size_prepended(input)
}

/// Why a frame was refused.
#[derive(Debug, Clone, Copy, PartialEq, Eq, Structural)]
pub enum FrameError {
    /// The buffer for a frame does not have the frame's length.
    BufferLength { actual: usize, expected: usize },
    /// The bytes received are not a compressed frame.
    Decompression,
}

/// Where a frame starts in the framebuffer source and how large it is.
#[derive(Debug, Clone, Copy, PartialEq, Eq, Structural)]
pub struct FrameGeometry {
    pub offset: usize,
    pub width: usize,
    pub height: usize,
    pub bytes_per_pixel: usize,
}

/// The bytes of one frame of `g`.
pub open spec fn spec_frame_length(g: FrameGeometry) -> int {
    g.width * g.height * g.bytes_per_pixel
}

/// The frame length of `g` can be computed without overflow.
pub open spec fn frame_length_fits(g: FrameGeometry) -> bool {
    &&& g.width * g.height <= usize::MAX
    &&& spec_frame_length(g) <= usize::MAX
}

impl FrameGeometry {
    /// The geometry of the frames that `device_config` describes, whose source
    /// places the framebuffer data at `source_offset`.
    pub fn new(device_config: &DeviceConfig, source_offset: usize) -> (r: FrameGeometry)
        requires
            source_offset + device_config.framebuffer_config.skip <= usize::MAX,
        ensures
            r.offset == source_offset + device_config.framebuffer_config.skip,
            r.width == device_config.video_config.width,
            r.height == device_config.video_config.height,
            r.bytes_per_pixel == pixel_bytes(device_config.video_config.pixel_format),
    {
        FrameGeometry {
            offset: source_offset + device_config.framebuffer_config.skip,
            width: device_config.video_config.width,
            height: device_config.video_config.height,
            bytes_per_pixel: device_config.video_config.pixel_format.bytes_per_pixel(),
        }
    }

    pub fn frame_length(&self) -> (r: usize)
        requires
            frame_length_fits(*self),
        ensures
            r == spec_frame_length(*self),
    {
        self.width * self.height * self.bytes_per_pixel
    }

    /// Accepts a buffer for one frame only where it has the frame's length.
    pub fn check_buffer(&self, buffer_length: usize) -> (r: Result<(), FrameError>)
        requires
            frame_length_fits(*self),
        ensures
            r is Ok <==> buffer_length == spec_frame_length(*self),
            r is Err ==> r == Err::<(), FrameError>(
                FrameError::BufferLength {
                    actual: buffer_length,
                    expected: spec_frame_length(*self) as usize,
                },
            ),
    {
        let expected = self.frame_length();
        if buffer_length != expected {
            return Err(FrameError::BufferLength { actual: buffer_length, expected });
        }
        Ok(())
    }
}

/// A frame that `decode_frame` gives back from `bytes`; `None` where it fails.
pub open spec fn spec_decode_frame(bytes: Seq<u8>) -> Option<Seq<u8>> {
    lz4_decompressed(bytes)
}

/// The bytes sent for the frame in `buffer`: the frame compressed, after its length.
pub fn encode_frame(geometry: &FrameGeometry, buffer: &[u8]) -> (r: Result<Vec<u8>, FrameError>)
    requires
        frame_length_fits(*geometry),
        spec_frame_length(*geometry) * 110 <= usize::MAX,
        spec_frame_length(*geometry) * 110 / 100 + 24 <= usize::MAX,
    ensures
        r is Ok <==> buffer@.len() == spec_frame_length(*geometry),
        r matches Ok(bytes) ==> bytes@ == lz4_compressed_with_size(buffer@),
        r matches Ok(bytes) ==> bytes@.len() >= 4 && bytes@[0] == buffer@.len() % 0x100 && bytes@[1]
            == (buffer@.len() / 0x100) % 0x100 && bytes@[2] == (buffer@.len() / 0x10000) % 0x100
            && bytes@[3] == (buffer@.len() / 0x1000000) % 0x100,
        r matches Ok(bytes) ==> (buffer@.len() <= u32::MAX ==> spec_decode_frame(bytes@) == Some(
            buffer@,
        )),
        r is Err ==> r == Err::<Vec<u8>, FrameError>(
            FrameError::BufferLength {
                actual: buffer@.len() as usize,
                expected: spec_frame_length(*geometry) as usize,
            },
        ),
{
    geometry.check_buffer(buffer.len())?;
    Ok(compress_prepend_size(buffer))
}

/// The frame carried by the bytes received.
pub fn decode_frame(bytes: &[u8]) -> (r: Result<Vec<u8>, FrameError>)
    ensures
        match spec_decode_frame(bytes@) {
            Some(frame) => r matches Ok(v) && v@ == frame,
            None => r == Err::<Vec<u8>, FrameError>(FrameError::Decompression),
        },
{
    match decompress_size_prepended(bytes) {
        Ok(frame) => Ok(frame),
        Err(_) => Err(FrameError::Decompression),
    }
}

} // verus!
