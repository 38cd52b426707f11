//! Decoded and compressed tiles.
//!
//! The headers of a JPEG file are read here. Its pixels are decoded by the
//! host, which hands over what the codec gave; this module makes the tile of
//! it. Decoding can stop on a damaged file, and only the host can contain
//! that.

use vstd::prelude::*;
use vstd::string::*;

use crate::buffer::{share, shared_bytes, shared_slice};
use crate::error::{TileError, TileResult};

verus! {

/// A decoded tile: interleaved RGB pixels, row by row.
#[derive(Debug, Clone)]
pub struct TileData {
    /// Raw RGB pixel data.
    pub data: bytes::Bytes,
    /// Tile width in pixels.
    pub width: u32,
    /// Tile height in pixels.
    pub height: u32,
}

/// What a decoded tile holds.
pub struct Pixels {
    pub rgb: Seq<u8>,
    pub width: u32,
    pub height: u32,
}

impl Pixels {
    /// Three bytes for every pixel.
    pub open spec fn wf(self) -> bool {
        self.rgb.len() == self.width * self.height * 3
    }
}

impl View for TileData {
    type V = Pixels;

    open spec fn view(&self) -> Pixels {
        Pixels { rgb: shared_bytes(self.data), width: self.width, height: self.height }
    }
}

impl TileData {
    /// A tile of `width` by `height` pixels over `data`.
    pub fn new(data: Vec<u8>, width: u32, height: u32) -> (t: TileData)
        ensures
            t@ == (Pixels { rgb: data@, width, height }),
    {
        TileData { data: share(data), width, height }
    }

    /// Size in bytes.
    pub fn size_bytes(&self) -> (n: usize)
        ensures
            n == self@.rgb.len(),
    {
        shared_slice(&self.data).len()
    }

    /// The pixel bytes.
    pub fn as_slice(&self) -> (s: &[u8])
        ensures
            s@ == self@.rgb,
    {
        shared_slice(&self.data)
    }

    /// A second handle on the same tile; the pixels are shared, not copied.
    pub fn share(&self) -> (t: TileData)
        ensures
            t@ == self@,
    {
        TileData { data: self.data.clone(), width: self.width, height: self.height }
    }
}

/// A tile as it lies in the pack: JPEG bytes, with the dimensions read from
/// the header, or zero where the header was not read.
#[derive(Debug, Clone)]
pub struct CompressedTileData {
    /// Raw JPEG file bytes.
    pub jpeg_bytes: bytes::Bytes,
    /// Tile width in pixels.
    pub width: u32,
    /// Tile height in pixels.
    pub height: u32,
}

/// What a compressed tile holds.
pub struct Jpeg {
    pub data: Seq<u8>,
    pub width: u32,
    pub height: u32,
}

impl View for CompressedTileData {
    type V = Jpeg;

    open spec fn view(&self) -> Jpeg {
        Jpeg { data: shared_bytes(self.jpeg_bytes), width: self.width, height: self.height }
    }
}

impl CompressedTileData {
    /// A compressed tile over `jpeg_bytes`.
    pub fn new(jpeg_bytes: Vec<u8>, width: u32, height: u32) -> (c: CompressedTileData)
        ensures
            c@ == (Jpeg { data: jpeg_bytes@, width, height }),
    {
        CompressedTileData { jpeg_bytes: share(jpeg_bytes), width, height }
    }

    /// Size in bytes of the compressed data.
    pub fn size_bytes(&self) -> (n: usize)
        ensures
            n == self@.data.len(),
    {
        shared_slice(&self.jpeg_bytes).len()
    }

    /// The JPEG bytes.
    pub fn as_slice(&self) -> (s: &[u8])
        ensures
            s@ == self@.data,
    {
        shared_slice(&self.jpeg_bytes)
    }

    /// A second handle on the same tile; the bytes are shared, not copied.
    pub fn share(&self) -> (c: CompressedTileData)
        ensures
            c@ == self@,
    {
        CompressedTileData {
            jpeg_bytes: self.jpeg_bytes.clone(),
            width: self.width,
            height: self.height,
        }
    }
}

/// What the codec makes of a JPEG file.
#[derive(Debug)]
pub enum Decoded {
    /// The pixels, as many channels per pixel as the file has components
    /// (one for grayscale, else three), and the frame's dimensions.
    Image { pixels: Vec<u8>, width: u16, height: u16, components: u8 },
    /// The codec decoded the file and then had no frame information.
    NoInfo,
    /// The codec refused the file; its own description of the fault.
    Failed(String),
}

/// `Decoded` as a plain value.
pub enum DecodedView {
    Image { pixels: Seq<u8>, width: u16, height: u16, components: u8 },
    NoInfo,
    Failed(Seq<char>),
}

impl View for Decoded {
    type V = DecodedView;

    open spec fn view(&self) -> DecodedView {
        match self {
            Decoded::Image { pixels, width, height, components } => DecodedView::Image {
                pixels: pixels@,
                width: *width,
                height: *height,
                components: *components,
            },
            Decoded::NoInfo => DecodedView::NoInfo,
            Decoded::Failed(m) => DecodedView::Failed(m@),
        }
    }
}

/// What the host got for a tile: the bytes of the tile's file, and what the
/// codec made of them. The codec is run by the host, which hands its answer
/// over as it hands over the bytes: what the library does with a tile is
/// stated for every answer.
#[derive(Debug)]
pub struct TileRead {
    /// The bytes of the tile's JPEG file.
    pub jpeg: Vec<u8>,
    /// What decoding them gave.
    pub decoded: Decoded,
}

/// What the codec makes of a JPEG file's headers.
#[derive(Debug)]
pub enum Probed {
    /// The frame's dimensions.
    Frame { width: u16, height: u16 },
    /// The codec read the headers and then had no frame information.
    NoInfo,
    /// The codec refused the headers; its own description of the fault.
    Failed(String),
}

/// `Probed` as a plain value.
pub enum ProbedView {
    Frame { width: u16, height: u16 },
    NoInfo,
    Failed(Seq<char>),
}

impl View for Probed {
    type V = ProbedView;

    open spec fn view(&self) -> ProbedView {
        match self {
            Probed::Frame { width, height } => ProbedView::Frame { width: *width, height: *height },
            Probed::NoInfo => ProbedView::NoInfo,
            Probed::Failed(m) => ProbedView::Failed(m@),
        }
    }
}

/// What `zune_jpeg` reads from a file's headers.
pub uninterp spec fn jpeg_probed(data: Seq<u8>) -> ProbedView;

/// `JpegDecoder::new`, `decode_headers` and `info` of `zune_jpeg`: the
/// frame's width and height without decoding any pixel, or the codec's error
/// in its debug spelling.
#[verifier::external_body]
fn codec_probe(data: &[u8]) -> (p: Probed)
    ensures
        p@ == jpeg_probed(data@),
{
    let mut decoder = zune_jpeg::JpegDecoder::new(data);
    match decoder.decode_headers() {
        Ok(()) => match decoder.info() {
            Some(info) => Probed::Frame { width: info.width, height: info.height },
            None => Probed::NoInfo,
        },
        Err(e) => Probed::Failed(format!("{:?}", e)),
    }
}

/// Grayscale pixels spread to RGB: every sample three times.
pub open spec fn gray_to_rgb(gray: Seq<u8>) -> Seq<u8> {
    Seq::new(3 * gray.len(), |i: int| gray[i / 3])
}

/// The RGB bytes of a decoded image: a single-component image is spread to
/// three channels, any other is taken as it is.
pub open spec fn rgb_of(pixels: Seq<u8>, components: u8) -> Seq<u8> {
    if components == 1 {
        gray_to_rgb(pixels)
    } else {
        pixels
    }
}

/// The tile that a decoding gives, or the message of the error.
pub open spec fn tile_of(d: DecodedView) -> Result<Pixels, Seq<char>> {
    match d {
        DecodedView::Image { pixels, width, height, components } => {
            let rgb = rgb_of(pixels, components);
            if rgb.len() == width * height * 3 {
                Ok(Pixels { rgb, width: width as u32, height: height as u32 })
            } else {
                Err("Decoded pixels do not match the image dimensions"@)
            }
        },
        DecodedView::NoInfo => Err("Failed to get image info"@),
        DecodedView::Failed(m) => Err("Failed to decode JPEG: "@ + m),
    }
}

/// The compressed tile that a probe of `data` gives, or the message of the
/// error.
pub open spec fn compressed_of(data: Seq<u8>, p: ProbedView) -> Result<Jpeg, Seq<char>> {
    match p {
        ProbedView::Frame { width, height } => Ok(
            Jpeg { data, width: width as u32, height: height as u32 },
        ),
        ProbedView::NoInfo => Err("Failed to get image info from header"@),
        ProbedView::Failed(m) => Err("Failed to parse JPEG header: "@ + m),
    }
}

/// A result of this module matches its model: the same tile, or a `Decode`
/// error with the same message.
pub open spec fn tile_matches(r: TileResult<TileData>, model: Result<Pixels, Seq<char>>) -> bool {
    match r {
        Ok(t) => model == Ok::<Pixels, Seq<char>>(t@),
        Err(e) => e matches TileError::Decode(m) && model == Err::<Pixels, Seq<char>>(m@),
    }
}

/// As `tile_matches`, for compressed tiles.
pub open spec fn compressed_matches(
    r: TileResult<CompressedTileData>,
    model: Result<Jpeg, Seq<char>>,
) -> bool {
    match r {
        Ok(c) => model == Ok::<Jpeg, Seq<char>>(c@),
        Err(e) => e matches TileError::Decode(m) && model == Err::<Jpeg, Seq<char>>(m@),
    }
}

/// The decoded tile that a decoding gives, as it lies in the cache, or
/// `None` where it gives none.
pub open spec fn decoded_parts(d: DecodedView) -> Option<(Seq<u8>, u32, u32)> {
    match tile_of(d) {
        Ok(px) => Some((px.rgb, px.width, px.height)),
        Err(_) => None,
    }
}

/// The compressed tile that the bytes of a tile file give, as it lies in
/// the cache, or `None` where their header cannot be read.
pub open spec fn probed_parts(jpeg: Seq<u8>) -> Option<(Seq<u8>, u32, u32)> {
    match compressed_of(jpeg, jpeg_probed(jpeg)) {
        Ok(j) => Some((j.data, j.width, j.height)),
        Err(_) => None,
    }
}

/// The result is a `Decode` error with the message `m`.
pub open spec fn decode_failure<T>(r: TileResult<T>, m: Seq<char>) -> bool {
    r matches Err(TileError::Decode(s)) && s@ == m
}

/// The message with which the header of a tile file is refused, if it is.
pub open spec fn probe_refusal(jpeg: Seq<u8>) -> Option<Seq<char>> {
    match compressed_of(jpeg, jpeg_probed(jpeg)) {
        Ok(_) => None,
        Err(m) => Some(m),
    }
}

/// The message with which a decoding is refused, if it is.
pub open spec fn decode_refusal(d: DecodedView) -> Option<Seq<char>> {
    match tile_of(d) {
        Ok(_) => None,
        Err(m) => Some(m),
    }
}

fn spread_gray(gray: &Vec<u8>) -> (rgb: Vec<u8>)
    ensures
        rgb@ == gray_to_rgb(gray@),
{
    let mut rgb: Vec<u8> = Vec::new();
    let mut i: usize = 0;
    while i < gray.len()
        invariant
            i <= gray.len(),
            rgb@.len() == 3 * i,
            forall|k: int| 0 <= k < 3 * i ==> rgb@[k] == gray@[k / 3],
        decreases gray.len() - i,
    {
        let g = gray[i];
        rgb.push(g);
        rgb.push(g);
        rgb.push(g);
        i += 1;
    }
    assert(rgb@ =~= gray_to_rgb(gray@));
    rgb
}

/// Makes the RGB tile of what the codec gave for compressed JPEG bytes:
/// grayscale images are spread to three channels, and the pixel count is
/// checked against the frame. A refusal of the codec is reported.
pub fn decode_jpeg_bytes(d: Decoded) -> (r: TileResult<TileData>)
    ensures
        tile_matches(r, tile_of(d@)),
        r matches Ok(t) ==> t@.wf(),
{
    match d {
        Decoded::Image { pixels, width, height, components } => {
            let rgb = if components == 1 {
                spread_gray(&pixels)
            } else {
                pixels
            };
            assert(width * height <= 0xffff * 0xffff) by (nonlinear_arith)
                requires
                    width <= 0xffff,
                    height <= 0xffff,
            ;
            let expected: u64 = (width as u64) * (height as u64) * 3;
            if rgb.len() as u64 == expected {
                Ok(TileData::new(rgb, width as u32, height as u32))
            } else {
                Err(
                    TileError::Decode(
                        String::from_str("Decoded pixels do not match the image dimensions"),
                    ),
                )
            }
        },
        Decoded::NoInfo => Err(TileError::Decode(String::from_str("Failed to get image info"))),
        Decoded::Failed(m) => {
            let mut s = String::from_str("Failed to decode JPEG: ");
            s.append(m.as_str());
            Err(TileError::Decode(s))
        },
    }
}

/// Turns what the codec read from the headers of `jpeg_bytes` into a
/// compressed tile.
pub fn compressed_from_probed(jpeg_bytes: Vec<u8>, p: Probed) -> (r: TileResult<
    CompressedTileData,
>)
    ensures
        compressed_matches(r, compressed_of(jpeg_bytes@, p@)),
{
    match p {
        Probed::Frame { width, height } => Ok(
            CompressedTileData::new(jpeg_bytes, width as u32, height as u32),
        ),
        Probed::NoInfo => Err(
            TileError::Decode(String::from_str("Failed to get image info from header")),
        ),
        Probed::Failed(m) => {
            let mut s = String::from_str("Failed to parse JPEG header: ");
            s.append(m.as_str());
            Err(TileError::Decode(s))
        },
    }
}

/// Takes what reading a JPEG tile file gave and reads the header for the
/// dimensions. No pixel is decoded. A fault of the read is handed on.
pub fn read_jpeg_bytes(read: TileResult<Vec<u8>>) -> (r: TileResult<CompressedTileData>)
    ensures
        match read {
            Ok(jpeg) => compressed_matches(r, compressed_of(jpeg@, jpeg_probed(jpeg@))),
            Err(fault) => r == Err::<CompressedTileData, TileError>(fault),
        },
{
    match read {
        Ok(jpeg_bytes) => {
            let p = codec_probe(jpeg_bytes.as_slice());
            compressed_from_probed(jpeg_bytes, p)
        },
        Err(fault) => Err(fault),
    }
}

/// Decodes a tile from what the host got for its file: the header is read
/// first, then the tile is made of what the codec gave. A fault of the read
/// is handed on.
pub fn decode_tile(read: TileResult<TileRead>) -> (r: TileResult<TileData>)
    ensures
        match read {
            Ok(got) => match compressed_of(got.jpeg@, jpeg_probed(got.jpeg@)) {
                Ok(c) => tile_matches(r, tile_of(got.decoded@)),
                Err(m) => r matches Err(TileError::Decode(s)) && s@ == m,
            },
            Err(fault) => r == Err::<TileData, TileError>(fault),
        },
{
    match read {
        Ok(got) => match read_jpeg_bytes(Ok(got.jpeg)) {
            Ok(_) => decode_jpeg_bytes(got.decoded),
            Err(e) => Err(e),
        },
        Err(fault) => Err(fault),
    }
}

} // verus!
