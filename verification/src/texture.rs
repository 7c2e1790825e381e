//! Texture data: the pixel formats a texture can be decoded from, where a
//! pixel of an RGB image lies, and the 3-bit indices of a BC3 alpha block.
use vstd::prelude::*;
use image::ImageDecoder;
use crate::assets::{ParserError, ParserResult, ParserType};
use crate::archives::str_eq;
use crate::assets::exports::{Export, Texture2D};
use crate::assets::Package;

verus! {

/// A simple struct with the data for returning a texture.
#[derive(Debug)]
pub struct TextureData {
    pub width: u32,
    pub height: u32,
    pub data: Vec<u8>,
}

/// The pixel formats a texture is decoded from.
#[derive(Debug, PartialEq, Eq, Structural, Clone, Copy)]
pub enum TextureFormat {
    Dxt5,
    Dxt1,
    Bgra8,
    Bc5,
    G8,
}

/// The layout of the decoded pixels.
#[derive(Debug, PartialEq, Eq, Structural, Clone, Copy)]
pub enum ColourLayout {
    Rgb8,
    Rgba8,
    L8,
}

/// The format named `name`, if it is one that can be decoded.
pub open spec fn format_named(name: Seq<char>) -> Option<TextureFormat> {
    if name == "PF_DXT5"@ {
        Some(TextureFormat::Dxt5)
    } else if name == "PF_DXT1"@ {
        Some(TextureFormat::Dxt1)
    } else if name == "PF_B8G8R8A8"@ {
        Some(TextureFormat::Bgra8)
    } else if name == "PF_BC5"@ {
        Some(TextureFormat::Bc5)
    } else if name == "PF_G8"@ {
        Some(TextureFormat::G8)
    } else {
        None
    }
}

/// The format of a texture from its pixel format's name; an error names the
/// format when it cannot be decoded.
pub fn texture_format(name: &str) -> (r: ParserResult<TextureFormat>)
    ensures
        match format_named(name@) {
            Some(f) => r == Ok::<TextureFormat, ParserError>(f),
            None => r matches Err(e) && e.kind() == ParserType::Unknown && e.messages() == seq![
                "Unsupported pixel format: "@ + name@,
            ],
        },
{
    if str_eq(name, "PF_DXT5") {
        Ok(TextureFormat::Dxt5)
    } else if str_eq(name, "PF_DXT1") {
        Ok(TextureFormat::Dxt1)
    } else if str_eq(name, "PF_B8G8R8A8") {
        Ok(TextureFormat::Bgra8)
    } else if str_eq(name, "PF_BC5") {
        Ok(TextureFormat::Bc5)
    } else if str_eq(name, "PF_G8") {
        Ok(TextureFormat::G8)
    } else {
        let message = crate::archives::string_concat(
            String::from_str("Unsupported pixel format: "),
            name,
        );
        Err(ParserError::new(message))
    }
}

impl TextureFormat {
    /// The layout of the pixels a texture of this format decodes to.
    pub open spec fn colour_layout_spec(&self) -> ColourLayout {
        match *self {
            TextureFormat::Dxt1 => ColourLayout::Rgb8,
            TextureFormat::Bgra8 => ColourLayout::Rgba8,
            TextureFormat::Bc5 => ColourLayout::Rgb8,
            TextureFormat::G8 => ColourLayout::L8,
            TextureFormat::Dxt5 => ColourLayout::Rgba8,
        }
    }

    /// The layout of the pixels a texture of this format decodes to.
    pub fn colour_layout(&self) -> (r: ColourLayout)
        ensures
            r == self.colour_layout_spec(),
    {
        match self {
            TextureFormat::Dxt1 => ColourLayout::Rgb8,
            TextureFormat::Bgra8 => ColourLayout::Rgba8,
            TextureFormat::Bc5 => ColourLayout::Rgb8,
            TextureFormat::G8 => ColourLayout::L8,
            TextureFormat::Dxt5 => ColourLayout::Rgba8,
        }
    }
}

/// Where channel `off` of pixel (`x`, `y`) lies in an RGB image `width`
/// pixels wide.
pub fn get_pixel_loc(width: u32, x: usize, y: usize, off: usize) -> (r: usize)
    requires
        (y * width + x) * 3 + off <= usize::MAX,
    ensures
        r == (y * width + x) * 3 + off,
{
    proof {
        assert(0 <= y * width <= (y * width + x) * 3 + off) by (nonlinear_arith)
            requires
                (y * width + x) * 3 + off <= usize::MAX,
                x >= 0,
                off >= 0,
                y >= 0,
                width >= 0,
        ;
    }
    (y * (width as usize) + x) * 3 + off
}

/// Bit `j` of `b`, counting from the most significant bit of the first byte.
pub open spec fn msb_bit(b: Seq<u8>, j: int) -> int {
    ((b[j / 8] >> ((7 - j % 8) as u8)) & 1) as int
}

/// The `n` bits of `b` from bit `start` on, most significant first.
pub open spec fn msb_bits(b: Seq<u8>, start: int, n: nat) -> int
    decreases n,
{
    if n == 0 {
        0
    } else {
        2 * msb_bits(b, start, (n - 1) as nat) + msb_bit(b, start + n - 1)
    }
}

/// Reads `count` bits from bit `start` of `bytes` with `bitreader::BitReader`:
/// `new`, then `skip(start)`, then `read_u8(count)`. The reader takes the bits
/// most significant first; `None` where they pass the end of `bytes`.
#[verifier::external_body]
fn read_bits_msb(bytes: &[u8], start: u64, count: u8) -> (r: Option<u8>)
    requires
        count <= 8,
        start + 8 <= u64::MAX,
        bytes@.len() * 8 <= u64::MAX,
    ensures
        r is Some <==> start + count <= bytes@.len() * 8,
        r matches Some(v) ==> v == msb_bits(bytes@, start as int, count as nat),
{
    let mut reader = bitreader::BitReader::new(bytes);
    if reader.skip(start).is_err() {
        return None;
    }
    reader.read_u8(count).ok()
}

/// The eight 3-bit indices of a BC3 alpha block, whose three bytes are read
/// as one big-endian value from the last byte to the first.
pub fn get_bc3_indices(buf_block: &[u8; 3]) -> (r: [u8; 8])
    ensures
        forall|i: int|
            0 <= i < 8 ==> #[trigger] r@[i] == msb_bits(
                seq![buf_block@[2], buf_block@[1], buf_block@[0]],
                3 * i,
                3,
            ),
{
    let mut buf_test = [0u8;3];
    buf_test[0] = buf_block[2];
    buf_test[1] = buf_block[1];
    buf_test[2] = buf_block[0];
    let ghost b = seq![buf_block@[2], buf_block@[1], buf_block@[0]];
    assert(buf_test@ =~= b);
    let mut indices = [0u8;8];
    let mut i: usize = 0;
    while i < 8
        invariant
            buf_test@ == b,
            0 <= i <= 8,
            forall|j: int| 0 <= j < i ==> #[trigger] indices@[j] == msb_bits(b, 3 * j, 3),
        decreases 8 - i,
    {
        let v = match read_bits_msb(&buf_test, (3 * i) as u64, 3) {
            Some(v) => v,
            None => 0,
        };
        indices[i] = v;
        i = i + 1;
    }
    indices
}

// ---------------------------------------------------------------------------
// Decoding to PNG

/// The RGBA (DXT5) or RGB (DXT1) pixels that `image`'s DXT decoder gives for
/// `data` as an image `width` by `height`; `None` where it fails.
pub uninterp spec fn dxt_pixels(data: Seq<u8>, width: u32, height: u32, dxt5: bool) -> Option<Seq<u8>>;

/// Decodes DXT blocks with `image::codecs::dxt::DxtDecoder` (`new` over a
/// cursor on `data`, then `read_image` into a buffer of `total_bytes`). A
/// width of zero is left out: the decoder then reads in chunks of no bytes,
/// which panics. What the pixels are is named, not stated; the error's text
/// is kept.
#[verifier::external_body]
pub(crate) fn dxt_decode(data: Vec<u8>, width: u32, height: u32, dxt5: bool) -> (r: Result<Vec<u8>, String>)
    requires
        width > 0,
    ensures
        r is Ok <==> dxt_pixels(data@, width, height, dxt5) is Some,
        r matches Ok(v) ==> Some(v@) == dxt_pixels(data@, width, height, dxt5),
{
    let variant = if dxt5 { image::codecs::dxt::DxtVariant::DXT5 } else { image::codecs::dxt::DxtVariant::DXT1 };
    let decoder = match image::codecs::dxt::DxtDecoder::new(std::io::Cursor::new(data), width, height, variant) {
        Ok(d) => d,
        Err(e) => return Err(format!("{}", e)),
    };
    let mut buf = vec![0u8; decoder.total_bytes() as usize];
    match decoder.read_image(&mut buf) {
        Ok(()) => Ok(buf),
        Err(e) => Err(format!("{}", e)),
    }
}

/// The PNG file that `image::codecs::png::PngEncoder` writes for `pixels` as
/// an image `width` by `height` in `layout`; `None` where it fails.
pub uninterp spec fn png_of(pixels: Seq<u8>, width: u32, height: u32, layout: ColourLayout) -> Option<Seq<u8>>;

/// Encodes `pixels` as PNG with `image::codecs::png::PngEncoder::encode` into
/// a `Vec`. What the file holds is named, not stated.
#[verifier::external_body]
pub(crate) fn png_encode(pixels: &[u8], width: u32, height: u32, layout: ColourLayout) -> (r: Option<Vec<u8>>)
    ensures
        r is Some <==> png_of(pixels@, width, height, layout) is Some,
        r matches Some(v) ==> Some(v@) == png_of(pixels@, width, height, layout),
{
    let colour_type = match layout {
        ColourLayout::Rgb8 => image::ColorType::Rgb8,
        ColourLayout::Rgba8 => image::ColorType::Rgba8,
        ColourLayout::L8 => image::ColorType::L8,
    };
    let mut out: Vec<u8> = Vec::new();
    image::codecs::png::PngEncoder::new(&mut out).encode(pixels, width, height, colour_type).ok()?;
    Some(out)
}

/// The RGBA pixels of the first `n` BGRA pixels of `data`.
pub open spec fn bgra_to_rgba(data: Seq<u8>, n: nat) -> Seq<u8> {
    Seq::new(4 * n, |i: int| data[if i % 4 == 0 { i + 2 } else if i % 4 == 2 { i - 2 } else { i }])
}

/// Swaps the blue and red bytes of the first `width * height` BGRA pixels.
pub fn bgra_pixels(data: &[u8], width: u32, height: u32) -> (r: Option<Vec<u8>>)
    ensures
        (r is Some) <==> 4 * (width * height) <= data@.len(),
        r matches Some(v) ==> v@ == bgra_to_rgba(data@, (width * height) as nat),
{
    assert(width as u64 * height as u64 <= u64::MAX) by (nonlinear_arith)
        requires
            width <= u32::MAX,
            height <= u32::MAX,
    ;
    let n: u64 = width as u64 * height as u64;
    if n > data.len() as u64 / 4 {
        return None;
    }
    let nn: usize = n as usize;
    let len: usize = data.len();
    let mut out: Vec<u8> = Vec::new();
    let mut k: usize = 0;
    while k < nn
        invariant
            n == width * height,
            nn == n,
            len == data@.len(),
            4 * n <= data@.len(),
            k <= n,
            out@ =~= bgra_to_rgba(data@, k as nat),
        decreases nn - k,
    {
        let i = 4 * k;
        out.push(data[i + 2]);
        out.push(data[i + 1]);
        out.push(data[i]);
        out.push(data[i + 3]);
        k = k + 1;
        assert(out@ =~= bgra_to_rgba(data@, k as nat));
    }
    Some(out)
}

/// The pixels of a mip in `format`, `width` by `height`: decoded DXT blocks,
/// swapped BGRA bytes, grey bytes as they are, or the given BC5 pixels.
pub open spec fn format_pixels(format: TextureFormat, data: Seq<u8>, width: u32, height: u32, bc5: Option<Seq<u8>>) -> Option<Seq<u8>> {
    match format {
        TextureFormat::Dxt5 => if width > 0 { dxt_pixels(data, width, height, true) } else { None },
        TextureFormat::Dxt1 => if width > 0 { dxt_pixels(data, width, height, false) } else { None },
        TextureFormat::Bgra8 => if 4 * (width * height) <= data.len() {
            Some(bgra_to_rgba(data, (width * height) as nat))
        } else {
            None
        },
        TextureFormat::Bc5 => bc5,
        TextureFormat::G8 => Some(data),
    }
}

/// The message of the error when a mip's bytes in `format` give no pixels;
/// `None` for a DXT decoder failure, whose text is the decoder's own.
pub open spec fn pixel_error(format: TextureFormat, width: u32, bc5: Option<Seq<u8>>) -> Option<Seq<char>> {
    match format {
        TextureFormat::Dxt5 | TextureFormat::Dxt1 => if width == 0 {
            Some("Image width is zero"@)
        } else {
            None
        },
        TextureFormat::Bgra8 => Some("Image buffer too small"@),
        TextureFormat::Bc5 => Some("BC5 pixels missing"@),
        TextureFormat::G8 => None,
    }
}

/// `r` is what decoding a mip's bytes in `format` to PNG gives: the PNG file,
/// or an error of one message, whose text is stated but for the DXT decoder's.
pub open spec fn pixels_result(
    format: TextureFormat,
    data: Seq<u8>,
    width: u32,
    height: u32,
    bc5: Option<Seq<u8>>,
    r: ParserResult<Vec<u8>>,
) -> bool {
    match format_pixels(format, data, width, height, bc5) {
        Some(px) => match png_of(px, width, height, format.colour_layout_spec()) {
            Some(png) => r matches Ok(v) && v@ == png,
            None => r matches Err(e) && e.messages() == seq!["PNG conversion failed"@],
        },
        None => r matches Err(e) && e.messages().len() == 1 && (pixel_error(format, width, bc5) matches Some(m)
            ==> e.messages() == seq![m]),
    }
}

/// Decodes a mip's bytes in `format` and encodes them as PNG; `bc5` holds the
/// pixels of a BC5 texture, which are decoded elsewhere.
pub fn decode_pixels(format: TextureFormat, data: Vec<u8>, width: u32, height: u32, bc5: Option<Vec<u8>>) -> (r:
    ParserResult<Vec<u8>>)
    ensures
        pixels_result(format, data@, width, height, opt_seq(bc5), r),
{
    let pixels: Vec<u8> = match format {
        TextureFormat::Dxt5 | TextureFormat::Dxt1 => {
            if width == 0 {
                return Err(ParserError::new(String::from_str("Image width is zero")));
            }
            let dxt5 = match format {
                TextureFormat::Dxt5 => true,
                _ => false,
            };
            match dxt_decode(data, width, height, dxt5) {
                Ok(v) => v,
                Err(msg) => return Err(ParserError::new(msg)),
            }
        },
        TextureFormat::Bgra8 => match bgra_pixels(data.as_slice(), width, height) {
            Some(v) => v,
            None => return Err(ParserError::new(String::from_str("Image buffer too small"))),
        },
        TextureFormat::Bc5 => match bc5 {
            Some(v) => v,
            None => return Err(ParserError::new(String::from_str("BC5 pixels missing"))),
        },
        TextureFormat::G8 => data,
    };
    let layout = format.colour_layout();
    match png_encode(pixels.as_slice(), width, height, layout) {
        Some(png) => Ok(png),
        None => Err(ParserError::new(String::from_str("PNG conversion failed"))),
    }
}

pub open spec fn opt_seq(v: Option<Vec<u8>>) -> Option<Seq<u8>> {
    match v {
        Some(x) => Some(x@),
        None => None,
    }
}

/// The PNG file of the first mip of the first platform's data of `texture`,
/// with `bc5` the pixels of a BC5 texture.
pub open spec fn texture_png(texture: Texture2D, bc5: Option<Seq<u8>>) -> Option<Seq<u8>> {
    if texture.textures@.len() == 0 || texture.textures@[0].mips@.len() == 0 {
        None
    } else {
        let mip = texture.textures@[0].mips@[0];
        match format_named(texture.textures@[0].pixel_format@) {
            Some(f) => match format_pixels(f, mip.data.data@, mip.size_x as u32, mip.size_y as u32, bc5) {
                Some(px) => png_of(px, mip.size_x as u32, mip.size_y as u32, f.colour_layout_spec()),
                None => None,
            },
            None => None,
        }
    }
}

/// `r` is what decoding the first mip of `texture` to PNG gives: the PNG file
/// of `texture_png`, or the error of the step that fails.
pub open spec fn texture_result(texture: Texture2D, bc5: Option<Seq<u8>>, r: ParserResult<Vec<u8>>) -> bool {
    if texture.textures@.len() == 0 {
        r matches Err(e) && e.messages() == seq!["No textures found"@]
    } else if texture.textures@[0].mips@.len() == 0 {
        r matches Err(e) && e.messages() == seq!["No mipmaps part of texture"@]
    } else {
        let mip = texture.textures@[0].mips@[0];
        match format_named(texture.textures@[0].pixel_format@) {
            Some(f) => pixels_result(f, mip.data.data@, mip.size_x as u32, mip.size_y as u32, bc5, r),
            None => r matches Err(e) && e.messages() == seq![
                "Unsupported pixel format: "@ + texture.textures@[0].pixel_format@,
            ],
        }
    }
}

/// Decodes the first mip of `texture` and encodes it as PNG; `bc5` holds the
/// pixels of a BC5 texture (decoded elsewhere, with floating point).
pub fn decode_texture(texture: Texture2D, bc5: Option<Vec<u8>>) -> (r: ParserResult<Vec<u8>>)
    ensures
        match texture_png(texture, opt_seq(bc5)) {
            Some(png) => r matches Ok(v) && v@ == png,
            None => r is Err,
        },
        texture_result(texture, opt_seq(bc5), r),
{
    let pixel_format = texture.get_pixel_format()?.to_owned();
    let ghost tex = texture;
    let texture_mipmap = texture.get_texture_move()?;
    let format = texture_format(pixel_format.as_str())?;
    let width = texture_mipmap.get_width();
    let height = texture_mipmap.get_height();
    decode_pixels(format, texture_mipmap.get_bytes_move(), width, height, bc5)
}

/// Decodes the texture that is the first export of `package` as PNG, with the
/// result or error that `decode_texture` gives for it; `bc5` holds the pixels
/// of a BC5 texture.
pub fn read_texture(package: Package<Export>, bc5: Option<Vec<u8>>) -> (r: ParserResult<Vec<u8>>)
    ensures
        package.exports@.len() == 0 ==> (r matches Err(e) && e.messages() == seq!["No exports found"@]),
        package.exports@.len() > 0 ==> match package.exports@[0] {
            Export::Texture(t) => texture_result(t, opt_seq(bc5), r) && match texture_png(t, opt_seq(bc5)) {
                Some(png) => r matches Ok(v) && v@ == png,
                None => r is Err,
            },
            _ => r matches Err(e) && e.messages() == seq!["Export is not texture"@],
        },
{
    match package.get_export_move(0)? {
        Export::Texture(texture) => decode_texture(texture, bc5),
        _ => Err(ParserError::new(String::from_str("Export is not texture"))),
    }
}

} // verus!
