//! The program's icon.
use vstd::prelude::*;

verus! {

/// The picture of a PNG file, as the decoder gives it.
pub struct PngFrame {
    pub width: u32,
    pub height: u32,
    /// The colour type by its number in the PNG format.
    pub color: u8,
    pub pixels: Vec<u8>,
}

/// The PNG format's number for pixels of red, green and blue.
pub const COLOR_RGB: u8 = 2;

/// The PNG format's number for pixels of red, green, blue and alpha.
pub const COLOR_RGBA: u8 = 6;

/// What `png::Decoder` makes of the bytes of a file: the width, the height, the colour type and
/// the pixels of the first frame.
pub uninterp spec fn png_first_frame(data: Seq<u8>) -> Option<(u32, u32, u8, Seq<u8>)>;

/// Decodes a PNG file with `png::Decoder::read_info` and `png::Reader::next_frame`. The result
/// is a function of the file's bytes: nothing where the decoder reports an error, and otherwise
/// the first frame's width, height, colour type and pixels. What the pixels are is the PNG
/// format's business and is only named. Memory for the pixels is taken to be there, as it is for
/// every other buffer. With 64-bit sizes no size that the decoder computes overflows: it refuses
/// a picture whose rows together have more bytes than a size can count, and frame counts have 32
/// bits. With smaller sizes the count of frames can overflow, so the call is left to 64-bit sizes.
#[verifier::external_body]
fn decode_png(data: &[u8]) -> (r: Option<PngFrame>)
    requires
        usize::BITS == 64,
    ensures
        match r {
            Some(f) => png_first_frame(data@) == Some((f.width, f.height, f.color, f.pixels@)),
            None => png_first_frame(data@) is None,
        },
{
    let mut reader = png::Decoder::new(data).read_info().ok()?;
    let mut pixels = vec![0u8; reader.output_buffer_size()];
    let info = reader.next_frame(&mut pixels).ok()?;
    pixels.truncate(info.buffer_size());
    Some(PngFrame { width: info.width, height: info.height, color: info.color_type as u8, pixels })
}

/// Pixels with an alpha byte. Pixels without one are opaque, and bytes at the end that make no
/// whole pixel are dropped. Other colour types are not converted.
pub open spec fn rgba_pixels(color: u8, pixels: Seq<u8>) -> Option<Seq<u8>> {
    if color == COLOR_RGBA {
        Some(pixels)
    } else if color == COLOR_RGB {
        Some(
            Seq::new(
                pixels.len() / 3 * 4,
                |i: int|
                    if i % 4 == 3 {
                        255u8
                    } else {
                        pixels[i / 4 * 3 + i % 4]
                    },
            ),
        )
    } else {
        None
    }
}

/// The pixels of a picture, with an alpha byte each.
pub fn to_rgba(color: u8, pixels: &Vec<u8>) -> (r: Option<Vec<u8>>)
    ensures
        match r {
            Some(p) => rgba_pixels(color, pixels@) == Some(p@),
            None => rgba_pixels(color, pixels@) is None,
        },
{
    if color == COLOR_RGBA {
        return Some(pixels.clone());
    }
    if color != COLOR_RGB {
        return None;
    }
    let ghost want = rgba_pixels(color, pixels@)->0;
    let mut out: Vec<u8> = Vec::new();
    let n: usize = pixels.len() / 3;
    let mut k: usize = 0;
    while k < n
        invariant
            k <= n,
            n == pixels@.len() / 3,
            n * 3 <= pixels@.len(),
            n * 3 <= usize::MAX,
            want == (rgba_pixels(COLOR_RGB, pixels@)->0),
            want.len() == n * 4,
            out@.len() == k * 4,
            forall|i: int| 0 <= i < out@.len() ==> #[trigger] out@[i] == want[i],
        decreases n - k,
    {
        let at: usize = k * 3;
        let ghost before = out@;
        out.push(pixels[at]);
        out.push(pixels[at + 1]);
        out.push(pixels[at + 2]);
        out.push(255);
        assert forall|i: int| 0 <= i < out@.len() implies #[trigger] out@[i] == want[i] by {
            if i < k * 4 {
                assert(out@[i] == before[i]);
            } else {
                assert(i == k * 4 || i == k * 4 + 1 || i == k * 4 + 2 || i == k * 4 + 3);
                assert(i / 4 == k);
            }
        }
        k = k + 1;
    }
    assert(out@ =~= want);
    Some(out)
}

/// A picture that a window can have as its icon.
pub struct Icon {
    pub rgba: Vec<u8>,
    pub width: u32,
    pub height: u32,
}

/// What an icon is made of, where a frame was decoded.
pub open spec fn icon_of(frame: Option<(u32, u32, u8, Seq<u8>)>) -> Option<(Seq<u8>, u32, u32)> {
    match frame {
        Some(f) => match rgba_pixels(f.2, f.3) {
            Some(p) => Some((p, f.0, f.1)),
            None => None,
        },
        None => None,
    }
}

/// The icon in a PNG file. There is none where the file cannot be decoded, or where its colours
/// are neither RGB nor RGBA. Files are decoded with 64-bit sizes only.
pub fn load_icon(data: &[u8]) -> (r: Option<Icon>)
    requires
        usize::BITS == 64,
    ensures
        match r {
            Some(i) => icon_of(png_first_frame(data@)) == Some((i.rgba@, i.width, i.height)),
            None => icon_of(png_first_frame(data@)) is None,
        },
{
    match decode_png(data) {
        Some(frame) => match to_rgba(frame.color, &frame.pixels) {
            Some(rgba) => Some(Icon { rgba, width: frame.width, height: frame.height }),
            None => None,
        },
        None => None,
    }
}

/// A picture of red, green and blue becomes an opaque one of the same colours.
pub proof fn law_rgb_becomes_opaque(pixels: Seq<u8>, k: int)
    requires
        0 <= k < pixels.len() / 3,
    ensures
        ({
            let p = rgba_pixels(COLOR_RGB, pixels)->0;
            &&& p[4 * k] == pixels[3 * k]
            &&& p[4 * k + 1] == pixels[3 * k + 1]
            &&& p[4 * k + 2] == pixels[3 * k + 2]
            &&& p[4 * k + 3] == 255
        }),
{
}

/// An icon has the size of the decoded picture. Pixels with alpha stay as they are, pixels without
/// get a byte more each, and there is no icon in other colours or where nothing was decoded.
pub proof fn law_icon_has_the_size_of_its_picture(
    width: u32,
    height: u32,
    color: u8,
    pixels: Seq<u8>,
)
    ensures
        icon_of(None) is None,
        color == 6 ==> icon_of(Some((width, height, color, pixels))) == Some(
            (pixels, width, height),
        ),
        color == 2 ==> {
            let icon = icon_of(Some((width, height, color, pixels)));
            &&& icon is Some
            &&& (icon->0).0.len() == pixels.len() / 3 * 4
            &&& (icon->0).1 == width
            &&& (icon->0).2 == height
        },
        color != 2 && color != 6 ==> icon_of(Some((width, height, color, pixels))) is None,
{
}

} // verus!
