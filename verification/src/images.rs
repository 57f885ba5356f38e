//! Pictures with four bytes per pixel.
use vstd::prelude::*;

verus! {

/// A picture: red, green, blue and opacity of each pixel, row by row. There may
/// be bytes behind the last pixel.
#[derive(Debug)]
pub struct RgbaImage {
    pub width: u32,
    pub height: u32,
    pub pixels: Vec<u8>,
}

/// The number of bytes that a picture takes.
pub open spec fn image_bytes(width: u32, height: u32) -> int {
    4 * (width * height)
}

/// Whether there are enough bytes for a picture, and those of a row can be counted.
pub open spec fn image_fits(width: u32, height: u32, len: nat) -> bool {
    4 * width <= usize::MAX && image_bytes(width, height) <= len
}

impl RgbaImage {
    pub open spec fn wf(&self) -> bool {
        image_fits(self.width, self.height, self.pixels@.len())
    }
}

/// `image::RgbaImage::from_vec`: a picture comes out exactly where there are
/// enough bytes for it and those of a row can be counted, and it holds those bytes.
#[verifier::external_body]
fn rgba_from_vec(width: u32, height: u32, pixels: Vec<u8>) -> (r: Option<Vec<u8>>)
    ensures
        r is Some <==> image_fits(width, height, pixels@.len()),
        r matches Some(bytes) ==> bytes@ == pixels@,
{
    image::RgbaImage::from_vec(width, height, pixels).map(|img| img.into_raw())
}

/// The picture in a PNG file: its width, its height and its pixels.
pub uninterp spec fn png_picture(data: Seq<u8>) -> Option<(u32, u32, Seq<u8>)>;

/// `image::load_from_memory_with_format` for PNG, with the picture as four bytes
/// per pixel: what comes out, if anything, is a function of the bytes, and has
/// all its pixels.
#[verifier::external_body]
pub(crate) fn decode_png(data: &Vec<u8>) -> (r: Option<RgbaImage>)
    ensures
        r is Some <==> png_picture(data@) is Some,
        r matches Some(img) ==> img.wf() && png_picture(data@) == Some(
            (img.width, img.height, img.pixels@),
        ),
{
    let img = image::load_from_memory_with_format(data, image::ImageFormat::Png).ok()?.into_rgba8();
    Some(RgbaImage { width: img.width(), height: img.height(), pixels: img.into_raw() })
}

/// The PNG file of a picture, if it can be written as one.
pub uninterp spec fn png_file(width: u32, height: u32, pixels: Seq<u8>) -> Option<Seq<u8>>;

/// `image::ImageBuffer::write_with_encoder` with a `PngEncoder`: the file is a
/// function of the picture.
#[verifier::external_body]
pub(crate) fn encode_png(img: RgbaImage) -> (r: Option<Vec<u8>>)
    requires
        img.wf(),
    ensures
        r is Some <==> png_file(img.width, img.height, img.pixels@) is Some,
        r matches Some(data) ==> png_file(img.width, img.height, img.pixels@) == Some(data@),
{
    let mut data = Vec::new();
    let img = image::RgbaImage::from_vec(img.width, img.height, img.pixels)?;
    img.write_with_encoder(image::codecs::png::PngEncoder::new(&mut data)).ok()?;
    Some(data)
}

/// The bytes of a picture with the first byte of each of the first `count`
/// pixels moved behind its other three.
pub open spec fn opacity_last(bytes: Seq<u8>, count: int) -> Seq<u8> {
    Seq::new(
        bytes.len(),
        |i: int|
            if i >= 4 * count {
                bytes[i]
            } else if i % 4 == 3 {
                bytes[i - 3]
            } else {
                bytes[i + 1]
            },
    )
}

/// Pixels with the opacity in front become pixels with the opacity behind.
fn move_opacity(bytes: &mut Vec<u8>, count: usize)
    requires
        4 * count <= old(bytes)@.len(),
    ensures
        final(bytes)@ == opacity_last(old(bytes)@, count as int),
{
    let ghost before = bytes@;
    let len: usize = bytes.len();
    let mut k: usize = 0;
    proof {
        assert(bytes@ =~= opacity_last(before, 0));
    }
    while k < count
        invariant
            k <= count,
            4 * count <= before.len(),
            before.len() == len,
            bytes@ == opacity_last(before, k as int),
        decreases count - k,
    {
        let at: usize = 4 * k;
        let alpha = bytes[at];
        let red = bytes[at + 1];
        let green = bytes[at + 2];
        let blue = bytes[at + 3];
        bytes.set(at, red);
        bytes.set(at + 1, green);
        bytes.set(at + 2, blue);
        bytes.set(at + 3, alpha);
        proof {
            assert forall|i: int| 0 <= i < before.len() implies bytes@[i] == opacity_last(
                before,
                k + 1,
            )[i] by {
                if i < 4 * k {
                } else if i >= 4 * k + 4 {
                } else {
                    assert(i == 4 * k || i == 4 * k + 1 || i == 4 * k + 2 || i == 4 * k + 3);
                }
            }
            assert(bytes@ =~= opacity_last(before, k + 1));
        }
        k += 1;
    }
}

/// An icon as applications hand it over: four bytes per pixel, of which the
/// first is the opacity.
#[derive(Debug)]
pub struct IconPixmap {
    pub width: i32,
    pub height: i32,
    pub pixels: Vec<u8>,
}

/// The number that has the same bits.
pub open spec fn unsigned(n: i32) -> u32 {
    if n < 0 {
        (n + 0x1_0000_0000) as u32
    } else {
        n as u32
    }
}

/// Whether there are enough bytes for an icon.
pub open spec fn icon_fits(icon: IconPixmap) -> bool {
    image_fits(unsigned(icon.width), unsigned(icon.height), icon.pixels@.len())
}

/// The bytes of the picture of an icon.
pub open spec fn icon_pixels(icon: IconPixmap) -> Seq<u8> {
    opacity_last(icon.pixels@, unsigned(icon.width) * unsigned(icon.height))
}

fn to_unsigned(n: i32) -> (r: u32)
    ensures
        r == unsigned(n),
{
    if n < 0 {
        (n as i64 + 0x1_0000_0000) as u32
    } else {
        n as u32
    }
}

/// The picture of an icon, unless there are too few bytes for it.
pub fn icon_image(icon: &IconPixmap) -> (r: Option<RgbaImage>)
    ensures
        r is Some <==> icon_fits(*icon),
        r matches Some(img) ==> {
            &&& img.wf()
            &&& img.width == unsigned(icon.width)
            &&& img.height == unsigned(icon.height)
            &&& img.pixels@ == icon_pixels(*icon)
        },
{
    let width = to_unsigned(icon.width);
    let height = to_unsigned(icon.height);
    let pixels: Vec<u8> = icon.pixels.clone();
    proof {
        assert(pixels@ =~= icon.pixels@);
    }
    let mut bytes = match rgba_from_vec(width, height, pixels) {
        Some(bytes) => bytes,
        None => {
            return None;
        },
    };
    proof {
        assert(0 <= width * height <= 0xffff_ffff * 0xffff_ffff) by (nonlinear_arith)
            requires
                width <= 0xffff_ffffu32,
                height <= 0xffff_ffffu32,
        ;
    }
    let count: u64 = width as u64 * height as u64;
    move_opacity(&mut bytes, count as usize);
    Some(RgbaImage { width, height, pixels: bytes })
}

/// Moving the opacity behind the colors four times changes nothing.
pub proof fn law_opacity_moves_round(bytes: Seq<u8>, count: int)
    requires
        0 <= 4 * count <= bytes.len(),
    ensures
        opacity_last(
            opacity_last(opacity_last(opacity_last(bytes, count), count), count),
            count,
        ) == bytes,
{
    let one = opacity_last(bytes, count);
    let two = opacity_last(one, count);
    let three = opacity_last(two, count);
    let four = opacity_last(three, count);
    assert forall|i: int| 0 <= i < bytes.len() implies four[i] == bytes[i] by {
        if i < 4 * count {
            let base = i - i % 4;
            assert(base >= 0 && base + 3 < 4 * count);
        }
    }
    assert(four =~= bytes);
}

/// Each pixel keeps its colors in their order and gets its opacity, which stood in
/// front, behind them. What comes after the pixels stays as it is.
pub proof fn law_opacity_moves_behind(bytes: Seq<u8>, count: int, pixel: int)
    requires
        0 <= pixel < count,
        4 * count <= bytes.len(),
    ensures
        ({
            let after = opacity_last(bytes, count);
            &&& after.len() == bytes.len()
            &&& after[4 * pixel] == bytes[4 * pixel + 1]
            &&& after[4 * pixel + 1] == bytes[4 * pixel + 2]
            &&& after[4 * pixel + 2] == bytes[4 * pixel + 3]
            &&& after[4 * pixel + 3] == bytes[4 * pixel]
            &&& after.skip(4 * count) == bytes.skip(4 * count)
        }),
{
    let after = opacity_last(bytes, count);
    assert(after.skip(4 * count) =~= bytes.skip(4 * count));
}

/// A picture takes four bytes for each pixel. With fewer there is none; with more
/// there still is.
pub proof fn law_picture_needs_its_bytes(width: u32, height: u32, len: nat)
    requires
        4 * width <= usize::MAX,
    ensures
        image_fits(width, height, len) <==> len >= 4 * width * height,
        image_fits(width, height, len) ==> image_fits(width, height, len + 1),
{
    assert(4 * (width * height) == 4 * width * height) by (nonlinear_arith);
}

/// A number that is not below zero stays the same; one below zero goes on from the
/// top.
pub proof fn law_bits_are_kept(n: i32)
    ensures
        n >= 0 ==> unsigned(n) == n,
        n < 0 ==> unsigned(n) - n == 0x1_0000_0000,
{
}

/// The picture of an icon is as wide and as high as the icon says: it fits exactly
/// where there are bytes for that.
pub proof fn law_icon_fits_by_its_size(icon: IconPixmap)
    ensures
        icon.width >= 0 && icon.height >= 0 && 4 * icon.width <= usize::MAX ==> (icon_fits(icon)
            <==> icon.pixels@.len() >= 4 * icon.width * icon.height),
        icon.width >= 0 && icon.height >= 0 ==> icon_pixels(icon) == opacity_last(
            icon.pixels@,
            icon.width * icon.height,
        ),
{
    if icon.width >= 0 && icon.height >= 0 && 4 * icon.width <= usize::MAX {
        law_picture_needs_its_bytes(icon.width as u32, icon.height as u32, icon.pixels@.len());
    }
}

} // verus!
