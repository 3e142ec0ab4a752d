//! Decoding a photo's bytes into upright RGBA pixels: the image is decoded
//! with `image`, its EXIF orientation read with `kamadak-exif`, and the
//! correction that orientation calls for applied with `image`'s flips and
//! rotations.
use vstd::prelude::*;
use crate::files::{orientation_fix, orientation_fix_spec, OrientationFix};
use std::io::Cursor;

verus! {

/// An image as rows of RGBA bytes, top row first.
pub struct RgbaPixels {
    pub width: u32,
    pub height: u32,
    pub pixels: Vec<u8>,
}

/// The width, height and RGBA bytes that `image` decodes from `bytes` (its
/// format guessed from the content) within an allocation limit of
/// `max_alloc` bytes, if it decodes them.
pub uninterp spec fn decoded_rgba(bytes: Seq<u8>, max_alloc: u64) -> Option<(u32, u32, Seq<u8>)>;

/// The value of the primary image's EXIF `Orientation` field in `bytes`, as
/// `kamadak-exif` reads it, if there is one.
pub uninterp spec fn exif_orientation_in(bytes: Seq<u8>) -> Option<u32>;

/// A flip or rotation of `image` (rotations are clockwise).
#[derive(Debug, Clone, Copy, PartialEq, Eq, Structural)]
pub enum Turn {
    FlipHorizontal,
    FlipVertical,
    Rotate90,
    Rotate180,
    Rotate270,
}

/// The size of a `w` by `h` image after `t`.
pub open spec fn turned_size(t: Turn, w: int, h: int) -> (int, int) {
    match t {
        Turn::Rotate90 | Turn::Rotate270 => (h, w),
        _ => (w, h),
    }
}

/// The pixel of a `w` by `h` image that `t` moves to `(x, y)`.
pub open spec fn turned_source(t: Turn, w: int, h: int, x: int, y: int) -> (int, int) {
    match t {
        Turn::FlipHorizontal => (w - 1 - x, y),
        Turn::FlipVertical => (x, h - 1 - y),
        Turn::Rotate90 => (y, h - 1 - x),
        Turn::Rotate180 => (w - 1 - x, h - 1 - y),
        Turn::Rotate270 => (w - 1 - y, x),
    }
}

/// `q` is the `w` by `h` RGBA image `p` after `t`: each of its pixels is
/// the source pixel that `t` moves there.
pub open spec fn turned(t: Turn, w: int, h: int, p: Seq<u8>, q: Seq<u8>) -> bool {
    let (ow, oh) = turned_size(t, w, h);
    &&& q.len() == ow * oh * 4
    &&& forall|x: int, y: int, c: int|
        0 <= x < ow && 0 <= y < oh && 0 <= c < 4 ==> {
            let (sx, sy) = turned_source(t, w, h, x, y);
            #[trigger] q[(y * ow + x) * 4 + c] == p[(sy * w + sx) * 4 + c]
        }
}

/// Reads the EXIF orientation of the photo in `bytes`
/// (`exif::Reader::read_from_container`, `Exif::get_field` and
/// `Value::get_uint`).
#[verifier::external_body]
fn read_exif_orientation(bytes: &[u8]) -> (r: Option<u32>)
    ensures
        r == exif_orientation_in(bytes@),
{
    let exif = exif::Reader::new().read_from_container(&mut Cursor::new(bytes)).ok()?;
    let field = exif.get_field(exif::Tag::Orientation, exif::In::PRIMARY)?;
    field.value.get_uint(0)
}

/// Decodes `bytes` to RGBA with `image` (`ImageReader::with_guessed_format`,
/// `ImageReader::limits`, `ImageReader::decode`, `DynamicImage::to_rgba8`).
/// An RGBA buffer of `image` holds four bytes per pixel, row by row.
#[verifier::external_body]
fn decode_rgba8(bytes: &[u8], max_alloc: u64) -> (r: Option<RgbaPixels>)
    ensures
        match decoded_rgba(bytes@, max_alloc) {
            Some((w, h, p)) => r matches Some(img) && img.width == w && img.height == h && img.pixels@ == p,
            None => r is None,
        },
        r matches Some(img) ==> img.pixels@.len() == img.width * img.height * 4,
{
    let mut reader = image::ImageReader::new(Cursor::new(bytes)).with_guessed_format().ok()?;
    let mut limits = image::Limits::default();
    limits.max_alloc = Some(max_alloc);
    reader.limits(limits);
    let img = reader.decode().ok()?.to_rgba8();
    Some(RgbaPixels { width: img.width(), height: img.height(), pixels: img.into_raw() })
}

/// `image::imageops::flip_horizontal` of `img`.
#[verifier::external_body]
fn flip_horizontal(img: RgbaPixels) -> (r: RgbaPixels)
    requires
        img.pixels@.len() == img.width * img.height * 4,
    ensures
        r.width == img.width && r.height == img.height,
        turned(Turn::FlipHorizontal, img.width as int, img.height as int, img.pixels@, r.pixels@),
{
    let buf = image::RgbaImage::from_raw(img.width, img.height, img.pixels).unwrap();
    let out = image::imageops::flip_horizontal(&buf);
    RgbaPixels { width: out.width(), height: out.height(), pixels: out.into_raw() }
}

/// `image::imageops::flip_vertical` of `img`.
#[verifier::external_body]
fn flip_vertical(img: RgbaPixels) -> (r: RgbaPixels)
    requires
        img.pixels@.len() == img.width * img.height * 4,
    ensures
        r.width == img.width && r.height == img.height,
        turned(Turn::FlipVertical, img.width as int, img.height as int, img.pixels@, r.pixels@),
{
    let buf = image::RgbaImage::from_raw(img.width, img.height, img.pixels).unwrap();
    let out = image::imageops::flip_vertical(&buf);
    RgbaPixels { width: out.width(), height: out.height(), pixels: out.into_raw() }
}

/// `image::imageops::rotate90` of `img` (clockwise).
#[verifier::external_body]
fn rotate90(img: RgbaPixels) -> (r: RgbaPixels)
    requires
        img.pixels@.len() == img.width * img.height * 4,
    ensures
        r.width == img.height && r.height == img.width,
        turned(Turn::Rotate90, img.width as int, img.height as int, img.pixels@, r.pixels@),
{
    let buf = image::RgbaImage::from_raw(img.width, img.height, img.pixels).unwrap();
    let out = image::imageops::rotate90(&buf);
    RgbaPixels { width: out.width(), height: out.height(), pixels: out.into_raw() }
}

/// `image::imageops::rotate180` of `img`.
#[verifier::external_body]
fn rotate180(img: RgbaPixels) -> (r: RgbaPixels)
    requires
        img.pixels@.len() == img.width * img.height * 4,
    ensures
        r.width == img.width && r.height == img.height,
        turned(Turn::Rotate180, img.width as int, img.height as int, img.pixels@, r.pixels@),
{
    let buf = image::RgbaImage::from_raw(img.width, img.height, img.pixels).unwrap();
    let out = image::imageops::rotate180(&buf);
    RgbaPixels { width: out.width(), height: out.height(), pixels: out.into_raw() }
}

/// `image::imageops::rotate270` of `img` (clockwise).
#[verifier::external_body]
fn rotate270(img: RgbaPixels) -> (r: RgbaPixels)
    requires
        img.pixels@.len() == img.width * img.height * 4,
    ensures
        r.width == img.height && r.height == img.width,
        turned(Turn::Rotate270, img.width as int, img.height as int, img.pixels@, r.pixels@),
{
    let buf = image::RgbaImage::from_raw(img.width, img.height, img.pixels).unwrap();
    let out = image::imageops::rotate270(&buf);
    RgbaPixels { width: out.width(), height: out.height(), pixels: out.into_raw() }
}

/// The orientation tag value used: the EXIF value cut to 16 bits, or 1
/// (upright) when there is none.
pub open spec fn orientation_value(tag: Option<u32>) -> u16 {
    match tag {
        Some(v) => v as u16,
        None => 1,
    }
}

/// `(w2, h2, q)` is the `w` by `h` image `p` after the correction `fix`.
pub open spec fn corrected(fix: OrientationFix, w: u32, h: u32, p: Seq<u8>, w2: u32, h2: u32, q: Seq<u8>) -> bool {
    match fix {
        OrientationFix::Keep => w2 == w && h2 == h && q == p,
        OrientationFix::FlipHorizontal => w2 == w && h2 == h && turned(Turn::FlipHorizontal, w as int, h as int, p, q),
        OrientationFix::FlipVertical => w2 == w && h2 == h && turned(Turn::FlipVertical, w as int, h as int, p, q),
        OrientationFix::Rotate180 => w2 == w && h2 == h && turned(Turn::Rotate180, w as int, h as int, p, q),
        OrientationFix::Rotate90 => w2 == h && h2 == w && turned(Turn::Rotate90, w as int, h as int, p, q),
        OrientationFix::Rotate270 => w2 == h && h2 == w && turned(Turn::Rotate270, w as int, h as int, p, q),
        OrientationFix::Rotate90FlipHorizontal => w2 == h && h2 == w && exists|m: Seq<u8>|
            turned(Turn::Rotate90, w as int, h as int, p, m) && #[trigger] turned(
                Turn::FlipHorizontal,
                h as int,
                w as int,
                m,
                q,
            ),
        OrientationFix::Rotate270FlipHorizontal => w2 == h && h2 == w && exists|m: Seq<u8>|
            turned(Turn::Rotate270, w as int, h as int, p, m) && #[trigger] turned(
                Turn::FlipHorizontal,
                h as int,
                w as int,
                m,
                q,
            ),
    }
}

/// Decodes the photo in `bytes` and turns it upright as its EXIF orientation
/// says (a photo without one is taken as upright); `None` when it cannot be
/// decoded within `max_alloc` bytes.
pub fn decode_upright(bytes: &[u8], max_alloc: u64) -> (r: Option<RgbaPixels>)
    ensures
        match decoded_rgba(bytes@, max_alloc) {
            None => r is None,
            Some((w, h, p)) => r matches Some(img) && corrected(
                orientation_fix_spec(orientation_value(exif_orientation_in(bytes@))),
                w,
                h,
                p,
                img.width,
                img.height,
                img.pixels@,
            ),
        },
{
    let orientation: u16 = match read_exif_orientation(bytes) {
        Some(v) => #[verifier::truncate] (v as u16),
        None => 1,
    };
    let img = match decode_rgba8(bytes, max_alloc) {
        Some(img) => img,
        None => {
            return None;
        },
    };
    let out = match orientation_fix(orientation) {
        OrientationFix::Keep => img,
        OrientationFix::FlipHorizontal => flip_horizontal(img),
        OrientationFix::FlipVertical => flip_vertical(img),
        OrientationFix::Rotate180 => rotate180(img),
        OrientationFix::Rotate90 => rotate90(img),
        OrientationFix::Rotate270 => rotate270(img),
        OrientationFix::Rotate90FlipHorizontal => {
            let turned_img = rotate90(img);
            flip_horizontal(turned_img)
        },
        OrientationFix::Rotate270FlipHorizontal => {
            let turned_img = rotate270(img);
            flip_horizontal(turned_img)
        },
    };
    Some(out)
}

/// The size of a stored `w` by `h` photo once shown upright, by the EXIF
/// orientation tag `o`: values 5 to 8 mean the stored image is turned on its
/// side.
pub open spec fn upright_size(o: u16, w: int, h: int) -> (int, int) {
    if 5 <= o <= 8 {
        (h, w)
    } else {
        (w, h)
    }
}

/// The stored pixel that shows at `(x, y)` of the upright photo, by the EXIF
/// orientation tag `o` (which says where the stored first row and first
/// column belong): 2 mirrored left to right, 3 turned half round, 4 mirrored
/// top to bottom, 5 transposed, 6 turned a quarter counter-clockwise (shown
/// by a clockwise quarter turn), 7 transposed the other way, 8 turned a
/// quarter clockwise; any other value is already upright.
pub open spec fn upright_source(o: u16, w: int, h: int, x: int, y: int) -> (int, int) {
    if o == 2 {
        (w - 1 - x, y)
    } else if o == 3 {
        (w - 1 - x, h - 1 - y)
    } else if o == 4 {
        (x, h - 1 - y)
    } else if o == 5 {
        (y, x)
    } else if o == 6 {
        (y, h - 1 - x)
    } else if o == 7 {
        (w - 1 - y, h - 1 - x)
    } else if o == 8 {
        (w - 1 - y, x)
    } else {
        (x, y)
    }
}

/// The correction chosen for an EXIF orientation shows the photo upright:
/// whatever image `p` is, the corrected image has the upright size, and each
/// of its pixels is the stored pixel that the orientation puts there. (So,
/// for instance, orientation 3 turns the photo half round.)
pub proof fn lemma_correction_shows_upright(
    o: u16,
    w: u32,
    h: u32,
    p: Seq<u8>,
    w2: u32,
    h2: u32,
    q: Seq<u8>,
    x: int,
    y: int,
    c: int,
)
    requires
        corrected(orientation_fix_spec(o), w, h, p, w2, h2, q),
        0 <= x < w2,
        0 <= y < h2,
        0 <= c < 4,
    ensures
        (w2 as int, h2 as int) == upright_size(o, w as int, h as int),
        ({
            let (sx, sy) = upright_source(o, w as int, h as int, x, y);
            q[(y * w2 + x) * 4 + c] == p[(sy * w + sx) * 4 + c]
        }),
{
    let wi = w as int;
    let hi = h as int;
    match orientation_fix_spec(o) {
        OrientationFix::Keep => {},
        OrientationFix::FlipHorizontal => {
            assert(q[(y * wi + x) * 4 + c] == p[(y * wi + (wi - 1 - x)) * 4 + c]);
        },
        OrientationFix::FlipVertical => {
            assert(q[(y * wi + x) * 4 + c] == p[((hi - 1 - y) * wi + x) * 4 + c]);
        },
        OrientationFix::Rotate180 => {
            assert(q[(y * wi + x) * 4 + c] == p[((hi - 1 - y) * wi + (wi - 1 - x)) * 4 + c]);
        },
        OrientationFix::Rotate90 => {
            assert(q[(y * hi + x) * 4 + c] == p[((hi - 1 - x) * wi + y) * 4 + c]);
        },
        OrientationFix::Rotate270 => {
            assert(q[(y * hi + x) * 4 + c] == p[(x * wi + (wi - 1 - y)) * 4 + c]);
        },
        OrientationFix::Rotate90FlipHorizontal => {
            let m = choose|m: Seq<u8>|
                turned(Turn::Rotate90, wi, hi, p, m) && #[trigger] turned(Turn::FlipHorizontal, hi, wi, m, q);
            assert(q[(y * hi + x) * 4 + c] == m[(y * hi + (hi - 1 - x)) * 4 + c]);
            assert(m[(y * hi + (hi - 1 - x)) * 4 + c] == p[((hi - 1 - (hi - 1 - x)) * wi + y) * 4 + c]);
        },
        OrientationFix::Rotate270FlipHorizontal => {
            let m = choose|m: Seq<u8>|
                turned(Turn::Rotate270, wi, hi, p, m) && #[trigger] turned(Turn::FlipHorizontal, hi, wi, m, q);
            assert(q[(y * hi + x) * 4 + c] == m[(y * hi + (hi - 1 - x)) * 4 + c]);
            assert(m[(y * hi + (hi - 1 - x)) * 4 + c] == p[((hi - 1 - x) * wi + (wi - 1 - y)) * 4 + c]);
        },
    }
}

} // verus!
