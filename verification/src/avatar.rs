//! Avatars: errors, the pixel-art setting, and the stored size.
use vstd::prelude::*;

use crate::i18n::{Lang, Msg, msg, msg_spec};
use crate::pixelart::{Filter, Options, RgbaImage, crop, is_pixelated, pixelate, resize, resized};
use crate::text::{chars_to_string, push_str, str_chars};

verus! {

/// Side length of a stored avatar, in pixels.
pub const SIZE: u32 = 256;

/// Default mosaic size for pixel art without an explicit grid.
pub const DEFAULT_PIXEL_GRID: u32 = 32;

/// Palette size for pixel-art avatars.
pub const PIXEL_COLORS: usize = 32;

/// Why an avatar could not be stored.
#[derive(Clone, Debug, PartialEq, Eq)]
pub enum AvatarError {
    BadImage(String),
    Write { path: String, reason: String },
}

impl AvatarError {
    pub open spec fn message_spec(&self, lang: Lang) -> Seq<char> {
        match self {
            AvatarError::BadImage(p) => msg_spec(lang, Msg::BadImagePrefix) + p@ + msg_spec(
                lang,
                Msg::BadImageSuffix,
            ),
            AvatarError::Write { path, reason } => msg_spec(lang, Msg::StoreWritePrefix) + path@
                + msg_spec(lang, Msg::ReasonSeparator) + reason@,
        }
    }

    /// The localized message, e.g. "Cannot open x.txt as an image."
    pub fn message(&self, lang: Lang) -> (r: String)
        ensures
            r@ == self.message_spec(lang),
    {
        let mut out: Vec<char> = Vec::new();
        match self {
            AvatarError::BadImage(p) => {
                push_str(&mut out, msg(lang, Msg::BadImagePrefix));
                push_str(&mut out, p.as_str());
                push_str(&mut out, msg(lang, Msg::BadImageSuffix));
            },
            AvatarError::Write { path, reason } => {
                push_str(&mut out, msg(lang, Msg::StoreWritePrefix));
                push_str(&mut out, path.as_str());
                push_str(&mut out, msg(lang, Msg::ReasonSeparator));
                push_str(&mut out, reason.as_str());
            },
        }
        proof {
            assert(out@ =~= self.message_spec(lang));
        }
        chars_to_string(out.as_slice())
    }
}

#[verifier::external_type_specification]
#[verifier::external_body]
pub struct ExImageFormat(image::ImageFormat);

/// Whether `image::ImageFormat::from_path` knows the extension of `path`.
pub uninterp spec fn extension_format_known(path: Seq<char>) -> bool;

/// Whether `image::guess_format` recognizes the leading bytes `head`.
pub uninterp spec fn content_format_known(head: Seq<u8>) -> bool;

/// The PNG file `image` writes for a `w × h` RGBA buffer.
pub uninterp spec fn png_encoding(data: Seq<u8>, w: int, h: int) -> Seq<u8>;

/// `image::ImageFormat::from_path`: the format the file extension names, if any.
#[verifier::external_body]
fn format_from_path(path: &str) -> (r: Option<image::ImageFormat>)
    ensures
        r is Some <==> extension_format_known(path@),
{
    image::ImageFormat::from_path(path).ok()
}

/// `image::guess_format`: the format the leading bytes announce, if any.
#[verifier::external_body]
fn guess_format(head: &[u8]) -> (r: Option<image::ImageFormat>)
    ensures
        r is Some <==> content_format_known(head@),
{
    image::guess_format(head).ok()
}

/// What `image::load_from_memory_with_format(bytes, format)` followed by `to_rgba8`
/// gives when `format` is what `image::ImageFormat::from_path(path)` names: width,
/// height and RGBA bytes; `None` when the extension names no format or the bytes do not
/// decode in it.
pub uninterp spec fn decoded(bytes: Seq<u8>, path: Seq<char>) -> Option<(u32, u32, Seq<u8>)>;

/// `image::ImageFormat::from_path(path)`, then `image::load_from_memory_with_format`
/// and `to_rgba8`: the image in `bytes`, read in the format the extension of `path`
/// names.
#[verifier::external_body]
fn decode_by_extension(bytes: &[u8], path: &str) -> (r: Option<RgbaImage>)
    ensures
        r is Some <==> decoded(bytes@, path@) is Some,
        r matches Some(img) ==> img.wf() && decoded(bytes@, path@) == Some((img.width, img.height, img.data@)),
        !extension_format_known(path@) ==> r is None,
{
    let format = image::ImageFormat::from_path(path).ok()?;
    let img = image::load_from_memory_with_format(bytes, format).ok()?.to_rgba8();
    Some(RgbaImage { width: img.width(), height: img.height(), data: img.into_raw() })
}

/// `image::RgbaImage::write_to` with `ImageFormat::Png` into memory; the error text on
/// failure. The PNG encoder refuses only an empty image (zero width or height) or one
/// whose compressed data overflows a chunk, and writing into memory does not fail, so an
/// RGBA image of at most `SIZE × SIZE` pixels always encodes.
#[verifier::external_body]
fn encode_png(img: &RgbaImage) -> (r: Result<Vec<u8>, String>)
    requires
        img.wf(),
    ensures
        r matches Ok(b) ==> b@ == png_encoding(img.data@, img.width as int, img.height as int),
        1 <= img.width <= SIZE && 1 <= img.height <= SIZE ==> r is Ok,
{
    let buf = image::RgbaImage::from_raw(img.width, img.height, img.data.clone()).unwrap();
    let mut out = std::io::Cursor::new(Vec::new());
    match buf.write_to(&mut out, image::ImageFormat::Png) {
        Ok(()) => Ok(out.into_inner()),
        Err(e) => Err(e.to_string()),
    }
}

/// Whether a file whose path is `path` and whose leading bytes are `head` (`None`: it
/// cannot be read) is taken for an image: its content or else its extension names a
/// format.
pub open spec fn probe_ok(path: Seq<char>, head: Option<Seq<u8>>) -> bool {
    head matches Some(h) && (content_format_known(h) || extension_format_known(path))
}

/// Cheap check that a file is an image: `head` is up to its first 16 bytes, `None` when
/// it cannot be opened.
pub fn probe(path: &str, head: Option<&[u8]>) -> (r: Result<(), AvatarError>)
    ensures
        r is Ok <==> probe_ok(path@, match head {
            Some(h) => Some(h@),
            None => None,
        }),
        r matches Err(e) ==> e matches AvatarError::BadImage(p) && p@ == path@,
{
    let known = match head {
        Some(h) => guess_format(h).is_some() || format_from_path(path).is_some(),
        None => false,
    };
    if known {
        Ok(())
    } else {
        Err(AvatarError::BadImage(path.to_string()))
    }
}

/// The pixel-art settings of an avatar made with a `grid × grid` mosaic.
pub open spec fn avatar_options(grid: u32) -> Options {
    Options { grid, colors: PIXEL_COLORS, output_size: SIZE }
}

/// `out` is the photo avatar of `img`: its centered square (side `min(w, h)`) resized
/// to `SIZE × SIZE` with a Lanczos filter.
pub open spec fn is_photo_avatar(img: RgbaImage, out: RgbaImage) -> bool {
    let w = img.width as int;
    let h = img.height as int;
    let side = if w < h { w } else { h };
    &&& out.width == SIZE
    &&& out.height == SIZE
    &&& exists|sq: RgbaImage|
        #![trigger sq.wf(), sq.width]
        sq.wf() && sq.width == side && sq.height == side && (forall|i: int, j: int|
            0 <= i < side && 0 <= j < side ==> #[trigger] sq.pixel_xy(i, j) == img.pixel_xy(
                (w - side) / 2 + i,
                (h - side) / 2 + j,
            )) && out.data@ == resized(sq.data@, side, side, SIZE as int, SIZE as int, 2)
}

/// Turns the bytes of the image file `src` into the PNG bytes of its avatar: decoded by
/// the format its extension names, center-cropped and resized to `SIZE × SIZE`, or with
/// `pixel = Some(grid)` made into `grid × grid` pixel art of `PIXEL_COLORS` colours
/// shown at that size. `bytes` is `None` when `src` cannot be read; `dest` is where the
/// caller will write the result. A readable image always gives its avatar.
pub fn import(src: &str, bytes: Option<&[u8]>, dest: &str, pixel: Option<u32>) -> (r: Result<Vec<u8>, AvatarError>)
    ensures
        (match bytes {
            Some(b) => decoded(b@, src@) is None,
            None => true,
        }) ==> (r matches Err(e) && e matches AvatarError::BadImage(p) && p@ == src@),
        !extension_format_known(src@) ==> (r matches Err(e) && e matches AvatarError::BadImage(p) && p@ == src@),
        (bytes matches Some(b) && decoded(b@, src@) is Some) ==> r is Ok,
        r matches Err(e) ==> e matches AvatarError::BadImage(p) && p@ == src@,
        r matches Ok(png) ==> bytes matches Some(b) && exists|img: RgbaImage, out: RgbaImage|
            #![trigger img.wf(), out.wf()]
            img.wf() && decoded(b@, src@) == Some((img.width, img.height, img.data@)) && out.wf() && out.width
                == SIZE && out.height == SIZE && match pixel {
                Some(g) => is_pixelated(img, avatar_options(g), out),
                None => is_photo_avatar(img, out),
            } && png@ == png_encoding(out.data@, SIZE as int, SIZE as int),
{
    let data = match bytes {
        Some(b) => b,
        None => return Err(AvatarError::BadImage(src.to_string())),
    };
    let img = match decode_by_extension(data, src) {
        Some(i) => i,
        None => return Err(AvatarError::BadImage(src.to_string())),
    };
    let out = match pixel {
        Some(grid) => {
            let opts = Options::default().grid(grid).colors(PIXEL_COLORS).output_size(SIZE);
            pixelate(&img, opts)
        },
        None => {
            let (w, h) = (img.width, img.height);
            let side = if w < h { w } else { h };
            let square = crop(&img, (w - side) / 2, (h - side) / 2, side, side);
            let out = resize(&square, SIZE, SIZE, Filter::Lanczos3);
            proof {
                assert(square.wf() && square.width == side);
            }
            out
        },
    };
    match encode_png(&out) {
        Ok(b) => Ok(b),
        Err(reason) => Err(AvatarError::Write { path: dest.to_string(), reason }),
    }
}

} // verus!
