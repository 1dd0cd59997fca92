//! Masking a dataset image: the image file is decoded as RGBA, the mask
//! file as 8-bit luma (both by the `image` crate, in the format their file
//! names tell), the mask's value becomes each pixel's alpha, and the result
//! is encoded as PNG.
use vstd::prelude::*;

verus! {

/// The image and the mask differ in size.
#[derive(Clone, Copy, Debug, PartialEq, Eq, Structural)]
pub enum MaskError {
    DimensionMismatch,
}

/// An RGBA buffer with the alpha byte of pixel `p` replaced by mask byte `p`;
/// the colour bytes are kept.
pub open spec fn masked(rgba: Seq<u8>, mask: Seq<u8>) -> Seq<u8> {
    Seq::new(rgba.len(), |k: int| if k % 4 == 3 { mask[k / 4] } else { rgba[k] })
}

/// Writes the mask into the alpha channel of an RGBA image of
/// `width` x `height` pixels. A mask of another size is refused and the image
/// is left as it is.
pub fn apply_mask_alpha(
    rgba: &mut Vec<u8>,
    width: u32,
    height: u32,
    mask: &Vec<u8>,
    mask_width: u32,
    mask_height: u32,
) -> (r: Result<(), MaskError>)
    requires
        old(rgba)@.len() == 4 * (width as int * height as int),
        mask@.len() == mask_width as int * mask_height as int,
    ensures
        r is Err <==> (width != mask_width || height != mask_height),
        r is Err ==> final(rgba)@ == old(rgba)@,
        r is Ok ==> final(rgba)@ == masked(old(rgba)@, mask@),
{
    if width != mask_width || height != mask_height {
        return Err(MaskError::DimensionMismatch);
    }
    let ghost orig = rgba@;
    let pixels = mask.len();
    let total = rgba.len();
    assert(total == 4 * pixels);
    let mut p: usize = 0;
    while p < pixels
        invariant
            pixels == mask@.len(),
            rgba@.len() == orig.len(),
            orig.len() == 4 * pixels,
            total == 4 * pixels,
            p <= pixels,
            forall|k: int| 0 <= k < 4 * p ==> rgba@[k] == masked(orig, mask@)[k],
            forall|k: int| 4 * p <= k < orig.len() ==> rgba@[k] == orig[k],
        decreases pixels - p,
    {
        rgba.set(4 * p + 3, mask[p]);
        proof {
            assert forall|k: int| 0 <= k < 4 * (p + 1) implies rgba@[k] == masked(orig, mask@)[k] by {
                if k >= 4 * p {
                    assert(k / 4 == p as int);
                }
            }
        }
        p = p + 1;
    }
    assert(rgba@ =~= masked(orig, mask@));
    Ok(())
}

/// Masking keeps every colour byte, sets every alpha byte to the pixel's
/// mask value, and keeps the size.
pub proof fn law_mask_keeps_colour(rgba: Seq<u8>, mask: Seq<u8>, p: int, c: int)
    requires
        rgba.len() == 4 * mask.len(),
        0 <= p < mask.len(),
        0 <= c < 3,
    ensures
        masked(rgba, mask).len() == rgba.len(),
        masked(rgba, mask)[4 * p + c] == rgba[4 * p + c],
        masked(rgba, mask)[4 * p + 3] == mask[p],
{
    assert((4 * p + c) % 4 == c);
    assert((4 * p + 3) % 4 == 3);
    assert((4 * p + 3) / 4 == p);
}

/// What decoding `bytes` as an image file named `path` gives, converted to
/// 8-bit RGBA: width, height and pixel bytes; `None` when the name tells no
/// format or the bytes do not decode.
pub uninterp spec fn rgba8_decoding(path: Seq<char>, bytes: Seq<u8>) -> Option<(u32, u32, Seq<u8>)>;

/// What decoding `bytes` as an image file named `path` gives, converted to
/// 8-bit luma: width, height and pixel bytes; `None` when the name tells no
/// format or the bytes do not decode.
pub uninterp spec fn luma8_decoding(path: Seq<char>, bytes: Seq<u8>) -> Option<(u32, u32, Seq<u8>)>;

/// The PNG file that the `image` crate writes for an RGBA image of
/// `width` x `height` pixels.
pub uninterp spec fn png_encoding(width: u32, height: u32, pixels: Seq<u8>) -> Option<Seq<u8>>;

/// `image::ImageFormat::from_path`, `image::load_from_memory_with_format`
/// and `DynamicImage::to_rgba8`: the decoded image as width, height and
/// pixel bytes (four per pixel, as an `ImageBuffer` holds them), or the
/// message of the failing step. The result is named by `rgba8_decoding`.
#[verifier::external_body]
fn decode_rgba8(path: &str, bytes: &[u8]) -> (r: Result<(u32, u32, Vec<u8>), String>)
    ensures
        match r {
            Ok(t) => rgba8_decoding(path@, bytes@) == Some((t.0, t.1, t.2@)) && t.2@.len() == 4 * (
            t.0 as int * t.1 as int),
            Err(_) => rgba8_decoding(path@, bytes@) is None,
        },
{
    let format = match image::ImageFormat::from_path(path) {
        Ok(f) => f,
        Err(e) => return Err(e.to_string()),
    };
    match image::load_from_memory_with_format(bytes, format) {
        Ok(img) => {
            let p = img.to_rgba8();
            Ok((p.width(), p.height(), p.into_raw()))
        },
        Err(e) => Err(e.to_string()),
    }
}

/// As `decode_rgba8`, converted with `DynamicImage::to_luma8` (one byte per
/// pixel). The result is named by `luma8_decoding`.
#[verifier::external_body]
fn decode_luma8(path: &str, bytes: &[u8]) -> (r: Result<(u32, u32, Vec<u8>), String>)
    ensures
        match r {
            Ok(t) => luma8_decoding(path@, bytes@) == Some((t.0, t.1, t.2@)) && t.2@.len() == t.0
                as int * t.1 as int,
            Err(_) => luma8_decoding(path@, bytes@) is None,
        },
{
    let format = match image::ImageFormat::from_path(path) {
        Ok(f) => f,
        Err(e) => return Err(e.to_string()),
    };
    match image::load_from_memory_with_format(bytes, format) {
        Ok(img) => {
            let p = img.to_luma8();
            Ok((p.width(), p.height(), p.into_raw()))
        },
        Err(e) => Err(e.to_string()),
    }
}

/// `ImageBuffer::from_raw` and `ImageBuffer::write_to` in the PNG format:
/// the bytes of the PNG file, or the encoder's message. The result is named
/// by `png_encoding`.
#[verifier::external_body]
fn encode_rgba8_png(width: u32, height: u32, pixels: Vec<u8>) -> (r: Result<Vec<u8>, String>)
    requires
        pixels@.len() == 4 * (width as int * height as int),
    ensures
        match r {
            Ok(b) => png_encoding(width, height, pixels@) == Some(b@),
            Err(_) => png_encoding(width, height, pixels@) is None,
        },
{
    let img = match image::RgbaImage::from_raw(width, height, pixels) {
        Some(img) => img,
        None => return Err(String::new()),
    };
    let mut out = std::io::Cursor::new(Vec::new());
    match img.write_to(&mut out, image::ImageFormat::Png) {
        Ok(()) => Ok(out.into_inner()),
        Err(e) => Err(e.to_string()),
    }
}

/// Why a dataset image was refused: the image or the mask does not decode
/// (with the decoder's message), or they differ in size.
#[derive(Clone, Debug, PartialEq, Eq)]
pub enum PictureError {
    ImageDecode { message: String },
    MaskDecode { message: String },
    DimensionMismatch,
}

impl PictureError {
    /// The text of the refusal.
    pub open spec fn text(self) -> Seq<char> {
        match self {
            PictureError::ImageDecode { message } => message@,
            PictureError::MaskDecode { message } => message@,
            PictureError::DimensionMismatch => "Image and mask dimensions do not match"@,
        }
    }

    /// The text of the refusal.
    pub fn message(&self) -> (s: String)
        ensures
            s@ == self.text(),
    {
        match self {
            PictureError::ImageDecode { message } => message.clone(),
            PictureError::MaskDecode { message } => message.clone(),
            PictureError::DimensionMismatch => String::from_str(
                "Image and mask dimensions do not match",
            ),
        }
    }
}

/// What decoding an image file gives: its width, height and RGBA bytes, or
/// a decode error.
pub open spec fn decoded_image_result(
    path: Seq<char>,
    bytes: Seq<u8>,
    r: Result<(u32, u32, Vec<u8>), PictureError>,
) -> bool {
    match rgba8_decoding(path, bytes) {
        None => r is Err && r->Err_0 is ImageDecode,
        Some((w, h, pixels)) => r is Ok && r->Ok_0.0 == w && r->Ok_0.1 == h && r->Ok_0.2@
            == pixels,
    }
}

/// What masking an RGBA image of `width` x `height` pixels with a mask file
/// gives: a mask that does not decode is refused, then a mask of another
/// size; otherwise the image with the mask as its alpha.
pub open spec fn masked_with_result(
    width: u32,
    height: u32,
    pixels: Seq<u8>,
    mask_path: Seq<char>,
    mask_bytes: Seq<u8>,
    r: Result<(u32, u32, Vec<u8>), PictureError>,
) -> bool {
    match luma8_decoding(mask_path, mask_bytes) {
        None => r is Err && r->Err_0 is MaskDecode,
        Some((mw, mh, mask)) => if width != mw || height != mh {
            r == Err::<(u32, u32, Vec<u8>), PictureError>(PictureError::DimensionMismatch)
        } else {
            r is Ok && r->Ok_0.0 == width && r->Ok_0.1 == height && r->Ok_0.2@ == masked(
                pixels,
                mask,
            )
        },
    }
}

/// What masking an image file with a mask file gives: the image is decoded
/// first, then the mask; images of different sizes are refused; otherwise
/// the image with the mask as its alpha.
pub open spec fn masked_picture_result(
    image_path: Seq<char>,
    image_bytes: Seq<u8>,
    mask_path: Seq<char>,
    mask_bytes: Seq<u8>,
    r: Result<(u32, u32, Vec<u8>), PictureError>,
) -> bool {
    match rgba8_decoding(image_path, image_bytes) {
        None => r is Err && r->Err_0 is ImageDecode,
        Some((w, h, pixels)) => masked_with_result(w, h, pixels, mask_path, mask_bytes, r),
    }
}

/// Decodes a dataset image from its file's bytes, as RGBA.
pub fn decoded_image(path: &str, bytes: &[u8]) -> (r: Result<(u32, u32, Vec<u8>), PictureError>)
    ensures
        decoded_image_result(path@, bytes@, r),
        r is Ok ==> r->Ok_0.2@.len() == 4 * (r->Ok_0.0 as int * r->Ok_0.1 as int),
{
    match decode_rgba8(path, bytes) {
        Ok(t) => Ok(t),
        Err(message) => Err(PictureError::ImageDecode { message }),
    }
}

/// Decodes a mask from its file's bytes and writes it into the alpha
/// channel of an RGBA image of `width` x `height` pixels.
pub fn masked_with(width: u32, height: u32, pixels: Vec<u8>, mask_path: &str, mask_bytes: &[u8]) -> (r:
    Result<(u32, u32, Vec<u8>), PictureError>)
    requires
        pixels@.len() == 4 * (width as int * height as int),
    ensures
        masked_with_result(width, height, pixels@, mask_path@, mask_bytes@, r),
{
    let mut pixels = pixels;
    let (mask_width, mask_height, mask) = match decode_luma8(mask_path, mask_bytes) {
        Ok(t) => t,
        Err(message) => {
            return Err(PictureError::MaskDecode { message });
        },
    };
    match apply_mask_alpha(&mut pixels, width, height, &mask, mask_width, mask_height) {
        Ok(()) => Ok((width, height, pixels)),
        Err(_) => Err(PictureError::DimensionMismatch),
    }
}

/// Decodes a dataset image and its mask from their files' bytes and writes
/// the mask into the image's alpha channel.
pub fn masked_image(image_path: &str, image_bytes: &[u8], mask_path: &str, mask_bytes: &[u8]) -> (r:
    Result<(u32, u32, Vec<u8>), PictureError>)
    ensures
        masked_picture_result(image_path@, image_bytes@, mask_path@, mask_bytes@, r),
{
    let (width, height, pixels) = match decoded_image(image_path, image_bytes) {
        Ok(t) => t,
        Err(e) => {
            return Err(e);
        },
    };
    masked_with(width, height, pixels, mask_path, mask_bytes)
}

/// The PNG file of an RGBA image of `width` x `height` pixels, or the
/// encoder's message.
pub fn png_file(width: u32, height: u32, pixels: Vec<u8>) -> (r: Result<Vec<u8>, String>)
    requires
        pixels@.len() == 4 * (width as int * height as int),
    ensures
        match r {
            Ok(b) => png_encoding(width, height, pixels@) == Some(b@),
            Err(_) => png_encoding(width, height, pixels@) is None,
        },
{
    encode_rgba8_png(width, height, pixels)
}

} // verus!
