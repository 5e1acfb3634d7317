//! The resize engine: proportional height, Lanczos resampling and JPEG
//! encoding, with the pixel work done by the `image` crate.

use vstd::prelude::*;

verus! {

/// Quality of the JPEG encoding of derivatives, on a 1 to 100 scale.
pub const JPEG_QUALITY: u8 = 90;

/// The largest side, in pixels, that a JPEG image can have.
pub const MAX_SIDE: u32 = 65535;

#[verifier::external_type_specification]
#[verifier::external_body]
pub struct ExImageError(image::ImageError);

/// A decoded image: `pixels` holds `width * height` RGB triples, row by row.
pub struct Picture {
    pub width: u32,
    pub height: u32,
    pub pixels: Vec<u8>,
}

impl Picture {
    pub open spec fn wf(&self) -> bool {
        self.pixels@.len() == self.width * self.height * 3
    }
}

/// An encoded derivative and its dimensions.
pub struct Resized {
    pub width: u32,
    pub height: u32,
    pub bytes: Vec<u8>,
}

/// Why one derivative could not be produced.
#[derive(Debug, Clone, Copy, PartialEq, Eq, Structural)]
pub enum ResizeError {
    /// The source is zero pixels wide, so it has no aspect ratio.
    ZeroSourceWidth,
    /// The requested width is zero.
    ZeroTargetWidth,
    /// The proportional height rounds down to zero pixels.
    EmptyResult,
    /// A side of the result would exceed what JPEG can hold.
    TooLarge,
    /// The JPEG encoder refused the image.
    Encode,
}

/// The RGB pixels of `pixels` (an image of `width` by `height`) resampled to
/// `new_width` by `new_height` with a Lanczos filter of radius 3.
pub uninterp spec fn lanczos_resized(pixels: Seq<u8>, width: u32, height: u32, new_width: u32, new_height: u32) -> Seq<u8>;

/// The baseline JPEG encoding of RGB `pixels` at `quality`, `None` where the
/// encoder refuses the image.
pub uninterp spec fn jpeg_encoding(pixels: Seq<u8>, width: u32, height: u32, quality: u8) -> Option<Seq<u8>>;

/// The height that keeps the aspect ratio of a `w` by `h` source at width
/// `t`: `floor(t / w * h)`, which over naturals is `t * h / w`.
pub open spec fn scaled_height(w: nat, h: nat, t: nat) -> nat
    recommends
        w > 0,
{
    t * h / w
}

/// The validation failure, if any, of resizing a `w` by `h` source to width `t`.
pub open spec fn resize_error(w: u32, h: u32, t: u32) -> Option<ResizeError> {
    if w == 0 {
        Some(ResizeError::ZeroSourceWidth)
    } else if t == 0 {
        Some(ResizeError::ZeroTargetWidth)
    } else if scaled_height(w as nat, h as nat, t as nat) == 0 {
        Some(ResizeError::EmptyResult)
    } else if t > MAX_SIDE || scaled_height(w as nat, h as nat, t as nat) > MAX_SIDE {
        Some(ResizeError::TooLarge)
    } else {
        None
    }
}

/// `r` is what resizing `img` to width `t` gives: the validation failure, or
/// the JPEG encoding of the resampled pixels at the proportional height.
pub open spec fn resize_result(img: Picture, t: u32, r: Result<Resized, ResizeError>) -> bool {
    match resize_error(img.width, img.height, t) {
        Some(e) => r == Err::<Resized, ResizeError>(e),
        None => {
            let h = scaled_height(img.width as nat, img.height as nat, t as nat) as u32;
            let pixels = lanczos_resized(img.pixels@, img.width, img.height, t, h);
            match jpeg_encoding(pixels, t, h, JPEG_QUALITY) {
                Some(b) => r is Ok && r->Ok_0.width == t && r->Ok_0.height == h && r->Ok_0.bytes@ == b,
                None => r == Err::<Resized, ResizeError>(ResizeError::Encode),
            }
        },
    }
}

/// The image that `data` holds, as width, height and RGB triples row by row,
/// `None` where no codec can read `data`.
pub uninterp spec fn decoded_rgb(data: Seq<u8>) -> Option<(u32, u32, Seq<u8>)>;

/// Relies on `image::load_from_memory` and `DynamicImage::to_rgb8`: the
/// decoded image as `width * height` RGB triples.
#[verifier::external_body]
fn load_rgb(data: &[u8]) -> (r: Result<Picture, image::ImageError>)
    ensures
        match r {
            Ok(p) => p.wf() && decoded_rgb(data@) == Some((p.width, p.height, p.pixels@)),
            Err(_) => decoded_rgb(data@) is None,
        },
{
    match image::load_from_memory(data) {
        Ok(img) => {
            let rgb = img.to_rgb8();
            Ok(Picture { width: rgb.width(), height: rgb.height(), pixels: rgb.into_raw() })
        },
        Err(e) => Err(e),
    }
}

/// Relies on `image::imageops::resize` with `FilterType::Lanczos3`: an image
/// of exactly `new_width` by `new_height` RGB pixels.
#[verifier::external_body]
fn resample(img: &Picture, new_width: u32, new_height: u32) -> (r: Vec<u8>)
    requires
        img.wf(),
        0 < new_width <= MAX_SIDE,
        0 < new_height <= MAX_SIDE,
    ensures
        r@ == lanczos_resized(img.pixels@, img.width, img.height, new_width, new_height),
        r@.len() == new_width * new_height * 3,
{
    let src = image::ImageBuffer::<image::Rgb<u8>, &[u8]>::from_raw(img.width, img.height, img.pixels.as_slice()).unwrap();
    image::imageops::resize(&src, new_width, new_height, image::imageops::FilterType::Lanczos3).into_raw()
}

/// Relies on `image::codecs::jpeg::JpegEncoder::new_with_quality` and its
/// `encode` of RGB pixels; the encoder refuses a side of zero or above 65535.
#[verifier::external_body]
fn encode_jpeg(pixels: &Vec<u8>, width: u32, height: u32, quality: u8) -> (r: Result<Vec<u8>, image::ImageError>)
    requires
        pixels@.len() == width * height * 3,
    ensures
        match r {
            Ok(b) => jpeg_encoding(pixels@, width, height, quality) == Some(b@),
            Err(_) => jpeg_encoding(pixels@, width, height, quality) is None,
        },
        width == 0 || height == 0 || width > MAX_SIDE || height > MAX_SIDE ==> r is Err,
{
    let mut out: Vec<u8> = Vec::new();
    let res = image::codecs::jpeg::JpegEncoder::new_with_quality(&mut out, quality).encode(
        pixels,
        width,
        height,
        image::ExtendedColorType::Rgb8,
    );
    match res {
        Ok(()) => Ok(out),
        Err(e) => Err(e),
    }
}

/// The source image decoded from `data`, `None` where the data is no image
/// that the codecs can read.
pub fn decode(data: &[u8]) -> (r: Option<Picture>)
    ensures
        match r {
            Some(p) => p.wf() && decoded_rgb(data@) == Some((p.width, p.height, p.pixels@)),
            None => decoded_rgb(data@) is None,
        },
{
    match load_rgb(data) {
        Ok(p) => Some(p),
        Err(_) => None,
    }
}

/// The height of the derivative of a `src_width` by `src_height` source at
/// `target_width`, rounded down, or why there is none.
pub fn target_height(src_width: u32, src_height: u32, target_width: u32) -> (r: Result<u32, ResizeError>)
    ensures
        match r {
            Ok(h) => resize_error(src_width, src_height, target_width) is None
                && h as nat == scaled_height(src_width as nat, src_height as nat, target_width as nat),
            Err(e) => resize_error(src_width, src_height, target_width) == Some(e),
        },
{
    if src_width == 0 {
        return Err(ResizeError::ZeroSourceWidth);
    }
    if target_width == 0 {
        return Err(ResizeError::ZeroTargetWidth);
    }
    let t = target_width as u64;
    let h = src_height as u64;
    proof {
        assert(t * h <= 0xffff_ffff * 0xffff_ffff) by (nonlinear_arith)
            requires t <= 0xffff_ffff, h <= 0xffff_ffff;
    }
    let scaled = t * h / (src_width as u64);
    if scaled == 0 {
        return Err(ResizeError::EmptyResult);
    }
    if target_width > MAX_SIDE || scaled > MAX_SIDE as u64 {
        return Err(ResizeError::TooLarge);
    }
    Ok(scaled as u32)
}

/// The derivative of `img` at `target_width`: resampled to that width and
/// the proportional height (rounded down), then JPEG-encoded at
/// `JPEG_QUALITY`. The source is left as it is.
pub fn resize(img: &Picture, target_width: u32) -> (r: Result<Resized, ResizeError>)
    requires
        img.wf(),
    ensures
        resize_result(*img, target_width, r),
{
    let h = match target_height(img.width, img.height, target_width) {
        Ok(h) => h,
        Err(e) => return Err(e),
    };
    let pixels = resample(img, target_width, h);
    match encode_jpeg(&pixels, target_width, h, JPEG_QUALITY) {
        Ok(bytes) => Ok(Resized { width: target_width, height: h, bytes }),
        Err(_) => Err(ResizeError::Encode),
    }
}

} // verus!
