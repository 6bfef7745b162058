use vstd::prelude::*;
use crate::raster::{RasterImage, RasterView};
use crate::Tier;
use image::ImageEncoder;
use image::codecs::png::{CompressionType, FilterType, PngEncoder};

verus! {

/// What decoding a byte buffer yields: the RGBA raster for a well-formed
/// encoded image, or nothing for malformed or unrecognized bytes. Decoding
/// is a pure function of the bytes, so the result only gets a name here;
/// nothing else is assumed of it.
pub uninterp spec fn decoded(bytes: Seq<u8>) -> Option<RasterView>;

/// What encoding a raster as PNG at a given compression tier yields, with
/// adaptive per-row filtering: a pure function of the pixel buffer, the
/// dimensions and the tier.
pub uninterp spec fn encoded(v: RasterView, tier: Tier) -> Option<Seq<u8>>;

/// Relies on image::load_from_memory (format auto-detection and decode) and
/// DynamicImage::to_rgba8 (normalization to four 8-bit channels): both are
/// deterministic, and the RGBA buffer of an image crate bitmap holds
/// exactly width * height * 4 bytes.
#[verifier::external_body]
pub(crate) fn decode_rgba(input: &[u8]) -> (r: Option<RasterImage>)
    ensures
        match r {
            Option::Some(img) => decoded(input@) == Option::Some(img@) && img@.wf(),
            Option::None => decoded(input@) is None,
        },
{
    match image::load_from_memory(input) {
        Ok(img) => {
            let rgba = img.to_rgba8();
            let (width, height) = rgba.dimensions();
            Some(RasterImage { width, height, data: rgba.into_raw() })
        },
        Err(_) => None,
    }
}

/// Relies on PngEncoder::new_with_quality and ImageEncoder::write_image:
/// PNG encoding with a fixed adaptive filter is deterministic in the pixel
/// buffer, the dimensions and the compression setting. write_image panics
/// unless the buffer holds exactly width * height * 4 bytes, hence the
/// well-formedness precondition.
#[verifier::external_body]
pub(crate) fn encode_png(img: &RasterImage, tier: Tier) -> (r: Option<Vec<u8>>)
    requires
        img@.wf(),
    ensures
        match r {
            Option::Some(out) => encoded(img@, tier) == Option::Some(out@),
            Option::None => encoded(img@, tier) is None,
        },
{
    let ct = match tier {
        Tier::Fast => CompressionType::Fast,
        Tier::Default => CompressionType::Default,
        Tier::Best => CompressionType::Best,
    };
    let mut out: Vec<u8> = Vec::new();
    let encoder = PngEncoder::new_with_quality(&mut out, ct, FilterType::Adaptive);
    match encoder.write_image(img.data.as_slice(), img.width, img.height, image::ExtendedColorType::Rgba8) {
        Ok(()) => Some(out),
        Err(_) => None,
    }
}

} // verus!
