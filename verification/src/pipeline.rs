use vstd::prelude::*;
use vstd::slice::slice_to_vec;
use crate::codec::{decode_rgba, encode_png, decoded, encoded};
use crate::raster::{
    flip_mode_of, flip_mode_from_u8, flip_spec, mutate_with, mutate_one_pixel, flip_in_place,
    rng_after_mutate, RasterView,
};
use crate::rng::RandomSource;
use crate::{tier_of, resolve_tier, Tier};

verus! {

/// The bytes a plain re-compression pass returns: the input decoded and
/// re-encoded at the tier the level selects, or the input itself when
/// either codec step fails.
pub open spec fn quality_out(input: Seq<u8>, level: u8) -> Seq<u8> {
    match decoded(input) {
        Option::None => input,
        Option::Some(v) => match encoded(v, tier_of(level)) {
            Option::None => input,
            Option::Some(out) => out,
        },
    }
}

/// Re-encodes an image at the tier the level selects, touching no pixel.
/// Malformed input, or an encoder failure, passes the input through
/// unchanged.
pub fn quality_image(input: &[u8], compression_level: u8) -> (r: Vec<u8>)
    ensures
        r@ == quality_out(input@, compression_level),
{
    match decode_rgba(input) {
        Option::None => slice_to_vec(input),
        Option::Some(img) => {
            let tier = resolve_tier(compression_level);
            match encode_png(&img, tier) {
                Option::Some(out) => out,
                Option::None => slice_to_vec(input),
            }
        },
    }
}

/// The bytes a mix pass returns when the source starts in state s: one
/// pixel mutated, then re-encoded at the tier the level selects.
pub open spec fn mix_out(input: Seq<u8>, level: u8, s: u64) -> Seq<u8> {
    match decoded(input) {
        Option::None => input,
        Option::Some(v) => match encoded(mutate_with(v, s), tier_of(level)) {
            Option::None => input,
            Option::Some(out) => out,
        },
    }
}

/// Perturbs one randomly chosen pixel and re-encodes at the tier the level
/// selects. Malformed input, or an encoder failure, passes the input
/// through unchanged.
pub fn mix_image(input: &[u8], compression_level: u8, rng: &mut RandomSource) -> (r: Vec<u8>)
    ensures
        r@ == mix_out(input@, compression_level, old(rng).state),
        final(rng).state == match decoded(input@) {
            Option::None => old(rng).state,
            Option::Some(v) => rng_after_mutate(old(rng).state, v),
        },
{
    match decode_rgba(input) {
        Option::None => slice_to_vec(input),
        Option::Some(img) => {
            let mut img = img;
            mutate_one_pixel(&mut img, rng);
            let tier = resolve_tier(compression_level);
            match encode_png(&img, tier) {
                Option::Some(out) => out,
                Option::None => slice_to_vec(input),
            }
        },
    }
}

/// The tier the full pipeline encodes at: the caller's level counts only
/// when compression is asked for and the image is not bound for a regular
/// URL; otherwise the default tier is forced.
pub open spec fn effective_tier(compress: bool, has_regular_url: bool, level: u8) -> Tier {
    if compress && !has_regular_url {
        tier_of(level)
    } else {
        Tier::Default
    }
}

/// The raster the full pipeline encodes: flipped first when asked, then one
/// pixel mutated when confusion is asked, in that fixed order.
pub open spec fn process_transformed(
    v: RasterView,
    is_flip: bool,
    flip_mode: u8,
    confusion: bool,
    s: u64,
) -> RasterView {
    let v1 = if is_flip {
        flip_spec(v, flip_mode_of(flip_mode))
    } else {
        v
    };
    if confusion {
        mutate_with(v1, s)
    } else {
        v1
    }
}

/// The bytes the full pipeline returns when the source starts in state s.
pub open spec fn process_out(
    input: Seq<u8>,
    is_flip: bool,
    flip_mode: u8,
    confusion: bool,
    compress: bool,
    level: u8,
    has_regular_url: bool,
    s: u64,
) -> Seq<u8> {
    match decoded(input) {
        Option::None => input,
        Option::Some(v) => match encoded(
            process_transformed(v, is_flip, flip_mode, confusion, s),
            effective_tier(compress, has_regular_url, level),
        ) {
            Option::None => input,
            Option::Some(out) => out,
        },
    }
}

/// The state the random source is left in by the full pipeline.
pub open spec fn process_rng_after(
    input: Seq<u8>,
    is_flip: bool,
    flip_mode: u8,
    confusion: bool,
    s: u64,
) -> u64 {
    match decoded(input) {
        Option::None => s,
        Option::Some(v) => if confusion {
            rng_after_mutate(
                s,
                if is_flip {
                    flip_spec(v, flip_mode_of(flip_mode))
                } else {
                    v
                },
            )
        } else {
            s
        },
    }
}

/// The full pipeline: decode, flip when asked, mutate one pixel when asked,
/// then encode at the effective tier. Malformed input, or an encoder
/// failure, passes the input through unchanged.
pub fn process_image(
    input: &[u8],
    is_flip: bool,
    flip_mode: u8,
    confusion: bool,
    compress: bool,
    compression_level: u8,
    has_regular_url: bool,
    rng: &mut RandomSource,
) -> (r: Vec<u8>)
    ensures
        r@ == process_out(
            input@,
            is_flip,
            flip_mode,
            confusion,
            compress,
            compression_level,
            has_regular_url,
            old(rng).state,
        ),
        final(rng).state == process_rng_after(
            input@,
            is_flip,
            flip_mode,
            confusion,
            old(rng).state,
        ),
{
    match decode_rgba(input) {
        Option::None => slice_to_vec(input),
        Option::Some(img) => {
            let mut img = img;
            if is_flip {
                let mode = flip_mode_from_u8(flip_mode);
                flip_in_place(&mut img, mode);
            }
            if confusion {
                mutate_one_pixel(&mut img, rng);
            }
            let tier = if compress && !has_regular_url {
                resolve_tier(compression_level)
            } else {
                Tier::Default
            };
            match encode_png(&img, tier) {
                Option::Some(out) => out,
                Option::None => slice_to_vec(input),
            }
        },
    }
}

/// The quality pass touches no pixel: whenever the input decodes, the
/// encoder is handed exactly the decoded raster, and on encoder success the
/// output is exactly its encoding at the selected tier.
pub proof fn lemma_quality_preserves_pixels(input: Seq<u8>, level: u8)
    requires
        decoded(input) is Some,
    ensures
        ({
            let v = decoded(input)->Some_0;
            match encoded(v, tier_of(level)) {
                Option::Some(out) => quality_out(input, level) == out,
                Option::None => quality_out(input, level) == input,
            }
        }),
{
}

/// With no flip, no confusion, compression on and no regular URL, the full
/// pipeline returns exactly what the plain quality pass returns at the same
/// level, whatever the random source's state.
pub proof fn lemma_process_matches_quality(input: Seq<u8>, flip_mode: u8, level: u8, s: u64)
    ensures
        process_out(input, false, flip_mode, false, true, level, false, s) == quality_out(
            input,
            level,
        ),
{
}

/// With compression on but a regular URL, the pipeline encodes at the
/// default tier: the requested level has no effect on the output.
pub proof fn lemma_regular_url_forces_default(
    input: Seq<u8>,
    is_flip: bool,
    flip_mode: u8,
    confusion: bool,
    level_a: u8,
    level_b: u8,
    s: u64,
)
    ensures
        effective_tier(true, true, level_a) == Tier::Default,
        process_out(input, is_flip, flip_mode, confusion, true, level_a, true, s) == process_out(
            input,
            is_flip,
            flip_mode,
            confusion,
            true,
            level_b,
            true,
            s,
        ),
{
}

/// Bytes that do not decode pass through every pipeline operation
/// unchanged, byte for byte.
pub proof fn lemma_malformed_passthrough(
    input: Seq<u8>,
    is_flip: bool,
    flip_mode: u8,
    confusion: bool,
    compress: bool,
    level: u8,
    has_regular_url: bool,
    s: u64,
)
    requires
        decoded(input) is None,
    ensures
        quality_out(input, level) == input,
        mix_out(input, level, s) == input,
        process_out(input, is_flip, flip_mode, confusion, compress, level, has_regular_url, s)
            == input,
{
}

} // verus!
