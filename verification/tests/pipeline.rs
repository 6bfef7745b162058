use imagemix::pipeline::{mix_image, process_image, quality_image};
use imagemix::rng::RandomSource;
use imagemix::{resolve_tier, Tier};

fn png_from_rgba(width: u32, height: u32, data: Vec<u8>) -> Vec<u8> {
    let img = image::RgbaImage::from_raw(width, height, data).unwrap();
    let mut out = Vec::new();
    let enc = image::codecs::png::PngEncoder::new(&mut out);
    image::ImageEncoder::write_image(enc, img.as_raw(), width, height, image::ExtendedColorType::Rgba8)
        .unwrap();
    out
}

fn decode_rgba_bytes(bytes: &[u8]) -> (u32, u32, Vec<u8>) {
    let img = image::load_from_memory(bytes).unwrap().to_rgba8();
    (img.width(), img.height(), img.into_raw())
}

#[test]
fn resolve_tier_boundaries() {
    assert_eq!(resolve_tier(0), Tier::Fast);
    assert_eq!(resolve_tier(3), Tier::Fast);
    assert_eq!(resolve_tier(4), Tier::Default);
    assert_eq!(resolve_tier(6), Tier::Default);
    assert_eq!(resolve_tier(7), Tier::Best);
    assert_eq!(resolve_tier(10), Tier::Best);
}

#[test]
fn quality_image_is_pixel_lossless() {
    let data = vec![
        10, 20, 30, 255, 40, 50, 60, 200, 70, 80, 90, 100, 1, 2, 3, 4,
    ];
    let input = png_from_rgba(2, 2, data.clone());
    for level in [0u8, 3, 4, 6, 7, 10] {
        let out = quality_image(&input, level);
        assert_eq!(&out[..8], &[0x89, b'P', b'N', b'G', 0x0d, 0x0a, 0x1a, 0x0a]);
        let (w, h, pixels) = decode_rgba_bytes(&out);
        assert_eq!((w, h), (2, 2));
        assert_eq!(pixels, data);
    }
}

#[test]
fn quality_image_malformed_passthrough() {
    let junk = vec![1u8, 2, 3, 4, 5, 6, 7, 8];
    assert_eq!(quality_image(&junk, 5), junk);
    let empty: Vec<u8> = Vec::new();
    assert_eq!(quality_image(&empty, 0), empty);
}

#[test]
fn mix_image_malformed_passthrough() {
    let junk = vec![0u8; 32];
    let mut rng = RandomSource::new(7);
    assert_eq!(mix_image(&junk, 5, &mut rng), junk);
    assert_eq!(rng.state, 7);
}

#[test]
fn process_image_malformed_passthrough() {
    let junk = b"definitely not an image".to_vec();
    let mut rng = RandomSource::new(3);
    let out = process_image(&junk, true, 3, true, true, 9, false, &mut rng);
    assert_eq!(out, junk);
}

#[test]
fn mix_image_perturbs_exactly_one_pixel() {
    let data = vec![10u8, 10, 10, 255].repeat(4);
    let input = png_from_rgba(2, 2, data);
    let mut rng = RandomSource::new(42);
    let out = mix_image(&input, 5, &mut rng);
    let (w, h, pixels) = decode_rgba_bytes(&out);
    assert_eq!((w, h), (2, 2));
    let mut changed = 0;
    for p in 0..4 {
        let px = &pixels[p * 4..p * 4 + 4];
        assert_eq!(px[3], 255);
        if px == [11, 11, 11, 255] {
            changed += 1;
        } else {
            assert_eq!(px, [10, 10, 10, 255]);
        }
    }
    assert_eq!(changed, 1);
}

#[test]
fn process_image_plain_matches_quality() {
    let data = vec![
        9u8, 8, 7, 255, 100, 101, 102, 103, 200, 201, 202, 203, 0, 0, 0, 0,
    ];
    let input = png_from_rgba(2, 2, data);
    for level in [0u8, 5, 10] {
        let mut rng = RandomSource::new(1);
        let processed = process_image(&input, false, 0, false, true, level, false, &mut rng);
        let direct = quality_image(&input, level);
        assert_eq!(processed, direct);
    }
}

#[test]
fn process_image_regular_url_ignores_level() {
    let data = vec![50u8, 60, 70, 255].repeat(9);
    let input = png_from_rgba(3, 3, data);
    let mut outs = Vec::new();
    for level in [0u8, 4, 7, 10] {
        let mut rng = RandomSource::new(1);
        outs.push(process_image(&input, false, 0, false, true, level, true, &mut rng));
    }
    for o in &outs[1..] {
        assert_eq!(o, &outs[0]);
    }
}

#[test]
fn process_image_flip_through_pipeline() {
    let data = vec![1u8, 2, 3, 4, 5, 6, 7, 8];
    let input = png_from_rgba(2, 1, data);
    let mut rng = RandomSource::new(1);
    let out = process_image(&input, true, 1, false, true, 0, false, &mut rng);
    let (w, h, pixels) = decode_rgba_bytes(&out);
    assert_eq!((w, h), (2, 1));
    assert_eq!(pixels, vec![5, 6, 7, 8, 1, 2, 3, 4]);
}

#[test]
fn process_image_unknown_flip_mode_is_no_flip() {
    let data = vec![1u8, 2, 3, 4, 5, 6, 7, 8];
    let input = png_from_rgba(2, 1, data.clone());
    let mut rng = RandomSource::new(1);
    let out = process_image(&input, true, 9, false, true, 2, false, &mut rng);
    let (_, _, pixels) = decode_rgba_bytes(&out);
    assert_eq!(pixels, data);
}

#[test]
fn detect_mime_names_png() {
    let input = png_from_rgba(1, 1, vec![0, 0, 0, 255]);
    assert_eq!(imagemix::mime::detect_mime(&input), "image/png");
    assert_eq!(imagemix::mime::detect_mime(b"plain text here"), "text/plain; charset=utf-8");
}
