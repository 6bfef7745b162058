use imagemix::raster::{
    flip_in_place, flip_mode_from_u8, mutate_one_pixel, mutate_pixel_at, FlipMode, RasterImage,
};
use imagemix::rng::RandomSource;
use imagemix::shuffle::shuffle_indices;

fn raster(width: u32, height: u32, data: Vec<u8>) -> RasterImage {
    assert_eq!(data.len() as u64, width as u64 * height as u64 * 4);
    RasterImage { width, height, data }
}

#[test]
fn flip_horizontal_mirrors_columns() {
    let mut img = raster(2, 1, vec![1, 2, 3, 4, 5, 6, 7, 8]);
    flip_in_place(&mut img, FlipMode::Horizontal);
    assert_eq!(img.data, vec![5, 6, 7, 8, 1, 2, 3, 4]);
}

#[test]
fn flip_vertical_mirrors_rows() {
    let mut img = raster(1, 2, vec![1, 2, 3, 4, 5, 6, 7, 8]);
    flip_in_place(&mut img, FlipMode::Vertical);
    assert_eq!(img.data, vec![5, 6, 7, 8, 1, 2, 3, 4]);
}

#[test]
fn flip_both_equals_each_order() {
    let data: Vec<u8> = (0..16).collect();
    let mut both = raster(2, 2, data.clone());
    flip_in_place(&mut both, FlipMode::Both);

    let mut hv = raster(2, 2, data.clone());
    flip_in_place(&mut hv, FlipMode::Horizontal);
    flip_in_place(&mut hv, FlipMode::Vertical);

    let mut vh = raster(2, 2, data.clone());
    flip_in_place(&mut vh, FlipMode::Vertical);
    flip_in_place(&mut vh, FlipMode::Horizontal);

    assert_eq!(both.data, hv.data);
    assert_eq!(both.data, vh.data);
}

#[test]
fn flip_twice_restores() {
    let data: Vec<u8> = (0..24).collect();
    for mode in [FlipMode::Horizontal, FlipMode::Vertical] {
        let mut img = raster(3, 2, data.clone());
        flip_in_place(&mut img, mode);
        flip_in_place(&mut img, mode);
        assert_eq!(img.data, data);
    }
}

#[test]
fn flip_off_is_identity() {
    let data: Vec<u8> = (0..8).collect();
    let mut img = raster(2, 1, data.clone());
    flip_in_place(&mut img, FlipMode::Off);
    assert_eq!(img.data, data);
}

#[test]
fn flip_mode_decoding() {
    assert_eq!(flip_mode_from_u8(0), FlipMode::Off);
    assert_eq!(flip_mode_from_u8(1), FlipMode::Horizontal);
    assert_eq!(flip_mode_from_u8(2), FlipMode::Vertical);
    assert_eq!(flip_mode_from_u8(3), FlipMode::Both);
    assert_eq!(flip_mode_from_u8(200), FlipMode::Off);
}

#[test]
fn mutate_steps_color_channels_up() {
    let mut img = raster(2, 1, vec![10, 20, 30, 40, 50, 60, 70, 80]);
    mutate_pixel_at(&mut img, 1, 0);
    assert_eq!(img.data, vec![10, 20, 30, 40, 51, 61, 71, 80]);
}

#[test]
fn mutate_steps_down_from_saturation() {
    let mut img = raster(1, 1, vec![255, 254, 255, 255]);
    mutate_pixel_at(&mut img, 0, 0);
    assert_eq!(img.data, vec![254, 255, 254, 255]);
}

#[test]
fn mutate_random_touches_one_pixel() {
    let data = vec![10u8, 10, 10, 255].repeat(6);
    let mut img = raster(3, 2, data.clone());
    let mut rng = RandomSource::new(99);
    mutate_one_pixel(&mut img, &mut rng);
    let mut changed = 0;
    for p in 0..6 {
        let px = &img.data[p * 4..p * 4 + 4];
        assert_eq!(px[3], 255);
        if px == [11, 11, 11, 255] {
            changed += 1;
        } else {
            assert_eq!(px, [10, 10, 10, 255]);
        }
    }
    assert_eq!(changed, 1);
}

#[test]
fn mutate_empty_raster_is_noop() {
    let mut img = raster(0, 0, Vec::new());
    let mut rng = RandomSource::new(5);
    mutate_one_pixel(&mut img, &mut rng);
    assert_eq!(img.data, Vec::<u8>::new());
    assert_eq!(rng.state, 5);
}

#[test]
fn shuffle_degenerate_lengths() {
    let mut rng = RandomSource::new(1);
    assert_eq!(shuffle_indices(0, &mut rng), Vec::<u32>::new());
    assert_eq!(shuffle_indices(1, &mut rng), vec![0]);
}

#[test]
fn shuffle_is_permutation() {
    for seed in 0..50u64 {
        let mut rng = RandomSource::new(seed);
        let mut out = shuffle_indices(37, &mut rng);
        out.sort();
        let expected: Vec<u32> = (0..37).collect();
        assert_eq!(out, expected);
    }
}

#[test]
fn shuffle_varies_with_seed() {
    let mut any_moved = false;
    for seed in 1..10u64 {
        let mut rng = RandomSource::new(seed);
        let out = shuffle_indices(16, &mut rng);
        let identity: Vec<u32> = (0..16).collect();
        if out != identity {
            any_moved = true;
        }
    }
    assert!(any_moved);
}

#[test]
fn random_source_is_deterministic_and_bounded() {
    let mut a = RandomSource::new(12345);
    let mut b = RandomSource::new(12345);
    for n in 1..100u32 {
        let x = a.next_index(n);
        assert_eq!(x, b.next_index(n));
        assert!(x < n);
    }
}
