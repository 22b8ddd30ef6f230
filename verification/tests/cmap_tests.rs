use perlinrs::cmap::{GradientCMap, GradientStop, Grayscale, Rgb, RgbaImage};
use perlinrs::image::ScalarImage;
use perlinrs::math::ONE;
use perlinrs::ConfigError;

fn pixel(buf: &RgbaImage, p: usize) -> (u8, u8, u8, u8) {
    let bytes = buf.image_data();
    (bytes[4 * p], bytes[4 * p + 1], bytes[4 * p + 2], bytes[4 * p + 3])
}

#[test]
fn rgba_image_new_and_fill() {
    let blank = RgbaImage::new(3, 2);
    assert_eq!(blank.width(), 3);
    assert_eq!(blank.height(), 2);
    assert_eq!(blank.image_data().len(), 24);
    for &b in blank.image_data() {
        assert_eq!(b, 0);
    }
    let red = RgbaImage::fill(2, 2, 200, 10, 30);
    for p in 0..4 {
        assert_eq!(pixel(&red, p), (200, 10, 30, 255));
    }
}

#[test]
fn grayscale_maps_extremes_and_midpoint() {
    // Field with min 0.0 and max 1.0: min maps to level 0, max to 255,
    // and the midpoint to 127 (levels round down).
    let mut img = ScalarImage::new(1, 3);
    img.set(0, 0, 0);
    img.set(0, 1, ONE / 2);
    img.set(0, 2, ONE);
    let mut out = RgbaImage::new(3, 1);
    assert_eq!(Grayscale.cmap(&img, &mut out), Ok(()));
    assert_eq!(pixel(&out, 0), (0, 0, 0, 255));
    assert_eq!(pixel(&out, 1), (127, 127, 127, 255));
    assert_eq!(pixel(&out, 2), (255, 255, 255, 255));
}

#[test]
fn grayscale_flat_field_maps_to_mid_gray() {
    // A field with no dynamic range maps everywhere to 128, by policy.
    let mut img = ScalarImage::new(2, 2);
    for i in 0..2 {
        for j in 0..2 {
            img.set(i, j, 777);
        }
    }
    let mut out = RgbaImage::new(2, 2);
    assert_eq!(Grayscale.cmap(&img, &mut out), Ok(()));
    for p in 0..4 {
        assert_eq!(pixel(&out, p), (128, 128, 128, 255));
    }
}

#[test]
fn grayscale_rejects_mismatched_output() {
    let img = ScalarImage::new(2, 3);
    let mut out = RgbaImage::new(3, 3);
    assert_eq!(Grayscale.cmap(&img, &mut out), Err(ConfigError::DimensionMismatch));
    for &b in out.image_data() {
        assert_eq!(b, 0);
    }
}

#[test]
fn gradient_cmap_validates_stops() {
    assert_eq!(
        GradientCMap::new(Vec::new()).err(),
        Some(ConfigError::EmptyGradient)
    );
    let unordered = vec![
        GradientStop { pos: ONE, color: Rgb { r: 0, g: 0, b: 0 } },
        GradientStop { pos: 0, color: Rgb { r: 255, g: 255, b: 255 } },
    ];
    assert_eq!(
        GradientCMap::new(unordered).err(),
        Some(ConfigError::UnorderedGradient)
    );
    let equal_positions = vec![
        GradientStop { pos: 5, color: Rgb { r: 0, g: 0, b: 0 } },
        GradientStop { pos: 5, color: Rgb { r: 255, g: 255, b: 255 } },
    ];
    assert_eq!(
        GradientCMap::new(equal_positions).err(),
        Some(ConfigError::UnorderedGradient)
    );
    let ordered = vec![
        GradientStop { pos: 0, color: Rgb { r: 1, g: 2, b: 3 } },
        GradientStop { pos: ONE, color: Rgb { r: 4, g: 5, b: 6 } },
    ];
    assert!(GradientCMap::new(ordered).is_ok());
}

#[test]
fn gradient_cmap_endpoints_are_byte_exact() {
    // A field whose range equals the ramp's domain: the minimum gets the
    // first stop's color byte for byte, the maximum the last stop's.
    let stops = vec![
        GradientStop { pos: 0, color: Rgb { r: 255, g: 0, b: 0 } },
        GradientStop { pos: ONE, color: Rgb { r: 0, g: 0, b: 255 } },
    ];
    let ramp = GradientCMap::new(stops).unwrap();
    let mut img = ScalarImage::new(1, 3);
    img.set(0, 0, 0);
    img.set(0, 1, ONE / 2);
    img.set(0, 2, ONE);
    let mut out = RgbaImage::new(3, 1);
    assert_eq!(ramp.cmap(&img, &mut out), Ok(()));
    assert_eq!(pixel(&out, 0), (255, 0, 0, 255));
    assert_eq!(pixel(&out, 1), (128, 0, 127, 255));
    assert_eq!(pixel(&out, 2), (0, 0, 255, 255));
}

#[test]
fn gradient_cmap_three_stops_hits_middle_stop() {
    let stops = vec![
        GradientStop { pos: -ONE, color: Rgb { r: 10, g: 20, b: 30 } },
        GradientStop { pos: 0, color: Rgb { r: 40, g: 50, b: 60 } },
        GradientStop { pos: ONE, color: Rgb { r: 70, g: 80, b: 90 } },
    ];
    let ramp = GradientCMap::new(stops).unwrap();
    // Field range [0, 2*ONE] remaps linearly onto [-ONE, ONE]; the field
    // midpoint lands exactly on the middle stop.
    let mut img = ScalarImage::new(1, 3);
    img.set(0, 0, 0);
    img.set(0, 1, ONE);
    img.set(0, 2, 2 * ONE);
    let mut out = RgbaImage::new(3, 1);
    assert_eq!(ramp.cmap(&img, &mut out), Ok(()));
    assert_eq!(pixel(&out, 0), (10, 20, 30, 255));
    assert_eq!(pixel(&out, 1), (40, 50, 60, 255));
    assert_eq!(pixel(&out, 2), (70, 80, 90, 255));
}

#[test]
fn gradient_cmap_flat_field_uses_domain_start() {
    let stops = vec![
        GradientStop { pos: 0, color: Rgb { r: 9, g: 8, b: 7 } },
        GradientStop { pos: ONE, color: Rgb { r: 1, g: 2, b: 3 } },
    ];
    let ramp = GradientCMap::new(stops).unwrap();
    let mut img = ScalarImage::new(2, 1);
    img.set(0, 0, 42);
    img.set(1, 0, 42);
    let mut out = RgbaImage::new(1, 2);
    assert_eq!(ramp.cmap(&img, &mut out), Ok(()));
    assert_eq!(pixel(&out, 0), (9, 8, 7, 255));
    assert_eq!(pixel(&out, 1), (9, 8, 7, 255));
}

#[test]
fn gradient_cmap_rejects_mismatched_output() {
    let stops = vec![GradientStop { pos: 0, color: Rgb { r: 5, g: 5, b: 5 } }];
    let ramp = GradientCMap::new(stops).unwrap();
    let img = ScalarImage::new(4, 4);
    let mut out = RgbaImage::new(4, 5);
    assert_eq!(ramp.cmap(&img, &mut out), Err(ConfigError::DimensionMismatch));
}

#[test]
fn grayscale_on_generated_noise_covers_full_range() {
    // End to end: noise into pixels. The field's own extremes must map
    // to 0 and 255 somewhere in the buffer.
    let mut img = ScalarImage::new(16, 16);
    assert_eq!(img.generate(4), Ok(()));
    let mut out = RgbaImage::new(16, 16);
    assert_eq!(Grayscale.cmap(&img, &mut out), Ok(()));
    let bytes = out.image_data();
    assert!(bytes.iter().step_by(4).any(|&b| b == 0));
    assert!(bytes.iter().step_by(4).any(|&b| b == 255));
    for p in 0..256 {
        assert_eq!(bytes[4 * p + 3], 255);
    }
}

#[test]
fn cmaps_accept_an_empty_field() {
    let img = ScalarImage::new(0, 4);
    let mut out = RgbaImage::new(4, 0);
    assert_eq!(Grayscale.cmap(&img, &mut out), Ok(()));
    assert_eq!(out.image_data().len(), 0);
    let stops = vec![GradientStop { pos: 0, color: Rgb { r: 1, g: 1, b: 1 } }];
    let ramp = GradientCMap::new(stops).unwrap();
    assert_eq!(ramp.cmap(&img, &mut out), Ok(()));
}
