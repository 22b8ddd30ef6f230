use perlinrs::gradient::{Vec2, Vertex};
use perlinrs::hashing::hash;
use perlinrs::image::ScalarImage;
use perlinrs::math::{interpolate, sdiv64, smoothstep, ONE};
use perlinrs::noise::{Octave, Perlin};
use perlinrs::ConfigError;

#[test]
fn hash_is_deterministic_and_scrambles() {
    assert_eq!(hash(0), 0);
    assert_eq!(hash(1), 88);
    assert_eq!(hash(2), 30);
    for v in 0..64u32 {
        assert_eq!(hash(v), hash(v));
    }
}

#[test]
fn smoothstep_exact_values() {
    assert_eq!(smoothstep(0), 0);
    assert_eq!(smoothstep(ONE), ONE);
    assert_eq!(smoothstep(ONE / 4), 6784);
    assert_eq!(smoothstep(ONE / 2), ONE / 2);
    assert_eq!(smoothstep(3 * ONE / 4), 58752);
}

#[test]
fn interpolate_identical_endpoints_returns_value() {
    // Interpolating between equal endpoints gives that value back for
    // any weight.
    for w in [0, 1, 819, ONE / 4, ONE / 2, ONE - 1, ONE] {
        assert_eq!(interpolate(12345, 12345, w), 12345);
        assert_eq!(interpolate(-777, -777, w), -777);
        assert_eq!(interpolate(0, 0, w), 0);
    }
}

#[test]
fn interpolate_extreme_weights_exact() {
    let pairs = [(0i64, 65536i64), (100, -500), (-4096, 4096), (7, 7)];
    for (a0, a1) in pairs {
        assert_eq!(interpolate(a0, a1, 0), a0);
        assert_eq!(interpolate(a0, a1, ONE), a1);
    }
    assert_eq!(interpolate(0, 65536, ONE / 4), 6784);
    assert_eq!(interpolate(100, -500, ONE / 2), -200);
}

#[test]
fn gradient_vectors_have_unit_magnitude() {
    // Every lattice gradient is a unit vector up to the table's rounding
    // tolerance, and repeated calls agree.
    for i0 in 0..16usize {
        for i1 in 0..16usize {
            let v = Vertex::new(i0, i1);
            let g = v.vec();
            let mag2 = g.x * g.x + g.y * g.y;
            let err = mag2 - ONE * ONE;
            assert!(-2 * ONE <= err && err <= 2 * ONE);
            let again = Vertex::new(i0, i1).vec();
            assert_eq!(g.x, again.x);
            assert_eq!(g.y, again.y);
        }
    }
}

#[test]
fn vec2_holds_components() {
    let v = Vec2::new(3, -9);
    assert_eq!(v.x, 3);
    assert_eq!(v.y, -9);
}

#[test]
fn image_set_get_roundtrip() {
    let mut img = ScalarImage::new(4, 5);
    assert_eq!(img.nrows(), 4);
    assert_eq!(img.ncols(), 5);
    assert_eq!(img.get(2, 3), 0);
    img.set(2, 3, -42);
    assert_eq!(img.get(2, 3), -42);
    assert_eq!(img.get(2, 2), 0);
    assert_eq!(img.get(3, 3), 0);
    img.clear();
    assert_eq!(img.get(2, 3), 0);
}

#[test]
fn image_min_max_samples() {
    let mut img = ScalarImage::new(2, 2);
    img.set(0, 0, 7);
    img.set(0, 1, -3);
    img.set(1, 0, 100);
    img.set(1, 1, 4);
    assert_eq!(img.min_sample(), Some(-3));
    assert_eq!(img.max_sample(), Some(100));
    let empty = ScalarImage::new(0, 4);
    assert_eq!(empty.min_sample(), None);
    assert_eq!(empty.max_sample(), None);
}

#[test]
fn generate_rejects_zero_scale() {
    let mut img = ScalarImage::new(8, 8);
    assert_eq!(img.generate(0), Err(ConfigError::ZeroScale));
    for i in 0..8 {
        for j in 0..8 {
            assert_eq!(img.get(i, j), 0);
        }
    }
    assert_eq!(img.add_perlin_noise(0, ONE), Err(ConfigError::ZeroScale));
}

#[test]
fn generate_is_deterministic() {
    // Two freshly zeroed fields of identical dimensions produce
    // bit-identical noise for the same scale.
    let mut a = ScalarImage::new(13, 13);
    let mut b = ScalarImage::new(13, 13);
    assert_eq!(a.generate(5), Ok(()));
    assert_eq!(b.generate(5), Ok(()));
    for i in 0..13 {
        for j in 0..13 {
            assert_eq!(a.get(i, j), b.get(i, j));
        }
    }
    // Running generate again overwrites with the same samples.
    assert_eq!(a.generate(5), Ok(()));
    for i in 0..13 {
        for j in 0..13 {
            assert_eq!(a.get(i, j), b.get(i, j));
        }
    }
    assert_eq!(a.get(0, 0), 6986);
    assert_eq!(a.get(6, 7), -438);
}

#[test]
fn generate_clips_at_field_edges() {
    // A 13x13 field with scale 5 has clipped cells at the right and
    // bottom; generation must stay in bounds and keep the dimensions.
    let mut img = ScalarImage::new(13, 13);
    assert_eq!(img.generate(5), Ok(()));
    assert_eq!(img.nrows(), 13);
    assert_eq!(img.ncols(), 13);
    for i in 0..13 {
        for j in 0..13 {
            let v = img.get(i, j);
            assert!(-2 * ONE <= v && v <= 2 * ONE);
        }
    }
}

#[test]
fn generate_corner_pixels_approximate_corner_dot_products() {
    // One single lattice cell: the corner pixels approximate the dot
    // product of the nearest corner's gradient with the tiny offset to
    // the pixel center.
    let mut img = ScalarImage::new(40, 40);
    assert_eq!(img.generate(40), Ok(()));
    let tol = 64;

    let g = Vertex::new(0, 0).vec();
    let p = ONE / 80;
    let dot = sdiv64(p * g.x + p * g.y, ONE);
    assert!((img.get(0, 0) - dot).abs() <= tol);

    let g = Vertex::new(1, 1).vec();
    let p = (2 * 39 + 1) * ONE / 80;
    let dot = sdiv64((p - ONE) * g.x + (p - ONE) * g.y, ONE);
    assert!((img.get(39, 39) - dot).abs() <= tol);
}

#[test]
fn octave_accumulation_composes_exactly() {
    // Adding octaves in two calls gives the same field as one combined
    // call; the fixed-point accumulation is exact, so equality is
    // bit-for-bit rather than within a tolerance.
    let amp04 = 26214;
    let amp02 = 13107;
    let mut split = ScalarImage::new(50, 60);
    let first = vec![
        Octave { scale: 20, amp: amp04 },
        Octave { scale: 3, amp: amp04 },
    ];
    let second = vec![Octave { scale: 6, amp: amp02 }];
    assert_eq!(split.add_octaves(&first), Ok(()));
    assert_eq!(split.add_octaves(&second), Ok(()));

    let mut combined = ScalarImage::new(50, 60);
    let all = vec![
        Octave { scale: 20, amp: amp04 },
        Octave { scale: 3, amp: amp04 },
        Octave { scale: 6, amp: amp02 },
    ];
    assert_eq!(combined.add_octaves(&all), Ok(()));

    for i in 0..50 {
        for j in 0..60 {
            assert_eq!(split.get(i, j), combined.get(i, j));
        }
    }
}

#[test]
fn add_octaves_rejects_zero_scale_untouched() {
    let mut img = ScalarImage::new(6, 6);
    img.set(1, 1, 99);
    let octs = vec![
        Octave { scale: 4, amp: ONE },
        Octave { scale: 0, amp: ONE },
    ];
    assert_eq!(img.add_octaves(&octs), Err(ConfigError::ZeroScale));
    assert_eq!(img.get(1, 1), 99);
    assert_eq!(img.get(0, 0), 0);
}

#[test]
fn perlin_layer_matches_direct_call() {
    let layer = Perlin::new(7, 5000);
    assert_eq!(layer.scale, 7);
    assert_eq!(layer.amp, 5000);
    let mut through_layer = ScalarImage::new(20, 20);
    assert_eq!(layer.add_to_image(&mut through_layer), Ok(()));
    let mut direct = ScalarImage::new(20, 20);
    assert_eq!(direct.add_perlin_noise(7, 5000), Ok(()));
    for i in 0..20 {
        for j in 0..20 {
            assert_eq!(through_layer.get(i, j), direct.get(i, j));
        }
    }
    let zero_layer = Perlin::new(0, 5000);
    let mut img = ScalarImage::new(4, 4);
    assert_eq!(zero_layer.add_to_image(&mut img), Err(ConfigError::ZeroScale));
}

#[test]
fn noise_is_additive_over_existing_contents() {
    let mut base = ScalarImage::new(9, 9);
    for i in 0..9 {
        for j in 0..9 {
            base.set(i, j, 1000 + (i * 9 + j) as i64);
        }
    }
    let mut noisy = ScalarImage::new(9, 9);
    for i in 0..9 {
        for j in 0..9 {
            noisy.set(i, j, 1000 + (i * 9 + j) as i64);
        }
    }
    assert_eq!(noisy.add_perlin_noise(4, 2 * ONE), Ok(()));
    let mut fresh = ScalarImage::new(9, 9);
    assert_eq!(fresh.add_perlin_noise(4, 2 * ONE), Ok(()));
    for i in 0..9 {
        for j in 0..9 {
            assert_eq!(noisy.get(i, j), base.get(i, j) + fresh.get(i, j));
        }
    }
}

#[test]
fn empty_octave_list_changes_nothing() {
    let mut img = ScalarImage::new(3, 3);
    img.set(1, 1, 55);
    assert_eq!(img.add_octaves(&Vec::new()), Ok(()));
    assert_eq!(img.get(1, 1), 55);
    assert_eq!(img.get(0, 0), 0);
}
