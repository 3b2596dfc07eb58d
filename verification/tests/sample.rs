use orbital_sim::instance::{instantiate, Axis};
use orbital_sim::sample::{accepts, bias, clamp, emit, ignore, settle, Sample, CUTOFF};
use orbital_sim::single::Sign;
use orbital_sim::voxel::THRESHOLD;

fn bits(v: f32) -> u32 {
    v.to_bits()
}

#[test]
fn clamp_caps_at_one_and_zeroes_what_is_not_a_number() {
    assert_eq!(clamp(bits(0.25)), bits(0.25));
    assert_eq!(clamp(bits(1.0)), bits(1.0));
    assert_eq!(clamp(bits(1.5)), bits(1.0));
    assert_eq!(clamp(bits(4.0e9)), bits(1.0));
    assert_eq!(clamp(bits(f32::INFINITY)), bits(1.0));
    assert_eq!(clamp(bits(0.0)), bits(0.0));
    assert_eq!(clamp(bits(-2.0)), bits(-2.0));
    assert_eq!(clamp(bits(f32::NAN)), bits(0.0));
    assert_eq!(clamp(0xFFC0_0000), bits(0.0));
}

#[test]
fn clamp_agrees_with_the_floating_point_rule() {
    for v in [0.0f32, 3.0e-4, 0.3, 0.9999999, 1.0, 1.0000001, 7.5, -0.1, f32::NAN, f32::INFINITY] {
        let expected = if v <= 1.0 {
            v
        } else if v > 1.0 {
            1.0
        } else {
            0.0
        };
        assert_eq!(clamp(bits(v)), bits(expected), "{v}");
    }
}

#[test]
fn a_density_is_accepted_iff_its_alpha_exceeds_the_threshold() {
    assert!(!accepts(bits(0.0), THRESHOLD));
    assert!(!accepts(bits(0.0002), THRESHOLD));
    assert!(!accepts(bits(0.0003), THRESHOLD));
    assert!(accepts(bits(0.00030001), THRESHOLD));
    assert!(accepts(bits(0.5), THRESHOLD));
    assert!(accepts(bits(1.0), THRESHOLD));
    assert!(accepts(bits(123.0), THRESHOLD));
    assert!(accepts(bits(f32::INFINITY), THRESHOLD));
    assert!(!accepts(bits(f32::NAN), THRESHOLD));
    assert!(!accepts(bits(-1.0), THRESHOLD));
}

#[test]
fn no_density_exceeds_a_threshold_of_one_or_more() {
    for v in [0.5f32, 1.0, 2.0, f32::INFINITY] {
        assert!(!accepts(bits(v), bits(1.0)));
        assert!(!accepts(bits(v), bits(2.0)));
    }
    assert!(accepts(bits(1.0), bits(0.99)));
}

#[test]
fn raising_the_threshold_accepts_no_more() {
    let thresholds = [-1.0f32, 0.0, 1.0e-4, 3.0e-4, 0.01, 0.5, 0.999, 1.0, 3.0];
    let densities = [0.0f32, 1.0e-5, 2.0e-4, 3.0e-4, 5.0e-4, 0.02, 0.7, 1.0, 9.0, f32::NAN, -0.3];
    let mut last = usize::MAX;
    for t in thresholds {
        let count = densities.iter().filter(|d| accepts(bits(**d), bits(t))).count();
        let expected = densities
            .iter()
            .filter(|d| {
                let alpha = if **d <= 1.0 { **d } else if **d > 1.0 { 1.0 } else { 0.0 };
                alpha > t
            })
            .count();
        assert_eq!(count, expected, "threshold {t}");
        assert!(count <= last, "threshold {t}");
        last = count;
    }
}

#[test]
fn the_bias_is_the_side_on_which_the_viewer_stands() {
    assert_eq!(
        bias((bits(3.5), bits(-0.25), bits(0.0))),
        (Sign::Positive, Sign::Negative, Sign::Positive)
    );
    assert_eq!(
        bias((bits(-0.0), bits(f32::NAN), bits(-1.0e-30))),
        (Sign::Negative, Sign::Zero, Sign::Negative)
    );
}

#[test]
fn an_axis_is_ignored_within_half_a_voxel_width() {
    assert_eq!(ignore((bits(0.0), bits(0.49), bits(-0.49))), (true, true, true));
    assert_eq!(ignore((bits(0.5), bits(-0.5), bits(0.51))), (false, false, false));
    assert_eq!(ignore((bits(-0.0), bits(73.0), bits(-0.2))), (true, false, true));
    assert_eq!(ignore((bits(f32::NAN), bits(f32::INFINITY), bits(0.1))), (false, false, true));
}

#[test]
fn emit_gives_nothing_below_the_threshold() {
    let sample = Sample { density: bits(0.0002), sign: bits(1.0), offset: (bits(9.0), bits(9.0), bits(9.0)) };
    assert!(emit(5, (1, 2, 3), &sample, THRESHOLD).is_empty());
    let nothing = Sample { density: bits(0.0), sign: bits(-1.0), offset: (bits(9.0), bits(9.0), bits(9.0)) };
    assert!(emit(5, (1, 2, 3), &nothing, THRESHOLD).is_empty());
}

#[test]
fn emit_gives_the_faces_that_look_at_the_viewer() {
    let sample = Sample {
        density: bits(2.5),
        sign: bits(-1.0),
        offset: (bits(12.0), bits(-0.25), bits(-4.0)),
    };
    let faces = emit(5, (1, 2, 3), &sample, THRESHOLD);
    let expected = instantiate(
        5,
        1,
        2,
        3,
        bits(1.0),
        bits(-1.0),
        (Sign::Positive, Sign::Negative, Sign::Negative),
        (false, true, false),
    );
    assert_eq!(faces, expected);
    assert_eq!(faces.len(), 2);
    assert_eq!(faces[0].rotation, Axis::X);
    assert_eq!(faces[0].position, (4, 5, 7));
    assert_eq!(faces[1].rotation, Axis::Z);
    assert_eq!(faces[1].position, (3, 5, 6));
    assert_eq!(f32::from_bits(faces[0].color.3), 1.0);
}

#[test]
fn an_accepted_voxel_may_have_no_face_at_all() {
    let sample = Sample { density: bits(0.5), sign: bits(1.0), offset: (bits(0.1), bits(0.2), bits(-0.3)) };
    assert!(accepts(sample.density, THRESHOLD));
    assert!(emit(5, (0, 0, 0), &sample, THRESHOLD).is_empty());
}

fn one_s_density(resolution: f32, bohr: f32, x: f32, y: f32, z: f32) -> (f32, f32) {
    let r = (x * x + y * y + z * z).sqrt();
    let n = 1.0 / std::f32::consts::PI.sqrt();
    let p = 1.0 / bohr;
    let core = -1.0 * p.powi(3).sqrt() * (-p * r).exp();
    let sum = n * core;
    let scale = (bohr / 0.25).powi(2) * (2.0 / resolution).sqrt();
    let mut density = sum.powi(2) * scale;
    let signed = sum * scale;
    if signed.abs() <= 0.01 {
        density = 0.0
    }
    (density, signed.signum())
}

#[test]
fn one_s_orbital_is_drawn_at_the_origin_and_not_far_away() {
    let resolution = 5i16;
    let index = 2i16;
    let centre = (index as f32 - (resolution as f32 - 1.0) / 2.0) / resolution as f32;
    assert_eq!(centre, 0.0);
    let (near, near_sign) = one_s_density(5.0, 0.75, centre, centre, centre);
    assert!(near > f32::from_bits(THRESHOLD));
    assert!(accepts(bits(near), THRESHOLD));
    assert_eq!(near_sign.abs(), 1.0);
    let viewer = (bits(100.0), bits(100.0), bits(100.0));
    let here = Sample { density: bits(near), sign: bits(near_sign), offset: viewer };
    let faces = emit(resolution, (index, index, index), &here, THRESHOLD);
    assert_eq!(faces.len(), 3);
    assert_eq!(faces[0].color.0, bits(near_sign));
    assert_eq!(faces[0].color.3, bits(near.min(1.0)));

    let (far, far_sign) = one_s_density(5.0, 0.75, 20.0, 0.0, 0.0);
    assert_eq!(far, 0.0);
    assert!(!accepts(bits(far), THRESHOLD));
    let there = Sample { density: bits(far), sign: bits(far_sign), offset: viewer };
    assert!(emit(resolution, (88, 0, 0), &there, THRESHOLD).is_empty());
}

#[test]
fn cutoff_is_the_pattern_of_one_hundredth() {
    assert_eq!(CUTOFF, 0.01f32.to_bits());
}

#[test]
fn settle_cuts_off_faint_amplitudes() {
    let offset = (bits(1.0), bits(2.0), bits(3.0));
    let strong = settle(bits(-0.8), bits(4.0), offset);
    assert_eq!(strong, Sample { density: bits(4.0), sign: bits(-1.0), offset });
    let faint = settle(bits(0.01), bits(0.0001), offset);
    assert_eq!(faint, Sample { density: bits(0.0), sign: bits(1.0), offset });
    let just_above = settle(bits(0.010000001), bits(0.5), offset);
    assert_eq!(just_above.density, bits(0.5));
    let negative_faint = settle(bits(-0.0099), bits(0.5), offset);
    assert_eq!(negative_faint, Sample { density: bits(0.0), sign: bits(-1.0), offset });
}

#[test]
fn settle_gives_no_sign_to_nothing() {
    let offset = (bits(0.0), bits(0.0), bits(0.0));
    assert_eq!(settle(bits(0.0), bits(0.0), offset).sign, bits(0.0));
    assert_eq!(settle(bits(-0.0), bits(0.0), offset).sign, bits(0.0));
    let lost = settle(bits(f32::NAN), bits(f32::NAN), offset);
    assert_eq!(lost.sign, bits(0.0));
    assert_eq!(lost.density, bits(f32::NAN));
    assert!(!accepts(lost.density, THRESHOLD));
}

#[test]
fn settle_agrees_with_the_floating_point_rule() {
    let offset = (bits(0.0), bits(0.0), bits(0.0));
    for amplitude in [-3.0f32, -0.02, -0.01, -0.005, 0.005, 0.01, 0.0100001, 0.3, 12.0] {
        let density = amplitude * amplitude * 7.0;
        let expected = if amplitude.abs() <= 0.01 { 0.0 } else { density };
        let sample = settle(bits(amplitude), bits(density), offset);
        assert_eq!(sample.density, bits(expected), "{amplitude}");
        assert_eq!(sample.sign, bits(amplitude.signum()), "{amplitude}");
    }
}
