use kittyaudio::{Easing, PlaybackRate, Tweenable, UNITY};

const ALL: [Easing; 32] = [
    Easing::Linear,
    Easing::Reverse,
    Easing::BackIn,
    Easing::BackOut,
    Easing::BackInOut,
    Easing::BounceIn,
    Easing::BounceOut,
    Easing::BounceInOut,
    Easing::CircIn,
    Easing::CircOut,
    Easing::CircInOut,
    Easing::CubicIn,
    Easing::CubicOut,
    Easing::CubicInOut,
    Easing::ElasticIn,
    Easing::ElasticOut,
    Easing::ElasticInOut,
    Easing::ExpoIn,
    Easing::ExpoOut,
    Easing::ExpoInOut,
    Easing::QuadIn,
    Easing::QuadOut,
    Easing::QuadInOut,
    Easing::QuartIn,
    Easing::QuartOut,
    Easing::QuartInOut,
    Easing::QuintIn,
    Easing::QuintOut,
    Easing::QuintInOut,
    Easing::SineIn,
    Easing::SineOut,
    Easing::SineInOut,
];

#[test]
fn curves_start_at_zero_and_end_at_one() {
    for e in ALL {
        if e == Easing::Reverse {
            assert_eq!(e.apply(0), UNITY);
            assert_eq!(e.apply(UNITY), 0);
        } else {
            assert_eq!(e.apply(0), 0, "{:?}", e);
            assert_eq!(e.apply(UNITY), UNITY, "{:?}", e);
        }
    }
}

#[test]
fn curves_stay_in_range_and_clamp_time() {
    for e in ALL {
        for k in 0..=64 {
            let v = e.apply(k * UNITY / 64);
            assert!(-UNITY <= v && v <= 2 * UNITY, "{:?}", e);
        }
        assert_eq!(e.apply(-5), e.apply(0));
        assert_eq!(e.apply(3 * UNITY), e.apply(UNITY));
    }
}

#[test]
fn polynomial_curves_at_half() {
    assert_eq!(Easing::Linear.apply(UNITY / 2), UNITY / 2);
    assert_eq!(Easing::QuadIn.apply(UNITY / 2), UNITY / 4);
    assert_eq!(Easing::CubicIn.apply(UNITY / 2), UNITY / 8);
    assert_eq!(Easing::QuartIn.apply(UNITY / 2), UNITY / 16);
    assert_eq!(Easing::QuintIn.apply(UNITY / 2), UNITY / 32);
    assert_eq!(Easing::QuadOut.apply(UNITY / 2), 3 * UNITY / 4);
    assert_eq!(Easing::QuadInOut.apply(UNITY / 4), UNITY / 8);
}

#[test]
fn bounce_out_at_half() {
    assert_eq!(Easing::BounceOut.apply(UNITY / 2), 50176);
}

#[test]
fn sine_out_at_half() {
    let x: i64 = (UNITY / 2) * (2 * UNITY - UNITY / 2);
    let expected = (4 * x as i128 * UNITY as i128) / (5 * UNITY as i128 * UNITY as i128 - x as i128);
    assert_eq!(Easing::SineOut.apply(UNITY / 2) as i128, expected);
    assert!((Easing::SineOut.apply(UNITY / 2) - 46341).abs() < 100);
}

#[test]
fn expo_in_at_half_is_one_thirty_second() {
    assert_eq!(Easing::ExpoIn.apply(UNITY / 2), UNITY / 32);
}

#[test]
fn circ_out_at_half() {
    // sqrt(1 - 1/4) = 0.8660..., rounded down in fixed point
    assert_eq!(Easing::CircOut.apply(UNITY / 2), 56755);
}

#[test]
fn back_in_dips_below_zero() {
    assert!(Easing::BackIn.apply(UNITY / 4) < 0);
    assert!(Easing::ElasticOut.apply(UNITY / 8) > UNITY);
}

#[test]
fn semitones_to_factor() {
    assert_eq!(PlaybackRate::Semitones(12 * UNITY).as_factor(), 2 * UNITY);
    assert_eq!(PlaybackRate::Semitones(-12 * UNITY).as_factor(), UNITY / 2);
    assert_eq!(PlaybackRate::Semitones(0).as_factor(), UNITY);
    let fifth = PlaybackRate::Semitones(7 * UNITY).as_factor();
    assert!((fifth - 98193).abs() < 40);
}

#[test]
fn factor_to_semitones() {
    assert_eq!(PlaybackRate::Factor(2 * UNITY).as_semitones(), 12 * UNITY);
    assert_eq!(PlaybackRate::Factor(UNITY).as_semitones(), 0);
    assert_eq!(PlaybackRate::Factor(UNITY / 4).as_semitones(), -24 * UNITY);
    assert_eq!(PlaybackRate::Factor(-2 * UNITY).as_semitones(), 12 * UNITY);
    assert_eq!(PlaybackRate::Semitones(5).as_semitones(), 5);
}

#[test]
fn reverse_negates_the_active_form() {
    assert_eq!(PlaybackRate::Factor(UNITY).reverse(), PlaybackRate::Factor(-UNITY));
    assert_eq!(PlaybackRate::Semitones(3).reverse(), PlaybackRate::Semitones(-3));
    assert_eq!(PlaybackRate::Factor(i64::MIN).reverse(), PlaybackRate::Factor(i64::MAX));
}

#[test]
fn default_rate_is_normal_speed() {
    assert_eq!(PlaybackRate::default(), PlaybackRate::Factor(UNITY));
    assert_eq!(PlaybackRate::default().as_factor(), UNITY);
}

#[test]
fn playback_rate_blends_in_the_form_of_its_start() {
    let a = PlaybackRate::Semitones(0);
    let b = PlaybackRate::Factor(2 * UNITY);
    assert_eq!(PlaybackRate::interpolate(a, b, UNITY / 2), PlaybackRate::Semitones(6 * UNITY));
    let c = PlaybackRate::Factor(UNITY);
    let d = PlaybackRate::Semitones(12 * UNITY);
    assert_eq!(PlaybackRate::interpolate(c, d, UNITY / 2), PlaybackRate::Factor(3 * UNITY / 2));
}

#[test]
fn index_blend_saturates_at_zero() {
    assert_eq!(usize::interpolate(10, 0, 2 * UNITY), 0);
    assert_eq!(i64::interpolate(0, 100, -UNITY), -100);
}
