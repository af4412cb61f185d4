use kittyaudio::{frames_from_channels, interpolate_frame, DecodeError, Frame, Resampler, UNITY};

fn window(frames: [Frame; 4]) -> Resampler {
    let mut r = Resampler::new(0);
    for (i, f) in frames.iter().enumerate() {
        r.push_frame(*f, i);
    }
    r
}

#[test]
fn get_at_zero_is_current_frame() {
    let r = window([
        Frame::new(-7, 3),
        Frame::new(1200, -450),
        Frame::new(-3000, 9000),
        Frame::new(42, 42),
    ]);
    assert_eq!(r.get(0), Frame::new(1200, -450));
}

#[test]
fn get_at_one_is_next_frame() {
    let r = window([
        Frame::new(-7, 3),
        Frame::new(1200, -450),
        Frame::new(-3000, 9000),
        Frame::new(42, 42),
    ]);
    assert_eq!(r.get(UNITY), Frame::new(-3000, 9000));
}

#[test]
fn get_near_one_approaches_next_frame() {
    let r = window([
        Frame::new(0, 0),
        Frame::new(0, 0),
        Frame::new(10000, 10000),
        Frame::new(10000, 10000),
    ]);
    let near = r.get(UNITY - 1);
    assert!((near.left - 10000).abs() <= 1);
}

#[test]
fn hermite_midpoint_value() {
    let p = Frame::from_mono(0);
    let c = Frame::from_mono(0);
    let n = Frame::from_mono(1000);
    let q = Frame::from_mono(1000);
    assert_eq!(interpolate_frame(p, c, n, q, UNITY / 2), Frame::from_mono(500));
}

#[test]
fn current_frame_index_is_second_newest_but_one() {
    let r = window([Frame::zero(), Frame::zero(), Frame::zero(), Frame::zero()]);
    assert_eq!(r.current_frame_index(), 1);
}

#[test]
fn silence_after_four_silent_pushes() {
    let mut r = Resampler::new(0);
    r.push_frame(Frame::new(5, 5), 0);
    r.push_frame(Frame::new(0, 1), 1);
    assert!(!r.outputting_silence());
    for i in 2..6 {
        r.push_frame(Frame::zero(), i);
    }
    assert!(r.outputting_silence());
    r.push_frame(Frame::new(0, -1), 6);
    assert!(!r.outputting_silence());
    for i in 7..10 {
        r.push_frame(Frame::zero(), i);
        assert!(!r.outputting_silence());
    }
    r.push_frame(Frame::zero(), 10);
    assert!(r.outputting_silence());
}

#[test]
fn fresh_resampler_is_silent() {
    assert!(Resampler::new(9).outputting_silence());
    assert_eq!(Resampler::new(9).current_frame_index(), 9);
}

#[test]
fn frame_arithmetic_saturates() {
    let a = Frame::new(i32::MAX, i32::MIN);
    assert_eq!(a.add(Frame::new(1, -1)), Frame::new(i32::MAX, i32::MIN));
    assert_eq!(Frame::new(3, 4).sub(Frame::new(5, 1)), Frame::new(-2, 3));
    assert_eq!(Frame::new(i32::MIN, 7).neg(), Frame::new(i32::MAX, -7));
    let mut b = Frame::new(1, 2);
    b.add_assign(Frame::new(10, 20));
    assert_eq!(b, Frame::new(11, 22));
}

#[test]
fn frame_gain_rounds_down() {
    assert_eq!(Frame::new(100, -3).mul(UNITY / 2), Frame::new(50, -2));
    assert_eq!(Frame::new(100, 100).mul(2 * UNITY), Frame::new(200, 200));
    assert_eq!(Frame::new(i32::MAX, 1).mul(4 * UNITY), Frame::new(i32::MAX, 4));
}

#[test]
fn frame_in_place_operations() {
    let mut f = Frame::new(10, -10);
    f.sub_assign(Frame::new(4, 4));
    assert_eq!(f, Frame::new(6, -14));
    f.mul_assign(UNITY / 2);
    assert_eq!(f, Frame::new(3, -7));
}

#[test]
fn mono_plane_is_duplicated() {
    let planes = vec![vec![1, -2, 3]];
    assert_eq!(
        frames_from_channels(&planes),
        Ok(vec![Frame::new(1, 1), Frame::new(-2, -2), Frame::new(3, 3)])
    );
}

#[test]
fn stereo_planes_are_paired_up_to_the_shorter() {
    let planes = vec![vec![1, 2, 3], vec![10, 20]];
    assert_eq!(frames_from_channels(&planes), Ok(vec![Frame::new(1, 10), Frame::new(2, 20)]));
}

#[test]
fn other_channel_counts_are_refused() {
    let planes = vec![vec![1], vec![2], vec![3]];
    assert_eq!(frames_from_channels(&planes), Err(DecodeError::UnsupportedNumberOfChannels(3)));
    let none: Vec<Vec<i32>> = Vec::new();
    assert_eq!(frames_from_channels(&none), Err(DecodeError::UnsupportedNumberOfChannels(0)));
}
