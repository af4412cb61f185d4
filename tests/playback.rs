use kittyaudio::{
    Change, Command, Easing, Frame, LoopPoints, Mixer, Parameter, PlaybackRate, RecordMixer,
    Sound, FLICKS_PER_SECOND, UNITY,
};

fn ramp(n: usize) -> Vec<Frame> {
    (0..n).map(|i| Frame::from_mono(i as i32 * 100)).collect()
}

fn constant(n: usize, v: i32) -> Vec<Frame> {
    vec![Frame::from_mono(v); n]
}

#[test]
fn duration_is_frames_over_rate() {
    let s = Sound::from_frames(44100, constant(3 * 44100, 1));
    assert_eq!(s.duration_seconds(), 3 * FLICKS_PER_SECOND as u128);
    assert_eq!(s.duration(), 3_000_000_000);
    let t = Sound::from_frames(48000, constant(100, 1));
    assert_eq!(t.duration_seconds() * 48000, 100 * FLICKS_PER_SECOND as u128);
    assert_eq!(t.sample_rate(), 48000);
}

#[test]
fn duration_without_rate_is_zero() {
    let s = Sound::from_frames(0, constant(10, 1));
    assert_eq!(s.duration_seconds(), 0);
    assert_eq!(s.duration(), 0);
}

#[test]
fn first_tick_plays_first_frame() {
    let mut s = Sound::from_frames(100, ramp(10));
    assert_eq!(s.index(), 3);
    assert_eq!(s.next_frame(100), Frame::from_mono(0));
    assert_eq!(s.next_frame(100), Frame::from_mono(100));
    assert_eq!(s.next_frame(100), Frame::from_mono(200));
}

#[test]
fn consuming_the_buffer_finishes_the_sound() {
    let mut s = Sound::from_frames(100, ramp(10));
    let mut ticks = 0;
    while !s.finished() {
        s.next_frame(100);
        ticks += 1;
        assert!(ticks < 100);
    }
    assert_eq!(ticks, 7);
    for _ in 0..20 {
        assert_eq!(s.next_frame(100), Frame::zero());
        assert!(s.finished());
    }
    assert_eq!(s.index(), 10);
}

#[test]
fn half_speed_takes_twice_as_long() {
    let mut s = Sound::from_frames(100, ramp(20));
    s.set_playback_rate(PlaybackRate::Factor(UNITY / 2));
    let mut ticks = 0;
    while !s.finished() {
        s.next_frame(100);
        ticks += 1;
    }
    assert_eq!(ticks, 34);
}

#[test]
fn backwards_playback_finishes_at_the_start() {
    let mut s = Sound::from_frames(100, ramp(10));
    s.reverse();
    assert!(s.is_playing_backwards());
    assert_eq!(s.playback_rate(), PlaybackRate::Factor(-UNITY));
    assert_eq!(s.base_playback_rate(), PlaybackRate::Factor(UNITY));
    let mut ticks = 0;
    while !s.finished() {
        s.next_frame(100);
        ticks += 1;
    }
    assert_eq!(s.index(), 0);
    assert_eq!(ticks, 3);
}

#[test]
fn seek_moves_cursor_at_once() {
    let mut s = Sound::from_frames(100, ramp(50));
    s.seek_to_index(20);
    assert_eq!(s.index(), 20);
    assert_eq!(s.base_index(), 3);
    s.next_frame(100);
    assert_eq!(s.index(), 21);
}

#[test]
fn seek_by_and_to_use_flicks() {
    let mut s = Sound::from_frames(100, ramp(500));
    s.seek_to(FLICKS_PER_SECOND / 2);
    assert_eq!(s.index(), 50);
    s.seek_by(FLICKS_PER_SECOND);
    assert_eq!(s.index(), 150);
    s.seek_by(-10 * FLICKS_PER_SECOND);
    assert_eq!(s.index(), 0);
    s.seek_to_end();
    assert_eq!(s.index(), 499);
    s.reset();
    assert_eq!(s.index(), 0);
}

#[test]
fn volume_applies_to_newly_pushed_frames_only() {
    let mut s = Sound::from_frames(100, constant(50, 1000));
    assert_eq!(s.set_volume(UNITY / 2), UNITY);
    assert_eq!(s.volume(), UNITY / 2);
    assert_eq!(s.base_volume(), UNITY);
    assert_eq!(s.next_frame(100), Frame::from_mono(1000));
    assert_eq!(s.next_frame(100), Frame::from_mono(1000));
    s.next_frame(100);
    s.next_frame(100);
    assert_eq!(s.next_frame(100), Frame::from_mono(500));
}

#[test]
fn volume_command_lands_on_target() {
    let mut s = Sound::from_frames(100, constant(100_000, 1000));
    s.add_command(Command::new(
        Change::Volume(0),
        Easing::Linear,
        FLICKS_PER_SECOND,
        5 * FLICKS_PER_SECOND,
    ));
    for _ in 0..100 {
        s.next_frame(100);
    }
    assert_eq!(s.volume(), UNITY);
    for _ in 100..300 {
        s.next_frame(100);
    }
    assert_eq!(s.volume(), 65536 - (199 * 65536) / 500);
    for _ in 300..600 {
        s.next_frame(100);
    }
    assert_eq!(s.volume(), 0);
    assert_eq!(s.base_volume(), 0);
    assert!(s.commands().is_empty());
    for _ in 600..700 {
        s.next_frame(100);
    }
    assert_eq!(s.volume(), 0);
}

#[test]
fn later_playback_rate_command_wins() {
    let mut s = Sound::from_frames(100, constant(100_000, 1));
    s.add_command(Command::new(
        Change::PlaybackRate(PlaybackRate::Factor(2 * UNITY)),
        Easing::Linear,
        0,
        FLICKS_PER_SECOND,
    ));
    s.add_command(Command::new(
        Change::PlaybackRate(PlaybackRate::Factor(UNITY / 2)),
        Easing::Linear,
        0,
        FLICKS_PER_SECOND,
    ));
    for _ in 0..50 {
        s.next_frame(100);
    }
    let progress = 49 * UNITY / 100;
    assert_eq!(s.playback_rate(), PlaybackRate::Factor(UNITY - progress / 2));
    for _ in 50..100 {
        s.next_frame(100);
    }
    assert_eq!(s.playback_rate(), PlaybackRate::Factor(UNITY / 2));
    assert!(s.commands().is_empty());
}

#[test]
fn pause_command_flips_at_half() {
    let mut s = Sound::from_frames(100, constant(1000, 1000));
    s.add_command(Command::new(Change::Pause(true), Easing::Linear, 0, FLICKS_PER_SECOND));
    for _ in 0..50 {
        s.next_frame(100);
    }
    assert!(!s.paused);
    s.next_frame(100);
    assert!(s.paused);
    let at = s.index();
    for _ in 0..10 {
        s.next_frame(100);
    }
    assert_eq!(s.index(), at);
    assert!(s.outputting_silence());
}

#[test]
fn instant_command_jumps_to_target() {
    let mut s = Sound::from_frames(100, constant(1000, 1));
    s.add_command(Command::new(Change::Index(500), Easing::QuadIn, 0, 0));
    s.next_frame(100);
    assert_eq!(s.index(), 501);
    assert_eq!(s.base_index(), 500);
}

#[test]
fn position_command_in_flicks() {
    let mut s = Sound::from_frames(100, constant(1000, 1));
    s.add_command(Command::new(Change::Position(2 * FLICKS_PER_SECOND), Easing::Linear, 0, 0));
    s.next_frame(100);
    assert_eq!(s.index(), 201);
}

#[test]
fn loop_wraps_forwards() {
    let mut s = Sound::from_frames(100, ramp(100));
    s.set_loop_index(10, 20);
    assert!(!s.set_loop_enabled(true));
    assert_eq!((s.loop_start(), s.loop_end()), (10, 20));
    for _ in 0..200 {
        s.next_frame(100);
        assert!(s.index() <= 20);
    }
    s.seek_to_index(20);
    s.next_frame(100);
    assert_eq!(s.index(), 11);
    assert!(!s.finished());
}

#[test]
fn loop_wraps_backwards() {
    let mut s = Sound::from_frames(100, ramp(100));
    s.set_loop_index(10, 20);
    s.set_loop_enabled(true);
    s.reverse();
    s.seek_to_index(10);
    s.next_frame(100);
    assert_eq!(s.index(), 19);
}

#[test]
fn loop_in_flicks() {
    let mut s = Sound::from_frames(100, ramp(100));
    s.set_loop(FLICKS_PER_SECOND / 10, FLICKS_PER_SECOND / 5);
    assert_eq!((s.loop_start(), s.loop_end()), (10, 20));
    assert_eq!(s.loop_start_secs(), FLICKS_PER_SECOND as u128 / 10);
    assert_eq!(s.loop_end_secs(), FLICKS_PER_SECOND as u128 / 5);
    assert!(!s.loop_enabled());
}

#[test]
fn loop_points_from_ranges() {
    let lp = LoopPoints::from_range(3, 9);
    assert_eq!((lp.start, lp.end), (3, 9));
    let lp = LoopPoints::from_range_secs(FLICKS_PER_SECOND, 2 * FLICKS_PER_SECOND, 100);
    assert_eq!((lp.start, lp.end), (100, 200));
    let lp = LoopPoints::from_range_secs(-FLICKS_PER_SECOND, 0, 100);
    assert_eq!((lp.start, lp.end), (0, 0));
}

#[test]
fn parameter_tweens_from_base() {
    let mut p: Parameter<i64> = Parameter::new(10);
    p.start_tween(30);
    assert_eq!((p.value, p.base_value), (30, 10));
    p.update(30, UNITY / 2);
    assert_eq!(p.value, 20);
    p.stop();
    assert_eq!((p.value, p.base_value), (20, 20));
}

#[test]
fn mixing_sums_the_sounds() {
    let a = Sound::from_frames(100, constant(10, 300));
    let b = Sound::from_frames(100, constant(30, -100));
    let mut solo_a = a.clone();
    let mut solo_b = b.clone();
    let mixer = RecordMixer::new();
    mixer.play(a);
    mixer.play(b);
    let mut a_done_at = None;
    for tick in 0..40 {
        let fa = solo_a.next_frame(100);
        let fb = solo_b.next_frame(100);
        assert_eq!(mixer.next_frame(100), fa.add(fb));
        if solo_a.finished() && a_done_at.is_none() {
            a_done_at = Some(tick);
        }
    }
    assert_eq!(a_done_at, Some(6));
    assert!(mixer.is_finished());
    assert_eq!(mixer.next_frame(100), Frame::zero());
}

#[test]
fn finished_sounds_leave_the_mixer_one_by_one() {
    let mixer = Mixer::new();
    let short = mixer.play(Sound::from_frames(100, constant(5, 1)));
    let long = mixer.play(Sound::from_frames(100, constant(50, 1)));
    assert!(!mixer.is_finished());
    for _ in 0..2 {
        mixer.next_frame(100);
    }
    assert!(short.finished());
    assert!(!long.finished());
    assert_eq!(mixer.renderer.has_sounds(), true);
    for _ in 0..60 {
        mixer.next_frame(100);
    }
    assert!(long.finished());
    assert!(mixer.is_finished());
}

#[test]
fn handle_clones_share_one_sound() {
    let mixer = Mixer::new();
    let h = mixer.play(Sound::from_frames(100, constant(50, 1)));
    let h2 = h.clone();
    h.set_volume(UNITY / 4);
    assert_eq!(h2.volume(), UNITY / 4);
    h2.seek_to_index(7);
    assert_eq!(h.index(), 7);
    assert_eq!(h.sample_rate(), 100);
    assert_eq!(h.duration_seconds(), FLICKS_PER_SECOND as u128 / 2);
    h.add_command(Command::new(Change::Volume(UNITY), Easing::Linear, 0, 0));
    mixer.next_frame(100);
    assert_eq!(h2.volume(), UNITY);
}

#[test]
fn fill_buffer_renders_consecutive_ticks() {
    let mixer = RecordMixer::new();
    mixer.play(Sound::from_frames(100, (0..10).map(|i| Frame::from_mono(i)).collect()));
    let mut buf = vec![Frame::zero(); 4];
    mixer.fill_buffer(100, &mut buf);
    assert_eq!(buf, vec![Frame::from_mono(0), Frame::from_mono(1), Frame::from_mono(2), Frame::from_mono(3)]);
}
