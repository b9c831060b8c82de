use away::capture::{
    explicit_bitrate, keyframe_every, ladder_for, ladder_sizes, pinned_size, plan_frame, FramePlan, Ladder,
    Load, Stats, VideoOpts, COOLDOWN_MS, MIN_WIDTH,
};
use away::convert::{bgra_to_i420, I420};

#[test]
fn pinned_sizes_divide_and_round_to_even() {
    assert_eq!(pinned_size(1920, 1080, 1), (1920, 1080));
    assert_eq!(pinned_size(1920, 1080, 2), (960, 540));
    assert_eq!(pinned_size(1920, 1080, 3), (640, 360));
    assert_eq!(pinned_size(1366, 768, 4), (340, 192));
    // A divisor of 0 counts as 1.
    assert_eq!(pinned_size(1921, 1081, 0), (1920, 1080));
}

#[test]
fn ladder_for_1080p_steps_by_four_fifths_down_to_640() {
    let s = ladder_sizes(1920, 1080, (1920, 1080));
    assert_eq!(s, vec![(1920, 1080), (1536, 864), (1228, 690), (982, 552), (784, 440), (640, 360)]);
    assert_eq!(s.last().unwrap().0, MIN_WIDTH);
}

#[test]
fn small_screens_get_one_step() {
    assert_eq!(ladder_sizes(640, 480, (640, 480)), vec![(640, 480)]);
    assert_eq!(ladder_sizes(800, 600, (800, 600)), vec![(800, 600), (640, 480)]);
    // Too small for any step: the base alone.
    assert_eq!(ladder_sizes(1, 1, (1, 1)), vec![(1, 1)]);
}

#[test]
fn scale_pins_the_ladder() {
    let mut l = ladder_for(1920, 1080, Some(2), 0);
    assert!(!l.adaptive());
    assert_eq!(l.current(), (960, 540));
    for t in 0..20u64 {
        assert_eq!(l.observe(Load::Over, 10_000 + t), None);
    }
    assert_eq!(l.current(), (960, 540));
    let a = ladder_for(3840, 2160, None, 0);
    assert!(a.adaptive());
    assert_eq!(a.current(), (1920, 1080));
}

#[test]
fn over_streak_steps_down_after_cooldown() {
    let mut l = Ladder::new(1920, 1080, (1920, 1080), 0);
    // Settling after creation: nothing changes within the cooldown.
    for t in 0..10u64 {
        assert_eq!(l.observe(Load::Over, 100 * t), None);
    }
    let now = COOLDOWN_MS;
    assert_eq!(l.observe(Load::Over, now), None);
    assert_eq!(l.observe(Load::Over, now + 1), None);
    assert_eq!(l.observe(Load::Over, now + 2), None);
    assert_eq!(l.observe(Load::Over, now + 3), Some((1536, 864)));
    assert_eq!(l.current(), (1536, 864));
    // A fresh cooldown follows the change.
    for k in 0..10u64 {
        assert_eq!(l.observe(Load::Over, now + 4 + k), None);
    }
}

#[test]
fn a_steady_frame_breaks_the_streak() {
    let mut l = Ladder::new(1920, 1080, (1920, 1080), 0);
    let t = 5_000;
    assert_eq!(l.observe(Load::Over, t), None);
    assert_eq!(l.observe(Load::Over, t + 1), None);
    assert_eq!(l.observe(Load::Over, t + 2), None);
    assert_eq!(l.observe(Load::Steady, t + 3), None);
    assert_eq!(l.observe(Load::Over, t + 4), None);
    assert_eq!(l.current(), (1920, 1080));
}

#[test]
fn comfortable_spell_steps_up_after_ten_seconds() {
    let mut l = Ladder::from_sizes(vec![(1920, 1080), (1536, 864)], 0);
    for k in 0..4u64 {
        l.observe(Load::Over, 4_000 + k);
    }
    assert_eq!(l.current(), (1536, 864));
    let start = 4_003 + COOLDOWN_MS;
    assert_eq!(l.observe(Load::Under, start), None);
    assert_eq!(l.observe(Load::Under, start + 9_999), None);
    assert_eq!(l.observe(Load::Under, start + 10_000), Some((1920, 1080)));
    // Already at the largest size: under-budget reports change nothing.
    let later = start + 10_000 + COOLDOWN_MS;
    assert_eq!(l.observe(Load::Under, later + 20_000), None);
    assert_eq!(l.current(), (1920, 1080));
}

#[test]
fn an_interruption_restarts_the_comfortable_spell() {
    let mut l = Ladder::from_sizes(vec![(1920, 1080), (1536, 864)], 0);
    for k in 0..4u64 {
        l.observe(Load::Over, 4_000 + k);
    }
    let start = 10_000;
    assert_eq!(l.observe(Load::Under, start), None);
    assert_eq!(l.observe(Load::Steady, start + 5_000), None);
    assert_eq!(l.observe(Load::Under, start + 10_000), None);
    assert_eq!(l.observe(Load::Under, start + 19_999), None);
    assert_eq!(l.observe(Load::Under, start + 20_000), Some((1920, 1080)));
}

#[test]
fn key_frames_come_often_while_warming_up() {
    assert_eq!(keyframe_every(0), 1_000);
    assert_eq!(keyframe_every(2_999), 1_000);
    assert_eq!(keyframe_every(3_000), 10_000);
}

fn frame(c: u8) -> I420 {
    let mut f = I420::new();
    let src = vec![c; 16];
    bgra_to_i420(&src, 8, 2, 2, (2, 2), &mut f);
    f
}

#[test]
fn unchanged_frames_are_skipped_unless_a_key_frame_is_due() {
    let (a, b, c) = (frame(10), frame(10), frame(200));
    assert_eq!(plan_frame(5_000, 100, true, &a, &b), FramePlan::Skip);
    assert_eq!(plan_frame(5_000, 100, true, &a, &c), FramePlan::Encode { keyframe: false });
    assert_eq!(plan_frame(5_000, 100, false, &a, &b), FramePlan::Encode { keyframe: false });
    assert_eq!(plan_frame(5_000, 10_000, true, &a, &b), FramePlan::Encode { keyframe: true });
    assert_eq!(plan_frame(1_000, 1_000, true, &a, &b), FramePlan::Encode { keyframe: true });
}

#[test]
fn explicit_bit_rate_has_a_floor() {
    assert_eq!(explicit_bitrate(0), 200_000);
    assert_eq!(explicit_bitrate(150), 200_000);
    assert_eq!(explicit_bitrate(5_000), 5_000_000);
    assert_eq!(explicit_bitrate(u32::MAX), u32::MAX);
}

#[test]
fn stats_report_every_five_seconds_and_restart() {
    let mut s = Stats::new(1_000);
    s.record_frame(2_000, 8_000, 1_500);
    s.record_skip(1_000);
    s.record_frame(2_000, 6_000, 500);
    assert!(s.maybe_log(5_999).is_none());
    let r = s.maybe_log(6_000).unwrap();
    assert_eq!(r.elapsed_ms, 5_000);
    assert_eq!((r.frames, r.skipped, r.bytes), (2, 1, 2_000));
    assert_eq!((r.convert_us, r.encode_us), (5_000, 14_000));
    assert_eq!((s.since, s.frames, s.skipped, s.bytes), (6_000, 0, 0, 0));
    let o = VideoOpts { fps: 15, scale: None, bitrate_kbps: Some(800) };
    assert_eq!(o.fps, 15);
}
