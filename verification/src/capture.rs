//! The screen sharing loop's decisions: the output size ladder and the
//! "does the machine keep up" controller, when to force a key frame, when a
//! frame can be skipped because nothing changed, and the periodic statistics.
//! The loop itself (capture, encode, send, sleep) belongs to the caller; times
//! are handed in as milliseconds of a monotonic clock.

use vstd::prelude::*;

use crate::convert::{I420, auto_size, auto_size_spec, even_down, fit_height, fit_height_spec};

verus! {

/// Screen stream settings (from the command line, fixed for a session).
#[derive(Debug, Clone, Copy)]
pub struct VideoOpts {
    pub fps: u32,
    /// Scale divisor. When given the size is pinned (no adaptation); when not,
    /// the largest size the machine keeps up with is found by measuring.
    pub scale: Option<u32>,
    /// Target bit rate in kbit/s; computed from size and frame rate when absent.
    pub bitrate_kbps: Option<u32>,
}

/// The smallest width the ladder steps down to.
pub const MIN_WIDTH: usize = 640;

/// Early in a session key frames come every second (so that the picture
/// opens fast), for the first three seconds; after that every ten seconds,
/// as insurance against packet loss.
pub const KEYFRAME_WARMUP_MS: u64 = 3000;
pub const KEYFRAME_WARMUP_INTERVAL_MS: u64 = 1000;
pub const KEYFRAME_INTERVAL_MS: u64 = 10000;

/// How often the statistics are reported.
pub const STATS_INTERVAL_MS: u64 = 5000;

/// Consecutive over-budget reports before stepping down.
pub const OVER_STREAK: u32 = 4;
/// How long the cost must stay well under budget before stepping up.
pub const COMFORT_HOLD_MS: u64 = 10000;
/// Settling time after a change, during which nothing changes.
pub const COOLDOWN_MS: u64 = 3000;

/// The size for a pinned scale divisor: each side divided by the divisor
/// (at least 1) and rounded down to an even number.
pub open spec fn pinned_size_spec(sw: int, sh: int, scale: int) -> (int, int) {
    let n = if scale < 1 {
        1
    } else {
        scale
    };
    (even_down(sw / n), even_down(sh / n))
}

/// The size for scale divisor `scale`.
pub fn pinned_size(sw: usize, sh: usize, scale: u32) -> (r: (usize, usize))
    ensures
        (r.0 as int, r.1 as int) == pinned_size_spec(sw as int, sh as int, scale as int),
{
    let n: usize = if scale < 1 {
        1
    } else {
        scale as usize
    };
    let a = sw / n;
    let b = sh / n;
    (a - a % 2, b - b % 2)
}

/// The next width down from `width`: four fifths, no less than `MIN_WIDTH`,
/// rounded down to even.
pub open spec fn next_width(width: int) -> int {
    let w = width * 4 / 5;
    even_down(if w < MIN_WIDTH {
        MIN_WIDTH as int
    } else {
        w
    })
}

/// The ladder of sizes from `width` down: each step keeps the source's
/// aspect ratio; it stops at `MIN_WIDTH`, at a size below 2, or when a step
/// would not shrink.
pub open spec fn ladder_from(sw: int, sh: int, width: int) -> Seq<(usize, usize)>
    decreases width,
{
    let h = fit_height_spec(sw, sh, width);
    if width < 2 || h < 2 {
        seq![]
    } else if width <= MIN_WIDTH {
        seq![(width as usize, h as usize)]
    } else if next_width(width) >= width {
        seq![(width as usize, h as usize)]
    } else {
        seq![(width as usize, h as usize)] + ladder_from(sw, sh, next_width(width))
    }
}

/// The sizes of an adaptive ladder starting at `base`; `base` alone when no
/// step is possible.
pub open spec fn ladder_sizes_spec(sw: int, sh: int, base: (usize, usize)) -> Seq<(usize, usize)> {
    let s = ladder_from(sw, sh, even_down(base.0 as int));
    if s.len() == 0 {
        seq![base]
    } else {
        s
    }
}

/// The widths of a ladder strictly decrease, every step after the first is
/// at least `MIN_WIDTH` wide, and every size is even and at least 2 x 2.
pub open spec fn ladder_shape(s: Seq<(usize, usize)>) -> bool {
    &&& forall|i: int, j: int| 0 <= i < j < s.len() ==> s[j].0 < s[i].0
    &&& forall|i: int| 1 <= i < s.len() ==> s[i].0 >= MIN_WIDTH
    &&& forall|i: int| 0 <= i < s.len() ==> s[i].0 % 2 == 0 && s[i].0 >= 2 && s[i].1 >= 2 && s[i].1 % 2 == 0
}

pub proof fn lemma_ladder_from(sw: int, sh: int, width: int)
    requires
        width % 2 == 0,
        0 <= width,
        0 <= sw,
        0 <= sh,
        width * sh <= usize::MAX,
    ensures
        ladder_shape(ladder_from(sw, sh, width)),
        forall|i: int| 0 <= i < ladder_from(sw, sh, width).len() ==> ladder_from(sw, sh, width)[i].0 <= width,
        ladder_from(sw, sh, width).len() > 0 ==> ladder_from(sw, sh, width)[0].0 == width,
    decreases width,
{
    let h = fit_height_spec(sw, sh, width);
    if sw > 0 {
        assert(0 <= width * sh / sw <= width * sh) by (nonlinear_arith)
            requires
                sw > 0,
                width >= 0,
                sh >= 0,
        ;
    }
    assert(0 <= h <= usize::MAX && h % 2 == 0);
    if width < 2 || h < 2 {
    } else if width <= MIN_WIDTH {
    } else if next_width(width) >= width {
    } else {
        let n = next_width(width);
        if sh == 0 {
            assert(width * sh == 0) by (nonlinear_arith)
                requires
                    sh == 0,
            ;
        }
        assert(sh >= 1);
        assert(width <= width * sh) by (nonlinear_arith)
            requires
                sh >= 1,
                width >= 0,
        ;
        assert(width as usize == width && h as usize == h);
        assert(n * sh <= width * sh) by (nonlinear_arith)
            requires
                0 <= n <= width,
                sh >= 0,
        ;
        lemma_ladder_from(sw, sh, n);
        let rest = ladder_from(sw, sh, n);
        let s = ladder_from(sw, sh, width);
        assert(s == seq![(width as usize, h as usize)] + rest);
        assert(n >= MIN_WIDTH);
        assert forall|i: int, j: int| 0 <= i < j < s.len() implies s[j].0 < s[i].0 by {
            if i == 0 {
                assert(s[j] == rest[j - 1]);
            } else {
                assert(s[i] == rest[i - 1] && s[j] == rest[j - 1]);
            }
        }
        assert forall|i: int| 1 <= i < s.len() implies s[i].0 >= MIN_WIDTH by {
            assert(s[i] == rest[i - 1]);
            if i >= 2 {
                assert(rest[i - 1].0 >= MIN_WIDTH);
            } else {
                assert(rest[0].0 == n);
            }
        }
        assert forall|i: int| 0 <= i < s.len() implies s[i].0 % 2 == 0 && s[i].0 >= 2 && s[i].1 >= 2 && s[i].1 % 2 == 0 by {
            if i > 0 {
                assert(s[i] == rest[i - 1]);
            }
        }
    }
}

/// The sizes of an adaptive ladder for a `sw` x `sh` screen starting at `base`.
pub fn ladder_sizes(sw: usize, sh: usize, base: (usize, usize)) -> (r: Vec<(usize, usize)>)
    requires
        base.0 * sh <= usize::MAX,
        base.0 * 4 <= usize::MAX,
    ensures
        r@ == ladder_sizes_spec(sw as int, sh as int, base),
        r@.len() >= 1,
{
    let mut sizes: Vec<(usize, usize)> = Vec::new();
    let mut width = base.0 - base.0 % 2;
    let ghost start = width as int;
    loop
        invariant_except_break
            width <= base.0,
            width % 2 == 0,
            base.0 * sh <= usize::MAX,
            base.0 * 4 <= usize::MAX,
            sizes@ + ladder_from(sw as int, sh as int, width as int) == ladder_from(sw as int, sh as int, start),
        ensures
            sizes@ == ladder_from(sw as int, sh as int, start),
        decreases width,
    {
        assert(width * sh <= base.0 * sh) by (nonlinear_arith)
            requires
                width <= base.0,
        ;
        let h = fit_height(sw, sh, width);
        if width < 2 || h < 2 {
            assert(sizes@ + seq![] =~= sizes@);
            break;
        }
        let ghost before = sizes@;
        sizes.push((width, h));
        if width <= MIN_WIDTH {
            assert(before + seq![(width, h)] =~= sizes@);
            break;
        }
        let w45 = width * 4 / 5;
        let m = if w45 < MIN_WIDTH {
            MIN_WIDTH
        } else {
            w45
        };
        let next = m - m % 2;
        if next >= width {
            assert(next as int == next_width(width as int));
            assert(before + seq![(width, h)] =~= sizes@);
            break;
        }
        proof {
            assert(next as int == next_width(width as int));
            assert(sizes@ + ladder_from(sw as int, sh as int, next as int) =~= sizes@.drop_last() + (seq![
                (width, h),
            ] + ladder_from(sw as int, sh as int, next as int)));
        }
        width = next;
    }
    if sizes.len() == 0 {
        sizes.push(base);
    }
    sizes
}

/// The ladder's state as plain values.
pub struct LadderV {
    pub sizes: Seq<(usize, usize)>,
    pub idx: nat,
    pub over: u32,
    pub comfortable_since: Option<u64>,
    pub changed_at: u64,
}

/// The cost of a frame against its time budget, as the caller measured it
/// (a moving average of the cost per frame).
#[derive(Debug, Clone, Copy, PartialEq, Eq, Structural)]
pub enum Load {
    /// Above 85% of the budget.
    Over,
    /// Below half of the budget.
    Under,
    /// In between.
    Steady,
}

/// Output size steps and the controller that picks the largest the machine
/// keeps up with: a step down after a streak of over-budget frames, a step
/// up after a long comfortable spell, and a settling time after each change.
pub struct Ladder {
    sizes: Vec<(usize, usize)>,
    idx: usize,
    over: u32,
    comfortable_since: Option<u64>,
    changed_at: u64,
}

impl View for Ladder {
    type V = LadderV;

    closed spec fn view(&self) -> LadderV {
        LadderV {
            sizes: self.sizes@,
            idx: self.idx as nat,
            over: self.over,
            comfortable_since: self.comfortable_since,
            changed_at: self.changed_at,
        }
    }
}

/// The ladder after a change to step `idx` at time `now`.
pub open spec fn stepped(l: LadderV, idx: nat, now: u64) -> LadderV {
    LadderV { idx, over: 0, comfortable_since: None, changed_at: now, ..l }
}

/// What a frame's load report does to the ladder, and the new size when it
/// changes. A ladder of one size never changes; nothing changes while
/// settling after a change.
pub open spec fn observe_step(l: LadderV, load: Load, now: u64) -> (LadderV, Option<(usize, usize)>) {
    if l.sizes.len() <= 1 {
        (l, None)
    } else if now < l.changed_at + COOLDOWN_MS {
        (l, None)
    } else {
        match load {
            Load::Over => {
                let over = if l.over == u32::MAX {
                    u32::MAX
                } else {
                    (l.over + 1) as u32
                };
                if over >= OVER_STREAK && l.idx + 1 < l.sizes.len() {
                    (stepped(l, l.idx + 1, now), Some(l.sizes[l.idx + 1 as int]))
                } else {
                    (LadderV { over, comfortable_since: None, ..l }, None)
                }
            },
            _ => {
                if load == Load::Under && l.idx > 0 {
                    let since = match l.comfortable_since {
                        Some(t) => t,
                        None => now,
                    };
                    if now >= since + COMFORT_HOLD_MS {
                        (stepped(l, (l.idx - 1) as nat, now), Some(l.sizes[l.idx - 1 as int]))
                    } else {
                        (LadderV { over: 0, comfortable_since: Some(since), ..l }, None)
                    }
                } else {
                    (LadderV { over: 0, comfortable_since: None, ..l }, None)
                }
            },
        }
    }
}

impl Ladder {
    /// A ladder always has a size, and its position is one of them.
    #[verifier::type_invariant]
    closed spec fn inv(&self) -> bool {
        &&& self.sizes@.len() >= 1
        &&& self.idx < self.sizes@.len()
    }

    /// A ladder over `sizes`, at the first (largest) size, changed at `now`.
    pub fn from_sizes(sizes: Vec<(usize, usize)>, now: u64) -> (r: Self)
        requires
            sizes@.len() >= 1,
        ensures
            r@ == (LadderV { sizes: sizes@, idx: 0, over: 0, comfortable_since: None, changed_at: now }),
    {
        Ladder { sizes, idx: 0, over: 0, comfortable_since: None, changed_at: now }
    }

    /// A ladder of the one size `size`: no adaptation.
    pub fn pinned(size: (usize, usize), now: u64) -> (r: Self)
        ensures
            r@ == (LadderV { sizes: seq![size], idx: 0, over: 0, comfortable_since: None, changed_at: now }),
    {
        let mut v: Vec<(usize, usize)> = Vec::new();
        v.push(size);
        Ladder::from_sizes(v, now)
    }

    /// The adaptive ladder for a `sw` x `sh` screen starting at `base`.
    pub fn new(sw: usize, sh: usize, base: (usize, usize), now: u64) -> (r: Self)
        requires
            base.0 * sh <= usize::MAX,
            base.0 * 4 <= usize::MAX,
        ensures
            r@ == (LadderV {
                sizes: ladder_sizes_spec(sw as int, sh as int, base),
                idx: 0,
                over: 0,
                comfortable_since: None,
                changed_at: now,
            }),
    {
        Ladder::from_sizes(ladder_sizes(sw, sh, base), now)
    }

    /// Whether the size adapts (more than one step).
    pub fn adaptive(&self) -> (r: bool)
        ensures
            r == (self@.sizes.len() > 1),
    {
        self.sizes.len() > 1
    }

    /// The current size.
    pub fn current(&self) -> (r: (usize, usize))
        ensures
            r == self@.sizes[self@.idx as int],
            self@.idx < self@.sizes.len(),
    {
        proof {
            use_type_invariant(self);
        }
        self.sizes[self.idx]
    }

    fn step_taken(&mut self, idx: usize, now: u64) -> (r: (usize, usize))
        requires
            idx < old(self)@.sizes.len(),
        ensures
            final(self)@ == stepped(old(self)@, idx as nat, now),
            r == old(self)@.sizes[idx as int],
    {
        proof {
            use_type_invariant(&*self);
        }
        self.idx = idx;
        self.over = 0;
        self.comfortable_since = None;
        self.changed_at = now;
        self.sizes[idx]
    }

    /// Reports one frame's load at time `now`; returns the new size when the
    /// ladder steps (the caller then restarts its cost average).
    pub fn observe(&mut self, load: Load, now: u64) -> (r: Option<(usize, usize)>)
        ensures
            (final(self)@, r) == observe_step(old(self)@, load, now),
            final(self)@.idx < final(self)@.sizes.len(),
    {
        proof {
            use_type_invariant(&*self);
        }
        if self.sizes.len() <= 1 {
            return None;
        }
        if now < self.changed_at || now - self.changed_at < COOLDOWN_MS {
            return None;
        }
        match load {
            Load::Over => {
                let over = self.over.saturating_add(1);
                if over >= OVER_STREAK && self.idx + 1 < self.sizes.len() {
                    let next = self.idx + 1;
                    return Some(self.step_taken(next, now));
                }
                self.over = over;
                self.comfortable_since = None;
                None
            },
            _ => {
                self.over = 0;
                let under = match load {
                    Load::Under => true,
                    _ => false,
                };
                if under && self.idx > 0 {
                    let since = match self.comfortable_since {
                        Some(t) => t,
                        None => now,
                    };
                    if now >= since && now - since >= COMFORT_HOLD_MS {
                        let prev = self.idx - 1;
                        return Some(self.step_taken(prev, now));
                    }
                    self.comfortable_since = Some(since);
                    None
                } else {
                    self.comfortable_since = None;
                    None
                }
            },
        }
    }
}

/// The starting ladder: pinned to the scale divisor when one is given,
/// else adaptive from the automatic starting size.
pub fn ladder_for(sw: usize, sh: usize, scale: Option<u32>, now: u64) -> (r: Ladder)
    requires
        sw * sh <= usize::MAX,
        sw * 4 <= usize::MAX,
    ensures
        r@ == match scale {
            Some(s) => {
                let p = pinned_size_spec(sw as int, sh as int, s as int);
                LadderV {
                    sizes: seq![(p.0 as usize, p.1 as usize)],
                    idx: 0,
                    over: 0,
                    comfortable_since: None,
                    changed_at: now,
                }
            },
            None => {
                let b = auto_size_spec(sw as int, sh as int);
                LadderV {
                    sizes: ladder_sizes_spec(sw as int, sh as int, (b.0 as usize, b.1 as usize)),
                    idx: 0,
                    over: 0,
                    comfortable_since: None,
                    changed_at: now,
                }
            },
        },
{
    match scale {
        Some(s) => Ladder::pinned(pinned_size(sw, sh, s), now),
        None => {
            let base = auto_size(sw, sh);
            assert(base.0 <= sw);
            assert(base.0 * sh <= sw * sh) by (nonlinear_arith)
                requires
                    base.0 <= sw,
            ;
            Ladder::new(sw, sh, base, now)
        },
    }
}

/// How often a key frame is due, `since_start` milliseconds into a session.
pub open spec fn keyframe_every_spec(since_start: u64) -> u64 {
    if since_start < KEYFRAME_WARMUP_MS {
        KEYFRAME_WARMUP_INTERVAL_MS
    } else {
        KEYFRAME_INTERVAL_MS
    }
}

/// How often a key frame is due, `since_start` milliseconds into a session.
pub fn keyframe_every(since_start: u64) -> (r: u64)
    ensures
        r == keyframe_every_spec(since_start),
{
    if since_start < KEYFRAME_WARMUP_MS {
        KEYFRAME_WARMUP_INTERVAL_MS
    } else {
        KEYFRAME_INTERVAL_MS
    }
}

/// What to do with a captured frame.
#[derive(Debug, Clone, Copy, PartialEq, Eq, Structural)]
pub enum FramePlan {
    /// Nothing changed and no key frame is due: do not encode.
    Skip,
    /// Encode the frame, as a key frame when `keyframe`.
    Encode { keyframe: bool },
}

/// Decides about a captured frame `cur`: when a key frame is due it is
/// encoded even if the screen did not change (the only way to recover a
/// picture damaged by packet loss); otherwise a frame identical to the last
/// one sent (`prev`, when there is one) is skipped.
pub fn plan_frame(since_start: u64, since_keyframe: u64, have_prev: bool, cur: &I420, prev: &I420) -> (r: FramePlan)
    ensures
        ({
            let key_due = since_keyframe >= keyframe_every_spec(since_start);
            let same = cur.spec_width() == prev.spec_width() && cur.spec_height() == prev.spec_height()
                && cur.plane_y() == prev.plane_y() && cur.plane_u() == prev.plane_u() && cur.plane_v()
                == prev.plane_v();
            r == if !key_due && have_prev && same {
                FramePlan::Skip
            } else {
                FramePlan::Encode { keyframe: key_due }
            }
        }),
{
    let key_due = since_keyframe >= keyframe_every(since_start);
    if !key_due && have_prev && cur.same_as(prev) {
        FramePlan::Skip
    } else {
        FramePlan::Encode { keyframe: key_due }
    }
}

/// The bit rate for an explicit `kbps` setting: at least 200 kbit/s.
pub fn explicit_bitrate(kbps: u32) -> (r: u32)
    ensures
        r == if kbps as int * 1000 > u32::MAX {
            u32::MAX as int
        } else if kbps * 1000 < 200_000 {
            200_000
        } else {
            kbps * 1000
        },
{
    let b: u32 = if kbps > u32::MAX / 1000 {
        u32::MAX
    } else {
        kbps * 1000
    };
    if b < 200_000 {
        200_000
    } else {
        b
    }
}

/// One statistics report: counts and summed times (microseconds) since the
/// last report, over `elapsed_ms`.
#[derive(Debug, Clone, Copy)]
pub struct StatsReport {
    pub elapsed_ms: u64,
    pub frames: u64,
    pub skipped: u64,
    pub bytes: u64,
    pub convert_us: u64,
    pub encode_us: u64,
}

/// Periodic measurements of the sharing loop.
#[derive(Debug)]
pub struct Stats {
    pub since: u64,
    pub frames: u64,
    pub skipped: u64,
    pub bytes: u64,
    pub convert_us: u64,
    pub encode_us: u64,
}

impl Stats {
    /// Empty counters starting at `now`.
    pub fn new(now: u64) -> (r: Self)
        ensures
            r == (Stats { since: now, frames: 0, skipped: 0, bytes: 0, convert_us: 0, encode_us: 0 }),
    {
        Stats { since: now, frames: 0, skipped: 0, bytes: 0, convert_us: 0, encode_us: 0 }
    }

    /// Counts a skipped frame and its conversion time.
    pub fn record_skip(&mut self, convert_us: u64)
        ensures
            *final(self) == (Stats {
                skipped: old(self).skipped.saturating_add(1),
                convert_us: old(self).convert_us.saturating_add(convert_us),
                ..*old(self)
            }),
    {
        self.skipped = self.skipped.saturating_add(1);
        self.convert_us = self.convert_us.saturating_add(convert_us);
    }

    /// Counts an encoded frame: its conversion and encoding times and the
    /// bytes it produced.
    pub fn record_frame(&mut self, convert_us: u64, encode_us: u64, bytes: u64)
        ensures
            *final(self) == (Stats {
                frames: old(self).frames.saturating_add(1),
                convert_us: old(self).convert_us.saturating_add(convert_us),
                encode_us: old(self).encode_us.saturating_add(encode_us),
                bytes: old(self).bytes.saturating_add(bytes),
                ..*old(self)
            }),
    {
        self.frames = self.frames.saturating_add(1);
        self.convert_us = self.convert_us.saturating_add(convert_us);
        self.encode_us = self.encode_us.saturating_add(encode_us);
        self.bytes = self.bytes.saturating_add(bytes);
    }

    /// Once `STATS_INTERVAL_MS` have passed since the last report, returns the
    /// counters and starts over at `now`; before that, nothing changes.
    pub fn maybe_log(&mut self, now: u64) -> (r: Option<StatsReport>)
        ensures
            if now >= old(self).since + STATS_INTERVAL_MS {
                &&& r == Some(
                    StatsReport {
                        elapsed_ms: (now - old(self).since) as u64,
                        frames: old(self).frames,
                        skipped: old(self).skipped,
                        bytes: old(self).bytes,
                        convert_us: old(self).convert_us,
                        encode_us: old(self).encode_us,
                    },
                )
                &&& *final(self) == (Stats {
                    since: now,
                    frames: 0,
                    skipped: 0,
                    bytes: 0,
                    convert_us: 0,
                    encode_us: 0,
                })
            } else {
                r is None && *final(self) == *old(self)
            },
    {
        if now < self.since || now - self.since < STATS_INTERVAL_MS {
            return None;
        }
        let report = StatsReport {
            elapsed_ms: now - self.since,
            frames: self.frames,
            skipped: self.skipped,
            bytes: self.bytes,
            convert_us: self.convert_us,
            encode_us: self.encode_us,
        };
        *self = Stats::new(now);
        Some(report)
    }
}

} // verus!
