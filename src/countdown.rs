//! The run's fixed configuration and the countdown state machine: ticks that
//! count down, and the blink that takes over once a countdown reaches zero.
use vstd::prelude::*;
use vstd::arithmetic::div_mod::{lemma_div_denominator, lemma_fundamental_div_mod};
use crate::clock::{abs, clock_text, format_time, lemma_clock_text_unsigned, time_text};

verus! {

/// A foreground colour for the clock and the caption.
#[derive(Clone, Copy, Debug, PartialEq, Eq, Structural)]
pub enum Colour {
    Black,
    Red,
    Green,
    Yellow,
    Blue,
    Purple,
    Cyan,
    White,
    RGB(u8, u8, u8),
}

/// How painted text looks: its foreground colour, and whether it is bold.
#[derive(Clone, Copy, Debug, PartialEq, Eq, Structural)]
pub struct TextStyle {
    pub fg: Colour,
    pub bold: bool,
}

/// The settings of one run, fixed before the loop starts.
#[derive(Debug)]
pub struct TimerConfig {
    /// Keep counting below zero, as a stopwatch does.
    pub allow_negative: bool,
    /// The count that the run starts from.
    pub initial_seconds: i32,
    /// The text shown above the clock; empty for none.
    pub caption: String,
    /// Show the hours and minutes groups even while they are zero.
    pub show_leading_zero_groups: bool,
    /// The time between two blink toggles, in milliseconds.
    pub blink_rate_ms: u64,
    /// Draw the caption in block letters rather than as plain text.
    pub use_font_for_caption: bool,
    /// How the clock and the caption look.
    pub style: TextStyle,
}

impl Default for TimerConfig {
    fn default() -> (r: Self)
        ensures
            !r.allow_negative,
            r.initial_seconds == 0,
            r.caption@ == Seq::<char>::empty(),
            r.show_leading_zero_groups,
            r.blink_rate_ms == 500,
            !r.use_font_for_caption,
            r.style == (TextStyle { fg: Colour::White, bold: false }),
    {
        TimerConfig {
            allow_negative: false,
            initial_seconds: 0,
            caption: String::new(),
            show_leading_zero_groups: true,
            blink_rate_ms: 500,
            use_font_for_caption: false,
            style: TextStyle { fg: Colour::White, bold: false },
        }
    }
}

/// The count that `hours`, `minutes` and `seconds` add up to, when it fits an
/// `i32`.
pub fn initial_seconds(hours: i32, minutes: i32, seconds: i32) -> (r: Option<i32>)
    ensures
        ({
            let total = hours * 3600 + minutes * 60 + seconds;
            &&& r is Some <==> i32::MIN <= total <= i32::MAX
            &&& r matches Some(t) ==> t == total
        }),
{
    let total: i64 = hours as i64 * 3600 + minutes as i64 * 60 + seconds as i64;
    if i32::MIN as i64 <= total && total <= i32::MAX as i64 {
        Some(total as i32)
    } else {
        None
    }
}

/// The count after one tick: it goes down by one while it is above zero, or
/// always when counting below zero is allowed; otherwise it stays.
pub open spec fn tick_count(remaining: int, allow_negative: bool) -> int {
    if remaining > 0 || allow_negative {
        remaining - 1
    } else {
        remaining
    }
}

/// Milliseconds from `since` to `now`; zero where `now` comes first.
pub open spec fn elapsed_ms(since: u64, now: u64) -> int {
    if now >= since {
        now - since
    } else {
        0
    }
}

/// The state of the countdown, which the application loop alone changes.
#[derive(Clone, Copy, Debug, PartialEq, Eq, Structural)]
pub struct TimerState {
    /// Seconds left; below zero once a stopwatch run has passed zero.
    pub remaining_seconds: i32,
    /// Whether the blink currently has the clock hidden.
    pub is_blink_phase_on: bool,
    /// When the blink last toggled, in milliseconds of a monotonic clock.
    pub last_blink_toggle_ms: u64,
}

impl TimerState {
    /// The count never falls below zero where that is not allowed.
    pub open spec fn wf(self, allow_negative: bool) -> bool {
        !allow_negative ==> self.remaining_seconds >= 0
    }

    /// The state after one tick.
    pub open spec fn after_tick(self, allow_negative: bool) -> TimerState {
        TimerState { remaining_seconds: tick_count(self.remaining_seconds as int, allow_negative) as i32, ..self }
    }

    /// Whether the blink runs: the count stands at zero and may not go below.
    pub open spec fn blinks(self, allow_negative: bool) -> bool {
        self.remaining_seconds == 0 && !allow_negative
    }

    /// The state after a blink check at `now`: once `rate` milliseconds have
    /// passed since the last toggle, the phase flips and the toggle time is reset.
    pub open spec fn after_blink_check(self, now: u64, rate: u64) -> TimerState {
        if elapsed_ms(self.last_blink_toggle_ms, now) >= rate {
            TimerState { is_blink_phase_on: !self.is_blink_phase_on, last_blink_toggle_ms: now, ..self }
        } else {
            self
        }
    }

    /// The state after the check that each loop iteration makes: the blink is
    /// checked only while it runs.
    pub open spec fn after_blink_step(self, allow_negative: bool, now: u64, rate: u64) -> TimerState {
        if self.blinks(allow_negative) {
            self.after_blink_check(now, rate)
        } else {
            self
        }
    }

    /// The state at the start of a run at time `now_ms`: the initial count,
    /// with the clock shown.
    pub open spec fn at_start(config: &TimerConfig, now_ms: u64) -> TimerState {
        TimerState { remaining_seconds: config.initial_seconds, is_blink_phase_on: false, last_blink_toggle_ms: now_ms }
    }

    /// The state at the start of a run, at time `now_ms`.
    pub fn new(config: &TimerConfig, now_ms: u64) -> (r: TimerState)
        ensures
            r == TimerState::at_start(config, now_ms),
    {
        TimerState { remaining_seconds: config.initial_seconds, is_blink_phase_on: false, last_blink_toggle_ms: now_ms }
    }

    /// Applies one tick.
    pub fn apply_tick(&mut self, allow_negative: bool)
        requires
            (old(self).remaining_seconds > 0 || allow_negative) ==> old(self).remaining_seconds
                > i32::MIN,
        ensures
            *final(self) == old(self).after_tick(allow_negative),
    {
        if self.remaining_seconds > 0 || allow_negative {
            self.remaining_seconds = self.remaining_seconds - 1;
        }
    }

    /// Whether the blink runs.
    pub fn is_blinking_regime(&self, allow_negative: bool) -> (r: bool)
        ensures
            r == self.blinks(allow_negative),
    {
        self.remaining_seconds == 0 && !allow_negative
    }

    /// Flips the blink phase once `blink_rate_ms` milliseconds have passed since
    /// the last toggle.
    pub fn flip_blinker(&mut self, now_ms: u64, blink_rate_ms: u64)
        ensures
            *final(self) == old(self).after_blink_check(now_ms, blink_rate_ms),
    {
        let elapsed: u64 = if now_ms >= self.last_blink_toggle_ms {
            now_ms - self.last_blink_toggle_ms
        } else {
            0
        };
        if elapsed >= blink_rate_ms {
            self.is_blink_phase_on = !self.is_blink_phase_on;
            self.last_blink_toggle_ms = now_ms;
        }
    }

    /// The blink check of one loop iteration.
    pub fn evaluate_blink(&mut self, allow_negative: bool, now_ms: u64, blink_rate_ms: u64)
        ensures
            *final(self) == old(self).after_blink_step(allow_negative, now_ms, blink_rate_ms),
    {
        if self.is_blinking_regime(allow_negative) {
            self.flip_blinker(now_ms, blink_rate_ms);
        }
    }

    /// The clock text for the current count.
    pub fn display_text(&self, show_zeroes: bool) -> (r: String)
        ensures
            r@ == time_text(self.remaining_seconds as int, show_zeroes),
    {
        format_time(self.remaining_seconds, show_zeroes)
    }
}

/// A tick keeps the count at or above zero where it may not go below.
pub proof fn lemma_tick_keeps_wf(s: TimerState, allow_negative: bool)
    requires
        s.wf(allow_negative),
    ensures
        s.after_tick(allow_negative).wf(allow_negative),
{
}

/// While counting below zero is not allowed, a count at or above zero shows no
/// minus sign.
pub proof fn lemma_no_sign_when_nonnegative(remaining_seconds: int, allow_negative: bool, show_zeroes: bool)
    requires
        remaining_seconds >= 0,
        !allow_negative,
    ensures
        forall|i: int|
            0 <= i < time_text(remaining_seconds, show_zeroes).len() ==> time_text(
                remaining_seconds,
                show_zeroes,
            )[i] != '-',
{
    let a = abs(remaining_seconds);
    lemma_clock_text_unsigned(a / 3600, (a / 60) % 60, a % 60, show_zeroes);
    assert(time_text(remaining_seconds, show_zeroes) =~= clock_text(a / 3600, (a / 60) % 60, a % 60, show_zeroes));
}

/// A count below zero shows a minus sign followed by the groups of its
/// magnitude: hours, minutes below 60 and seconds below 60 that add up to it.
pub proof fn lemma_sign_when_negative(remaining_seconds: int, allow_negative: bool, show_zeroes: bool)
    requires
        remaining_seconds < 0,
        allow_negative,
    ensures
        ({
            let t = time_text(remaining_seconds, show_zeroes);
            let a = -remaining_seconds;
            &&& t.len() > 0
            &&& t[0] == '-'
            &&& exists|h: nat, m: nat, s: nat|
                #![trigger clock_text(h, m, s, show_zeroes)]
                m < 60 && s < 60 && h * 3600 + m * 60 + s == a && t.drop_first() == clock_text(h, m, s, show_zeroes)
        }),
{
    let t = time_text(remaining_seconds, show_zeroes);
    let a = abs(remaining_seconds);
    let (h, m, s) = (a / 3600, (a / 60) % 60, a % 60);
    let ai = a as int;
    lemma_fundamental_div_mod(ai, 60);
    lemma_fundamental_div_mod(ai / 60, 60);
    lemma_div_denominator(ai, 60, 60);
    assert(h * 3600 + m * 60 + s == a) by (nonlinear_arith)
        requires
            ai == 60 * (ai / 60) + ai % 60,
            ai / 60 == 60 * (ai / 60 / 60) + (ai / 60) % 60,
            ai / 60 / 60 == ai / 3600,
            h == ai / 3600,
            m == (ai / 60) % 60,
            s == ai % 60,
            a == ai,
    ;
    assert(t.drop_first() =~= clock_text(h, m, s, show_zeroes));
}

/// Once the count stands at zero and may not go below, the blink is checked,
/// and after `blink_rate_ms` milliseconds with no tick the phase flips exactly
/// once: a second check before another `blink_rate_ms` have passed keeps it.
pub proof fn lemma_blink_toggles_once(s: TimerState, allow_negative: bool, blink_rate_ms: u64, first: u64, second: u64)
    requires
        s.remaining_seconds == 0,
        !allow_negative,
        elapsed_ms(s.last_blink_toggle_ms, first) >= blink_rate_ms,
        first <= second < first + blink_rate_ms,
    ensures
        s.blinks(allow_negative),
        s.after_blink_step(allow_negative, first, blink_rate_ms).is_blink_phase_on == !s.is_blink_phase_on,
        s.after_blink_step(allow_negative, first, blink_rate_ms).after_blink_step(
            allow_negative,
            second,
            blink_rate_ms,
        ).is_blink_phase_on == !s.is_blink_phase_on,
{
}

} // verus!
