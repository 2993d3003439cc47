//! The decisions of the application loop. Each iteration checks the blink,
//! picks the text to render, paints what was rendered, and takes at most one
//! event; the loop that sleeps, renders and talks to the terminal lives outside.
use vstd::prelude::*;
use vstd::utf8::decode_utf8;
use crate::clock::time_text;
use crate::countdown::{TimerConfig, TimerState};
use crate::frame::{lines_of, views, CaptionBlock};
use crate::painter::{paint_strokes, strokes, DiffPainter, PaintOp};

verus! {

/// What the background producers send to the loop.
#[derive(Clone, Copy, Debug, PartialEq, Eq, Structural)]
pub enum AppEvent {
    /// A second has passed.
    Tick,
    /// The user asked to stop.
    Quit,
}

/// A key press, as far as the input listener is concerned.
#[derive(Clone, Copy, Debug, PartialEq, Eq, Structural)]
pub enum Key {
    Esc,
    Char(char),
    Other,
}

/// The event that a key press sends: Escape, or `c` with Control held, asks to
/// quit; any other key sends nothing.
pub fn key_event(key: Key, control: bool) -> (r: Option<AppEvent>)
    ensures
        r == (if key == Key::Esc || (key == Key::Char('c') && control) {
            Some(AppEvent::Quit)
        } else {
            None
        }),
{
    match key {
        Key::Esc => Some(AppEvent::Quit),
        Key::Char(c) => if c == 'c' && control {
            Some(AppEvent::Quit)
        } else {
            None
        },
        Key::Other => None,
    }
}

/// The state of a run: the countdown, the painter of the clock region, and
/// whether the loop still runs.
#[derive(Debug)]
pub struct Session {
    pub timer: TimerState,
    pub clock: DiffPainter,
    pub running: bool,
}

impl Session {
    pub open spec fn wf(&self) -> bool {
        self.clock.wf()
    }

    /// The session after the loop has taken `event`: a tick counts down, the
    /// first `Quit` stops the loop, and once stopped nothing changes.
    pub open spec fn after_event(self, allow_negative: bool, event: Option<AppEvent>) -> Session {
        if !self.running {
            self
        } else {
            match event {
                Some(AppEvent::Tick) => Session { timer: self.timer.after_tick(allow_negative), ..self },
                Some(AppEvent::Quit) => Session { running: false, ..self },
                None => self,
            }
        }
    }

    /// Whether taking `event` ends the run, so that the terminal is restored.
    pub open spec fn tears_down(self, event: Option<AppEvent>) -> bool {
        self.running && event == Some(AppEvent::Quit)
    }

    /// Whether a tick may be taken: a count that goes down must stay in range.
    pub open spec fn tick_in_range(self, allow_negative: bool) -> bool {
        (self.timer.remaining_seconds > 0 || allow_negative) ==> self.timer.remaining_seconds > i32::MIN
    }

    /// A running session at time `now_ms`, with the clock below the caption.
    pub fn start(config: &TimerConfig, caption: &CaptionBlock, now_ms: u64) -> (r: Session)
        ensures
            r.wf(),
            r.running,
            r.timer == TimerState::at_start(config, now_ms),
            r.clock.origin_row == caption.height,
            r.clock.previous@.len() == 0,
    {
        Session { timer: TimerState::new(config, now_ms), clock: DiffPainter::new(caption.height), running: true }
    }

    /// Checks the blink at `now_ms` and gives the text that the clock shows, or
    /// `None` while the blink hides it.
    pub fn frame_text(&mut self, config: &TimerConfig, now_ms: u64) -> (r: Option<String>)
        ensures
            final(self).timer == old(self).timer.after_blink_step(
                config.allow_negative,
                now_ms,
                config.blink_rate_ms,
            ),
            final(self).clock == old(self).clock,
            final(self).running == old(self).running,
            r is None <==> final(self).timer.is_blink_phase_on,
            r matches Some(t) ==> t@ == time_text(
                final(self).timer.remaining_seconds as int,
                config.show_leading_zero_groups,
            ),
    {
        self.timer.evaluate_blink(config.allow_negative, now_ms, config.blink_rate_ms);
        if self.timer.is_blink_phase_on {
            None
        } else {
            Some(self.timer.display_text(config.show_leading_zero_groups))
        }
    }

    /// Paints the clock: nothing while the blink hides it, else the rendered
    /// output of the text that `frame_text` gave (`None` where rendering failed,
    /// which leaves the last frame on screen).
    pub fn paint_clock(&mut self, rendered: Option<Vec<u8>>) -> (ops: Vec<PaintOp>)
        requires
            old(self).wf(),
        ensures
            final(self).wf(),
            final(self).timer == old(self).timer,
            final(self).running == old(self).running,
            final(self).clock.origin_row == old(self).clock.origin_row,
            old(self).timer.is_blink_phase_on ==> {
                &&& strokes(ops@) == paint_strokes(
                    views(old(self).clock.previous@),
                    Seq::empty(),
                    old(self).clock.origin_row as int,
                )
                &&& final(self).clock.previous@.len() == 0
            },
            !old(self).timer.is_blink_phase_on ==> match rendered {
                Some(b) if old(self).clock.can_paint(b@) => {
                    &&& strokes(ops@) == paint_strokes(
                        views(old(self).clock.previous@),
                        lines_of(decode_utf8(b@)),
                        old(self).clock.origin_row as int,
                    )
                    &&& views(final(self).clock.previous@) == lines_of(decode_utf8(b@))
                },
                _ => ops@.len() == 0 && final(self).clock == old(self).clock,
            },
    {
        if self.timer.is_blink_phase_on {
            let nothing: Vec<String> = Vec::new();
            assert(views(nothing@) =~= Seq::<Seq<char>>::empty());
            self.clock.paint(nothing)
        } else {
            self.clock.paint_rendered(rendered)
        }
    }

    /// Takes the event polled in this iteration, if any. Returns whether the run
    /// ends now, in which case the terminal is to be restored.
    pub fn handle_event(&mut self, allow_negative: bool, event: Option<AppEvent>) -> (teardown: bool)
        requires
            old(self).running && event == Some(AppEvent::Tick) ==> old(self).tick_in_range(allow_negative),
        ensures
            *final(self) == old(self).after_event(allow_negative, event),
            teardown == old(self).tears_down(event),
    {
        if !self.running {
            return false;
        }
        match event {
            Some(AppEvent::Tick) => {
                self.timer.apply_tick(allow_negative);
                false
            },
            Some(AppEvent::Quit) => {
                self.running = false;
                true
            },
            None => false,
        }
    }
}

/// How many times the run is torn down over a sequence of polled events.
pub open spec fn teardowns(s: Session, allow_negative: bool, events: Seq<Option<AppEvent>>) -> nat
    decreases events.len(),
{
    if events.len() == 0 {
        0
    } else {
        (if s.tears_down(events[0]) {
            1nat
        } else {
            0nat
        }) + teardowns(s.after_event(allow_negative, events[0]), allow_negative, events.drop_first())
    }
}

/// However events arrive, a `Quit` among ticks included, a running session is
/// torn down exactly once if a `Quit` comes and never otherwise, and a stopped
/// one is never torn down again.
pub proof fn lemma_teardown_exactly_once(s: Session, allow_negative: bool, events: Seq<Option<AppEvent>>)
    ensures
        teardowns(s, allow_negative, events) <= 1,
        !s.running ==> teardowns(s, allow_negative, events) == 0,
        s.running ==> (teardowns(s, allow_negative, events) == 1 <==> events.contains(Some(AppEvent::Quit))),
    decreases events.len(),
{
    if events.len() > 0 {
        let next = s.after_event(allow_negative, events[0]);
        let rest = events.drop_first();
        lemma_teardown_exactly_once(next, allow_negative, rest);
        if s.running && events[0] != Some(AppEvent::Quit) {
            if events.contains(Some(AppEvent::Quit)) {
                let k = choose|k: int| 0 <= k < events.len() && events[k] == Some(AppEvent::Quit);
                assert(rest[k - 1] == Some(AppEvent::Quit));
            }
            if rest.contains(Some(AppEvent::Quit)) {
                let k = choose|k: int| 0 <= k < rest.len() && rest[k] == Some(AppEvent::Quit);
                assert(events[k + 1] == Some(AppEvent::Quit));
            }
        }
        if s.running && events[0] == Some(AppEvent::Quit) {
            assert(events.contains(Some(AppEvent::Quit)) && events[0] == Some(AppEvent::Quit));
        }
    }
}

} // verus!
