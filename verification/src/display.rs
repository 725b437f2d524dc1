//! The display engine: shows a frame for a length of time, or a text scrolling by.
//!
//! The engine owns a scan driver, a deadline, and the frames that wait for their turn.
//! `display` takes a frame and says until when it is to be shown; `scroll` takes a text
//! and lines up the frames of its animation. After that, `poll` is asked again and
//! again, with the time of asking, what to do next. It answers with a step of the
//! multiplex cycle to apply and wait out, or with `Finish` once the time is up and no
//! frame waits. The caller owns the lines and the clock, and suspends itself between
//! steps.

use crate::brightness::{valid_level, Brightness};
use crate::font::{glyphs_of, Font};
use crate::frame::Frame;
use crate::scan::{ScanDriver, ScanModel, Step, StepModel};
use crate::scroll::{animation, frame_count, scroll, STEP_MICROS};
use vstd::prelude::*;

verus! {

/// What the caller of `poll` is to do.
#[derive(Clone, Copy, Debug, PartialEq, Eq)]
pub enum Action<const COLS: usize> {
    /// Apply the step to the lines, wait for as long as it says, and ask again.
    Show(Step<COLS>),
    /// The time is up: release every line and return.
    Finish,
}

/// An action as plain mathematics.
pub enum ActionModel {
    Show(StepModel),
    Finish,
}

impl<const COLS: usize> View for Action<COLS> {
    type V = ActionModel;

    open spec fn view(&self) -> ActionModel {
        match self {
            Action::Show(step) => ActionModel::Show(step@),
            Action::Finish => ActionModel::Finish,
        }
    }
}

/// Something that happens to an engine between the start of a display and its end.
pub enum Event {
    /// `poll` is called at this time, in microseconds.
    Poll(int),
    /// The brightness is set to this level.
    Level(int),
}

/// The state of a display engine as plain mathematics.
pub struct EngineModel<const COLS: usize, const ROWS: usize> {
    /// The scan driver.
    pub scan: ScanModel<COLS, ROWS>,
    /// The time, in microseconds, at which the frame on show has been shown for long
    /// enough; `None` while nothing is on show.
    pub deadline: Option<int>,
    /// The frames that wait to be shown after the one on show, in order.
    pub queue: Seq<Frame<COLS, ROWS>>,
    /// The microseconds for which each waiting frame is to be shown.
    pub dwell: int,
}

impl<const COLS: usize, const ROWS: usize> EngineModel<COLS, ROWS> {
    /// What holds of every state that an engine can be in.
    pub open spec fn wf(self) -> bool {
        &&& self.scan.wf()
        &&& self.deadline matches Some(deadline) ==> 0 <= deadline <= u64::MAX
        &&& self.deadline is None ==> self.queue.len() == 0
        &&& 0 <= self.dwell <= u64::MAX
    }

    /// The time at which a display that starts at `now` and lasts `duration` ends, as
    /// far as the clock can count.
    pub open spec fn deadline_for(duration: int, now: int) -> int {
        if now + duration <= u64::MAX {
            now + duration
        } else {
            u64::MAX as int
        }
    }

    /// The state with nothing on show and nothing waiting.
    pub open spec fn idle(self) -> Self {
        EngineModel {
            scan: ScanModel { row: 0, rest: None, ..self.scan },
            deadline: None,
            queue: Seq::empty(),
            dwell: 0,
        }
    }

    /// The state in which `frame` has just been put on show at `now`, for `duration`, with
    /// the frames of `queue` to follow for `dwell` each. The cycle starts with the first
    /// row.
    pub open spec fn begin(
        self,
        frame: Frame<COLS, ROWS>,
        duration: int,
        now: int,
        queue: Seq<Frame<COLS, ROWS>>,
        dwell: int,
    ) -> Self {
        EngineModel {
            scan: ScanModel { frame, row: 0, rest: None, ..self.scan },
            deadline: Some(Self::deadline_for(duration, now)),
            queue,
            dwell,
        }
    }

    /// The state after `set_brightness`.
    pub open spec fn set_brightness(self, level: int) -> Self {
        EngineModel { scan: ScanModel { level, ..self.scan }, ..self }
    }

    /// The state after `display`: the frame is on show until the deadline, and no frame
    /// waits.
    pub open spec fn display(self, frame: Frame<COLS, ROWS>, duration: int, now: int) -> Self {
        self.begin(frame, duration, now, Seq::empty(), 0)
    }

    /// The state after `show_all`: the first frame is on show and the others wait, each
    /// to be shown for `dwell`. With no frame at all, nothing is on show.
    pub open spec fn show_all(self, frames: Seq<Frame<COLS, ROWS>>, dwell: int, now: int) -> Self {
        if frames.len() == 0 {
            self.idle()
        } else {
            self.begin(frames[0], dwell, now, frames.skip(1), dwell)
        }
    }

    /// Whether a poll at `now` finds the time of the frame on show up, or nothing on show.
    pub open spec fn expired(self, now: int) -> bool {
        match self.deadline {
            None => true,
            Some(deadline) => now >= deadline,
        }
    }

    /// Whether a poll at `now` finds nothing left to show.
    pub open spec fn done(self, now: int) -> bool {
        self.expired(now) && self.queue.len() == 0
    }

    /// The state whose cycle a poll at `now` goes on with: this state, or, where the time
    /// of its frame is up, the state in which the first waiting frame has been put on show
    /// at `now`.
    pub open spec fn on_show(self, now: int) -> Self {
        if self.expired(now) && self.queue.len() > 0 {
            self.begin(self.queue[0], self.dwell, now, self.queue.skip(1), self.dwell)
        } else {
            self
        }
    }

    /// The answer of `poll` at `now`: `Finish` where nothing is left to show; else the
    /// next step of the cycle, cut short where the deadline comes first.
    pub open spec fn action(self, now: int) -> ActionModel {
        if self.done(now) {
            ActionModel::Finish
        } else {
            let current = self.on_show(now);
            let step = current.scan.step();
            let left = current.deadline->0 - now;
            ActionModel::Show(
                StepModel {
                    hold: if step.hold <= left {
                        step.hold
                    } else {
                        left
                    },
                    ..step
                },
            )
        }
    }

    /// The state after `poll` at `now`.
    pub open spec fn polled(self, now: int) -> Self {
        if self.done(now) {
            self.idle()
        } else {
            let current = self.on_show(now);
            EngineModel { scan: current.scan.advance(), ..current }
        }
    }

    /// The state after one event.
    pub open spec fn handle(self, event: Event) -> Self {
        match event {
            Event::Poll(now) => self.polled(now),
            Event::Level(level) => self.set_brightness(level),
        }
    }

    /// The state after the events of `events`, in order.
    pub open spec fn handle_all(self, events: Seq<Event>) -> Self
        decreases events.len(),
    {
        if events.len() == 0 {
            self
        } else {
            self.handle_all(events.drop_last()).handle(events.last())
        }
    }

    /// Whether every level that `events` sets is a valid one, and every poll comes at a
    /// time that the clock can show.
    pub open spec fn possible(events: Seq<Event>) -> bool {
        forall|i: int|
            0 <= i < events.len() ==> match #[trigger] events[i] {
                Event::Poll(now) => 0 <= now <= u64::MAX,
                Event::Level(level) => valid_level(level),
            }
    }

    /// Whether `step` shows row `row` of `frame` and nothing else, or nothing at all.
    pub open spec fn shows_only(step: StepModel, frame: Frame<COLS, ROWS>) -> bool {
        &&& step.cols.len() == COLS
        &&& match step.row {
            Some(row) => 0 <= row < ROWS && forall|x: int|
                0 <= x < COLS ==> #[trigger] step.cols[x] == frame.lit(x, row),
            None => forall|x: int| 0 <= x < COLS ==> !#[trigger] step.cols[x],
        }
    }

    /// A display of no duration is over at once: the first poll, whenever it comes,
    /// finishes it.
    pub proof fn lemma_zero_duration(self, frame: Frame<COLS, ROWS>, now: int, later: int)
        requires
            0 <= now <= later,
            later <= u64::MAX,
        ensures
            self.display(frame, 0, now).action(later) is Finish,
            self.display(frame, 0, now).polled(later).deadline is None,
    {
    }

    /// A display lasts as long as it was asked to: a poll before the deadline shows a
    /// step that ends at the deadline or before it, and a poll at the deadline or after
    /// it finishes the display.
    pub proof fn lemma_lasts_for_duration(
        self,
        frame: Frame<COLS, ROWS>,
        duration: int,
        now: int,
        later: int,
    )
        requires
            self.wf(),
            0 <= duration,
            0 <= now <= later,
            now + duration <= u64::MAX,
        ensures
            later >= now + duration <==> self.display(frame, duration, now).action(later) is Finish,
            later < now + duration ==> {
                let action = self.display(frame, duration, now).action(later);
                action is Show && 0 < action->Show_0.hold && later + action->Show_0.hold <= now
                    + duration
            },
    {
        crate::brightness::lemma_duty_within_slot(self.scan.level);
    }

    /// No step outlasts the frame it belongs to: while a frame is on show and its time is
    /// not up, a poll answers with a step that ends at the deadline or before it.
    pub proof fn lemma_never_overruns(self, now: int)
        requires
            self.wf(),
            !self.expired(now),
        ensures
            self.action(now) matches ActionModel::Show(step) && 0 <= step.hold && now + step.hold
                <= self.deadline->0,
            self.polled(now).deadline == self.deadline,
            self.polled(now).queue == self.queue,
    {
        crate::brightness::lemma_duty_within_slot(self.scan.level);
    }

    /// Scrolling nothing shows nothing: no frame is put on show, and the first poll
    /// finishes.
    pub proof fn lemma_nothing_to_scroll(self, dwell: int, now: int, later: int)
        ensures
            self.show_all(Seq::empty(), dwell, now).deadline is None,
            self.show_all(Seq::empty(), dwell, now).action(later) is Finish,
    {
    }

    /// A poll keeps a well-formed state well-formed.
    pub proof fn lemma_polled_wf(self, now: int)
        requires
            self.wf(),
            0 <= now <= u64::MAX,
        ensures
            self.polled(now).wf(),
    {
        if !self.done(now) {
            self.on_show(now).scan.lemma_advance_wf();
        }
    }

    /// Events keep a well-formed state well-formed.
    pub proof fn lemma_handle_all_wf(self, events: Seq<Event>)
        requires
            self.wf(),
            Self::possible(events),
        ensures
            self.handle_all(events).wf(),
        decreases events.len(),
    {
        if events.len() > 0 {
            assert(Self::possible(events.drop_last())) by {
                assert forall|i: int| 0 <= i < events.drop_last().len() implies match #[trigger] events.drop_last()[i] {
                    Event::Poll(now) => 0 <= now <= u64::MAX,
                    Event::Level(level) => valid_level(level),
                } by {
                    assert(events.drop_last()[i] == events[i]);
                }
            }
            self.lemma_handle_all_wf(events.drop_last());
            let before = self.handle_all(events.drop_last());
            assert(events[events.len() - 1] == events.last());
            match events.last() {
                Event::Poll(now) => {
                    before.lemma_polled_wf(now);
                },
                Event::Level(level) => {},
            }
        }
    }

    /// No torn frames: the step that a poll answers with drives a row with the columns
    /// of the lit cells of one frame in that row, or drives nothing. That frame is the
    /// one on show after the poll: the one that was on show before, or, where its time
    /// was up, the first of those that waited.
    pub proof fn lemma_step_shows_one_frame(self, now: int)
        requires
            self.wf(),
        ensures
            self.action(now) matches ActionModel::Show(step) ==> Self::shows_only(
                step,
                self.polled(now).scan.frame,
            ),
            self.polled(now).scan.frame == if self.expired(now) && self.queue.len() > 0 {
                self.queue[0]
            } else {
                self.scan.frame
            },
    {
        self.polled(now).scan.frame.lemma_lit_in_bounds();
    }

    /// While a single frame is on show, no event touches it or makes a frame wait.
    pub proof fn lemma_display_keeps_frame(
        self,
        frame: Frame<COLS, ROWS>,
        duration: int,
        now: int,
        events: Seq<Event>,
    )
        ensures
            self.display(frame, duration, now).handle_all(events).scan.frame == frame,
            self.display(frame, duration, now).handle_all(events).queue.len() == 0,
        decreases events.len(),
    {
        if events.len() > 0 {
            self.lemma_display_keeps_frame(frame, duration, now, events.drop_last());
        }
    }

    /// Two displays never blend: once a frame is put on show, every step that a poll
    /// answers with, whatever polls and changes of brightness came before, shows cells
    /// of that frame alone. No cell of an earlier frame is ever mixed in, and the
    /// brightness changes nothing of this.
    pub proof fn lemma_no_torn_frames(
        self,
        frame: Frame<COLS, ROWS>,
        duration: int,
        now: int,
        events: Seq<Event>,
        later: int,
    )
        requires
            self.wf(),
            0 <= duration,
            0 <= now <= u64::MAX,
            Self::possible(events),
        ensures
            self.display(frame, duration, now).handle_all(events).action(later) matches ActionModel::Show(
                step,
            ) ==> Self::shows_only(step, frame),
    {
        let start = self.display(frame, duration, now);
        self.lemma_display_keeps_frame(frame, duration, now, events);
        start.lemma_handle_all_wf(events);
        start.handle_all(events).lemma_step_shows_one_frame(later);
    }

    /// The frames of an animation are shown strictly in order, one at a time: whatever
    /// events have come, the frames that still wait are the last so many of the animation,
    /// and the frame on show is the one just before them.
    pub proof fn lemma_scroll_in_order(
        self,
        frames: Seq<Frame<COLS, ROWS>>,
        dwell: int,
        now: int,
        events: Seq<Event>,
    )
        ensures
            ({
                let reached = self.show_all(frames, dwell, now).handle_all(events);
                let taken = frames.len() - reached.queue.len();
                &&& 0 <= taken <= frames.len()
                &&& reached.queue == frames.skip(taken)
                &&& reached.deadline is Some ==> taken >= 1 && reached.scan.frame == frames[taken
                    - 1]
                &&& reached.deadline is None ==> taken == frames.len()
            }),
        decreases events.len(),
    {
        let start = self.show_all(frames, dwell, now);
        if events.len() == 0 {
            if frames.len() == 0 {
                assert(start.queue =~= frames.skip(0));
            }
        } else {
            self.lemma_scroll_in_order(frames, dwell, now, events.drop_last());
            let before = start.handle_all(events.drop_last());
            let taken = frames.len() - before.queue.len();
            let reached = before.handle(events.last());
            match events.last() {
                Event::Poll(at) => {
                    if before.done(at) {
                        assert(reached.queue =~= frames.skip(frames.len() as int));
                    } else if before.expired(at) {
                        assert(before.queue[0] == frames[taken]);
                        assert(before.queue.skip(1) =~= frames.skip(taken + 1));
                    }
                },
                Event::Level(level) => {},
            }
        }
    }

    /// Every frame of an animation gets its turn and its time: a poll that finds the time
    /// of the frame on show up puts the next frame on show, from then on for the dwell
    /// time, and answers with its first row.
    pub proof fn lemma_next_frame_begins(self, now: int)
        requires
            self.wf(),
            0 <= now <= u64::MAX,
            self.expired(now),
            self.queue.len() > 0,
        ensures
            self.polled(now).scan.frame == self.queue[0],
            self.polled(now).queue == self.queue.skip(1),
            self.polled(now).deadline == Some(Self::deadline_for(self.dwell, now)),
            self.action(now) matches ActionModel::Show(step) && (0 < ROWS ==> step.row == Some(
                0int,
            )),
    {
    }
}

/// The display engine: a scan driver, the time at which the frame on show is done, and
/// the frames that wait.
#[derive(Debug)]
pub struct DisplayEngine<const COLS: usize, const ROWS: usize> {
    scan: ScanDriver<COLS, ROWS>,
    deadline: Option<u64>,
    frames: Vec<Frame<COLS, ROWS>>,
    next: usize,
    dwell: u64,
}

impl<const COLS: usize, const ROWS: usize> View for DisplayEngine<COLS, ROWS> {
    type V = EngineModel<COLS, ROWS>;

    closed spec fn view(&self) -> EngineModel<COLS, ROWS> {
        EngineModel {
            scan: self.scan@,
            deadline: match self.deadline {
                Some(deadline) => Some(deadline as int),
                None => None,
            },
            queue: self.frames@.skip(self.next as int),
            dwell: self.dwell as int,
        }
    }
}

impl<const COLS: usize, const ROWS: usize> DisplayEngine<COLS, ROWS> {
    #[verifier::type_invariant]
    spec fn inv(self) -> bool {
        &&& self.next <= self.frames.len()
        &&& self.deadline is None ==> self.next == self.frames.len()
    }

    /// An engine with nothing on show, at the default brightness.
    pub fn new() -> (engine: Self)
        ensures
            engine@ == (EngineModel::<COLS, ROWS> {
                scan: ScanModel {
                    frame: Frame::spec_empty(),
                    level: crate::brightness::DEFAULT_LEVEL as int,
                    row: 0,
                    rest: None,
                },
                deadline: None,
                queue: Seq::empty(),
                dwell: 0,
            }),
            engine@.wf(),
    {
        let engine = DisplayEngine {
            scan: ScanDriver::new(),
            deadline: None,
            frames: Vec::new(),
            next: 0,
            dwell: 0,
        };
        proof {
            assert(engine.frames@.skip(0) =~= Seq::empty());
        }
        engine
    }

    /// The frame that was last put on show.
    pub fn frame(&self) -> (frame: Frame<COLS, ROWS>)
        ensures
            frame == self@.scan.frame,
            self@.wf(),
    {
        proof {
            use_type_invariant(self);
        }
        self.scan.frame()
    }

    /// The brightness in use.
    pub fn brightness(&self) -> (brightness: Brightness)
        ensures
            brightness@ == self@.scan.level,
            self@.wf(),
    {
        proof {
            use_type_invariant(self);
        }
        self.scan.brightness()
    }

    /// Whether a frame is on show.
    pub fn is_active(&self) -> (active: bool)
        ensures
            active == self@.deadline is Some,
    {
        self.deadline.is_some()
    }

    /// The number of frames that wait to be shown.
    pub fn waiting(&self) -> (count: usize)
        ensures
            count == self@.queue.len(),
    {
        proof {
            use_type_invariant(self);
        }
        self.frames.len() - self.next
    }

    /// Sets the brightness that the following row slots use. The lines are not touched,
    /// and a slot that is under way keeps its length.
    pub fn set_brightness(&mut self, level: Brightness)
        ensures
            final(self)@ == old(self)@.set_brightness(level@),
            final(self)@.wf(),
    {
        proof {
            use_type_invariant(&*self);
        }
        let mut scan = self.scan;
        scan.set_brightness(level);
        self.scan = scan;
    }

    /// Puts `frame` on show for `duration_micros` microseconds from `now_micros` on, in
    /// place of whatever was on show or waited. The cycle starts afresh with the first
    /// row, so nothing of an earlier frame is left.
    pub fn display(&mut self, frame: Frame<COLS, ROWS>, duration_micros: u64, now_micros: u64)
        ensures
            final(self)@ == old(self)@.display(frame, duration_micros as int, now_micros as int),
            final(self)@.wf(),
    {
        let mut scan = self.scan;
        scan.set_frame(frame);
        scan.restart();
        let engine = DisplayEngine {
            scan,
            deadline: Some(now_micros.saturating_add(duration_micros)),
            frames: Vec::new(),
            next: 0,
            dwell: 0,
        };
        proof {
            assert(engine.frames@.skip(0) =~= Seq::empty());
        }
        *self = engine;
    }

    /// Puts the frames of `frames` on show one after the other, each for `dwell_micros`
    /// microseconds, the first from `now_micros` on, in place of whatever was on show or
    /// waited. With no frame at all, nothing is on show any more.
    pub fn show_all(&mut self, frames: Vec<Frame<COLS, ROWS>>, dwell_micros: u64, now_micros: u64)
        ensures
            final(self)@ == old(self)@.show_all(frames@, dwell_micros as int, now_micros as int),
            final(self)@.wf(),
    {
        let mut scan = self.scan;
        scan.restart();
        if frames.len() == 0 {
            let engine = DisplayEngine { scan, deadline: None, frames, next: 0, dwell: 0 };
            proof {
                assert(engine.frames@.skip(0) =~= Seq::empty());
            }
            *self = engine;
        } else {
            scan.set_frame(frames[0]);
            let engine = DisplayEngine {
                scan,
                deadline: Some(now_micros.saturating_add(dwell_micros)),
                frames,
                next: 1,
                dwell: dwell_micros,
            };
            *self = engine;
        }
    }

    /// Lines up the frames that scroll `text` across the matrix in the glyphs of `font`,
    /// each to be shown for `STEP_MICROS`, the first from `now_micros` on. Says whether it
    /// did: it leaves everything as it is where the text is too long for its frames to be
    /// counted.
    pub fn scroll(&mut self, font: &Font<COLS, ROWS>, text: &str, now_micros: u64) -> (lined_up:
        bool)
        ensures
            lined_up <==> frame_count(glyphs_of(font@, text@)) <= usize::MAX,
            final(self)@ == if lined_up {
                old(self)@.show_all(
                    animation(glyphs_of(font@, text@)),
                    STEP_MICROS as int,
                    now_micros as int,
                )
            } else {
                old(self)@
            },
    {
        match scroll(font, text) {
            Some(frames) => {
                self.show_all(frames, STEP_MICROS, now_micros);
                true
            },
            None => false,
        }
    }

    /// Says what to do at `now_micros`: the next step of the multiplex cycle, cut short
    /// where the deadline comes first, or `Finish` once the deadline has come and no frame
    /// waits. Where the deadline has come and a frame waits, that frame is put on show and
    /// the step is its first.
    pub fn poll(&mut self, now_micros: u64) -> (action: Action<COLS>)
        ensures
            final(self)@.wf(),
            action@ == old(self)@.action(now_micros as int),
            final(self)@ == old(self)@.polled(now_micros as int),
    {
        proof {
            use_type_invariant(&*self);
        }
        let mut scan = self.scan;
        let alive = match self.deadline {
            Some(deadline) => now_micros < deadline,
            None => false,
        };
        if alive {
            let deadline = self.deadline.unwrap();
            let step = scan.step();
            self.scan = scan;
            Action::Show(Self::cut(step, deadline - now_micros))
        } else if self.next < self.frames.len() {
            let frame = self.frames[self.next];
            let deadline = now_micros.saturating_add(self.dwell);
            scan.set_frame(frame);
            scan.restart();
            let step = scan.step();
            proof {
                assert(self.frames@.skip(self.next as int)[0] == frame);
                assert(self.frames@.skip(self.next as int).skip(1) =~= self.frames@.skip(
                    self.next + 1,
                ));
            }
            self.scan = scan;
            self.deadline = Some(deadline);
            self.next = self.next + 1;
            Action::Show(Self::cut(step, deadline - now_micros))
        } else {
            scan.restart();
            let engine = DisplayEngine { scan, deadline: None, frames: Vec::new(), next: 0, dwell: 0 };
            proof {
                assert(engine.frames@.skip(0) =~= Seq::empty());
            }
            *self = engine;
            Action::Finish
        }
    }

    /// The step with its hold cut down to `left` microseconds where it is longer.
    fn cut(step: Step<COLS>, left: u64) -> (cut: Step<COLS>)
        ensures
            cut@ == (StepModel {
                hold: if step@.hold <= left {
                    step@.hold
                } else {
                    left as int
                },
                ..step@
            }),
    {
        let hold_micros = if step.hold_micros <= left {
            step.hold_micros
        } else {
            left
        };
        Step { row: step.row, cols: step.cols, hold_micros }
    }
}

} // verus!
