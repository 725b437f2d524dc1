//! The scan driver: time-division multiplexing of a frame onto row and column lines.
//!
//! Only one row line is ever asserted at a time. Each row gets a slot of `SLOT_MICROS`
//! microseconds: the row is driven, with the columns of its lit cells on, for the part
//! of the slot that the brightness asks for, and rests for the remainder. The driver
//! decides; whoever owns the lines applies each step and waits for as long as it says.

use crate::brightness::{duty_micros, valid_level, Brightness, SLOT_MICROS};
use crate::frame::Frame;
use vstd::prelude::*;

verus! {

/// What the lines are to show next, and for how long.
#[derive(Clone, Copy, Debug, PartialEq, Eq)]
pub struct Step<const COLS: usize> {
    /// The row whose line is asserted; with `None` every row line is released.
    pub row: Option<usize>,
    /// The column lines: column `x` is on where `cols[x]` holds.
    pub cols: [bool; COLS],
    /// Microseconds for which the lines stay as they are.
    pub hold_micros: u64,
}

/// A step as plain mathematics.
pub struct StepModel {
    pub row: Option<int>,
    pub cols: Seq<bool>,
    pub hold: int,
}

impl<const COLS: usize> View for Step<COLS> {
    type V = StepModel;

    open spec fn view(&self) -> StepModel {
        StepModel {
            row: match self.row {
                Some(r) => Some(r as int),
                None => None,
            },
            cols: self.cols@,
            hold: self.hold_micros as int,
        }
    }
}

/// The state of a scan driver as plain mathematics.
pub struct ScanModel<const COLS: usize, const ROWS: usize> {
    /// The frame being multiplexed.
    pub frame: Frame<COLS, ROWS>,
    /// The brightness level in use.
    pub level: int,
    /// The row whose slot is running or about to start.
    pub row: int,
    /// `None` before the row is driven; after it, what is left of its slot.
    pub rest: Option<int>,
}

impl<const COLS: usize, const ROWS: usize> ScanModel<COLS, ROWS> {
    /// What holds of every state that a driver can be in.
    pub open spec fn wf(self) -> bool {
        &&& valid_level(self.level)
        &&& 0 <= self.row
        &&& self.row < ROWS || self.row == 0
        &&& self.rest matches Some(rest) ==> 0 <= rest <= SLOT_MICROS
    }

    /// The row that follows `row` in a cycle: the next one, and the first after the last.
    pub open spec fn next_row(row: int) -> int {
        if row + 1 < ROWS {
            row + 1
        } else {
            0
        }
    }

    /// The row that `count` slots after `row` belong to, for `count` up to `ROWS`.
    pub open spec fn row_after(row: int, count: int) -> int {
        if row + count < ROWS {
            row + count
        } else {
            row + count - ROWS
        }
    }

    /// The number of slots from the start of the slot of row `from` to that of row `to`.
    pub open spec fn slots_until(from: int, to: int) -> int {
        if to >= from {
            to - from
        } else {
            to - from + ROWS
        }
    }

    /// The column pattern of row `row`: on where the frame's cell is lit.
    pub open spec fn pattern(self, row: int) -> Seq<bool> {
        Seq::new(COLS as nat, |x: int| self.frame.lit(x, row))
    }

    /// The step that this state asks for.
    pub open spec fn step(self) -> StepModel {
        match self.rest {
            None => StepModel {
                row: if self.row < ROWS {
                    Some(self.row)
                } else {
                    None
                },
                cols: self.pattern(self.row),
                hold: duty_micros(self.level),
            },
            Some(rest) => StepModel {
                row: None,
                cols: Seq::new(COLS as nat, |x: int| false),
                hold: rest,
            },
        }
    }

    /// The state after that step.
    pub open spec fn advance(self) -> Self {
        match self.rest {
            None => ScanModel { rest: Some(SLOT_MICROS - duty_micros(self.level)), ..self },
            Some(_) => ScanModel { row: Self::next_row(self.row), rest: None, ..self },
        }
    }

    /// The state after `count` steps.
    pub open spec fn advance_by(self, count: nat) -> Self
        decreases count,
    {
        if count == 0 {
            self
        } else {
            self.advance().advance_by((count - 1) as nat)
        }
    }

    /// The microseconds that the next `count` steps hold the lines for, taken together.
    pub open spec fn hold_total(self, count: nat) -> int
        decreases count,
    {
        if count == 0 {
            0
        } else {
            self.step().hold + self.advance().hold_total((count - 1) as nat)
        }
    }
    /// A step leaves a well-formed state well-formed.
    pub proof fn lemma_advance_wf(self)
        requires
            self.wf(),
        ensures
            self.advance().wf(),
    {
        crate::brightness::lemma_duty_within_slot(self.level);
    }

    /// Steps taken one after the other add up.
    pub proof fn lemma_advance_by_split(self, first: nat, then: nat)
        ensures
            self.advance_by(first + then) == self.advance_by(first).advance_by(then),
            self.hold_total(first + then) == self.hold_total(first) + self.advance_by(
                first,
            ).hold_total(then),
        decreases first,
    {
        if first > 0 {
            self.advance().lemma_advance_by_split((first - 1) as nat, then);
            assert(first + then - 1 == (first - 1) as nat + then);
        }
    }

    /// A slot is two steps. The first asserts the row, with the columns of its lit cells
    /// on, for the duty time of the level; the second releases every line for the rest of
    /// the slot. Together they take one slot, and the next row's slot follows.
    pub proof fn lemma_slot(self)
        requires
            self.wf(),
            self.rest is None,
            0 < ROWS,
        ensures
            self.step() == (StepModel {
                row: Some(self.row),
                cols: self.pattern(self.row),
                hold: duty_micros(self.level),
            }),
            self.advance().step().row is None,
            self.advance().step().hold == SLOT_MICROS - duty_micros(self.level),
            forall|x: int| 0 <= x < COLS ==> !#[trigger] self.advance().step().cols[x],
            self.hold_total(2) == SLOT_MICROS,
            self.advance_by(2) == (ScanModel { row: Self::next_row(self.row), ..self }),
    {
        reveal_with_fuel(ScanModel::advance_by, 3);
        reveal_with_fuel(ScanModel::hold_total, 3);
    }

    /// From the start of a row's slot, `count` slots later the driver stands at the start
    /// of the slot of the row `count` places on, with nothing else changed, and exactly
    /// `count` slots of time have been asked for.
    pub proof fn lemma_slots(self, count: nat)
        requires
            self.wf(),
            self.rest is None,
            0 < ROWS,
            count <= ROWS,
        ensures
            self.advance_by(2 * count) == (ScanModel {
                row: Self::row_after(self.row, count as int),
                ..self
            }),
            self.hold_total(2 * count) == count * SLOT_MICROS,
        decreases count,
    {
        if count > 0 {
            let before = (count - 1) as nat;
            self.lemma_slots(before);
            let mid = self.advance_by(2 * before);
            mid.lemma_slot();
            self.lemma_advance_by_split(2 * before, 2);
            assert(2 * before + 2 == 2 * count);
            assert(count * SLOT_MICROS == before * SLOT_MICROS + SLOT_MICROS) by (nonlinear_arith)
                requires
                    count == before + 1,
            ;
        }
    }

    /// A full cycle takes `ROWS` slots of time and drives every row exactly once, in row
    /// order from the row it starts at, wrapping after the last; after it the driver
    /// stands where it started.
    pub proof fn lemma_cycle(self)
        requires
            self.wf(),
            self.rest is None,
            0 < ROWS,
        ensures
            self.advance_by(2 * (ROWS as nat)) == self,
            self.hold_total(2 * (ROWS as nat)) == ROWS * SLOT_MICROS,
            forall|k: nat|
                k < ROWS ==> #[trigger] self.advance_by(2 * k).step().row == Some(
                    Self::row_after(self.row, k as int),
                ),
            forall|k: nat|
                k < ROWS ==> (#[trigger] self.advance_by(2 * k + 1).step().row) is None,
            forall|j: int, k: int|
                0 <= j < ROWS && 0 <= k < ROWS && j != k ==> Self::row_after(self.row, j)
                    != Self::row_after(self.row, k),
            forall|row: int|
                0 <= row < ROWS ==> {
                    let k = #[trigger] Self::slots_until(self.row, row);
                    0 <= k < ROWS && Self::row_after(self.row, k) == row
                },
    {
        self.lemma_slots(ROWS as nat);
        assert forall|k: nat| k < ROWS implies #[trigger] self.advance_by(2 * k).step().row
            == Some(Self::row_after(self.row, k as int)) by {
            self.lemma_slots(k);
        }
        assert forall|k: nat| k < ROWS implies (#[trigger] self.advance_by(
            2 * k + 1,
        ).step().row) is None by {
            self.lemma_slots(k);
            self.lemma_advance_by_split(2 * k, 1);
            reveal_with_fuel(ScanModel::advance_by, 2);
        }
    }

    /// The brightness decides how long a row is driven, and nothing else: two drivers that
    /// differ in their level alone assert the same row with the same columns on.
    pub proof fn lemma_level_keeps_lines(self, other: Self)
        requires
            self.frame == other.frame,
            self.row == other.row,
            self.rest is None <==> other.rest is None,
        ensures
            self.step().row == other.step().row,
            self.step().cols == other.step().cols,
            self.rest is None ==> self.step().hold == duty_micros(self.level)
                && other.step().hold == duty_micros(other.level),
    {
    }
}

/// The multiplexer: the frame on show, the brightness, and where the cycle stands.
#[derive(Clone, Copy, Debug)]
pub struct ScanDriver<const COLS: usize, const ROWS: usize> {
    frame: Frame<COLS, ROWS>,
    brightness: Brightness,
    row: usize,
    rest: Option<u64>,
}

impl<const COLS: usize, const ROWS: usize> View for ScanDriver<COLS, ROWS> {
    type V = ScanModel<COLS, ROWS>;

    closed spec fn view(&self) -> ScanModel<COLS, ROWS> {
        ScanModel {
            frame: self.frame,
            level: self.brightness@,
            row: self.row as int,
            rest: match self.rest {
                Some(rest) => Some(rest as int),
                None => None,
            },
        }
    }
}

impl<const COLS: usize, const ROWS: usize> ScanDriver<COLS, ROWS> {
    #[verifier::type_invariant]
    spec fn inv(self) -> bool {
        self@.wf()
    }

    /// A driver at the start of the first row's slot, showing the empty frame at the
    /// default brightness.
    pub fn new() -> (driver: Self)
        ensures
            driver@ == (ScanModel::<COLS, ROWS> {
                frame: Frame::spec_empty(),
                level: crate::brightness::DEFAULT_LEVEL as int,
                row: 0,
                rest: None,
            }),
            driver@.wf(),
    {
        ScanDriver { frame: Frame::empty(), brightness: Brightness::default(), row: 0, rest: None }
    }

    /// The frame being multiplexed.
    pub fn frame(&self) -> (frame: Frame<COLS, ROWS>)
        ensures
            frame == self@.frame,
            self@.wf(),
    {
        proof {
            use_type_invariant(self);
        }
        self.frame
    }

    /// The brightness in use.
    pub fn brightness(&self) -> (brightness: Brightness)
        ensures
            brightness@ == self@.level,
            self@.wf(),
    {
        proof {
            use_type_invariant(self);
        }
        self.brightness
    }

    /// Replaces the frame. The cycle goes on where it stands: the new frame is shown from
    /// the next time a row is driven.
    pub fn set_frame(&mut self, frame: Frame<COLS, ROWS>)
        ensures
            final(self)@ == (ScanModel { frame, ..old(self)@ }),
            final(self)@.wf(),
    {
        proof {
            use_type_invariant(&*self);
        }
        self.frame = frame;
    }

    /// Replaces the brightness. A slot that is under way keeps its length: the new level
    /// is used from the next time a row is driven.
    pub fn set_brightness(&mut self, brightness: Brightness)
        ensures
            final(self)@ == (ScanModel { level: brightness@, ..old(self)@ }),
            final(self)@.wf(),
    {
        proof {
            use_type_invariant(&*self);
        }
        let _ = brightness.level();
        self.brightness = brightness;
    }

    /// Goes back to the start of the first row's slot.
    pub fn restart(&mut self)
        ensures
            final(self)@ == (ScanModel { row: 0, rest: None, ..old(self)@ }),
            final(self)@.wf(),
    {
        proof {
            use_type_invariant(&*self);
        }
        self.row = 0;
        self.rest = None;
    }

    /// Says what the lines are to show next and for how long, and moves on.
    pub fn step(&mut self) -> (step: Step<COLS>)
        ensures
            old(self)@.wf(),
            final(self)@.wf(),
            step@ == old(self)@.step(),
            final(self)@ == old(self)@.advance(),
    {
        proof {
            use_type_invariant(&*self);
        }
        match self.rest {
            None => {
                let on = self.brightness.on_micros();
                let (row, cols) = if self.row < ROWS {
                    (Some(self.row), self.frame.row(self.row))
                } else {
                    (None, [false; COLS])
                };
                self.rest = Some(SLOT_MICROS - on);
                let step = Step { row, cols, hold_micros: on };
                proof {
                    old(self).frame.lemma_lit_in_bounds();
                    assert(step@.cols =~= old(self)@.pattern(old(self)@.row));
                }
                step
            },
            Some(rest) => {
                self.row = if self.row + 1 < ROWS {
                    self.row + 1
                } else {
                    0
                };
                self.rest = None;
                let step = Step { row: None, cols: [false; COLS], hold_micros: rest };
                proof {
                    assert(step@.cols =~= Seq::new(COLS as nat, |x: int| false));
                }
                step
            },
        }
    }
}

} // verus!
