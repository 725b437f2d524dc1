//! The frame: a fixed-size bitmap saying which cells of the matrix are lit.

use vstd::prelude::*;

verus! {

/// Whether bit `place` of `bits` is set, the lowest bit being bit 0.
pub open spec fn bit_of(bits: u8, place: int) -> bool {
    0 <= place < 8 && (bits >> (place as u8)) & 1 == 1
}

/// A bitmap of `COLS` columns by `ROWS` rows. Cell `(x, y)` is column `x` of row `y`.
///
/// A frame is plain data: it owns no hardware and is freely copied and compared.
#[derive(Clone, Copy, Debug, PartialEq, Eq)]
pub struct Frame<const COLS: usize, const ROWS: usize> {
    cells: [[bool; COLS]; ROWS],
}

impl<const COLS: usize, const ROWS: usize> View for Frame<COLS, ROWS> {
    type V = Set<(int, int)>;

    /// The coordinates `(x, y)` of the lit cells.
    open spec fn view(&self) -> Set<(int, int)> {
        Set::new(|p: (int, int)| self.lit(p.0, p.1))
    }
}

impl<const COLS: usize, const ROWS: usize> Frame<COLS, ROWS> {
    /// Whether `(x, y)` names a cell of the frame.
    pub open spec fn in_bounds(x: int, y: int) -> bool {
        0 <= x < COLS && 0 <= y < ROWS
    }

    /// Whether cell `(x, y)` is lit. No cell outside the frame is lit.
    pub closed spec fn lit(&self, x: int, y: int) -> bool {
        Self::in_bounds(x, y) && self.cells[y][x]
    }

    /// Whether the lit cells of this frame are exactly the cells at which `on` holds.
    pub open spec fn shows(self, on: spec_fn(int, int) -> bool) -> bool {
        forall|x: int, y: int| #[trigger] self.lit(x, y) == (Self::in_bounds(x, y) && on(x, y))
    }

    /// The frame in which `(x, y)` is lit exactly when `on(x, y)` holds and `(x, y)` is a cell.
    pub closed spec fn from_fn(on: spec_fn(int, int) -> bool) -> Self {
        choose|f: Self| f.shows(on)
    }

    /// Where the empty frame is lit: nowhere.
    spec fn rule_empty() -> spec_fn(int, int) -> bool {
        |x: int, y: int| false
    }

    /// Where this frame is lit once `(x, y)` is lit as well.
    spec fn rule_set(self, x: int, y: int) -> spec_fn(int, int) -> bool {
        |i: int, j: int| self.lit(i, j) || (i == x && j == y)
    }

    /// Where this frame is lit once `(x, y)` is unlit.
    spec fn rule_unset(self, x: int, y: int) -> spec_fn(int, int) -> bool {
        |i: int, j: int| self.lit(i, j) && !(i == x && j == y)
    }

    /// Where this frame or `other` is lit.
    spec fn rule_overlay(self, other: Self) -> spec_fn(int, int) -> bool {
        |i: int, j: int| self.lit(i, j) || other.lit(i, j)
    }

    /// The frame with no cell lit.
    pub closed spec fn spec_empty() -> Self {
        Self::from_fn(Self::rule_empty())
    }

    /// This frame with cell `(x, y)` lit as well.
    pub closed spec fn spec_set(self, x: int, y: int) -> Self {
        Self::from_fn(self.rule_set(x, y))
    }

    /// This frame with cell `(x, y)` unlit.
    pub closed spec fn spec_unset(self, x: int, y: int) -> Self {
        Self::from_fn(self.rule_unset(x, y))
    }

    /// This frame with the lit cells of `other` lit as well.
    pub closed spec fn spec_overlay(self, other: Self) -> Self {
        Self::from_fn(self.rule_overlay(other))
    }

    /// Two frames with the same lit cells are the same frame.
    pub proof fn lemma_ext_equal(a: Self, b: Self)
        requires
            forall|x: int, y: int|
                #![trigger a.lit(x, y)]
                #![trigger b.lit(x, y)]
                Self::in_bounds(x, y) ==> a.lit(x, y) == b.lit(x, y),
        ensures
            a == b,
    {
        assert forall|y: int| 0 <= y < ROWS implies a.cells[y] == b.cells[y] by {
            assert forall|x: int| 0 <= x < COLS implies a.cells[y][x] == b.cells[y][x] by {
                assert(a.lit(x, y) == b.lit(x, y));
            }
            assert(a.cells[y] =~= b.cells[y]);
        }
        assert(a.cells =~= b.cells);
    }

    /// Only cells of the frame are ever lit.
    pub proof fn lemma_lit_in_bounds(self)
        ensures
            forall|x: int, y: int| #[trigger] self.lit(x, y) ==> Self::in_bounds(x, y),
    {
    }

    /// `from_fn` lights exactly the cells it is asked to.
    pub proof fn lemma_from_fn(on: spec_fn(int, int) -> bool)
        ensures
            Self::from_fn(on).shows(on),
    {
        let rows = Seq::new(ROWS as nat, |y: int| Seq::new(COLS as nat, |x: int| on(x, y)));
        let witness = Self::witness(rows, ROWS as nat);
        assert forall|x: int, y: int| #[trigger]
            witness.lit(x, y) == (Self::in_bounds(x, y) && on(x, y)) by {
            if Self::in_bounds(x, y) {
                assert(witness.cells[y]@ == rows[y]);
            }
        }
        assert(witness.shows(on));
    }

    /// A frame whose first `n` rows are those of `rows`.
    proof fn witness(rows: Seq<Seq<bool>>, n: nat) -> (f: Self)
        requires
            n <= ROWS,
            rows.len() == ROWS,
            forall|y: int| 0 <= y < ROWS ==> (#[trigger] rows[y]).len() == COLS,
        ensures
            forall|y: int| 0 <= y < n ==> (#[trigger] f.cells[y])@ == rows[y],
        decreases n,
    {
        if n == 0 {
            arbitrary()
        } else {
            let prev = Self::witness(rows, (n - 1) as nat);
            let row = Self::witness_row(rows[n - 1], COLS as nat);
            assert(row@ =~= rows[n - 1]);
            let f = Frame { cells: vstd::array::spec_array_update(prev.cells, n - 1, row) };
            assert forall|y: int| 0 <= y < n implies (#[trigger] f.cells[y])@ == rows[y] by {
                assert(f.cells@ == prev.cells@.update(n - 1, row));
            }
            f
        }
    }

    /// A row whose first `n` cells are those of `cells`.
    proof fn witness_row(cells: Seq<bool>, n: nat) -> (row: [bool; COLS])
        requires
            n <= COLS,
            cells.len() == COLS,
        ensures
            forall|x: int| 0 <= x < n ==> #[trigger] row[x] == cells[x],
        decreases n,
    {
        if n == 0 {
            arbitrary()
        } else {
            let prev = Self::witness_row(cells, (n - 1) as nat);
            let row = vstd::array::spec_array_update(prev, n - 1, cells[n - 1]);
            assert(row@ == prev@.update(n - 1, cells[n - 1]));
            row
        }
    }

    /// No cell of the empty frame is lit.
    pub proof fn lemma_spec_empty()
        ensures
            forall|x: int, y: int| !#[trigger] Self::spec_empty().lit(x, y),
            Self::spec_empty()@ == Set::<(int, int)>::empty(),
    {
        Self::lemma_from_fn(Self::rule_empty());
        assert(Self::spec_empty()@ =~= Set::<(int, int)>::empty());
    }

    /// Lighting a cell of the frame lights that cell and changes no other.
    pub proof fn lemma_spec_set(self, x: int, y: int)
        requires
            Self::in_bounds(x, y),
        ensures
            forall|i: int, j: int|
                #[trigger] self.spec_set(x, y).lit(i, j) == (self.lit(i, j) || (i == x && j == y)),
            self.spec_set(x, y)@ == self@.insert((x, y)),
    {
        Self::lemma_from_fn(self.rule_set(x, y));
        assert(self.spec_set(x, y)@ =~= self@.insert((x, y)));
    }

    /// Clearing a cell unlights that cell and changes no other.
    pub proof fn lemma_spec_unset(self, x: int, y: int)
        ensures
            forall|i: int, j: int|
                #[trigger] self.spec_unset(x, y).lit(i, j) == (self.lit(i, j) && !(i == x && j
                    == y)),
            self.spec_unset(x, y)@ == self@.remove((x, y)),
    {
        Self::lemma_from_fn(self.rule_unset(x, y));
        assert(self.spec_unset(x, y)@ =~= self@.remove((x, y)));
    }

    /// In an overlay exactly the cells lit in either frame are lit.
    pub proof fn lemma_spec_overlay(self, other: Self)
        ensures
            forall|i: int, j: int|
                #[trigger] self.spec_overlay(other).lit(i, j) == (self.lit(i, j) || other.lit(
                    i,
                    j,
                )),
            self.spec_overlay(other)@ == self@.union(other@),
    {
        Self::lemma_from_fn(self.rule_overlay(other));
        assert(self.spec_overlay(other)@ =~= self@.union(other@));
    }

    /// Lighting one cell of the empty frame gives a frame in which that cell is lit and no
    /// other cell is.
    pub proof fn lemma_set_on_empty(x: int, y: int)
        requires
            Self::in_bounds(x, y),
        ensures
            Self::spec_empty().spec_set(x, y).lit(x, y),
            forall|i: int, j: int|
                (i != x || j != y) ==> !#[trigger] Self::spec_empty().spec_set(x, y).lit(i, j),
            Self::spec_empty().spec_set(x, y)@ == set![(x, y)],
    {
        Self::lemma_spec_empty();
        Self::spec_empty().lemma_spec_set(x, y);
        assert(Self::spec_empty().spec_set(x, y)@ =~= set![(x, y)]);
    }

    /// The frame with every cell unlit.
    pub fn empty() -> (frame: Self)
        ensures
            frame == Self::spec_empty(),
            forall|x: int, y: int| !#[trigger] frame.lit(x, y),
    {
        let frame = Frame { cells: [[false; COLS]; ROWS] };
        proof {
            Self::lemma_spec_empty();
            Self::lemma_ext_equal(frame, Self::spec_empty());
        }
        frame
    }

    /// The frame whose row `y` is drawn by the low bits of `rows[y]`: the lowest bit is the
    /// rightmost column, the next one the column to its left, and so on for up to eight
    /// columns. Columns further left stay unlit.
    pub fn from_bits(rows: &[u8; ROWS]) -> (frame: Self)
        ensures
            forall|x: int, y: int| #[trigger]
                frame.lit(x, y) == (Self::in_bounds(x, y) && bit_of(rows[y], COLS - 1 - x)),
    {
        let mut frame = Self::empty();
        let mut y: usize = 0;
        while y < ROWS
            invariant
                y <= ROWS,
                forall|i: int, j: int| #[trigger]
                    frame.lit(i, j) == (Self::in_bounds(i, j) && j < y && bit_of(
                        rows[j],
                        COLS - 1 - i,
                    )),
            decreases ROWS - y,
        {
            let bits = rows[y];
            let mut x: usize = 0;
            while x < COLS
                invariant
                    y < ROWS,
                    x <= COLS,
                    bits == rows[y as int],
                    forall|i: int, j: int| #[trigger]
                        frame.lit(i, j) == (Self::in_bounds(i, j) && (j < y || (j == y && i < x))
                            && bit_of(rows[j], COLS - 1 - i)),
                decreases COLS - x,
            {
                let place = COLS - 1 - x;
                if place < 8 && (bits >> place) & 1 == 1 {
                    frame.put(x, y, true);
                }
                x += 1;
            }
            y += 1;
        }
        frame
    }

    /// Unlights every cell.
    pub fn clear(&mut self)
        ensures
            *final(self) == Self::spec_empty(),
            forall|x: int, y: int| !#[trigger] final(self).lit(x, y),
    {
        *self = Self::empty();
    }

    /// Writes `on` to cell `(x, y)` and leaves every other cell as it was.
    fn put(&mut self, x: usize, y: usize, on: bool)
        requires
            Self::in_bounds(x as int, y as int),
        ensures
            forall|i: int, j: int|
                #[trigger] final(self).lit(i, j) == (if i == x && j == y {
                    on
                } else {
                    old(self).lit(i, j)
                }),
    {
        let mut row = self.cells[y];
        row[x] = on;
        self.cells[y] = row;
        proof {
            assert(row@ == old(self).cells[y as int]@.update(x as int, on));
            assert(self.cells@ == old(self).cells@.update(y as int, row));
            assert forall|i: int, j: int|
                final(self).lit(i, j) == (if i == x && j == y {
                    on
                } else {
                    old(self).lit(i, j)
                }) by {
                if Self::in_bounds(i, j) {
                    if j == y {
                        assert(self.cells[j] == row);
                        if i != x {
                            assert(row[i] == old(self).cells[y as int][i]);
                        }
                    } else {
                        assert(self.cells[j] == old(self).cells[j]);
                    }
                }
            }
        }
    }

    /// Lights cell `(x, y)` and leaves every other cell as it was.
    pub fn set(&mut self, x: usize, y: usize)
        requires
            Self::in_bounds(x as int, y as int),
        ensures
            *final(self) == old(self).spec_set(x as int, y as int),
            forall|i: int, j: int|
                #[trigger] final(self).lit(i, j) == (old(self).lit(i, j) || (i == x && j == y)),
    {
        self.put(x, y, true);
        proof {
            old(self).lemma_spec_set(x as int, y as int);
            Self::lemma_ext_equal(*self, old(self).spec_set(x as int, y as int));
        }
    }

    /// Unlights cell `(x, y)` and leaves every other cell as it was.
    pub fn unset(&mut self, x: usize, y: usize)
        requires
            Self::in_bounds(x as int, y as int),
        ensures
            *final(self) == old(self).spec_unset(x as int, y as int),
            forall|i: int, j: int|
                #[trigger] final(self).lit(i, j) == (old(self).lit(i, j) && !(i == x && j == y)),
    {
        self.put(x, y, false);
        proof {
            old(self).lemma_spec_unset(x as int, y as int);
            Self::lemma_ext_equal(*self, old(self).spec_unset(x as int, y as int));
        }
    }

    /// The cells of row `y`, column by column.
    pub fn row(&self, y: usize) -> (cols: [bool; COLS])
        requires
            y < ROWS,
        ensures
            forall|x: int| 0 <= x < COLS ==> #[trigger] cols[x] == self.lit(x, y as int),
    {
        self.cells[y]
    }

    /// Reads cell `(x, y)`.
    pub fn is_set(&self, x: usize, y: usize) -> (on: bool)
        requires
            Self::in_bounds(x as int, y as int),
        ensures
            on == self.lit(x as int, y as int),
    {
        self.cells[y][x]
    }

    /// Lights every cell that is lit in `other`, and leaves the lit cells of this frame lit.
    pub fn overlay(&mut self, other: &Self)
        ensures
            *final(self) == old(self).spec_overlay(*other),
            forall|i: int, j: int|
                #[trigger] final(self).lit(i, j) == (old(self).lit(i, j) || other.lit(i, j)),
    {
        let mut y: usize = 0;
        while y < ROWS
            invariant
                y <= ROWS,
                forall|i: int, j: int|
                    #[trigger] self.lit(i, j) == (old(self).lit(i, j) || (j < y && other.lit(
                        i,
                        j,
                    ))),
            decreases ROWS - y,
        {
            let mut x: usize = 0;
            while x < COLS
                invariant
                    y < ROWS,
                    x <= COLS,
                    forall|i: int, j: int|
                        #[trigger] self.lit(i, j) == (old(self).lit(i, j) || ((j < y || (j == y
                            && i < x))
                            && other.lit(i, j))),
                decreases COLS - x,
            {
                if other.is_set(x, y) {
                    self.put(x, y, true);
                }
                x += 1;
            }
            y += 1;
        }
        proof {
            old(self).lemma_spec_overlay(*other);
            Self::lemma_ext_equal(*self, old(self).spec_overlay(*other));
        }
    }
}

} // verus!
