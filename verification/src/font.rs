//! Glyphs and the font that maps characters to them.
//!
//! A glyph is a frame-shaped bitmap of which the rightmost `width` columns are the
//! character; the columns to their left are padding. A font is a table from characters
//! to glyphs; a character that the table lacks gets the blank glyph, never an error.

use crate::frame::Frame;
use vstd::prelude::*;
use vstd::string::*;

verus! {

/// A glyph as plain mathematics.
pub struct GlyphModel<const COLS: usize, const ROWS: usize> {
    /// The bitmap, as wide as the matrix.
    pub frame: Frame<COLS, ROWS>,
    /// The number of columns that the character takes.
    pub width: int,
}

impl<const COLS: usize, const ROWS: usize> GlyphModel<COLS, ROWS> {
    /// What holds of every glyph.
    pub open spec fn wf(self) -> bool {
        0 <= self.width <= COLS
    }

    /// Whether column `k` of the character, counted from its own left edge, is lit in
    /// row `y`. The character stands at the right of its bitmap.
    pub open spec fn col_lit(self, k: int, y: int) -> bool {
        0 <= k < self.width && self.frame.lit(COLS - self.width + k, y)
    }

    /// The glyph of a character that a font lacks: as wide as the matrix, with no cell lit.
    pub open spec fn blank() -> Self {
        GlyphModel { frame: Frame::spec_empty(), width: COLS as int }
    }
}

/// The bitmap of one character.
#[derive(Clone, Copy, Debug, PartialEq, Eq)]
pub struct Glyph<const COLS: usize, const ROWS: usize> {
    frame: Frame<COLS, ROWS>,
    width: usize,
}

impl<const COLS: usize, const ROWS: usize> View for Glyph<COLS, ROWS> {
    type V = GlyphModel<COLS, ROWS>;

    closed spec fn view(&self) -> GlyphModel<COLS, ROWS> {
        GlyphModel { frame: self.frame, width: self.width as int }
    }
}

impl<const COLS: usize, const ROWS: usize> Glyph<COLS, ROWS> {
    #[verifier::type_invariant]
    spec fn inv(self) -> bool {
        self@.wf()
    }

    /// The glyph that takes the rightmost `width` columns of `frame`. A width beyond that
    /// of the matrix counts as the width of the matrix.
    pub fn new(frame: Frame<COLS, ROWS>, width: usize) -> (glyph: Self)
        ensures
            glyph@.frame == frame,
            glyph@.width == if width <= COLS {
                width
            } else {
                COLS
            },
            glyph@.wf(),
    {
        Glyph {
            frame,
            width: if width <= COLS {
                width
            } else {
                COLS
            },
        }
    }

    /// No glyph has a negative width.
    pub proof fn lemma_width_counted(self)
        ensures
            self@.width >= 0,
    {
    }

    /// The blank glyph.
    pub fn blank() -> (glyph: Self)
        ensures
            glyph@ == GlyphModel::<COLS, ROWS>::blank(),
            glyph@.wf(),
    {
        Glyph { frame: Frame::empty(), width: COLS }
    }

    /// The bitmap.
    pub fn frame(&self) -> (frame: Frame<COLS, ROWS>)
        ensures
            frame == self@.frame,
            self@.wf(),
    {
        proof {
            use_type_invariant(self);
        }
        self.frame
    }

    /// The number of columns that the character takes.
    pub fn width(&self) -> (width: usize)
        ensures
            width == self@.width,
            self@.wf(),
    {
        proof {
            use_type_invariant(self);
        }
        self.width
    }

    /// Whether column `k` of the character is lit in row `y`.
    pub fn col_is_set(&self, k: usize, y: usize) -> (on: bool)
        requires
            k < self@.width,
            y < ROWS,
        ensures
            on == self@.col_lit(k as int, y as int),
    {
        proof {
            use_type_invariant(self);
        }
        self.frame.is_set(COLS - self.width + k, y)
    }
}

/// The glyph that a table gives for `c`: the entry for `c`, or the blank glyph.
pub open spec fn glyph_of<const COLS: usize, const ROWS: usize>(
    table: Map<char, GlyphModel<COLS, ROWS>>,
    c: char,
) -> GlyphModel<COLS, ROWS> {
    if table.contains_key(c) {
        table[c]
    } else {
        GlyphModel::blank()
    }
}

/// The glyphs that a table gives for the characters of `text`, in order.
pub open spec fn glyphs_of<const COLS: usize, const ROWS: usize>(
    table: Map<char, GlyphModel<COLS, ROWS>>,
    text: Seq<char>,
) -> Seq<GlyphModel<COLS, ROWS>> {
    Seq::new(text.len(), |i: int| glyph_of(table, text[i]))
}

/// The views of the glyphs of `glyphs`, in order.
pub open spec fn models<const COLS: usize, const ROWS: usize>(
    glyphs: Seq<Glyph<COLS, ROWS>>,
) -> Seq<GlyphModel<COLS, ROWS>> {
    Seq::new(glyphs.len(), |i: int| glyphs[i]@)
}

/// A table from characters to glyphs.
#[derive(Debug)]
pub struct Font<const COLS: usize, const ROWS: usize> {
    entries: Vec<(char, Glyph<COLS, ROWS>)>,
}

/// The table that a list of entries stands for: a later entry for a character replaces
/// an earlier one.
spec fn table_of<const COLS: usize, const ROWS: usize>(
    entries: Seq<(char, Glyph<COLS, ROWS>)>,
) -> Map<char, GlyphModel<COLS, ROWS>>
    decreases entries.len(),
{
    if entries.len() == 0 {
        Map::empty()
    } else {
        table_of(entries.drop_last()).insert(entries.last().0, entries.last().1@)
    }
}

/// The last entry for a character is the one that counts.
proof fn lemma_table_of_last<const COLS: usize, const ROWS: usize>(
    entries: Seq<(char, Glyph<COLS, ROWS>)>,
    at: int,
)
    requires
        0 <= at < entries.len(),
        forall|j: int| at < j < entries.len() ==> (#[trigger] entries[j]).0 != entries[at].0,
    ensures
        table_of(entries).contains_key(entries[at].0),
        table_of(entries)[entries[at].0] == entries[at].1@,
    decreases entries.len(),
{
    if at < entries.len() - 1 {
        let front = entries.drop_last();
        assert(front[at] == entries[at]);
        assert forall|j: int| at < j < front.len() implies (#[trigger] front[j]).0
            != front[at].0 by {
            assert(front[j] == entries[j]);
        }
        lemma_table_of_last(front, at);
        assert(entries[entries.len() - 1].0 != entries[at].0);
    }
}

/// A character that no entry is for is not in the table.
proof fn lemma_table_of_absent<const COLS: usize, const ROWS: usize>(
    entries: Seq<(char, Glyph<COLS, ROWS>)>,
    c: char,
)
    requires
        forall|j: int| 0 <= j < entries.len() ==> (#[trigger] entries[j]).0 != c,
    ensures
        !table_of(entries).contains_key(c),
    decreases entries.len(),
{
    if entries.len() > 0 {
        let front = entries.drop_last();
        assert forall|j: int| 0 <= j < front.len() implies (#[trigger] front[j]).0 != c by {
            assert(front[j] == entries[j]);
        }
        lemma_table_of_absent(front, c);
        assert(entries[entries.len() - 1].0 != c);
    }
}

impl<const COLS: usize, const ROWS: usize> View for Font<COLS, ROWS> {
    type V = Map<char, GlyphModel<COLS, ROWS>>;

    closed spec fn view(&self) -> Map<char, GlyphModel<COLS, ROWS>> {
        table_of(self.entries@)
    }
}

impl<const COLS: usize, const ROWS: usize> Font<COLS, ROWS> {
    /// The font with no entry: every character gets the blank glyph.
    pub fn new() -> (font: Self)
        ensures
            font@ == Map::<char, GlyphModel<COLS, ROWS>>::empty(),
    {
        Font { entries: Vec::new() }
    }

    /// Gives `c` the glyph `glyph`, in place of the one it had, if any.
    pub fn insert(&mut self, c: char, glyph: Glyph<COLS, ROWS>)
        ensures
            final(self)@ == old(self)@.insert(c, glyph@),
    {
        self.entries.push((c, glyph));
        proof {
            assert(self.entries@.drop_last() == old(self).entries@);
        }
    }

    /// The glyph for `c`: the one it was given last, or the blank glyph where it was
    /// given none.
    pub fn glyph_for(&self, c: char) -> (glyph: Glyph<COLS, ROWS>)
        ensures
            glyph@ == glyph_of(self@, c),
            glyph@.wf(),
    {
        let mut i: usize = self.entries.len();
        while i > 0
            invariant
                i <= self.entries.len(),
                forall|j: int| i <= j < self.entries.len() ==> (#[trigger] self.entries[j]).0 != c,
            decreases i,
        {
            i -= 1;
            if self.entries[i].0 == c {
                let glyph = self.entries[i].1;
                proof {
                    lemma_table_of_last(self.entries@, i as int);
                }
                let _ = glyph.width();
                return glyph;
            }
        }
        proof {
            lemma_table_of_absent(self.entries@, c);
        }
        Glyph::blank()
    }

    /// The glyphs for the characters of `text`, in order.
    pub fn glyphs_for(&self, text: &str) -> (glyphs: Vec<Glyph<COLS, ROWS>>)
        ensures
            models(glyphs@) == glyphs_of(self@, text@),
            forall|i: int| 0 <= i < glyphs.len() ==> (#[trigger] glyphs[i])@.wf(),
    {
        let count = text.unicode_len();
        let mut glyphs: Vec<Glyph<COLS, ROWS>> = Vec::new();
        let mut i: usize = 0;
        while i < count
            invariant
                count == text@.len(),
                i <= count,
                glyphs.len() == i,
                forall|j: int| 0 <= j < i ==> (#[trigger] glyphs[j])@ == glyph_of(self@, text@[j]),
                forall|j: int| 0 <= j < i ==> (#[trigger] glyphs[j])@.wf(),
            decreases count - i,
        {
            let glyph = self.glyph_for(text.get_char(i));
            glyphs.push(glyph);
            i += 1;
        }
        proof {
            assert(models(glyphs@) =~= glyphs_of(self@, text@));
        }
        glyphs
    }
}

} // verus!
