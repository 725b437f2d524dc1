//! The scroll animator: text sliding across the matrix from right to left.
//!
//! The glyphs of a text stand side by side, one blank column between neighbours, and
//! form one wide bitmap. A window as wide as the matrix slides over it, one column at a
//! time, from the place where the text is about to enter at the right to the place
//! where it has just left at the left. Each place of the window is one frame.

use crate::font::{glyphs_of, models, Font, Glyph, GlyphModel};
use crate::frame::Frame;
use vstd::prelude::*;

verus! {

/// Microseconds for which each frame of a scrolling text is shown.
pub const STEP_MICROS: u64 = 150_000;

/// The width of the wide bitmap: the widths of the glyphs and one column between each
/// two neighbours. For no glyph at all it is -1, so that a glyph more always adds its
/// width and one.
pub open spec fn total_width<const COLS: usize, const ROWS: usize>(
    glyphs: Seq<GlyphModel<COLS, ROWS>>,
) -> int
    decreases glyphs.len(),
{
    if glyphs.len() == 0 {
        -1
    } else {
        total_width(glyphs.drop_last()) + 1 + glyphs.last().width
    }
}

/// The column of the wide bitmap at which glyph `i` starts.
pub open spec fn start_of<const COLS: usize, const ROWS: usize>(
    glyphs: Seq<GlyphModel<COLS, ROWS>>,
    i: int,
) -> int {
    total_width(glyphs.take(i)) + 1
}

/// Whether column `c` of the wide bitmap belongs to glyph `i` and is lit in row `y`.
pub open spec fn hit<const COLS: usize, const ROWS: usize>(
    glyphs: Seq<GlyphModel<COLS, ROWS>>,
    i: int,
    c: int,
    y: int,
) -> bool {
    0 <= i < glyphs.len() && glyphs[i].col_lit(c - start_of(glyphs, i), y)
}

/// Whether the cell in column `c` and row `y` of the wide bitmap is lit. The columns
/// between the glyphs are unlit, and so is everything outside the bitmap.
pub open spec fn wide_lit<const COLS: usize, const ROWS: usize>(
    glyphs: Seq<GlyphModel<COLS, ROWS>>,
    c: int,
    y: int,
) -> bool {
    exists|i: int| #[trigger] hit(glyphs, i, c, y)
}

/// The number of frames of the animation: none for no glyph; else one for each place of
/// the window, from the one just left of the wide bitmap to the one just right of it.
pub open spec fn frame_count<const COLS: usize, const ROWS: usize>(
    glyphs: Seq<GlyphModel<COLS, ROWS>>,
) -> int {
    if glyphs.len() == 0 {
        0
    } else {
        total_width(glyphs) + COLS + 1
    }
}

/// Whether `frame` is frame `k` of the animation: the window whose left edge is at
/// column `k - COLS` of the wide bitmap.
pub open spec fn is_window<const COLS: usize, const ROWS: usize>(
    frame: Frame<COLS, ROWS>,
    glyphs: Seq<GlyphModel<COLS, ROWS>>,
    k: int,
) -> bool {
    forall|x: int, y: int| #[trigger]
        frame.lit(x, y) == (Frame::<COLS, ROWS>::in_bounds(x, y) && wide_lit(
            glyphs,
            k - COLS + x,
            y,
        ))
}

/// Where the window of frame `k` finds the wide bitmap lit, in its own columns.
pub open spec fn window_rule<const COLS: usize, const ROWS: usize>(
    glyphs: Seq<GlyphModel<COLS, ROWS>>,
    k: int,
) -> spec_fn(int, int) -> bool {
    |x: int, y: int| wide_lit(glyphs, k - COLS + x, y)
}

/// Frame `k` of the animation.
pub open spec fn window<const COLS: usize, const ROWS: usize>(
    glyphs: Seq<GlyphModel<COLS, ROWS>>,
    k: int,
) -> Frame<COLS, ROWS> {
    Frame::from_fn(window_rule(glyphs, k))
}

/// The frames of the animation, in order.
pub open spec fn animation<const COLS: usize, const ROWS: usize>(
    glyphs: Seq<GlyphModel<COLS, ROWS>>,
) -> Seq<Frame<COLS, ROWS>> {
    Seq::new(frame_count(glyphs) as nat, |k: int| window(glyphs, k))
}

/// Frame `k` of the animation is the one frame that is the window at its place.
pub proof fn lemma_window<const COLS: usize, const ROWS: usize>(
    glyphs: Seq<GlyphModel<COLS, ROWS>>,
    k: int,
    frame: Frame<COLS, ROWS>,
)
    ensures
        is_window(window(glyphs, k), glyphs, k),
        is_window(frame, glyphs, k) <==> frame == window(glyphs, k),
{
    Frame::<COLS, ROWS>::lemma_from_fn(window_rule(glyphs, k));
    if is_window(frame, glyphs, k) {
        Frame::lemma_ext_equal(frame, window(glyphs, k));
    }
}

/// Whether no glyph has a negative width.
pub open spec fn widths_counted<const COLS: usize, const ROWS: usize>(
    glyphs: Seq<GlyphModel<COLS, ROWS>>,
) -> bool {
    forall|i: int| 0 <= i < glyphs.len() ==> (#[trigger] glyphs[i]).width >= 0
}

/// Each glyph starts one column after the end of the glyph before it.
pub proof fn lemma_start_next<const COLS: usize, const ROWS: usize>(
    glyphs: Seq<GlyphModel<COLS, ROWS>>,
    i: int,
)
    requires
        0 <= i < glyphs.len(),
    ensures
        start_of(glyphs, i + 1) == start_of(glyphs, i) + glyphs[i].width + 1,
        start_of(glyphs, 0) == 0,
        start_of(glyphs, glyphs.len() as int) == total_width(glyphs) + 1,
{
    assert(glyphs.take(i + 1).drop_last() =~= glyphs.take(i));
    assert(glyphs.take(i + 1).last() == glyphs[i]);
    assert(glyphs.take(0).len() == 0);
    assert(glyphs.take(glyphs.len() as int) =~= glyphs);
}

/// A later glyph starts after the end of an earlier one.
pub proof fn lemma_start_order<const COLS: usize, const ROWS: usize>(
    glyphs: Seq<GlyphModel<COLS, ROWS>>,
    i: int,
    j: int,
)
    requires
        widths_counted(glyphs),
        0 <= i < j <= glyphs.len(),
    ensures
        start_of(glyphs, i) + glyphs[i].width + 1 <= start_of(glyphs, j),
    decreases j - i,
{
    if i + 1 < j {
        lemma_start_order(glyphs, i, j - 1);
        lemma_start_next(glyphs, j - 1);
    } else {
        lemma_start_next(glyphs, i);
    }
}

/// The glyphs of a vector have widths that are not negative.
pub proof fn lemma_models_counted<const COLS: usize, const ROWS: usize>(
    glyphs: Seq<Glyph<COLS, ROWS>>,
)
    ensures
        widths_counted(models(glyphs)),
        models(glyphs).len() == glyphs.len(),
{
    assert forall|i: int| 0 <= i < glyphs.len() implies (#[trigger] models(glyphs)[i]).width
        >= 0 by {
        glyphs[i].lemma_width_counted();
    }
}

/// A column of the wide bitmap belongs to one glyph at most.
pub proof fn lemma_hit_unique<const COLS: usize, const ROWS: usize>(
    glyphs: Seq<GlyphModel<COLS, ROWS>>,
    i: int,
    j: int,
    c: int,
    y: int,
)
    requires
        widths_counted(glyphs),
        hit(glyphs, i, c, y),
        hit(glyphs, j, c, y),
    ensures
        i == j,
{
    if i < j {
        lemma_start_order(glyphs, i, j);
    } else if j < i {
        lemma_start_order(glyphs, j, i);
    }
}

/// No text, no frames.
pub proof fn lemma_empty_text_no_frames<const COLS: usize, const ROWS: usize>()
    ensures
        frame_count(Seq::<GlyphModel<COLS, ROWS>>::empty()) == 0,
{
}

/// One glyph gives as many frames as the matrix and the glyph have columns, and one more.
pub proof fn lemma_single_glyph_frames<const COLS: usize, const ROWS: usize>(
    glyph: GlyphModel<COLS, ROWS>,
)
    ensures
        frame_count(seq![glyph]) == COLS + glyph.width + 1,
{
    assert(seq![glyph].drop_last().len() == 0);
    reveal_with_fuel(total_width, 2);
}

/// The animation starts and ends with nothing to see: in its first frame the text is
/// about to enter at the right, in its last it has just left at the left.
pub proof fn lemma_enters_and_leaves<const COLS: usize, const ROWS: usize>(
    glyphs: Seq<GlyphModel<COLS, ROWS>>,
    first: Frame<COLS, ROWS>,
    last: Frame<COLS, ROWS>,
)
    requires
        widths_counted(glyphs),
        glyphs.len() > 0,
        is_window(first, glyphs, 0),
        is_window(last, glyphs, frame_count(glyphs) - 1),
    ensures
        first == Frame::<COLS, ROWS>::spec_empty(),
        last == Frame::<COLS, ROWS>::spec_empty(),
{
    Frame::<COLS, ROWS>::lemma_spec_empty();
    assert forall|x: int, y: int| Frame::<COLS, ROWS>::in_bounds(x, y) implies !#[trigger] first.lit(
        x,
        y,
    ) by {
        let c = 0 - COLS + x;
        assert forall|i: int| !#[trigger] hit(glyphs, i, c, y) by {
            if 0 <= i < glyphs.len() {
                if i > 0 {
                    lemma_start_order(glyphs, 0, i);
                }
                lemma_start_next(glyphs, 0);
            }
        }
    }
    assert forall|x: int, y: int| Frame::<COLS, ROWS>::in_bounds(x, y) implies !#[trigger] last.lit(
        x,
        y,
    ) by {
        let c = frame_count(glyphs) - 1 - COLS + x;
        assert forall|i: int| !#[trigger] hit(glyphs, i, c, y) by {
            if 0 <= i < glyphs.len() {
                lemma_start_order(glyphs, i, glyphs.len() as int);
                lemma_start_next(glyphs, i);
            }
        }
    }
    Frame::lemma_ext_equal(first, Frame::spec_empty());
    Frame::lemma_ext_equal(last, Frame::spec_empty());
}

/// From one frame to the next the picture moves one column to the left.
pub proof fn lemma_slides_left<const COLS: usize, const ROWS: usize>(
    glyphs: Seq<GlyphModel<COLS, ROWS>>,
    k: int,
    frame: Frame<COLS, ROWS>,
    next: Frame<COLS, ROWS>,
    x: int,
    y: int,
)
    requires
        is_window(frame, glyphs, k),
        is_window(next, glyphs, k + 1),
        0 <= x,
        x + 1 < COLS,
    ensures
        next.lit(x, y) == frame.lit(x + 1, y),
{
    assert(next.lit(x, y) == (Frame::<COLS, ROWS>::in_bounds(x, y) && wide_lit(
        glyphs,
        k + 1 - COLS + x,
        y,
    )));
    assert(frame.lit(x + 1, y) == (Frame::<COLS, ROWS>::in_bounds(x + 1, y) && wide_lit(
        glyphs,
        k - COLS + (x + 1),
        y,
    )));
}

/// Reads the cell in column `c` and row `y` of the wide bitmap.
pub fn wide_cell<const COLS: usize, const ROWS: usize>(
    glyphs: &Vec<Glyph<COLS, ROWS>>,
    c: usize,
    y: usize,
) -> (on: bool)
    requires
        total_width(models(glyphs@)) < usize::MAX,
    ensures
        on == wide_lit(models(glyphs@), c as int, y as int),
{
    let ghost all = models(glyphs@);
    proof {
        lemma_models_counted(glyphs@);
    }
    if y >= ROWS {
        proof {
            assert forall|i: int| !#[trigger] hit(all, i, c as int, y as int) by {
                if 0 <= i < all.len() {
                    all[i].frame.lemma_lit_in_bounds();
                }
            }
        }
        return false;
    }
    let mut start: usize = 0;
    let mut i: usize = 0;
    proof {
        if glyphs.len() > 0 {
            lemma_start_next(all, 0);
        } else {
            assert(all.take(0).len() == 0);
        }
    }
    while i < glyphs.len()
        invariant
            all == models(glyphs@),
            widths_counted(all),
            all.len() == glyphs.len(),
            total_width(all) < usize::MAX,
            y < ROWS,
            i <= glyphs.len(),
            start == start_of(all, i as int),
            start <= c,
            forall|j: int| 0 <= j < i ==> !#[trigger] hit(all, j, c as int, y as int),
        decreases glyphs.len() - i,
    {
        let glyph = glyphs[i];
        let width = glyph.width();
        proof {
            lemma_start_next(all, i as int);
            lemma_start_order(all, i as int, all.len() as int);
            lemma_start_next(all, all.len() - 1);
            assert(all[i as int] == glyph@);
        }
        if c - start < width {
            let on = glyph.col_is_set(c - start, y);
            proof {
                assert(on == hit(all, i as int, c as int, y as int));
                assert forall|j: int| i < j < all.len() implies !#[trigger] hit(
                    all,
                    j,
                    c as int,
                    y as int,
                ) by {
                    lemma_start_order(all, i as int, j);
                }
            }
            return on;
        }
        if c - start == width {
            proof {
                assert forall|j: int| i <= j < all.len() implies !#[trigger] hit(
                    all,
                    j,
                    c as int,
                    y as int,
                ) by {
                    if j > i {
                        lemma_start_order(all, i as int, j);
                    }
                }
            }
            return false;
        }
        start = start + width + 1;
        i += 1;
    }
    false
}

/// Frame `k` of the animation.
pub fn frame_at<const COLS: usize, const ROWS: usize>(
    glyphs: &Vec<Glyph<COLS, ROWS>>,
    k: usize,
) -> (frame: Frame<COLS, ROWS>)
    requires
        total_width(models(glyphs@)) < usize::MAX,
    ensures
        frame == window(models(glyphs@), k as int),
        is_window(frame, models(glyphs@), k as int),
{
    let ghost all = models(glyphs@);
    let mut frame = Frame::empty();
    let mut y: usize = 0;
    while y < ROWS
        invariant
            all == models(glyphs@),
            total_width(all) < usize::MAX,
            y <= ROWS,
            forall|i: int, j: int| #[trigger]
                frame.lit(i, j) == (Frame::<COLS, ROWS>::in_bounds(i, j) && j < y && wide_lit(
                    all,
                    k - COLS + i,
                    j,
                )),
        decreases ROWS - y,
    {
        let mut x: usize = 0;
        while x < COLS
            invariant
                all == models(glyphs@),
                total_width(all) < usize::MAX,
                y < ROWS,
                x <= COLS,
                forall|i: int, j: int| #[trigger]
                    frame.lit(i, j) == (Frame::<COLS, ROWS>::in_bounds(i, j) && (j < y || (j == y
                        && i < x)) && wide_lit(all, k - COLS + i, j)),
            decreases COLS - x,
        {
            if k >= COLS - x {
                if wide_cell(glyphs, k - (COLS - x), y) {
                    frame.set(x, y);
                }
            } else {
                proof {
                    lemma_models_counted(glyphs@);
                    let c = k - COLS + x;
                    assert forall|i: int| !#[trigger] hit(all, i, c, y as int) by {
                        if 0 <= i < all.len() {
                            if i > 0 {
                                lemma_start_order(all, 0, i);
                            }
                            lemma_start_next(all, 0);
                        }
                    }
                }
            }
            x += 1;
        }
        y += 1;
    }
    proof {
        lemma_window(all, k as int, frame);
    }
    frame
}

/// The number of frames of the animation.
pub fn count_frames<const COLS: usize, const ROWS: usize>(glyphs: &Vec<Glyph<COLS, ROWS>>) -> (count:
    Option<usize>)
    ensures
        match count {
            Some(count) => count == frame_count(models(glyphs@)),
            None => frame_count(models(glyphs@)) > usize::MAX,
        },
{
    let ghost all = models(glyphs@);
    if glyphs.len() == 0 {
        return Some(0);
    }
    proof {
        lemma_models_counted(glyphs@);
        lemma_start_next(all, 0);
    }
    // `ends` is the column after the last glyph seen, and one more: its end and the gap.
    let mut ends: usize = 0;
    let mut i: usize = 0;
    while i < glyphs.len()
        invariant
            all == models(glyphs@),
            widths_counted(all),
            all.len() == glyphs.len(),
            i <= glyphs.len(),
            ends == start_of(all, i as int),
        decreases glyphs.len() - i,
    {
        let width = glyphs[i].width();
        proof {
            lemma_start_next(all, i as int);
            lemma_start_order(all, i as int, all.len() as int);
            lemma_start_next(all, all.len() - 1);
            assert(all[i as int] == glyphs[i as int]@);
        }
        let next = match ends.checked_add(width) {
            Some(sum) => sum.checked_add(1),
            None => None,
        };
        match next {
            Some(next) => {
                ends = next;
            },
            None => {
                return None;
            },
        }
        i += 1;
    }
    proof {
        lemma_start_next(all, all.len() - 1);
    }
    ends.checked_add(COLS)
}

/// The frames of the animation, in order.
pub fn scroll_frames<const COLS: usize, const ROWS: usize>(glyphs: &Vec<Glyph<COLS, ROWS>>) -> (frames:
    Option<Vec<Frame<COLS, ROWS>>>)
    ensures
        frames is Some <==> frame_count(models(glyphs@)) <= usize::MAX,
        frames matches Some(frames) ==> frames@ == animation(models(glyphs@)),
{
    let count = match count_frames(glyphs) {
        Some(count) => count,
        None => {
            return None;
        },
    };
    let mut frames: Vec<Frame<COLS, ROWS>> = Vec::new();
    let mut k: usize = 0;
    while k < count
        invariant
            count == frame_count(models(glyphs@)),
            k <= count,
            frames.len() == k,
            forall|j: int| 0 <= j < k ==> #[trigger] frames[j] == window(models(glyphs@), j),
        decreases count - k,
    {
        let frame = frame_at(glyphs, k);
        frames.push(frame);
        k += 1;
    }
    proof {
        assert(frames@ =~= animation(models(glyphs@)));
    }
    Some(frames)
}

/// The frames that scroll `text` across the matrix in the glyphs of `font`, in order: none
/// for the empty text.
pub fn scroll<const COLS: usize, const ROWS: usize>(font: &Font<COLS, ROWS>, text: &str) -> (frames:
    Option<Vec<Frame<COLS, ROWS>>>)
    ensures
        frames is Some <==> frame_count(glyphs_of(font@, text@)) <= usize::MAX,
        frames matches Some(frames) ==> frames@ == animation(glyphs_of(font@, text@)),
        text@.len() == 0 ==> (frames matches Some(frames) && frames.len() == 0),
{
    let glyphs = font.glyphs_for(text);
    scroll_frames(&glyphs)
}

} // verus!
