//! Copying, pasting and moving cells. The voices of all tracks, side by side, form the
//! pattern's columns: column numbers run through the voices of the first track, then of
//! the second, and so on.
use vstd::prelude::*;

use crate::app::keybindings::Action;
use crate::project::pattern::{Cell, Pattern};

verus! {

/// The column of the first voice of track `ch`: the voices of the tracks before it.
pub open spec fn col_start(g: Seq<Seq<Seq<Cell>>>, ch: int) -> int
    decreases ch,
{
    if ch <= 0 {
        0
    } else {
        col_start(g, ch - 1) + g[ch - 1].len()
    }
}

/// The number of columns: the voices of all tracks.
pub open spec fn total_cols(g: Seq<Seq<Seq<Cell>>>) -> int {
    col_start(g, g.len() as int)
}

/// Column `flat` is voice `v` of track `ch`.
pub open spec fn is_col(g: Seq<Seq<Seq<Cell>>>, flat: int, ch: int, v: int) -> bool {
    &&& 0 <= ch < g.len()
    &&& 0 <= v < g[ch].len()
    &&& flat == col_start(g, ch) + v
}

/// The track and voice of column `flat`, looking from track `ch` on.
pub open spec fn locate(g: Seq<Seq<Seq<Cell>>>, flat: int, ch: int) -> Option<(int, int)>
    decreases g.len() - ch,
{
    if ch < 0 || ch >= g.len() {
        None
    } else if flat < col_start(g, ch + 1) {
        Some((ch, flat - col_start(g, ch)))
    } else {
        locate(g, flat, ch + 1)
    }
}

/// The track and voice of column `flat`, if there is such a column.
pub open spec fn resolve(g: Seq<Seq<Seq<Cell>>>, flat: int) -> Option<(int, int)> {
    if flat < 0 {
        None
    } else {
        locate(g, flat, 0)
    }
}

/// Column starts grow with the track.
pub proof fn lemma_col_start_mono(g: Seq<Seq<Seq<Cell>>>, a: int, b: int)
    requires
        0 <= a <= b <= g.len(),
    ensures
        col_start(g, a) <= col_start(g, b),
    decreases b - a,
{
    if a < b {
        lemma_col_start_mono(g, a, b - 1);
    }
}

/// A voice's column names no other voice.
pub proof fn lemma_col_unique(g: Seq<Seq<Seq<Cell>>>, flat: int, a: int, x: int, b: int, y: int)
    requires
        is_col(g, flat, a, x),
        is_col(g, flat, b, y),
    ensures
        a == b && x == y,
{
    if a < b {
        lemma_col_start_mono(g, a + 1, b);
    } else if b < a {
        lemma_col_start_mono(g, b + 1, a);
    }
}

/// What looking for a column from track `ch` finds: the voice it is, or nothing when the
/// column lies past the last voice.
proof fn lemma_locate(g: Seq<Seq<Seq<Cell>>>, flat: int, ch: int)
    requires
        0 <= ch <= g.len(),
        col_start(g, ch) <= flat,
    ensures
        match locate(g, flat, ch) {
            Some((c, v)) => is_col(g, flat, c, v),
            None => flat >= total_cols(g),
        },
    decreases g.len() - ch,
{
    if ch < g.len() && flat >= col_start(g, ch + 1) {
        lemma_locate(g, flat, ch + 1);
    }
}

/// Column `flat` resolves to a voice exactly when it is below the column count, and then
/// to the voice whose column it is.
pub proof fn lemma_resolve(g: Seq<Seq<Seq<Cell>>>, flat: int)
    ensures
        match resolve(g, flat) {
            Some((c, v)) => is_col(g, flat, c, v),
            None => flat < 0 || flat >= total_cols(g),
        },
        0 <= flat < total_cols(g) ==> resolve(g, flat) is Some,
{
    if flat >= 0 {
        lemma_locate(g, flat, 0);
    }
}

/// The column of voice `v` of track `ch` resolves back to it.
pub proof fn lemma_resolve_col(g: Seq<Seq<Seq<Cell>>>, ch: int, v: int)
    requires
        0 <= ch < g.len(),
        0 <= v < g[ch].len(),
    ensures
        resolve(g, col_start(g, ch) + v) == Some((ch, v)),
        col_start(g, ch) + v < total_cols(g),
{
    lemma_col_start_mono(g, 0, ch);
    lemma_col_start_mono(g, ch + 1, g.len() as int);
    let flat = col_start(g, ch) + v;
    lemma_resolve(g, flat);
    let (c, w) = resolve(g, flat)->0;
    lemma_col_unique(g, flat, c, w, ch, v);
}

/// The number of columns fits a machine word.
pub open spec fn cols_fit(g: Seq<Seq<Seq<Cell>>>) -> bool {
    total_cols(g) < usize::MAX
}

/// The column of voice `v` of track `ch`.
pub fn flat_col(pattern: &Pattern, ch: usize, v: usize) -> (r: usize)
    requires
        ch < pattern.grid().len(),
        v < pattern.grid()[ch as int].len(),
        cols_fit(pattern.grid()),
    ensures
        r == col_start(pattern.grid(), ch as int) + v,
{
    let ghost g = pattern.grid();
    proof {
        crate::project::pattern::lemma_grid_of(*pattern);
        lemma_resolve_col(g, ch as int, v as int);
    }
    let mut start: usize = 0;
    let mut c: usize = 0;
    while c < ch
        invariant
            c <= ch,
            ch < g.len(),
            g == pattern.grid(),
            g.len() == pattern.data@.len(),
            forall|k: int| 0 <= k < g.len() ==> (#[trigger] g[k]).len() == pattern.data@[k]@.len(),
            start == col_start(g, c as int),
            col_start(g, ch as int) + v < total_cols(g),
            total_cols(g) < usize::MAX,
        decreases ch - c,
    {
        proof {
            lemma_col_start_mono(g, c + 1, ch as int);
        }
        start = start + pattern.data[c].len();
        c = c + 1;
    }
    start + v
}

/// The track and voice of column `flat` (see `resolve`).
pub fn resolve_col(pattern: &Pattern, flat: usize) -> (r: Option<(usize, usize)>)
    requires
        cols_fit(pattern.grid()),
    ensures
        match r {
            Some((c, v)) => resolve(pattern.grid(), flat as int) == Some((c as int, v as int)),
            None => resolve(pattern.grid(), flat as int) is None,
        },
{
    let ghost g = pattern.grid();
    proof {
        crate::project::pattern::lemma_grid_of(*pattern);
    }
    let n = pattern.data.len();
    let mut start: usize = 0;
    let mut c: usize = 0;
    while c < n
        invariant
            c <= n,
            n == g.len(),
            g == pattern.grid(),
            forall|k: int| 0 <= k < g.len() ==> (#[trigger] g[k]).len() == pattern.data@[k]@.len(),
            start == col_start(g, c as int),
            start <= flat,
            total_cols(g) < usize::MAX,
            resolve(g, flat as int) == locate(g, flat as int, c as int),
        decreases n - c,
    {
        proof {
            lemma_col_start_mono(g, c + 1, n as int);
        }
        let next = start + pattern.data[c].len();
        if flat < next {
            return Some((c, flat - start));
        }
        start = next;
        c = c + 1;
    }
    None
}

/// Two grids have the same tracks, voices and rows.
pub open spec fn same_shape(a: Seq<Seq<Seq<Cell>>>, b: Seq<Seq<Seq<Cell>>>) -> bool {
    &&& a.len() == b.len()
    &&& forall|ch: int| 0 <= ch < a.len() ==> (#[trigger] a[ch]).len() == b[ch].len()
    &&& forall|ch: int, v: int|
        0 <= ch < a.len() && 0 <= v < a[ch].len() ==> (#[trigger] a[ch][v]).len() == b[ch][v].len()
}

/// Grids of the same shape number their columns alike.
pub proof fn lemma_same_shape_cols(a: Seq<Seq<Seq<Cell>>>, b: Seq<Seq<Seq<Cell>>>, ch: int)
    requires
        same_shape(a, b),
        0 <= ch <= a.len(),
    ensures
        col_start(a, ch) == col_start(b, ch),
    decreases ch,
{
    if ch > 0 {
        lemma_same_shape_cols(a, b, ch - 1);
    }
}

/// Grids of the same shape resolve columns alike.
pub proof fn lemma_same_shape_resolve(a: Seq<Seq<Seq<Cell>>>, b: Seq<Seq<Seq<Cell>>>, flat: int)
    requires
        same_shape(a, b),
    ensures
        resolve(a, flat) == resolve(b, flat),
{
    if flat >= 0 {
        lemma_same_shape_locate(a, b, flat, 0);
    }
}

proof fn lemma_same_shape_locate(a: Seq<Seq<Seq<Cell>>>, b: Seq<Seq<Seq<Cell>>>, flat: int, ch: int)
    requires
        same_shape(a, b),
        0 <= ch,
    ensures
        locate(a, flat, ch) == locate(b, flat, ch),
    decreases a.len() - ch,
{
    if ch < a.len() {
        lemma_same_shape_cols(a, b, ch);
        lemma_same_shape_cols(a, b, ch + 1);
        lemma_same_shape_locate(a, b, flat, ch + 1);
    }
}

/// The rows of track `ch` a placement may write: those of its first voice, or all rows of
/// the pattern.
pub open spec fn row_limit(g: Seq<Seq<Seq<Cell>>>, by_track: bool, rows: int, ch: int) -> int {
    if by_track {
        g[ch][0].len() as int
    } else {
        rows
    }
}

/// The cell at track `ch`, voice `v`, `row` once the columns of `clip` before column `c`,
/// and the first `r` rows of column `c`, are placed with their first column at column `cf`
/// and first row at `r0`: a clip cell lands on the voice whose column it falls on, in rows
/// below the limit.
pub open spec fn placed_at(
    g: Seq<Seq<Seq<Cell>>>,
    clip: Seq<Seq<Cell>>,
    cf: int,
    r0: int,
    by_track: bool,
    rows: int,
    c: int,
    r: int,
    ch: int,
    v: int,
    row: int,
) -> Cell {
    let k = col_start(g, ch) + v - cf;
    let j = row - r0;
    if 0 <= k < clip.len() && 0 <= j < clip[k].len() && row < row_limit(g, by_track, rows, ch) && (k < c || (k
        == c && j < r)) {
        clip[k][j]
    } else {
        g[ch][v][row]
    }
}

/// The grid once all of `clip` is placed (see `placed_at`).
pub open spec fn placed(
    g: Seq<Seq<Seq<Cell>>>,
    clip: Seq<Seq<Cell>>,
    cf: int,
    r0: int,
    by_track: bool,
    rows: int,
) -> Seq<Seq<Seq<Cell>>> {
    Seq::new(
        g.len(),
        |ch: int|
            Seq::new(
                g[ch].len(),
                |v: int|
                    Seq::new(
                        g[ch][v].len(),
                        |row: int| placed_at(g, clip, cf, r0, by_track, rows, clip.len() as int, 0, ch, v, row),
                    ),
            ),
    )
}

/// Clip cell `r` of column `c`, if it lands on a voice in a row below the limit, lands on
/// a row that voice has.
pub open spec fn cell_fits(g: Seq<Seq<Seq<Cell>>>, cf: int, r0: int, by_track: bool, rows: int, c: int, r: int) -> bool {
    match resolve(g, cf + c) {
        Some((ch, v)) => r0 + r < row_limit(g, by_track, rows, ch) ==> r0 + r < g[ch][v].len(),
        None => true,
    }
}

/// Every cell of the clip fits where it lands (see `cell_fits`).
pub open spec fn placement_fits(
    g: Seq<Seq<Seq<Cell>>>,
    clip: Seq<Seq<Cell>>,
    cf: int,
    r0: int,
    by_track: bool,
    rows: int,
) -> bool {
    forall|c: int, r: int|
        0 <= c < clip.len() && 0 <= r < clip[c].len() ==> #[trigger] cell_fits(g, cf, r0, by_track, rows, c, r)
}

/// The cells of clip columns.
pub open spec fn clip_view(clip: Seq<Vec<Cell>>) -> Seq<Seq<Cell>> {
    clip.map_values(|col: Vec<Cell>| col@)
}

/// Places the clip's columns from column `cf` and row `r0` (see `placed`).
fn place(pattern: &mut Pattern, clip: &Vec<Vec<Cell>>, cf: usize, r0: usize, by_track: bool)
    requires
        cols_fit(old(pattern).grid()),
        cf + clip@.len() <= usize::MAX,
        forall|c: int| 0 <= c < clip@.len() ==> r0 + (#[trigger] clip@[c])@.len() <= usize::MAX,
        placement_fits(old(pattern).grid(), clip_view(clip@), cf as int, r0 as int, by_track, old(pattern).rows as int),
    ensures
        final(pattern).same_settings(*old(pattern)),
        final(pattern).grid() == placed(
            old(pattern).grid(),
            clip_view(clip@),
            cf as int,
            r0 as int,
            by_track,
            old(pattern).rows as int,
        ),
{
    let ghost g = old(pattern).grid();
    let ghost cl = clip_view(clip@);
    let ghost rows = old(pattern).rows as int;
    let mut c: usize = 0;
    while c < clip.len()
        invariant
            c <= clip@.len(),
            g == old(pattern).grid(),
            cl == clip_view(clip@),
            rows == old(pattern).rows,
            cols_fit(g),
            cf + clip@.len() <= usize::MAX,
            forall|k: int| 0 <= k < clip@.len() ==> r0 + (#[trigger] clip@[k])@.len() <= usize::MAX,
            placement_fits(g, cl, cf as int, r0 as int, by_track, rows),
            pattern.same_settings(*old(pattern)),
            same_shape(pattern.grid(), g),
            forall|ch: int, v: int, row: int|
                0 <= ch < g.len() && 0 <= v < g[ch].len() && 0 <= row < g[ch][v].len() ==> #[trigger] pattern.grid()[ch][v][row]
                    == placed_at(g, cl, cf as int, r0 as int, by_track, rows, c as int, 0, ch, v, row),
        decreases clip@.len() - c,
    {
        proof {
            lemma_same_shape_resolve(pattern.grid(), g, (cf + c) as int);
            lemma_same_shape_cols(pattern.grid(), g, g.len() as int);
        }
        assert(cl[c as int] == clip@[c as int]@);
        match resolve_col(pattern, cf + c) {
            None => {
                assert forall|ch: int, v: int, row: int|
                    0 <= ch < g.len() && 0 <= v < g[ch].len() && 0 <= row < g[ch][v].len() implies #[trigger] pattern.grid()[ch][v][row]
                    == placed_at(g, cl, cf as int, r0 as int, by_track, rows, c + 1, 0, ch, v, row) by {
                    if col_start(g, ch) + v - cf == c {
                        lemma_resolve_col(g, ch, v);
                    }
                }
            },
            Some((ch0, v0)) => {
                proof {
                    lemma_resolve(g, (cf + c) as int);
                    crate::project::pattern::lemma_grid_of(*pattern);
                    assert(pattern.grid()[ch0 as int].len() == g[ch0 as int].len());
                    assert(pattern.grid()[ch0 as int][0].len() == g[ch0 as int][0].len());
                }
                let limit = if by_track {
                    pattern.track_rows(ch0)
                } else {
                    pattern.rows
                };
                assert(limit == row_limit(g, by_track, rows, ch0 as int));
                let col = &clip[c];
                let mut r: usize = 0;
                while r < col.len()
                    invariant
                        r <= col@.len(),
                        c < clip@.len(),
                        col == clip@[c as int],
                        g == old(pattern).grid(),
                        cl == clip_view(clip@),
                        cl[c as int] == col@,
                        rows == old(pattern).rows,
                        is_col(g, cf + c, ch0 as int, v0 as int),
                        resolve(g, cf + c) == Some((ch0 as int, v0 as int)),
                        limit == row_limit(g, by_track, rows, ch0 as int),
                        r0 + col@.len() <= usize::MAX,
                        placement_fits(g, cl, cf as int, r0 as int, by_track, rows),
                        pattern.same_settings(*old(pattern)),
                        same_shape(pattern.grid(), g),
                        forall|ch: int, v: int, row: int|
                            0 <= ch < g.len() && 0 <= v < g[ch].len() && 0 <= row < g[ch][v].len()
                                ==> #[trigger] pattern.grid()[ch][v][row] == placed_at(
                                g,
                                cl,
                                cf as int,
                                r0 as int,
                                by_track,
                                rows,
                                c as int,
                                r as int,
                                ch,
                                v,
                                row,
                            ),
                    decreases col@.len() - r,
                {
                    let row = r0 + r;
                    if row < limit {
                        proof {
                            crate::project::pattern::lemma_grid_of(*pattern);
                            assert(cell_fits(g, cf as int, r0 as int, by_track, rows, c as int, r as int));
                            assert(pattern.grid()[ch0 as int].len() == g[ch0 as int].len());
                            assert(pattern.grid()[ch0 as int][v0 as int].len() == g[ch0 as int][v0 as int].len());
                        }
                        let ghost before = pattern.grid();
                        pattern.set(ch0, v0, row, col[r]);
                        assert forall|ch: int, v: int, rw: int|
                            0 <= ch < g.len() && 0 <= v < g[ch].len() && 0 <= rw < g[ch][v].len() implies #[trigger] pattern.grid()[ch][v][rw]
                            == placed_at(g, cl, cf as int, r0 as int, by_track, rows, c as int, r + 1, ch, v, rw) by {
                            if col_start(g, ch) + v - cf == c {
                                lemma_col_unique(g, (cf + c) as int, ch, v, ch0 as int, v0 as int);
                            }
                            if ch == ch0 && v == v0 && rw == row {
                            } else {
                                assert(pattern.grid()[ch][v][rw] == before[ch][v][rw]);
                            }
                        }
                    } else {
                        assert forall|ch: int, v: int, rw: int|
                            0 <= ch < g.len() && 0 <= v < g[ch].len() && 0 <= rw < g[ch][v].len() implies #[trigger] pattern.grid()[ch][v][rw]
                            == placed_at(g, cl, cf as int, r0 as int, by_track, rows, c as int, r + 1, ch, v, rw) by {
                            if col_start(g, ch) + v - cf == c {
                                lemma_col_unique(g, (cf + c) as int, ch, v, ch0 as int, v0 as int);
                            }
                        }
                    }
                    r = r + 1;
                }
            },
        }
        c = c + 1;
    }
    assert(pattern.grid() =~= placed(g, cl, cf as int, r0 as int, by_track, rows)) by {
        assert forall|ch: int| 0 <= ch < g.len() implies pattern.grid()[ch] =~= placed(
            g,
            cl,
            cf as int,
            r0 as int,
            by_track,
            rows,
        )[ch] by {
            assert forall|v: int| 0 <= v < g[ch].len() implies pattern.grid()[ch][v] =~= placed(
                g,
                cl,
                cf as int,
                r0 as int,
                by_track,
                rows,
            )[ch][v] by {}
        }
    }
}

/// Pastes the clip with its first column at column `cf` and first row at `r0`: each
/// column goes to the voice whose column it falls on, and cells past the pattern's rows
/// are left out (see `placed`).
pub fn paste_clip(pattern: &mut Pattern, clip: &Vec<Vec<Cell>>, cf: usize, r0: usize)
    requires
        cols_fit(old(pattern).grid()),
        cf + clip@.len() <= usize::MAX,
        forall|c: int| 0 <= c < clip@.len() ==> r0 + (#[trigger] clip@[c])@.len() <= usize::MAX,
        placement_fits(old(pattern).grid(), clip_view(clip@), cf as int, r0 as int, false, old(pattern).rows as int),
    ensures
        final(pattern).same_settings(*old(pattern)),
        final(pattern).grid() == placed(
            old(pattern).grid(),
            clip_view(clip@),
            cf as int,
            r0 as int,
            false,
            old(pattern).rows as int,
        ),
{
    place(pattern, clip, cf, r0, false);
}

/// Puts a lifted block down with its first column at column `cf` and first row at `r0`:
/// cells past the rows of the track they land on are left out (see `placed`).
pub fn drop_block(pattern: &mut Pattern, clip: &Vec<Vec<Cell>>, cf: usize, r0: usize)
    requires
        cols_fit(old(pattern).grid()),
        cf + clip@.len() <= usize::MAX,
        forall|c: int| 0 <= c < clip@.len() ==> r0 + (#[trigger] clip@[c])@.len() <= usize::MAX,
        placement_fits(old(pattern).grid(), clip_view(clip@), cf as int, r0 as int, true, old(pattern).rows as int),
    ensures
        final(pattern).same_settings(*old(pattern)),
        final(pattern).grid() == placed(
            old(pattern).grid(),
            clip_view(clip@),
            cf as int,
            r0 as int,
            true,
            old(pattern).rows as int,
        ),
{
    place(pattern, clip, cf, r0, true);
}

/// The number of columns, computed.
pub fn col_count(pattern: &Pattern) -> (r: usize)
    requires
        cols_fit(pattern.grid()),
    ensures
        r == total_cols(pattern.grid()),
{
    let ghost g = pattern.grid();
    proof {
        crate::project::pattern::lemma_grid_of(*pattern);
    }
    let n = pattern.data.len();
    let mut total: usize = 0;
    let mut c: usize = 0;
    while c < n
        invariant
            c <= n,
            n == g.len(),
            g == pattern.grid(),
            forall|k: int| 0 <= k < g.len() ==> (#[trigger] g[k]).len() == pattern.data@[k]@.len(),
            total == col_start(g, c as int),
            total_cols(g) < usize::MAX,
        decreases n - c,
    {
        proof {
            lemma_col_start_mono(g, c + 1, n as int);
        }
        total = total + pattern.data[c].len();
        c = c + 1;
    }
    total
}

/// The number of rows from `r0` to `r1`.
pub open spec fn row_span(r0: int, r1: int) -> nat {
    if r1 >= r0 {
        (r1 - r0 + 1) as nat
    } else {
        0
    }
}

/// The number of columns from `base` to `end` that exist.
pub open spec fn copy_width(g: Seq<Seq<Seq<Cell>>>, base: int, end: int) -> nat {
    let last = if end < total_cols(g) - 1 {
        end
    } else {
        total_cols(g) - 1
    };
    if last >= base {
        (last - base + 1) as nat
    } else {
        0
    }
}

/// The voice of the column at `flat`, which exists.
pub open spec fn voice_at(g: Seq<Seq<Seq<Cell>>>, flat: int) -> Seq<Cell> {
    let (ch, v) = resolve(g, flat)->0;
    g[ch][v]
}

/// The block copied from columns `base..=end` (those that exist), rows `r0..=r1` of each.
pub open spec fn copied(g: Seq<Seq<Seq<Cell>>>, base: int, end: int, r0: int, r1: int) -> Seq<Seq<Cell>> {
    Seq::new(
        copy_width(g, base, end),
        |c: int| Seq::new(row_span(r0, r1), |r: int| voice_at(g, base + c)[r0 + r]),
    )
}

/// The rows `r0..=r1` lie within every existing column from `base` to `end`.
pub open spec fn copy_fits(g: Seq<Seq<Seq<Cell>>>, base: int, end: int, r0: int, r1: int) -> bool {
    forall|c: int| 0 <= c < copy_width(g, base, end) && r0 <= r1 ==> r1 < (#[trigger] voice_at(g, base + c)).len()
}

/// Copies rows `r0..=r1` of the columns from `base` to `end` that exist (see `copied`).
pub fn copy_block(pattern: &Pattern, base: usize, end: usize, r0: usize, r1: usize) -> (r: Vec<Vec<Cell>>)
    requires
        cols_fit(pattern.grid()),
        copy_fits(pattern.grid(), base as int, end as int, r0 as int, r1 as int),
    ensures
        clip_view(r@) == copied(pattern.grid(), base as int, end as int, r0 as int, r1 as int),
{
    let ghost g = pattern.grid();
    proof {
        crate::project::pattern::lemma_grid_of(*pattern);
    }
    let total = col_count(pattern);
    let last = if total == 0 || end < total - 1 {
        end
    } else {
        total - 1
    };
    let width: usize = if total == 0 || last < base {
        0
    } else {
        last - base + 1
    };
    assert(width == copy_width(g, base as int, end as int));
    let mut out: Vec<Vec<Cell>> = Vec::new();
    let mut c: usize = 0;
    while c < width
        invariant
            c <= width,
            width == copy_width(g, base as int, end as int),
            g == pattern.grid(),
            cols_fit(g),
            copy_fits(g, base as int, end as int, r0 as int, r1 as int),
            g.len() == pattern.data@.len(),
            forall|k: int| 0 <= k < g.len() ==> (#[trigger] g[k]).len() == pattern.data@[k]@.len(),
            forall|k: int, w: int| 0 <= k < g.len() && 0 <= w < g[k].len() ==> #[trigger] g[k][w] == pattern.data@[k]@[w]@,
            out@.len() == c,
            forall|k: int| 0 <= k < c ==> (#[trigger] out@[k])@ == copied(g, base as int, end as int, r0 as int, r1 as int)[k],
        decreases width - c,
    {
        proof {
            lemma_resolve(g, base + c);
        }
        let (ch, v) = match resolve_col(pattern, base + c) {
            Some(x) => x,
            None => {
                assert(false);
                (0, 0)
            },
        };
        let ghost col = voice_at(g, base + c);
        assert(col == g[ch as int][v as int]);
        let mut cells: Vec<Cell> = Vec::new();
        if r0 <= r1 {
            assert(r1 < col.len());
            let vl = pattern.data[ch][v].len();
            assert(r1 < vl);
            let span = r1 - r0 + 1;
            let mut k: usize = 0;
            while k < span
                invariant
                    k <= span,
                    span == r1 - r0 + 1,
                    r1 < col.len(),
                    col == g[ch as int][v as int],
                    ch < g.len(),
                    v < g[ch as int].len(),
                    g.len() == pattern.data@.len(),
                    forall|q: int| 0 <= q < g.len() ==> (#[trigger] g[q]).len() == pattern.data@[q]@.len(),
                    forall|q: int, w: int| 0 <= q < g.len() && 0 <= w < g[q].len() ==> #[trigger] g[q][w] == pattern.data@[q]@[w]@,
                    cells@ == Seq::new(k as nat, |r: int| col[r0 + r]),
                decreases span - k,
            {
                cells.push(pattern.get(ch, v, r0 + k));
                k = k + 1;
                assert(cells@ =~= Seq::new(k as nat, |r: int| col[r0 + r]));
            }
            assert(cells@ =~= Seq::new(row_span(r0 as int, r1 as int), |r: int| col[r0 + r]));
        } else {
            assert(cells@ =~= Seq::new(row_span(r0 as int, r1 as int), |r: int| col[r0 + r]));
        }
        out.push(cells);
        c = c + 1;
    }
    assert(clip_view(out@) =~= copied(g, base as int, end as int, r0 as int, r1 as int));
    out
}

/// A clip of `w` columns of `h` empty cells.
pub open spec fn blank(w: nat, h: nat) -> Seq<Seq<Cell>> {
    Seq::new(w, |c: int| Seq::new(h, |r: int| Cell::Empty))
}

/// A clip of empty cells (see `blank`).
fn blank_clip(w: usize, h: usize) -> (r: Vec<Vec<Cell>>)
    ensures
        clip_view(r@) == blank(w as nat, h as nat),
        forall|c: int| 0 <= c < r@.len() ==> (#[trigger] r@[c])@.len() == h,
{
    let mut out: Vec<Vec<Cell>> = Vec::new();
    let mut c: usize = 0;
    while c < w
        invariant
            c <= w,
            out@.len() == c,
            forall|k: int| 0 <= k < c ==> (#[trigger] out@[k])@ == Seq::new(h as nat, |r: int| Cell::Empty),
        decreases w - c,
    {
        let mut col: Vec<Cell> = Vec::new();
        let mut r: usize = 0;
        while r < h
            invariant
                r <= h,
                col@ == Seq::new(r as nat, |q: int| Cell::Empty),
            decreases h - r,
        {
            col.push(Cell::Empty);
            r = r + 1;
            assert(col@ =~= Seq::new(r as nat, |q: int| Cell::Empty));
        }
        out.push(col);
        c = c + 1;
    }
    assert(clip_view(out@) =~= blank(w as nat, h as nat));
    out
}

/// The rows of the track that column `flat` (which exists) belongs to: those of its
/// first voice.
pub open spec fn track_len_at(g: Seq<Seq<Seq<Cell>>>, flat: int) -> int {
    let (ch, v) = resolve(g, flat)->0;
    g[ch][0].len() as int
}

/// The block lifted from columns `base..=end`, rows `r0..=r1`: rows past a track's own
/// rows come out empty.
pub open spec fn lifted(g: Seq<Seq<Seq<Cell>>>, base: int, end: int, r0: int, r1: int) -> Seq<Seq<Cell>> {
    Seq::new(
        (end - base + 1) as nat,
        |c: int|
            Seq::new(
                row_span(r0, r1),
                |r: int|
                    if r0 + r < track_len_at(g, base + c) {
                        voice_at(g, base + c)[r0 + r]
                    } else {
                        Cell::Empty
                    },
            ),
    )
}

/// Every row of the block that lies within its track lies within its voice.
pub open spec fn lift_fits(g: Seq<Seq<Seq<Cell>>>, base: int, end: int, r0: int, r1: int, rows: int) -> bool {
    forall|c: int, r: int|
        0 <= c <= end - base && 0 <= r < row_span(r0, r1) ==> #[trigger] cell_fits(g, base, r0, true, rows, c, r)
}

/// Lifts the block of columns `base..=end`, rows `r0..=r1`, out of the pattern to move
/// it: returns its cells (see `lifted`) and empties them where the track has the row.
pub fn lift_block(pattern: &mut Pattern, base: usize, end: usize, r0: usize, r1: usize) -> (r: Vec<Vec<Cell>>)
    requires
        cols_fit(old(pattern).grid()),
        base <= end < total_cols(old(pattern).grid()),
        r0 <= r1 < usize::MAX,
        lift_fits(old(pattern).grid(), base as int, end as int, r0 as int, r1 as int, old(pattern).rows as int),
    ensures
        clip_view(r@) == lifted(old(pattern).grid(), base as int, end as int, r0 as int, r1 as int),
        final(pattern).same_settings(*old(pattern)),
        final(pattern).grid() == placed(
            old(pattern).grid(),
            blank((end - base + 1) as nat, row_span(r0 as int, r1 as int)),
            base as int,
            r0 as int,
            true,
            old(pattern).rows as int,
        ),
{
    let ghost g = pattern.grid();
    proof {
        crate::project::pattern::lemma_grid_of(*pattern);
    }
    let width = end - base + 1;
    let span = r1 - r0 + 1;
    let mut out: Vec<Vec<Cell>> = Vec::new();
    let mut c: usize = 0;
    while c < width
        invariant
            c <= width,
            width == end - base + 1,
            span == row_span(r0 as int, r1 as int),
            r0 <= r1 < usize::MAX,
            base <= end < total_cols(g),
            g == pattern.grid(),
            *pattern == *old(pattern),
            cols_fit(g),
            lift_fits(g, base as int, end as int, r0 as int, r1 as int, pattern.rows as int),
            g.len() == pattern.data@.len(),
            forall|k: int| 0 <= k < g.len() ==> (#[trigger] g[k]).len() == pattern.data@[k]@.len(),
            forall|k: int, w: int| 0 <= k < g.len() && 0 <= w < g[k].len() ==> #[trigger] g[k][w] == pattern.data@[k]@[w]@,
            out@.len() == c,
            forall|k: int| 0 <= k < c ==> (#[trigger] out@[k])@ == lifted(g, base as int, end as int, r0 as int, r1 as int)[k],
        decreases width - c,
    {
        proof {
            lemma_resolve(g, base + c);
        }
        let (ch, v) = match resolve_col(pattern, base + c) {
            Some(x) => x,
            None => {
                assert(false);
                (0, 0)
            },
        };
        let ghost col = voice_at(g, base + c);
        let limit = pattern.track_rows(ch);
        assert(limit == track_len_at(g, base + c));
        let mut cells: Vec<Cell> = Vec::new();
        let mut k: usize = 0;
        while k < span
            invariant
                k <= span,
                span == r1 - r0 + 1,
                r1 < usize::MAX,
                col == g[ch as int][v as int],
                limit == track_len_at(g, base + c),
                resolve(g, base + c) == Some((ch as int, v as int)),
                ch < g.len(),
                v < g[ch as int].len(),
                c < width,
                width == end - base + 1,
                lift_fits(g, base as int, end as int, r0 as int, r1 as int, pattern.rows as int),
                g.len() == pattern.data@.len(),
                forall|q: int| 0 <= q < g.len() ==> (#[trigger] g[q]).len() == pattern.data@[q]@.len(),
                forall|q: int, w: int| 0 <= q < g.len() && 0 <= w < g[q].len() ==> #[trigger] g[q][w] == pattern.data@[q]@[w]@,
                cells@ == Seq::new(
                    k as nat,
                    |r: int|
                        if r0 + r < limit {
                            col[r0 + r]
                        } else {
                            Cell::Empty
                        },
                ),
            decreases span - k,
        {
            let row = r0 + k;
            if row < limit {
                assert(cell_fits(g, base as int, r0 as int, true, pattern.rows as int, c as int, k as int));
                cells.push(pattern.get(ch, v, row));
            } else {
                cells.push(Cell::Empty);
            }
            k = k + 1;
            assert(cells@ =~= Seq::new(
                k as nat,
                |r: int|
                    if r0 + r < limit {
                        col[r0 + r]
                    } else {
                        Cell::Empty
                    },
            ));
        }
        out.push(cells);
        c = c + 1;
    }
    assert(clip_view(out@) =~= lifted(g, base as int, end as int, r0 as int, r1 as int));
    let blanks = blank_clip(width, span);
    assert forall|c: int, r: int|
        0 <= c < clip_view(blanks@).len() && 0 <= r < clip_view(blanks@)[c].len() implies #[trigger] cell_fits(
        g,
        base as int,
        r0 as int,
        true,
        pattern.rows as int,
        c,
        r,
    ) by {}
    proof {
        lemma_col_start_mono(g, 0, g.len() as int);
    }
    place(pattern, &blanks, base, r0, true);
    out
}

/// How a move key shifts a cell or block: rows, then columns.
pub open spec fn move_delta(dir: Action) -> (int, int) {
    match dir {
        Action::MoveUp => (-1, 0),
        Action::MoveDown => (1, 0),
        Action::MoveLeft => (0, -1),
        Action::MoveRight => (0, 1),
        _ => (0, 0),
    }
}

/// Where the cell at column `col`, `row` goes on a move: the shifted column and row, if
/// they lie within the columns and the pattern's rows.
pub open spec fn move_target(g: Seq<Seq<Seq<Cell>>>, rows: int, col: int, row: int, dir: Action) -> Option<(int, int)> {
    let (dr, dc) = move_delta(dir);
    let nc = col + dc;
    let nr = row + dr;
    if 0 <= nc < total_cols(g) && 0 <= nr < rows {
        Some((nc, nr))
    } else {
        None
    }
}

/// The grid after the cell at (`ch`, `v`, `row`) moves to (`nch`, `nv`, `nr`): its old
/// place is emptied, then the cell is written at the new one.
pub open spec fn moved_cell(
    g: Seq<Seq<Seq<Cell>>>,
    ch: int,
    v: int,
    row: int,
    nch: int,
    nv: int,
    nr: int,
) -> Seq<Seq<Seq<Cell>>> {
    let g1 = g.update(ch, g[ch].update(v, g[ch][v].update(row, Cell::Empty)));
    g1.update(nch, g1[nch].update(nv, g1[nch][nv].update(nr, g[ch][v][row])))
}

/// The move lands on a row the target voice has.
pub open spec fn move_fits(g: Seq<Seq<Seq<Cell>>>, rows: int, ch: int, v: int, row: int, dir: Action) -> bool {
    match move_target(g, rows, col_start(g, ch) + v, row, dir) {
        Some((nc, nr)) => nr < voice_at(g, nc).len(),
        None => true,
    }
}

/// A column or row shifted by one step, computed.
pub fn step_index(x: usize, d: i8) -> (r: Option<usize>)
    requires
        -1 <= d <= 1,
    ensures
        r == if 0 <= x + d <= usize::MAX {
            Some((x + d) as usize)
        } else {
            None::<usize>
        },
{
    if d < 0 {
        if x == 0 {
            None
        } else {
            Some(x - 1)
        }
    } else if d > 0 {
        if x == usize::MAX {
            None
        } else {
            Some(x + 1)
        }
    } else {
        Some(x)
    }
}

/// The row and column steps of a move key (see `move_delta`).
pub fn move_steps(dir: Action) -> (r: (i8, i8))
    ensures
        (r.0 as int, r.1 as int) == move_delta(dir),
{
    match dir {
        Action::MoveUp => (-1, 0),
        Action::MoveDown => (1, 0),
        Action::MoveLeft => (0, -1),
        Action::MoveRight => (0, 1),
        _ => (0, 0),
    }
}

/// Moves the cell at track `ch`, voice `v`, `row` one step with a move key, if the place
/// it moves to lies within the columns and rows: returns the voice and row it moved to
/// (see `move_target` and `moved_cell`); otherwise nothing changes.
pub fn move_cell(pattern: &mut Pattern, ch: usize, v: usize, row: usize, dir: Action) -> (r: Option<(usize, usize, usize)>)
    requires
        ch < old(pattern).grid().len(),
        v < old(pattern).grid()[ch as int].len(),
        row < old(pattern).grid()[ch as int][v as int].len(),
        cols_fit(old(pattern).grid()),
        move_fits(old(pattern).grid(), old(pattern).rows as int, ch as int, v as int, row as int, dir),
    ensures
        final(pattern).same_settings(*old(pattern)),
        match move_target(
            old(pattern).grid(),
            old(pattern).rows as int,
            col_start(old(pattern).grid(), ch as int) + v,
            row as int,
            dir,
        ) {
            None => r is None && final(pattern).grid() == old(pattern).grid(),
            Some((nc, nr)) => {
                let (nch, nv) = resolve(old(pattern).grid(), nc)->0;
                &&& r == Some((nch as usize, nv as usize, nr as usize))
                &&& final(pattern).grid() == moved_cell(
                    old(pattern).grid(),
                    ch as int,
                    v as int,
                    row as int,
                    nch,
                    nv,
                    nr,
                )
            },
        },
{
    let ghost g = pattern.grid();
    proof {
        crate::project::pattern::lemma_grid_of(*pattern);
    }
    let col = flat_col(pattern, ch, v);
    let total = col_count(pattern);
    let (dr, dc) = move_steps(dir);
    let nc = match step_index(col, dc) {
        Some(x) => x,
        None => return None,
    };
    let nr = match step_index(row, dr) {
        Some(x) => x,
        None => return None,
    };
    if nc >= total || nr >= pattern.rows {
        return None;
    }
    proof {
        lemma_resolve(g, nc as int);
    }
    let (nch, nv) = match resolve_col(pattern, nc) {
        Some(x) => x,
        None => {
            assert(false);
            return None;
        },
    };
    let cell = pattern.get(ch, v, row);
    pattern.clear(ch, v, row);
    proof {
        crate::project::pattern::lemma_grid_of(*pattern);
        assert(pattern.grid()[nch as int].len() == g[nch as int].len());
        assert(pattern.grid()[nch as int][nv as int].len() == g[nch as int][nv as int].len());
    }
    pattern.set(nch, nv, nr, cell);
    Some((nch, nv, nr))
}

/// Whether a block of columns `min_col..=max_col`, rows `min_row..=max_row` still lies
/// within `cols` columns and `rows` rows after a move key shifts it.
pub fn shift_fits(
    min_col: usize,
    max_col: usize,
    min_row: usize,
    max_row: usize,
    dir: Action,
    cols: usize,
    rows: usize,
) -> (r: bool)
    ensures
        r == ({
            let (dr, dc) = move_delta(dir);
            &&& 0 <= min_row + dr
            &&& max_row + dr < rows
            &&& 0 <= min_col + dc
            &&& max_col + dc < cols
        }),
{
    let (dr, dc) = move_steps(dir);
    let rows_ok = 0 <= min_row as i128 + dr as i128 && (max_row as i128 + dr as i128) < rows as i128;
    let cols_ok = 0 <= min_col as i128 + dc as i128 && (max_col as i128 + dc as i128) < cols as i128;
    rows_ok && cols_ok
}

/// A selected block by two corners: the column and row of the cursor, and of the anchor.
#[derive(Debug, Clone, Copy, PartialEq, Eq, Structural)]
pub struct Corners {
    pub cur_col: usize,
    pub cur_row: usize,
    pub anc_col: usize,
    pub anc_row: usize,
}

/// The corners after a move key shifts the block, when the whole block still lies within
/// `cols` columns and `rows` rows; none otherwise.
pub open spec fn shifted_corners(c: Corners, dir: Action, cols: int, rows: int) -> Option<Corners> {
    let (dr, dc) = move_delta(dir);
    let lo_col = if c.cur_col <= c.anc_col { c.cur_col } else { c.anc_col };
    let hi_col = if c.cur_col <= c.anc_col { c.anc_col } else { c.cur_col };
    let lo_row = if c.cur_row <= c.anc_row { c.cur_row } else { c.anc_row };
    let hi_row = if c.cur_row <= c.anc_row { c.anc_row } else { c.cur_row };
    if 0 <= lo_row + dr && hi_row + dr < rows && 0 <= lo_col + dc && hi_col + dc < cols {
        Some(
            Corners {
                cur_col: (c.cur_col + dc) as usize,
                cur_row: (c.cur_row + dr) as usize,
                anc_col: (c.anc_col + dc) as usize,
                anc_row: (c.anc_row + dr) as usize,
            },
        )
    } else {
        None
    }
}

/// Shifts a selected block's corners by a move key (see `shifted_corners`).
pub fn shift_corners(c: Corners, dir: Action, cols: usize, rows: usize) -> (r: Option<Corners>)
    ensures
        r == shifted_corners(c, dir, cols as int, rows as int),
{
    let (lo_col, hi_col) = if c.cur_col <= c.anc_col { (c.cur_col, c.anc_col) } else { (c.anc_col, c.cur_col) };
    let (lo_row, hi_row) = if c.cur_row <= c.anc_row { (c.cur_row, c.anc_row) } else { (c.anc_row, c.cur_row) };
    if !shift_fits(lo_col, hi_col, lo_row, hi_row, dir, cols, rows) {
        return None;
    }
    let (dr, dc) = move_steps(dir);
    match (step_index(c.cur_col, dc), step_index(c.cur_row, dr), step_index(c.anc_col, dc), step_index(c.anc_row, dr)) {
        (Some(cur_col), Some(cur_row), Some(anc_col), Some(anc_row)) => Some(Corners { cur_col, cur_row, anc_col, anc_row }),
        _ => None,
    }
}

/// Pasting a copied block where it was copied from changes nothing.
pub proof fn lemma_paste_copy_in_place(
    g: Seq<Seq<Seq<Cell>>>,
    base: int,
    end: int,
    r0: int,
    r1: int,
    rows: int,
)
    requires
        0 <= base,
        0 <= r0,
        copy_fits(g, base, end, r0, r1),
    ensures
        placed(g, copied(g, base, end, r0, r1), base, r0, false, rows) == g,
{
    let clip = copied(g, base, end, r0, r1);
    let p = placed(g, clip, base, r0, false, rows);
    assert forall|ch: int| 0 <= ch < g.len() implies p[ch] =~= g[ch] by {
        assert forall|v: int| 0 <= v < g[ch].len() implies p[ch][v] =~= g[ch][v] by {
            assert forall|row: int| 0 <= row < g[ch][v].len() implies p[ch][v][row] == g[ch][v][row] by {
                let k = col_start(g, ch) + v - base;
                let j = row - r0;
                if 0 <= k < clip.len() && 0 <= j < clip[k].len() {
                    lemma_resolve_col(g, ch, v);
                    assert(voice_at(g, base + k) == g[ch][v]);
                }
            }
        }
    }
    assert(p =~= g);
}

/// Putting a lifted block down where it was lifted from restores the pattern: moving a
/// block and then cancelling the move leaves the cells as they were.
pub proof fn lemma_drop_lift_in_place(
    g: Seq<Seq<Seq<Cell>>>,
    base: int,
    end: int,
    r0: int,
    r1: int,
    rows: int,
)
    requires
        0 <= base <= end < total_cols(g),
        0 <= r0 <= r1,
    ensures
        placed(
            placed(g, blank((end - base + 1) as nat, row_span(r0, r1)), base, r0, true, rows),
            lifted(g, base, end, r0, r1),
            base,
            r0,
            true,
            rows,
        ) == g,
{
    let w = (end - base + 1) as nat;
    let h = row_span(r0, r1);
    let g1 = placed(g, blank(w, h), base, r0, true, rows);
    let l = lifted(g, base, end, r0, r1);
    let g2 = placed(g1, l, base, r0, true, rows);
    assert(same_shape(g1, g));
    assert forall|ch: int| 0 <= ch < g.len() implies g2[ch] =~= g[ch] by {
        lemma_same_shape_cols(g1, g, ch);
        assert forall|v: int| 0 <= v < g[ch].len() implies g2[ch][v] =~= g[ch][v] by {
            assert(g1[ch][0].len() == g[ch][0].len());
            assert forall|row: int| 0 <= row < g[ch][v].len() implies g2[ch][v][row] == g[ch][v][row] by {
                let k = col_start(g, ch) + v - base;
                let j = row - r0;
                if 0 <= k < w && 0 <= j < h {
                    lemma_resolve_col(g, ch, v);
                    assert(voice_at(g, base + k) == g[ch][v]);
                    assert(track_len_at(g, base + k) == g[ch][0].len());
                }
            }
        }
    }
    assert(g2 =~= g);
}

} // verus!
