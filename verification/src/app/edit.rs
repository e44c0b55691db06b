//! Editing the cells of the pattern the editor shows: clearing or transposing a selected
//! block, entering a chord, and moving the cursor between rows, voices and tracks.
use vstd::prelude::*;

use crate::app::keybindings::Action;
use crate::project::pattern::{lemma_grid_of, Cell, Note, Pattern};

verus! {

/// A selected block of cells: the first and last track, the first voice (of the first
/// track) and the last voice (of the last track), and the first and last row.
#[derive(Debug, Clone, Copy, PartialEq, Eq, Structural)]
pub struct Block {
    pub min_ch: usize,
    pub max_ch: usize,
    pub min_v: usize,
    pub max_v: usize,
    pub min_row: usize,
    pub max_row: usize,
}

/// Whether voice `v` of track `ch` is in the block's voice range: within one track the
/// voices from the first to the last; across tracks, from the first voice on in the first
/// track, up to the last voice in the last track, and all voices of the tracks between.
pub open spec fn voice_selected(b: Block, ch: int, v: int) -> bool {
    if b.min_ch == b.max_ch {
        b.min_v <= v <= b.max_v
    } else if ch == b.min_ch {
        v >= b.min_v
    } else if ch == b.max_ch {
        v <= b.max_v
    } else {
        true
    }
}

/// Whether the cell at track `ch`, voice `v`, row `row` is in the block.
pub open spec fn in_block(b: Block, ch: int, v: int, row: int) -> bool {
    &&& b.min_ch <= ch <= b.max_ch
    &&& voice_selected(b, ch, v)
    &&& b.min_row <= row <= b.max_row
}

/// What an edit does to each cell of a block.
#[derive(Debug, Clone, Copy, PartialEq, Eq, Structural)]
pub enum BlockEdit {
    /// Empties the cell.
    Clear,
    /// Moves a note by that many semitones; other cells stay.
    Transpose(i16),
}

/// A cell after an edit.
pub open spec fn edited(e: BlockEdit, c: Cell) -> Cell {
    match e {
        BlockEdit::Clear => Cell::Empty,
        BlockEdit::Transpose(d) => match c {
            Cell::NoteOn(n) => Cell::NoteOn(
                Note {
                    pitch: if n.pitch + d < 127 {
                        (n.pitch + d) as u8
                    } else {
                        127u8
                    },
                },
            ),
            _ => c,
        },
    }
}

/// A column after an edit of the block: the cells of the block edited, the others kept.
pub open spec fn column_after(g: Seq<Seq<Seq<Cell>>>, b: Block, e: BlockEdit, c: int, v: int) -> Seq<Cell> {
    Seq::new(
        g[c][v].len(),
        |r: int|
            if in_block(b, c, v, r) {
                edited(e, g[c][v][r])
            } else {
                g[c][v][r]
            },
    )
}

/// The cells after an edit of the block.
pub open spec fn grid_after(g: Seq<Seq<Seq<Cell>>>, b: Block, e: BlockEdit) -> Seq<Seq<Seq<Cell>>> {
    Seq::new(g.len(), |c: int| Seq::new(g[c].len(), |v: int| column_after(g, b, e, c, v)))
}

/// The block lies within the pattern: its tracks exist and each selected voice has its
/// rows (when the row range is not empty).
pub open spec fn block_fits(g: Seq<Seq<Seq<Cell>>>, b: Block) -> bool {
    &&& b.max_ch < g.len()
    &&& b.min_row <= b.max_row ==> forall|c: int, v: int|
        b.min_ch <= c <= b.max_ch && 0 <= v < g[c].len() && voice_selected(b, c, v)
            ==> b.max_row < (#[trigger] g[c][v]).len()
}

/// Every note of the block moved by `d` semitones is still a byte.
pub open spec fn notes_stay_in_range(g: Seq<Seq<Seq<Cell>>>, b: Block, d: int) -> bool {
    forall|c: int, v: int|
        0 <= c < g.len() && 0 <= v < g[c].len() ==> column_notes_in_range(#[trigger] g[c][v], b, c, v, d)
}

/// Every note of one column's part of the block moved by `d` semitones is still a byte.
pub open spec fn column_notes_in_range(col: Seq<Cell>, b: Block, ch: int, v: int, d: int) -> bool {
    forall|r: int|
        0 <= r < col.len() && in_block(b, ch, v, r) && (#[trigger] col[r]) is NoteOn ==> 0
            <= col[r]->NoteOn_0.pitch + d <= 255
}

/// A note may move by `d`: up only as far as the top MIDI note, down only as far as 0.
pub open spec fn pitch_may_move(p: u8, d: int) -> bool {
    if d > 0 {
        p + d <= 127
    } else {
        p + d >= 0
    }
}

/// Whether one column's part of the block holds a note.
pub open spec fn column_has_note(col: Seq<Cell>, b: Block, ch: int, v: int) -> bool {
    exists|r: int| 0 <= r < col.len() && in_block(b, ch, v, r) && (#[trigger] col[r]) is NoteOn
}

/// Whether every note of one column's part of the block may move by `d`.
pub open spec fn column_may_move(col: Seq<Cell>, b: Block, ch: int, v: int, d: int) -> bool {
    forall|r: int|
        0 <= r < col.len() && in_block(b, ch, v, r) && (#[trigger] col[r]) is NoteOn
            ==> pitch_may_move(col[r]->NoteOn_0.pitch, d)
}

/// Whether the block can be transposed by `d` semitones: it holds a note, and every
/// note of it may move by `d` (see `pitch_may_move`).
pub open spec fn transposable(g: Seq<Seq<Seq<Cell>>>, b: Block, d: int) -> bool {
    &&& exists|c: int, v: int|
        0 <= c < g.len() && 0 <= v < g[c].len() && column_has_note(#[trigger] g[c][v], b, c, v)
    &&& forall|c: int, v: int|
        0 <= c < g.len() && 0 <= v < g[c].len() ==> column_may_move(#[trigger] g[c][v], b, c, v, d)
}

/// Whether the block holds a note.
pub open spec fn has_note(g: Seq<Seq<Seq<Cell>>>, b: Block) -> bool {
    exists|c: int, v: int, r: int|
        0 <= c < g.len() && 0 <= v < g[c].len() && 0 <= r < g[c][v].len() && in_block(b, c, v, r)
            && (#[trigger] g[c][v][r]) is NoteOn
}

/// Whether voice `v` of track `ch` is in the block's voice range (see `voice_selected`).
pub fn voice_in_selection(b: &Block, ch: usize, v: usize) -> (r: bool)
    ensures
        r == voice_selected(*b, ch as int, v as int),
{
    if b.min_ch == b.max_ch {
        v >= b.min_v && v <= b.max_v
    } else if ch == b.min_ch {
        v >= b.min_v
    } else if ch == b.max_ch {
        v <= b.max_v
    } else {
        true
    }
}

/// A cell after an edit, computed.
fn edit_cell(e: BlockEdit, c: Cell) -> (r: Cell)
    requires
        e matches BlockEdit::Transpose(d) ==> (c is NoteOn ==> 0 <= c->NoteOn_0.pitch + d <= 255),
    ensures
        r == edited(e, c),
{
    match e {
        BlockEdit::Clear => Cell::Empty,
        BlockEdit::Transpose(d) => match c {
            Cell::NoteOn(n) => {
                let p: i16 = n.pitch as i16 + d;
                Cell::NoteOn(Note::new(p as u8))
            },
            _ => c,
        },
    }
}

/// Edits the block's rows of one voice of one track.
fn edit_column(pattern: &mut Pattern, ch: usize, v: usize, b: &Block, e: BlockEdit)
    requires
        ch < old(pattern).grid().len(),
        v < old(pattern).grid()[ch as int].len(),
        b.min_row <= b.max_row && in_block(*b, ch as int, v as int, b.min_row as int) ==> b.max_row
            < old(pattern).grid()[ch as int][v as int].len(),
        e matches BlockEdit::Transpose(d) ==> column_notes_in_range(
            old(pattern).grid()[ch as int][v as int],
            *b,
            ch as int,
            v as int,
            d as int,
        ),
    ensures
        final(pattern).same_settings(*old(pattern)),
        final(pattern).grid() == old(pattern).grid().update(
            ch as int,
            old(pattern).grid()[ch as int].update(
                v as int,
                column_after(old(pattern).grid(), *b, e, ch as int, v as int),
            ),
        ),
{
    let ghost g = old(pattern).grid();
    let ghost target = column_after(g, *b, e, ch as int, v as int);
    proof {
        lemma_grid_of(*pattern);
    }
    if !(b.min_ch <= ch && ch <= b.max_ch && voice_in_selection(b, ch, v)) || b.min_row > b.max_row {
        assert(target =~= g[ch as int][v as int]);
        assert(g[ch as int].update(v as int, target) =~= g[ch as int]);
        assert(g.update(ch as int, g[ch as int].update(v as int, target)) =~= g);
        return ;
    }
    let ghost start = Seq::new(
        g[ch as int][v as int].len(),
        |r: int|
            if b.min_row <= r < b.min_row {
                edited(e, g[ch as int][v as int][r])
            } else {
                g[ch as int][v as int][r]
            },
    );
    assert(start =~= g[ch as int][v as int]);
    assert(g[ch as int].update(v as int, start) =~= g[ch as int]);
    assert(g.update(ch as int, g[ch as int].update(v as int, start)) =~= g);
    let mut row = b.min_row;
    while row <= b.max_row
        invariant
            b.min_row <= row,
            row <= b.max_row,
            target == column_after(g, *b, e, ch as int, v as int),
            b.max_row < g[ch as int][v as int].len(),
            ch < g.len(),
            v < g[ch as int].len(),
            b.min_ch <= ch <= b.max_ch,
            voice_selected(*b, ch as int, v as int),
            g == old(pattern).grid(),
            e matches BlockEdit::Transpose(d) ==> column_notes_in_range(
                g[ch as int][v as int],
                *b,
                ch as int,
                v as int,
                d as int,
            ),
            pattern.same_settings(*old(pattern)),
            pattern.grid() == g.update(
                ch as int,
                g[ch as int].update(
                    v as int,
                    Seq::new(
                        g[ch as int][v as int].len(),
                        |r: int|
                            if b.min_row <= r < row {
                                edited(e, g[ch as int][v as int][r])
                            } else {
                                g[ch as int][v as int][r]
                            },
                    ),
                ),
            ),
        decreases b.max_row + 1 - row,
    {
        proof {
            lemma_grid_of(*pattern);
            assert(pattern.grid()[ch as int].len() == g[ch as int].len());
            assert(pattern.grid()[ch as int][v as int].len() == g[ch as int][v as int].len());
        }
        let cell = pattern.get(ch, v, row);
        assert(cell == g[ch as int][v as int][row as int]);
        assert(in_block(*b, ch as int, v as int, row as int));
        let new_cell = edit_cell(e, cell);
        let ghost prev = pattern.grid();
        pattern.set(ch, v, row, new_cell);
        let ghost newcol = Seq::new(
            g[ch as int][v as int].len(),
            |r: int|
                if b.min_row <= r < row + 1 {
                    edited(e, g[ch as int][v as int][r])
                } else {
                    g[ch as int][v as int][r]
                },
        );
        assert(pattern.grid()[ch as int][v as int] == prev[ch as int][v as int].update(row as int, new_cell));
        assert(pattern.grid()[ch as int][v as int] =~= newcol);
        assert(pattern.grid()[ch as int] =~= g[ch as int].update(v as int, newcol));
        assert(pattern.grid()[ch as int][v as int] =~= Seq::new(
            g[ch as int][v as int].len(),
            |r: int|
                if b.min_row <= r < row + 1 {
                    edited(e, g[ch as int][v as int][r])
                } else {
                    g[ch as int][v as int][r]
                },
        ));
        assert(pattern.grid() =~= g.update(
            ch as int,
            g[ch as int].update(
                v as int,
                Seq::new(
                    g[ch as int][v as int].len(),
                    |r: int|
                        if b.min_row <= r < row + 1 {
                            edited(e, g[ch as int][v as int][r])
                        } else {
                            g[ch as int][v as int][r]
                        },
                ),
            ),
        ));
        if row == b.max_row {
            assert(Seq::new(
                g[ch as int][v as int].len(),
                |r: int|
                    if b.min_row <= r < row + 1 {
                        edited(e, g[ch as int][v as int][r])
                    } else {
                        g[ch as int][v as int][r]
                    },
            ) =~= target);
            return ;
        }
        row = row + 1;
    }
    assert(false);
}

/// Applies an edit to every cell of the block (see `grid_after`).
pub fn edit_block(pattern: &mut Pattern, b: &Block, e: BlockEdit)
    requires
        block_fits(old(pattern).grid(), *b),
        e matches BlockEdit::Transpose(d) ==> notes_stay_in_range(old(pattern).grid(), *b, d as int),
    ensures
        final(pattern).same_settings(*old(pattern)),
        final(pattern).grid() == grid_after(old(pattern).grid(), *b, e),
{
    let ghost g = old(pattern).grid();
    proof {
        lemma_grid_of(*pattern);
    }
    if b.min_ch > b.max_ch {
        assert(pattern.grid() =~= grid_after(g, *b, e)) by {
            assert forall|c: int| 0 <= c < g.len() implies pattern.grid()[c] =~= grid_after(g, *b, e)[c] by {
                assert forall|v: int| 0 <= v < g[c].len() implies pattern.grid()[c][v] == grid_after(g, *b, e)[c][v] by {
                    assert(column_after(g, *b, e, c, v) =~= g[c][v]);
                }
            }
        }
        return ;
    }
    let nch = pattern.data.len();
    let mut ch = b.min_ch;
    while ch <= b.max_ch
        invariant
            b.min_ch <= ch <= b.max_ch + 1,
            nch == g.len(),
            g == old(pattern).grid(),
            block_fits(g, *b),
            e matches BlockEdit::Transpose(d) ==> notes_stay_in_range(g, *b, d as int),
            pattern.same_settings(*old(pattern)),
            pattern.grid().len() == g.len(),
            forall|c: int| 0 <= c < g.len() ==> (#[trigger] pattern.grid()[c]).len() == g[c].len(),
            forall|c: int, v: int|
                0 <= c < g.len() && 0 <= v < g[c].len() ==> #[trigger] pattern.grid()[c][v] == if c
                    < ch {
                    column_after(g, *b, e, c, v)
                } else {
                    g[c][v]
                },
        decreases b.max_ch + 1 - ch,
    {
        proof {
            lemma_grid_of(*pattern);
        }
        let voices = pattern.voice_count(ch);
        let mut v: usize = 0;
        while v < voices
            invariant
                b.min_ch <= ch <= b.max_ch,
                nch == g.len(),
                voices == g[ch as int].len(),
                v <= voices,
                g == old(pattern).grid(),
                block_fits(g, *b),
                e matches BlockEdit::Transpose(d) ==> notes_stay_in_range(g, *b, d as int),
                pattern.same_settings(*old(pattern)),
                pattern.grid().len() == g.len(),
                forall|c: int| 0 <= c < g.len() ==> (#[trigger] pattern.grid()[c]).len() == g[c].len(),
                forall|c: int, w: int|
                    0 <= c < g.len() && 0 <= w < g[c].len() ==> #[trigger] pattern.grid()[c][w]
                        == if c < ch || (c == ch && w < v) {
                        column_after(g, *b, e, c, w)
                    } else {
                        g[c][w]
                    },
            decreases voices - v,
        {
            if voice_in_selection(b, ch, v) {
                let ghost before = pattern.grid();
                proof {
                    if b.min_row <= b.max_row {
                        assert(b.max_row < g[ch as int][v as int].len());
                    }
                    assert(pattern.grid()[ch as int][v as int] == g[ch as int][v as int]);
                    match e {
                        BlockEdit::Transpose(d) => {
                            assert(column_notes_in_range(g[ch as int][v as int], *b, ch as int, v as int, d as int));
                        },
                        BlockEdit::Clear => {},
                    }
                }
                edit_column(pattern, ch, v, b, e);
                assert forall|c: int, w: int|
                    0 <= c < g.len() && 0 <= w < g[c].len() implies #[trigger] pattern.grid()[c][w]
                    == if c < ch || (c == ch && w < v + 1) {
                    column_after(g, *b, e, c, w)
                } else {
                    g[c][w]
                } by {
                    if c == ch && w == v {
                        assert(column_after(before, *b, e, c, w) =~= column_after(g, *b, e, c, w));
                    }
                }
            } else {
                assert(column_after(g, *b, e, ch as int, v as int) =~= g[ch as int][v as int]);
            }
            v = v + 1;
        }
        ch = ch + 1;
    }
    assert forall|c: int, v: int| 0 <= c < g.len() && 0 <= v < g[c].len() && c >= ch implies
        column_after(g, *b, e, c, v) =~= g[c][v] by {}
    assert(pattern.grid() =~= grid_after(g, *b, e)) by {
        assert forall|c: int| 0 <= c < g.len() implies pattern.grid()[c] =~= grid_after(g, *b, e)[c] by {
            assert forall|v: int| 0 <= v < g[c].len() implies pattern.grid()[c][v] == grid_after(g, *b, e)[c][v] by {
                if c >= ch {
                    assert(column_after(g, *b, e, c, v) =~= g[c][v]);
                }
            }
        }
    }
}

/// Scans one column's part of the block: whether it holds a note, and whether all of its
/// notes may move by `d`.
fn scan_column(pattern: &Pattern, ch: usize, v: usize, b: &Block, d: i16) -> (r: (bool, bool))
    requires
        ch < pattern.grid().len(),
        v < pattern.grid()[ch as int].len(),
        b.min_row <= b.max_row && in_block(*b, ch as int, v as int, b.min_row as int) ==> b.max_row
            < pattern.grid()[ch as int][v as int].len(),
    ensures
        r.0 == column_has_note(pattern.grid()[ch as int][v as int], *b, ch as int, v as int),
        r.1 == column_may_move(pattern.grid()[ch as int][v as int], *b, ch as int, v as int, d as int),
{
    let ghost col = pattern.grid()[ch as int][v as int];
    proof {
        lemma_grid_of(*pattern);
    }
    if !(b.min_ch <= ch && ch <= b.max_ch && voice_in_selection(b, ch, v)) || b.min_row > b.max_row {
        assert(!column_has_note(col, *b, ch as int, v as int));
        return (false, true);
    }
    let mut found = false;
    let mut ok = true;
    let mut row = b.min_row;
    while row <= b.max_row
        invariant
            b.min_row <= row <= b.max_row,
            b.max_row < col.len(),
            col == pattern.grid()[ch as int][v as int],
            ch < pattern.data@.len(),
            v < pattern.data@[ch as int]@.len(),
            col == pattern.data@[ch as int]@[v as int]@,
            b.min_ch <= ch <= b.max_ch,
            voice_selected(*b, ch as int, v as int),
            found == exists|r: int| b.min_row <= r < row && (#[trigger] col[r]) is NoteOn,
            ok == forall|r: int|
                b.min_row <= r < row && (#[trigger] col[r]) is NoteOn ==> pitch_may_move(
                    col[r]->NoteOn_0.pitch,
                    d as int,
                ),
        decreases b.max_row - row,
    {
        let cell = pattern.get(ch, v, row);
        match cell {
            Cell::NoteOn(n) => {
                found = true;
                let fits = if d > 0 {
                    n.pitch as i32 + d as i32 <= 127
                } else {
                    n.pitch as i32 + d as i32 >= 0
                };
                ok = ok && fits;
            },
            _ => {},
        }
        proof {
            assert(col[row as int] == cell);
        }
        if row == b.max_row {
            proof {
                if found {
                    let w = choose|r: int| b.min_row <= r < row + 1 && (#[trigger] col[r]) is NoteOn;
                    assert(in_block(*b, ch as int, v as int, w));
                }
                if column_has_note(col, *b, ch as int, v as int) {
                    let w = choose|r: int|
                        0 <= r < col.len() && in_block(*b, ch as int, v as int, r) && (#[trigger] col[r]) is NoteOn;
                    assert(b.min_row <= w < row + 1);
                }
                assert forall|r: int|
                    0 <= r < col.len() && in_block(*b, ch as int, v as int, r) && (#[trigger] col[r]) is NoteOn
                        implies ok ==> pitch_may_move(col[r]->NoteOn_0.pitch, d as int) by {
                    assert(b.min_row <= r < row + 1);
                }
                if !ok {
                    let w = choose|r: int|
                        b.min_row <= r < row + 1 && (#[trigger] col[r]) is NoteOn && !pitch_may_move(
                            col[r]->NoteOn_0.pitch,
                            d as int,
                        );
                    assert(in_block(*b, ch as int, v as int, w));
                }
            }
            return (found, ok);
        }
        row = row + 1;
    }
    assert(false);
    (found, ok)
}

/// Whether the block can be transposed by `delta` semitones (see `transposable`).
pub fn can_transpose(pattern: &Pattern, b: &Block, delta: i16) -> (r: bool)
    requires
        block_fits(pattern.grid(), *b),
    ensures
        r == transposable(pattern.grid(), *b, delta as int),
{
    let ghost g = pattern.grid();
    proof {
        lemma_grid_of(*pattern);
    }
    if b.min_ch > b.max_ch {
        assert forall|c: int, v: int|
            0 <= c < g.len() && 0 <= v < g[c].len() implies !column_has_note(#[trigger] g[c][v], *b, c, v) by {}
        return false;
    }
    let nch = pattern.data.len();
    let mut found = false;
    let mut ok = true;
    let mut ch = b.min_ch;
    while ch <= b.max_ch
        invariant
            b.min_ch <= ch <= b.max_ch + 1,
            nch == g.len(),
            g == pattern.grid(),
            block_fits(g, *b),
            found == exists|c: int, v: int|
                0 <= c < ch && 0 <= v < g[c].len() && column_has_note(#[trigger] g[c][v], *b, c, v),
            ok == forall|c: int, v: int|
                0 <= c < ch && 0 <= v < g[c].len() ==> column_may_move(#[trigger] g[c][v], *b, c, v, delta as int),
        decreases b.max_ch + 1 - ch,
    {
        let voices = pattern.voice_count(ch);
        let mut v: usize = 0;
        while v < voices
            invariant
                b.min_ch <= ch <= b.max_ch,
                nch == g.len(),
                voices == g[ch as int].len(),
                v <= voices,
                g == pattern.grid(),
                block_fits(g, *b),
                found == exists|c: int, w: int|
                    0 <= c < g.len() && 0 <= w < g[c].len() && (c < ch || (c == ch && w < v))
                        && column_has_note(#[trigger] g[c][w], *b, c, w),
                ok == forall|c: int, w: int|
                    0 <= c < g.len() && 0 <= w < g[c].len() && (c < ch || (c == ch && w < v))
                        ==> column_may_move(#[trigger] g[c][w], *b, c, w, delta as int),
            decreases voices - v,
        {
            proof {
                if b.min_row <= b.max_row && in_block(*b, ch as int, v as int, b.min_row as int) {
                    assert(b.max_row < g[ch as int][v as int].len());
                }
            }
            let (f, k) = scan_column(pattern, ch, v, b, delta);
            found = found || f;
            ok = ok && k;
            v = v + 1;
        }
        ch = ch + 1;
    }
    proof {
        assert forall|c: int, v: int|
            0 <= c < g.len() && 0 <= v < g[c].len() && c >= ch implies !column_has_note(#[trigger] g[c][v], *b, c, v)
                && column_may_move(g[c][v], *b, c, v, delta as int) by {}
        if transposable(g, *b, delta as int) {
            let (c, v) = choose|c: int, v: int|
                0 <= c < g.len() && 0 <= v < g[c].len() && column_has_note(#[trigger] g[c][v], *b, c, v);
            assert(c < ch);
        }
    }
    found && ok
}

/// Transposes the notes of the block by `delta` semitones, when `can_transpose` allows it.
pub fn transpose_block(pattern: &mut Pattern, b: &Block, delta: i16)
    requires
        block_fits(old(pattern).grid(), *b),
        transposable(old(pattern).grid(), *b, delta as int),
    ensures
        final(pattern).same_settings(*old(pattern)),
        final(pattern).grid() == grid_after(old(pattern).grid(), *b, BlockEdit::Transpose(delta)),
{
    proof {
        let g = pattern.grid();
        assert forall|c: int, v: int| 0 <= c < g.len() && 0 <= v < g[c].len() implies column_notes_in_range(
            #[trigger] g[c][v],
            *b,
            c,
            v,
            delta as int,
        ) by {
            assert(column_may_move(g[c][v], *b, c, v, delta as int));
        }
    }
    edit_block(pattern, b, BlockEdit::Transpose(delta));
}

/// The row the cursor moves to after a cell is entered: `step` rows down, wrapping
/// around the track's `rows`.
pub fn advance_row(row: usize, step: usize, rows: usize) -> (r: usize)
    requires
        rows > 0,
        row + step <= usize::MAX,
    ensures
        r == (row + step) % (rows as int),
{
    (row + step) % rows
}

/// The row the cursor moves to after the cell under it is deleted: one up, wrapping
/// (from row 0 it becomes the largest number modulo the rows).
pub fn row_after_delete(row: usize, rows: usize) -> (r: usize)
    requires
        rows > 0,
    ensures
        r == (if row == 0 {
            usize::MAX as int
        } else {
            row - 1
        }) % (rows as int),
{
    let up = if row == 0 {
        usize::MAX
    } else {
        row - 1
    };
    up % rows
}

/// The octave after stepping it up or down, kept within 0..=8.
pub fn step_octave(octave: u8, up: bool) -> (r: u8)
    ensures
        r == if up {
            if octave < 8 {
                (octave + 1) as u8
            } else {
                octave
            }
        } else {
            if octave > 0 {
                (octave - 1) as u8
            } else {
                octave
            }
        },
{
    if up {
        if octave < 8 {
            octave + 1
        } else {
            octave
        }
    } else {
        if octave > 0 {
            octave - 1
        } else {
            octave
        }
    }
}

/// The input transposition after stepping it up or down, kept within -12..=12.
pub fn step_input_transpose(t: i8, up: bool) -> (r: i8)
    ensures
        r == if up {
            if t < 12 {
                (t + 1) as i8
            } else {
                t
            }
        } else {
            if t > -12 {
                (t - 1) as i8
            } else {
                t
            }
        },
{
    if up {
        if t < 12 {
            t + 1
        } else {
            t
        }
    } else {
        if t > -12 {
            t - 1
        } else {
            t
        }
    }
}

/// The voice the `i`-th note of a chord goes to: the cursor's voice plus `i`, but at most
/// the track's last voice.
pub open spec fn chord_voice(voice: int, i: int, voices: int) -> int {
    if voice + i < voices - 1 {
        voice + i
    } else {
        voices - 1
    }
}

/// The cell of voice `w` after a chord of `notes` is entered at a row from voice `voice`
/// on, in a track of `voices` voices: each note goes to `chord_voice`, so the last voice
/// gets the last note once the chord reaches it; other voices keep their cell.
pub open spec fn chord_cell(notes: Seq<Note>, voice: int, voices: int, w: int, old_cell: Cell) -> Cell {
    let n = notes.len() as int;
    if n > 0 && w == voices - 1 && voice + n - 1 >= voices - 1 {
        Cell::NoteOn(notes[n - 1])
    } else if voice <= w < voices - 1 && w - voice < n {
        Cell::NoteOn(notes[w - voice])
    } else {
        old_cell
    }
}

/// The track's voices after a chord of `notes` is entered at `row` from voice `voice` on
/// (see `chord_cell`).
pub open spec fn chord_voices(col: Seq<Seq<Cell>>, notes: Seq<Note>, voice: int, row: int) -> Seq<Seq<Cell>> {
    Seq::new(
        col.len(),
        |w: int| col[w].update(row, chord_cell(notes, voice, col.len() as int, w, col[w][row])),
    )
}

/// Enters a chord at `row` of track `ch`: note `i` goes to voice `voice + i`, or to the
/// last voice once that is past it (see `chord_voices`).
pub fn place_chord(pattern: &mut Pattern, ch: usize, voice: usize, row: usize, notes: &Vec<Note>)
    requires
        ch < old(pattern).grid().len(),
        old(pattern).grid()[ch as int].len() >= 1,
        forall|w: int|
            0 <= w < old(pattern).grid()[ch as int].len() ==> row < (#[trigger] old(pattern).grid()[ch as int][w]).len(),
        voice + notes@.len() <= usize::MAX,
    ensures
        final(pattern).same_settings(*old(pattern)),
        final(pattern).grid() == old(pattern).grid().update(
            ch as int,
            chord_voices(old(pattern).grid()[ch as int], notes@, voice as int, row as int),
        ),
{
    let ghost g = old(pattern).grid();
    proof {
        lemma_grid_of(*pattern);
    }
    let voices = pattern.voice_count(ch);
    let mut i: usize = 0;
    assert(g.update(ch as int, chord_voices(g[ch as int], notes@.take(0), voice as int, row as int)) =~= g) by {
        assert(chord_voices(g[ch as int], notes@.take(0), voice as int, row as int) =~= g[ch as int]) by {
            assert forall|w: int| 0 <= w < g[ch as int].len() implies #[trigger] chord_voices(
                g[ch as int],
                notes@.take(0),
                voice as int,
                row as int,
            )[w] =~= g[ch as int][w] by {}
        }
    }
    while i < notes.len()
        invariant
            i <= notes@.len(),
            g == old(pattern).grid(),
            ch < g.len(),
            voices == g[ch as int].len(),
            voices >= 1,
            forall|w: int| 0 <= w < g[ch as int].len() ==> row < (#[trigger] g[ch as int][w]).len(),
            voice + notes@.len() <= usize::MAX,
            pattern.same_settings(*old(pattern)),
            pattern.grid() == g.update(
                ch as int,
                chord_voices(g[ch as int], notes@.take(i as int), voice as int, row as int),
            ),
        decreases notes@.len() - i,
    {
        let v = if voice + i < voices - 1 {
            voice + i
        } else {
            voices - 1
        };
        proof {
            lemma_grid_of(*pattern);
            assert(pattern.grid()[ch as int].len() == voices);
            assert(pattern.grid()[ch as int][v as int].len() == g[ch as int][v as int].len());
        }
        let ghost prev = pattern.grid();
        pattern.set(ch, v, row, Cell::NoteOn(notes[i]));
        let ghost next = chord_voices(g[ch as int], notes@.take(i + 1), voice as int, row as int);
        assert(pattern.grid()[ch as int] =~= next) by {
            assert forall|w: int| 0 <= w < voices implies #[trigger] pattern.grid()[ch as int][w] =~= next[w] by {
                let a = notes@.take(i as int);
                let b = notes@.take(i + 1);
                assert(b.len() == i + 1);
                if w == v {
                    assert(b[i as int] == notes@[i as int]);
                } else {
                    if voice <= w < voices - 1 && w - voice < i {
                        assert(b[w - voice] == a[w - voice]);
                    }
                    if i > 0 && w == voices - 1 && voice + i - 1 >= voices - 1 {
                        assert(false);
                    }
                }
            }
        }
        assert(pattern.grid() =~= g.update(ch as int, next));
        i = i + 1;
    }
    assert(notes@.take(notes@.len() as int) =~= notes@);
}

/// The cursor position (track, voice, row) after a cursor or selection move, in tracks
/// with the given voice and row counts: up and down wrap around the track's rows; left
/// and right step through the voices and on to the neighboring track (wrapping around
/// the tracks), keeping the row within the new track's rows. Other actions keep it.
pub open spec fn moved_cursor(
    ch: int,
    voice: int,
    row: int,
    dir: Action,
    voices: Seq<usize>,
    rows: Seq<usize>,
) -> (int, int, int) {
    let total = voices.len() as int;
    let clamp = |c: int, r: int| if r >= rows[c] { rows[c] - 1 } else { r };
    match dir {
        Action::CursorUp | Action::SelectUp => (ch, voice, if row > 0 { row - 1 } else { rows[ch] - 1 }),
        Action::CursorDown | Action::SelectDown => (ch, voice, if row < rows[ch] - 1 { row + 1 } else { 0 }),
        Action::CursorLeft | Action::SelectLeft => {
            let (c, v) = if voice > 0 {
                (ch, voice - 1)
            } else if ch > 0 {
                (ch - 1, voices[ch - 1] - 1)
            } else {
                (total - 1, voices[total - 1] - 1)
            };
            (c, v, clamp(c, row))
        },
        Action::CursorRight | Action::SelectRight => {
            let (c, v) = if voice < voices[ch] - 1 {
                (ch, voice + 1)
            } else if ch < total - 1 {
                (ch + 1, 0)
            } else {
                (0, 0)
            };
            (c, v, clamp(c, row))
        },
        _ => (ch, voice, row),
    }
}

/// Moves the cursor (see `moved_cursor`); `voices` and `rows` hold each track's voice and
/// row counts.
pub fn move_cursor(
    ch: usize,
    voice: usize,
    row: usize,
    dir: Action,
    voices: &Vec<usize>,
    rows: &Vec<usize>,
) -> (r: (usize, usize, usize))
    requires
        ch < voices@.len(),
        rows@.len() == voices@.len(),
        forall|c: int| 0 <= c < voices@.len() ==> #[trigger] voices@[c] >= 1,
        forall|c: int| 0 <= c < rows@.len() ==> #[trigger] rows@[c] >= 1,
    ensures
        (r.0 as int, r.1 as int, r.2 as int) == moved_cursor(
            ch as int,
            voice as int,
            row as int,
            dir,
            voices@,
            rows@,
        ),
{
    let total = voices.len();
    match dir {
        Action::CursorUp | Action::SelectUp => {
            let r = if row > 0 {
                row - 1
            } else {
                rows[ch] - 1
            };
            (ch, voice, r)
        },
        Action::CursorDown | Action::SelectDown => {
            let r = if row < rows[ch] - 1 {
                row + 1
            } else {
                0
            };
            (ch, voice, r)
        },
        Action::CursorLeft | Action::SelectLeft => {
            let (c, v) = if voice > 0 {
                (ch, voice - 1)
            } else if ch > 0 {
                (ch - 1, voices[ch - 1] - 1)
            } else {
                (total - 1, voices[total - 1] - 1)
            };
            let r = if row >= rows[c] {
                rows[c] - 1
            } else {
                row
            };
            (c, v, r)
        },
        Action::CursorRight | Action::SelectRight => {
            let (c, v) = if voice < voices[ch] - 1 {
                (ch, voice + 1)
            } else if ch < total - 1 {
                (ch + 1, 0)
            } else {
                (0, 0)
            };
            let r = if row >= rows[c] {
                rows[c] - 1
            } else {
                row
            };
            (c, v, r)
        },
        _ => (ch, voice, row),
    }
}

/// Law: a block transposed up by `d` semitones can be transposed back down by `d`, and
/// that gives back the cells it had.
pub proof fn lemma_transpose_up_then_down(g: Seq<Seq<Seq<Cell>>>, b: Block, d: i16)
    requires
        d > 0,
        transposable(g, b, d as int),
    ensures
        transposable(grid_after(g, b, BlockEdit::Transpose(d)), b, -d),
        grid_after(grid_after(g, b, BlockEdit::Transpose(d)), b, BlockEdit::Transpose((-d) as i16)) == g,
{
    let up = grid_after(g, b, BlockEdit::Transpose(d));
    let nd = (-d) as i16;
    assert forall|c: int, v: int, r: int|
        0 <= c < g.len() && 0 <= v < g[c].len() && 0 <= r < g[c][v].len() && in_block(b, c, v, r)
            && (#[trigger] g[c][v][r]) is NoteOn implies up[c][v][r] == Cell::NoteOn(
        Note { pitch: (g[c][v][r]->NoteOn_0.pitch + d) as u8 },
    ) && g[c][v][r]->NoteOn_0.pitch + d <= 127 by {
        assert(column_may_move(g[c][v], b, c, v, d as int));
    }
    let down = grid_after(up, b, BlockEdit::Transpose(nd));
    assert forall|c: int| 0 <= c < g.len() implies #[trigger] down[c] =~= g[c] by {
        assert forall|v: int| 0 <= v < g[c].len() implies #[trigger] down[c][v] =~= g[c][v] by {
            assert forall|r: int| 0 <= r < g[c][v].len() implies #[trigger] down[c][v][r] == g[c][v][r] by {
                if in_block(b, c, v, r) && g[c][v][r] is NoteOn {
                    assert(column_may_move(g[c][v], b, c, v, d as int));
                }
            }
        }
    }
    assert(down =~= g);
    let (c0, v0) = choose|c: int, v: int|
        0 <= c < g.len() && 0 <= v < g[c].len() && column_has_note(#[trigger] g[c][v], b, c, v);
    let r0 = choose|r: int| 0 <= r < g[c0][v0].len() && in_block(b, c0, v0, r) && (#[trigger] g[c0][v0][r]) is NoteOn;
    assert(up[c0][v0][r0] is NoteOn);
    assert(column_has_note(up[c0][v0], b, c0, v0));
    assert forall|c: int, v: int| 0 <= c < up.len() && 0 <= v < up[c].len() implies column_may_move(
        #[trigger] up[c][v],
        b,
        c,
        v,
        -d,
    ) by {
        assert forall|r: int|
            0 <= r < up[c][v].len() && in_block(b, c, v, r) && (#[trigger] up[c][v][r]) is NoteOn implies pitch_may_move(
            up[c][v][r]->NoteOn_0.pitch,
            -d,
        ) by {
            assert(g[c][v][r] is NoteOn);
            assert(column_may_move(g[c][v], b, c, v, d as int));
        }
    }
}

} // verus!
