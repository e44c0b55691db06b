//! The single-pattern model: a fixed grid of channels by rows, one cell each.
use vstd::prelude::*;

use crate::project::pattern::{pitch_class_name, pitch_class_str};
use crate::text::{decimal, push_decimal};

verus! {

/// A MIDI note number.
#[derive(Debug, Clone, Copy, PartialEq, Eq, Structural)]
pub struct Note {
    pub pitch: u8,
}

/// The name of a pitch in this model: its pitch class and its octave, where MIDI note 60
/// is "C-4"; octaves below 0 show as 0.
pub open spec fn note_label(pitch: u8) -> Seq<char> {
    pitch_class_name((pitch % 12) as int) + decimal(
        if pitch / 12 >= 1 {
            (pitch / 12 - 1) as nat
        } else {
            0
        },
    )
}

impl Note {
    /// A note of the given pitch, limited to the MIDI range.
    pub fn new(pitch: u8) -> (r: Note)
        ensures
            r.pitch == if pitch < 127 {
                pitch
            } else {
                127u8
            },
    {
        Note { pitch: if pitch < 127 { pitch } else { 127 } }
    }

    /// The note's name, such as "C-4" for pitch 60.
    pub fn name(self) -> (r: String)
        ensures
            r@ == note_label(self.pitch),
    {
        let mut s = String::new();
        s.append(pitch_class_str(self.pitch % 12));
        let octave = self.pitch / 12;
        let shown: u64 = if octave >= 1 {
            (octave - 1) as u64
        } else {
            0
        };
        push_decimal(&mut s, shown);
        s
    }
}

/// One cell of the grid.
#[derive(Debug, Clone, Copy, PartialEq, Eq, Structural)]
pub enum Cell {
    Empty,
    NoteOn(Note),
    NoteOff,
}

/// A grid of `channels` columns of cells; `rows` of them are in use.
pub struct Pattern {
    pub channels: usize,
    pub rows: usize,
    pub data: Vec<Vec<Cell>>,
}

/// How many empty cells follow position `from` of a column, up to `rows`.
pub open spec fn empty_run(col: Seq<Cell>, from: int, rows: int) -> nat
    decreases rows - from,
{
    if from >= rows || from < 0 || from >= col.len() {
        0
    } else if col[from] is Empty {
        1 + empty_run(col, from + 1, rows)
    } else {
        0
    }
}

impl Pattern {
    /// The cells: channel, row.
    pub open spec fn cells(self) -> Seq<Seq<Cell>> {
        self.data@.map_values(|c: Vec<Cell>| c@)
    }

    /// Every column has the same length, at least the rows in use.
    pub open spec fn well_formed(self) -> bool {
        &&& self.data@.len() == self.channels
        &&& forall|c: int|
            0 <= c < self.data@.len() ==> #[trigger] self.data@[c]@.len() == self.data@[0]@.len()
        &&& self.data@.len() > 0 ==> self.rows <= self.data@[0]@.len()
    }

    /// A grid of `channels` columns of `rows` empty cells.
    pub fn new(channels: usize, rows: usize) -> (r: Pattern)
        ensures
            r.well_formed(),
            r.channels == channels,
            r.rows == rows,
            r.cells() == Seq::new(channels as nat, |c: int| Seq::new(rows as nat, |i: int| Cell::Empty)),
    {
        let mut data: Vec<Vec<Cell>> = Vec::new();
        let mut c: usize = 0;
        while c < channels
            invariant
                c <= channels,
                data@.len() == c,
                forall|k: int| 0 <= k < c ==> #[trigger] data@[k]@ == Seq::new(rows as nat, |i: int| Cell::Empty),
            decreases channels - c,
        {
            let col = vec![Cell::Empty; rows];
            assert(col@ =~= Seq::new(rows as nat, |i: int| Cell::Empty));
            data.push(col);
            c = c + 1;
        }
        let r = Pattern { channels, rows, data };
        assert(r.cells() =~= Seq::new(channels as nat, |c: int| Seq::new(rows as nat, |i: int| Cell::Empty)));
        r
    }

    /// The cell at `channel`, `row`.
    pub fn get(&self, channel: usize, row: usize) -> (r: Cell)
        requires
            channel < self.data@.len(),
            row < self.data@[channel as int]@.len(),
        ensures
            r == self.cells()[channel as int][row as int],
    {
        self.data[channel][row]
    }

    /// Puts `cell` at `channel`, `row`.
    pub fn set(&mut self, channel: usize, row: usize, cell: Cell)
        requires
            channel < old(self).data@.len(),
            row < old(self).data@[channel as int]@.len(),
        ensures
            final(self).cells() == old(self).cells().update(
                channel as int,
                old(self).cells()[channel as int].update(row as int, cell),
            ),
            final(self).channels == old(self).channels,
            final(self).rows == old(self).rows,
            old(self).well_formed() ==> final(self).well_formed(),
    {
        self.data[channel][row] = cell;
        assert(self.cells() =~= old(self).cells().update(
            channel as int,
            old(self).cells()[channel as int].update(row as int, cell),
        ));
    }

    /// Empties the cell at `channel`, `row`.
    pub fn clear(&mut self, channel: usize, row: usize)
        requires
            channel < old(self).data@.len(),
            row < old(self).data@[channel as int]@.len(),
        ensures
            final(self).cells() == old(self).cells().update(
                channel as int,
                old(self).cells()[channel as int].update(row as int, Cell::Empty),
            ),
            final(self).channels == old(self).channels,
            final(self).rows == old(self).rows,
            old(self).well_formed() ==> final(self).well_formed(),
    {
        self.data[channel][row] = Cell::Empty;
        assert(self.cells() =~= old(self).cells().update(
            channel as int,
            old(self).cells()[channel as int].update(row as int, Cell::Empty),
        ));
    }

    /// Uses `new_rows` rows; columns shorter than that grow with empty cells, and no cell
    /// is dropped when the pattern shrinks.
    pub fn resize(&mut self, new_rows: usize)
        requires
            old(self).well_formed(),
            old(self).data@.len() > 0,
        ensures
            final(self).well_formed(),
            final(self).rows == new_rows,
            final(self).channels == old(self).channels,
            final(self).cells().len() == old(self).cells().len(),
            forall|c: int|
                0 <= c < old(self).cells().len() ==> #[trigger] final(self).cells()[c] == if new_rows
                    > old(self).data@[0]@.len() {
                    old(self).cells()[c] + Seq::new(
                        (new_rows - old(self).data@[0]@.len()) as nat,
                        |i: int| Cell::Empty,
                    )
                } else {
                    old(self).cells()[c]
                },
    {
        let len0 = self.data[0].len();
        if new_rows > len0 {
            let mut c: usize = 0;
            while c < self.data.len()
                invariant
                    c <= self.data@.len(),
                    self.data@.len() == old(self).data@.len(),
                    self.channels == old(self).channels,
                    self.rows == old(self).rows,
                    len0 == old(self).data@[0]@.len(),
                    new_rows > len0,
                    old(self).well_formed(),
                    forall|k: int|
                        0 <= k < c ==> #[trigger] self.data@[k]@ == old(self).data@[k]@ + Seq::new(
                            (new_rows - len0) as nat,
                            |i: int| Cell::Empty,
                        ),
                    forall|k: int| c <= k < self.data@.len() ==> #[trigger] self.data@[k] == old(self).data@[k],
                decreases self.data@.len() - c,
            {
                assert(self.data@[c as int]@.len() == len0);
                self.data[c].resize(new_rows, Cell::Empty);
                assert(self.data@[c as int]@ =~= old(self).data@[c as int]@ + Seq::new(
                    (new_rows - len0) as nat,
                    |i: int| Cell::Empty,
                ));
                c = c + 1;
            }
            assert(forall|k: int| 0 <= k < self.data@.len() ==> #[trigger] self.data@[k]@.len() == new_rows);
        }
        self.rows = new_rows;
        assert(self.cells().len() == old(self).cells().len());
    }

    /// How many rows a note at `channel`, `row` sounds for: its own row and the empty
    /// rows after it, up to the next note, note-off or the last row in use.
    pub fn gate_rows(&self, channel: usize, row: usize) -> (r: usize)
        requires
            self.well_formed(),
            channel < self.data@.len(),
        ensures
            r == 1 + empty_run(self.cells()[channel as int], row + 1, self.rows as int),
    {
        let mut count: usize = 1;
        let mut r: usize = row;
        if r >= self.rows {
            return 1;
        }
        r = r + 1;
        let ghost col = self.cells()[channel as int];
        assert(self.data@[channel as int]@.len() == self.data@[0]@.len());
        while r < self.rows
            invariant
                row + 1 <= r <= self.rows,
                self.rows <= col.len(),
                col == self.data@[channel as int]@,
                channel < self.data@.len(),
                count == 1 + (r - row - 1),
                1 + empty_run(col, row + 1, self.rows as int) == count + empty_run(col, r as int, self.rows as int),
            decreases self.rows - r,
        {
            match self.data[channel][r] {
                Cell::Empty => {
                    count = count + 1;
                },
                _ => {
                    return count;
                },
            }
            r = r + 1;
        }
        count
    }
}

} // verus!
