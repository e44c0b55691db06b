//! The editor's state that is not drawing: modes, the cursor, the clipboard, playback.
pub mod clip;
pub mod drag;
pub mod edit;
pub mod history;
pub mod input;
pub mod keybindings;
pub mod meter;
pub mod order;
pub mod playback;
pub mod scale;

use vstd::prelude::*;

use crate::project::pattern::{Cell, Effect};

verus! {

/// What the keyboard edits.
#[derive(Debug, Clone, Copy, PartialEq, Eq, Structural)]
pub enum Mode {
    Edit,
}

/// The part of a track's column the cursor is on.
#[derive(Debug, Clone, Copy, PartialEq, Eq, Structural)]
pub enum SubColumn {
    Note,
    Instrument,
    Volume,
    Effect,
}

/// The position of a sub-column within a track's column.
pub open spec fn sub_index(s: SubColumn) -> nat {
    match s {
        SubColumn::Note => 0,
        SubColumn::Instrument => 1,
        SubColumn::Volume => 2,
        SubColumn::Effect => 3,
    }
}

/// The position of a sub-column within a track's column, computed.
pub fn sub_column_index(s: SubColumn) -> (r: usize)
    ensures
        r == sub_index(s),
{
    match s {
        SubColumn::Note => 0,
        SubColumn::Instrument => 1,
        SubColumn::Volume => 2,
        SubColumn::Effect => 3,
    }
}

/// What was copied: a block of one kind of column, or of several.
#[derive(Debug, Clone)]
pub enum ClipboardData {
    Notes(Vec<Vec<Cell>>),
    Instruments(Vec<Vec<Option<u8>>>),
    Volumes(Vec<Vec<Option<u8>>>),
    Effects(Vec<Vec<Option<Effect>>>),
    Full {
        notes: Option<Vec<Vec<Cell>>>,
        instruments: Option<Vec<Vec<Option<u8>>>>,
        volumes: Option<Vec<Vec<Option<u8>>>>,
        effects: Option<Vec<Vec<Option<Effect>>>>,
    },
}

/// The edit cursor: its track, row and sub-column, where typing goes within multi-digit
/// fields, the other corner of a selection, and the octave notes are entered in.
#[derive(Debug, Clone, Copy)]
pub struct Cursor {
    pub channel: usize,
    pub row: usize,
    pub sub_column: SubColumn,
    pub effect_edit_pos: usize,
    pub volume_edit_pos: usize,
    pub instrument_edit_pos: usize,
    pub selection_anchor: Option<(usize, usize, SubColumn)>,
    pub octave: u8,
}

/// The position of a sub-column of a track among all tracks' sub-columns.
pub open spec fn flat_sub(channel: usize, s: SubColumn) -> int {
    channel * 4 + sub_index(s)
}

/// The smaller of two integers.
pub open spec fn min_of(a: usize, b: usize) -> usize {
    if a <= b {
        a
    } else {
        b
    }
}

/// The larger of two integers.
pub open spec fn max_of(a: usize, b: usize) -> usize {
    if a >= b {
        a
    } else {
        b
    }
}

impl Cursor {
    /// A cursor at the top left, on the note sub-column, in octave 4, with nothing
    /// selected.
    pub fn new() -> (r: Cursor)
        ensures
            r.channel == 0,
            r.row == 0,
            r.sub_column == SubColumn::Note,
            r.effect_edit_pos == 0,
            r.volume_edit_pos == 0,
            r.instrument_edit_pos == 0,
            r.selection_anchor is None,
            r.octave == 4,
    {
        Cursor {
            channel: 0,
            row: 0,
            sub_column: SubColumn::Note,
            effect_edit_pos: 0,
            volume_edit_pos: 0,
            instrument_edit_pos: 0,
            selection_anchor: None,
            octave: 4,
        }
    }

    /// The selected block, if there is a selection: the first and last track, the first
    /// and last row, and the sub-columns at its left and right edges (ordered across
    /// tracks).
    pub fn selection_bounds(&self) -> (r: Option<(usize, usize, usize, usize, SubColumn, SubColumn)>)
        requires
            self.channel * 4 + 3 <= usize::MAX,
            self.selection_anchor matches Some((ach, _, _)) ==> ach * 4 + 3 <= usize::MAX,
        ensures
            match self.selection_anchor {
                None => r is None,
                Some((ach, arow, asub)) => {
                    let a = flat_sub(ach, asub);
                    let b = flat_sub(self.channel, self.sub_column);
                    r == Some(
                        (
                            min_of(ach, self.channel),
                            max_of(ach, self.channel),
                            min_of(arow, self.row),
                            max_of(arow, self.row),
                            if a <= b {
                                asub
                            } else {
                                self.sub_column
                            },
                            if a >= b {
                                asub
                            } else {
                                self.sub_column
                            },
                        ),
                    )
                },
            },
    {
        match self.selection_anchor {
            None => None,
            Some((ach, arow, asub)) => {
                let min_ch = if ach <= self.channel {
                    ach
                } else {
                    self.channel
                };
                let max_ch = if ach >= self.channel {
                    ach
                } else {
                    self.channel
                };
                let min_row = if arow <= self.row {
                    arow
                } else {
                    self.row
                };
                let max_row = if arow >= self.row {
                    arow
                } else {
                    self.row
                };
                let a_flat = ach * 4 + sub_column_index(asub);
                let b_flat = self.channel * 4 + sub_column_index(self.sub_column);
                let min_sub = if a_flat <= b_flat {
                    asub
                } else {
                    self.sub_column
                };
                let max_sub = if a_flat >= b_flat {
                    asub
                } else {
                    self.sub_column
                };
                Some((min_ch, max_ch, min_row, max_row, min_sub, max_sub))
            },
        }
    }

    /// Drops the selection.
    pub fn clear_selection(&mut self)
        ensures
            *final(self) == (Cursor { selection_anchor: None, ..*old(self) }),
    {
        self.selection_anchor = None;
    }
}

} // verus!
