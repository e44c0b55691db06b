//! The single-pattern editor: its modes, its settings page, its selection, and what
//! each key does to it.
use vstd::prelude::*;

use crate::app::input::{key_degree, key_index};
use crate::pattern::{Cell, Note, Pattern};
use crate::scale::{key_midi, map_key_index_to_midi, scale_intervals, ScaleIndex, SCALE_COUNT};

verus! {

/// What the keyboard edits: the pattern or the settings page.
#[derive(Debug, Clone, Copy, PartialEq, Eq, Structural)]
pub enum Mode {
    Edit,
    Settings,
}

/// The fields of the settings page, top to bottom.
#[derive(Debug, Clone, Copy, PartialEq, Eq, Structural)]
pub enum SettingsField {
    Bpm,
    PatternLength,
    Scale,
    Transpose,
    ExportWav,
}

/// The position of a field on the settings page.
pub open spec fn field_pos(f: SettingsField) -> int {
    match f {
        SettingsField::Bpm => 0,
        SettingsField::PatternLength => 1,
        SettingsField::Scale => 2,
        SettingsField::Transpose => 3,
        SettingsField::ExportWav => 4,
    }
}

impl SettingsField {
    /// The field below, the last wrapping to the first.
    pub fn next(&self) -> (r: SettingsField)
        ensures
            field_pos(r) == (field_pos(*self) + 1) % 5,
    {
        match self {
            SettingsField::Bpm => SettingsField::PatternLength,
            SettingsField::PatternLength => SettingsField::Scale,
            SettingsField::Scale => SettingsField::Transpose,
            SettingsField::Transpose => SettingsField::ExportWav,
            SettingsField::ExportWav => SettingsField::Bpm,
        }
    }

    /// The field above, the first wrapping to the last.
    pub fn prev(&self) -> (r: SettingsField)
        ensures
            field_pos(r) == (field_pos(*self) + 4) % 5,
    {
        match self {
            SettingsField::Bpm => SettingsField::ExportWav,
            SettingsField::PatternLength => SettingsField::Bpm,
            SettingsField::Scale => SettingsField::PatternLength,
            SettingsField::Transpose => SettingsField::Scale,
            SettingsField::ExportWav => SettingsField::Transpose,
        }
    }
}

/// Law: moving down the settings page and back up returns to the same field, and the
/// other way round.
pub proof fn lemma_field_next_prev(f: SettingsField, down: SettingsField, up: SettingsField)
    requires
        field_pos(down) == (field_pos(f) + 1) % 5,
        field_pos(up) == (field_pos(f) + 4) % 5,
    ensures
        (field_pos(down) + 4) % 5 == field_pos(f),
        (field_pos(up) + 1) % 5 == field_pos(f),
{
}

/// The block between a selection's anchor (channel, row) and the cursor: first and last
/// channel, first and last row; none without an anchor.
pub fn selection_bounds(anchor: Option<(usize, usize)>, channel: usize, row: usize) -> (r: Option<(usize, usize, usize, usize)>)
    ensures
        match anchor {
            None => r is None,
            Some((ach, arow)) => r == Some(
                (
                    if ach <= channel { ach } else { channel },
                    if ach >= channel { ach } else { channel },
                    if arow <= row { arow } else { row },
                    if arow >= row { arow } else { row },
                ),
            ),
        },
{
    match anchor {
        None => None,
        Some((ach, arow)) => Some(
            (
                if ach <= channel { ach } else { channel },
                if ach >= channel { ach } else { channel },
                if arow <= row { arow } else { row },
                if arow >= row { arow } else { row },
            ),
        ),
    }
}

/// The cells with the block of channels `c0..=c1`, rows `r0..=r1` emptied.
pub open spec fn cleared_block(cells: Seq<Seq<Cell>>, c0: int, c1: int, r0: int, r1: int) -> Seq<Seq<Cell>> {
    Seq::new(
        cells.len(),
        |c: int|
            Seq::new(
                cells[c].len(),
                |r: int|
                    if c0 <= c <= c1 && r0 <= r <= r1 {
                        Cell::Empty
                    } else {
                        cells[c][r]
                    },
            ),
    )
}

/// Empties the block of channels `c0..=c1`, rows `r0..=r1`.
pub fn clear_block(pattern: &mut Pattern, c0: usize, c1: usize, r0: usize, r1: usize)
    requires
        old(pattern).well_formed(),
        c0 <= c1 < old(pattern).data@.len(),
        r0 <= r1 < old(pattern).rows,
    ensures
        final(pattern).cells() == cleared_block(old(pattern).cells(), c0 as int, c1 as int, r0 as int, r1 as int),
        final(pattern).channels == old(pattern).channels,
        final(pattern).rows == old(pattern).rows,
        final(pattern).well_formed(),
{
    let ghost g = old(pattern).cells();
    let mut c = c0;
    while c <= c1
        invariant
            c0 <= c <= c1 + 1,
            c1 < g.len(),
            r0 <= r1 < pattern.rows,
            pattern.well_formed(),
            pattern.channels == old(pattern).channels,
            pattern.rows == old(pattern).rows,
            pattern.data@.len() == g.len(),
            pattern.data@.len() > 0 ==> pattern.rows <= pattern.data@[0]@.len(),
            pattern.cells().len() == g.len(),
            forall|k: int| 0 <= k < g.len() ==> (#[trigger] pattern.cells()[k]).len() == g[k].len(),
            forall|k: int, r: int|
                0 <= k < g.len() && 0 <= r < g[k].len() ==> #[trigger] pattern.cells()[k][r] == if c0 <= k < c && r0
                    <= r <= r1 {
                    Cell::Empty
                } else {
                    g[k][r]
                },
        decreases c1 + 1 - c,
    {
        let mut r = r0;
        while r <= r1
            invariant
                c0 <= c <= c1,
                r0 <= r <= r1 + 1,
                c1 < g.len(),
                r1 < pattern.rows,
                pattern.well_formed(),
                pattern.channels == old(pattern).channels,
                pattern.rows == old(pattern).rows,
                pattern.data@.len() == g.len(),
                pattern.cells().len() == g.len(),
                forall|k: int| 0 <= k < g.len() ==> (#[trigger] pattern.cells()[k]).len() == g[k].len(),
                forall|k: int, q: int|
                    0 <= k < g.len() && 0 <= q < g[k].len() ==> #[trigger] pattern.cells()[k][q] == if (c0 <= k < c
                        && r0 <= q <= r1) || (k == c && r0 <= q < r) {
                        Cell::Empty
                    } else {
                        g[k][q]
                    },
            decreases r1 + 1 - r,
        {
            assert(pattern.data@[c as int]@.len() == pattern.data@[0]@.len());
            pattern.clear(c, r);
            r = r + 1;
        }
        c = c + 1;
    }
    assert(pattern.cells() =~= cleared_block(g, c0 as int, c1 as int, r0 as int, r1 as int)) by {
        assert forall|k: int| 0 <= k < g.len() implies pattern.cells()[k] =~= cleared_block(
            g,
            c0 as int,
            c1 as int,
            r0 as int,
            r1 as int,
        )[k] by {}
    }
}

/// A key the single-pattern editor reads.
#[derive(Debug, Clone, Copy, PartialEq, Eq, Structural)]
pub enum EditorKey {
    Up,
    Down,
    Left,
    Right,
    Delete,
    Backspace,
    Tab,
    Period,
    Comma,
    Enter,
    Escape,
    Num1,
    Num2,
    Char(char),
}

/// What the program does after a key, besides the editor's own change.
#[derive(Debug, Clone, Copy, PartialEq, Eq, Structural)]
pub enum EditorEffect {
    Nothing,
    /// The program closes.
    Quit,
    /// Playback starts from the first row.
    StartPlayback,
    /// Playback stops.
    StopPlayback,
    /// A note just entered sounds on its channel.
    Preview { note: Note, channel: usize },
    /// The pattern is written to a WAV file.
    Export,
}

/// The single-pattern editor's state.
pub struct Editor {
    pub pattern: Pattern,
    pub cursor_channel: usize,
    pub cursor_row: usize,
    pub selection_anchor: Option<(usize, usize)>,
    pub octave: u8,
    pub mode: Mode,
    pub playing: bool,
    pub playback_row: usize,
    pub bpm: u16,
    pub settings_field: SettingsField,
    pub scale_index: ScaleIndex,
    pub transpose: i8,
}

/// The row above, the first wrapping to the last.
pub open spec fn row_up(row: int, rows: int) -> int {
    if row > 0 {
        row - 1
    } else {
        rows - 1
    }
}

/// The row below, the last wrapping to the first.
pub open spec fn row_down(row: int, rows: int) -> int {
    if row < rows - 1 {
        row + 1
    } else {
        0
    }
}

/// Law: moving down a row and back up, or up and back down, returns to the same row (and
/// likewise for channels, which wrap the same way).
pub proof fn lemma_row_down_up(row: int, rows: int)
    requires
        0 <= row < rows,
    ensures
        row_up(row_down(row, rows), rows) == row,
        row_down(row_up(row, rows), rows) == row,
{
}

/// The row after entering a cell: one down, staying on the last row.
pub open spec fn row_after_entry(row: int, rows: int) -> int {
    if row < rows - 1 {
        row + 1
    } else {
        row
    }
}

/// Whether a key is an arrow.
pub open spec fn is_arrow(key: EditorKey) -> bool {
    key is Up || key is Down || key is Left || key is Right
}

/// Whether a key deletes.
pub open spec fn is_delete(key: EditorKey) -> bool {
    key is Delete || key is Backspace
}

/// The note a character key enters: its degree in the scale, from the octave, transposed.
pub open spec fn entered_note(e: Editor, key: EditorKey) -> Option<Note> {
    match key {
        EditorKey::Char(c) => match key_degree(c) {
            Some(i) => Some(
                Note {
                    pitch: key_midi(i as int, e.octave as int, scale_intervals(e.scale_index.0 as int), e.transpose as int) as u8,
                },
            ),
            None => None,
        },
        _ => None,
    }
}

/// The pattern length after a step of the settings page: one more (at most 128) or one
/// less (at least 1).
pub open spec fn stepped_length(rows: int, up: bool) -> int {
    if up {
        if rows + 1 > 128 {
            128
        } else {
            rows + 1
        }
    } else {
        if rows - 1 < 1 {
            1
        } else {
            rows - 1
        }
    }
}

impl Editor {
    /// The state is one the editor can be in: a well-formed pattern of 1 to 128 rows and at
    /// least one channel, the cursor and the selection's anchor inside it, no selection on
    /// the settings page, the octave at most 8, the tempo from 20 to 300, a scale of the
    /// menu, a transposition within an octave either way, and the playing row within the
    /// longest pattern.
    pub open spec fn wf(self) -> bool {
        &&& self.pattern.well_formed()
        &&& self.pattern.channels >= 1
        &&& 1 <= self.pattern.rows <= 128
        &&& self.cursor_channel < self.pattern.channels
        &&& self.cursor_row < self.pattern.rows
        &&& (self.selection_anchor matches Some((ach, arow)) ==> ach < self.pattern.channels && arow < self.pattern.rows)
        &&& (self.mode == Mode::Settings ==> self.selection_anchor is None)
        &&& self.octave <= 8
        &&& 20 <= self.bpm <= 300
        &&& self.scale_index.0 < SCALE_COUNT
        &&& -12 <= self.transpose <= 12
        &&& self.playback_row <= 128
    }

    /// The key stops playback before anything else: Enter while playing.
    pub open spec fn stops(self, key: EditorKey) -> bool {
        self.playing && key == EditorKey::Enter
    }

    /// The key goes to the pattern page.
    pub open spec fn editing(self, key: EditorKey) -> bool {
        !self.stops(key) && self.mode == Mode::Edit
    }

    /// The key goes to the settings page.
    pub open spec fn setting(self, key: EditorKey) -> bool {
        !self.stops(key) && self.mode == Mode::Settings
    }

    /// The channel under the cursor after the key.
    pub open spec fn next_channel(self, key: EditorKey) -> int {
        let ch = self.cursor_channel as int;
        let n = self.pattern.channels as int;
        if self.editing(key) && key is Left {
            if ch > 0 {
                ch - 1
            } else {
                n - 1
            }
        } else if self.editing(key) && key is Right {
            if ch < n - 1 {
                ch + 1
            } else {
                0
            }
        } else {
            ch
        }
    }

    /// The row under the cursor after the key.
    pub open spec fn next_row(self, key: EditorKey) -> int {
        let row = self.cursor_row as int;
        let rows = self.pattern.rows as int;
        if self.editing(key) {
            if key is Up {
                row_up(row, rows)
            } else if key is Down {
                row_down(row, rows)
            } else if is_delete(key) && self.selection_anchor is None {
                (if row == 0 {
                    usize::MAX as int
                } else {
                    row - 1
                }) % rows
            } else if key is Tab || entered_note(self, key) is Some {
                row_after_entry(row, rows)
            } else {
                row
            }
        } else if self.setting(key) && key is Left && self.settings_field == SettingsField::PatternLength {
            let n = stepped_length(rows, false);
            if row >= n {
                n - 1
            } else {
                row
            }
        } else {
            row
        }
    }

    /// The selection's anchor after the key.
    pub open spec fn next_anchor(self, key: EditorKey, alt: bool) -> Option<(usize, usize)> {
        if !self.editing(key) {
            self.selection_anchor
        } else if is_arrow(key) {
            if !alt {
                None
            } else if self.selection_anchor is None {
                Some((self.cursor_channel, self.cursor_row))
            } else {
                self.selection_anchor
            }
        } else if key is Num2 || is_delete(key) || key is Tab || key is Enter || key is Escape || entered_note(
            self,
            key,
        ) is Some {
            None
        } else {
            self.selection_anchor
        }
    }

    /// The octave after the key.
    pub open spec fn next_octave(self, key: EditorKey) -> int {
        if self.editing(key) && key is Period && self.octave < 8 {
            self.octave + 1
        } else if self.editing(key) && key is Comma && self.octave > 0 {
            self.octave - 1
        } else {
            self.octave as int
        }
    }

    /// The page after the key.
    pub open spec fn next_mode(self, key: EditorKey) -> Mode {
        if self.editing(key) && key is Num2 {
            Mode::Settings
        } else if self.setting(key) && (key is Escape || key is Num1) {
            Mode::Edit
        } else {
            self.mode
        }
    }

    /// Whether the song plays after the key.
    pub open spec fn next_playing(self, key: EditorKey) -> bool {
        if self.stops(key) {
            false
        } else if self.editing(key) && key is Enter {
            true
        } else if self.editing(key) && key is Escape && self.selection_anchor is None {
            false
        } else if self.setting(key) && key is Escape {
            false
        } else {
            self.playing
        }
    }

    /// The tempo after the key: a step on the tempo field of the settings page.
    pub open spec fn next_bpm(self, key: EditorKey) -> int {
        if self.setting(key) && self.settings_field == SettingsField::Bpm && key is Right {
            if self.bpm + 1 > 300 {
                300
            } else {
                self.bpm + 1
            }
        } else if self.setting(key) && self.settings_field == SettingsField::Bpm && key is Left {
            if self.bpm - 1 < 20 {
                20
            } else {
                self.bpm - 1
            }
        } else {
            self.bpm as int
        }
    }

    /// The field of the settings page after the key.
    pub open spec fn next_field(self, key: EditorKey) -> int {
        if self.editing(key) && key is Num2 {
            field_pos(SettingsField::Bpm)
        } else if self.setting(key) && key is Down {
            (field_pos(self.settings_field) + 1) % 5
        } else if self.setting(key) && key is Up {
            (field_pos(self.settings_field) + 4) % 5
        } else {
            field_pos(self.settings_field)
        }
    }

    /// The scale after the key: the next or previous one of the menu, wrapping.
    pub open spec fn next_scale(self, key: EditorKey) -> int {
        let i = self.scale_index.0 as int;
        if self.setting(key) && self.settings_field == SettingsField::Scale && key is Right {
            (i + 1) % (SCALE_COUNT as int)
        } else if self.setting(key) && self.settings_field == SettingsField::Scale && key is Left {
            if i == 0 {
                SCALE_COUNT - 1
            } else {
                i - 1
            }
        } else {
            i
        }
    }

    /// The transposition after the key, kept within an octave either way.
    pub open spec fn next_transpose(self, key: EditorKey) -> int {
        let t = self.transpose as int;
        if self.setting(key) && self.settings_field == SettingsField::Transpose && key is Right {
            if t + 1 > 12 {
                12
            } else {
                t + 1
            }
        } else if self.setting(key) && self.settings_field == SettingsField::Transpose && key is Left {
            if t - 1 < -12 {
                -12
            } else {
                t - 1
            }
        } else {
            t
        }
    }

    /// The pattern length after the key.
    pub open spec fn next_rows(self, key: EditorKey) -> int {
        if self.setting(key) && self.settings_field == SettingsField::PatternLength && key is Right {
            stepped_length(self.pattern.rows as int, true)
        } else if self.setting(key) && self.settings_field == SettingsField::PatternLength && key is Left {
            stepped_length(self.pattern.rows as int, false)
        } else {
            self.pattern.rows as int
        }
    }

    /// The cells after the key: a delete empties the selection or the cell under the
    /// cursor; Tab enters a note-off and a note key a note under the cursor; a longer
    /// pattern gets empty rows where its columns are too short.
    pub open spec fn next_cells(self, key: EditorKey) -> Seq<Seq<Cell>> {
        let g = self.pattern.cells();
        let ch = self.cursor_channel as int;
        let row = self.cursor_row as int;
        if self.editing(key) && is_delete(key) {
            match self.selection_anchor {
                Some((ach, arow)) => cleared_block(
                    g,
                    if ach <= ch { ach as int } else { ch },
                    if ach >= ch { ach as int } else { ch },
                    if arow <= row { arow as int } else { row },
                    if arow >= row { arow as int } else { row },
                ),
                None => g.update(ch, g[ch].update(row, Cell::Empty)),
            }
        } else if self.editing(key) && key is Tab {
            g.update(ch, g[ch].update(row, Cell::NoteOff))
        } else if self.editing(key) && entered_note(self, key) is Some {
            g.update(ch, g[ch].update(row, Cell::NoteOn(entered_note(self, key)->0)))
        } else if self.setting(key) && self.settings_field == SettingsField::PatternLength && (key is Right
            || key is Left) && self.next_rows(key) > g[0].len() {
            Seq::new(g.len(), |c: int| g[c] + Seq::new((self.next_rows(key) - g[0].len()) as nat, |i: int| Cell::Empty))
        } else {
            g
        }
    }

    /// What the program must do after the key.
    pub open spec fn next_effect(self, key: EditorKey) -> EditorEffect {
        if self.stops(key) {
            EditorEffect::StopPlayback
        } else if self.editing(key) {
            if key is Enter {
                EditorEffect::StartPlayback
            } else if key is Escape {
                if self.selection_anchor is Some {
                    EditorEffect::Nothing
                } else if self.playing {
                    EditorEffect::StopPlayback
                } else {
                    EditorEffect::Quit
                }
            } else if entered_note(self, key) is Some {
                EditorEffect::Preview { note: entered_note(self, key)->0, channel: self.cursor_channel }
            } else {
                EditorEffect::Nothing
            }
        } else if key is Escape && self.playing {
            EditorEffect::StopPlayback
        } else if key is Enter && self.settings_field == SettingsField::ExportWav {
            EditorEffect::Export
        } else {
            EditorEffect::Nothing
        }
    }

    /// `after` is this editor after the key (with Alt held or not), and `effect` what the
    /// program must do.
    pub open spec fn steps_to(self, after: Editor, key: EditorKey, alt: bool, effect: EditorEffect) -> bool {
        &&& after.pattern.channels == self.pattern.channels
        &&& after.pattern.rows == self.next_rows(key)
        &&& after.pattern.cells() == self.next_cells(key)
        &&& after.cursor_channel == self.next_channel(key)
        &&& after.cursor_row == self.next_row(key)
        &&& after.selection_anchor == self.next_anchor(key, alt)
        &&& after.octave == self.next_octave(key)
        &&& after.mode == self.next_mode(key)
        &&& after.playing == self.next_playing(key)
        &&& after.playback_row == if self.editing(key) && key is Enter {
            0
        } else {
            self.playback_row as int
        }
        &&& after.bpm == self.next_bpm(key)
        &&& field_pos(after.settings_field) == self.next_field(key)
        &&& after.scale_index.0 == self.next_scale(key)
        &&& after.transpose == self.next_transpose(key)
        &&& effect == self.next_effect(key)
    }
}

impl Editor {
    /// A fresh editor: 8 empty channels of 16 rows, the cursor at the top left, octave 4,
    /// 120 BPM, the first scale, no transposition, stopped, on the pattern page.
    pub fn new() -> (r: Editor)
        ensures
            r.wf(),
            r.pattern.channels == 8,
            r.pattern.rows == 16,
            r.pattern.cells() == Seq::new(8, |c: int| Seq::new(16, |i: int| Cell::Empty)),
            r.cursor_channel == 0,
            r.cursor_row == 0,
            r.selection_anchor is None,
            r.octave == 4,
            r.mode == Mode::Edit,
            !r.playing,
            r.playback_row == 0,
            r.bpm == 120,
            r.settings_field == SettingsField::Bpm,
            r.scale_index.0 == 0,
            r.transpose == 0,
    {
        Editor {
            pattern: Pattern::new(8, 16),
            cursor_channel: 0,
            cursor_row: 0,
            selection_anchor: None,
            octave: 4,
            mode: Mode::Edit,
            playing: false,
            playback_row: 0,
            bpm: 120,
            settings_field: SettingsField::Bpm,
            scale_index: ScaleIndex(0),
            transpose: 0,
        }
    }

    /// What a key does (see `steps_to`): Enter while playing stops; otherwise the key goes
    /// to the pattern page or the settings page.
    pub fn handle_key(&mut self, key: EditorKey, alt: bool) -> (effect: EditorEffect)
        requires
            old(self).wf(),
        ensures
            final(self).wf(),
            old(self).steps_to(*final(self), key, alt, effect),
    {
        if key == EditorKey::Enter && self.playing {
            self.playing = false;
            return EditorEffect::StopPlayback;
        }
        match self.mode {
            Mode::Edit => self.edit_key(key, alt),
            Mode::Settings => self.settings_key(key),
        }
    }

    /// A key on the pattern page.
    fn edit_key(&mut self, key: EditorKey, alt: bool) -> (effect: EditorEffect)
        requires
            old(self).wf(),
            old(self).mode == Mode::Edit,
            !old(self).stops(key),
        ensures
            final(self).wf(),
            old(self).steps_to(*final(self), key, alt, effect),
    {
        let ghost e = *self;
        if key == EditorKey::Num2 {
            self.selection_anchor = None;
            self.mode = Mode::Settings;
            self.settings_field = SettingsField::Bpm;
            return EditorEffect::Nothing;
        }
        let arrow = match key {
            EditorKey::Up | EditorKey::Down | EditorKey::Left | EditorKey::Right => true,
            _ => false,
        };
        if arrow && alt && self.selection_anchor.is_none() {
            self.selection_anchor = Some((self.cursor_channel, self.cursor_row));
        } else if arrow && !alt {
            self.selection_anchor = None;
        }
        let rows = self.pattern.rows;
        let channels = self.pattern.channels;
        match key {
            EditorKey::Up => {
                self.cursor_row = if self.cursor_row > 0 {
                    self.cursor_row - 1
                } else {
                    rows - 1
                };
            },
            EditorKey::Down => {
                self.cursor_row = if self.cursor_row < rows - 1 {
                    self.cursor_row + 1
                } else {
                    0
                };
            },
            EditorKey::Left => {
                self.cursor_channel = if self.cursor_channel > 0 {
                    self.cursor_channel - 1
                } else {
                    channels - 1
                };
            },
            EditorKey::Right => {
                self.cursor_channel = if self.cursor_channel < channels - 1 {
                    self.cursor_channel + 1
                } else {
                    0
                };
            },
            EditorKey::Delete | EditorKey::Backspace => {
                match self.selection_anchor {
                    Some((ach, arow)) => {
                        let ch = self.cursor_channel;
                        let row = self.cursor_row;
                        clear_block(
                            &mut self.pattern,
                            if ach <= ch { ach } else { ch },
                            if ach >= ch { ach } else { ch },
                            if arow <= row { arow } else { row },
                            if arow >= row { arow } else { row },
                        );
                        self.selection_anchor = None;
                    },
                    None => {
                        assert(self.pattern.data@[self.cursor_channel as int]@.len() == self.pattern.data@[0]@.len());
                        self.pattern.clear(self.cursor_channel, self.cursor_row);
                        let up = if self.cursor_row == 0 {
                            usize::MAX
                        } else {
                            self.cursor_row - 1
                        };
                        self.cursor_row = up % rows;
                    },
                }
            },
            EditorKey::Tab => {
                self.selection_anchor = None;
                assert(self.pattern.data@[self.cursor_channel as int]@.len() == self.pattern.data@[0]@.len());
                self.pattern.set(self.cursor_channel, self.cursor_row, Cell::NoteOff);
                if self.cursor_row < rows - 1 {
                    self.cursor_row = self.cursor_row + 1;
                }
            },
            EditorKey::Period => {
                if self.octave < 8 {
                    self.octave = self.octave + 1;
                }
            },
            EditorKey::Comma => {
                if self.octave > 0 {
                    self.octave = self.octave - 1;
                }
            },
            EditorKey::Enter => {
                self.selection_anchor = None;
                self.playing = true;
                self.playback_row = 0;
                return EditorEffect::StartPlayback;
            },
            EditorKey::Escape => {
                if self.selection_anchor.is_some() {
                    self.selection_anchor = None;
                } else if self.playing {
                    self.playing = false;
                    return EditorEffect::StopPlayback;
                } else {
                    return EditorEffect::Quit;
                }
            },
            EditorKey::Char(c) => {
                if let Some(i) = key_index(c) {
                    let scale = self.scale_index.scale();
                    let midi = map_key_index_to_midi(i, self.octave, &scale, self.transpose);
                    let note = Note::new(midi);
                    assert(self.pattern.data@[self.cursor_channel as int]@.len() == self.pattern.data@[0]@.len());
                    self.pattern.set(self.cursor_channel, self.cursor_row, Cell::NoteOn(note));
                    self.selection_anchor = None;
                    let channel = self.cursor_channel;
                    if self.cursor_row < rows - 1 {
                        self.cursor_row = self.cursor_row + 1;
                    }
                    return EditorEffect::Preview { note, channel };
                }
            },
            EditorKey::Num1 | EditorKey::Num2 => {},
        }
        EditorEffect::Nothing
    }

    /// A key on the settings page.
    fn settings_key(&mut self, key: EditorKey) -> (effect: EditorEffect)
        requires
            old(self).wf(),
            old(self).mode == Mode::Settings,
            !old(self).stops(key),
        ensures
            final(self).wf(),
            old(self).steps_to(*final(self), key, false, effect),
            old(self).steps_to(*final(self), key, true, effect),
    {
        match key {
            EditorKey::Escape => {
                self.mode = Mode::Edit;
                if self.playing {
                    self.playing = false;
                    EditorEffect::StopPlayback
                } else {
                    EditorEffect::Nothing
                }
            },
            EditorKey::Num1 => {
                self.mode = Mode::Edit;
                EditorEffect::Nothing
            },
            EditorKey::Down => {
                self.settings_field = self.settings_field.next();
                EditorEffect::Nothing
            },
            EditorKey::Up => {
                self.settings_field = self.settings_field.prev();
                EditorEffect::Nothing
            },
            EditorKey::Right => {
                match self.settings_field {
                    SettingsField::Bpm => {
                        self.bpm = if self.bpm + 1 > 300 {
                            300
                        } else {
                            self.bpm + 1
                        };
                    },
                    SettingsField::PatternLength => {
                        let ghost e = *self;
                        let n = if self.pattern.rows + 1 > 128 {
                            128
                        } else {
                            self.pattern.rows + 1
                        };
                        self.pattern.resize(n);
                        assert(self.pattern.cells() =~= e.next_cells(key));
                    },
                    SettingsField::Scale => {
                        self.scale_index = self.scale_index.next();
                    },
                    SettingsField::Transpose => {
                        self.transpose = if self.transpose + 1 > 12 {
                            12
                        } else {
                            self.transpose + 1
                        };
                    },
                    SettingsField::ExportWav => {},
                }
                EditorEffect::Nothing
            },
            EditorKey::Left => {
                match self.settings_field {
                    SettingsField::Bpm => {
                        self.bpm = if self.bpm < 21 {
                            20
                        } else {
                            self.bpm - 1
                        };
                    },
                    SettingsField::PatternLength => {
                        let n = if self.pattern.rows < 2 {
                            1
                        } else {
                            self.pattern.rows - 1
                        };
                        let ghost before = self.pattern.cells();
                        self.pattern.resize(n);
                        assert(self.pattern.cells() =~= before);
                        if self.cursor_row >= n {
                            self.cursor_row = n - 1;
                        }
                    },
                    SettingsField::Scale => {
                        self.scale_index = self.scale_index.prev();
                    },
                    SettingsField::Transpose => {
                        self.transpose = if self.transpose - 1 < -12 {
                            -12
                        } else {
                            self.transpose - 1
                        };
                    },
                    SettingsField::ExportWav => {},
                }
                EditorEffect::Nothing
            },
            EditorKey::Enter => {
                if self.settings_field == SettingsField::ExportWav {
                    EditorEffect::Export
                } else {
                    EditorEffect::Nothing
                }
            },
            _ => EditorEffect::Nothing,
        }
    }

    /// One step of the playback clock while playing: the next row, wrapping after the
    /// last, which the program then plays.
    pub fn tick(&mut self) -> (r: Option<usize>)
        requires
            old(self).wf(),
        ensures
            final(self).wf(),
            final(self).pattern == old(self).pattern,
            final(self).cursor_channel == old(self).cursor_channel,
            final(self).cursor_row == old(self).cursor_row,
            final(self).selection_anchor == old(self).selection_anchor,
            final(self).playing == old(self).playing,
            final(self).mode == old(self).mode,
            final(self).bpm == old(self).bpm,
            if old(self).playing {
                &&& final(self).playback_row == (old(self).playback_row + 1) % (old(self).pattern.rows as int)
                &&& r == Some(final(self).playback_row)
            } else {
                &&& final(self).playback_row == old(self).playback_row
                &&& r is None
            },
    {
        if !self.playing {
            return None;
        }
        self.playback_row = (self.playback_row + 1) % self.pattern.rows;
        Some(self.playback_row)
    }

    /// Puts the cursor at `channel`, `row` if that cell exists.
    pub fn set_cursor(&mut self, channel: usize, row: usize)
        requires
            old(self).wf(),
        ensures
            final(self).wf(),
            final(self).pattern == old(self).pattern,
            final(self).selection_anchor == old(self).selection_anchor,
            if channel < old(self).pattern.channels && row < old(self).pattern.rows {
                final(self).cursor_channel == channel && final(self).cursor_row == row
            } else {
                final(self).cursor_channel == old(self).cursor_channel && final(self).cursor_row == old(
                    self,
                ).cursor_row
            },
    {
        if channel < self.pattern.channels && row < self.pattern.rows {
            self.cursor_channel = channel;
            self.cursor_row = row;
        }
    }
}

} // verus!
