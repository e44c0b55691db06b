//! Reading FastTracker II XM files: the header with the play order, packed patterns,
//! and instruments with their volume envelopes and delta-coded 8- or 16-bit samples.
//!
//! The reader walks the file from front to back as a cursor does: a read past the end
//! fails, while a jump (to skip a header of a declared size) may land past the end, where
//! the next read then fails. Positions are therefore plain integers in the specifications.
use vstd::prelude::*;

use crate::project::mod_file::byte_sample;
use crate::project::channel::VolEnvelope;
use crate::project::pattern::{Cell, Effect, Note};
use crate::project::sample::LoopType;

verus! {

/// A little-endian 16-bit number at offset `o`.
pub open spec fn le16(d: Seq<u8>, o: int) -> nat {
    d[o] as nat + d[o + 1] as nat * 256
}

/// A little-endian 32-bit number at offset `o`.
pub open spec fn le32(d: Seq<u8>, o: int) -> nat {
    le16(d, o) + le16(d, o + 2) * 65536
}

/// `n` bytes can be read at `pos`.
pub open spec fn fits(d: Seq<u8>, pos: int, n: int) -> bool {
    0 <= pos && pos + n <= d.len()
}

/// The five fields of a pattern cell as the file stores them.
#[derive(Debug, Clone, Copy, PartialEq, Eq, Structural)]
pub struct XmCell {
    pub note: u8,
    pub instrument: u8,
    pub volume: u8,
    pub effect_type: u8,
    pub effect_param: u8,
}

/// A cell with every field zero: what a pattern without packed data holds.
pub open spec fn blank_cell() -> XmCell {
    XmCell { note: 0, instrument: 0, volume: 0, effect_type: 0, effect_param: 0 }
}

/// One field of a packed cell: read at `pos` (before `end`) when the cell has it, else 0
/// and nothing read.
pub open spec fn opt_byte(d: Seq<u8>, pos: int, end: int, present: bool) -> Option<(u8, int)> {
    if !present {
        Some((0u8, pos))
    } else if pos + 1 <= end {
        Some((d[pos], pos + 1))
    } else {
        None
    }
}

/// The packed cell at `pos`, and where the next one starts, or `None` if it runs past
/// `end`. A first byte with its top bit set says by its low five bits which of the note,
/// instrument, volume, effect type and effect parameter follow; otherwise the first byte
/// is the note and the four other fields follow.
pub open spec fn packed_cell(d: Seq<u8>, pos: int, end: int) -> Option<(XmCell, int)> {
    if pos + 1 > end {
        None
    } else {
        let first = d[pos];
        let p0 = pos + 1;
        if first & 0x80u8 != 0 {
            match opt_byte(d, p0, end, first & 0x01u8 != 0) {
                None => None,
                Some((note, p1)) => match opt_byte(d, p1, end, first & 0x02u8 != 0) {
                    None => None,
                    Some((instrument, p2)) => match opt_byte(d, p2, end, first & 0x04u8 != 0) {
                        None => None,
                        Some((volume, p3)) => match opt_byte(d, p3, end, first & 0x08u8 != 0) {
                            None => None,
                            Some((effect_type, p4)) => match opt_byte(d, p4, end, first & 0x10u8 != 0) {
                                None => None,
                                Some((effect_param, p5)) => Some(
                                    (XmCell { note, instrument, volume, effect_type, effect_param }, p5),
                                ),
                            },
                        },
                    },
                },
            }
        } else if p0 + 4 <= end {
            Some(
                (
                    XmCell {
                        note: first,
                        instrument: d[p0],
                        volume: d[p0 + 1],
                        effect_type: d[p0 + 2],
                        effect_param: d[p0 + 3],
                    },
                    p0 + 4,
                ),
            )
        } else {
            None
        }
    }
}

/// The flag bits of a packed cell's first byte, each with its field: 0x01 the note, 0x02
/// the instrument, 0x04 the volume, 0x08 the effect type, 0x10 the effect parameter. A cell
/// that announces one field reads it from the next byte and leaves the others 0.
pub proof fn lemma_packed_single_field(d: Seq<u8>, pos: int, end: int)
    requires
        0 <= pos,
        pos + 2 <= end,
        end <= d.len(),
    ensures
        d[pos] == 0x81u8 ==> packed_cell(d, pos, end) == Some(
            (XmCell { note: d[pos + 1], instrument: 0, volume: 0, effect_type: 0, effect_param: 0 }, pos + 2),
        ),
        d[pos] == 0x82u8 ==> packed_cell(d, pos, end) == Some(
            (XmCell { note: 0, instrument: d[pos + 1], volume: 0, effect_type: 0, effect_param: 0 }, pos + 2),
        ),
        d[pos] == 0x84u8 ==> packed_cell(d, pos, end) == Some(
            (XmCell { note: 0, instrument: 0, volume: d[pos + 1], effect_type: 0, effect_param: 0 }, pos + 2),
        ),
        d[pos] == 0x88u8 ==> packed_cell(d, pos, end) == Some(
            (XmCell { note: 0, instrument: 0, volume: 0, effect_type: d[pos + 1], effect_param: 0 }, pos + 2),
        ),
        d[pos] == 0x90u8 ==> packed_cell(d, pos, end) == Some(
            (XmCell { note: 0, instrument: 0, volume: 0, effect_type: 0, effect_param: d[pos + 1] }, pos + 2),
        ),
{
    let f = d[pos];
    assert(
        (f == 0x81u8 ==> (f & 0x80u8 != 0 && f & 0x01u8 != 0 && f & 0x02u8 == 0 && f & 0x04u8 == 0 && f & 0x08u8 == 0 && f & 0x10u8 == 0))
        && (f == 0x82u8 ==> (f & 0x80u8 != 0 && f & 0x01u8 == 0 && f & 0x02u8 != 0 && f & 0x04u8 == 0 && f & 0x08u8 == 0 && f & 0x10u8 == 0))
        && (f == 0x84u8 ==> (f & 0x80u8 != 0 && f & 0x01u8 == 0 && f & 0x02u8 == 0 && f & 0x04u8 != 0 && f & 0x08u8 == 0 && f & 0x10u8 == 0))
        && (f == 0x88u8 ==> (f & 0x80u8 != 0 && f & 0x01u8 == 0 && f & 0x02u8 == 0 && f & 0x04u8 == 0 && f & 0x08u8 != 0 && f & 0x10u8 == 0))
        && (f == 0x90u8 ==> (f & 0x80u8 != 0 && f & 0x01u8 == 0 && f & 0x02u8 == 0 && f & 0x04u8 == 0 && f & 0x08u8 == 0 && f & 0x10u8 != 0))
    ) by (bit_vector);
}

/// A packed cell announcing every field (first byte 0x9F) holds them in the file's order:
/// note, instrument, volume, effect type, effect parameter; as does an unpacked cell,
/// whose first byte is the note.
pub proof fn lemma_packed_field_order(d: Seq<u8>, pos: int, end: int)
    requires
        0 <= pos,
        pos + 6 <= end,
        end <= d.len(),
    ensures
        d[pos] == 0x9Fu8 ==> packed_cell(d, pos, end) == Some(
            (
                XmCell {
                    note: d[pos + 1],
                    instrument: d[pos + 2],
                    volume: d[pos + 3],
                    effect_type: d[pos + 4],
                    effect_param: d[pos + 5],
                },
                pos + 6,
            ),
        ),
        d[pos] < 0x80u8 ==> packed_cell(d, pos, end) == Some(
            (
                XmCell {
                    note: d[pos],
                    instrument: d[pos + 1],
                    volume: d[pos + 2],
                    effect_type: d[pos + 3],
                    effect_param: d[pos + 4],
                },
                pos + 5,
            ),
        ),
{
    let f = d[pos];
    assert(
        (f == 0x9Fu8 ==> (f & 0x80u8 != 0 && f & 0x01u8 != 0 && f & 0x02u8 != 0 && f & 0x04u8 != 0 && f & 0x08u8 != 0 && f & 0x10u8 != 0))
        && (f < 0x80u8 ==> f & 0x80u8 == 0)
    ) by (bit_vector);
}

/// The first `k` packed cells from `start` (within `end`), and where the next starts.
pub open spec fn cells_upto(d: Seq<u8>, start: int, end: int, k: int) -> Option<(Seq<XmCell>, int)>
    decreases k,
{
    if k <= 0 {
        Some((Seq::empty(), start))
    } else {
        match cells_upto(d, start, end, k - 1) {
            None => None,
            Some((cs, p)) => match packed_cell(d, p, end) {
                None => None,
                Some((c, q)) => Some((cs.push(c), q)),
            },
        }
    }
}

/// A position as an integer, in an optional result.
pub open spec fn at_int<T>(r: Option<(T, u64)>) -> Option<(T, int)> {
    match r {
        Some((x, p)) => Some((x, p as int)),
        None => None,
    }
}

/// One field of a packed cell (see `opt_byte`).
fn read_opt_byte(d: &[u8], pos: u64, end: u64, present: bool) -> (r: Option<(u8, u64)>)
    requires
        pos <= end,
        end <= d@.len(),
    ensures
        at_int(r) == opt_byte(d@, pos as int, end as int, present),
        r matches Some((_, p)) ==> pos <= p <= end,
{
    if !present {
        Some((0u8, pos))
    } else if pos < end {
        Some((d[pos as usize], pos + 1))
    } else {
        None
    }
}

/// The packed cell at `pos` (see `packed_cell`).
fn read_packed_cell(d: &[u8], pos: u64, end: u64) -> (r: Option<(XmCell, u64)>)
    requires
        pos <= end,
        end <= d@.len(),
    ensures
        at_int(r) == packed_cell(d@, pos as int, end as int),
        r matches Some((_, p)) ==> pos < p <= end,
{
    if pos >= end {
        return None;
    }
    let first = d[pos as usize];
    let p0 = pos + 1;
    if first & 0x80u8 != 0 {
        let (note, p1) = match read_opt_byte(d, p0, end, first & 0x01u8 != 0) {
            Some(x) => x,
            None => return None,
        };
        let (instrument, p2) = match read_opt_byte(d, p1, end, first & 0x02u8 != 0) {
            Some(x) => x,
            None => return None,
        };
        let (volume, p3) = match read_opt_byte(d, p2, end, first & 0x04u8 != 0) {
            Some(x) => x,
            None => return None,
        };
        let (effect_type, p4) = match read_opt_byte(d, p3, end, first & 0x08u8 != 0) {
            Some(x) => x,
            None => return None,
        };
        let (effect_param, p5) = match read_opt_byte(d, p4, end, first & 0x10u8 != 0) {
            Some(x) => x,
            None => return None,
        };
        Some((XmCell { note, instrument, volume, effect_type, effect_param }, p5))
    } else if end - p0 >= 4 {
        let q = p0 as usize;
        Some(
            (
                XmCell {
                    note: first,
                    instrument: d[q],
                    volume: d[q + 1],
                    effect_type: d[q + 2],
                    effect_param: d[q + 3],
                },
                p0 + 4,
            ),
        )
    } else {
        None
    }
}

/// Once `k` cells cannot be read, no more can.
proof fn lemma_cells_none(d: Seq<u8>, start: int, end: int, k: int, m: int)
    requires
        k <= m,
        cells_upto(d, start, end, k) is None,
    ensures
        cells_upto(d, start, end, m) is None,
    decreases m - k,
{
    if k < m {
        lemma_cells_none(d, start, end, k, m - 1);
    }
}

/// The first `n` packed cells from `start`, within `end` (see `cells_upto`).
fn read_cells(d: &[u8], start: u64, end: u64, n: u64) -> (r: Option<Vec<XmCell>>)
    requires
        start <= end,
        end <= d@.len(),
    ensures
        match cells_upto(d@, start as int, end as int, n as int) {
            None => r is None,
            Some((cs, _)) => r matches Some(v) && v@ == cs,
        },
        r matches Some(v) ==> v@.len() == n,
{
    let mut v: Vec<XmCell> = Vec::new();
    let mut pos = start;
    let mut k: u64 = 0;
    while k < n
        invariant
            k <= n,
            start <= pos <= end,
            end <= d@.len(),
            cells_upto(d@, start as int, end as int, k as int) == Some((v@, pos as int)),
            v@.len() == k,
        decreases n - k,
    {
        match read_packed_cell(d, pos, end) {
            Some((c, q)) => {
                v.push(c);
                pos = q;
                k = k + 1;
            },
            None => {
                proof {
                    lemma_cells_none(d@, start as int, end as int, k + 1, n as int);
                }
                return None;
            },
        }
    }
    Some(v)
}

/// A note field: 1 to 96 are notes, 97 releases the note, anything else is empty.
pub open spec fn xm_note(n: u8) -> Cell {
    if 1 <= n <= 96 {
        Cell::NoteOn(Note { pitch: n })
    } else if n == 97 {
        Cell::NoteOff
    } else {
        Cell::Empty
    }
}

/// An instrument field: 0 is none, else the instrument counted from 0.
pub open spec fn xm_instrument(i: u8) -> Option<u8> {
    if i > 0 {
        Some((i - 1) as u8)
    } else {
        None
    }
}

/// A volume field: values below 0x10 mean none.
pub open spec fn xm_volume(v: u8) -> Option<u8> {
    if v >= 0x10 {
        Some(v)
    } else {
        None
    }
}

/// An effect: none when both its type and its parameter are 0.
pub open spec fn xm_effect(t: u8, p: u8) -> Option<Effect> {
    if t != 0 || p != 0 {
        Some(Effect { kind: t, param: p })
    } else {
        None
    }
}

/// What a cell means: note, instrument, volume and effect.
pub open spec fn decoded(c: XmCell) -> (Cell, Option<u8>, Option<u8>, Option<Effect>) {
    (xm_note(c.note), xm_instrument(c.instrument), xm_volume(c.volume), xm_effect(c.effect_type, c.effect_param))
}

/// The fields of a cell, decoded (see `decoded`).
pub fn decode_xm_cell(c: XmCell) -> (r: (Cell, Option<u8>, Option<u8>, Option<Effect>))
    ensures
        r == decoded(c),
{
    let note = if 1 <= c.note && c.note <= 96 {
        Cell::NoteOn(Note { pitch: c.note })
    } else if c.note == 97 {
        Cell::NoteOff
    } else {
        Cell::Empty
    };
    let instrument = if c.instrument > 0 {
        Some(c.instrument - 1)
    } else {
        None
    };
    let volume = if c.volume >= 0x10 {
        Some(c.volume)
    } else {
        None
    };
    let effect = if c.effect_type != 0 || c.effect_param != 0 {
        Some(Effect { kind: c.effect_type, param: c.effect_param })
    } else {
        None
    };
    (note, instrument, volume, effect)
}

/// A pattern of an XM file, by channel and row.
#[derive(Debug, Clone)]
pub struct XmPattern {
    pub rows: usize,
    pub notes: Vec<Vec<Cell>>,
    pub instruments: Vec<Vec<Option<u8>>>,
    pub volumes: Vec<Vec<Option<u8>>>,
    pub effects: Vec<Vec<Option<Effect>>>,
}

/// The cell at `row` of channel `ch`: the packed cells are stored row by row; a pattern
/// without packed data is blank.
pub open spec fn cell_at(cells: Seq<XmCell>, packed: bool, channels: int, row: int, ch: int) -> XmCell {
    if packed {
        cells[row * channels + ch]
    } else {
        blank_cell()
    }
}

/// Channel `ch` of a pattern: its notes, instruments, volumes and effects hold the
/// decoded cells of its `rows` rows.
pub open spec fn column_holds(
    notes: Seq<Cell>,
    instruments: Seq<Option<u8>>,
    volumes: Seq<Option<u8>>,
    effects: Seq<Option<Effect>>,
    cells: Seq<XmCell>,
    packed: bool,
    channels: nat,
    rows: nat,
    ch: int,
) -> bool {
    &&& notes.len() == rows
    &&& instruments.len() == rows
    &&& volumes.len() == rows
    &&& effects.len() == rows
    &&& forall|row: int|
        0 <= row < rows ==> (#[trigger] notes[row], instruments[row], volumes[row], effects[row]) == decoded(
            cell_at(cells, packed, channels as int, row, ch),
        )
}

/// `pat` has `channels` channels of `rows` rows, holding the decoded cells.
pub open spec fn pattern_holds(pat: XmPattern, channels: nat, rows: nat, cells: Seq<XmCell>, packed: bool) -> bool {
    &&& pat.rows == rows
    &&& pat.notes@.len() == channels
    &&& pat.instruments@.len() == channels
    &&& pat.volumes@.len() == channels
    &&& pat.effects@.len() == channels
    &&& forall|c: int|
        0 <= c < channels ==> column_holds(
            (#[trigger] pat.notes@[c])@,
            pat.instruments@[c]@,
            pat.volumes@[c]@,
            pat.effects@[c]@,
            cells,
            packed,
            channels,
            rows,
            c,
        )
}

/// The grid of a pattern from its cells (see `pattern_holds`).
fn build_pattern(cells: &Vec<XmCell>, packed: bool, channels: usize, rows: usize) -> (r: XmPattern)
    requires
        channels <= 0xFFFF,
        rows <= 0xFFFF,
        packed ==> cells@.len() == rows * channels,
    ensures
        pattern_holds(r, channels as nat, rows as nat, cells@, packed),
{
    let mut notes: Vec<Vec<Cell>> = Vec::new();
    let mut instruments: Vec<Vec<Option<u8>>> = Vec::new();
    let mut volumes: Vec<Vec<Option<u8>>> = Vec::new();
    let mut effects: Vec<Vec<Option<Effect>>> = Vec::new();
    let mut c: usize = 0;
    while c < channels
        invariant
            c <= channels,
            channels <= 0xFFFF,
            rows <= 0xFFFF,
            packed ==> cells@.len() == rows * channels,
            notes@.len() == c,
            instruments@.len() == c,
            volumes@.len() == c,
            effects@.len() == c,
            forall|cc: int|
                0 <= cc < c ==> column_holds(
                    (#[trigger] notes@[cc])@,
                    instruments@[cc]@,
                    volumes@[cc]@,
                    effects@[cc]@,
                    cells@,
                    packed,
                    channels as nat,
                    rows as nat,
                    cc,
                ),
        decreases channels - c,
    {
        let mut col_n: Vec<Cell> = Vec::new();
        let mut col_i: Vec<Option<u8>> = Vec::new();
        let mut col_v: Vec<Option<u8>> = Vec::new();
        let mut col_e: Vec<Option<Effect>> = Vec::new();
        let mut row: usize = 0;
        while row < rows
            invariant
                row <= rows,
                c < channels,
                channels <= 0xFFFF,
                rows <= 0xFFFF,
                packed ==> cells@.len() == rows * channels,
                col_n@.len() == row,
                col_i@.len() == row,
                col_v@.len() == row,
                col_e@.len() == row,
                forall|r: int|
                    0 <= r < row ==> (#[trigger] col_n@[r], col_i@[r], col_v@[r], col_e@[r]) == decoded(
                        cell_at(cells@, packed, channels as int, r, c as int),
                    ),
            decreases rows - row,
        {
            let cell = if packed {
                assert(row * channels + c < rows * channels) by (nonlinear_arith)
                    requires
                        row < rows,
                        c < channels,
                ;
                assert(rows * channels <= 0xFFFF * 0xFFFF) by (nonlinear_arith)
                    requires
                        rows <= 0xFFFF,
                        channels <= 0xFFFF,
                ;
                cells[row * channels + c]
            } else {
                XmCell { note: 0, instrument: 0, volume: 0, effect_type: 0, effect_param: 0 }
            };
            let (n, i, v, e) = decode_xm_cell(cell);
            col_n.push(n);
            col_i.push(i);
            col_v.push(v);
            col_e.push(e);
            row = row + 1;
        }
        assert(column_holds(col_n@, col_i@, col_v@, col_e@, cells@, packed, channels as nat, rows as nat, c as int));
        notes.push(col_n);
        instruments.push(col_i);
        volumes.push(col_v);
        effects.push(col_e);
        c = c + 1;
    }
    XmPattern { rows, notes, instruments, volumes, effects }
}

/// Every position the reader reaches, even past the end by a skipped header's length,
/// fits in 64 bits.
pub open spec fn addressable(d: Seq<u8>) -> bool {
    d.len() + 0xFFFF_FFFF <= u64::MAX
}

/// A little-endian 16-bit number, computed.
fn read_le16(d: &[u8], o: usize) -> (r: u32)
    requires
        o + 1 < d@.len(),
    ensures
        r == le16(d@, o as int),
{
    d[o] as u32 + d[o + 1] as u32 * 256
}

/// A little-endian 32-bit number, computed.
fn read_le32(d: &[u8], o: usize) -> (r: u64)
    requires
        o + 3 < d@.len(),
    ensures
        r == le32(d@, o as int),
{
    let _n = d.len();
    read_le16(d, o) as u64 + read_le16(d, o + 2) as u64 * 65536
}

/// Whether `n` bytes can be read at `pos`, computed.
fn can_read(d: &[u8], pos: u64, n: u64) -> (r: bool)
    ensures
        r == fits(d@, pos as int, n as int),
{
    let len = d.len() as u64;
    pos <= len && n <= len - pos
}

/// The pattern whose header starts at `pos`, in a file whose patterns have `channels`
/// channels: its row count, whether it has packed data, the packed cells, and where the
/// next part of the file starts; `None` if it runs past the end. The header holds its own
/// length (4 bytes), the packing type, the row count and the size of the packed data,
/// which follows the header.
pub open spec fn pattern_at(d: Seq<u8>, pos: int, channels: nat) -> Option<(nat, bool, Seq<XmCell>, int)> {
    if !fits(d, pos, 9) {
        None
    } else {
        let ds = pos + le32(d, pos);
        let rows = le16(d, pos + 5);
        let size = le16(d, pos + 7);
        if size == 0 {
            Some((rows, false, Seq::empty(), ds))
        } else if !fits(d, ds, size as int) {
            None
        } else {
            match cells_upto(d, ds, ds + size, (rows * channels) as int) {
                None => None,
                Some((cs, _)) => Some((rows, true, cs, ds + size)),
            }
        }
    }
}

/// The pattern whose header starts at `pos` (see `pattern_at`).
fn read_pattern(d: &[u8], pos: u64, channels: usize) -> (r: Option<(XmPattern, u64)>)
    requires
        channels <= 0xFFFF,
        addressable(d@),
    ensures
        match pattern_at(d@, pos as int, channels as nat) {
            None => r is None,
            Some((rows, packed, cells, next)) => r matches Some((pat, q)) && q == next && pattern_holds(
                pat,
                channels as nat,
                rows,
                cells,
                packed,
            ),
        },
        r matches Some((_, q)) ==> q <= d@.len() + 0xFFFF_FFFF,
{
    let n = d.len();
    if !can_read(d, pos, 9) {
        return None;
    }
    assert(pos + 9 <= n);
    let p = pos as usize;
    let ds = pos + read_le32(d, p);
    let rows = read_le16(d, p + 5) as usize;
    let size = read_le16(d, p + 7) as u64;
    if size == 0 {
        let empty: Vec<XmCell> = Vec::new();
        let pat = build_pattern(&empty, false, channels, rows);
        return Some((pat, ds));
    }
    if !can_read(d, ds, size) {
        return None;
    }
    assert(rows * channels <= 0xFFFF * 0xFFFF) by (nonlinear_arith)
        requires
            rows <= 0xFFFF,
            channels <= 0xFFFF,
    ;
    match read_cells(d, ds, ds + size, (rows * channels) as u64) {
        None => None,
        Some(cells) => {
            let pat = build_pattern(&cells, true, channels, rows);
            Some((pat, ds + size))
        },
    }
}

/// Where the part after the first `k` patterns from `start` begins, or `None` if one of
/// them runs past the end.
pub open spec fn patterns_end(d: Seq<u8>, start: int, channels: nat, k: int) -> Option<int>
    decreases k,
{
    if k <= 0 {
        Some(start)
    } else {
        match patterns_end(d, start, channels, k - 1) {
            None => None,
            Some(p) => match pattern_at(d, p, channels) {
                None => None,
                Some((_, _, _, q)) => Some(q),
            },
        }
    }
}

/// Pattern `i` of those from `start` reads as `pat`.
pub open spec fn pattern_read(d: Seq<u8>, start: int, channels: nat, i: int, pat: XmPattern) -> bool {
    match patterns_end(d, start, channels, i) {
        None => false,
        Some(p) => match pattern_at(d, p, channels) {
            None => false,
            Some((rows, packed, cells, _)) => pattern_holds(pat, channels, rows, cells, packed),
        },
    }
}

/// Once `k` patterns cannot be read, no more can.
proof fn lemma_patterns_none(d: Seq<u8>, start: int, channels: nat, k: int, m: int)
    requires
        k <= m,
        patterns_end(d, start, channels, k) is None,
    ensures
        patterns_end(d, start, channels, m) is None,
    decreases m - k,
{
    if k < m {
        lemma_patterns_none(d, start, channels, k, m - 1);
    }
}

/// The `n` patterns from `start`, and where the part after them begins.
fn read_patterns(d: &[u8], start: u64, channels: usize, n: usize) -> (r: Option<(Vec<XmPattern>, u64)>)
    requires
        channels <= 0xFFFF,
        addressable(d@),
        start <= d@.len() + 0xFFFF_FFFF,
    ensures
        match patterns_end(d@, start as int, channels as nat, n as int) {
            None => r is None,
            Some(e) => r matches Some((pats, q)) && q == e && pats@.len() == n && forall|i: int|
                0 <= i < n ==> pattern_read(d@, start as int, channels as nat, i, #[trigger] pats@[i]),
        },
        r matches Some((_, q)) ==> q <= d@.len() + 0xFFFF_FFFF,
{
    let mut pats: Vec<XmPattern> = Vec::new();
    let mut pos = start;
    let mut k: usize = 0;
    while k < n
        invariant
            k <= n,
            channels <= 0xFFFF,
            addressable(d@),
            pos <= d@.len() + 0xFFFF_FFFF,
            patterns_end(d@, start as int, channels as nat, k as int) == Some(pos as int),
            pats@.len() == k,
            forall|i: int| 0 <= i < k ==> pattern_read(d@, start as int, channels as nat, i, #[trigger] pats@[i]),
        decreases n - k,
    {
        match read_pattern(d, pos, channels) {
            Some((pat, q)) => {
                pats.push(pat);
                pos = q;
                k = k + 1;
            },
            None => {
                proof {
                    lemma_patterns_none(d@, start as int, channels as nat, k + 1, n as int);
                }
                return None;
            },
        }
    }
    Some((pats, pos))
}

/// A byte read as a two's-complement signed number.
pub open spec fn signed(b: u8) -> i8 {
    if b >= 128 {
        (b - 256) as i8
    } else {
        b as i8
    }
}

/// A 16-bit word read as a two's-complement signed number.
pub open spec fn signed16(w: nat) -> i16 {
    if w >= 32768 {
        (w - 65536) as i16
    } else {
        w as i16
    }
}

/// The sum of the first `k` bytes from `p`, modulo 256: 8-bit sample data stores each
/// sample as its difference from the one before.
pub open spec fn acc8(d: Seq<u8>, p: int, k: int) -> nat
    decreases k,
{
    if k <= 0 {
        0
    } else {
        (acc8(d, p, k - 1) + d[p + k - 1] as nat) % 256
    }
}

/// The sum of the first `k` little-endian words from `p`, modulo 65536: 16-bit sample
/// data stores each sample as its difference from the one before.
pub open spec fn acc16(d: Seq<u8>, p: int, k: int) -> nat
    decreases k,
{
    if k <= 0 {
        0
    } else {
        (acc16(d, p, k - 1) + le16(d, p + 2 * (k - 1))) % 65536
    }
}

/// The samples of `len` bytes of data at `p` of a sample of type `kind`: 16-bit words
/// (an odd last byte left out) when bit 4 of the type is set, else bytes scaled to 16 bits.
pub open spec fn sample_data(d: Seq<u8>, p: int, len: nat, kind: u8) -> Seq<i16> {
    if kind & 0x10u8 != 0 {
        Seq::new(len / 2, |j: int| signed16(acc16(d, p, j + 1)))
    } else {
        Seq::new(len, |j: int| byte_sample(acc8(d, p, j + 1) as u8))
    }
}

/// The 8-bit delta-coded data of `len` bytes at `p`.
fn decode_8bit(d: &[u8], p: usize, len: usize) -> (r: Vec<i16>)
    requires
        p + len <= d@.len(),
    ensures
        r@ == Seq::new(len as nat, |j: int| byte_sample(acc8(d@, p as int, j + 1) as u8)),
{
    let dl = d.len();
    let mut v: Vec<i16> = Vec::new();
    let mut acc: u8 = 0;
    let mut k: usize = 0;
    while k < len
        invariant
            dl == d@.len(),
            k <= len,
            p + len <= d@.len(),
            acc == acc8(d@, p as int, k as int),
            v@ == Seq::new(k as nat, |j: int| byte_sample(acc8(d@, p as int, j + 1) as u8)),
        decreases len - k,
    {
        acc = ((acc as u16 + d[p + k] as u16) % 256) as u8;
        let s: i16 = if acc >= 128 {
            (acc as i16 - 256) * 256
        } else {
            acc as i16 * 256
        };
        v.push(s);
        k = k + 1;
        assert(v@ =~= Seq::new(k as nat, |j: int| byte_sample(acc8(d@, p as int, j + 1) as u8)));
    }
    v
}

/// The 16-bit delta-coded data of `len` bytes at `p` (an odd last byte left out).
fn decode_16bit(d: &[u8], p: usize, len: usize) -> (r: Vec<i16>)
    requires
        p + len <= d@.len(),
    ensures
        r@ == Seq::new((len / 2) as nat, |j: int| signed16(acc16(d@, p as int, j + 1))),
{
    let dl = d.len();
    let n = len / 2;
    let mut v: Vec<i16> = Vec::new();
    let mut acc: u32 = 0;
    let mut k: usize = 0;
    while k < n
        invariant
            dl == d@.len(),
            k <= n,
            n == len / 2,
            p + len <= d@.len(),
            acc == acc16(d@, p as int, k as int),
            v@ == Seq::new(k as nat, |j: int| signed16(acc16(d@, p as int, j + 1))),
        decreases n - k,
    {
        acc = (acc + read_le16(d, p + 2 * k)) % 65536;
        let s: i16 = if acc >= 32768 {
            (acc as i32 - 65536) as i16
        } else {
            acc as i16
        };
        v.push(s);
        k = k + 1;
        assert(v@ =~= Seq::new(k as nat, |j: int| signed16(acc16(d@, p as int, j + 1))));
    }
    v
}

/// One sample of an instrument: its header fields (the name as its 22 bytes) and its
/// data as 16-bit samples.
#[derive(Debug, Clone)]
pub struct XmSample {
    pub name: Vec<u8>,
    pub length: u32,
    pub loop_start: u32,
    pub loop_length: u32,
    pub volume: u8,
    pub finetune: i8,
    pub sample_type: u8,
    pub panning: u8,
    pub relative_note: i8,
    pub data: Vec<i16>,
}

impl XmSample {
    /// Whether the data is 16-bit (bit 4 of the type).
    pub fn is_16bit(&self) -> (r: bool)
        ensures
            r == (self.sample_type & 0x10u8 != 0),
    {
        self.sample_type & 0x10u8 != 0
    }

    /// The loop kind in the low two bits of the type: 1 loops forward, 2 back and forth,
    /// anything else not at all.
    pub fn loop_type(&self) -> (r: LoopType)
        ensures
            r == if self.sample_type % 4 == 1 {
                LoopType::Forward
            } else if self.sample_type % 4 == 2 {
                LoopType::PingPong
            } else {
                LoopType::Off
            },
    {
        let bits = self.sample_type % 4;
        if bits == 1 {
            LoopType::Forward
        } else if bits == 2 {
            LoopType::PingPong
        } else {
            LoopType::Off
        }
    }

    /// The MIDI note the sample plays at its own rate: 60 less the relative note, kept
    /// within 0..=127.
    pub fn base_note(&self) -> (r: u8)
        ensures
            r == if 60 - self.relative_note < 0 {
                0
            } else if 60 - self.relative_note > 127 {
                127
            } else {
                60 - self.relative_note
            },
    {
        let n: i16 = 60 - self.relative_note as i16;
        if n < 0 {
            0
        } else if n > 127 {
            127
        } else {
            n as u8
        }
    }

    /// The loop start and length in samples: the stored byte counts, halved for 16-bit
    /// data.
    pub fn loop_frames(&self) -> (r: (usize, usize))
        ensures
            r == if self.sample_type & 0x10u8 != 0 {
                ((self.loop_start / 2) as usize, (self.loop_length / 2) as usize)
            } else {
                (self.loop_start as usize, self.loop_length as usize)
            },
    {
        if self.sample_type & 0x10u8 != 0 {
            ((self.loop_start / 2) as usize, (self.loop_length / 2) as usize)
        } else {
            (self.loop_start as usize, self.loop_length as usize)
        }
    }

    /// The volume, at most 64.
    pub fn capped_volume(&self) -> (r: u8)
        ensures
            r == if self.volume > 64 {
                64
            } else {
                self.volume
            },
    {
        if self.volume > 64 {
            64
        } else {
            self.volume
        }
    }
}

/// Sample `s` is the one whose 40-byte header is at `h` and whose data starts at `p`.
/// The header holds the data length, loop start and loop length (4 bytes each), the
/// volume, fine tune, type, panning, relative note, a reserved byte, and the name.
pub open spec fn sample_holds(d: Seq<u8>, h: int, p: int, s: XmSample) -> bool {
    &&& s.length == le32(d, h)
    &&& s.loop_start == le32(d, h + 4)
    &&& s.loop_length == le32(d, h + 8)
    &&& s.volume == d[h + 12]
    &&& s.finetune == signed(d[h + 13])
    &&& s.sample_type == d[h + 14]
    &&& s.panning == d[h + 15]
    &&& s.relative_note == signed(d[h + 16])
    &&& s.name@ == d.subrange(h + 18, h + 40)
    &&& s.data@ == sample_data(d, p, le32(d, h), d[h + 14])
}

/// Where the data after the first `k` of `count` samples starts; the headers lie at `sh`,
/// the data after them one sample after the other. `None` if some data runs past the end.
pub open spec fn samples_end(d: Seq<u8>, sh: int, count: nat, k: int) -> Option<int>
    decreases k,
{
    if k <= 0 {
        Some(sh + 40 * count)
    } else {
        match samples_end(d, sh, count, k - 1) {
            None => None,
            Some(p) => {
                let len = le32(d, sh + 40 * (k - 1));
                if len == 0 {
                    Some(p)
                } else if fits(d, p, len as int) {
                    Some(p + len)
                } else {
                    None
                }
            },
        }
    }
}

/// Sample `k` of the `count` whose headers lie at `sh` reads as `s`.
pub open spec fn sample_read(d: Seq<u8>, sh: int, count: nat, k: int, s: XmSample) -> bool {
    match samples_end(d, sh, count, k) {
        None => false,
        Some(p) => sample_holds(d, sh + 40 * k, p, s),
    }
}

/// The bytes `from..from + n`.
fn copy_bytes(d: &[u8], from: usize, n: usize) -> (r: Vec<u8>)
    requires
        from + n <= d@.len(),
    ensures
        r@ == d@.subrange(from as int, from + n),
{
    let dl = d.len();
    let mut v: Vec<u8> = Vec::new();
    let mut k: usize = 0;
    while k < n
        invariant
            dl == d@.len(),
            k <= n,
            from + n <= d@.len(),
            v@ == d@.subrange(from as int, from + k),
        decreases n - k,
    {
        v.push(d[from + k]);
        k = k + 1;
        assert(v@ =~= d@.subrange(from as int, from + k));
    }
    v
}

/// A byte as a signed number (see `signed`).
fn to_signed(b: u8) -> (r: i8)
    ensures
        r == signed(b),
{
    if b >= 128 {
        (b as i16 - 256) as i8
    } else {
        b as i8
    }
}

/// The sample whose header is at `h` and whose data (if any) starts at `p`.
fn read_sample(d: &[u8], h: usize, p: u64) -> (r: Option<(XmSample, u64)>)
    requires
        h + 40 <= d@.len(),
    ensures
        ({
            let len = le32(d@, h as int);
            if len == 0 {
                r matches Some((s, q)) && q == p && sample_holds(d@, h as int, p as int, s)
            } else if fits(d@, p as int, len as int) {
                r matches Some((s, q)) && q == p + len && sample_holds(d@, h as int, p as int, s)
            } else {
                r is None
            }
        }),
{
    let dl = d.len();
    let length = read_le32(d, h);
    let kind = d[h + 14];
    let data: Vec<i16> = if length == 0 {
        Vec::new()
    } else if can_read(d, p, length) {
        assert(p + length <= dl);
        if kind & 0x10u8 != 0 {
            decode_16bit(d, p as usize, length as usize)
        } else {
            decode_8bit(d, p as usize, length as usize)
        }
    } else {
        return None;
    };
    let s = XmSample {
        name: copy_bytes(d, h + 18, 22),
        length: length as u32,
        loop_start: read_le32(d, h + 4) as u32,
        loop_length: read_le32(d, h + 8) as u32,
        volume: d[h + 12],
        finetune: to_signed(d[h + 13]),
        sample_type: kind,
        panning: d[h + 15],
        relative_note: to_signed(d[h + 16]),
        data,
    };
    proof {
        assert(s.data@ == sample_data(d@, p as int, le32(d@, h as int), d@[h + 14]));
    }
    Some((s, p + length))
}

/// Once the data of `k` samples cannot be read, no more can.
proof fn lemma_samples_none(d: Seq<u8>, sh: int, count: nat, k: int, m: int)
    requires
        k <= m,
        samples_end(d, sh, count, k) is None,
    ensures
        samples_end(d, sh, count, m) is None,
    decreases m - k,
{
    if k < m {
        lemma_samples_none(d, sh, count, k, m - 1);
    }
}

/// The `count` samples whose headers lie at `sh`, and where their data ends.
fn read_samples(d: &[u8], sh: u64, count: usize) -> (r: Option<(Vec<XmSample>, u64)>)
    requires
        count <= 0xFFFF,
        fits(d@, sh as int, 40 * count),
        addressable(d@),
    ensures
        match samples_end(d@, sh as int, count as nat, count as int) {
            None => r is None,
            Some(e) => r matches Some((v, q)) && q == e && v@.len() == count && forall|k: int|
                0 <= k < count ==> sample_read(d@, sh as int, count as nat, k, #[trigger] v@[k]),
        },
        r matches Some((_, q)) ==> q <= d@.len(),
{
    let dl = d.len();
    let mut v: Vec<XmSample> = Vec::new();
    let mut p: u64 = sh + 40 * count as u64;
    let mut k: usize = 0;
    while k < count
        invariant
            k <= count,
            count <= 0xFFFF,
            dl == d@.len(),
            fits(d@, sh as int, 40 * count),
            addressable(d@),
            p <= d@.len(),
            samples_end(d@, sh as int, count as nat, k as int) == Some(p as int),
            v@.len() == k,
            forall|j: int| 0 <= j < k ==> sample_read(d@, sh as int, count as nat, j, #[trigger] v@[j]),
        decreases count - k,
    {
        let h = (sh + 40 * k as u64) as usize;
        match read_sample(d, h, p) {
            Some((s, q)) => {
                v.push(s);
                p = q;
                k = k + 1;
            },
            None => {
                proof {
                    lemma_samples_none(d@, sh as int, count as nat, k + 1, count as int);
                }
                return None;
            },
        }
    }
    Some((v, p))
}

/// Point `i` of a volume envelope stored at `base`: its tick, and its value capped at 64.
pub open spec fn env_point(d: Seq<u8>, base: int, i: int) -> (u16, u16) {
    let v = le16(d, base + 4 * i + 2);
    (le16(d, base + 4 * i) as u16, (if v > 64 {
        64
    } else {
        v
    }) as u16)
}

/// The volume envelope of the instrument whose header is at `pos`. When the type byte
/// (offset 233) turns it on and it has at least two points (offset 225), it has those
/// points, at most 12, from offset 129, a sustain point (offset 227) if the type says so,
/// and a loop (offsets 228 and 229) if the type says so; otherwise it is turned off.
pub open spec fn envelope_from(d: Seq<u8>, pos: int, env: VolEnvelope) -> bool {
    let vt = d[pos + 233];
    let n = d[pos + 225];
    if vt & 0x01u8 != 0 && n >= 2 {
        let count: nat = if n > 12 {
            12
        } else {
            n as nat
        };
        &&& env.enabled
        &&& env.points@ == Seq::new(count, |i: int| env_point(d, pos + 129, i))
        &&& env.sustain_point == if vt & 0x02u8 != 0 {
            Some(d[pos + 227] as usize)
        } else {
            None
        }
        &&& env.loop_range == if vt & 0x04u8 != 0 {
            Some((d[pos + 228] as usize, d[pos + 229] as usize))
        } else {
            None
        }
    } else {
        &&& env.points@ == seq![(0u16, 64u16)]
        &&& env.sustain_point is None
        &&& env.loop_range is None
        &&& !env.enabled
    }
}

/// The volume envelope of the instrument whose header is at `pos` (see `envelope_from`).
fn read_envelope(d: &[u8], pos: usize) -> (r: VolEnvelope)
    requires
        pos + 243 <= d@.len(),
    ensures
        envelope_from(d@, pos as int, r),
{
    let dl = d.len();
    let vt = d[pos + 233];
    let n = d[pos + 225];
    if vt & 0x01u8 != 0 && n >= 2 {
        let count: usize = if n > 12 {
            12
        } else {
            n as usize
        };
        let mut points: Vec<(u16, u16)> = Vec::new();
        let mut i: usize = 0;
        while i < count
            invariant
                dl == d@.len(),
                i <= count <= 12,
                pos + 243 <= d@.len(),
                points@ == Seq::new(i as nat, |j: int| env_point(d@, pos + 129, j)),
            decreases count - i,
        {
            let o = pos + 129 + 4 * i;
            let tick = read_le16(d, o) as u16;
            let raw = read_le16(d, o + 2);
            let value: u16 = if raw > 64 {
                64
            } else {
                raw as u16
            };
            points.push((tick, value));
            i = i + 1;
            assert(points@ =~= Seq::new(i as nat, |j: int| env_point(d@, pos + 129, j)));
        }
        let sustain_point = if vt & 0x02u8 != 0 {
            Some(d[pos + 227] as usize)
        } else {
            None
        };
        let loop_range = if vt & 0x04u8 != 0 {
            Some((d[pos + 228] as usize, d[pos + 229] as usize))
        } else {
            None
        };
        VolEnvelope { points, sustain_point, loop_range, enabled: true }
    } else {
        VolEnvelope::disabled()
    }
}

/// An instrument of an XM file: its name (22 bytes), which sample each of the 96 notes
/// plays, its volume envelope, fade-out and vibrato, and its samples.
#[derive(Debug, Clone)]
pub struct XmInstrument {
    pub name: Vec<u8>,
    pub note_to_sample: Vec<u8>,
    pub vol_envelope: VolEnvelope,
    pub vol_fadeout: u16,
    pub vibrato_type: u8,
    pub vibrato_sweep: u8,
    pub vibrato_depth: u8,
    pub vibrato_rate: u8,
    pub samples: Vec<XmSample>,
}

/// Where the part after the instrument whose header is at `pos` begins, or `None` if it
/// runs past the end. The header starts with its own length (4 bytes), the name, a type
/// byte and the sample count; an instrument with samples has the rest of its 243-byte
/// header, then after the header's stated length the 40-byte sample headers, then the
/// samples' data.
pub open spec fn instrument_at(d: Seq<u8>, pos: int) -> Option<int> {
    if !fits(d, pos, 29) {
        None
    } else {
        let ns = le16(d, pos + 27);
        let sh = pos + le32(d, pos);
        if ns == 0 {
            Some(sh)
        } else if !fits(d, pos, 243) || !fits(d, sh, (40 * ns) as int) {
            None
        } else {
            samples_end(d, sh, ns, ns as int)
        }
    }
}

/// `inst` is the instrument whose header is at `pos`: one without samples has no note
/// map, a turned-off envelope and no fade-out or vibrato.
pub open spec fn instrument_holds(d: Seq<u8>, pos: int, inst: XmInstrument) -> bool {
    let ns = le16(d, pos + 27);
    let sh = pos + le32(d, pos);
    &&& inst.name@ == d.subrange(pos + 4, pos + 26)
    &&& if ns == 0 {
        &&& inst.note_to_sample@.len() == 0
        &&& inst.vol_envelope.points@ == seq![(0u16, 64u16)]
        &&& inst.vol_envelope.sustain_point is None
        &&& inst.vol_envelope.loop_range is None
        &&& !inst.vol_envelope.enabled
        &&& inst.vol_fadeout == 0
        &&& inst.vibrato_type == 0
        &&& inst.vibrato_sweep == 0
        &&& inst.vibrato_depth == 0
        &&& inst.vibrato_rate == 0
        &&& inst.samples@.len() == 0
    } else {
        &&& inst.note_to_sample@ == d.subrange(pos + 33, pos + 129)
        &&& envelope_from(d, pos, inst.vol_envelope)
        &&& inst.vol_fadeout == le16(d, pos + 239)
        &&& inst.vibrato_type == d[pos + 235]
        &&& inst.vibrato_sweep == d[pos + 236]
        &&& inst.vibrato_depth == d[pos + 237]
        &&& inst.vibrato_rate == d[pos + 238]
        &&& inst.samples@.len() == ns
        &&& forall|k: int| 0 <= k < ns ==> sample_read(d, sh, ns, k, #[trigger] inst.samples@[k])
    }
}

/// The instrument whose header is at `pos` (see `instrument_at`).
fn read_instrument(d: &[u8], pos: u64) -> (r: Option<(XmInstrument, u64)>)
    requires
        addressable(d@),
    ensures
        match instrument_at(d@, pos as int) {
            None => r is None,
            Some(e) => r matches Some((inst, q)) && q == e && instrument_holds(d@, pos as int, inst),
        },
        r matches Some((_, q)) ==> q <= d@.len() + 0xFFFF_FFFF,
{
    let dl = d.len();
    if !can_read(d, pos, 29) {
        return None;
    }
    assert(pos + 29 <= dl);
    let p = pos as usize;
    let ns = read_le16(d, p + 27) as usize;
    let sh = pos + read_le32(d, p);
    let name = copy_bytes(d, p + 4, 22);
    if ns == 0 {
        let inst = XmInstrument {
            name,
            note_to_sample: Vec::new(),
            vol_envelope: VolEnvelope::disabled(),
            vol_fadeout: 0,
            vibrato_type: 0,
            vibrato_sweep: 0,
            vibrato_depth: 0,
            vibrato_rate: 0,
            samples: Vec::new(),
        };
        return Some((inst, sh));
    }
    if !can_read(d, pos, 243) || !can_read(d, sh, 40 * ns as u64) {
        return None;
    }
    match read_samples(d, sh, ns) {
        None => None,
        Some((samples, q)) => {
            let inst = XmInstrument {
                name,
                note_to_sample: copy_bytes(d, p + 33, 96),
                vol_envelope: read_envelope(d, p),
                vol_fadeout: read_le16(d, p + 239) as u16,
                vibrato_type: d[p + 235],
                vibrato_sweep: d[p + 236],
                vibrato_depth: d[p + 237],
                vibrato_rate: d[p + 238],
                samples,
            };
            Some((inst, q))
        },
    }
}

/// Where the part after the first `k` instruments from `start` begins, or `None` if one
/// of them runs past the end.
pub open spec fn instruments_end(d: Seq<u8>, start: int, k: int) -> Option<int>
    decreases k,
{
    if k <= 0 {
        Some(start)
    } else {
        match instruments_end(d, start, k - 1) {
            None => None,
            Some(p) => instrument_at(d, p),
        }
    }
}

/// Instrument `i` of those from `start` reads as `inst`.
pub open spec fn instrument_read(d: Seq<u8>, start: int, i: int, inst: XmInstrument) -> bool {
    match instruments_end(d, start, i) {
        None => false,
        Some(p) => instrument_holds(d, p, inst),
    }
}

/// Once `k` instruments cannot be read, no more can.
proof fn lemma_instruments_none(d: Seq<u8>, start: int, k: int, m: int)
    requires
        k <= m,
        instruments_end(d, start, k) is None,
    ensures
        instruments_end(d, start, m) is None,
    decreases m - k,
{
    if k < m {
        lemma_instruments_none(d, start, k, m - 1);
    }
}

/// The `n` instruments from `start`.
fn read_instruments(d: &[u8], start: u64, n: usize) -> (r: Option<Vec<XmInstrument>>)
    requires
        addressable(d@),
        start <= d@.len() + 0xFFFF_FFFF,
    ensures
        match instruments_end(d@, start as int, n as int) {
            None => r is None,
            Some(_) => r matches Some(v) && v@.len() == n && forall|i: int|
                0 <= i < n ==> instrument_read(d@, start as int, i, #[trigger] v@[i]),
        },
{
    let mut v: Vec<XmInstrument> = Vec::new();
    let mut pos = start;
    let mut k: usize = 0;
    while k < n
        invariant
            k <= n,
            addressable(d@),
            pos <= d@.len() + 0xFFFF_FFFF,
            instruments_end(d@, start as int, k as int) == Some(pos as int),
            v@.len() == k,
            forall|i: int| 0 <= i < k ==> instrument_read(d@, start as int, i, #[trigger] v@[i]),
        decreases n - k,
    {
        match read_instrument(d, pos) {
            Some((inst, q)) => {
                v.push(inst);
                pos = q;
                k = k + 1;
            },
            None => {
                proof {
                    lemma_instruments_none(d@, start as int, k + 1, n as int);
                }
                return None;
            },
        }
    }
    Some(v)
}

/// The 17 bytes an XM file starts with: "Extended Module: ".
pub open spec fn xm_id() -> Seq<u8> {
    seq![0x45u8, 0x78, 0x74, 0x65, 0x6e, 0x64, 0x65, 0x64, 0x20, 0x4d, 0x6f, 0x64, 0x75, 0x6c, 0x65, 0x3a, 0x20]
}

/// The bytes start with the XM identifier.
pub open spec fn is_xm(d: Seq<u8>) -> bool {
    d.len() >= 17 && d.subrange(0, 17) == xm_id()
}

/// Byte `i` of the XM identifier.
fn id_byte(i: usize) -> (r: u8)
    requires
        i < 17,
    ensures
        r == xm_id()[i as int],
{
    if i == 0 {
        0x45
    } else
    if i == 1 {
        0x78
    } else
    if i == 2 {
        0x74
    } else
    if i == 3 {
        0x65
    } else
    if i == 4 {
        0x6e
    } else
    if i == 5 {
        0x64
    } else
    if i == 6 {
        0x65
    } else
    if i == 7 {
        0x64
    } else
    if i == 8 {
        0x20
    } else
    if i == 9 {
        0x4d
    } else
    if i == 10 {
        0x6f
    } else
    if i == 11 {
        0x64
    } else
    if i == 12 {
        0x75
    } else
    if i == 13 {
        0x6c
    } else
    if i == 14 {
        0x65
    } else
    if i == 15 {
        0x3a
    } else {
        0x20
    }
}

/// Whether the bytes start with the XM identifier (see `is_xm`).
fn has_xm_id(d: &[u8]) -> (r: bool)
    ensures
        r == is_xm(d@),
{
    if d.len() < 17 {
        return false;
    }
    let mut i: usize = 0;
    while i < 17
        invariant
            i <= 17,
            d@.len() >= 17,
            forall|j: int| 0 <= j < i ==> d@[j] == #[trigger] xm_id()[j],
        decreases 17 - i,
    {
        if d[i] != id_byte(i) {
            assert(d@.subrange(0, 17)[i as int] != xm_id()[i as int]);
            return false;
        }
        i = i + 1;
    }
    assert(d@.subrange(0, 17) =~= xm_id());
    true
}

/// What an XM file holds: the channel count, the initial speed and tempo, the play
/// order, the patterns and the instruments.
#[derive(Debug, Clone)]
pub struct XmModule {
    pub channels: usize,
    pub speed: u16,
    pub bpm: u16,
    pub order: Vec<usize>,
    pub patterns: Vec<XmPattern>,
    pub instruments: Vec<XmInstrument>,
}

/// Why bytes are not an XM file this library reads.
#[derive(Debug, Clone, Copy, PartialEq, Eq, Structural)]
pub enum XmError {
    /// The file ends before a part it announces.
    Truncated,
    /// The file does not start with the XM identifier.
    NotXm,
    /// The format version (offset 58) is older than 0x0104.
    Version(u16),
}

/// Where the patterns start: after the header, whose length is stored at offset 60.
pub open spec fn patterns_start(d: Seq<u8>) -> int {
    (60 + le32(d, 60)) as int
}

/// The channel count, at offset 68.
pub open spec fn xm_channels(d: Seq<u8>) -> nat {
    le16(d, 68)
}

/// The pattern count, at offset 70.
pub open spec fn xm_pattern_count(d: Seq<u8>) -> nat {
    le16(d, 70)
}

/// The instrument count, at offset 72.
pub open spec fn xm_instrument_count(d: Seq<u8>) -> nat {
    le16(d, 72)
}

/// Where the instruments start: after the patterns (meaningful when they read).
pub open spec fn instruments_start(d: Seq<u8>) -> int {
    patterns_end(d, patterns_start(d), xm_channels(d), xm_pattern_count(d) as int)->0
}

/// The patterns and the instruments of the file can be read.
pub open spec fn body_reads(d: Seq<u8>) -> bool {
    &&& patterns_end(d, patterns_start(d), xm_channels(d), xm_pattern_count(d) as int) is Some
    &&& instruments_end(d, instruments_start(d), xm_instrument_count(d) as int) is Some
}

/// `m` is what the XM file `d` holds: the play order is the first entries of the
/// 256-entry order table at offset 80, as many as the song length at offset 64 says; the
/// speed and tempo are at offsets 76 and 78.
pub open spec fn module_from(d: Seq<u8>, m: XmModule) -> bool {
    let ch = xm_channels(d);
    &&& m.channels == ch
    &&& m.speed == le16(d, 76)
    &&& m.bpm == le16(d, 78)
    &&& m.order@ == Seq::new(le16(d, 64), |k: int| d[80 + k] as usize)
    &&& m.patterns@.len() == xm_pattern_count(d)
    &&& forall|i: int|
        0 <= i < m.patterns@.len() ==> pattern_read(d, patterns_start(d), ch, i, #[trigger] m.patterns@[i])
    &&& m.instruments@.len() == xm_instrument_count(d)
    &&& forall|i: int|
        0 <= i < m.instruments@.len() ==> instrument_read(d, instruments_start(d), i, #[trigger] m.instruments@[i])
}

/// What the XM file `data` holds, or why it is not one this library reads: it ends
/// before the identifier, the version or the 336-byte header are complete, or before a
/// pattern or instrument it announces (`Truncated`); it does not start with the
/// identifier (`NotXm`); its version is older than 0x0104 (`Version`).
pub fn parse_xm(data: &[u8]) -> (r: Result<XmModule, XmError>)
    requires
        addressable(data@),
        data@.len() >= 336 && is_xm(data@) && le16(data@, 58) >= 0x0104 ==> le16(data@, 64) <= 256,
    ensures
        data@.len() < 17 ==> r == Err::<XmModule, XmError>(XmError::Truncated),
        data@.len() >= 17 && !is_xm(data@) ==> r == Err::<XmModule, XmError>(XmError::NotXm),
        is_xm(data@) && data@.len() < 60 ==> r == Err::<XmModule, XmError>(XmError::Truncated),
        is_xm(data@) && data@.len() >= 60 && le16(data@, 58) < 0x0104 ==> r == Err::<XmModule, XmError>(
            XmError::Version(le16(data@, 58) as u16),
        ),
        is_xm(data@) && le16(data@, 58) >= 0x0104 && 60 <= data@.len() < 336 ==> r == Err::<
            XmModule,
            XmError,
        >(XmError::Truncated),
        is_xm(data@) && le16(data@, 58) >= 0x0104 && data@.len() >= 336 ==> if body_reads(data@) {
            r matches Ok(m) && module_from(data@, m)
        } else {
            r == Err::<XmModule, XmError>(XmError::Truncated)
        },
{
    let n = data.len();
    if n < 17 {
        return Err(XmError::Truncated);
    }
    if !has_xm_id(data) {
        return Err(XmError::NotXm);
    }
    if n < 60 {
        return Err(XmError::Truncated);
    }
    let version = read_le16(data, 58) as u16;
    if version < 0x0104 {
        return Err(XmError::Version(version));
    }
    if n < 336 {
        return Err(XmError::Truncated);
    }
    let header_size = read_le32(data, 60);
    let song_length = read_le16(data, 64) as usize;
    let channels = read_le16(data, 68) as usize;
    let pattern_count = read_le16(data, 70) as usize;
    let instrument_count = read_le16(data, 72) as usize;
    let speed = read_le16(data, 76) as u16;
    let bpm = read_le16(data, 78) as u16;
    let mut order: Vec<usize> = Vec::new();
    let mut k: usize = 0;
    while k < song_length
        invariant
            k <= song_length <= 256,
            n == data@.len(),
            n >= 336,
            order@ == Seq::new(k as nat, |j: int| data@[80 + j] as usize),
        decreases song_length - k,
    {
        order.push(data[80 + k] as usize);
        k = k + 1;
        assert(order@ =~= Seq::new(k as nat, |j: int| data@[80 + j] as usize));
    }
    let start = 60 + header_size;
    let (patterns, inst_start) = match read_patterns(data, start, channels, pattern_count) {
        Some(x) => x,
        None => return Err(XmError::Truncated),
    };
    let instruments = match read_instruments(data, inst_start, instrument_count) {
        Some(v) => v,
        None => return Err(XmError::Truncated),
    };
    Ok(XmModule { channels, speed, bpm, order, patterns, instruments })
}

} // verus!
