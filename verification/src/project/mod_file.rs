//! Reading ProTracker MOD files: 31 sample headers, the play order, the channel count
//! from the format tag, patterns of 64 rows of four-byte cells, and 8-bit sample data.
use vstd::prelude::*;

use crate::project::pattern::{Cell, Effect, Note};

verus! {

/// The Amiga period of entry `i` of the note table; entry `i` is MIDI note 13 + `i`.
pub open spec fn table_period(i: int) -> u16 {
    if i == 0 { 856u16 }
    else if i == 1 { 808u16 }
    else if i == 2 { 762u16 }
    else if i == 3 { 720u16 }
    else if i == 4 { 678u16 }
    else if i == 5 { 640u16 }
    else if i == 6 { 604u16 }
    else if i == 7 { 570u16 }
    else if i == 8 { 538u16 }
    else if i == 9 { 508u16 }
    else if i == 10 { 480u16 }
    else if i == 11 { 453u16 }
    else if i == 12 { 428u16 }
    else if i == 13 { 404u16 }
    else if i == 14 { 381u16 }
    else if i == 15 { 360u16 }
    else if i == 16 { 339u16 }
    else if i == 17 { 320u16 }
    else if i == 18 { 302u16 }
    else if i == 19 { 285u16 }
    else if i == 20 { 269u16 }
    else if i == 21 { 254u16 }
    else if i == 22 { 240u16 }
    else if i == 23 { 226u16 }
    else if i == 24 { 214u16 }
    else if i == 25 { 202u16 }
    else if i == 26 { 190u16 }
    else if i == 27 { 180u16 }
    else if i == 28 { 170u16 }
    else if i == 29 { 160u16 }
    else if i == 30 { 151u16 }
    else if i == 31 { 143u16 }
    else if i == 32 { 135u16 }
    else if i == 33 { 127u16 }
    else if i == 34 { 120u16 }
    else { 113u16 }
}

/// The period of table entry `i`, computed.
fn period_at(i: usize) -> (r: u16)
    requires
        i < 36,
    ensures
        r == table_period(i as int),
{
    match i {
        0 => 856,
        1 => 808,
        2 => 762,
        3 => 720,
        4 => 678,
        5 => 640,
        6 => 604,
        7 => 570,
        8 => 538,
        9 => 508,
        10 => 480,
        11 => 453,
        12 => 428,
        13 => 404,
        14 => 381,
        15 => 360,
        16 => 339,
        17 => 320,
        18 => 302,
        19 => 285,
        20 => 269,
        21 => 254,
        22 => 240,
        23 => 226,
        24 => 214,
        25 => 202,
        26 => 190,
        27 => 180,
        28 => 170,
        29 => 160,
        30 => 151,
        31 => 143,
        32 => 135,
        33 => 127,
        34 => 120,
        _ => 113,
    }
}

/// The distance between two periods.
pub open spec fn period_distance(a: u16, b: u16) -> int {
    if a >= b {
        a - b
    } else {
        b - a
    }
}

/// The table entry among the first `k` nearest to `period` (the first of equals), and its
/// distance; for no entries, none.
pub open spec fn nearest_upto(period: u16, k: int) -> (int, int)
    decreases k,
{
    if k <= 0 {
        (-1, u16::MAX as int)
    } else {
        let (i, d) = nearest_upto(period, k - 1);
        let dk = period_distance(table_period(k - 1), period);
        if dk < d {
            (k - 1, dk)
        } else {
            (i, d)
        }
    }
}

/// The MIDI note a period plays: that of the nearest table entry (the first of equals);
/// none for period 0.
pub open spec fn period_pitch(period: u16) -> Option<u8> {
    if period == 0 {
        None
    } else {
        let (i, d) = nearest_upto(period, 36);
        if i >= 0 {
            Some((13 + i) as u8)
        } else {
            None
        }
    }
}

/// The note table is the ProTracker period list: C-1 (856) down to B-3 (113).
pub proof fn lemma_protracker_periods(i: int)
    requires
        0 <= i < 36,
    ensures
        table_period(i) == seq![
            856u16, 808, 762, 720, 678, 640, 604, 570, 538, 508, 480, 453,
            428, 404, 381, 360, 339, 320, 302, 285, 269, 254, 240, 226,
            214, 202, 190, 180, 170, 160, 151, 143, 135, 127, 120, 113,
        ][i],
{
}

/// The table is tuned in equal temperament: each entry is a semitone above the one
/// before, its period shorter by a factor between 1.055 and 1.064 (the twelfth root of
/// two, 1.0595, rounded to whole periods), and an entry an octave up has half the
/// period, to within one.
pub proof fn lemma_period_semitones(i: int)
    requires
        0 <= i < 35,
    ensures
        1055 * table_period(i + 1) <= 1000 * table_period(i) <= 1064 * table_period(i + 1),
        i < 24 ==> period_distance((2 * table_period(i + 12)) as u16, table_period(i)) <= 1,
        table_period(0) == 856,
{
}

/// Entries further down the table have shorter periods.
proof fn lemma_period_decreasing(j: int, i: int)
    requires
        0 <= j < i < 36,
    ensures
        table_period(j) > table_period(i),
    decreases i - j,
{
    lemma_period_semitones(j);
    if j + 1 < i {
        lemma_period_decreasing(j + 1, i);
    }
}

/// Among the first `k` entries, the nearest to the period of entry `i` is entry `i`
/// itself, at distance 0, once it is among them; before that every distance is positive.
proof fn lemma_nearest_exact(i: int, k: int)
    requires
        0 <= i < 36,
        0 <= k <= 36,
    ensures
        k <= i ==> nearest_upto(table_period(i), k).1 > 0,
        k > i ==> nearest_upto(table_period(i), k) == (i, 0int),
    decreases k,
{
    if k > 0 {
        lemma_nearest_exact(i, k - 1);
        if k - 1 < i {
            lemma_period_decreasing(k - 1, i);
        } else if k - 1 > i {
            lemma_period_decreasing(i, k - 1);
        }
    }
}

/// Every period of the table plays its own note: entry `i` is MIDI note 13 + `i`, so a
/// cell written with an exact table period reads back as that note.
pub proof fn lemma_table_period_pitch(i: int)
    requires
        0 <= i < 36,
    ensures
        period_pitch(table_period(i)) == Some((13 + i) as u8),
{
    lemma_nearest_exact(i, 36);
    if i < 35 {
        lemma_period_decreasing(i, 35);
    }
}

/// The nearest of the first `k` entries is one of them, at its own distance, no further
/// than any of them and nearer than every earlier one.
proof fn lemma_nearest_upto_is_nearest(period: u16, k: int)
    requires
        1 <= k <= 36,
    ensures
        ({
            let (i, d) = nearest_upto(period, k);
            &&& 0 <= i < k
            &&& d == period_distance(table_period(i), period)
            &&& forall|j: int| 0 <= j < k ==> d <= period_distance(#[trigger] table_period(j), period)
            &&& forall|j: int| 0 <= j < i ==> d < period_distance(#[trigger] table_period(j), period)
        }),
    decreases k,
{
    lemma_period_range(k - 1);
    let dk = period_distance(table_period(k - 1), period);
    if k > 1 {
        lemma_nearest_upto_is_nearest(period, k - 1);
        let (i0, d0) = nearest_upto(period, k - 1);
        let (i, d) = nearest_upto(period, k);
        assert forall|j: int| 0 <= j < k implies d <= period_distance(#[trigger] table_period(j), period) by {
            if j < k - 1 {
                assert(d0 <= period_distance(table_period(j), period));
            }
        }
        assert forall|j: int| 0 <= j < i implies d < period_distance(#[trigger] table_period(j), period) by {
            assert(d0 <= period_distance(table_period(j), period));
        }
    } else {
        assert(dk < u16::MAX as int);
    }
}

/// Every entry of the table lies between 113 and 856.
proof fn lemma_period_range(i: int)
    requires
        0 <= i < 36,
    ensures
        113 <= table_period(i) <= 856,
{
    if i > 0 {
        lemma_period_decreasing(0, i);
    }
    if i < 35 {
        lemma_period_decreasing(i, 35);
    }
}

/// Any period other than 0 plays the note of the table entry nearest to it; of entries
/// equally near, the lower note.
pub proof fn lemma_period_pitch_nearest(period: u16, j: int)
    requires
        period != 0,
        0 <= j < 36,
    ensures
        period_pitch(period) matches Some(n) && 13 <= n < 49 && ({
            let d = period_distance(table_period(n - 13), period);
            &&& d <= period_distance(table_period(j), period)
            &&& j < n - 13 ==> d < period_distance(table_period(j), period)
        }),
{
    lemma_nearest_upto_is_nearest(period, 36);
}

/// The MIDI note a period plays (see `period_pitch`).
pub fn period_to_pitch(period: u16) -> (r: Option<u8>)
    ensures
        r == period_pitch(period),
{
    if period == 0 {
        return None;
    }
    let mut best: Option<u8> = None;
    let mut best_dist: u16 = u16::MAX;
    let mut i: usize = 0;
    while i < 36
        invariant
            i <= 36,
            period != 0,
            nearest_upto(period, i as int).1 == best_dist as int,
            best == if nearest_upto(period, i as int).0 >= 0 {
                Some((13 + nearest_upto(period, i as int).0) as u8)
            } else {
                None::<u8>
            },
            -1 <= nearest_upto(period, i as int).0 < i,
        decreases 36 - i,
    {
        let p = period_at(i);
        let dist = if p >= period {
            p - period
        } else {
            period - p
        };
        if dist < best_dist {
            best_dist = dist;
            best = Some(13 + i as u8);
        }
        i = i + 1;
    }
    best
}

/// One decoded cell of a MOD pattern: the note, the sample (counted from 0), and the
/// effect.
pub open spec fn mod_cell(b0: u8, b1: u8, b2: u8, b3: u8) -> (Cell, Option<u8>, Option<Effect>) {
    let sample = (b0 / 16) * 16 + b2 / 16;
    let period = (b0 % 16) * 256 + b1;
    let kind = b2 % 16;
    (
        if period > 0 {
            match period_pitch(period as u16) {
                Some(p) => Cell::NoteOn(Note { pitch: p }),
                None => Cell::Empty,
            }
        } else {
            Cell::Empty
        },
        if sample > 0 {
            Some((sample - 1) as u8)
        } else {
            None
        },
        if kind != 0 || b3 != 0 {
            Some(Effect { kind: kind as u8, param: b3 })
        } else {
            None
        },
    )
}

/// A MOD cell stores a sample number `s` (5 bits, high nibble first), a 12-bit period `p`
/// and an effect `kind` with its parameter: bytes built from them decode to the note of
/// the period, sample `s` - 1 (none for 0), and the effect (none when both are 0).
pub proof fn lemma_mod_cell_fields(s: u8, p: u16, kind: u8, param: u8)
    requires
        s < 32,
        p < 4096,
        kind < 16,
    ensures
        ({
            let b0 = ((s / 16) * 16 + p / 256) as u8;
            let b1 = (p % 256) as u8;
            let b2 = ((s % 16) * 16 + kind) as u8;
            let (cell, sample, effect) = mod_cell(b0, b1, b2, param);
            &&& cell == (if p > 0 {
                match period_pitch(p) {
                    Some(n) => Cell::NoteOn(Note { pitch: n }),
                    None => Cell::Empty,
                }
            } else {
                Cell::Empty
            })
            &&& sample == (if s > 0 { Some((s - 1) as u8) } else { None::<u8> })
            &&& effect == (if kind != 0 || param != 0 { Some(Effect { kind, param }) } else { None::<Effect> })
        }),
{
    let b0 = ((s / 16) * 16 + p / 256) as u8;
    let b2 = ((s % 16) * 16 + kind) as u8;
    assert(b0 / 16 == s / 16 && b0 % 16 == p / 256);
    assert(b2 / 16 == s % 16 && b2 % 16 == kind);
    assert((b0 % 16) * 256 + (p % 256) as u8 == p);
    assert((b0 / 16) * 16 + b2 / 16 == s);
}

/// Decodes one cell of a MOD pattern (see `mod_cell`).
pub fn decode_mod_cell(b0: u8, b1: u8, b2: u8, b3: u8) -> (r: (Cell, Option<u8>, Option<Effect>))
    ensures
        r == mod_cell(b0, b1, b2, b3),
{
    let sample: u8 = (b0 / 16) * 16 + b2 / 16;
    let period: u16 = (b0 % 16) as u16 * 256 + b1 as u16;
    let kind: u8 = b2 % 16;
    let cell = if period > 0 {
        match period_to_pitch(period) {
            Some(p) => Cell::NoteOn(Note { pitch: p }),
            None => Cell::Empty,
        }
    } else {
        Cell::Empty
    };
    let instrument = if sample > 0 {
        Some(sample - 1)
    } else {
        None
    };
    let effect = if kind != 0 || b3 != 0 {
        Some(Effect { kind, param: b3 })
    } else {
        None
    };
    (cell, instrument, effect)
}

/// Whether the tag is the four ASCII characters given by their codes.
pub open spec fn tag_is(t: Seq<u8>, a: u8, b: u8, c: u8, d: u8) -> bool {
    t[0] == a && t[1] == b && t[2] == c && t[3] == d
}

/// The channel count a four-byte format tag gives: "M.K.", "M!K!", "FLT4" and "4CHN"
/// four; "6CHN" six; "8CHN", "FLT8" and "OCTA" eight; "xyCH" the number its first two
/// characters spell (two ASCII digits, or a plus sign and a digit), else four; any other
/// tag none.
pub open spec fn tag_channels(t: Seq<u8>) -> Option<nat> {
    if tag_is(t, 0x4d, 0x2e, 0x4b, 0x2e) || tag_is(t, 0x4d, 0x21, 0x4b, 0x21) || tag_is(t, 0x46, 0x4c, 0x54, 0x34)
        || tag_is(t, 0x34, 0x43, 0x48, 0x4e) {
        Some(4)
    } else if tag_is(t, 0x36, 0x43, 0x48, 0x4e) {
        Some(6)
    } else if tag_is(t, 0x38, 0x43, 0x48, 0x4e) || tag_is(t, 0x46, 0x4c, 0x54, 0x38) || tag_is(t, 0x4f, 0x43, 0x54, 0x41) {
        Some(8)
    } else if t[2] == 0x43 && t[3] == 0x48 {
        Some(
            if 0x30 <= t[0] <= 0x39 && 0x30 <= t[1] <= 0x39 {
                ((t[0] - 0x30) * 10 + (t[1] - 0x30)) as nat
            } else if t[0] == 0x2B && 0x30 <= t[1] <= 0x39 {
                (t[1] - 0x30) as nat
            } else {
                4
            },
        )
    } else {
        None
    }
}

/// Whether four bytes are the given tag, computed.
fn is_tag(t0: u8, t1: u8, t2: u8, t3: u8, a: u8, b: u8, c: u8, d: u8) -> (r: bool)
    ensures
        r == (t0 == a && t1 == b && t2 == c && t3 == d),
{
    t0 == a && t1 == b && t2 == c && t3 == d
}

/// The channel count of a format tag (see `tag_channels`).
pub fn channels_for_tag(t0: u8, t1: u8, t2: u8, t3: u8) -> (r: Option<usize>)
    ensures
        match r {
            Some(n) => tag_channels(seq![t0, t1, t2, t3]) == Some(n as nat) && n <= 99,
            None => tag_channels(seq![t0, t1, t2, t3]) is None,
        },
{
    let ghost t = seq![t0, t1, t2, t3];
    if is_tag(t0, t1, t2, t3, 0x4d, 0x2e, 0x4b, 0x2e) || is_tag(t0, t1, t2, t3, 0x4d, 0x21, 0x4b, 0x21)
        || is_tag(t0, t1, t2, t3, 0x46, 0x4c, 0x54, 0x34) || is_tag(t0, t1, t2, t3, 0x34, 0x43, 0x48, 0x4e) {
        Some(4)
    } else if is_tag(t0, t1, t2, t3, 0x36, 0x43, 0x48, 0x4e) {
        Some(6)
    } else if is_tag(t0, t1, t2, t3, 0x38, 0x43, 0x48, 0x4e) || is_tag(t0, t1, t2, t3, 0x46, 0x4c, 0x54, 0x38)
        || is_tag(t0, t1, t2, t3, 0x4f, 0x43, 0x54, 0x41) {
        Some(8)
    } else if t2 == 0x43 && t3 == 0x48 {
        if 0x30 <= t0 && t0 <= 0x39 && 0x30 <= t1 && t1 <= 0x39 {
            Some(((t0 - 0x30) as usize) * 10 + ((t1 - 0x30) as usize))
        } else if t0 == 0x2B && 0x30 <= t1 && t1 <= 0x39 {
            Some((t1 - 0x30) as usize)
        } else {
            Some(4)
        }
    } else {
        None
    }
}

/// A big-endian 16-bit number at offset `o`.
pub open spec fn be16(d: Seq<u8>, o: int) -> nat {
    (d[o] as nat) * 256 + d[o + 1] as nat
}

/// Where sample header `i` starts: after the 20-byte module name, 30 bytes each.
pub open spec fn header_at(i: int) -> int {
    20 + 30 * i
}

/// The fine tune a header byte holds in its low four bits, as a signed number.
pub open spec fn nibble_finetune(b: u8) -> i8 {
    let n = b % 16;
    if n > 7 {
        (n - 16) as i8
    } else {
        n as i8
    }
}

/// The length in bytes of sample `i`: its header's word count times two.
pub open spec fn sample_len(d: Seq<u8>, i: int) -> nat {
    be16(d, header_at(i) + 22) * 2
}

/// The largest of the first `k` entries of the order table (0 for none).
pub open spec fn order_max_upto(d: Seq<u8>, k: int) -> nat
    decreases k,
{
    if k <= 0 {
        0
    } else {
        let m = order_max_upto(d, k - 1);
        if d[952 + k - 1] as nat > m {
            d[952 + k - 1] as nat
        } else {
            m
        }
    }
}

/// The number of patterns a MOD file holds: one more than the largest entry of its
/// 128-entry order table.
pub open spec fn pattern_count(d: Seq<u8>) -> nat {
    order_max_upto(d, 128) + 1
}

/// Where the cell of pattern `p`, row `row`, channel `c` starts, with `ch` channels.
pub open spec fn cell_offset(ch: nat, p: nat, row: nat, c: nat) -> nat {
    1084 + ((p * 64 + row) * ch + c) * 4
}

/// Where the data of sample `i` starts: after the patterns and the data of the samples
/// before it that have any (more than two bytes).
pub open spec fn sample_offset(d: Seq<u8>, ch: nat, i: int) -> nat
    decreases i,
{
    if i <= 0 {
        1084 + pattern_count(d) * 64 * ch * 4
    } else {
        sample_offset(d, ch, i - 1) + if sample_len(d, i - 1) > 2 {
            sample_len(d, i - 1)
        } else {
            0
        }
    }
}

/// An 8-bit sample byte (two's complement) as a 16-bit sample.
pub open spec fn byte_sample(b: u8) -> i16 {
    ((if b >= 128 {
        b - 256
    } else {
        b as int
    }) * 256) as i16
}

/// One of the 31 samples of a MOD file: its header fields (the name as its 22 bytes) and
/// its data as 16-bit samples.
#[derive(Debug, Clone)]
pub struct ModSample {
    pub name: Vec<u8>,
    pub length: u32,
    pub finetune: i8,
    pub volume: u8,
    pub loop_start: u32,
    pub loop_length: u32,
    pub data: Vec<i16>,
}

/// A pattern of a MOD file, by channel and row: notes, samples, effects.
#[derive(Debug, Clone)]
pub struct ModPattern {
    pub notes: Vec<Vec<Cell>>,
    pub instruments: Vec<Vec<Option<u8>>>,
    pub effects: Vec<Vec<Option<Effect>>>,
}

/// What a MOD file holds.
#[derive(Debug, Clone)]
pub struct ModModule {
    pub samples: Vec<ModSample>,
    pub order: Vec<usize>,
    pub channels: usize,
    pub patterns: Vec<ModPattern>,
}

/// Why bytes are not a MOD file this library reads.
#[derive(Debug, Clone, Copy, PartialEq, Eq, Structural)]
pub enum ModError {
    /// Fewer than the 1084 bytes of the header.
    TooSmall,
    /// The format tag at offset 1080 is none of the known ones.
    UnknownTag(u8, u8, u8, u8),
    /// The file ends before the patterns or the sample data it announces.
    Truncated,
}

/// Sample `s` is sample `i` of the file `d`, whose patterns have `ch` channels.
pub open spec fn sample_from(d: Seq<u8>, ch: nat, i: int, s: ModSample) -> bool {
    let h = header_at(i);
    let len = sample_len(d, i);
    let off = sample_offset(d, ch, i);
    &&& s.name@ == d.subrange(h, h + 22)
    &&& s.length == len
    &&& s.finetune == nibble_finetune(d[h + 24])
    &&& s.volume == d[h + 25]
    &&& s.loop_start == be16(d, h + 26) * 2
    &&& s.loop_length == be16(d, h + 28) * 2
    &&& s.data@ == if len > 2 {
        Seq::new(len, |k: int| byte_sample(d[off + k]))
    } else {
        Seq::empty()
    }
}

/// Pattern `pat` is pattern `p` of the file `d` with `ch` channels.
pub open spec fn pattern_from(d: Seq<u8>, ch: nat, p: nat, pat: ModPattern) -> bool {
    &&& pat.notes@.len() == ch
    &&& pat.instruments@.len() == ch
    &&& pat.effects@.len() == ch
    &&& forall|c: int|
        0 <= c < ch ==> {
            &&& (#[trigger] pat.notes@[c])@.len() == 64
            &&& pat.instruments@[c]@.len() == 64
            &&& pat.effects@[c]@.len() == 64
            &&& forall|row: int|
                0 <= row < 64 ==> {
                    let o = cell_offset(ch, p, row as nat, c as nat) as int;
                    (#[trigger] pat.notes@[c]@[row], pat.instruments@[c]@[row], pat.effects@[c]@[row])
                        == mod_cell(d[o], d[o + 1], d[o + 2], d[o + 3])
                }
        }
}

/// `m` is what the MOD file `d` holds.
pub open spec fn module_from(d: Seq<u8>, m: ModModule) -> bool {
    let ch = tag_channels(d.subrange(1080, 1084))->0;
    &&& m.channels == ch
    &&& m.samples@.len() == 31
    &&& forall|i: int| 0 <= i < 31 ==> sample_from(d, ch, i, #[trigger] m.samples@[i])
    &&& m.order@ == Seq::new(d[950] as nat, |k: int| d[952 + k] as usize)
    &&& m.patterns@.len() == pattern_count(d)
    &&& forall|p: int| 0 <= p < m.patterns@.len() ==> pattern_from(d, ch, p as nat, #[trigger] m.patterns@[p])
}

/// A big-endian 16-bit number at offset `o`, computed.
fn read_be16(data: &[u8], o: usize) -> (r: u32)
    requires
        o + 1 < data@.len(),
    ensures
        r == be16(data@, o as int),
{
    data[o] as u32 * 256 + data[o + 1] as u32
}

/// The bytes `from..to`.
fn copy_bytes(data: &[u8], from: usize, to: usize) -> (r: Vec<u8>)
    requires
        from <= to <= data@.len(),
    ensures
        r@ == data@.subrange(from as int, to as int),
{
    let mut v: Vec<u8> = Vec::new();
    let mut k = from;
    while k < to
        invariant
            from <= k <= to,
            to <= data@.len(),
            v@ == data@.subrange(from as int, k as int),
        decreases to - k,
    {
        v.push(data[k]);
        k = k + 1;
        assert(v@ =~= data@.subrange(from as int, k as int));
    }
    v
}

/// The header of sample `i` (its data left empty).
fn read_sample_header(data: &[u8], i: usize) -> (r: ModSample)
    requires
        data@.len() >= 1084,
        i < 31,
    ensures
        r.name@ == data@.subrange(header_at(i as int), header_at(i as int) + 22),
        r.length == sample_len(data@, i as int),
        r.finetune == nibble_finetune(data@[header_at(i as int) + 24]),
        r.volume == data@[header_at(i as int) + 25],
        r.loop_start == be16(data@, header_at(i as int) + 26) * 2,
        r.loop_length == be16(data@, header_at(i as int) + 28) * 2,
        r.data@ == Seq::<i16>::empty(),
{
    let h = 20 + 30 * i;
    let name = copy_bytes(data, h, h + 22);
    let length = read_be16(data, h + 22) * 2;
    let nib = data[h + 24] % 16;
    let finetune: i8 = if nib > 7 {
        nib as i8 - 16
    } else {
        nib as i8
    };
    ModSample {
        name,
        length,
        finetune,
        volume: data[h + 25],
        loop_start: read_be16(data, h + 26) * 2,
        loop_length: read_be16(data, h + 28) * 2,
        data: Vec::new(),
    }
}

/// The 8-bit sample data at `from..from + len`, as 16-bit samples.
fn read_sample_data(data: &[u8], from: usize, len: usize) -> (r: Vec<i16>)
    requires
        from + len <= data@.len(),
    ensures
        r@ == Seq::new(len as nat, |k: int| byte_sample(data@[from + k])),
{
    let n = data.len();
    let mut v: Vec<i16> = Vec::new();
    let mut k: usize = 0;
    while k < len
        invariant
            k <= len,
            n == data@.len(),
            from + len <= data@.len(),
            v@ == Seq::new(k as nat, |j: int| byte_sample(data@[from + j])),
        decreases len - k,
    {
        let b = data[from + k];
        let s: i16 = if b >= 128 {
            (b as i16 - 256) * 256
        } else {
            b as i16 * 256
        };
        v.push(s);
        k = k + 1;
        assert(v@ =~= Seq::new(k as nat, |j: int| byte_sample(data@[from + j])));
    }
    v
}

/// The number of patterns (see `pattern_count`), computed.
fn count_patterns(data: &[u8]) -> (r: usize)
    requires
        data@.len() >= 1084,
    ensures
        r == pattern_count(data@),
        1 <= r <= 256,
{
    let mut m: u8 = 0;
    let mut k: usize = 0;
    while k < 128
        invariant
            k <= 128,
            data@.len() >= 1084,
            m == order_max_upto(data@, k as int),
        decreases 128 - k,
    {
        if data[952 + k] > m {
            m = data[952 + k];
        }
        k = k + 1;
    }
    m as usize + 1
}

/// Pattern `p` of a file with `ch` channels.
fn read_pattern(data: &[u8], ch: usize, p: usize) -> (r: ModPattern)
    requires
        ch <= 99,
        p < 256,
        1084 + (p + 1) * 64 * ch * 4 <= data@.len(),
    ensures
        pattern_from(data@, ch as nat, p as nat, r),
{
    let n = data.len();
    let mut notes: Vec<Vec<Cell>> = Vec::new();
    let mut instruments: Vec<Vec<Option<u8>>> = Vec::new();
    let mut effects: Vec<Vec<Option<Effect>>> = Vec::new();
    let mut c: usize = 0;
    while c < ch
        invariant
            c <= ch,
            ch <= 99,
            p < 256,
            n == data@.len(),
            1084 + (p + 1) * 64 * ch * 4 <= data@.len(),
            notes@.len() == c,
            instruments@.len() == c,
            effects@.len() == c,
            forall|cc: int|
                0 <= cc < c ==> {
                    &&& (#[trigger] notes@[cc])@.len() == 64
                    &&& instruments@[cc]@.len() == 64
                    &&& effects@[cc]@.len() == 64
                    &&& forall|row: int|
                        0 <= row < 64 ==> {
                            let o = cell_offset(ch as nat, p as nat, row as nat, cc as nat) as int;
                            (#[trigger] notes@[cc]@[row], instruments@[cc]@[row], effects@[cc]@[row])
                                == mod_cell(data@[o], data@[o + 1], data@[o + 2], data@[o + 3])
                        }
                },
        decreases ch - c,
    {
        let mut col_n: Vec<Cell> = Vec::new();
        let mut col_i: Vec<Option<u8>> = Vec::new();
        let mut col_e: Vec<Option<Effect>> = Vec::new();
        let mut row: usize = 0;
        while row < 64
            invariant
                row <= 64,
                c < ch,
                ch <= 99,
                p < 256,
                n == data@.len(),
                1084 + (p + 1) * 64 * ch * 4 <= data@.len(),
                col_n@.len() == row,
                col_i@.len() == row,
                col_e@.len() == row,
                forall|r: int|
                    0 <= r < row ==> {
                        let o = cell_offset(ch as nat, p as nat, r as nat, c as nat) as int;
                        (#[trigger] col_n@[r], col_i@[r], col_e@[r]) == mod_cell(
                            data@[o],
                            data@[o + 1],
                            data@[o + 2],
                            data@[o + 3],
                        )
                    },
            decreases 64 - row,
        {
            assert(((p * 64 + row) * ch + c) * 4 + 4 <= (p + 1) * 64 * ch * 4) by (nonlinear_arith)
                requires
                    row < 64,
                    c < ch;
            let o = 1084 + ((p * 64 + row) * ch + c) * 4;
            let (cell, inst, eff) = decode_mod_cell(data[o], data[o + 1], data[o + 2], data[o + 3]);
            col_n.push(cell);
            col_i.push(inst);
            col_e.push(eff);
            row = row + 1;
        }
        notes.push(col_n);
        instruments.push(col_i);
        effects.push(col_e);
        c = c + 1;
    }
    ModPattern { notes, instruments, effects }
}

/// What the MOD file `data` holds, or why it is not one this library reads: fewer than
/// 1084 bytes, an unknown format tag, or too few bytes for its patterns and sample data.
/// The play order is the first entries of the order table, as many as the song length
/// at offset 950 says (at most 128).
pub fn parse_mod(data: &[u8]) -> (r: Result<ModModule, ModError>)
    requires
        data@.len() >= 1084 ==> data@[950] <= 128,
    ensures
        data@.len() < 1084 ==> r == Err::<ModModule, ModError>(ModError::TooSmall),
        data@.len() >= 1084 ==> match tag_channels(data@.subrange(1080, 1084)) {
            None => r == Err::<ModModule, ModError>(
                ModError::UnknownTag(data@[1080], data@[1081], data@[1082], data@[1083]),
            ),
            Some(ch) => if data@.len() < sample_offset(data@, ch, 31) {
                r == Err::<ModModule, ModError>(ModError::Truncated)
            } else {
                r matches Ok(m) && module_from(data@, m)
            },
        },
{
    if data.len() < 1084 {
        return Err(ModError::TooSmall);
    }
    let n = data.len();
    let ghost d = data@;
    assert(data@.subrange(1080, 1084) =~= seq![data@[1080], data@[1081], data@[1082], data@[1083]]);
    let ch = match channels_for_tag(data[1080], data[1081], data[1082], data[1083]) {
        Some(c) => c,
        None => {
            return Err(ModError::UnknownTag(data[1080], data[1081], data[1082], data[1083]));
        },
    };
    let pc = count_patterns(data);
    assert(pc * 64 * ch * 4 <= 256 * 64 * 99 * 4) by (nonlinear_arith)
        requires
            pc <= 256,
            ch <= 99;
    let base: usize = 1084 + pc * 64 * ch * 4;
    let mut total: usize = base;
    let mut i: usize = 0;
    while i < 31
        invariant
            i <= 31,
            n == data@.len(),
            data@.len() >= 1084,
            total == sample_offset(data@, ch as nat, i as int),
            total <= base + i * 131070,
            base == 1084 + pc * 64 * ch * 4,
            base <= 1084 + 256 * 64 * 99 * 4,
            pc == pattern_count(data@),
        decreases 31 - i,
    {
        let len = read_be16(data, 20 + 30 * i + 22) as usize * 2;
        if len > 2 {
            total = total + len;
        }
        i = i + 1;
    }
    if n < total {
        return Err(ModError::Truncated);
    }
    let mut order: Vec<usize> = Vec::new();
    let song_length = data[950] as usize;
    let mut k: usize = 0;
    while k < song_length
        invariant
            k <= song_length,
            song_length == data@[950],
            song_length <= 128,
            n == data@.len(),
            data@.len() >= 1084,
            order@ == Seq::new(k as nat, |j: int| data@[952 + j] as usize),
        decreases song_length - k,
    {
        order.push(data[952 + k] as usize);
        k = k + 1;
        assert(order@ =~= Seq::new(k as nat, |j: int| data@[952 + j] as usize));
    }
    proof {
        lemma_sample_offset_mono(data@, ch as nat, 0, 31);
    }
    let mut patterns: Vec<ModPattern> = Vec::new();
    let mut p: usize = 0;
    while p < pc
        invariant
            p <= pc,
            pc <= 256,
            ch <= 99,
            pc == pattern_count(data@),
            n == data@.len(),
            base == 1084 + pc * 64 * ch * 4,
            base <= n,
            patterns@.len() == p,
            forall|q: int| 0 <= q < p ==> pattern_from(data@, ch as nat, q as nat, #[trigger] patterns@[q]),
        decreases pc - p,
    {
        assert(1084 + (p + 1) * 64 * ch * 4 <= 1084 + pc * 64 * ch * 4) by (nonlinear_arith)
            requires
                p < pc;
        let pat = read_pattern(data, ch, p);
        patterns.push(pat);
        p = p + 1;
    }
    let mut samples: Vec<ModSample> = Vec::new();
    let mut offset: usize = base;
    let mut i: usize = 0;
    while i < 31
        invariant
            i <= 31,
            n == data@.len(),
            data@.len() >= 1084,
            offset == sample_offset(data@, ch as nat, i as int),
            offset <= base + i * 131070,
            base == 1084 + pc * 64 * ch * 4,
            base <= 1084 + 256 * 64 * 99 * 4,
            pc == pattern_count(data@),
            sample_offset(data@, ch as nat, 31) <= n,
            samples@.len() == i,
            forall|j: int| 0 <= j < i ==> sample_from(data@, ch as nat, j, #[trigger] samples@[j]),
        decreases 31 - i,
    {
        proof {
            lemma_sample_offset_mono(data@, ch as nat, i as int + 1, 31);
        }
        let mut s = read_sample_header(data, i);
        let len = s.length as usize;
        if len > 2 {
            s.data = read_sample_data(data, offset, len);
            offset = offset + len;
        }
        samples.push(s);
        i = i + 1;
    }
    let m = ModModule { samples, order, channels: ch, patterns };
    assert(m.channels == tag_channels(data@.subrange(1080, 1084))->0);
    Ok(m)
}

/// The sample data of later samples starts no earlier.
proof fn lemma_sample_offset_mono(d: Seq<u8>, ch: nat, i: int, j: int)
    requires
        0 <= i <= j,
    ensures
        sample_offset(d, ch, i) <= sample_offset(d, ch, j),
    decreases j - i,
{
    if i < j {
        lemma_sample_offset_mono(d, ch, i, j - 1);
    }
}

} // verus!