//! Patterns: per-track grids of note cells, with their timing settings.
use vstd::prelude::*;

use crate::text::{push_signed, signed_decimal};

verus! {

/// The colors a pattern or group can be marked with in the arranger.
#[derive(Debug, Clone, Copy, PartialEq, Eq, Structural)]
pub enum PatternColor {
    Coral,
    Amber,
    Lime,
    Teal,
    Sky,
    Indigo,
    Violet,
    Rose,
    Mint,
    Slate,
}

/// The colors in menu order.
pub open spec fn color_at(i: int) -> PatternColor {
    if i == 0 {
        PatternColor::Coral
    } else if i == 1 {
        PatternColor::Amber
    } else if i == 2 {
        PatternColor::Lime
    } else if i == 3 {
        PatternColor::Teal
    } else if i == 4 {
        PatternColor::Sky
    } else if i == 5 {
        PatternColor::Indigo
    } else if i == 6 {
        PatternColor::Violet
    } else if i == 7 {
        PatternColor::Rose
    } else if i == 8 {
        PatternColor::Mint
    } else {
        PatternColor::Slate
    }
}

/// The display name of a color.
pub open spec fn color_label(c: PatternColor) -> Seq<char> {
    match c {
        PatternColor::Coral => "Coral"@,
        PatternColor::Amber => "Amber"@,
        PatternColor::Lime => "Lime"@,
        PatternColor::Teal => "Teal"@,
        PatternColor::Sky => "Sky"@,
        PatternColor::Indigo => "Indigo"@,
        PatternColor::Violet => "Violet"@,
        PatternColor::Rose => "Rose"@,
        PatternColor::Mint => "Mint"@,
        PatternColor::Slate => "Slate"@,
    }
}

/// The red, green and blue components of a color.
pub open spec fn color_rgb(c: PatternColor) -> (u8, u8, u8) {
    match c {
        PatternColor::Coral => (235, 110, 95),
        PatternColor::Amber => (230, 180, 70),
        PatternColor::Lime => (140, 200, 80),
        PatternColor::Teal => (70, 190, 175),
        PatternColor::Sky => (90, 170, 230),
        PatternColor::Indigo => (110, 120, 210),
        PatternColor::Violet => (170, 110, 210),
        PatternColor::Rose => (210, 110, 170),
        PatternColor::Mint => (110, 210, 170),
        PatternColor::Slate => (140, 150, 170),
    }
}

/// `fastrand::usize(..n)`: a random index below `n` from the thread-local generator.
/// The crate panics on an empty range, so `n` must be positive; the result is below `n`,
/// and nothing else is claimed of it.
#[verifier::external_body]
fn random_below(n: usize) -> (r: usize)
    requires
        n > 0,
    ensures
        r < n,
{
    fastrand::usize(..n)
}

impl PatternColor {
    /// The number of colors.
    pub const COUNT: usize = 10;

    /// The color at position `i` of the menu order.
    pub fn from_index(i: usize) -> (r: Option<PatternColor>)
        ensures
            i < 10 ==> r == Some(color_at(i as int)),
            i >= 10 ==> r is None,
    {
        match i {
            0 => Some(PatternColor::Coral),
            1 => Some(PatternColor::Amber),
            2 => Some(PatternColor::Lime),
            3 => Some(PatternColor::Teal),
            4 => Some(PatternColor::Sky),
            5 => Some(PatternColor::Indigo),
            6 => Some(PatternColor::Violet),
            7 => Some(PatternColor::Rose),
            8 => Some(PatternColor::Mint),
            9 => Some(PatternColor::Slate),
            _ => None,
        }
    }

    /// All colors, in menu order.
    pub fn all() -> (r: Vec<PatternColor>)
        ensures
            r@.len() == 10,
            forall|i: int| 0 <= i < 10 ==> r@[i] == color_at(i),
    {
        let mut v: Vec<PatternColor> = Vec::new();
        let mut i: usize = 0;
        while i < 10
            invariant
                i <= 10,
                v@.len() == i,
                forall|j: int| 0 <= j < i ==> v@[j] == color_at(j),
            decreases 10 - i,
        {
            match PatternColor::from_index(i) {
                Some(c) => v.push(c),
                None => {},
            }
            i = i + 1;
        }
        v
    }

    /// A color picked at random.
    pub fn random() -> (r: PatternColor)
        ensures
            exists|i: int| 0 <= i < 10 && r == color_at(i),
    {
        let i = random_below(10);
        match PatternColor::from_index(i) {
            Some(c) => c,
            None => PatternColor::Slate,
        }
    }

    /// The red, green and blue components the color is drawn with.
    pub fn rgb(self) -> (r: (u8, u8, u8))
        ensures
            r == color_rgb(self),
    {
        match self {
            PatternColor::Coral => (235, 110, 95),
            PatternColor::Amber => (230, 180, 70),
            PatternColor::Lime => (140, 200, 80),
            PatternColor::Teal => (70, 190, 175),
            PatternColor::Sky => (90, 170, 230),
            PatternColor::Indigo => (110, 120, 210),
            PatternColor::Violet => (170, 110, 210),
            PatternColor::Rose => (210, 110, 170),
            PatternColor::Mint => (110, 210, 170),
            PatternColor::Slate => (140, 150, 170),
        }
    }

    /// The display name of the color.
    pub fn label(self) -> (r: &'static str)
        ensures
            r@ == color_label(self),
    {
        proof {
            reveal_strlit("Coral");
            reveal_strlit("Amber");
            reveal_strlit("Lime");
            reveal_strlit("Teal");
            reveal_strlit("Sky");
            reveal_strlit("Indigo");
            reveal_strlit("Violet");
            reveal_strlit("Rose");
            reveal_strlit("Mint");
            reveal_strlit("Slate");
        }
        match self {
            PatternColor::Coral => "Coral",
            PatternColor::Amber => "Amber",
            PatternColor::Lime => "Lime",
            PatternColor::Teal => "Teal",
            PatternColor::Sky => "Sky",
            PatternColor::Indigo => "Indigo",
            PatternColor::Violet => "Violet",
            PatternColor::Rose => "Rose",
            PatternColor::Mint => "Mint",
            PatternColor::Slate => "Slate",
        }
    }
}

/// A MIDI note number.
#[derive(Debug, Clone, Copy, PartialEq, Eq, Structural)]
pub struct Note {
    pub pitch: u8,
}

/// The two-character name of a pitch class ("C-", "C#", ...).
pub open spec fn pitch_class_name(k: int) -> Seq<char> {
    if k == 0 {
        "C-"@
    } else if k == 1 {
        "C#"@
    } else if k == 2 {
        "D-"@
    } else if k == 3 {
        "D#"@
    } else if k == 4 {
        "E-"@
    } else if k == 5 {
        "F-"@
    } else if k == 6 {
        "F#"@
    } else if k == 7 {
        "G-"@
    } else if k == 8 {
        "G#"@
    } else if k == 9 {
        "A-"@
    } else if k == 10 {
        "A#"@
    } else {
        "B-"@
    }
}

/// The tracker name of a pitch: its pitch class and its octave, where MIDI note 60 is "C-4".
pub open spec fn note_name(pitch: u8) -> Seq<char> {
    pitch_class_name((pitch % 12) as int) + signed_decimal(pitch / 12 - 1)
}

/// The name of pitch class `k`, as a literal.
pub(crate) fn pitch_class_str(k: u8) -> (r: &'static str)
    requires
        k < 12,
    ensures
        r@ == pitch_class_name(k as int),
{
    proof {
        reveal_strlit("C-");
        reveal_strlit("C#");
        reveal_strlit("D-");
        reveal_strlit("D#");
        reveal_strlit("E-");
        reveal_strlit("F-");
        reveal_strlit("F#");
        reveal_strlit("G-");
        reveal_strlit("G#");
        reveal_strlit("A-");
        reveal_strlit("A#");
        reveal_strlit("B-");
    }
    match k {
        0 => "C-",
        1 => "C#",
        2 => "D-",
        3 => "D#",
        4 => "E-",
        5 => "F-",
        6 => "F#",
        7 => "G-",
        8 => "G#",
        9 => "A-",
        10 => "A#",
        _ => "B-",
    }
}

impl Note {
    /// A note of the given pitch, limited to the MIDI range.
    pub fn new(pitch: u8) -> (r: Note)
        ensures
            r.pitch == if pitch < 127 { pitch } else { 127u8 },
    {
        Note { pitch: if pitch < 127 { pitch } else { 127 } }
    }

    /// The note's name, such as "C-4" for pitch 60 or "C#-1" for pitch 1.
    pub fn name(self) -> (r: String)
        ensures
            r@ == note_name(self.pitch),
    {
        let mut s = String::new();
        s.append(pitch_class_str(self.pitch % 12));
        let octave: i64 = (self.pitch / 12) as i64 - 1;
        push_signed(&mut s, octave);
        s
    }
}

/// An effect command of a cell: its kind and parameter.
#[derive(Debug, Clone, Copy, PartialEq, Eq, Structural)]
pub struct Effect {
    pub kind: u8,
    pub param: u8,
}

/// One cell of a pattern.
#[derive(Debug, Clone, Copy, PartialEq, Eq, Structural)]
pub enum Cell {
    Empty,
    NoteOn(Note),
    NoteOff,
}

/// The greatest common divisor, by Euclid's algorithm.
pub open spec fn gcd_spec(a: nat, b: nat) -> nat
    decreases b,
{
    if b == 0 {
        a
    } else {
        gcd_spec(b, a % b)
    }
}

proof fn lemma_gcd_positive(a: nat, b: nat)
    requires
        a > 0 || b > 0,
    ensures
        gcd_spec(a, b) > 0,
    decreases b,
{
    if b > 0 {
        lemma_gcd_positive(b, a % b);
    }
}

fn gcd(a: usize, b: usize) -> (r: usize)
    ensures
        r == gcd_spec(a as nat, b as nat),
    decreases b,
{
    if b == 0 {
        a
    } else {
        gcd(b, a % b)
    }
}

/// The least divisor of `n` that is at least `d`, or `n` when there is none below `n`.
pub open spec fn least_factor_from(n: nat, d: nat) -> nat
    decreases n - d,
{
    if d >= n {
        n
    } else if n % d == 0 {
        d
    } else {
        least_factor_from(n, d + 1)
    }
}

/// The smallest prime factor of `n`: its least divisor above 1 (`n` itself for 0 and 1).
pub open spec fn least_factor(n: nat) -> nat {
    if n <= 1 {
        n
    } else {
        least_factor_from(n, 2)
    }
}

proof fn lemma_least_factor_from(n: nat, d: nat, f: nat)
    requires
        2 <= d <= f <= n,
        n % f == 0,
        forall|k: nat| d <= k < f ==> #[trigger] (n % k) != 0,
    ensures
        least_factor_from(n, d) == f,
    decreases f - d,
{
    if d < f {
        lemma_least_factor_from(n, d + 1, f);
    }
}

/// An odd number has no even divisor.
proof fn lemma_odd_no_even_divisor(n: nat, k: nat)
    requires
        n % 2 == 1,
        k >= 2,
        k % 2 == 0,
    ensures
        n % k != 0,
{
    if n % k == 0 {
        let q = n / k;
        assert(n == k * q) by (nonlinear_arith)
            requires n % k == 0, k > 0, q == n / k;
        let h = k / 2;
        assert(k == 2 * h);
        assert(n == 2 * (h * q)) by (nonlinear_arith)
            requires n == k * q, k == 2 * h;
        assert(false);
    }
}

/// The least divisor above 1 of a number is at most its square root, unless it is the number itself.
proof fn lemma_small_divisor(n: nat, k: nat)
    requires
        2 <= k < n,
        n % k == 0,
    ensures
        exists|j: nat| 2 <= j <= k && j * j <= n && #[trigger] (n % j) == 0,
{
    let q = n / k;
    assert(n == k * q) by (nonlinear_arith)
        requires n % k == 0, k > 0, q == n / k;
    assert(q >= 2) by (nonlinear_arith)
        requires n == k * q, k < n, k >= 2;
    if k * k <= n {
        assert(2 <= k <= k && k * k <= n && n % k == 0);
    } else {
        assert(q < k) by (nonlinear_arith)
            requires n == k * q, k * k > n, k >= 2, q >= 2;
        assert(q * q <= n) by (nonlinear_arith)
            requires n == k * q, q < k, q >= 2;
        assert(n % q == 0) by (nonlinear_arith)
            requires n == k * q, q >= 2;
        assert(2 <= q <= k && q * q <= n && n % q == 0);
    }
}

fn smallest_prime_factor(n: usize) -> (r: usize)
    requires
        n < 65536,
    ensures
        r == least_factor(n as nat),
{
    if n <= 1 {
        return n;
    }
    if n % 2 == 0 {
        proof {
            lemma_least_factor_from(n as nat, 2, 2);
        }
        return 2;
    }
    let mut i: usize = 3;
    while i <= n / i
        invariant
            3 <= i <= 257,
            i % 2 == 1,
            n < 65536,
            n % 2 == 1,
            forall|k: nat| 2 <= k < i ==> #[trigger] (n as nat % k) != 0,
        decreases 257 - i,
    {
        assert(i * i <= n) by (nonlinear_arith)
            requires i <= n / i, i > 0;
        assert(i <= n) by (nonlinear_arith)
            requires i * i <= n, i > 0;
        if n % i == 0 {
            proof {
                lemma_least_factor_from(n as nat, 2, i as nat);
            }
            return i;
        }
        proof {
            assert forall|k: nat| 2 <= k < i + 2 implies #[trigger] (n as nat % k) != 0 by {
                if k == i + 1 {
                    lemma_odd_no_even_divisor(n as nat, k);
                }
            }
        }
        assert(i <= 255) by (nonlinear_arith)
            requires i * i <= n, n < 65536, i > 0;
        i = i + 2;
    }
    assert(i * i > n) by (nonlinear_arith)
        requires i > n / i, i > 0;
    proof {
        assert forall|k: nat| 2 <= k < n implies #[trigger] (n as nat % k) != 0 by {
            if n as nat % k == 0 {
                lemma_small_divisor(n as nat, k);
                let j = choose|j: nat| 2 <= j <= k && j * j <= n && #[trigger] (n as nat % j) == 0;
                if j < i {
                } else {
                    assert(j * j >= i * i) by (nonlinear_arith)
                        requires j >= i;
                }
            }
        }
        lemma_least_factor_from(n as nat, 2, n as nat);
    }
    n
}

/// Rows per measure of a track with the given note value and time signature:
/// note value times numerator over denominator, but at least one.
pub open spec fn rows_per_measure_spec(note_value: u8, numerator: u8, denominator: u8) -> nat {
    let q = (note_value as nat * numerator as nat) / (denominator as nat);
    if q >= 1 {
        q
    } else {
        1
    }
}

/// A column of `n` empty cells.
pub open spec fn empty_column(n: nat) -> Seq<Cell> {
    Seq::new(n, |i: int| Cell::Empty)
}

/// The column `s` cut or padded with empty cells to length `n`.
pub open spec fn resized_column(s: Seq<Cell>, n: nat) -> Seq<Cell> {
    if n <= s.len() {
        s.take(n as int)
    } else {
        s + empty_column((n - s.len()) as nat)
    }
}

/// The note values `s` cut or extended with `last` to `n` tracks.
pub open spec fn resized_note_values(s: Seq<u8>, n: nat, last: u8) -> Seq<u8> {
    if n <= s.len() {
        s.take(n as int)
    } else {
        s + Seq::new((n - s.len()) as nat, |i: int| last)
    }
}

/// The last note value of `s`, or `default` when there is none.
pub open spec fn last_note_value(s: Seq<u8>, default: u8) -> u8 {
    if s.len() > 0 {
        s.last()
    } else {
        default
    }
}

/// Every voice of a track fitted to `n` rows.
pub open spec fn resized_voices(voices: Seq<Seq<Cell>>, n: nat) -> Seq<Seq<Cell>> {
    voices.map_values(|v: Seq<Cell>| resized_column(v, n))
}

/// The voices of a track after asking for `count` of them: new ones are empty columns of
/// `rows` rows; surplus ones are dropped, but never the last one.
pub open spec fn voices_with_count(voices: Seq<Seq<Cell>>, count: nat, rows: nat) -> Seq<Seq<Cell>> {
    if count > voices.len() {
        voices + Seq::new((count - voices.len()) as nat, |i: int| empty_column(rows))
    } else if count < voices.len() && count >= 1 {
        voices.take(count as int)
    } else {
        voices
    }
}

/// A pattern: for each track a set of voices, each a column of cells, with the
/// timing settings that decide how many rows each track has.
#[derive(Debug, Clone)]
pub struct Pattern {
    pub name: String,
    pub color: Option<PatternColor>,
    pub repeat: u16,
    pub rows: usize,
    pub bpm: u16,
    pub time_sig_numerator: u8,
    pub time_sig_denominator: u8,
    pub note_value: u8,
    pub measures: u8,
    pub track_note_values: Vec<u8>,
    pub data: Vec<Vec<Vec<Cell>>>,
}

impl Pattern {
    /// The cells of the pattern: track, voice, row.
    pub open spec fn grid(self) -> Seq<Seq<Seq<Cell>>> {
        self.data@.map_values(|ch: Vec<Vec<Cell>>| ch@.map_values(|v: Vec<Cell>| v@))
    }

    /// All settings other than the cells are those of `other`.
    pub open spec fn same_settings(self, other: Pattern) -> bool {
        &&& self.name@ == other.name@
        &&& self.color == other.color
        &&& self.repeat == other.repeat
        &&& self.rows == other.rows
        &&& self.bpm == other.bpm
        &&& self.time_sig_numerator == other.time_sig_numerator
        &&& self.time_sig_denominator == other.time_sig_denominator
        &&& self.note_value == other.note_value
        &&& self.measures == other.measures
        &&& self.track_note_values@ == other.track_note_values@
    }

    /// The pattern has the same content as `other`.
    pub open spec fn same_as(self, other: Pattern) -> bool {
        self.same_settings(other) && self.grid() == other.grid()
    }

    /// The note value of track `ch`: its own where it has one, else the pattern's.
    pub open spec fn track_nv(self, ch: int) -> u8 {
        if 0 <= ch < self.track_note_values@.len() {
            self.track_note_values@[ch]
        } else {
            self.note_value
        }
    }

    /// Rows per measure of track `ch`.
    pub open spec fn rpm_for_track(self, ch: int) -> nat {
        rows_per_measure_spec(self.track_nv(ch), self.time_sig_numerator, self.time_sig_denominator)
    }

    /// The number of rows track `ch` should have: rows per measure times measures.
    pub open spec fn rows_for_track(self, ch: int) -> nat {
        self.rpm_for_track(ch) * self.measures as nat
    }

    /// The largest row count among the first `k` tracks.
    pub open spec fn max_rows_upto(self, k: nat) -> nat
        decreases k,
    {
        if k == 0 {
            0
        } else {
            let m = self.max_rows_upto((k - 1) as nat);
            let r = self.rows_for_track(k - 1);
            if m >= r {
                m
            } else {
                r
            }
        }
    }

    /// The number of rows the pattern should have: that of its longest track, or,
    /// without per-track note values, rows per measure times measures.
    pub open spec fn computed_rows_spec(self) -> nat {
        if self.track_note_values@.len() == 0 {
            rows_per_measure_spec(self.note_value, self.time_sig_numerator, self.time_sig_denominator)
                * self.measures as nat
        } else {
            self.max_rows_upto(self.track_note_values@.len())
        }
    }

    /// The rows track `ch` has now: the length of its first voice, else the pattern's rows.
    pub open spec fn track_rows_spec(self, ch: int) -> nat {
        if 0 <= ch < self.data@.len() && self.data@[ch]@.len() > 0 {
            self.data@[ch]@[0]@.len()
        } else {
            self.rows as nat
        }
    }

    /// Every voice of every track has exactly as many rows as its track's first voice,
    /// and every track has at least one voice.
    pub open spec fn well_shaped(self) -> bool {
        forall|ch: int| 0 <= ch < self.data@.len() ==> #[trigger] self.data@[ch]@.len() >= 1
    }

    /// `after` is this pattern with one more track: with the note value of the last track
    /// (or the pattern's), holding one empty voice of the rows that note value calls for;
    /// its rows are those of its longest track.
    pub open spec fn with_channel_added(self, after: Pattern) -> bool {
        let nv = last_note_value(self.track_note_values@, self.note_value);
        &&& after.track_note_values@ == self.track_note_values@.push(nv)
        &&& after.grid() == self.grid().push(
            seq![
                empty_column(
                    rows_per_measure_spec(nv, self.time_sig_numerator, self.time_sig_denominator)
                        * self.measures as nat,
                ),
            ],
        )
        &&& after.rows == after.computed_rows_spec()
        &&& after.name@ == self.name@
        &&& after.color == self.color
        &&& after.repeat == self.repeat
        &&& after.bpm == self.bpm
        &&& after.time_sig_numerator == self.time_sig_numerator
        &&& after.time_sig_denominator == self.time_sig_denominator
        &&& after.note_value == self.note_value
        &&& after.measures == self.measures
    }

    /// `after` is this pattern without track `idx` (and its note value, if it has one);
    /// its rows are those of its longest remaining track.
    pub open spec fn with_channel_removed(self, idx: int, after: Pattern) -> bool {
        &&& after.grid() == self.grid().remove(idx)
        &&& after.track_note_values@ == if idx < self.track_note_values@.len() {
            self.track_note_values@.remove(idx)
        } else {
            self.track_note_values@
        }
        &&& after.rows == after.computed_rows_spec()
        &&& after.name@ == self.name@
        &&& after.color == self.color
        &&& after.repeat == self.repeat
        &&& after.bpm == self.bpm
        &&& after.time_sig_numerator == self.time_sig_numerator
        &&& after.time_sig_denominator == self.time_sig_denominator
        &&& after.note_value == self.note_value
        &&& after.measures == self.measures
    }

    /// Builds the grid of `channels` tracks of one empty voice of `rows` rows.
    fn empty_grid(channels: usize, rows: usize) -> (r: Vec<Vec<Vec<Cell>>>)
        ensures
            r@.len() == channels,
            forall|c: int|
                0 <= c < channels ==> #[trigger] r@[c]@.len() == 1 && r@[c]@[0]@ == empty_column(
                    rows as nat,
                ),
    {
        let mut data: Vec<Vec<Vec<Cell>>> = Vec::new();
        let mut c: usize = 0;
        while c < channels
            invariant
                c <= channels,
                data@.len() == c,
                forall|k: int|
                    0 <= k < c ==> #[trigger] data@[k]@.len() == 1 && data@[k]@[0]@
                        == empty_column(rows as nat),
            decreases channels - c,
        {
            let col = vec![Cell::Empty; rows];
            assert(col@ =~= empty_column(rows as nat));
            let mut voices: Vec<Vec<Cell>> = Vec::new();
            voices.push(col);
            assert(voices@.len() == 1 && voices@[0]@ == empty_column(rows as nat));
            let ghost before = data@;
            data.push(voices);
            assert(forall|k: int| 0 <= k < c ==> data@[k] == before[k]);
            assert(data@[c as int] == voices);
            c = c + 1;
        }
        data
    }

    /// A pattern of `channels` tracks with one empty voice of `rows` rows each,
    /// at 120 BPM in 4/4 with sixteenth notes, one measure, played once.
    pub fn new(name: String, channels: usize, rows: usize) -> (r: Pattern)
        ensures
            r.name@ == name@,
            r.color is None,
            r.repeat == 1,
            r.rows == rows,
            r.bpm == 120,
            r.time_sig_numerator == 4,
            r.time_sig_denominator == 4,
            r.note_value == 16,
            r.measures == 1,
            r.track_note_values@ == Seq::new(channels as nat, |i: int| 16u8),
            r.grid() == Seq::new(
                channels as nat,
                |c: int| seq![empty_column(rows as nat)],
            ),
    {
        let tnv = vec![16u8; channels];
        let data = Self::empty_grid(channels, rows);
        let r = Pattern {
            name,
            color: None,
            repeat: 1,
            rows,
            bpm: 120,
            time_sig_numerator: 4,
            time_sig_denominator: 4,
            note_value: 16,
            measures: 1,
            track_note_values: tnv,
            data,
        };
        assert(r.track_note_values@ =~= Seq::new(channels as nat, |i: int| 16u8));
        assert(r.grid() =~= Seq::new(channels as nat, |c: int| seq![empty_column(rows as nat)])) by {
            assert forall|c: int| 0 <= c < channels implies r.grid()[c] =~= seq![
                empty_column(rows as nat),
            ] by {
                assert(r.data@[c]@.len() == 1);
            }
        }
        r
    }

    /// Rows per measure for a note value and time signature.
    fn rows_per_measure_static(note_value: u8, numerator: u8, denominator: u8) -> (r: usize)
        requires
            denominator > 0,
        ensures
            r == rows_per_measure_spec(note_value, numerator, denominator),
            1 <= r <= 65025,
    {
        assert(note_value as nat * numerator as nat <= 65025) by (nonlinear_arith)
            requires note_value <= 255, numerator <= 255;
        let prod: usize = note_value as usize * numerator as usize;
        let q = prod / denominator as usize;
        assert(q <= prod) by (nonlinear_arith)
            requires q as nat == prod as nat / denominator as nat, denominator >= 1;
        if q >= 1 {
            q
        } else {
            1
        }
    }

    /// Rows per measure of the pattern's own note value.
    pub fn rows_per_measure(&self) -> (r: usize)
        requires
            self.time_sig_denominator > 0,
        ensures
            r == rows_per_measure_spec(
                self.note_value,
                self.time_sig_numerator,
                self.time_sig_denominator,
            ),
            1 <= r <= 65025,
    {
        Self::rows_per_measure_static(
            self.note_value,
            self.time_sig_numerator,
            self.time_sig_denominator,
        )
    }

    /// Rows per measure of track `ch`.
    pub fn rows_per_measure_for_track(&self, ch: usize) -> (r: usize)
        requires
            self.time_sig_denominator > 0,
        ensures
            r == self.rpm_for_track(ch as int),
            1 <= r <= 65025,
    {
        let nv = if ch < self.track_note_values.len() {
            self.track_note_values[ch]
        } else {
            self.note_value
        };
        Self::rows_per_measure_static(nv, self.time_sig_numerator, self.time_sig_denominator)
    }

    /// The number of rows the pattern should have.
    pub fn computed_rows(&self) -> (r: usize)
        requires
            self.time_sig_denominator > 0,
        ensures
            r == self.computed_rows_spec(),
    {
        if self.track_note_values.len() == 0 {
            let rpm = self.rows_per_measure();
            assert(rpm * self.measures as nat <= 65025 * 255) by (nonlinear_arith)
                requires rpm <= 65025, self.measures <= 255;
            return rpm * self.measures as usize;
        }
        let mut best: usize = 0;
        let mut ch: usize = 0;
        while ch < self.track_note_values.len()
            invariant
                self.time_sig_denominator > 0,
                ch <= self.track_note_values@.len(),
                best == self.max_rows_upto(ch as nat),
            decreases self.track_note_values@.len() - ch,
        {
            let r = self.computed_rows_for_track(ch);
            if r > best {
                best = r;
            }
            ch = ch + 1;
        }
        best
    }

    /// The number of rows track `ch` should have.
    pub fn computed_rows_for_track(&self, ch: usize) -> (r: usize)
        requires
            self.time_sig_denominator > 0,
        ensures
            r == self.rows_for_track(ch as int),
            r <= 65025 * 255,
    {
        let rpm = self.rows_per_measure_for_track(ch);
        assert(rpm * self.measures as nat <= 65025 * 255) by (nonlinear_arith)
            requires rpm <= 65025, self.measures <= 255;
        rpm * self.measures as usize
    }

    /// The number of rows track `ch` has now.
    pub fn track_rows(&self, ch: usize) -> (r: usize)
        ensures
            r == self.track_rows_spec(ch as int),
    {
        if ch < self.data.len() && self.data[ch].len() > 0 {
            self.data[ch][0].len()
        } else {
            self.rows
        }
    }

    /// The number of rows between primary beat markers on track `ch`:
    /// rows per measure over their greatest common divisor with the numerator.
    pub fn primary_row_group_for_track(&self, ch: usize) -> (r: usize)
        requires
            self.time_sig_denominator > 0,
        ensures
            r == self.rpm_for_track(ch as int) / gcd_spec(
                self.rpm_for_track(ch as int),
                self.time_sig_numerator as nat,
            ),
            1 <= r <= 65025,
    {
        let rpm = self.rows_per_measure_for_track(ch);
        let num = self.time_sig_numerator as usize;
        let g = gcd(rpm, num);
        proof {
            lemma_gcd_positive(rpm as nat, num as nat);
            lemma_gcd_le(rpm as nat, num as nat);
        }
        assert(rpm / g >= 1 && rpm / g <= rpm) by (nonlinear_arith)
            requires g >= 1, g <= rpm, rpm >= 1;
        rpm / g
    }

    /// The number of rows between secondary beat markers on track `ch`: the primary group
    /// over its smallest prime factor, or 0 when the primary group is prime or at most 1.
    pub fn secondary_row_group_for_track(&self, ch: usize) -> (r: usize)
        requires
            self.time_sig_denominator > 0,
        ensures
            ({
                let p = self.rpm_for_track(ch as int) / gcd_spec(
                    self.rpm_for_track(ch as int),
                    self.time_sig_numerator as nat,
                );
                r == if p <= 1 {
                    0
                } else if least_factor(p) < p {
                    p / least_factor(p)
                } else {
                    0
                }
            }),
    {
        let primary = self.primary_row_group_for_track(ch);
        if primary <= 1 {
            return 0;
        }
        let spf = smallest_prime_factor(primary);
        proof {
            lemma_least_factor_bounds(primary as nat);
        }
        if spf < primary {
            primary / spf
        } else {
            0
        }
    }

    /// The cell at track `channel`, voice `voice`, row `row`.
    pub fn get(&self, channel: usize, voice: usize, row: usize) -> (r: Cell)
        requires
            channel < self.data@.len(),
            voice < self.data@[channel as int]@.len(),
            row < self.data@[channel as int]@[voice as int]@.len(),
        ensures
            r == self.grid()[channel as int][voice as int][row as int],
    {
        self.data[channel][voice][row]
    }

    /// Writes the cell at track `channel`, voice `voice`, row `row`.
    pub fn set(&mut self, channel: usize, voice: usize, row: usize, cell: Cell)
        requires
            channel < old(self).data@.len(),
            voice < old(self).data@[channel as int]@.len(),
            row < old(self).data@[channel as int]@[voice as int]@.len(),
        ensures
            final(self).same_settings(*old(self)),
            final(self).grid() == old(self).grid().update(
                channel as int,
                old(self).grid()[channel as int].update(
                    voice as int,
                    old(self).grid()[channel as int][voice as int].update(row as int, cell),
                ),
            ),
    {
        self.data[channel][voice][row] = cell;
        assert(self.grid() =~= old(self).grid().update(
            channel as int,
            old(self).grid()[channel as int].update(
                voice as int,
                old(self).grid()[channel as int][voice as int].update(row as int, cell),
            ),
        )) by {
            assert(self.grid()[channel as int] =~= old(self).grid()[channel as int].update(
                voice as int,
                old(self).grid()[channel as int][voice as int].update(row as int, cell),
            ));
        }
    }

    /// Empties the cell at track `channel`, voice `voice`, row `row`; a voice the
    /// track does not have is left alone.
    pub fn clear(&mut self, channel: usize, voice: usize, row: usize)
        requires
            channel < old(self).data@.len(),
            voice < old(self).data@[channel as int]@.len() ==> row < old(
                self,
            ).data@[channel as int]@[voice as int]@.len(),
        ensures
            final(self).same_settings(*old(self)),
            voice < old(self).data@[channel as int]@.len() ==> final(self).grid() == old(
                self,
            ).grid().update(
                channel as int,
                old(self).grid()[channel as int].update(
                    voice as int,
                    old(self).grid()[channel as int][voice as int].update(row as int, Cell::Empty),
                ),
            ),
            voice >= old(self).data@[channel as int]@.len() ==> final(self).grid() == old(
                self,
            ).grid(),
    {
        if voice < self.data[channel].len() {
            self.set(channel, voice, row, Cell::Empty);
        }
    }

    /// A pattern for `channels` tracks with the settings of `source`: its tempo, time
    /// signature, note value, measures, repeat count and color, and its per-track note
    /// values (the last one, or the pattern's, repeated for tracks it lacks). Each track
    /// gets one empty voice of the rows its note value calls for.
    pub fn new_from(source: &Pattern, name: String, channels: usize) -> (r: Pattern)
        requires
            source.time_sig_denominator > 0,
        ensures
            r.name@ == name@,
            r.color == source.color,
            r.repeat == source.repeat,
            r.bpm == source.bpm,
            r.time_sig_numerator == source.time_sig_numerator,
            r.time_sig_denominator == source.time_sig_denominator,
            r.note_value == source.note_value,
            r.measures == source.measures,
            r.track_note_values@ == resized_note_values(
                source.track_note_values@,
                channels as nat,
                last_note_value(source.track_note_values@, source.note_value),
            ),
            r.grid().len() == channels,
            forall|c: int|
                0 <= c < channels ==> #[trigger] r.grid()[c] == seq![
                    empty_column(r.rows_for_track(c)),
                ],
            channels > 0 ==> r.rows == r.computed_rows_spec(),
            channels == 0 ==> r.rows == 1,
    {
        let mut track_nvs = source.track_note_values.clone();
        assert(track_nvs@ =~= source.track_note_values@);
        let last_nv = if track_nvs.len() > 0 {
            track_nvs[track_nvs.len() - 1]
        } else {
            source.note_value
        };
        track_nvs.resize(channels, last_nv);
        assert(track_nvs@ =~= resized_note_values(
            source.track_note_values@,
            channels as nat,
            last_nv,
        ));
        let mut r = Pattern {
            name,
            color: source.color,
            repeat: source.repeat,
            rows: 1,
            bpm: source.bpm,
            time_sig_numerator: source.time_sig_numerator,
            time_sig_denominator: source.time_sig_denominator,
            note_value: source.note_value,
            measures: source.measures,
            track_note_values: track_nvs,
            data: Vec::new(),
        };
        let ghost proto = r;
        let mut max_rows: usize = 0;
        let mut c: usize = 0;
        while c < channels
            invariant
                c <= channels,
                proto.track_note_values@.len() == channels,
                proto.time_sig_denominator > 0,
                r.data@.len() == c,
                r.same_settings(proto),
                max_rows == proto.max_rows_upto(c as nat),
                forall|k: int|
                    0 <= k < c ==> (#[trigger] r.data@[k])@.len() == 1 && r.data@[k]@[0]@
                        == empty_column(proto.rows_for_track(k)),
            decreases channels - c,
        {
            let ch_rows = proto_rows(&r, c);
            assert(ch_rows == proto.rows_for_track(c as int)) by {
                lemma_same_settings_rows(r, proto, 0);
            }
            let col = vec![Cell::Empty; ch_rows];
            assert(col@ =~= empty_column(ch_rows as nat));
            let mut voices: Vec<Vec<Cell>> = Vec::new();
            voices.push(col);
            r.data.push(voices);
            if ch_rows > max_rows {
                max_rows = ch_rows;
            }
            c = c + 1;
        }
        if channels == 0 {
            r.rows = 1;
        } else {
            r.rows = max_rows;
        }
        proof {
            lemma_grid_of(r);
            lemma_same_settings_rows(r, proto, channels as nat);
            assert forall|k: int| 0 <= k < channels implies #[trigger] r.grid()[k] == seq![
                empty_column(r.rows_for_track(k)),
            ] by {
                assert(r.grid()[k] =~= seq![empty_column(r.rows_for_track(k))]);
            }
        }
        r
    }

    /// Sets the number of voices of track `channel`: new voices are empty and as long as
    /// the track; voices are dropped from the end, but the track keeps at least one.
    pub fn set_voice_count(&mut self, channel: usize, count: usize)
        requires
            channel < old(self).data@.len(),
        ensures
            final(self).same_settings(*old(self)),
            final(self).grid() == old(self).grid().update(
                channel as int,
                voices_with_count(
                    old(self).grid()[channel as int],
                    count as nat,
                    old(self).track_rows_spec(channel as int),
                ),
            ),
    {
        let ch_rows = self.track_rows(channel);
        let current = self.data[channel].len();
        let ghost d0 = self.data@;
        proof {
            lemma_grid_of(*old(self));
        }
        if count > current {
            let mut k: usize = current;
            while k < count
                invariant
                    current <= k <= count,
                    channel < d0.len(),
                    current == d0[channel as int]@.len(),
                    self.same_settings(*old(self)),
                    self.data@.len() == d0.len(),
                    forall|j: int| 0 <= j < d0.len() && j != channel ==> #[trigger] self.data@[j] == d0[j],
                    self.data@[channel as int]@.len() == k,
                    forall|w: int| 0 <= w < current ==> #[trigger] self.data@[channel as int]@[w] == d0[channel as int]@[w],
                    forall|w: int| current <= w < k ==> (#[trigger] self.data@[channel as int]@[w])@ == empty_column(ch_rows as nat),
                decreases count - k,
            {
                let col = vec![Cell::Empty; ch_rows];
                assert(col@ =~= empty_column(ch_rows as nat));
                self.data[channel].push(col);
                k = k + 1;
            }
        } else if count < current && count >= 1 {
            self.data[channel].truncate(count);
        }
        proof {
            lemma_grid_of(*self);
            let target = voices_with_count(
                old(self).grid()[channel as int],
                count as nat,
                old(self).track_rows_spec(channel as int),
            );
            assert(self.grid()[channel as int] =~= target);
            assert(self.grid() =~= old(self).grid().update(channel as int, target));
        }
    }

    /// Fits every voice to its track's rows: those its note value calls for, or
    /// `new_max_rows` for tracks without a note value of their own; then sets the
    /// pattern's rows to `new_max_rows`.
    pub fn resize(&mut self, new_max_rows: usize)
        requires
            old(self).time_sig_denominator > 0 || old(self).data@.len() == 0
                || old(self).track_note_values@.len() == 0,
        ensures
            final(self).rows == new_max_rows,
            final(self).name@ == old(self).name@,
            final(self).color == old(self).color,
            final(self).repeat == old(self).repeat,
            final(self).bpm == old(self).bpm,
            final(self).time_sig_numerator == old(self).time_sig_numerator,
            final(self).time_sig_denominator == old(self).time_sig_denominator,
            final(self).note_value == old(self).note_value,
            final(self).measures == old(self).measures,
            final(self).track_note_values@ == old(self).track_note_values@,
            final(self).grid().len() == old(self).grid().len(),
            forall|ch: int|
                0 <= ch < old(self).grid().len() ==> #[trigger] final(self).grid()[ch]
                    == resized_voices(
                    old(self).grid()[ch],
                    if ch < old(self).track_note_values@.len() {
                        old(self).rows_for_track(ch)
                    } else {
                        new_max_rows as nat
                    },
                ),
    {
        let ghost d0 = self.data@;
        let mut ch: usize = 0;
        while ch < self.data.len()
            invariant
                ch <= self.data@.len(),
                self.same_settings(*old(self)),
                d0 == old(self).data@,
                self.data@.len() == d0.len(),
                old(self).time_sig_denominator > 0 || old(self).data@.len() == 0
                    || old(self).track_note_values@.len() == 0,
                forall|k: int|
                    0 <= k < ch ==> (#[trigger] self.data@[k])@.len() == d0[k]@.len() && forall|w: int|
                        0 <= w < d0[k]@.len() ==> (#[trigger] self.data@[k]@[w])@ == resized_column(
                            d0[k]@[w]@,
                            if k < old(self).track_note_values@.len() {
                                old(self).rows_for_track(k)
                            } else {
                                new_max_rows as nat
                            },
                        ),
                forall|k: int| ch <= k < d0.len() ==> #[trigger] self.data@[k] == d0[k],
            decreases self.data@.len() - ch,
        {
            let ch_rows = if ch < self.track_note_values.len() {
                self.computed_rows_for_track(ch)
            } else {
                new_max_rows
            };
            assert(ch_rows == if ch < old(self).track_note_values@.len() {
                old(self).rows_for_track(ch as int)
            } else {
                new_max_rows as nat
            }) by {
                lemma_same_settings_rows(*self, *old(self), 0);
            }
            let mut v: usize = 0;
            while v < self.data[ch].len()
                invariant
                    ch < self.data@.len(),
                    self.same_settings(*old(self)),
                    self.data@.len() == d0.len(),
                    self.data@[ch as int]@.len() == d0[ch as int]@.len(),
                    v <= d0[ch as int]@.len(),
                    forall|k: int|
                        0 <= k < ch ==> (#[trigger] self.data@[k])@.len() == d0[k]@.len() && forall|w: int|
                            0 <= w < d0[k]@.len() ==> (#[trigger] self.data@[k]@[w])@ == resized_column(
                                d0[k]@[w]@,
                                if k < old(self).track_note_values@.len() {
                                    old(self).rows_for_track(k)
                                } else {
                                    new_max_rows as nat
                                },
                            ),
                    forall|k: int| ch < k < d0.len() ==> #[trigger] self.data@[k] == d0[k],
                    forall|w: int|
                        0 <= w < v ==> (#[trigger] self.data@[ch as int]@[w])@ == resized_column(
                            d0[ch as int]@[w]@,
                            ch_rows as nat,
                        ),
                    forall|w: int|
                        v <= w < d0[ch as int]@.len() ==> #[trigger] self.data@[ch as int]@[w]
                            == d0[ch as int]@[w],
                    d0 == old(self).data@,
                decreases d0[ch as int]@.len() - v,
            {
                self.data[ch][v].resize(ch_rows, Cell::Empty);
                proof {
                    let nv = self.data@[ch as int]@[v as int]@;
                    let ov = d0[ch as int]@[v as int]@;
                    if ch_rows > ov.len() {
                        assert(nv =~= resized_column(ov, ch_rows as nat));
                    } else {
                        assert(nv =~= resized_column(ov, ch_rows as nat));
                    }
                }
                v = v + 1;
            }
            ch = ch + 1;
        }
        self.rows = new_max_rows;
        proof {
            lemma_grid_of(*self);
            lemma_grid_of(*old(self));
            assert forall|k: int| 0 <= k < old(self).grid().len() implies #[trigger] self.grid()[k]
                == resized_voices(
                old(self).grid()[k],
                if k < old(self).track_note_values@.len() {
                    old(self).rows_for_track(k)
                } else {
                    new_max_rows as nat
                },
            ) by {
                assert(self.grid()[k] =~= resized_voices(
                    old(self).grid()[k],
                    if k < old(self).track_note_values@.len() {
                        old(self).rows_for_track(k)
                    } else {
                        new_max_rows as nat
                    },
                ));
            }
        }
    }

    /// Fits the voices of track `ch` to the rows its note value calls for, and sets the
    /// pattern's rows to those of its longest track.
    pub fn resize_track(&mut self, ch: usize)
        requires
            ch < old(self).data@.len(),
            old(self).time_sig_denominator > 0,
        ensures
            final(self).rows == old(self).computed_rows_spec(),
            final(self).name@ == old(self).name@,
            final(self).color == old(self).color,
            final(self).repeat == old(self).repeat,
            final(self).bpm == old(self).bpm,
            final(self).time_sig_numerator == old(self).time_sig_numerator,
            final(self).time_sig_denominator == old(self).time_sig_denominator,
            final(self).note_value == old(self).note_value,
            final(self).measures == old(self).measures,
            final(self).track_note_values@ == old(self).track_note_values@,
            final(self).grid() == old(self).grid().update(
                ch as int,
                resized_voices(old(self).grid()[ch as int], old(self).rows_for_track(ch as int)),
            ),
    {
        let ch_rows = self.computed_rows_for_track(ch);
        let ghost d0 = self.data@;
        let mut v: usize = 0;
        while v < self.data[ch].len()
            invariant
                ch < self.data@.len(),
                self.same_settings(*old(self)),
                d0 == old(self).data@,
                self.data@.len() == d0.len(),
                self.data@[ch as int]@.len() == d0[ch as int]@.len(),
                v <= d0[ch as int]@.len(),
                forall|k: int| 0 <= k < d0.len() && k != ch ==> #[trigger] self.data@[k] == d0[k],
                forall|w: int|
                    0 <= w < v ==> (#[trigger] self.data@[ch as int]@[w])@ == resized_column(
                        d0[ch as int]@[w]@,
                        ch_rows as nat,
                    ),
                forall|w: int|
                    v <= w < d0[ch as int]@.len() ==> #[trigger] self.data@[ch as int]@[w]
                        == d0[ch as int]@[w],
            decreases d0[ch as int]@.len() - v,
        {
            self.data[ch][v].resize(ch_rows, Cell::Empty);
            proof {
                let nv = self.data@[ch as int]@[v as int]@;
                let ov = d0[ch as int]@[v as int]@;
                assert(nv =~= resized_column(ov, ch_rows as nat));
            }
            v = v + 1;
        }
        let ghost before_rows = *self;
        self.rows = self.computed_rows();
        proof {
            lemma_same_settings_rows(*self, before_rows, 0);
            lemma_same_settings_rows(*self, *old(self), 0);
            lemma_grid_of(*self);
            lemma_grid_of(*old(self));
            let target = resized_voices(old(self).grid()[ch as int], ch_rows as nat);
            assert(self.grid()[ch as int] =~= target);
            assert(self.grid() =~= old(self).grid().update(ch as int, target));
        }
    }

    /// Adds a track with the note value of the last track (or the pattern's), holding one
    /// empty voice of the rows that note value calls for; the pattern's rows become those
    /// of its longest track.
    pub fn add_channel(&mut self)
        requires
            old(self).time_sig_denominator > 0,
        ensures
            old(self).with_channel_added(*final(self)),
    {
        let last_nv = if self.track_note_values.len() > 0 {
            self.track_note_values[self.track_note_values.len() - 1]
        } else {
            self.note_value
        };
        self.track_note_values.push(last_nv);
        let rpm = Self::rows_per_measure_static(
            last_nv,
            self.time_sig_numerator,
            self.time_sig_denominator,
        );
        assert(rpm * self.measures as nat <= 65025 * 255) by (nonlinear_arith)
            requires rpm <= 65025, self.measures <= 255;
        let ch_rows = rpm * self.measures as usize;
        let col = vec![Cell::Empty; ch_rows];
        assert(col@ =~= empty_column(ch_rows as nat));
        let mut voices: Vec<Vec<Cell>> = Vec::new();
        voices.push(col);
        self.data.push(voices);
        let ghost before_rows = *self;
        self.rows = self.computed_rows();
        proof {
            lemma_same_settings_rows(*self, before_rows, 0);
            lemma_grid_of(*self);
            lemma_grid_of(*old(self));
            let target = seq![empty_column(ch_rows as nat)];
            assert(self.grid()[old(self).grid().len() as int] =~= target);
            assert(self.grid() =~= old(self).grid().push(target));
        }
    }

    /// Removes track `idx`, unless it is the only one or does not exist; the pattern's
    /// rows become those of its longest remaining track.
    pub fn remove_channel(&mut self, idx: usize)
        requires
            idx < old(self).data@.len() && old(self).data@.len() > 1 ==> old(self).time_sig_denominator > 0,
        ensures
            idx < old(self).data@.len() && old(self).data@.len() > 1 ==> old(self).with_channel_removed(
                idx as int,
                *final(self),
            ),
            !(idx < old(self).data@.len() && old(self).data@.len() > 1) ==> *final(self) == *old(self),
    {
        if idx < self.data.len() && self.data.len() > 1 {
            self.data.remove(idx);
            if idx < self.track_note_values.len() {
                self.track_note_values.remove(idx);
            }
            let ghost before_rows = *self;
            self.rows = self.computed_rows();
            proof {
                lemma_same_settings_rows(*self, before_rows, 0);
                lemma_grid_of(*self);
                lemma_grid_of(*old(self));
                assert(self.grid() =~= old(self).grid().remove(idx as int));
            }
        }
    }

    /// A copy of the cells, track by track and voice by voice.
    pub fn copy_data(&self) -> (r: Vec<Vec<Vec<Cell>>>)
        ensures
            r@.map_values(|ch: Vec<Vec<Cell>>| ch@.map_values(|v: Vec<Cell>| v@)) == self.grid(),
    {
        let mut data: Vec<Vec<Vec<Cell>>> = Vec::new();
        let mut c: usize = 0;
        while c < self.data.len()
            invariant
                c <= self.data@.len(),
                data@.len() == c,
                forall|k: int|
                    0 <= k < c ==> (#[trigger] data@[k])@.map_values(|v: Vec<Cell>| v@)
                        == self.grid()[k],
            decreases self.data@.len() - c,
        {
            let mut voices: Vec<Vec<Cell>> = Vec::new();
            let mut v: usize = 0;
            while v < self.data[c].len()
                invariant
                    c < self.data@.len(),
                    v <= self.data@[c as int]@.len(),
                    voices@.len() == v,
                    forall|w: int| 0 <= w < v ==> #[trigger] voices@[w]@ == self.grid()[c as int][w],
                decreases self.data@[c as int]@.len() - v,
            {
                let col = self.data[c][v].clone();
                assert(col@ =~= self.data@[c as int]@[v as int]@);
                voices.push(col);
                v = v + 1;
            }
            assert(voices@.map_values(|v: Vec<Cell>| v@) =~= self.grid()[c as int]);
            data.push(voices);
            c = c + 1;
        }
        assert(data@.map_values(|ch: Vec<Vec<Cell>>| ch@.map_values(|v: Vec<Cell>| v@)) =~= self.grid());
        data
    }

    /// A copy of the pattern, cell for cell.
    pub fn duplicate(&self) -> (r: Pattern)
        ensures
            r.same_as(*self),
    {
        let data = self.copy_data();
        let r = Pattern {
            name: self.name.clone(),
            color: self.color,
            repeat: self.repeat,
            rows: self.rows,
            bpm: self.bpm,
            time_sig_numerator: self.time_sig_numerator,
            time_sig_denominator: self.time_sig_denominator,
            note_value: self.note_value,
            measures: self.measures,
            track_note_values: self.track_note_values.clone(),
            data,
        };
        assert(r.track_note_values@ =~= self.track_note_values@);
        assert(r.grid() =~= self.grid());
        r
    }

    /// The number of voices of track `channel`.
    pub fn voice_count(&self, channel: usize) -> (r: usize)
        requires
            channel < self.data@.len(),
        ensures
            r == self.grid()[channel as int].len(),
    {
        self.data[channel].len()
    }
}

/// The rows track `ch` calls for (a plain function, so that loops may call it on a
/// pattern they are building).
fn proto_rows(p: &Pattern, ch: usize) -> (r: usize)
    requires
        p.time_sig_denominator > 0,
    ensures
        r == p.rows_for_track(ch as int),
{
    p.computed_rows_for_track(ch)
}

/// How the grid of a pattern is read off its vectors.
pub proof fn lemma_grid_of(p: Pattern)
    ensures
        p.grid().len() == p.data@.len(),
        forall|c: int| 0 <= c < p.data@.len() ==> (#[trigger] p.grid()[c]).len() == p.data@[c]@.len(),
        forall|c: int, v: int|
            0 <= c < p.data@.len() && 0 <= v < p.data@[c]@.len() ==> #[trigger] p.grid()[c][v]
                == p.data@[c]@[v]@,
{
}

/// Patterns with the same meter and note values call for the same rows on every track.
pub proof fn lemma_same_settings_rows(a: Pattern, b: Pattern, k: nat)
    requires
        a.track_note_values@ == b.track_note_values@,
        a.note_value == b.note_value,
        a.time_sig_numerator == b.time_sig_numerator,
        a.time_sig_denominator == b.time_sig_denominator,
        a.measures == b.measures,
    ensures
        forall|c: int| #[trigger] a.rows_for_track(c) == b.rows_for_track(c),
        a.max_rows_upto(k) == b.max_rows_upto(k),
        a.computed_rows_spec() == b.computed_rows_spec(),
    decreases k,
{
    assert forall|c: int| #[trigger] a.rows_for_track(c) == b.rows_for_track(c) by {
        assert(a.track_nv(c) == b.track_nv(c));
    }
    if k > 0 {
        lemma_same_settings_rows(a, b, (k - 1) as nat);
    }
    lemma_same_settings_max(a, b, a.track_note_values@.len());
}

proof fn lemma_same_settings_max(a: Pattern, b: Pattern, k: nat)
    requires
        a.track_note_values@ == b.track_note_values@,
        a.note_value == b.note_value,
        a.time_sig_numerator == b.time_sig_numerator,
        a.time_sig_denominator == b.time_sig_denominator,
        a.measures == b.measures,
    ensures
        a.max_rows_upto(k) == b.max_rows_upto(k),
    decreases k,
{
    if k > 0 {
        assert(a.track_nv(k - 1) == b.track_nv(k - 1));
        lemma_same_settings_max(a, b, (k - 1) as nat);
    }
}

/// A gcd of a positive number is at most that number.
proof fn lemma_gcd_le(a: nat, b: nat)
    requires
        a > 0,
    ensures
        gcd_spec(a, b) <= a,
    decreases b,
{
    if b > 0 {
        lemma_gcd_divides_first(b, a % b);
        let g = gcd_spec(b, a % b);
        lemma_gcd_positive(b, a % b);
        // g divides b and a % b, so it divides a
        assert(b % g == 0);
        assert((a % b) % g == 0);
        let q = a / b;
        assert(a == b * q + a % b) by (nonlinear_arith)
            requires b > 0, q == a / b;
        assert(a % g == 0) by {
            lemma_divides_sum(b, q, a % b, g);
        }
        assert(g <= a) by (nonlinear_arith)
            requires a % g == 0, a > 0, g > 0;
    }
}

/// Euclid's gcd divides both of its arguments.
proof fn lemma_gcd_divides_first(a: nat, b: nat)
    requires
        a > 0 || b > 0,
    ensures
        a % gcd_spec(a, b) == 0,
        b % gcd_spec(a, b) == 0,
    decreases b,
{
    lemma_gcd_positive(a, b);
    if b > 0 {
        lemma_gcd_divides_first(b, a % b);
        let g = gcd_spec(b, a % b);
        let q = a / b;
        assert(a == b * q + a % b) by (nonlinear_arith)
            requires b > 0, q == a / b;
        lemma_divides_sum(b, q, a % b, g);
    }
}

/// If `g` divides `b` and `r`, it divides `b * q + r`.
proof fn lemma_divides_sum(b: nat, q: nat, r: nat, g: nat)
    requires
        g > 0,
        b % g == 0,
        r % g == 0,
    ensures
        (b * q + r) % g == 0,
{
    let b1 = b / g;
    let r1 = r / g;
    assert(b == g * b1) by (nonlinear_arith)
        requires b % g == 0, g > 0, b1 == b / g;
    assert(r == g * r1) by (nonlinear_arith)
        requires r % g == 0, g > 0, r1 == r / g;
    assert(b * q + r == g * (b1 * q + r1)) by (nonlinear_arith)
        requires b == g * b1, r == g * r1;
    assert((g * (b1 * q + r1)) % g == 0) by (nonlinear_arith)
        requires g > 0;
}

/// The least factor of a number above 1 lies between 2 and the number, and divides it.
proof fn lemma_least_factor_bounds(n: nat)
    requires
        n >= 2,
    ensures
        2 <= least_factor(n) <= n,
        n % least_factor(n) == 0,
{
    lemma_least_factor_from_bounds(n, 2);
}

proof fn lemma_least_factor_from_bounds(n: nat, d: nat)
    requires
        2 <= d <= n,
    ensures
        d <= least_factor_from(n, d) <= n,
        n % least_factor_from(n, d) == 0,
    decreases n - d,
{
    if d < n && n % d != 0 {
        lemma_least_factor_from_bounds(n, d + 1);
    }
    if d >= n {
        assert(n % n == 0) by (nonlinear_arith)
            requires n > 0;
    }
}

} // verus!
