//! Track settings that the editor and the player share: waveform kinds, filter kinds,
//! and point envelopes that advance tick by tick.
use vstd::prelude::*;

verus! {

/// The sound source of a track: a loaded sample or a generated waveform.
#[derive(Debug, Clone, Copy, PartialEq, Eq, Structural)]
pub enum WaveformKind {
    Sample,
    Sine,
    Triangle,
    Square,
    Saw,
    Noise,
}

/// The short label of a waveform kind.
pub open spec fn waveform_label(w: WaveformKind) -> Seq<char> {
    match w {
        WaveformKind::Sample => "Sample"@,
        WaveformKind::Sine => "Sine"@,
        WaveformKind::Triangle => "Tri"@,
        WaveformKind::Square => "Sqr"@,
        WaveformKind::Saw => "Saw"@,
        WaveformKind::Noise => "Noise"@,
    }
}

impl WaveformKind {
    /// The short label shown in the track settings.
    pub fn label(self) -> (r: &'static str)
        ensures
            r@ == waveform_label(self),
    {
        proof {
            reveal_strlit("Sample");
            reveal_strlit("Sine");
            reveal_strlit("Tri");
            reveal_strlit("Sqr");
            reveal_strlit("Saw");
            reveal_strlit("Noise");
        }
        match self {
            WaveformKind::Sample => "Sample",
            WaveformKind::Sine => "Sine",
            WaveformKind::Triangle => "Tri",
            WaveformKind::Square => "Sqr",
            WaveformKind::Saw => "Saw",
            WaveformKind::Noise => "Noise",
        }
    }
}

/// The response of a track's filter.
#[derive(Debug, Clone, Copy, PartialEq, Eq, Structural)]
pub enum FilterType {
    LowPass,
    HighPass,
    BandPass,
}

/// The short label of a filter type.
pub open spec fn filter_label(f: FilterType) -> Seq<char> {
    match f {
        FilterType::LowPass => "LP"@,
        FilterType::HighPass => "HP"@,
        FilterType::BandPass => "BP"@,
    }
}

impl FilterType {
    /// The short label shown in the filter settings.
    pub fn label(self) -> (r: &'static str)
        ensures
            r@ == filter_label(self),
    {
        proof {
            reveal_strlit("LP");
            reveal_strlit("HP");
            reveal_strlit("BP");
        }
        match self {
            FilterType::LowPass => "LP",
            FilterType::HighPass => "HP",
            FilterType::BandPass => "BP",
        }
    }
}

impl Default for FilterType {
    /// A low-pass filter.
    fn default() -> (r: FilterType)
        ensures
            r == FilterType::LowPass,
    {
        FilterType::LowPass
    }
}

/// An envelope of (tick, level) points; levels run from 0 to 64. A note holds at the
/// sustain point until it is released, and a loop sends it back from the loop's end
/// point to its start point.
#[derive(Debug, Clone)]
pub struct VolEnvelope {
    pub points: Vec<(u16, u16)>,
    pub sustain_point: Option<usize>,
    pub loop_range: Option<(usize, usize)>,
    pub enabled: bool,
}

/// The tick after `tick` on an envelope: held at the sustain point's tick while the note
/// is not released and has reached it; sent back to the loop start's tick once past the
/// loop end's tick; else one more.
pub open spec fn next_tick(env: VolEnvelope, tick: u16, released: bool) -> u16 {
    let next = tick + 1;
    let pts = env.points@;
    let held = match env.sustain_point {
        Some(s) => !released && s < pts.len() && next >= pts[s as int].0,
        None => false,
    };
    let looped = match env.loop_range {
        Some((ls, le)) => ls < pts.len() && le < pts.len() && next > pts[le as int].0,
        None => false,
    };
    if held {
        pts[env.sustain_point->0 as int].0
    } else if looped {
        let (ls, le) = env.loop_range->0;
        pts[ls as int].0
    } else {
        next as u16
    }
}

impl VolEnvelope {
    /// An envelope that is off: one point at full level, no sustain, no loop.
    pub fn disabled() -> (r: VolEnvelope)
        ensures
            r.points@ == seq![(0u16, 64u16)],
            r.sustain_point is None,
            r.loop_range is None,
            !r.enabled,
    {
        let mut points = Vec::new();
        points.push((0u16, 64u16));
        assert(points@ =~= seq![(0u16, 64u16)]);
        VolEnvelope { points, sustain_point: None, loop_range: None, enabled: false }
    }

    /// The envelope new tracks start with (off until enabled): full level, down to
    /// silence at tick 9 where it sustains, silent to tick 96.
    pub fn default_preset() -> (r: VolEnvelope)
        ensures
            r.points@ == seq![(0u16, 64u16), (9u16, 0u16), (96u16, 0u16)],
            r.sustain_point == Some(1usize),
            r.loop_range is None,
            !r.enabled,
    {
        let mut points = Vec::new();
        points.push((0u16, 64u16));
        points.push((9u16, 0u16));
        points.push((96u16, 0u16));
        assert(points@ =~= seq![(0u16, 64u16), (9u16, 0u16), (96u16, 0u16)]);
        VolEnvelope { points, sustain_point: Some(1), loop_range: None, enabled: false }
    }

    /// The tick that follows `current_tick` (see `next_tick`).
    pub fn advance_tick(&self, current_tick: u16, note_released: bool) -> (r: u16)
        requires
            current_tick < u16::MAX,
        ensures
            r == next_tick(*self, current_tick, note_released),
    {
        let next = current_tick + 1;
        if !note_released {
            match self.sustain_point {
                Some(sus_idx) => {
                    if sus_idx < self.points.len() && next >= self.points[sus_idx].0 {
                        return self.points[sus_idx].0;
                    }
                },
                None => {},
            }
        }
        match self.loop_range {
            Some((loop_start, loop_end)) => {
                if loop_start < self.points.len() && loop_end < self.points.len() {
                    let loop_end_tick = self.points[loop_end].0;
                    if next > loop_end_tick {
                        return self.points[loop_start].0;
                    }
                }
            },
            None => {},
        }
        next
    }
}

/// How many notes a track plays at once unless set otherwise.
pub fn default_polyphony() -> (r: u8)
    ensures
        r == 1,
{
    1
}

/// The sample slot a track plays `pitch` with: with both a note map and samples, the
/// map's entry for the pitch (its last entry for pitches past its end), if that slot
/// exists; otherwise none, and the track plays its own sample.
pub open spec fn sample_slot(note_to_sample: Seq<u8>, sample_count: nat, pitch: u8) -> Option<usize> {
    if note_to_sample.len() > 0 && sample_count > 0 {
        let k = if (pitch as int) < note_to_sample.len() {
            pitch as int
        } else {
            note_to_sample.len() - 1
        };
        if (note_to_sample[k] as nat) < sample_count {
            Some(note_to_sample[k] as usize)
        } else {
            None
        }
    } else {
        None
    }
}

/// The sample slot for `pitch` (see `sample_slot`).
pub fn sample_index_for_note(note_to_sample: &Vec<u8>, sample_count: usize, pitch: u8) -> (r: Option<usize>)
    ensures
        r == sample_slot(note_to_sample@, sample_count as nat, pitch),
{
    if note_to_sample.len() > 0 && sample_count > 0 {
        let last = note_to_sample.len() - 1;
        let k = if (pitch as usize) < last {
            pitch as usize
        } else {
            last
        };
        let slot = note_to_sample[k] as usize;
        if slot < sample_count {
            return Some(slot);
        }
    }
    None
}

} // verus!
