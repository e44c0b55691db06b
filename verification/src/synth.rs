//! The waveforms of the single-pattern synthesizer.
use vstd::prelude::*;

verus! {

/// A generated waveform.
#[derive(Debug, Clone, Copy, PartialEq, Eq, Structural)]
pub enum Waveform {
    Sine,
    Triangle,
    Square,
    Saw,
    Noise,
}

/// The three-letter name of a waveform.
pub open spec fn waveform_name(w: Waveform) -> Seq<char> {
    match w {
        Waveform::Sine => "SIN"@,
        Waveform::Triangle => "TRI"@,
        Waveform::Square => "SQR"@,
        Waveform::Saw => "SAW"@,
        Waveform::Noise => "NOS"@,
    }
}

/// The position of a waveform in the cycle sine, triangle, square, saw, noise.
pub open spec fn waveform_pos(w: Waveform) -> int {
    match w {
        Waveform::Sine => 0,
        Waveform::Triangle => 1,
        Waveform::Square => 2,
        Waveform::Saw => 3,
        Waveform::Noise => 4,
    }
}

impl Waveform {
    /// The three-letter name shown for the waveform.
    pub fn name(self) -> (r: &'static str)
        ensures
            r@ == waveform_name(self),
    {
        proof {
            reveal_strlit("SIN");
            reveal_strlit("TRI");
            reveal_strlit("SQR");
            reveal_strlit("SAW");
            reveal_strlit("NOS");
        }
        match self {
            Waveform::Sine => "SIN",
            Waveform::Triangle => "TRI",
            Waveform::Square => "SQR",
            Waveform::Saw => "SAW",
            Waveform::Noise => "NOS",
        }
    }

    /// The next waveform in the cycle, noise wrapping to sine.
    pub fn next(self) -> (r: Waveform)
        ensures
            waveform_pos(r) == (waveform_pos(self) + 1) % 5,
    {
        match self {
            Waveform::Sine => Waveform::Triangle,
            Waveform::Triangle => Waveform::Square,
            Waveform::Square => Waveform::Saw,
            Waveform::Saw => Waveform::Noise,
            Waveform::Noise => Waveform::Sine,
        }
    }

    /// The previous waveform in the cycle, sine wrapping to noise.
    pub fn prev(self) -> (r: Waveform)
        ensures
            waveform_pos(r) == (waveform_pos(self) + 4) % 5,
    {
        match self {
            Waveform::Sine => Waveform::Noise,
            Waveform::Triangle => Waveform::Sine,
            Waveform::Square => Waveform::Triangle,
            Waveform::Saw => Waveform::Square,
            Waveform::Noise => Waveform::Saw,
        }
    }
}

/// Law: stepping a waveform forward and then back gives it again, and the other way round.
pub proof fn lemma_waveform_next_prev(w: Waveform, a: Waveform, b: Waveform)
    requires
        waveform_pos(a) == (waveform_pos(w) + 1) % 5,
        waveform_pos(b) == (waveform_pos(w) + 4) % 5,
    ensures
        (waveform_pos(a) + 4) % 5 == waveform_pos(w),
        (waveform_pos(b) + 1) % 5 == waveform_pos(w),
{
}

} // verus!
