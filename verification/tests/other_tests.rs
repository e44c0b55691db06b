use psikat::app::playback::PlaybackState;
use psikat::app::scale::{map_key_index_to_note, ScaleIndex};
use psikat::app::{Cursor, SubColumn};
use psikat::audio::mixer::PatternSnapshot;
use psikat::audio::sequencer::{
    continue_position, entry_or, initial_track_row, next_order_index, step_track_row, voice_count,
};
use psikat::editor::{selection_bounds, SettingsField};
use psikat::keys::key_to_note;
use psikat::project::channel::{
    default_polyphony, sample_index_for_note, FilterType, VolEnvelope, WaveformKind,
};
use psikat::project::file::{frame, unframe, FileError};
use psikat::project::pattern::Pattern;
use psikat::project::sample::{
    drag_region_end, drag_region_start, kept_length, mix_to_mono, region_is_selection, trim_silence, trim_to_region, Trim,
    MAX_SAMPLE_LEN,
};
use psikat::scale;
use psikat::synth::Waveform;
use psikat::text::trim;

#[test]
fn c4() {
    let note = key_to_note('z', 4).unwrap();
    assert_eq!(note.pitch, 60);
    assert_eq!(note.name(), "C-4");
}

#[test]
fn a4() {
    let note = key_to_note('d', 4).unwrap();
    assert_eq!(note.pitch, 69);
}

#[test]
fn upper_octave() {
    let note = key_to_note('h', 4).unwrap();
    assert_eq!(note.pitch, 72);
}

#[test]
fn unknown_key() {
    assert!(key_to_note('0', 4).is_none());
}

#[test]
fn top_key_is_limited_to_midi_range() {
    assert_eq!(key_to_note('p', 9).unwrap().pitch, 127);
    assert_eq!(key_to_note('p', 0).unwrap().pitch, 37);
}

#[test]
fn settings_fields_cycle() {
    assert_eq!(SettingsField::Bpm.next(), SettingsField::PatternLength);
    assert_eq!(SettingsField::ExportWav.next(), SettingsField::Bpm);
    assert_eq!(SettingsField::Bpm.prev(), SettingsField::ExportWav);
    let mut f = SettingsField::Scale;
    for _ in 0..5 {
        f = f.next();
    }
    assert_eq!(f, SettingsField::Scale);
    assert_eq!(SettingsField::Transpose.next().prev(), SettingsField::Transpose);
}

#[test]
fn selection_bounds_order_corners() {
    assert_eq!(selection_bounds(None, 3, 4), None);
    assert_eq!(selection_bounds(Some((5, 1)), 2, 7), Some((2, 5, 1, 7)));
}

#[test]
fn cursor_selection_bounds() {
    let mut c = Cursor::new();
    assert_eq!(c.octave, 4);
    assert_eq!(c.selection_bounds(), None);
    c.channel = 1;
    c.row = 2;
    c.sub_column = SubColumn::Note;
    c.selection_anchor = Some((0, 9, SubColumn::Effect));
    assert_eq!(
        c.selection_bounds(),
        Some((0, 1, 2, 9, SubColumn::Effect, SubColumn::Note))
    );
    c.selection_anchor = Some((1, 0, SubColumn::Volume));
    c.sub_column = SubColumn::Instrument;
    assert_eq!(
        c.selection_bounds(),
        Some((1, 1, 0, 2, SubColumn::Instrument, SubColumn::Volume))
    );
    c.clear_selection();
    assert!(c.selection_anchor.is_none());
    assert!(!PlaybackState::new().playing);
}

#[test]
fn waveform_cycle_and_names() {
    assert_eq!(Waveform::Noise.next(), Waveform::Sine);
    assert_eq!(Waveform::Sine.prev(), Waveform::Noise);
    assert_eq!(Waveform::Square.name(), "SQR");
    assert_eq!(WaveformKind::Triangle.label(), "Tri");
    assert_eq!(FilterType::default(), FilterType::LowPass);
    assert_eq!(FilterType::BandPass.label(), "BP");
    assert_eq!(default_polyphony(), 1);
}

#[test]
fn envelope_ticks() {
    let mut env = VolEnvelope::default_preset();
    assert_eq!(env.points, vec![(0, 64), (9, 0), (96, 0)]);
    assert_eq!(env.advance_tick(3, false), 4);
    assert_eq!(env.advance_tick(8, false), 9);
    assert_eq!(env.advance_tick(9, false), 9);
    assert_eq!(env.advance_tick(9, true), 10);
    env.loop_range = Some((1, 2));
    assert_eq!(env.advance_tick(96, true), 9);
    assert_eq!(env.advance_tick(95, true), 96);
    let off = VolEnvelope::disabled();
    assert!(!off.enabled);
    assert_eq!(off.points, vec![(0, 64)]);
    assert_eq!(off.advance_tick(0, false), 1);
}

#[test]
fn sample_slots_for_notes() {
    let map = vec![0u8, 1, 2];
    assert_eq!(sample_index_for_note(&map, 3, 1), Some(1));
    assert_eq!(sample_index_for_note(&map, 3, 100), Some(2));
    assert_eq!(sample_index_for_note(&map, 2, 100), None);
    assert_eq!(sample_index_for_note(&Vec::new(), 3, 1), None);
    assert_eq!(sample_index_for_note(&map, 0, 1), None);
}

#[test]
fn sequencer_steps() {
    assert_eq!(initial_track_row(8, 16, 16), 8);
    assert_eq!(initial_track_row(8, 4, 16), 2);
    assert_eq!(step_track_row(2, 4, 16), (3, false));
    assert_eq!(step_track_row(3, 4, 16), (0, false));
    assert_eq!(step_track_row(15, 16, 16), (0, true));
    assert_eq!(next_order_index(0, 3, true), Some(1));
    assert_eq!(next_order_index(2, 3, false), Some(0));
    assert_eq!(next_order_index(2, 3, true), None);
    let order = vec![0usize, 1];
    let rows = vec![16usize, 8];
    assert_eq!(continue_position(5, 3, &order, &rows), (0, 0));
    assert_eq!(continue_position(1, 10, &order, &rows), (1, 0));
    assert_eq!(continue_position(1, 7, &order, &rows), (1, 7));
    assert_eq!(entry_or(&vec![4u8, 5], 1, 9), 5);
    assert_eq!(entry_or(&vec![4u8, 5], 2, 9), 9);
    assert_eq!(voice_count(0), 1);
    assert_eq!(voice_count(3), 3);
}

#[test]
fn snapshot_copies_pattern() {
    let mut pat = Pattern::new("P01".into(), 2, 16);
    pat.track_note_values = vec![4, 16];
    pat.resize_track(0);
    let snap = PatternSnapshot::from_pattern(&pat);
    assert_eq!(snap.rows, pat.rows);
    assert_eq!(snap.bpm, 120);
    assert_eq!(snap.track_rows, vec![4, 16]);
    assert_eq!(snap.track_note_values, vec![4, 16]);
    assert_eq!(snap.data, pat.data);
}

#[test]
fn round_trip() {
    let payload = vec![1u8, 2, 3, 250];
    let bytes = frame(&payload);
    assert_eq!(&bytes[0..8], b"PSKT\x01\x00\x00\x00");
    assert_eq!(unframe(&bytes), Ok(payload));
}

#[test]
fn bad_magic() {
    assert_eq!(unframe(b"NOPE12345678"), Err(FileError::BadMagic));
    assert_eq!(FileError::BadMagic.message(), "Not a valid .psikat file (bad magic)");
}

#[test]
fn file_too_small() {
    assert_eq!(unframe(b"PSK"), Err(FileError::TooSmall));
    assert_eq!(FileError::TooSmall.message(), "File too small");
}

#[test]
fn newer_version_is_refused() {
    assert_eq!(unframe(b"PSKT\x02\x00\x00\x00rest"), Err(FileError::NewerVersion(2)));
    assert_eq!(
        FileError::NewerVersion(2).message(),
        "File version 2 is newer than supported version 1"
    );
    assert_eq!(unframe(b"PSKT\x01\x00\x07\x00"), Ok(Vec::new()));
}

#[test]
fn trimming_and_mixing_samples() {
    assert_eq!(trim_silence(&[0, 5, -400, 3, 500, 2], 328), (2, 5));
    assert_eq!(trim_silence(&[0, 5, 3], 328), (0, 0));
    assert_eq!(trim_silence(&[], 328), (0, 0));
    assert_eq!(trim_silence(&[328], 328), (0, 1));
    assert_eq!(mix_to_mono(&[1, 2, 3], 1), vec![1, 2, 3]);
    assert_eq!(mix_to_mono(&[10, 20, -5, -6, 7], 2), vec![15, -5]);
    assert_eq!(mix_to_mono(&[32767, 32767, -32768, -32767], 2), vec![32767, -32767]);
    assert_eq!(kept_length(10), 10);
    assert_eq!(kept_length(MAX_SAMPLE_LEN + 1), MAX_SAMPLE_LEN);
}

#[test]
fn scales_map_keys() {
    let s = ScaleIndex(0).scale();
    assert_eq!(map_key_index_to_note(0, 4, &s, 0), 49);
    assert_eq!(map_key_index_to_note(0, 9, &s, 0), 96);
    let old = scale::ScaleIndex(0);
    assert_eq!(old.next().0, 1);
    assert_eq!(old.prev().0, scale::SCALE_COUNT - 1);
}

#[test]
fn trimming_text() {
    assert_eq!(trim("  a b \n"), "a b");
    assert_eq!(trim(""), "");
    assert_eq!(trim(" \u{3000}x"), "x");
}

#[test]
fn region_handles_keep_a_minimum_length() {
    assert_eq!(drag_region_start(10, 1000), 10);
    assert_eq!(drag_region_start(990, 1000), 936);
    assert_eq!(drag_region_start(5, 30), 0);
    assert_eq!(drag_region_end(100, 50, 1000), 114);
    assert_eq!(drag_region_end(500, 50, 1000), 500);
    assert_eq!(drag_region_end(2000, 50, 1000), 1000);
}

#[test]
fn region_selection_and_trim() {
    assert!(!region_is_selection(0, 0, 500));
    assert!(!region_is_selection(0, 500, 500));
    assert!(region_is_selection(10, 0, 500));
    assert!(region_is_selection(0, 400, 500));
    assert_eq!(
        trim_to_region(500, 100, 400, 150, 1000),
        Trim { from: 100, to: 400, loop_start: 50, loop_length: 250 }
    );
    assert_eq!(trim_to_region(500, 100, 0, 20, 30), Trim { from: 100, to: 500, loop_start: 0, loop_length: 30 });
    assert_eq!(trim_to_region(300, 400, 600, 0, 10), Trim { from: 300, to: 300, loop_start: 0, loop_length: 0 });
}
