use psikat::pattern as single;
use psikat::project::pattern::{Cell, Note, Pattern, PatternColor};

#[test]
fn pattern_note_names() {
    assert_eq!(Note::new(60).name(), "C-4");
    assert_eq!(Note::new(61).name(), "C#4");
    assert_eq!(Note::new(69).name(), "A-4");
    assert_eq!(Note::new(72).name(), "C-5");

    assert_eq!(single::Note::new(60).name(), "C-4");
    assert_eq!(single::Note::new(61).name(), "C#4");
    assert_eq!(single::Note::new(69).name(), "A-4");
    assert_eq!(single::Note::new(72).name(), "C-5");
}

#[test]
fn pattern_pattern_basics() {
    let mut pat = Pattern::new("P01".into(), 4, 16);
    assert_eq!(pat.get(0, 0, 0), Cell::Empty);
    pat.set(0, 0, 0, Cell::NoteOn(Note::new(49)));
    assert_eq!(pat.get(0, 0, 0), Cell::NoteOn(Note::new(49)));
    pat.set(0, 0, 1, Cell::NoteOff);
    assert_eq!(pat.get(0, 0, 1), Cell::NoteOff);
    pat.clear(0, 0, 0);
    assert_eq!(pat.get(0, 0, 0), Cell::Empty);

    let mut old = single::Pattern::new(4, 16);
    assert_eq!(old.get(0, 0), single::Cell::Empty);
    old.set(0, 0, single::Cell::NoteOn(single::Note::new(60)));
    assert_eq!(old.get(0, 0), single::Cell::NoteOn(single::Note::new(60)));
    old.set(0, 1, single::Cell::NoteOff);
    assert_eq!(old.get(0, 1), single::Cell::NoteOff);
    old.clear(0, 0);
    assert_eq!(old.get(0, 0), single::Cell::Empty);
}

#[test]
fn polyphony() {
    let mut pat = Pattern::new("P01".into(), 2, 8);
    assert_eq!(pat.voice_count(0), 1);
    pat.set_voice_count(0, 3);
    assert_eq!(pat.voice_count(0), 3);
    pat.set(0, 2, 4, Cell::NoteOn(Note::new(60)));
    assert_eq!(pat.get(0, 2, 4), Cell::NoteOn(Note::new(60)));
    pat.set_voice_count(0, 1);
    assert_eq!(pat.voice_count(0), 1);
}

#[test]
fn default_pattern_settings() {
    let pat = Pattern::new("Test".into(), 1, 16);
    assert_eq!(pat.name, "Test");
    assert_eq!(pat.color, None);
    assert_eq!(pat.repeat, 1);
    assert_eq!(pat.bpm, 120);
    assert_eq!(pat.time_sig_numerator, 4);
    assert_eq!(pat.time_sig_denominator, 4);
    assert_eq!(pat.note_value, 16);
    assert_eq!(pat.measures, 1);
    assert_eq!(pat.computed_rows(), 16);
    assert_eq!(pat.primary_row_group_for_track(0), 4);
}

#[test]
fn computed_rows_various() {
    let mut pat = Pattern::new("P01".into(), 1, 16);
    pat.time_sig_numerator = 4;
    pat.note_value = 16;
    pat.track_note_values[0] = 16;
    pat.measures = 2;
    assert_eq!(pat.computed_rows(), 32);

    pat.time_sig_numerator = 7;
    pat.time_sig_denominator = 8;
    pat.note_value = 8;
    pat.track_note_values[0] = 8;
    pat.measures = 1;
    assert_eq!(pat.computed_rows(), 7);

    pat.time_sig_numerator = 3;
    pat.time_sig_denominator = 4;
    pat.note_value = 4;
    pat.track_note_values[0] = 4;
    pat.measures = 3;
    assert_eq!(pat.computed_rows(), 9);

    pat.time_sig_numerator = 4;
    pat.time_sig_denominator = 4;
    pat.note_value = 24;
    pat.track_note_values[0] = 24;
    pat.measures = 1;
    assert_eq!(pat.computed_rows(), 24);
    assert_eq!(pat.primary_row_group_for_track(0), 6);
}

#[test]
fn new_from_inherits_settings() {
    let mut source = Pattern::new("Source".into(), 2, 16);
    source.bpm = 140;
    source.time_sig_numerator = 7;
    source.time_sig_denominator = 8;
    source.note_value = 12;
    source.track_note_values = vec![12; 2];
    source.measures = 2;
    source.repeat = 3;
    source.color = Some(PatternColor::Coral);

    let child = Pattern::new_from(&source, "Child".into(), 3);
    assert_eq!(child.name, "Child");
    assert_eq!(child.bpm, 140);
    assert_eq!(child.time_sig_numerator, 7);
    assert_eq!(child.time_sig_denominator, 8);
    assert_eq!(child.note_value, 12);
    assert_eq!(child.measures, 2);
    assert_eq!(child.repeat, 3);
    assert_eq!(child.color, Some(PatternColor::Coral));
    assert_eq!(child.data.len(), 3);
    assert_eq!(child.rows, source.computed_rows());
    assert_eq!(child.track_note_values, vec![12, 12, 12]);
}

#[test]
fn per_track_subdivisions() {
    let mut pat = Pattern::new("P01".into(), 2, 16);
    pat.time_sig_numerator = 4;
    pat.time_sig_denominator = 4;
    pat.measures = 1;
    pat.track_note_values = vec![4, 16];
    pat.resize_track(0);
    pat.resize_track(1);

    assert_eq!(pat.computed_rows_for_track(0), 4);
    assert_eq!(pat.computed_rows_for_track(1), 16);
    assert_eq!(pat.track_rows(0), 4);
    assert_eq!(pat.track_rows(1), 16);
    assert_eq!(pat.computed_rows(), 16);
    assert_eq!(pat.rows, 16);
}

#[test]
fn low_notes_name_their_octave() {
    assert_eq!(Note::new(0).name(), "C--1");
    assert_eq!(Note::new(11).name(), "B--1");
    assert_eq!(single::Note::new(0).name(), "C-0");
    assert_eq!(Note::new(200).pitch, 127);
    assert_eq!(single::Note::new(128).pitch, 127);
}

#[test]
fn single_pattern_resize_and_gates() {
    let mut pat = single::Pattern::new(2, 8);
    pat.set(0, 2, single::Cell::NoteOn(single::Note::new(60)));
    pat.set(0, 5, single::Cell::NoteOff);
    assert_eq!(pat.gate_rows(0, 2), 3);
    assert_eq!(pat.gate_rows(1, 0), 8);
    assert_eq!(pat.gate_rows(0, 7), 1);
    pat.resize(12);
    assert_eq!(pat.rows, 12);
    assert_eq!(pat.data[1].len(), 12);
    assert_eq!(pat.gate_rows(0, 5), 7);
    pat.resize(4);
    assert_eq!(pat.rows, 4);
    assert_eq!(pat.data[0].len(), 12);
    assert_eq!(pat.gate_rows(0, 2), 2);
}

#[test]
fn pattern_channels_added_and_removed() {
    let mut pat = Pattern::new("P01".into(), 1, 16);
    pat.track_note_values = vec![4];
    pat.resize_track(0);
    pat.add_channel();
    assert_eq!(pat.data.len(), 2);
    assert_eq!(pat.track_note_values, vec![4, 4]);
    assert_eq!(pat.track_rows(1), 4);
    pat.remove_channel(0);
    assert_eq!(pat.data.len(), 1);
    pat.remove_channel(0);
    assert_eq!(pat.data.len(), 1);
}

#[test]
fn pattern_colors() {
    assert_eq!(PatternColor::all().len(), PatternColor::COUNT);
    assert_eq!(PatternColor::from_index(0), Some(PatternColor::Coral));
    assert_eq!(PatternColor::from_index(10), None);
    assert_eq!(PatternColor::Coral.label(), "Coral");
    assert_eq!(PatternColor::Slate.rgb(), (140, 150, 170));
    let c = PatternColor::random();
    assert!(PatternColor::all().contains(&c));
}

#[test]
fn duplicate_keeps_cells() {
    let mut pat = Pattern::new("P07".into(), 2, 16);
    pat.set(1, 0, 3, Cell::NoteOn(Note::new(64)));
    let copy = pat.duplicate();
    assert_eq!(copy.name, "P07");
    assert_eq!(copy.get(1, 0, 3), Cell::NoteOn(Note::new(64)));
    assert_eq!(copy.data, pat.data);
}
