use psikat::project::mod_file::{channels_for_tag, decode_mod_cell, parse_mod, period_to_pitch, ModError};
use psikat::project::pattern::{Cell, Effect, Note};

fn header() -> Vec<u8> {
    let mut d = vec![0u8; 1084];
    d[..4].copy_from_slice(b"Song");
    let h = 20;
    d[h..h + 5].copy_from_slice(b"kick\0");
    d[h + 22] = 0;
    d[h + 23] = 2;
    d[h + 24] = 0x0F;
    d[h + 25] = 64;
    d[h + 28] = 0;
    d[h + 29] = 1;
    let h2 = 20 + 30;
    d[h2 + 23] = 1;
    d[950] = 2;
    d[952] = 0;
    d[953] = 1;
    d[1080..1084].copy_from_slice(b"M.K.");
    d
}

#[test]
fn periods_map_to_notes() {
    assert_eq!(period_to_pitch(0), None);
    assert_eq!(period_to_pitch(428), Some(25));
    assert_eq!(period_to_pitch(856), Some(13));
    assert_eq!(period_to_pitch(113), Some(48));
    assert_eq!(period_to_pitch(1000), Some(13));
    assert_eq!(period_to_pitch(10), Some(48));
    assert_eq!(period_to_pitch(416), Some(25));
}

#[test]
fn cells_decode() {
    assert_eq!(
        decode_mod_cell(0x01, 0xAC, 0x3C, 0x20),
        (Cell::NoteOn(Note { pitch: 25 }), Some(2), Some(Effect { kind: 0xC, param: 0x20 }))
    );
    assert_eq!(decode_mod_cell(0, 0, 0, 0), (Cell::Empty, None, None));
    assert_eq!(decode_mod_cell(0x10, 0, 0x10, 0), (Cell::Empty, Some(16), None));
}

#[test]
fn tags_give_channels() {
    assert_eq!(channels_for_tag(b'M', b'.', b'K', b'.'), Some(4));
    assert_eq!(channels_for_tag(b'6', b'C', b'H', b'N'), Some(6));
    assert_eq!(channels_for_tag(b'O', b'C', b'T', b'A'), Some(8));
    assert_eq!(channels_for_tag(b'1', b'2', b'C', b'H'), Some(12));
    assert_eq!(channels_for_tag(b'x', b'y', b'C', b'H'), Some(4));
    assert_eq!(channels_for_tag(b'+', b'9', b'C', b'H'), Some(9));
    assert_eq!(channels_for_tag(b'A', b'B', b'C', b'D'), None);
}

#[test]
fn module_parses() {
    let mut d = header();
    let mut pats = vec![0u8; 2 * 64 * 4 * 4];
    let o = ((64 + 0) * 4 + 2) * 4;
    pats[o..o + 4].copy_from_slice(&[0x01, 0xAC, 0x3C, 0x20]);
    d.extend_from_slice(&pats);
    d.extend_from_slice(&[0, 127, 128, 255]);
    d.extend_from_slice(&[9, 9]);
    let m = parse_mod(&d).unwrap();
    assert_eq!(m.channels, 4);
    assert_eq!(m.order, vec![0, 1]);
    assert_eq!(m.patterns.len(), 2);
    assert_eq!(m.patterns[1].notes[2][0], Cell::NoteOn(Note { pitch: 25 }));
    assert_eq!(m.patterns[1].instruments[2][0], Some(2));
    assert_eq!(m.patterns[1].effects[2][0], Some(Effect { kind: 0xC, param: 0x20 }));
    assert_eq!(m.patterns[0].notes[2][0], Cell::Empty);
    assert_eq!(m.samples.len(), 31);
    assert_eq!(&m.samples[0].name[..5], b"kick\0");
    assert_eq!(m.samples[0].length, 4);
    assert_eq!(m.samples[0].finetune, -1);
    assert_eq!(m.samples[0].volume, 64);
    assert_eq!(m.samples[0].loop_length, 2);
    assert_eq!(m.samples[0].data, vec![0, 32512, -32768, -256]);
    assert_eq!(m.samples[1].length, 2);
    assert!(m.samples[1].data.is_empty());
}

#[test]
fn short_or_unknown_files_are_refused() {
    assert_eq!(parse_mod(&[0u8; 100]).unwrap_err(), ModError::TooSmall);
    let mut d = header();
    d[1080..1084].copy_from_slice(b"ABCD");
    assert_eq!(parse_mod(&d).unwrap_err(), ModError::UnknownTag(b'A', b'B', b'C', b'D'));
    let mut d = header();
    d.extend_from_slice(&vec![0u8; 2 * 64 * 4 * 4]);
    assert_eq!(parse_mod(&d).unwrap_err(), ModError::Truncated);
}
