use psikat::project::pattern::{Cell, Effect, Note};
use psikat::project::sample::LoopType;
use psikat::project::xm::{parse_xm, XmError};

fn push_u16(v: &mut Vec<u8>, x: u16) {
    v.extend_from_slice(&x.to_le_bytes());
}

fn push_u32(v: &mut Vec<u8>, x: u32) {
    v.extend_from_slice(&x.to_le_bytes());
}

fn push_name(v: &mut Vec<u8>, name: &str, len: usize) {
    let mut b = name.as_bytes().to_vec();
    b.resize(len, 0);
    v.extend_from_slice(&b);
}

/// The 336-byte header of a file with two channels, one pattern and one instrument.
fn header(version: u16) -> Vec<u8> {
    let mut v = Vec::new();
    v.extend_from_slice(b"Extended Module: ");
    push_name(&mut v, "test song", 20);
    v.push(0x1a);
    push_name(&mut v, "FastTracker v2.00", 20);
    push_u16(&mut v, version);
    push_u32(&mut v, 276);
    push_u16(&mut v, 2); // song length
    push_u16(&mut v, 0); // restart position
    push_u16(&mut v, 2); // channels
    push_u16(&mut v, 1); // patterns
    push_u16(&mut v, 1); // instruments
    push_u16(&mut v, 1); // flags
    push_u16(&mut v, 6); // speed
    push_u16(&mut v, 125); // tempo
    v.extend_from_slice(&[0u8; 256]);
    v
}

/// A pattern of two rows: a full cell, an empty one, a note release, and a note with an
/// instrument.
fn pattern() -> Vec<u8> {
    let packed: Vec<u8> = vec![49, 1, 0x40, 0x0F, 0x06, 0x80, 0x81, 97, 0x83, 61, 2];
    let mut v = Vec::new();
    push_u32(&mut v, 9);
    v.push(0);
    push_u16(&mut v, 2);
    push_u16(&mut v, packed.len() as u16);
    v.extend_from_slice(&packed);
    v
}

/// An instrument with a two-point envelope (on, with a sustain point) and one 8-bit
/// sample of four bytes.
fn instrument() -> Vec<u8> {
    let mut v = Vec::new();
    push_u32(&mut v, 243);
    push_name(&mut v, "Piano", 22);
    v.push(0);
    push_u16(&mut v, 1);
    push_u32(&mut v, 40);
    v.extend_from_slice(&[0u8; 96]);
    let mut env = Vec::new();
    push_u16(&mut env, 0);
    push_u16(&mut env, 64);
    push_u16(&mut env, 10);
    push_u16(&mut env, 100);
    env.resize(48, 0);
    v.extend_from_slice(&env);
    v.extend_from_slice(&[0u8; 48]);
    v.extend_from_slice(&[2, 0, 1, 0, 1, 0, 0, 0, 3, 0, 0, 0, 0, 0]);
    push_u16(&mut v, 256);
    push_u16(&mut v, 0);
    assert_eq!(v.len(), 243);
    push_u32(&mut v, 4);
    push_u32(&mut v, 0);
    push_u32(&mut v, 0);
    v.extend_from_slice(&[64, 0, 0, 128, 0, 0]);
    push_name(&mut v, "sample", 22);
    v.extend_from_slice(&[10, 5, 0xFB, 0]);
    v
}

fn song() -> Vec<u8> {
    let mut v = header(0x0104);
    v.extend_from_slice(&pattern());
    v.extend_from_slice(&instrument());
    v
}

#[test]
fn xm_header_fields() {
    let m = parse_xm(&song()).unwrap();
    assert_eq!(m.channels, 2);
    assert_eq!(m.speed, 6);
    assert_eq!(m.bpm, 125);
    assert_eq!(m.order, vec![0, 0]);
    assert_eq!(m.patterns.len(), 1);
    assert_eq!(m.instruments.len(), 1);
}

#[test]
fn xm_packed_cells() {
    let m = parse_xm(&song()).unwrap();
    let p = &m.patterns[0];
    assert_eq!(p.rows, 2);
    assert_eq!(p.notes[0][0], Cell::NoteOn(Note { pitch: 49 }));
    assert_eq!(p.instruments[0][0], Some(0));
    assert_eq!(p.volumes[0][0], Some(0x40));
    assert_eq!(p.effects[0][0], Some(Effect { kind: 0x0F, param: 0x06 }));
    assert_eq!(p.notes[1][0], Cell::Empty);
    assert_eq!(p.instruments[1][0], None);
    assert_eq!(p.effects[1][0], None);
    assert_eq!(p.notes[0][1], Cell::NoteOff);
    assert_eq!(p.notes[1][1], Cell::NoteOn(Note { pitch: 61 }));
    assert_eq!(p.instruments[1][1], Some(1));
    assert_eq!(p.volumes[1][1], None);
}

#[test]
fn xm_instrument_and_envelope() {
    let m = parse_xm(&song()).unwrap();
    let inst = &m.instruments[0];
    assert_eq!(&inst.name[..5], b"Piano");
    assert_eq!(inst.name.len(), 22);
    assert_eq!(inst.note_to_sample.len(), 96);
    assert!(inst.vol_envelope.enabled);
    assert_eq!(inst.vol_envelope.points, vec![(0, 64), (10, 64)]);
    assert_eq!(inst.vol_envelope.sustain_point, Some(1));
    assert_eq!(inst.vol_envelope.loop_range, None);
    assert_eq!(inst.vol_fadeout, 256);
}

#[test]
fn xm_delta_coded_sample() {
    let m = parse_xm(&song()).unwrap();
    let s = &m.instruments[0].samples[0];
    assert_eq!(s.length, 4);
    assert_eq!(s.volume, 64);
    assert_eq!(s.panning, 128);
    assert_eq!(s.data, vec![2560, 3840, 2560, 2560]);
    assert_eq!(s.base_note(), 60);
    assert_eq!(s.loop_type(), LoopType::Off);
    assert!(!s.is_16bit());
}

#[test]
fn xm_16bit_sample_and_loop() {
    let mut v = song();
    let n = v.len();
    // The sample header starts 40 + 4 bytes before the end; set its type to 16-bit with
    // a forward loop and its relative note to 12.
    v[n - 44 + 4] = 2;
    v[n - 44 + 14] = 0x11;
    v[n - 44 + 16] = 12;
    v[n - 4..].copy_from_slice(&[0x10, 0x00, 0x20, 0x00]);
    let m = parse_xm(&v).unwrap();
    let s = &m.instruments[0].samples[0];
    assert!(s.is_16bit());
    assert_eq!(s.data, vec![16, 48]);
    assert_eq!(s.loop_type(), LoopType::Forward);
    assert_eq!(s.loop_frames(), (1, 0));
    assert_eq!(s.base_note(), 48);
}

#[test]
fn xm_errors() {
    assert_eq!(parse_xm(b"Extended").unwrap_err(), XmError::Truncated);
    let mut bad = song();
    bad[0] = b'e';
    assert_eq!(parse_xm(&bad).unwrap_err(), XmError::NotXm);
    assert_eq!(parse_xm(&header(0x0103)).unwrap_err(), XmError::Version(0x0103));
    assert_eq!(parse_xm(&song()[..200]).unwrap_err(), XmError::Truncated);
    let s = song();
    assert_eq!(parse_xm(&s[..s.len() - 1]).unwrap_err(), XmError::Truncated);
    assert!(parse_xm(&header(0x0104)).is_err());
}
