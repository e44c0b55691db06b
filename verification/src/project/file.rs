//! The framing of a project file: four magic bytes "PSKT", the format version and a
//! flags word (both little-endian 16-bit), then the encoded project.
use vstd::prelude::*;

use crate::text::push_decimal;

verus! {

/// The format version this library writes and the newest it reads.
pub const FORMAT_VERSION: u16 = 1;

/// The magic bytes "PSKT".
pub open spec fn magic() -> Seq<u8> {
    seq![0x50u8, 0x53u8, 0x4Bu8, 0x54u8]
}

/// The eight header bytes: magic, version 1, flags 0.
pub open spec fn header() -> Seq<u8> {
    magic() + seq![1u8, 0u8, 0u8, 0u8]
}

/// Why a file's bytes are not a project this library reads.
#[derive(Debug, Clone, Copy, PartialEq, Eq, Structural)]
pub enum FileError {
    /// Fewer than the eight header bytes.
    TooSmall,
    /// The first four bytes are not "PSKT".
    BadMagic,
    /// The file was written by a newer format version.
    NewerVersion(u16),
}

/// The text an error is reported with.
pub open spec fn error_text(e: FileError) -> Seq<char> {
    match e {
        FileError::TooSmall => "File too small"@,
        FileError::BadMagic => "Not a valid .psikat file (bad magic)"@,
        FileError::NewerVersion(v) => "File version "@ + crate::text::decimal(v as nat)
            + " is newer than supported version 1"@,
    }
}

impl FileError {
    /// The text the error is reported with.
    pub fn message(self) -> (r: String)
        ensures
            r@ == error_text(self),
    {
        proof {
            reveal_strlit("File too small");
            reveal_strlit("Not a valid .psikat file (bad magic)");
            reveal_strlit("File version ");
            reveal_strlit(" is newer than supported version 1");
        }
        match self {
            FileError::TooSmall => String::from_str("File too small"),
            FileError::BadMagic => String::from_str("Not a valid .psikat file (bad magic)"),
            FileError::NewerVersion(v) => {
                let mut s = String::from_str("File version ");
                push_decimal(&mut s, v as u64);
                s.append(" is newer than supported version 1");
                s
            },
        }
    }
}

/// The version a header holds in bytes 4 and 5.
pub open spec fn version_of(data: Seq<u8>) -> u16 {
    (data[4] as int + data[5] as int * 256) as u16
}

/// What reading a file's bytes gives: the encoded project after the header, or why not.
pub open spec fn unframed(data: Seq<u8>) -> Result<Seq<u8>, FileError> {
    if data.len() < 8 {
        Err(FileError::TooSmall)
    } else if data.take(4) != magic() {
        Err(FileError::BadMagic)
    } else if version_of(data) > FORMAT_VERSION {
        Err(FileError::NewerVersion(version_of(data)))
    } else {
        Ok(data.skip(8))
    }
}

/// The bytes of a file holding the encoded project `payload`: the header, then the
/// payload.
pub fn frame(payload: &[u8]) -> (r: Vec<u8>)
    ensures
        r@ == header() + payload@,
{
    let mut buf: Vec<u8> = Vec::new();
    buf.push(0x50);
    buf.push(0x53);
    buf.push(0x4B);
    buf.push(0x54);
    buf.push(1);
    buf.push(0);
    buf.push(0);
    buf.push(0);
    let mut i: usize = 0;
    while i < payload.len()
        invariant
            i <= payload@.len(),
            buf@ == header() + payload@.take(i as int),
        decreases payload@.len() - i,
    {
        buf.push(payload[i]);
        i = i + 1;
        assert(buf@ =~= header() + payload@.take(i as int));
    }
    assert(payload@.take(payload@.len() as int) =~= payload@);
    buf
}

/// The encoded project in a file's bytes, or why they are not one (see `unframed`).
pub fn unframe(data: &[u8]) -> (r: Result<Vec<u8>, FileError>)
    ensures
        match r {
            Ok(p) => unframed(data@) == Ok::<Seq<u8>, FileError>(p@),
            Err(e) => unframed(data@) == Err::<Seq<u8>, FileError>(e),
        },
{
    if data.len() < 8 {
        return Err(FileError::TooSmall);
    }
    if data[0] != 0x50 || data[1] != 0x53 || data[2] != 0x4B || data[3] != 0x54 {
        assert(data@.take(4)[0] == data@[0]);
        assert(data@.take(4)[1] == data@[1]);
        assert(data@.take(4)[2] == data@[2]);
        assert(data@.take(4)[3] == data@[3]);
        return Err(FileError::BadMagic);
    }
    assert(data@.take(4) =~= magic());
    let version: u16 = data[4] as u16 + data[5] as u16 * 256;
    if version > FORMAT_VERSION {
        return Err(FileError::NewerVersion(version));
    }
    let mut out: Vec<u8> = Vec::new();
    let mut i: usize = 8;
    while i < data.len()
        invariant
            8 <= i <= data@.len(),
            out@ == data@.subrange(8, i as int),
        decreases data@.len() - i,
    {
        out.push(data[i]);
        i = i + 1;
        assert(out@ =~= data@.subrange(8, i as int));
    }
    assert(out@ =~= data@.skip(8));
    Ok(out)
}

/// Law: reading back the bytes written for a project gives the project's encoding.
pub proof fn lemma_unframe_frame(payload: Seq<u8>)
    ensures
        unframed(header() + payload) == Ok::<Seq<u8>, FileError>(payload),
{
    let d = header() + payload;
    assert(d.take(4) =~= magic());
    assert(d[4] == 1u8 && d[5] == 0u8);
    assert(d.skip(8) =~= payload);
}

} // verus!
