//! Framing: what is appended to a target for one line.
//!
//! Every append is one gzip member of its own, so a target is a
//! concatenation of members, each of which can be decompressed alone.

use vstd::prelude::*;
use vstd::string::*;
use vstd::utf8::encode_utf8;

verus! {

/// The byte that ends a line.
pub const LINE_END: u8 = 0x0a;

/// The bytes that a line stands for in a target: the line as it was read,
/// then the line end.
pub open spec fn line_payload(line: Seq<char>) -> Seq<u8> {
    encode_utf8(line).push(LINE_END)
}

/// The gzip member that `flate2` writes for `data` at its default level;
/// `None` where the encoder reports an error.
pub uninterp spec fn gzip_member(data: Seq<u8>) -> Option<Seq<u8>>;

/// Runs a `flate2::write::GzEncoder` over an empty buffer: `new`, one
/// `write_all` of `data`, `finish`. The contract gives what comes back the
/// name [`gzip_member`] and claims nothing else of it.
#[verifier::external_body]
fn gzip(data: &[u8]) -> (member: Option<Vec<u8>>)
    ensures
        member.is_some() == gzip_member(data@).is_some(),
        member matches Some(bytes) ==> gzip_member(data@) == Some(bytes@),
{
    let mut encoder = flate2::write::GzEncoder::new(Vec::new(), flate2::Compression::default());
    std::io::Write::write_all(&mut encoder, data).ok()?;
    encoder.finish().ok()
}

/// The frame of a line: the gzip member of its payload.
pub open spec fn line_frame(line: Seq<char>) -> Option<Seq<u8>> {
    gzip_member(line_payload(line))
}

/// The payload of a line: its bytes and the line end.
pub fn payload(line: &str) -> (bytes: Vec<u8>)
    ensures
        bytes@ == line_payload(line@),
{
    let mut bytes = line.as_bytes_vec();
    bytes.push(LINE_END);
    bytes
}

/// The frame to append for a line; `None` where the encoder fails, which
/// the caller treats as a failed append.
pub fn frame_line(line: &str) -> (member: Option<Vec<u8>>)
    ensures
        member.is_some() == line_frame(line@).is_some(),
        member matches Some(bytes) ==> line_frame(line@) == Some(bytes@),
{
    let data = payload(line);
    gzip(data.as_slice())
}

} // verus!
