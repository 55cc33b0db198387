//! The upload wire format.
//!
//! A request body is `u32 LE metadata-length | metadata JSON (UTF-8) |
//! u32 LE archive-length | archive bytes`. The decoder bounds the declared
//! metadata length against the configured maximum before anything else, then
//! splits the body into the metadata text and the archive bytes.

use vstd::prelude::*;

use vstd::slice::{slice_subrange, slice_to_vec};
use vstd::utf8::{decode_utf8, valid_utf8};

use crate::errors::PublishError;
use crate::text::{chars_to_string, dec_of, push_dec_u64, push_str_chars};

verus! {

/// The little-endian 32-bit integer held by four bytes.
pub open spec fn le_u32_of(b: Seq<u8>) -> u32
    recommends
        b.len() == 4,
{
    ((b[0] as nat) + (b[1] as nat) * 0x100 + (b[2] as nat) * 0x10000 + (b[3] as nat)
        * 0x1000000) as u32
}

/// The decoded body: the metadata text and the archive bytes.
#[derive(Debug)]
pub struct UploadFrame {
    pub metadata: String,
    pub archive: Vec<u8>,
}

/// The detail text for a body that ends before its declared contents.
pub open spec fn truncated_msg() -> Seq<char> {
    "invalid upload request: body ends before its declared contents"@
}

/// What decoding a body yields: the metadata characters and archive bytes on
/// success, the `BadRequest` detail text on failure.
pub open spec fn decode_of(b: Seq<u8>, max: u64) -> Result<(Seq<char>, Seq<u8>), Seq<char>> {
    if b.len() < 4 {
        Result::Err(truncated_msg())
    } else {
        let m = le_u32_of(b.subrange(0, 4)) as int;
        if m > max {
            Result::Err("max upload size is: "@ + dec_of(max as nat))
        } else if b.len() < 4 + m + 4 {
            Result::Err(truncated_msg())
        } else {
            let meta = b.subrange(4, 4 + m);
            if !valid_utf8(meta) {
                Result::Err("json body was not valid utf-8"@)
            } else {
                let a = le_u32_of(b.subrange(4 + m, 8 + m)) as int;
                if b.len() < 8 + m + a {
                    Result::Err(truncated_msg())
                } else {
                    Result::Ok((decode_utf8(meta), b.subrange(8 + m, 8 + m + a)))
                }
            }
        }
    }
}

/// Relies on `String::from_utf8`: it succeeds exactly on valid UTF-8 input
/// and yields the string those bytes encode.
#[verifier::external_body]
fn bytes_to_utf8(v: Vec<u8>) -> (r: Option<String>)
    ensures
        (r is Some) == valid_utf8(v@),
        r is Some ==> r->0@ == decode_utf8(v@),
{
    String::from_utf8(v).ok()
}

/// The little-endian 32-bit integer at `pos`.
pub fn read_le_u32(body: &[u8], pos: usize) -> (r: u32)
    requires
        pos + 4 <= body@.len(),
    ensures
        r == le_u32_of(body@.subrange(pos as int, pos as int + 4)),
{
    let b0 = body[pos] as u32;
    let b1 = body[pos + 1] as u32;
    let b2 = body[pos + 2] as u32;
    let b3 = body[pos + 3] as u32;
    let ghost s = body@.subrange(pos as int, pos as int + 4);
    assert(s[0] == body@[pos as int] && s[1] == body@[pos as int + 1] && s[2] == body@[pos as int
        + 2] && s[3] == body@[pos as int + 3]);
    b0 + b1 * 0x100 + b2 * 0x10000 + b3 * 0x1000000
}

fn truncated_error() -> (r: PublishError)
    ensures
        r matches PublishError::BadRequest(d) && d@ == truncated_msg(),
{
    let mut out: Vec<char> = Vec::new();
    push_str_chars(&mut out, "invalid upload request: body ends before its declared contents");
    PublishError::BadRequest(chars_to_string(&out))
}

/// The detail text naming the largest accepted size, as the quota checks
/// surface it.
pub open spec fn size_limit_msg(max: u64) -> Seq<char> {
    "max upload size is: "@ + dec_of(max as nat)
}

/// The `BadRequest` that names the largest accepted size.
pub fn size_limit_error(max: u64) -> (r: PublishError)
    ensures
        r matches PublishError::BadRequest(d) && d@ == size_limit_msg(max),
{
    let mut out: Vec<char> = Vec::new();
    push_str_chars(&mut out, "max upload size is: ");
    push_dec_u64(&mut out, max);
    PublishError::BadRequest(chars_to_string(&out))
}

/// Splits a request body into metadata text and archive bytes.
///
/// The declared metadata length is bounded against `max` before the metadata
/// is read; a body that is not shaped as the wire format promises is
/// rejected as `BadRequest`, and no other error class can come out.
pub fn decode_upload(body: &[u8], max: u64) -> (r: Result<UploadFrame, PublishError>)
    ensures
        match r {
            Result::Ok(f) => decode_of(body@, max) matches Result::Ok(p) && f.metadata@ == p.0
                && f.archive@ == p.1,
            Result::Err(e) => decode_of(body@, max) matches Result::Err(d) && (e matches
                PublishError::BadRequest(m) && m@ == d),
        },
{
    if body.len() < 4 {
        return Err(truncated_error());
    }
    let meta_len_32 = read_le_u32(body, 0);
    let meta_len = meta_len_32 as usize;
    if meta_len_32 as u64 > max {
        return Err(size_limit_error(max));
    }
    if body.len() < 4 || body.len() - 4 < meta_len || body.len() - 4 - meta_len < 4 {
        return Err(truncated_error());
    }
    let meta_bytes = slice_to_vec(slice_subrange(body, 4, 4 + meta_len));
    let metadata = match bytes_to_utf8(meta_bytes) {
        Some(s) => s,
        None => {
            let mut out: Vec<char> = Vec::new();
            push_str_chars(&mut out, "json body was not valid utf-8");
            return Err(PublishError::BadRequest(chars_to_string(&out)));
        },
    };
    let archive_len_32 = read_le_u32(body, 4 + meta_len);
    let archive_len = archive_len_32 as usize;
    if body.len() - 8 - meta_len < archive_len {
        return Err(truncated_error());
    }
    let archive = slice_to_vec(slice_subrange(body, 8 + meta_len, 8 + meta_len + archive_len));
    Ok(UploadFrame { metadata, archive })
}

} // verus!
