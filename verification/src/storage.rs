//! Storage-node helpers: the transport encoding of file bytes, the mapping
//! between global paths and a node's local disk paths, and the shared
//! request and response bodies of the byte-level operations.

use base64::Engine;
use vstd::prelude::*;
use vstd::string::{StrSliceExecFns, StringExecFns};

use crate::error::TinyDfsError;

verus! {

/// A size response: the byte length of one local file.
pub struct SizeOkResponse {
    pub size: u64,
}

/// A byte-range read request.
pub struct ReadArg {
    pub path: String,
    pub offset: u64,
    pub length: i32,
}

/// A successful read: the bytes, transport-encoded.
pub struct ReadOkResponse {
    pub data: String,
}

/// A byte-range write request; the bytes are transport-encoded.
pub struct WriteArg {
    pub path: String,
    pub offset: u64,
    pub data: String,
}

/// The standard, padded base64 encoding of a byte sequence.
pub uninterp spec fn b64_of(bytes: Seq<u8>) -> Seq<char>;

/// What the standard, padded base64 decoder makes of a character sequence:
/// the decoded bytes, or nothing when the input is not valid base64.
pub uninterp spec fn b64_decode_of(text: Seq<char>) -> Option<Seq<u8>>;

/// Relies on base64's `Engine::encode` with the standard alphabet and
/// padding: the encoding is a function of the input bytes alone, four
/// characters for every started three-byte group.
#[verifier::external_body]
pub fn base64_encode(input: &[u8]) -> (r: String)
    requires
        4 * ((input@.len() + 2) / 3) <= usize::MAX,
    ensures
        r@ == b64_of(input@),
        r@.len() == 4 * ((input@.len() + 2) / 3),
{
    base64::engine::general_purpose::STANDARD.encode(input)
}

#[verifier::external_type_specification]
#[verifier::external_body]
pub struct ExDecodeError(base64::DecodeError);

/// Relies on base64's `Engine::decode` with the standard alphabet and
/// padding: the result is a function of the input characters alone, and
/// decoding inverts `base64_encode`.
#[verifier::external_body]
fn b64_decode_raw(input: &str) -> (r: Result<Vec<u8>, base64::DecodeError>)
    ensures
        match r {
            Ok(v) => b64_decode_of(input@) == Some(v@),
            Err(_) => b64_decode_of(input@) is None,
        },
        forall|bs: Seq<u8>| input@ == b64_of(bs) ==> r is Ok,
{
    base64::engine::general_purpose::STANDARD.decode(input)
}

/// Decodes transport-encoded bytes; `None` when the input is not valid
/// base64.
pub fn base64_decode(input: &str) -> (r: Option<Vec<u8>>)
    ensures
        match r {
            Some(v) => b64_decode_of(input@) == Some(v@),
            None => b64_decode_of(input@) is None,
        },
        forall|bs: Seq<u8>| input@ == b64_of(bs) ==> r is Some,
{
    match b64_decode_raw(input) {
        Ok(v) => Some(v),
        Err(_) => None,
    }
}

/// Where a storage node keeps the file at a global path on its local disk:
/// under its local directory, which must not end in a separator.
pub fn global_to_local(local_dir: &str, global_path: &str) -> (r: String)
    ensures
        r@ == local_dir@ + global_path@,
{
    local_dir.to_owned().concat(global_path)
}

/// The global path of a file found on a storage node's local disk: the local
/// path with the node's local directory stripped.
pub fn local_to_global<'a>(local_dir: &str, local_path: &'a str) -> (r: &'a str)
    requires
        local_path@.len() >= local_dir@.len(),
        local_path@.subrange(0, local_dir@.len() as int) == local_dir@,
    ensures
        r@ == local_path@.skip(local_dir@.len() as int),
{
    let k = local_dir.unicode_len();
    let n = local_path.unicode_len();
    let r = local_path.substring_char(k, n);
    proof {
        assert(local_path@.subrange(k as int, n as int) =~= local_path@.skip(k as int));
    }
    r
}

/// Validates the requested length of a byte-range read: a negative length
/// exceeds the file bounds by definition.
pub fn check_read_length(length: i32) -> (r: Result<usize, TinyDfsError>)
    ensures
        match r {
            Ok(l) => length >= 0 && l == length,
            Err(e) => length < 0 && e == TinyDfsError::IndexOutOfBound,
        },
{
    if length < 0 {
        Err(TinyDfsError::IndexOutOfBound)
    } else {
        Ok(length as usize)
    }
}

/// Classifies one failed local read or write from what the I/O layer
/// reports: reading past the end exceeds the file bounds, an interruption is
/// its own kind, and anything else counts as a missing file.
pub fn io_failure_error(unexpected_eof: bool, interrupted: bool) -> (r: TinyDfsError)
    ensures
        r == (if unexpected_eof {
            TinyDfsError::IndexOutOfBound
        } else if interrupted {
            TinyDfsError::IOInterrupted
        } else {
            TinyDfsError::FileNotFound
        }),
{
    if unexpected_eof {
        TinyDfsError::IndexOutOfBound
    } else if interrupted {
        TinyDfsError::IOInterrupted
    } else {
        TinyDfsError::FileNotFound
    }
}

} // verus!
