//! Blobs: how many are read and written at once, and what is answered.
use vstd::prelude::*;

use crate::numerals::parse_unsigned;
use crate::numerals::unsigned_number;
use crate::order::opt_view;
use vstd::utf8::encode_utf8;

verus! {

/// How many blobs are read and written at once, where nothing is set.
pub const DEFAULT_BLOB_IO_MAX_CONCURRENCY: u64 = 32;

/// How many blobs are read and written at once: as it is set, where that is a
/// number above zero.
pub open spec fn concurrency(set: Option<Seq<char>>) -> u64 {
    match set {
        Some(t) => match unsigned_number(t) {
            Some(n) => if n > 0 {
                n
            } else {
                DEFAULT_BLOB_IO_MAX_CONCURRENCY
            },
            None => DEFAULT_BLOB_IO_MAX_CONCURRENCY,
        },
        None => DEFAULT_BLOB_IO_MAX_CONCURRENCY,
    }
}

/// How many blobs are read and written at once.
pub fn blob_io_limit(set: &Option<String>) -> (r: u64)
    ensures
        r == concurrency(opt_view(*set)),
        r > 0,
{
    match set {
        Some(t) => match parse_unsigned(t.as_str()) {
            Some(n) => if n > 0 {
                n
            } else {
                DEFAULT_BLOB_IO_MAX_CONCURRENCY
            },
            None => DEFAULT_BLOB_IO_MAX_CONCURRENCY,
        },
        None => DEFAULT_BLOB_IO_MAX_CONCURRENCY,
    }
}

/// An answer.
#[derive(Debug)]
pub struct BlobAnswer {
    /// Its status.
    pub status: u16,
    /// Whether its body is a blob rather than a text.
    pub is_blob: bool,
    /// Its body.
    pub body: Vec<u8>,
}

/// An answer with a text.
pub open spec fn says(a: BlobAnswer, status: u16, t: Seq<char>) -> bool {
    a.status == status && !a.is_blob && a.body@ == encode_utf8(t)
}

fn say(status: u16, t: &str) -> (r: BlobAnswer)
    ensures
        says(r, status, t@),
{
    BlobAnswer {
        status,
        is_blob: false,
        body: vstd::slice::slice_to_vec(t.as_bytes()),
    }
}

fn say_nothing(status: u16) -> (r: BlobAnswer)
    ensures
        r.status == status,
        !r.is_blob,
        r.body@.len() == 0,
{
    BlobAnswer { status, is_blob: false, body: Vec::new() }
}

/// The answer to storing a blob, by what came of it; `None` is for no store.
pub fn put_blob(stored: Option<Result<(), String>>) -> (r: BlobAnswer)
    ensures
        match stored {
            None => says(r, 503, "Blob storage requires Turso"@),
            Some(Ok(_)) => r.status == 204 && !r.is_blob && r.body@.len() == 0,
            Some(Err(m)) => says(r, 500, m@),
        },
{
    match stored {
        None => say(503, "Blob storage requires Turso"),
        Some(Ok(_)) => say_nothing(204),
        Some(Err(m)) => say(500, m.as_str()),
    }
}

/// The answer to a question for a blob, by what came of it; `None` is for no
/// store.
pub fn get_blob(found: Option<Result<Option<Vec<u8>>, String>>) -> (r: BlobAnswer)
    ensures
        match found {
            None => says(r, 503, "Blob storage requires Turso"@),
            Some(Ok(Some(b))) => r.status == 200 && r.is_blob && r.body@ == b@,
            Some(Ok(None)) => r.status == 404 && !r.is_blob && r.body@.len() == 0,
            Some(Err(m)) => says(r, 500, m@),
        },
{
    match found {
        None => say(503, "Blob storage requires Turso"),
        Some(Ok(Some(b))) => BlobAnswer { status: 200, is_blob: true, body: b },
        Some(Ok(None)) => say_nothing(404),
        Some(Err(m)) => say(500, m.as_str()),
    }
}

} // verus!
