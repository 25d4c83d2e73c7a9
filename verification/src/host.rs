//! The host functions that guests call: how each takes its arguments from the
//! guest's memory, and what it leaves there and returns.
use vstd::prelude::*;
use vstd::utf8::decode_utf8;
use vstd::utf8::encode_utf8;
use vstd::utf8::valid_utf8;

use crate::guest::bytes_at;
use crate::guest::guest_length;
use crate::guest::offer_text;
use crate::guest::offered;
use crate::guest::read_bytes;
use crate::guest::read_text;
use crate::guest::text_at;
use crate::guest::text_from_utf8;
use crate::guest::wrapped;
use crate::guest::write_bytes;
use crate::guest::written;
use crate::json_text::json_read_pairs;
use crate::json_text::parse_header_pairs;
use crate::order::opt_view;
use crate::order::views;
use crate::streams::StreamRegistry;
use crate::text::cat2;
use crate::text::cat3;
use crate::text::decimal;
use crate::text::decimal_text;
use crate::text::same;
use crate::wasm::hash_bytes;
use crate::wasm::sha256_hex;

verus! {

/// A place in guest memory that a guest passes to the host.
#[derive(Clone, Copy, Debug, PartialEq, Eq, Structural)]
pub struct Slot {
    /// Where it begins.
    pub ptr: i32,
    /// How many bytes it has.
    pub len: i32,
}

/// The text in a slot.
pub open spec fn slot_text(mem: Seq<u8>, s: Slot) -> Seq<char> {
    text_at(mem, s.ptr as int, s.len as int)
}

/// The text in a slot; a slot without bytes holds the empty text.
pub open spec fn optional_text(mem: Seq<u8>, s: Slot) -> Seq<char> {
    if s.len > 0 {
        slot_text(mem, s)
    } else {
        Seq::empty()
    }
}

/// The headers in a slot: pairs of strings in JSON, or none where there are no
/// such pairs.
pub open spec fn slot_headers(mem: Seq<u8>, s: Slot) -> Seq<(Seq<char>, Seq<char>)> {
    if s.len > 0 {
        match json_read_pairs(bytes_at(mem, s.ptr as int, s.len as int)) {
            Some(h) => h,
            None => Seq::empty(),
        }
    } else {
        Seq::empty()
    }
}

fn read_slot(mem: &[u8], s: Slot) -> (r: String)
    requires
        s.len >= 0,
    ensures
        r@ == slot_text(mem@, s),
{
    read_text(mem, s.ptr, s.len)
}

fn read_optional(mem: &[u8], s: Slot) -> (r: String)
    ensures
        r@ == optional_text(mem@, s),
{
    if s.len > 0 {
        read_text(mem, s.ptr, s.len)
    } else {
        let t = String::new();
        assert(t@ =~= Seq::empty());
        t
    }
}

fn read_headers(mem: &[u8], s: Slot) -> (r: Vec<(String, String)>)
    ensures
        views(r@) == slot_headers(mem@, s),
{
    if s.len > 0 {
        let b = read_bytes(mem, s.ptr, s.len);
        parse_header_pairs(b.as_slice())
    } else {
        let v: Vec<(String, String)> = Vec::new();
        assert(views(v@) =~= Seq::empty());
        v
    }
}

/// A line for the log: its level and its message.
pub fn read_log_line(mem: &[u8], level: Slot, message: Slot) -> (r: (String, String))
    requires
        level.len >= 0,
        message.len >= 0,
    ensures
        r.0@ == slot_text(mem@, level),
        r.1@ == slot_text(mem@, message),
{
    (read_slot(mem, level), read_slot(mem, message))
}

/// Reads the context of the run: returns its length in bytes, and writes it to
/// the buffer where the buffer is large enough.
pub fn host_get_context(mem: &mut [u8], context: &str, buffer: Slot) -> (r: i32)
    ensures
        r == wrapped(encode_utf8(context@).len()),
        final(mem)@ == offered(
            old(mem)@,
            encode_utf8(context@),
            buffer.ptr as int,
            buffer.len as int,
        ),
{
    offer_text(mem, context, buffer.ptr, buffer.len)
}

/// Sets the result of the run to the text in a slot; bytes that are no UTF-8 set
/// nothing.
pub fn host_set_result(mem: &[u8], slot: Slot, result: &mut Option<String>)
    requires
        slot.len >= 0,
    ensures
        ({
            let b = bytes_at(mem@, slot.ptr as int, slot.len as int);
            opt_view(*final(result)) == if valid_utf8(b) {
                Some(decode_utf8(b))
            } else {
                opt_view(*old(result))
            }
        }),
{
    let b = read_bytes(mem, slot.ptr, slot.len);
    if let Ok(t) = text_from_utf8(b) {
        *result = Some(t);
    }
}

/// The key of the secret that a guest asks for.
pub fn read_secret_key(mem: &[u8], key: Slot) -> (r: String)
    requires
        key.len >= 0,
    ensures
        r@ == slot_text(mem@, key),
{
    read_slot(mem, key)
}

/// Hands a secret to a guest: returns its length in bytes, and writes it to the
/// buffer where the buffer is large enough; -1 where there is no secret.
pub fn give_secret(mem: &mut [u8], secret: &Option<String>, buffer: Slot) -> (r: i32)
    ensures
        match secret {
            Some(s) => r == wrapped(encode_utf8(s@).len()) && final(mem)@ == offered(
                old(mem)@,
                encode_utf8(s@),
                buffer.ptr as int,
                buffer.len as int,
            ),
            None => r == -1 && final(mem)@ == old(mem)@,
        },
{
    match secret {
        Some(s) => offer_text(mem, s.as_str(), buffer.ptr, buffer.len),
        None => -1,
    }
}

/// A request that a guest wants sent.
pub struct HttpRequest {
    /// Its method.
    pub method: String,
    /// Where to.
    pub url: String,
    /// Its headers.
    pub headers: Vec<(String, String)>,
    /// Its body.
    pub body: String,
}

/// The request that a guest wants sent.
pub fn read_http_request(
    mem: &[u8],
    method: Slot,
    url: Slot,
    headers: Slot,
    body: Slot,
) -> (r: HttpRequest)
    requires
        method.len >= 0,
        url.len >= 0,
    ensures
        r.method@ == slot_text(mem@, method),
        r.url@ == slot_text(mem@, url),
        views(r.headers@) == slot_headers(mem@, headers),
        r.body@ == optional_text(mem@, body),
{
    HttpRequest {
        method: read_slot(mem, method),
        url: read_slot(mem, url),
        headers: read_headers(mem, headers),
        body: read_optional(mem, body),
    }
}

/// A response as a guest sees it: the status, a line end, the body.
pub open spec fn response_text(status: u16, body: Seq<char>) -> Seq<char> {
    decimal(status as nat) + "\n"@ + body
}

/// Hands a response to a guest: returns its length in bytes; -1 where there is
/// none, -2 where the buffer is too small.
pub fn give_response(
    mem: &mut [u8],
    response: &Option<(u16, String)>,
    buffer: Slot,
) -> (r: i32)
    ensures
        match response {
            Some((status, body)) => {
                let b = encode_utf8(response_text(*status, body@));
                if 0 <= buffer.len < b.len() {
                    r == -2 && final(mem)@ == old(mem)@
                } else {
                    r == wrapped(b.len()) && final(mem)@ == written(
                        old(mem)@,
                        buffer.ptr as int,
                        b,
                    )
                }
            },
            None => r == -1 && final(mem)@ == old(mem)@,
        },
{
    match response {
        Some((status, body)) => {
            let code = decimal_text(*status as u64);
            let text = cat3(code.as_str(), "\n", body.as_str());
            let b = text.as_str().as_bytes();
            if buffer.len >= 0 && b.len() as u64 > buffer.len as u64 {
                return -2;
            }
            let n: i32 = guest_length(b.len());
            let done = write_bytes(mem, buffer.ptr, b);
            n
        },
        None => -1,
    }
}

/// A request that a guest wants sent, with streams for its two bodies.
pub struct StreamRequest {
    /// Its method.
    pub method: String,
    /// Where to.
    pub url: String,
    /// Its headers.
    pub headers: Vec<(String, String)>,
    /// The stream with its body; empty for none.
    pub body_stream_id: String,
    /// The stream for the body of the response; empty for none.
    pub response_stream_id: String,
}

/// The request that a guest wants sent, with streams for its two bodies.
pub fn read_stream_request(
    mem: &[u8],
    method: Slot,
    url: Slot,
    headers: Slot,
    body_stream: Slot,
    response_stream: Slot,
) -> (r: StreamRequest)
    requires
        method.len >= 0,
        url.len >= 0,
    ensures
        r.method@ == slot_text(mem@, method),
        r.url@ == slot_text(mem@, url),
        views(r.headers@) == slot_headers(mem@, headers),
        r.body_stream_id@ == optional_text(mem@, body_stream),
        r.response_stream_id@ == optional_text(mem@, response_stream),
{
    StreamRequest {
        method: read_slot(mem, method),
        url: read_slot(mem, url),
        headers: read_headers(mem, headers),
        body_stream_id: read_optional(mem, body_stream),
        response_stream_id: read_optional(mem, response_stream),
    }
}

/// The bytes of the stream that is the body of a request; none where no stream is
/// named, or there is no such stream.
pub fn stream_body(streams: &StreamRegistry, id: &str) -> (r: Vec<u8>)
    requires
        streams.wf(),
    ensures
        r@ == if id@.len() > 0 && streams.streams@.contains_key(id@) {
            streams.streams@[id@]
        } else {
            Seq::empty()
        },
{
    if !id.is_empty() {
        if let Some(b) = streams.get_stream(id) {
            return vstd::slice::slice_to_vec(b.as_slice());
        }
    }
    let none: Vec<u8> = Vec::new();
    assert(none@ =~= Seq::empty());
    none
}

/// Takes in a response: its body, if it has one, becomes a stream, where one is
/// named for it. Returns the status, or -1 where there is no response.
pub fn keep_response(
    streams: &mut StreamRegistry,
    id: &str,
    response: Option<(u16, Vec<u8>)>,
) -> (r: i32)
    requires
        old(streams).wf(),
    ensures
        final(streams).wf(),
        final(streams).cache == old(streams).cache,
        match response {
            Some((status, body)) => r == status && final(streams).streams@ == if id@.len() > 0
                && body@.len() > 0 {
                old(streams).streams@.insert(id@, body@)
            } else {
                old(streams).streams@
            },
            None => r == -1 && final(streams).streams == old(streams).streams,
        },
{
    match response {
        Some((status, body)) => {
            if !id.is_empty() && body.len() > 0 {
                streams.store_stream(id, body);
            }
            status as i32
        },
        None => -1,
    }
}

/// Whether something is cached under the key in a slot: 1 or 0.
pub fn host_cache_contains(mem: &[u8], streams: &StreamRegistry, key: Slot) -> (r: i32)
    requires
        streams.wf(),
        key.len >= 0,
    ensures
        r == if streams.cache@.contains_key(slot_text(mem@, key)) {
            1int
        } else {
            0int
        },
{
    let k = read_slot(mem, key);
    if streams.cache_contains(k.as_str()) {
        1
    } else {
        0
    }
}

/// Makes what is cached under a key a stream; returns the number of bytes, or -1
/// where nothing is cached.
pub fn host_cache_to_stream(
    mem: &[u8],
    streams: &mut StreamRegistry,
    key: Slot,
    id: Slot,
) -> (r: i32)
    requires
        old(streams).wf(),
        key.len >= 0,
        id.len >= 0,
    ensures
        final(streams).wf(),
        final(streams).cache == old(streams).cache,
        ({
            let k = slot_text(mem@, key);
            if old(streams).cache@.contains_key(k) {
                let b = old(streams).cache@[k];
                r == wrapped(b.len()) && final(streams).streams@ == old(streams).streams@.insert(
                    slot_text(mem@, id),
                    b,
                )
            } else {
                r == -1 && final(streams).streams == old(streams).streams
            }
        }),
{
    let k = read_slot(mem, key);
    let i = read_slot(mem, id);
    match streams.cache_to_stream(k.as_str(), i.as_str()) {
        Some(n) => guest_length(n),
        None => -1,
    }
}

/// Caches the bytes of a stream, which stays; returns 0, or -1 where there is no
/// such stream.
pub fn host_cache_from_stream(
    mem: &[u8],
    streams: &mut StreamRegistry,
    key: Slot,
    id: Slot,
) -> (r: i32)
    requires
        old(streams).wf(),
        key.len >= 0,
        id.len >= 0,
    ensures
        final(streams).wf(),
        final(streams).streams == old(streams).streams,
        ({
            let i = slot_text(mem@, id);
            if old(streams).streams@.contains_key(i) {
                r == 0 && final(streams).cache@ == old(streams).cache@.insert(
                    slot_text(mem@, key),
                    old(streams).streams@[i],
                )
            } else {
                r == -1 && final(streams).cache == old(streams).cache
            }
        }),
{
    let k = read_slot(mem, key);
    let i = read_slot(mem, id);
    let b = match streams.get_stream(i.as_str()) {
        Some(b) => vstd::slice::slice_to_vec(b.as_slice()),
        None => {
            return -1;
        },
    };
    streams.cache_put(k.as_str(), b);
    0
}

/// The hash of the stream and the algorithm named, in words; none where there is
/// no such stream, or the algorithm is not known.
pub open spec fn stream_hash(
    streams: Map<Seq<char>, Seq<u8>>,
    id: Seq<char>,
    algorithm: Seq<char>,
) -> Option<Seq<char>> {
    if streams.contains_key(id) && algorithm == "sha256"@ {
        Some("sha256:"@ + sha256_hex(streams[id]))
    } else {
        None
    }
}

/// Hashes a stream: writes the hash to the buffer and returns its length; -1
/// where there is no hash, or the buffer is too small for it.
pub fn host_hash_stream(
    mem: &mut [u8],
    streams: &StreamRegistry,
    id: Slot,
    algorithm: Slot,
    buffer: Slot,
) -> (r: i32)
    requires
        streams.wf(),
        id.len >= 0,
        algorithm.len >= 0,
    ensures
        match stream_hash(
            streams.streams@,
            slot_text(old(mem)@, id),
            slot_text(old(mem)@, algorithm),
        ) {
            Some(h) => {
                let b = encode_utf8(h);
                if 0 <= buffer.len < b.len() {
                    r == -1 && final(mem)@ == old(mem)@
                } else {
                    r == wrapped(b.len()) && final(mem)@ == written(
                        old(mem)@,
                        buffer.ptr as int,
                        b,
                    )
                }
            },
            None => r == -1 && final(mem)@ == old(mem)@,
        },
{
    let i = read_slot(mem, id);
    let a = read_slot(mem, algorithm);
    let text = match streams.get_stream(i.as_str()) {
        Some(b) => {
            if !same(a.as_str(), "sha256") {
                return -1;
            }
            let h = hash_bytes(b.as_slice());
            cat2("sha256:", h.as_str())
        },
        None => {
            return -1;
        },
    };
    let b = text.as_str().as_bytes();
    if buffer.len >= 0 && b.len() as u64 > buffer.len as u64 {
        return -1;
    }
    let n: i32 = guest_length(b.len());
    let done = write_bytes(mem, buffer.ptr, b);
    n
}

} // verus!
