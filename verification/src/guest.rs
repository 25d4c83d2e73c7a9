//! The memory of a guest module, and the text that passes through it.
use vstd::prelude::*;
use vstd::utf8::decode_utf8;
use vstd::utf8::encode_utf8;
use vstd::utf8::valid_utf8;

verus! {

/// The text that `String::from_utf8_lossy` makes of bytes.
pub uninterp spec fn lossy_text(b: Seq<u8>) -> Seq<char>;

/// The text of the error that `String::from_utf8` returns for bytes that are no
/// UTF-8.
pub uninterp spec fn utf8_error(b: Seq<u8>) -> Seq<char>;

/// `String::from_utf8_lossy`: the text is a function of the bytes alone, and
/// where the bytes are UTF-8 it is what they encode.
#[verifier::external_body]
fn from_lossy(b: &Vec<u8>) -> (r: String)
    ensures
        r@ == lossy_text(b@),
        valid_utf8(b@) ==> r@ == decode_utf8(b@),
{
    String::from_utf8_lossy(b).to_string()
}

/// `String::from_utf8`: the text that the bytes encode, or, where they are no
/// UTF-8, an error whose text is a function of the bytes alone.
#[verifier::external_body]
fn from_strict(b: Vec<u8>) -> (r: Result<String, String>)
    ensures
        match r {
            Ok(t) => valid_utf8(b@) && t@ == decode_utf8(b@),
            Err(m) => !valid_utf8(b@) && m@ == utf8_error(b@),
        },
{
    String::from_utf8(b).map_err(|e| e.to_string())
}

/// The text of bytes: what they encode, with replacement characters where they
/// are no UTF-8.
pub open spec fn readable(b: Seq<u8>) -> Seq<char> {
    if valid_utf8(b) {
        decode_utf8(b)
    } else {
        lossy_text(b)
    }
}

/// The text of bytes, with replacement characters where they are no UTF-8.
pub fn text_from_lossy(b: &Vec<u8>) -> (r: String)
    ensures
        r@ == readable(b@),
{
    from_lossy(b)
}

/// The text that bytes encode, or what is wrong with them.
pub fn text_from_utf8(b: Vec<u8>) -> (r: Result<String, String>)
    ensures
        match r {
            Ok(t) => valid_utf8(b@) && t@ == decode_utf8(b@),
            Err(m) => !valid_utf8(b@) && m@ == utf8_error(b@),
        },
{
    from_strict(b)
}

/// `n`, wrapped round to 32 bits with sign.
pub open spec fn wrapped(n: nat) -> i32 {
    let m = n % 0x1_0000_0000;
    if m < 0x8000_0000 {
        m as i32
    } else {
        (m - 0x1_0000_0000) as i32
    }
}

/// A length as the guest sees it: wrapped round to 32 bits with sign.
pub fn guest_length(n: usize) -> (r: i32)
    ensures
        r == wrapped(n as nat),
{
    let m: u64 = (n as u64) % 0x1_0000_0000;
    if m < 0x8000_0000 {
        m as i32
    } else {
        (m as i64 - 0x1_0000_0000) as i32
    }
}

/// `len` bytes from `ptr` on lie in the memory.
pub open spec fn in_range(mem: Seq<u8>, ptr: int, len: int) -> bool {
    0 <= ptr && 0 <= len && ptr + len <= mem.len()
}

/// What is read of `len` bytes from `ptr` on: the bytes, or zeros where they do
/// not all lie in the memory.
pub open spec fn bytes_at(mem: Seq<u8>, ptr: int, len: int) -> Seq<u8> {
    if in_range(mem, ptr, len) {
        mem.subrange(ptr, ptr + len)
    } else {
        Seq::new(len as nat, |i: int| 0u8)
    }
}

/// The memory after `b` was written from `ptr` on; where `b` does not fit there,
/// nothing is written.
pub open spec fn written(mem: Seq<u8>, ptr: int, b: Seq<u8>) -> Seq<u8> {
    if in_range(mem, ptr, b.len() as int) {
        mem.subrange(0, ptr) + b + mem.subrange(ptr + b.len(), mem.len() as int)
    } else {
        mem
    }
}

/// The text read of `len` bytes from `ptr` on.
pub open spec fn text_at(mem: Seq<u8>, ptr: int, len: int) -> Seq<char> {
    readable(bytes_at(mem, ptr, len))
}

/// What is read back where bytes were written is those bytes, and bytes apart
/// from them stay.
pub proof fn lemma_read_written(mem: Seq<u8>, ptr: int, b: Seq<u8>, at: int, len: int)
    requires
        in_range(mem, ptr, b.len() as int),
    ensures
        bytes_at(written(mem, ptr, b), ptr, b.len() as int) == b,
        written(mem, ptr, b).len() == mem.len(),
        at + len <= ptr || ptr + b.len() <= at ==> bytes_at(written(mem, ptr, b), at, len)
            == bytes_at(mem, at, len),
{
    let w = written(mem, ptr, b);
    assert(bytes_at(w, ptr, b.len() as int) =~= b);
    if at + len <= ptr || ptr + b.len() <= at {
        assert(bytes_at(w, at, len) =~= bytes_at(mem, at, len));
    }
}

fn fits(mem: &[u8], ptr: i32, len: usize) -> (r: bool)
    ensures
        r == in_range(mem@, ptr as int, len as int),
{
    ptr >= 0 && len <= mem.len() && ptr as u64 <= (mem.len() - len) as u64
}

/// The bytes from `ptr` on, or `None` where they do not all lie in the memory.
pub fn read_exact(mem: &[u8], ptr: i32, len: usize) -> (r: Option<Vec<u8>>)
    ensures
        match r {
            Some(b) => in_range(mem@, ptr as int, len as int) && b@ == mem@.subrange(
                ptr as int,
                ptr + len,
            ),
            None => !in_range(mem@, ptr as int, len as int),
        },
{
    if !fits(mem, ptr, len) {
        return None;
    }
    let from: usize = ptr as usize;
    let mut b: Vec<u8> = Vec::new();
    let mut i: usize = 0;
    while i < len
        invariant
            i <= len,
            from == ptr,
            from + len <= mem.len(),
            b@.len() == i,
            forall|j: int| 0 <= j < i ==> #[trigger] b@[j] == mem@[from + j],
        decreases len - i,
    {
        b.push(mem[from + i]);
        i = i + 1;
    }
    assert(b@ =~= mem@.subrange(ptr as int, ptr + len));
    Some(b)
}

/// The bytes from `ptr` on, or zeros where they do not all lie in the memory.
pub fn read_bytes(mem: &[u8], ptr: i32, len: i32) -> (r: Vec<u8>)
    requires
        len >= 0,
    ensures
        r@ == bytes_at(mem@, ptr as int, len as int),
{
    match read_exact(mem, ptr, len as usize) {
        Some(b) => b,
        None => {
            let mut b: Vec<u8> = Vec::new();
            let mut i: i32 = 0;
            while i < len
                invariant
                    0 <= i <= len,
                    b@ =~= Seq::new(i as nat, |j: int| 0u8),
                decreases len - i,
            {
                b.push(0);
                i = i + 1;
            }
            b
        },
    }
}

/// The text from `ptr` on.
pub fn read_text(mem: &[u8], ptr: i32, len: i32) -> (r: String)
    requires
        len >= 0,
    ensures
        r@ == text_at(mem@, ptr as int, len as int),
{
    let b = read_bytes(mem, ptr, len);
    text_from_lossy(&b)
}

/// Writes `b` from `ptr` on, where it fits; says whether it did.
pub fn write_bytes(mem: &mut [u8], ptr: i32, b: &[u8]) -> (r: bool)
    ensures
        final(mem)@ == written(old(mem)@, ptr as int, b@),
        r == in_range(old(mem)@, ptr as int, b@.len() as int),
{
    if !fits(mem, ptr, b.len()) {
        return false;
    }
    let ghost all = mem@;
    let from: usize = ptr as usize;
    let mut i: usize = 0;
    assert(mem@ =~= written(all, ptr as int, b@.take(0)));
    while i < b.len()
        invariant
            i <= b@.len(),
            from == ptr,
            from + b@.len() <= mem.len(),
            mem@ == written(all, ptr as int, b@.take(i as int)),
            mem@.len() == all.len(),
        decreases b@.len() - i,
    {
        mem[from + i] = b[i];
        assert(mem@ =~= written(all, ptr as int, b@.take(i + 1)));
        i = i + 1;
    }
    assert(b@.take(i as int) =~= b@);
    true
}

/// A text is offered to a guest that has a buffer of `room` bytes for it; a
/// negative `room` is no limit. Returns its length in bytes, and writes it where
/// the buffer is large enough.
pub fn offer_text(mem: &mut [u8], text: &str, ptr: i32, room: i32) -> (r: i32)
    ensures
        r == wrapped(encode_utf8(text@).len()),
        final(mem)@ == offered(old(mem)@, encode_utf8(text@), ptr as int, room as int),
{
    let b = text.as_bytes();
    let n: i32 = guest_length(b.len());
    if room >= 0 && (room as u64) < b.len() as u64 {
        return n;
    }
    let done = write_bytes(mem, ptr, b);
    n
}

/// The memory after `b` was offered to a buffer of `room` bytes at `ptr`.
pub open spec fn offered(mem: Seq<u8>, b: Seq<u8>, ptr: int, room: int) -> Seq<u8> {
    if 0 <= room < b.len() {
        mem
    } else {
        written(mem, ptr, b)
    }
}

/// A text passes through the memory unchanged: offered to a buffer that has room
/// for it and lies in the memory, it is what is read there.
pub proof fn lemma_text_passes(mem: Seq<u8>, t: Seq<char>, ptr: int, room: int)
    requires
        encode_utf8(t).len() <= room,
        in_range(mem, ptr, encode_utf8(t).len() as int),
    ensures
        text_at(offered(mem, encode_utf8(t), ptr, room), ptr, encode_utf8(t).len() as int) == t,
{
    let b = encode_utf8(t);
    lemma_read_written(mem, ptr, b, 0, 0);
    vstd::utf8::encode_utf8_valid_utf8(t);
    vstd::utf8::encode_utf8_decode_utf8(t);
}

} // verus!
