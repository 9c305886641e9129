//! Primitive SSH wire encodings: big-endian integers, booleans, length-prefixed
//! strings and name-lists.
use vstd::prelude::*;
use vstd::utf8::{decode_utf8, valid_utf8};

verus! {

/// The big-endian value of the four bytes of `s` starting at `i`.
pub open spec fn u32_at(s: Seq<u8>, i: int) -> u32 {
    (s[i] as int * 0x1000000 + s[i + 1] as int * 0x10000 + s[i + 2] as int * 0x100 + s[
        i + 3
    ] as int) as u32
}

/// The four big-endian bytes of `n`.
pub open spec fn u32_bytes(n: u32) -> Seq<u8> {
    seq![
        (n / 0x1000000) as u8,
        (n / 0x10000 % 0x100) as u8,
        (n / 0x100 % 0x100) as u8,
        (n % 0x100) as u8,
    ]
}

pub open spec fn bool_bytes(b: bool) -> Seq<u8> {
    seq![if b { 1u8 } else { 0u8 }]
}

/// `uint32 length || bytes`.
pub open spec fn string_bytes(s: Seq<u8>) -> Seq<u8> {
    u32_bytes(s.len() as u32) + s
}

/// Decoding reads back what encoding wrote.
pub proof fn lemma_u32_round_trip(n: u32)
    ensures
        u32_bytes(n).len() == 4,
        u32_at(u32_bytes(n), 0) == n,
{
    let b = u32_bytes(n);
    assert(b[0] as int == n / 0x1000000);
    assert(b[1] as int == n / 0x10000 % 0x100);
    assert(b[2] as int == n / 0x100 % 0x100);
    assert(b[3] as int == n % 0x100);
    assert((n / 0x1000000) * 0x1000000 + (n / 0x10000 % 0x100) * 0x10000 + (n / 0x100 % 0x100)
        * 0x100 + n % 0x100 == n) by (bit_vector);
}

/// Encoding writes back the bytes that decoding read.
pub proof fn lemma_u32_bytes_of_at(s: Seq<u8>, i: int)
    requires
        0 <= i,
        i + 4 <= s.len(),
    ensures
        u32_bytes(u32_at(s, i)) == s.subrange(i, i + 4),
{
    let (a, b, c, d) = (s[i], s[i + 1], s[i + 2], s[i + 3]);
    let v = u32_at(s, i);
    assert(v as int == a as int * 0x1000000 + b as int * 0x10000 + c as int * 0x100 + d as int);
    let v32: u32 = v;
    assert(v32 == (a as u32) * 0x1000000 + (b as u32) * 0x10000 + (c as u32) * 0x100 + (d as u32));
    assert(((a as u32) * 0x1000000 + (b as u32) * 0x10000 + (c as u32) * 0x100 + (d as u32))
        / 0x1000000 == a as u32) by (bit_vector);
    assert(((a as u32) * 0x1000000 + (b as u32) * 0x10000 + (c as u32) * 0x100 + (d as u32))
        / 0x10000 % 0x100 == b as u32) by (bit_vector);
    assert(((a as u32) * 0x1000000 + (b as u32) * 0x10000 + (c as u32) * 0x100 + (d as u32))
        / 0x100 % 0x100 == c as u32) by (bit_vector);
    assert(((a as u32) * 0x1000000 + (b as u32) * 0x10000 + (c as u32) * 0x100 + (d as u32))
        % 0x100 == d as u32) by (bit_vector);
    assert(u32_bytes(v) =~= s.subrange(i, i + 4));
}

// ---- Reading -------------------------------------------------------------
pub open spec fn take_u8(s: Seq<u8>, pos: int) -> Option<(u8, int)> {
    if 0 <= pos < s.len() {
        Some((s[pos], pos + 1))
    } else {
        None
    }
}

pub open spec fn take_bool(s: Seq<u8>, pos: int) -> Option<(bool, int)> {
    match take_u8(s, pos) {
        Some((b, next)) => Some((b != 0, next)),
        None => None,
    }
}

pub open spec fn take_u32(s: Seq<u8>, pos: int) -> Option<(u32, int)> {
    if 0 <= pos && pos + 4 <= s.len() {
        Some((u32_at(s, pos), pos + 4))
    } else {
        None
    }
}

pub open spec fn take_string(s: Seq<u8>, pos: int) -> Option<(Seq<u8>, int)> {
    match take_u32(s, pos) {
        Some((len, start)) => if start + len <= s.len() {
            Some((s.subrange(start, start + len), start + len))
        } else {
            None
        },
        None => None,
    }
}

/// A string whose bytes must be valid UTF-8.
pub open spec fn take_utf8(s: Seq<u8>, pos: int) -> Option<(Seq<char>, int)> {
    match take_string(s, pos) {
        Some((b, next)) => if valid_utf8(b) {
            Some((decode_utf8(b), next))
        } else {
            None
        },
        None => None,
    }
}

pub fn read_u8(buf: &[u8], pos: usize) -> (r: Option<(u8, usize)>)
    ensures
        match take_u8(buf@, pos as int) {
            Some((v, next)) => r matches Some((w, n)) && w == v && n == next,
            None => r is None,
        },
{
    if pos < buf.len() {
        Some((buf[pos], pos + 1))
    } else {
        None
    }
}

pub fn read_bool(buf: &[u8], pos: usize) -> (r: Option<(bool, usize)>)
    ensures
        match take_bool(buf@, pos as int) {
            Some((v, next)) => r matches Some((w, n)) && w == v && n == next,
            None => r is None,
        },
{
    match read_u8(buf, pos) {
        Some((b, next)) => Some((b != 0, next)),
        None => None,
    }
}

pub fn read_u32(buf: &[u8], pos: usize) -> (r: Option<(u32, usize)>)
    ensures
        match take_u32(buf@, pos as int) {
            Some((v, next)) => r matches Some((w, n)) && w == v && n == next,
            None => r is None,
        },
{
    if pos <= buf.len() && buf.len() - pos >= 4 {
        let v: u32 = (buf[pos] as u32) * 0x1000000 + (buf[pos + 1] as u32) * 0x10000 + (buf[pos
            + 2] as u32) * 0x100 + (buf[pos + 3] as u32);
        Some((v, pos + 4))
    } else {
        None
    }
}

pub fn slice_to_vec(buf: &[u8], start: usize, end: usize) -> (r: Vec<u8>)
    requires
        start <= end <= buf@.len(),
    ensures
        r@ == buf@.subrange(start as int, end as int),
{
    let mut out: Vec<u8> = Vec::new();
    let mut i: usize = start;
    while i < end
        invariant
            start <= i <= end <= buf@.len(),
            out@ == buf@.subrange(start as int, i as int),
        decreases end - i,
    {
        out.push(buf[i]);
        i = i + 1;
    }
    out
}

pub fn read_string(buf: &[u8], pos: usize) -> (r: Option<(Vec<u8>, usize)>)
    ensures
        match take_string(buf@, pos as int) {
            Some((v, next)) => r matches Some((w, n)) && w@ == v && n == next,
            None => r is None,
        },
{
    match read_u32(buf, pos) {
        Some((len, start)) => {
            if buf.len() - start >= len as usize {
                let end = start + len as usize;
                Some((slice_to_vec(buf, start, end), end))
            } else {
                None
            }
        },
        None => None,
    }
}

/// Relies on `String::from_utf8`: succeeds exactly on valid UTF-8 and keeps the text.
#[verifier::external_body]
fn string_from_utf8(b: Vec<u8>) -> (r: Option<String>)
    ensures
        match r {
            Some(s) => valid_utf8(b@) && s@ == decode_utf8(b@),
            None => !valid_utf8(b@),
        },
{
    String::from_utf8(b).ok()
}

/// Relies on `std::str::from_utf8`: accepts exactly the valid UTF-8 byte strings.
#[verifier::external_body]
pub(crate) fn utf8_valid(b: &[u8]) -> (r: bool)
    ensures
        r == valid_utf8(b@),
{
    std::str::from_utf8(b).is_ok()
}

pub fn read_utf8(buf: &[u8], pos: usize) -> (r: Option<(String, usize)>)
    ensures
        match take_utf8(buf@, pos as int) {
            Some((v, next)) => r matches Some((w, n)) && w@ == v && n == next,
            None => r is None,
        },
{
    match read_string(buf, pos) {
        Some((bytes, next)) => match string_from_utf8(bytes) {
            Some(s) => Some((s, next)),
            None => None,
        },
        None => None,
    }
}

/// Whether two byte strings are equal.
pub fn bytes_eq(a: &[u8], b: &[u8]) -> (r: bool)
    ensures
        r == (a@ == b@),
{
    if a.len() != b.len() {
        return false;
    }
    let mut i: usize = 0;
    while i < a.len()
        invariant
            a@.len() == b@.len(),
            i <= a@.len(),
            a@.subrange(0, i as int) == b@.subrange(0, i as int),
        decreases a@.len() - i,
    {
        if a[i] != b[i] {
            assert(a@[i as int] != b@[i as int]);
            return false;
        }
        assert(a@.subrange(0, i + 1) =~= a@.subrange(0, i as int).push(a@[i as int]));
        assert(b@.subrange(0, i + 1) =~= b@.subrange(0, i as int).push(b@[i as int]));
        i = i + 1;
    }
    assert(a@ =~= a@.subrange(0, i as int));
    assert(b@ =~= b@.subrange(0, i as int));
    true
}

// ---- Writing -------------------------------------------------------------
pub fn write_u8(out: &mut Vec<u8>, v: u8)
    ensures
        final(out)@ == old(out)@.push(v),
{
    out.push(v);
}

pub fn write_bool(out: &mut Vec<u8>, v: bool)
    ensures
        final(out)@ == old(out)@ + bool_bytes(v),
{
    out.push(if v { 1u8 } else { 0u8 });
    assert(final(out)@ =~= old(out)@ + bool_bytes(v));
}

pub fn write_u32(out: &mut Vec<u8>, n: u32)
    ensures
        final(out)@ == old(out)@ + u32_bytes(n),
{
    out.push((n / 0x1000000) as u8);
    out.push((n / 0x10000 % 0x100) as u8);
    out.push((n / 0x100 % 0x100) as u8);
    out.push((n % 0x100) as u8);
    assert(final(out)@ =~= old(out)@ + u32_bytes(n));
}

pub fn write_bytes(out: &mut Vec<u8>, data: &[u8])
    ensures
        final(out)@ == old(out)@ + data@,
{
    let ghost start = out@;
    let mut i: usize = 0;
    while i < data.len()
        invariant
            i <= data@.len(),
            out@ == start + data@.subrange(0, i as int),
        decreases data@.len() - i,
    {
        out.push(data[i]);
        assert(data@.subrange(0, i + 1) =~= data@.subrange(0, i as int).push(data@[i as int]));
        i = i + 1;
    }
    assert(data@.subrange(0, i as int) =~= data@);
}

pub fn write_string(out: &mut Vec<u8>, data: &[u8])
    requires
        data@.len() <= u32::MAX,
    ensures
        final(out)@ == old(out)@ + string_bytes(data@),
{
    write_u32(out, data.len() as u32);
    write_bytes(out, data);
    assert(final(out)@ =~= old(out)@ + string_bytes(data@));
}

} // verus!
