//! Little-endian integers and fixed-width fields, as they lie in a message or a record.
//!
//! The model is arithmetic: a run of bytes stands for the number whose digits in
//! base 256 it lists, least significant first.

use vstd::prelude::*;
use vstd::utf8::{decode_utf8, encode_utf8, valid_utf8};

verus! {

/// 256 to the power `n`.
pub open spec fn radix(n: nat) -> nat
    decreases n,
{
    if n == 0 {
        1
    } else {
        256 * radix((n - 1) as nat)
    }
}

/// The number that `bytes` spell, least significant byte first.
pub open spec fn le_value(bytes: Seq<u8>) -> nat
    decreases bytes.len(),
{
    if bytes.len() == 0 {
        0
    } else {
        bytes[0] as nat + 256 * le_value(bytes.drop_first())
    }
}

/// The `width` lowest base-256 digits of `value`, least significant first.
pub open spec fn le_bytes(value: nat, width: nat) -> Seq<u8>
    decreases width,
{
    if width == 0 {
        Seq::empty()
    } else {
        seq![(value % 256) as u8] + le_bytes(value / 256, (width - 1) as nat)
    }
}

/// A signed 64-bit number as the unsigned number with the same two's-complement bits.
pub open spec fn i64_bits(t: i64) -> nat {
    if t >= 0 {
        t as nat
    } else {
        (t + 0x1_0000_0000_0000_0000) as nat
    }
}

/// The signed 64-bit number whose two's-complement bits spell `n`, for `n` below 2^64.
pub open spec fn bits_i64(n: nat) -> i64 {
    if n < 0x8000_0000_0000_0000 {
        n as i64
    } else {
        (n - 0x1_0000_0000_0000_0000) as i64
    }
}

/// Powers of 256 are positive and grow with the exponent.
pub proof fn lemma_radix_grows(a: nat, b: nat)
    requires
        a <= b,
    ensures
        0 < radix(a) <= radix(b),
    decreases b,
{
    if b == 0 {
    } else if a == b {
        lemma_radix_grows(0, (b - 1) as nat);
    } else {
        lemma_radix_grows(a, (b - 1) as nat);
    }
}

/// The powers of 256 that bound the integers on the wire.
pub proof fn lemma_radix_values()
    ensures
        radix(0) == 1,
        radix(1) == 0x100,
        radix(2) == 0x1_0000,
        radix(4) == 0x1_0000_0000,
        radix(7) == 0x100_0000_0000_0000,
        radix(8) == 0x1_0000_0000_0000_0000,
{
    reveal_with_fuel(radix, 9);
}

/// A number written at a width takes that many bytes.
pub proof fn lemma_le_bytes_len(value: nat, width: nat)
    ensures
        le_bytes(value, width).len() == width,
    decreases width,
{
    if width > 0 {
        lemma_le_bytes_len(value / 256, (width - 1) as nat);
    }
}

/// A run of bytes spells a number below 256 to the power of its length.
pub proof fn lemma_le_value_bound(bytes: Seq<u8>)
    ensures
        le_value(bytes) < radix(bytes.len()),
    decreases bytes.len(),
{
    if bytes.len() > 0 {
        lemma_le_value_bound(bytes.drop_first());
    }
}

/// Reading back what was written gives the number, when it fits the width.
pub proof fn lemma_le_value_of_bytes(value: nat, width: nat)
    requires
        value < radix(width),
    ensures
        le_value(le_bytes(value, width)) == value,
    decreases width,
{
    if width > 0 {
        let rest = le_bytes(value / 256, (width - 1) as nat);
        let all = le_bytes(value, width);
        lemma_le_value_of_bytes(value / 256, (width - 1) as nat);
        assert(all.drop_first() =~= rest);
    }
}

/// Writing the number that a run of bytes spells, at the run's length, gives the run.
pub proof fn lemma_le_bytes_of_value(bytes: Seq<u8>)
    ensures
        le_bytes(le_value(bytes), bytes.len()) == bytes,
    decreases bytes.len(),
{
    if bytes.len() > 0 {
        let rest = bytes.drop_first();
        lemma_le_bytes_of_value(rest);
        let v = le_value(bytes);
        assert(v % 256 == bytes[0] as nat && v / 256 == le_value(rest)) by {
            let h = bytes[0] as int;
            let t = le_value(rest) as int;
            assert(v == h + 256 * t);
            assert((h + 256 * t) % 256 == h && (h + 256 * t) / 256 == t) by (nonlinear_arith)
                requires
                    0 <= h < 256,
                    0 <= t,
            ;
        }
        assert(le_bytes(v, bytes.len()) =~= bytes);
    }
}

/// A signed number is read back from its bits.
pub proof fn lemma_i64_bits_round_trip(t: i64)
    ensures
        i64_bits(t) < 0x1_0000_0000_0000_0000,
        bits_i64(i64_bits(t)) == t,
{
}

/// Bits are read back from the signed number they spell.
pub proof fn lemma_bits_i64_round_trip(n: nat)
    requires
        n < 0x1_0000_0000_0000_0000,
    ensures
        i64_bits(bits_i64(n)) == n,
{
}

/// The number spelled by the `width` bytes of `bytes` that start at `at`.
pub fn read_le(bytes: &[u8], at: usize, width: usize) -> (r: u64)
    requires
        width <= 8,
        at + width <= bytes.len(),
    ensures
        r == le_value(bytes@.subrange(at as int, at + width)),
{
    let mut acc: u64 = 0;
    let mut i: usize = width;
    while i > 0
        invariant
            i <= width <= 8,
            at + width <= bytes.len(),
            acc == le_value(bytes@.subrange(at + i, at + width)),
            acc < radix((width - i) as nat),
        decreases i,
    {
        proof {
            lemma_radix_grows((width - i) as nat, 7);
            lemma_radix_values();
            let longer = bytes@.subrange(at + i - 1, at + width);
            assert(longer.drop_first() =~= bytes@.subrange(at + i, at + width));
        }
        i = i - 1;
        acc = acc * 256 + bytes[at + i] as u64;
    }
    acc
}

/// Appends the `width` lowest base-256 digits of `value` to `out`.
pub fn write_le(out: &mut Vec<u8>, value: u64, width: usize)
    requires
        width <= 8,
    ensures
        final(out)@ == old(out)@ + le_bytes(value as nat, width as nat),
{
    let mut rest: u64 = value;
    let mut i: usize = 0;
    while i < width
        invariant
            i <= width,
            out@ + le_bytes(rest as nat, (width - i) as nat) == old(out)@ + le_bytes(
                value as nat,
                width as nat,
            ),
        decreases width - i,
    {
        let ghost before = out@;
        let digit: u8 = (rest % 256) as u8;
        out.push(digit);
        proof {
            let tail = le_bytes((rest / 256) as nat, (width - i - 1) as nat);
            assert(le_bytes(rest as nat, (width - i) as nat) =~= seq![digit] + tail);
            assert(out@ + tail =~= before + (seq![digit] + tail));
        }
        rest = rest / 256;
        i = i + 1;
    }
    assert(out@ + le_bytes(rest as nat, 0) =~= out@);
}

/// The number spelled by the 2 bytes at `at`.
pub fn read_u16(bytes: &[u8], at: usize) -> (r: u16)
    requires
        at + 2 <= bytes.len(),
    ensures
        r == le_value(bytes@.subrange(at as int, at + 2)),
{
    let v: u64 = read_le(bytes, at, 2);
    proof {
        lemma_le_value_bound(bytes@.subrange(at as int, at + 2));
        lemma_radix_values();
    }
    v as u16
}

/// The number spelled by the 4 bytes at `at`.
pub fn read_u32(bytes: &[u8], at: usize) -> (r: u32)
    requires
        at + 4 <= bytes.len(),
    ensures
        r == le_value(bytes@.subrange(at as int, at + 4)),
{
    let v: u64 = read_le(bytes, at, 4);
    proof {
        lemma_le_value_bound(bytes@.subrange(at as int, at + 4));
        lemma_radix_values();
    }
    v as u32
}

/// The number spelled by the 8 bytes at `at`.
pub fn read_u64(bytes: &[u8], at: usize) -> (r: u64)
    requires
        at + 8 <= bytes.len(),
    ensures
        r == le_value(bytes@.subrange(at as int, at + 8)),
{
    read_le(bytes, at, 8)
}

/// The signed number whose two's-complement bits are the 8 bytes at `at`.
pub fn read_i64(bytes: &[u8], at: usize) -> (r: i64)
    requires
        at + 8 <= bytes.len(),
    ensures
        r == bits_i64(le_value(bytes@.subrange(at as int, at + 8))),
{
    let n: u64 = read_le(bytes, at, 8);
    if n < 0x8000_0000_0000_0000 {
        n as i64
    } else {
        let low: i64 = (n - 0x8000_0000_0000_0000) as i64;
        (low - i64::MAX) - 1
    }
}

/// Appends the 8 bytes of the two's-complement bits of `t`.
pub fn write_i64(out: &mut Vec<u8>, t: i64)
    ensures
        final(out)@ == old(out)@ + le_bytes(i64_bits(t), 8),
{
    let n: u64 = if t >= 0 {
        t as u64
    } else {
        let low: i64 = (t + i64::MAX) + 1;
        low as u64 + 0x8000_0000_0000_0000
    };
    write_le(out, n, 8);
}

/// Appends `part` to `out`.
pub fn append(out: &mut Vec<u8>, part: &[u8])
    ensures
        final(out)@ == old(out)@ + part@,
{
    let mut i: usize = 0;
    while i < part.len()
        invariant
            i <= part.len(),
            out@ == old(out)@ + part@.subrange(0, i as int),
        decreases part.len() - i,
    {
        out.push(part[i]);
        assert(out@ =~= old(out)@ + part@.subrange(0, i + 1));
        i = i + 1;
    }
    assert(part@.subrange(0, i as int) =~= part@);
}

/// The `len` bytes of `bytes` that start at `at`.
pub fn take(bytes: &[u8], at: usize, len: usize) -> (r: Vec<u8>)
    requires
        at + len <= bytes.len(),
    ensures
        r@ == bytes@.subrange(at as int, at + len),
{
    let mut out: Vec<u8> = Vec::new();
    let mut i: usize = 0;
    while i < len
        invariant
            i <= len,
            at + len <= bytes.len(),
            out@ == bytes@.subrange(at as int, at + i),
        decreases len - i,
    {
        out.push(bytes[at + i]);
        assert(out@ =~= bytes@.subrange(at as int, at + i + 1));
        i = i + 1;
    }
    out
}

/// The 32 bytes of `bytes` that start at `at`.
pub fn take32(bytes: &[u8], at: usize) -> (r: [u8; 32])
    requires
        at + 32 <= bytes.len(),
    ensures
        r@ == bytes@.subrange(at as int, at + 32),
{
    let mut out = [0u8; 32];
    let mut i: usize = 0;
    while i < 32
        invariant
            i <= 32,
            at + 32 <= bytes.len(),
            forall|j: int| 0 <= j < i ==> out@[j] == bytes@[at + j],
        decreases 32 - i,
    {
        out[i] = bytes[at + i];
        i = i + 1;
    }
    assert(out@ =~= bytes@.subrange(at as int, at + 32));
    out
}

/// Whether `bytes` are the 8 bytes of `tag`.
pub fn same8(bytes: &[u8], tag: &[u8; 8]) -> (r: bool)
    ensures
        r == (bytes@ == tag@),
{
    if bytes.len() != 8 {
        return false;
    }
    let mut i: usize = 0;
    while i < 8
        invariant
            i <= 8,
            bytes.len() == 8,
            forall|j: int| 0 <= j < i ==> bytes@[j] == tag@[j],
        decreases 8 - i,
    {
        if bytes[i] != tag[i] {
            return false;
        }
        i = i + 1;
    }
    assert(bytes@ =~= tag@);
    true
}

/// Whether two 32-byte values are the same.
pub fn same32(a: &[u8; 32], b: &[u8; 32]) -> (r: bool)
    ensures
        r == (a@ == b@),
{
    let mut i: usize = 0;
    while i < 32
        invariant
            i <= 32,
            forall|j: int| 0 <= j < i ==> a@[j] == b@[j],
        decreases 32 - i,
    {
        if a[i] != b[i] {
            return false;
        }
        i = i + 1;
    }
    assert(a@ =~= b@);
    true
}

/// A text on the wire: the number of bytes of its UTF-8 form in 4 bytes, then those bytes.
pub open spec fn text_field(text: Seq<char>) -> Seq<u8> {
    le_bytes(encode_utf8(text).len(), 4) + encode_utf8(text)
}

/// The text whose field starts at `at`, with the position where the field ends, if
/// the bytes from `at` on begin with a well-formed text field.
pub open spec fn parse_text(bytes: Seq<u8>, at: int) -> Option<(Seq<char>, int)> {
    if at + 4 > bytes.len() {
        None
    } else {
        let end = at + 4 + le_value(bytes.subrange(at, at + 4));
        if end > bytes.len() || !valid_utf8(bytes.subrange(at + 4, end)) {
            None
        } else {
            Some((decode_utf8(bytes.subrange(at + 4, end)), end))
        }
    }
}

/// A text field is read back as the text it was written from.
pub proof fn lemma_parse_text_of_field(before: Seq<u8>, text: Seq<char>, after: Seq<u8>)
    requires
        encode_utf8(text).len() <= u32::MAX,
    ensures
        parse_text(before + text_field(text) + after, before.len() as int) == Some(
            (text, (before.len() + 4 + encode_utf8(text).len()) as int),
        ),
{
    let body = encode_utf8(text);
    let all = before + text_field(text) + after;
    let at = before.len() as int;
    lemma_le_bytes_len(body.len(), 4);
    lemma_radix_values();
    lemma_le_value_of_bytes(body.len(), 4);
    assert(all.subrange(at, at + 4) =~= le_bytes(body.len(), 4));
    assert(all.subrange(at + 4, at + 4 + body.len()) =~= body);
    vstd::utf8::encode_utf8_valid_utf8(text);
    vstd::utf8::encode_utf8_decode_utf8(text);
}

/// What was read as a text field is the field of the text that was read.
pub proof fn lemma_field_of_parse_text(bytes: Seq<u8>, at: int)
    requires
        0 <= at,
        parse_text(bytes, at) is Some,
    ensures
        parse_text(bytes, at) matches Some((text, end)) && at + 4 <= end <= bytes.len()
            && encode_utf8(text).len() <= u32::MAX && bytes.subrange(at, end) == text_field(text),
{
    let end = at + 4 + le_value(bytes.subrange(at, at + 4));
    let head = bytes.subrange(at, at + 4);
    let body = bytes.subrange(at + 4, end);
    lemma_le_value_bound(head);
    lemma_radix_values();
    vstd::utf8::decode_utf8_encode_utf8(body);
    lemma_le_bytes_of_value(head);
    assert(bytes.subrange(at, end) =~= head + body);
}

/// `String::from_utf8`: the text that the bytes spell where they are well-formed
/// UTF-8, and nothing where they are not.
#[verifier::external_body]
pub(crate) fn string_from_utf8(bytes: Vec<u8>) -> (r: Option<String>)
    ensures
        r is Some <==> valid_utf8(bytes@),
        r matches Some(text) ==> text@ == decode_utf8(bytes@),
{
    String::from_utf8(bytes).ok()
}

/// Reads the text field that starts at `at`.
pub fn read_text(bytes: &[u8], at: usize) -> (r: Option<(String, usize)>)
    requires
        at <= bytes.len(),
    ensures
        match r {
            Some((text, end)) => parse_text(bytes@, at as int) == Some((text@, end as int)),
            None => parse_text(bytes@, at as int) is None,
        },
{
    if bytes.len() - at < 4 {
        return None;
    }
    let len: u32 = read_u32(bytes, at);
    let room: usize = bytes.len() - at - 4;
    if len as u64 > room as u64 {
        return None;
    }
    let len: usize = len as usize;
    let body: Vec<u8> = take(bytes, at + 4, len);
    match string_from_utf8(body) {
        Some(text) => Some((text, at + 4 + len)),
        None => None,
    }
}

/// Appends the field of `text` to `out`, unless its UTF-8 form is longer than the
/// 4-byte length can say.
pub fn write_text(out: &mut Vec<u8>, text: &str) -> (written: bool)
    ensures
        written == (encode_utf8(text@).len() <= u32::MAX),
        final(out)@ == if written {
            old(out)@ + text_field(text@)
        } else {
            old(out)@
        },
{
    let body: &[u8] = text.as_bytes();
    if body.len() as u64 > u32::MAX as u64 {
        return false;
    }
    write_le(out, body.len() as u64, 4);
    append(out, body);
    assert(out@ =~= old(out)@ + text_field(text@));
    true
}

} // verus!
