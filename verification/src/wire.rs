//! The encodings of the values a record is made of, each as a function from the
//! value to its bytes, with a reader that inverts it.
//!
//! Integers are of fixed width, least significant byte first, and signed ones in
//! two's complement; a boolean is one byte, 0 or 1; and everything of variable
//! length is preceded by its length as a `u32`.

use vstd::prelude::*;
use vstd::slice::{slice_subrange, slice_to_vec};
use vstd::utf8::*;
use crate::error::DecodeError;

verus! {

/// Whether a length can be written as a 32-bit prefix.
pub open spec fn fits_prefix(len: nat) -> bool {
    len <= u32::MAX
}

/// The `width` lowest digits of `v` in base 256, least significant first.
#[verifier::opaque]
pub open spec fn le_bytes(v: nat, width: nat) -> Seq<u8>
    decreases width,
{
    if width == 0 {
        Seq::empty()
    } else {
        seq![(v % 256) as u8] + le_bytes(v / 256, (width - 1) as nat)
    }
}

/// The number that `s` spells in base 256, least significant digit first.
#[verifier::opaque]
pub open spec fn le_value(s: Seq<u8>) -> nat
    decreases s.len(),
{
    if s.len() == 0 {
        0
    } else {
        s[0] as nat + 256 * le_value(s.drop_first())
    }
}

/// 256 to the power of `digits`: the number of values that so many bytes can spell.
pub open spec fn radix(digits: nat) -> nat
    decreases digits,
{
    if digits == 0 {
        1
    } else {
        256 * radix((digits - 1) as nat)
    }
}

/// The two's complement of an `i64`: itself, or itself and 2^64 if it is negative.
pub open spec fn twos_complement(v: i64) -> nat {
    if v >= 0 {
        v as nat
    } else {
        (v + 0x1_0000_0000_0000_0000) as nat
    }
}

/// The `i64` that `u` is the two's complement of.
pub open spec fn from_twos_complement(u: nat) -> i64 {
    if u < 0x8000_0000_0000_0000 {
        u as i64
    } else {
        (u - 0x1_0000_0000_0000_0000) as i64
    }
}

/// The bytes of a `u8`: itself.
pub open spec fn u8_bytes(v: u8) -> Seq<u8> {
    seq![v]
}

/// The bytes of a `u16`, least significant first.
pub open spec fn u16_bytes(v: u16) -> Seq<u8> {
    le_bytes(v as nat, 2)
}

/// The bytes of a `u32`, least significant first.
pub open spec fn u32_bytes(v: u32) -> Seq<u8> {
    le_bytes(v as nat, 4)
}

/// The bytes of a `u64`, least significant first.
pub open spec fn u64_bytes(v: u64) -> Seq<u8> {
    le_bytes(v as nat, 8)
}

/// The bytes of an `i64`: those of its two's complement, least significant first.
pub open spec fn i64_bytes(v: i64) -> Seq<u8> {
    le_bytes(twos_complement(v), 8)
}

/// The byte of a boolean.
pub open spec fn bool_bytes(v: bool) -> Seq<u8> {
    seq![if v { 1u8 } else { 0u8 }]
}

/// The bytes of a 32-byte identifier: themselves, with nothing before them.
pub open spec fn key_bytes(k: Seq<u8>) -> Seq<u8> {
    k
}

/// The bytes of a buffer: its length as a `u32`, then its content.
pub open spec fn blob_bytes(b: Seq<u8>) -> Seq<u8> {
    u32_bytes(b.len() as u32) + b
}

/// The bytes of a text: its UTF-8 form as a buffer.
pub open spec fn text_bytes(t: Seq<char>) -> Seq<u8> {
    blob_bytes(encode_utf8(t))
}

/// The identifiers of a sequence, one after the other.
pub open spec fn concat_keys(keys: Seq<Seq<u8>>) -> Seq<u8>
    decreases keys.len(),
{
    if keys.len() == 0 {
        Seq::empty()
    } else {
        concat_keys(keys.drop_last()) + keys.last()
    }
}

/// The bytes of a sequence of identifiers: their number as a `u32`, then each.
pub open spec fn keys_bytes(keys: Seq<Seq<u8>>) -> Seq<u8> {
    u32_bytes(keys.len() as u32) + concat_keys(keys)
}

/// The bytes of an optional `u64`: a tag, 0 for absent and 1 for present, then the
/// value if there is one.
pub open spec fn option_u64_bytes(o: Option<u64>) -> Seq<u8> {
    match o {
        None => seq![0u8],
        Some(v) => seq![1u8] + u64_bytes(v),
    }
}

/// Each identifier of a vector as a sequence of bytes.
pub open spec fn keys_view(keys: Seq<[u8; 32]>) -> Seq<Seq<u8>> {
    Seq::new(keys.len(), |i: int| keys[i]@)
}

/// What reading a `u8` at `at` gives: the value and the position after it.
pub open spec fn parse_u8(s: Seq<u8>, at: int) -> Result<(u8, int), DecodeError> {
    if at + 1 > s.len() {
        Err(DecodeError::Truncated)
    } else {
        Ok((s[at], at + 1))
    }
}

/// What reading a `u16` at `at` gives.
pub open spec fn parse_u16(s: Seq<u8>, at: int) -> Result<(u16, int), DecodeError> {
    if at + 2 > s.len() {
        Err(DecodeError::Truncated)
    } else {
        Ok((le_value(s.subrange(at, at + 2)) as u16, at + 2))
    }
}

/// What reading a `u32` at `at` gives.
pub open spec fn parse_u32(s: Seq<u8>, at: int) -> Result<(u32, int), DecodeError> {
    if at + 4 > s.len() {
        Err(DecodeError::Truncated)
    } else {
        Ok((le_value(s.subrange(at, at + 4)) as u32, at + 4))
    }
}

/// What reading a `u64` at `at` gives.
pub open spec fn parse_u64(s: Seq<u8>, at: int) -> Result<(u64, int), DecodeError> {
    if at + 8 > s.len() {
        Err(DecodeError::Truncated)
    } else {
        Ok((le_value(s.subrange(at, at + 8)) as u64, at + 8))
    }
}

/// What reading an `i64` at `at` gives.
pub open spec fn parse_i64(s: Seq<u8>, at: int) -> Result<(i64, int), DecodeError> {
    if at + 8 > s.len() {
        Err(DecodeError::Truncated)
    } else {
        Ok((from_twos_complement(le_value(s.subrange(at, at + 8))), at + 8))
    }
}

/// What reading a boolean at `at` gives.
pub open spec fn parse_bool(s: Seq<u8>, at: int) -> Result<(bool, int), DecodeError> {
    if at + 1 > s.len() {
        Err(DecodeError::Truncated)
    } else if s[at] == 0 {
        Ok((false, at + 1))
    } else if s[at] == 1 {
        Ok((true, at + 1))
    } else {
        Err(DecodeError::InvalidBool)
    }
}

/// What reading a 32-byte identifier at `at` gives.
pub open spec fn parse_key(s: Seq<u8>, at: int) -> Result<(Seq<u8>, int), DecodeError> {
    if at + 32 > s.len() {
        Err(DecodeError::Truncated)
    } else {
        Ok((s.subrange(at, at + 32), at + 32))
    }
}

/// What reading a buffer at `at` gives.
pub open spec fn parse_blob(s: Seq<u8>, at: int) -> Result<(Seq<u8>, int), DecodeError> {
    match parse_u32(s, at) {
        Err(e) => Err(e),
        Ok((len, body)) => if body + len > s.len() {
            Err(DecodeError::Truncated)
        } else {
            Ok((s.subrange(body, body + len), body + len))
        },
    }
}

/// What reading a text at `at` gives.
pub open spec fn parse_text(s: Seq<u8>, at: int) -> Result<(Seq<char>, int), DecodeError> {
    match parse_blob(s, at) {
        Err(e) => Err(e),
        Ok((b, next)) => if valid_utf8(b) {
            Ok((decode_utf8(b), next))
        } else {
            Err(DecodeError::InvalidUtf8)
        },
    }
}

/// What reading a sequence of identifiers at `at` gives.
pub open spec fn parse_keys(s: Seq<u8>, at: int) -> Result<(Seq<Seq<u8>>, int), DecodeError> {
    match parse_u32(s, at) {
        Err(e) => Err(e),
        Ok((len, body)) => if body + 32 * len > s.len() {
            Err(DecodeError::Truncated)
        } else {
            Ok(
                (
                    Seq::new(len as nat, |i: int| s.subrange(body + 32 * i, body + 32 * i + 32)),
                    body + 32 * len,
                ),
            )
        },
    }
}

/// What reading an optional `u64` at `at` gives.
pub open spec fn parse_option_u64(s: Seq<u8>, at: int) -> Result<(Option<u64>, int), DecodeError> {
    match parse_u8(s, at) {
        Err(e) => Err(e),
        Ok((tag, body)) => if tag == 0 {
            Ok((None, body))
        } else if tag == 1 {
            match parse_u64(s, body) {
                Err(e) => Err(e),
                Ok((v, next)) => Ok((Some(v), next)),
            }
        } else {
            Err(DecodeError::InvalidTag)
        },
    }
}

/// Whether a reader's result is what the bytes say: the same value and position, or
/// the same error.
pub open spec fn reads<T>(
    r: Result<(T, usize), DecodeError>,
    parsed: Result<(T, int), DecodeError>,
) -> bool {
    match parsed {
        Ok((v, next)) => r is Ok && r->Ok_0.0 == v && r->Ok_0.1 == next,
        Err(e) => r == Err::<(T, usize), DecodeError>(e),
    }
}

/// Whether a text's UTF-8 form fits a 32-bit length prefix.
pub fn text_fits(t: &str) -> (b: bool)
    ensures
        b == fits_prefix(encode_utf8(t@).len()),
{
    t.as_bytes().len() <= u32::MAX as usize
}

/// The first powers of 256.
pub proof fn lemma_radix()
    ensures
        radix(0) == 1,
        radix(1) == 0x100,
        radix(2) == 0x1_0000,
        radix(3) == 0x100_0000,
        radix(4) == 0x1_0000_0000,
        radix(5) == 0x100_0000_0000,
        radix(6) == 0x1_0000_0000_0000,
        radix(7) == 0x100_0000_0000_0000,
        radix(8) == 0x1_0000_0000_0000_0000,
{
    reveal_with_fuel(radix, 9);
}

/// Bytes spell a number below 256 to the power of their count.
pub proof fn lemma_le_value_below_radix(s: Seq<u8>)
    ensures
        le_value(s) < radix(s.len()),
    decreases s.len(),
{
    reveal(le_value);
    if s.len() > 0 {
        lemma_le_value_below_radix(s.drop_first());
    }
}

/// Appends the `width` lowest digits of `v` in base 256, least significant first.
fn write_le(out: &mut Vec<u8>, v: u64, width: usize)
    ensures
        final(out)@ == old(out)@ + le_bytes(v as nat, width as nat),
{
    let mut rest: u64 = v;
    let mut i: usize = 0;
    while i < width
        invariant
            i <= width,
            out@ + le_bytes(rest as nat, (width - i) as nat) == old(out)@ + le_bytes(
                v as nat,
                width as nat,
            ),
        decreases width - i,
    {
        let ghost before = out@;
        out.push((rest % 256) as u8);
        reveal(le_bytes);
        assert(before + le_bytes(rest as nat, (width - i) as nat) =~= out@ + le_bytes(
            (rest / 256) as nat,
            (width - i - 1) as nat,
        ));
        rest = rest / 256;
        i += 1;
    }
    reveal(le_bytes);
    assert(out@ + le_bytes(rest as nat, 0) =~= out@);
}

/// The number that the `width` bytes at `at` spell, least significant digit first.
fn read_le(input: &[u8], at: usize, width: usize) -> (v: u64)
    requires
        width <= 8,
        at + width <= input@.len(),
    ensures
        v == le_value(input@.subrange(at as int, at + width)),
{
    let len: usize = input.len();
    let mut acc: u64 = 0;
    let mut k: usize = width;
    proof {
        reveal(le_value);
    }
    while k > 0
        invariant
            k <= width <= 8,
            at + width <= input@.len() == len,
            acc == le_value(input@.subrange(at + k, at + width)),
        decreases k,
    {
        k -= 1;
        proof {
            reveal(le_value);
            let tail = input@.subrange(at + k, at + width);
            assert(tail.drop_first() =~= input@.subrange(at + k + 1, at + width));
            lemma_le_value_below_radix(tail);
            lemma_le_value_below_radix(tail.drop_first());
            lemma_radix();
        }
        acc = acc * 256 + input[at + k] as u64;
    }
    acc
}

/// Appends the bytes of a `u8`.
pub fn write_u8(out: &mut Vec<u8>, v: u8)
    ensures
        final(out)@ == old(out)@ + u8_bytes(v),
{
    out.push(v);
    assert(out@ =~= old(out)@ + u8_bytes(v));
}

/// Appends the bytes of a `u16`.
pub fn write_u16(out: &mut Vec<u8>, v: u16)
    ensures
        final(out)@ == old(out)@ + u16_bytes(v),
{
    write_le(out, v as u64, 2);
}

/// Appends the bytes of a `u32`.
pub fn write_u32(out: &mut Vec<u8>, v: u32)
    ensures
        final(out)@ == old(out)@ + u32_bytes(v),
{
    write_le(out, v as u64, 4);
}

/// Appends the bytes of a `u64`.
pub fn write_u64(out: &mut Vec<u8>, v: u64)
    ensures
        final(out)@ == old(out)@ + u64_bytes(v),
{
    write_le(out, v, 8);
}

/// Appends the bytes of an `i64`.
pub fn write_i64(out: &mut Vec<u8>, v: i64)
    ensures
        final(out)@ == old(out)@ + i64_bytes(v),
{
    let u: u64 = if v >= 0 {
        v as u64
    } else {
        (v + i64::MAX + 1) as u64 + 0x8000_0000_0000_0000
    };
    write_le(out, u, 8);
}

/// Appends the byte of a boolean.
pub fn write_bool(out: &mut Vec<u8>, v: bool)
    ensures
        final(out)@ == old(out)@ + bool_bytes(v),
{
    out.push(if v { 1u8 } else { 0u8 });
    assert(out@ =~= old(out)@ + bool_bytes(v));
}

/// Appends a 32-byte identifier.
pub fn write_key(out: &mut Vec<u8>, k: &[u8; 32])
    ensures
        final(out)@ == old(out)@ + key_bytes(k@),
{
    let mut bytes = slice_to_vec(k.as_slice());
    out.append(&mut bytes);
}

/// Appends a buffer that fits its prefix.
pub fn write_blob(out: &mut Vec<u8>, b: &[u8])
    requires
        fits_prefix(b@.len()),
    ensures
        final(out)@ == old(out)@ + blob_bytes(b@),
{
    write_u32(out, b.len() as u32);
    let mut bytes = slice_to_vec(b);
    out.append(&mut bytes);
    assert(out@ =~= old(out)@ + blob_bytes(b@));
}

/// Appends a text whose UTF-8 form fits its prefix.
pub fn write_text(out: &mut Vec<u8>, t: &str)
    requires
        fits_prefix(encode_utf8(t@).len()),
    ensures
        final(out)@ == old(out)@ + text_bytes(t@),
{
    write_blob(out, t.as_bytes())
}

/// Appends a sequence of identifiers that fits its prefix.
pub fn write_keys(out: &mut Vec<u8>, keys: &Vec<[u8; 32]>)
    requires
        fits_prefix(keys@.len()),
    ensures
        final(out)@ == old(out)@ + keys_bytes(keys_view(keys@)),
{
    write_u32(out, keys.len() as u32);
    let ghost head = out@;
    let mut i: usize = 0;
    while i < keys.len()
        invariant
            i <= keys@.len(),
            out@ == head + concat_keys(keys_view(keys@).take(i as int)),
        decreases keys@.len() - i,
    {
        write_key(out, &keys[i]);
        proof {
            let done = keys_view(keys@).take(i + 1);
            assert(done.drop_last() =~= keys_view(keys@).take(i as int));
            assert(done.last() == keys@[i as int]@);
            assert(out@ =~= head + concat_keys(done));
        }
        i += 1;
    }
    assert(keys_view(keys@).take(i as int) =~= keys_view(keys@));
    assert(out@ =~= old(out)@ + keys_bytes(keys_view(keys@)));
}

/// Appends an optional `u64`.
pub fn write_option_u64(out: &mut Vec<u8>, o: &Option<u64>)
    ensures
        final(out)@ == old(out)@ + option_u64_bytes(*o),
{
    match o {
        None => {
            out.push(0u8);
        },
        Some(v) => {
            out.push(1u8);
            write_u64(out, *v);
        },
    }
    assert(out@ =~= old(out)@ + option_u64_bytes(*o));
}

/// Reads a `u8` at `at`.
pub fn read_u8(input: &[u8], at: usize) -> (r: Result<(u8, usize), DecodeError>)
    ensures
        reads(r, parse_u8(input@, at as int)),
{
    if at > input.len() || input.len() - at < 1 {
        return Err(DecodeError::Truncated);
    }
    Ok((input[at], at + 1))
}

/// Reads a `u16` at `at`.
pub fn read_u16(input: &[u8], at: usize) -> (r: Result<(u16, usize), DecodeError>)
    ensures
        reads(r, parse_u16(input@, at as int)),
{
    if at > input.len() || input.len() - at < 2 {
        return Err(DecodeError::Truncated);
    }
    proof {
        lemma_le_value_below_radix(input@.subrange(at as int, at + 2));
        lemma_radix();
    }
    let v = read_le(input, at, 2);
    Ok((v as u16, at + 2))
}

/// Reads a `u32` at `at`.
pub fn read_u32(input: &[u8], at: usize) -> (r: Result<(u32, usize), DecodeError>)
    ensures
        reads(r, parse_u32(input@, at as int)),
{
    if at > input.len() || input.len() - at < 4 {
        return Err(DecodeError::Truncated);
    }
    proof {
        lemma_le_value_below_radix(input@.subrange(at as int, at + 4));
        lemma_radix();
    }
    let v = read_le(input, at, 4);
    Ok((v as u32, at + 4))
}

/// Reads a `u64` at `at`.
pub fn read_u64(input: &[u8], at: usize) -> (r: Result<(u64, usize), DecodeError>)
    ensures
        reads(r, parse_u64(input@, at as int)),
{
    if at > input.len() || input.len() - at < 8 {
        return Err(DecodeError::Truncated);
    }
    let v = read_le(input, at, 8);
    Ok((v, at + 8))
}

/// Reads an `i64` at `at`.
pub fn read_i64(input: &[u8], at: usize) -> (r: Result<(i64, usize), DecodeError>)
    ensures
        reads(r, parse_i64(input@, at as int)),
{
    if at > input.len() || input.len() - at < 8 {
        return Err(DecodeError::Truncated);
    }
    let u = read_le(input, at, 8);
    let v: i64 = if u < 0x8000_0000_0000_0000 {
        u as i64
    } else {
        (u - 0x8000_0000_0000_0000) as i64 - i64::MAX - 1
    };
    Ok((v, at + 8))
}

/// Reads a boolean at `at`.
pub fn read_bool(input: &[u8], at: usize) -> (r: Result<(bool, usize), DecodeError>)
    ensures
        reads(r, parse_bool(input@, at as int)),
{
    if at > input.len() || input.len() - at < 1 {
        return Err(DecodeError::Truncated);
    }
    let b = input[at];
    if b == 0 {
        Ok((false, at + 1))
    } else if b == 1 {
        Ok((true, at + 1))
    } else {
        Err(DecodeError::InvalidBool)
    }
}

/// Reads a 32-byte identifier at `at`.
pub fn read_key(input: &[u8], at: usize) -> (r: Result<([u8; 32], usize), DecodeError>)
    ensures
        match parse_key(input@, at as int) {
            Ok((v, next)) => r is Ok && r->Ok_0.0@ == v && r->Ok_0.1 == next,
            Err(e) => r == Err::<([u8; 32], usize), DecodeError>(e),
        },
{
    if at > input.len() || input.len() - at < 32 {
        return Err(DecodeError::Truncated);
    }
    let mut key = [0u8; 32];
    let mut i: usize = 0;
    while i < 32
        invariant
            i <= 32,
            at + 32 <= input@.len() <= usize::MAX,
            forall|j: int| 0 <= j < i ==> key@[j] == input@[at + j],
        decreases 32 - i,
    {
        key[i] = input[at + i];
        i += 1;
    }
    assert(key@ =~= input@.subrange(at as int, at + 32));
    Ok((key, at + 32))
}

/// Reads a buffer at `at`.
pub fn read_blob(input: &[u8], at: usize) -> (r: Result<(Vec<u8>, usize), DecodeError>)
    ensures
        match parse_blob(input@, at as int) {
            Ok((v, next)) => r is Ok && r->Ok_0.0@ == v && r->Ok_0.1 == next,
            Err(e) => r == Err::<(Vec<u8>, usize), DecodeError>(e),
        },
{
    let (len, body) = read_u32(input, at)?;
    if input.len() - body < len as usize {
        return Err(DecodeError::Truncated);
    }
    let next = body + len as usize;
    Ok((slice_to_vec(slice_subrange(input, body, next)), next))
}

/// `String::from_utf8`: the text that the bytes are the UTF-8 form of, if they are
/// UTF-8, and nothing if they are not.
#[verifier::external_body]
fn text_from_utf8(bytes: Vec<u8>) -> (r: Option<String>)
    ensures
        match r {
            Some(t) => encode_utf8(t@) == bytes@,
            None => !valid_utf8(bytes@),
        },
{
    match String::from_utf8(bytes) {
        Ok(t) => Some(t),
        Err(_) => None,
    }
}

/// Reads a text at `at`.
pub fn read_text(input: &[u8], at: usize) -> (r: Result<(String, usize), DecodeError>)
    ensures
        match parse_text(input@, at as int) {
            Ok((v, next)) => r is Ok && r->Ok_0.0@ == v && r->Ok_0.1 == next,
            Err(e) => r == Err::<(String, usize), DecodeError>(e),
        },
{
    let (bytes, next) = read_blob(input, at)?;
    match text_from_utf8(bytes) {
        Some(t) => {
            proof {
                encode_utf8_valid_utf8(t@);
                encode_utf8_decode_utf8(t@);
            }
            Ok((t, next))
        },
        None => Err(DecodeError::InvalidUtf8),
    }
}

/// Reads a sequence of identifiers at `at`.
pub fn read_keys(input: &[u8], at: usize) -> (r: Result<(Vec<[u8; 32]>, usize), DecodeError>)
    ensures
        match parse_keys(input@, at as int) {
            Ok((v, next)) => r is Ok && keys_view(r->Ok_0.0@) == v && r->Ok_0.1 == next,
            Err(e) => r == Err::<(Vec<[u8; 32]>, usize), DecodeError>(e),
        },
{
    let (len, body) = read_u32(input, at)?;
    if ((input.len() - body) as u64) < (len as u64) * 32 {
        return Err(DecodeError::Truncated);
    }
    let mut keys: Vec<[u8; 32]> = Vec::new();
    let mut pos: usize = body;
    let mut i: u32 = 0;
    while i < len
        invariant
            i <= len,
            pos == body + 32 * i,
            body + 32 * len <= input@.len(),
            keys@.len() == i,
            forall|j: int|
                0 <= j < i ==> (#[trigger] keys@[j])@ == input@.subrange(
                    body + 32 * j,
                    body + 32 * j + 32,
                ),
        decreases len - i,
    {
        let (k, next) = read_key(input, pos)?;
        keys.push(k);
        pos = next;
        i += 1;
    }
    assert(keys_view(keys@) =~= parse_keys(input@, at as int)->Ok_0.0);
    Ok((keys, pos))
}

/// Reads an optional `u64` at `at`.
pub fn read_option_u64(input: &[u8], at: usize) -> (r: Result<(Option<u64>, usize), DecodeError>)
    ensures
        reads(r, parse_option_u64(input@, at as int)),
{
    let (tag, body) = read_u8(input, at)?;
    if tag == 0 {
        Ok((None, body))
    } else if tag == 1 {
        let (v, next) = read_u64(input, body)?;
        Ok((Some(v), next))
    } else {
        Err(DecodeError::InvalidTag)
    }
}

} // verus!
