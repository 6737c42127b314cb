//! Reading inverts writing, for each kind of value: what was written is read back,
//! and what is read is what writing the value would have put there.

use vstd::prelude::*;
use vstd::utf8::*;
use crate::error::DecodeError;
use crate::wire::{
    blob_bytes, bool_bytes, concat_keys, fits_prefix, from_twos_complement, i64_bytes, key_bytes,
    keys_bytes, le_bytes, le_value, lemma_le_value_below_radix, lemma_radix, option_u64_bytes,
    parse_blob, parse_bool, parse_i64, parse_key, parse_keys, parse_option_u64, parse_text,
    parse_u16, parse_u32, parse_u64, parse_u8, radix, text_bytes, twos_complement, u16_bytes,
    u32_bytes, u64_bytes, u8_bytes,
};

verus! {

/// Whether `part` stands in `s` from position `at` on.
pub open spec fn occurs_at(s: Seq<u8>, at: int, part: Seq<u8>) -> bool {
    &&& 0 <= at
    &&& at + part.len() <= s.len()
    &&& s.subrange(at, at + part.len()) == part
}

/// Two parts stand one behind the other exactly where their concatenation stands.
pub proof fn lemma_occurs_concat(s: Seq<u8>, at: int, a: Seq<u8>, b: Seq<u8>)
    ensures
        occurs_at(s, at, a + b) <==> occurs_at(s, at, a) && occurs_at(s, at + a.len(), b),
{
    if occurs_at(s, at, a + b) {
        assert(s.subrange(at, at + a.len()) =~= (a + b).subrange(0, a.len() as int));
        assert((a + b).subrange(0, a.len() as int) =~= a);
        assert(s.subrange(at + a.len(), at + a.len() + b.len()) =~= (a + b).subrange(
            a.len() as int,
            (a + b).len() as int,
        ));
        assert((a + b).subrange(a.len() as int, (a + b).len() as int) =~= b);
    }
    if occurs_at(s, at, a) && occurs_at(s, at + a.len(), b) {
        assert(s.subrange(at, at + (a + b).len()) =~= s.subrange(at, at + a.len()) + s.subrange(
            at + a.len(),
            at + a.len() + b.len(),
        ));
    }
}

/// A number is written in as many bytes as asked for.
pub proof fn lemma_le_bytes_len(v: nat, width: nat)
    ensures
        le_bytes(v, width).len() == width,
    decreases width,
{
    reveal(le_bytes);
    if width > 0 {
        lemma_le_bytes_len(v / 256, (width - 1) as nat);
    }
}

/// The bytes of a number that fits them spell that number.
pub proof fn lemma_le_value_of_bytes(v: nat, width: nat)
    requires
        v < radix(width),
    ensures
        le_value(le_bytes(v, width)) == v,
    decreases width,
{
    reveal(le_bytes);
    reveal(le_value);
    if width > 0 {
        let tail = le_bytes(v / 256, (width - 1) as nat);
        lemma_le_value_of_bytes(v / 256, (width - 1) as nat);
        assert(le_bytes(v, width).drop_first() =~= tail);
    }
}

/// The number that bytes spell is written as those bytes.
pub proof fn lemma_le_bytes_of_value(s: Seq<u8>)
    ensures
        le_bytes(le_value(s), s.len()) == s,
    decreases s.len(),
{
    reveal(le_bytes);
    reveal(le_value);
    if s.len() > 0 {
        lemma_le_bytes_of_value(s.drop_first());
        assert(le_value(s) % 256 == s[0]);
        assert(le_value(s) / 256 == le_value(s.drop_first()));
        assert(le_bytes(le_value(s), s.len()) =~= s);
    } else {
        assert(le_bytes(le_value(s), s.len()) =~= s);
    }
}

/// The two's complement of an `i64` is below 2^64 and stands for no other `i64`; a
/// number below 2^64 is the two's complement of the `i64` it stands for.
pub proof fn lemma_twos_complement(v: i64, u: nat)
    requires
        u < radix(8),
    ensures
        twos_complement(v) < radix(8),
        from_twos_complement(twos_complement(v)) == v,
        twos_complement(from_twos_complement(u)) == u,
{
    lemma_radix();
}

/// The widths of the fixed-width encodings.
pub proof fn lemma_widths()
    ensures
        forall|v: u8| #[trigger] u8_bytes(v).len() == 1,
        forall|v: u16| #[trigger] u16_bytes(v).len() == 2,
        forall|v: u32| #[trigger] u32_bytes(v).len() == 4,
        forall|v: u64| #[trigger] u64_bytes(v).len() == 8,
        forall|v: i64| #[trigger] i64_bytes(v).len() == 8,
        forall|v: bool| #[trigger] bool_bytes(v).len() == 1,
{
    assert forall|v: u16| #[trigger] u16_bytes(v).len() == 2 by {
        lemma_le_bytes_len(v as nat, 2);
    }
    assert forall|v: u32| #[trigger] u32_bytes(v).len() == 4 by {
        lemma_le_bytes_len(v as nat, 4);
    }
    assert forall|v: u64| #[trigger] u64_bytes(v).len() == 8 by {
        lemma_le_bytes_len(v as nat, 8);
    }
    assert forall|v: i64| #[trigger] i64_bytes(v).len() == 8 by {
        lemma_le_bytes_len(twos_complement(v), 8);
    }
}

/// A `u8` is read back from where it was written.
pub proof fn lemma_u8_reads_back(s: Seq<u8>, at: int, v: u8)
    requires
        occurs_at(s, at, u8_bytes(v)),
    ensures
        parse_u8(s, at) == Ok::<(u8, int), DecodeError>((v, at + 1)),
{
    assert(s.subrange(at, at + 1)[0] == v);
}

/// Where a `u8` is read, its bytes stand.
pub proof fn lemma_u8_read_was_written(s: Seq<u8>, at: int)
    requires
        0 <= at,
        parse_u8(s, at) is Ok,
    ensures
        occurs_at(s, at, u8_bytes(parse_u8(s, at)->Ok_0.0)),
        parse_u8(s, at)->Ok_0.1 == at + 1,
{
    assert(s.subrange(at, at + 1) =~= u8_bytes(s[at]));
}

/// A `u16` is read back from where it was written.
pub proof fn lemma_u16_reads_back(s: Seq<u8>, at: int, v: u16)
    requires
        occurs_at(s, at, u16_bytes(v)),
    ensures
        parse_u16(s, at) == Ok::<(u16, int), DecodeError>((v, at + 2)),
{
    lemma_radix();
    lemma_le_bytes_len(v as nat, 2);
    lemma_le_value_of_bytes(v as nat, 2);
}

/// Where a `u16` is read, its bytes stand.
pub proof fn lemma_u16_read_was_written(s: Seq<u8>, at: int)
    requires
        0 <= at,
        parse_u16(s, at) is Ok,
    ensures
        occurs_at(s, at, u16_bytes(parse_u16(s, at)->Ok_0.0)),
        parse_u16(s, at)->Ok_0.1 == at + 2,
{
    let bytes = s.subrange(at, at + 2);
    lemma_radix();
    lemma_le_value_below_radix(bytes);
    lemma_le_bytes_of_value(bytes);
}

/// A `u32` is read back from where it was written.
pub proof fn lemma_u32_reads_back(s: Seq<u8>, at: int, v: u32)
    requires
        occurs_at(s, at, u32_bytes(v)),
    ensures
        parse_u32(s, at) == Ok::<(u32, int), DecodeError>((v, at + 4)),
{
    lemma_radix();
    lemma_le_bytes_len(v as nat, 4);
    lemma_le_value_of_bytes(v as nat, 4);
}

/// Where a `u32` is read, its bytes stand.
pub proof fn lemma_u32_read_was_written(s: Seq<u8>, at: int)
    requires
        0 <= at,
        parse_u32(s, at) is Ok,
    ensures
        occurs_at(s, at, u32_bytes(parse_u32(s, at)->Ok_0.0)),
        parse_u32(s, at)->Ok_0.1 == at + 4,
{
    let bytes = s.subrange(at, at + 4);
    lemma_radix();
    lemma_le_value_below_radix(bytes);
    lemma_le_bytes_of_value(bytes);
}

/// A `u64` is read back from where it was written.
pub proof fn lemma_u64_reads_back(s: Seq<u8>, at: int, v: u64)
    requires
        occurs_at(s, at, u64_bytes(v)),
    ensures
        parse_u64(s, at) == Ok::<(u64, int), DecodeError>((v, at + 8)),
{
    lemma_radix();
    lemma_le_bytes_len(v as nat, 8);
    lemma_le_value_of_bytes(v as nat, 8);
}

/// Where a `u64` is read, its bytes stand.
pub proof fn lemma_u64_read_was_written(s: Seq<u8>, at: int)
    requires
        0 <= at,
        parse_u64(s, at) is Ok,
    ensures
        occurs_at(s, at, u64_bytes(parse_u64(s, at)->Ok_0.0)),
        parse_u64(s, at)->Ok_0.1 == at + 8,
{
    let bytes = s.subrange(at, at + 8);
    lemma_radix();
    lemma_le_value_below_radix(bytes);
    lemma_le_bytes_of_value(bytes);
}

/// An `i64` is read back from where it was written.
pub proof fn lemma_i64_reads_back(s: Seq<u8>, at: int, v: i64)
    requires
        occurs_at(s, at, i64_bytes(v)),
    ensures
        parse_i64(s, at) == Ok::<(i64, int), DecodeError>((v, at + 8)),
{
    lemma_radix();
    lemma_twos_complement(v, 0);
    lemma_le_bytes_len(twos_complement(v), 8);
    lemma_le_value_of_bytes(twos_complement(v), 8);
}

/// Where an `i64` is read, its bytes stand.
pub proof fn lemma_i64_read_was_written(s: Seq<u8>, at: int)
    requires
        0 <= at,
        parse_i64(s, at) is Ok,
    ensures
        occurs_at(s, at, i64_bytes(parse_i64(s, at)->Ok_0.0)),
        parse_i64(s, at)->Ok_0.1 == at + 8,
{
    let bytes = s.subrange(at, at + 8);
    lemma_radix();
    lemma_le_value_below_radix(bytes);
    lemma_le_bytes_of_value(bytes);
    lemma_twos_complement(0, le_value(bytes));
}

/// A boolean is read back from where it was written.
pub proof fn lemma_bool_reads_back(s: Seq<u8>, at: int, v: bool)
    requires
        occurs_at(s, at, bool_bytes(v)),
    ensures
        parse_bool(s, at) == Ok::<(bool, int), DecodeError>((v, at + 1)),
{
    assert(s.subrange(at, at + 1)[0] == bool_bytes(v)[0]);
}

/// Where a boolean is read, its byte stands.
pub proof fn lemma_bool_read_was_written(s: Seq<u8>, at: int)
    requires
        0 <= at,
        parse_bool(s, at) is Ok,
    ensures
        occurs_at(s, at, bool_bytes(parse_bool(s, at)->Ok_0.0)),
        parse_bool(s, at)->Ok_0.1 == at + 1,
{
    assert(s.subrange(at, at + 1) =~= bool_bytes(parse_bool(s, at)->Ok_0.0));
}

/// A 32-byte identifier is read back from where it was written.
pub proof fn lemma_key_reads_back(s: Seq<u8>, at: int, k: Seq<u8>)
    requires
        k.len() == 32,
        occurs_at(s, at, key_bytes(k)),
    ensures
        parse_key(s, at) == Ok::<(Seq<u8>, int), DecodeError>((k, at + 32)),
{
}

/// Where an identifier is read, its 32 bytes stand.
pub proof fn lemma_key_read_was_written(s: Seq<u8>, at: int)
    requires
        0 <= at,
        parse_key(s, at) is Ok,
    ensures
        parse_key(s, at)->Ok_0.0.len() == 32,
        occurs_at(s, at, key_bytes(parse_key(s, at)->Ok_0.0)),
        parse_key(s, at)->Ok_0.1 == at + 32,
{
}

/// A buffer that fits its prefix is read back from where it was written.
pub proof fn lemma_blob_reads_back(s: Seq<u8>, at: int, b: Seq<u8>)
    requires
        fits_prefix(b.len()),
        occurs_at(s, at, blob_bytes(b)),
    ensures
        parse_blob(s, at) == Ok::<(Seq<u8>, int), DecodeError>((b, at + 4 + b.len())),
        blob_bytes(b).len() == 4 + b.len(),
{
    lemma_widths();
    let prefix = u32_bytes(b.len() as u32);
    lemma_occurs_concat(s, at, prefix, b);
    lemma_u32_reads_back(s, at, b.len() as u32);
}

/// Where a buffer is read, its bytes stand, and it fits its prefix.
pub proof fn lemma_blob_read_was_written(s: Seq<u8>, at: int)
    requires
        0 <= at,
        parse_blob(s, at) is Ok,
    ensures
        fits_prefix(parse_blob(s, at)->Ok_0.0.len()),
        occurs_at(s, at, blob_bytes(parse_blob(s, at)->Ok_0.0)),
        parse_blob(s, at)->Ok_0.1 == at + blob_bytes(parse_blob(s, at)->Ok_0.0).len(),
        blob_bytes(parse_blob(s, at)->Ok_0.0).len() == 4 + parse_blob(s, at)->Ok_0.0.len(),
{
    lemma_widths();
    lemma_u32_read_was_written(s, at);
    let (len, body) = parse_u32(s, at)->Ok_0;
    let b = s.subrange(body, body + len);
    lemma_occurs_concat(s, at, u32_bytes(len), b);
}

/// A text whose UTF-8 form fits its prefix is read back from where it was written.
pub proof fn lemma_text_reads_back(s: Seq<u8>, at: int, t: Seq<char>)
    requires
        fits_prefix(encode_utf8(t).len()),
        occurs_at(s, at, text_bytes(t)),
    ensures
        parse_text(s, at) == Ok::<(Seq<char>, int), DecodeError>(
            (t, at + 4 + encode_utf8(t).len()),
        ),
        text_bytes(t).len() == 4 + encode_utf8(t).len(),
{
    lemma_blob_reads_back(s, at, encode_utf8(t));
    encode_utf8_valid_utf8(t);
    encode_utf8_decode_utf8(t);
}

/// Where a text is read, its bytes stand, and its UTF-8 form fits its prefix.
pub proof fn lemma_text_read_was_written(s: Seq<u8>, at: int)
    requires
        0 <= at,
        parse_text(s, at) is Ok,
    ensures
        fits_prefix(encode_utf8(parse_text(s, at)->Ok_0.0).len()),
        occurs_at(s, at, text_bytes(parse_text(s, at)->Ok_0.0)),
        parse_text(s, at)->Ok_0.1 == at + text_bytes(parse_text(s, at)->Ok_0.0).len(),
        text_bytes(parse_text(s, at)->Ok_0.0).len() == 4 + encode_utf8(
            parse_text(s, at)->Ok_0.0,
        ).len(),
{
    lemma_blob_read_was_written(s, at);
    decode_utf8_encode_utf8(parse_blob(s, at)->Ok_0.0);
}

/// Identifiers of 32 bytes each take 32 bytes each, and each stands at its place.
pub proof fn lemma_concat_keys(keys: Seq<Seq<u8>>)
    requires
        forall|i: int| 0 <= i < keys.len() ==> (#[trigger] keys[i]).len() == 32,
    ensures
        concat_keys(keys).len() == 32 * keys.len(),
        forall|i: int|
            0 <= i < keys.len() ==> #[trigger] keys[i] == concat_keys(keys).subrange(
                32 * i,
                32 * i + 32,
            ),
    decreases keys.len(),
{
    if keys.len() > 0 {
        let front = keys.drop_last();
        lemma_concat_keys(front);
        assert forall|i: int| 0 <= i < keys.len() implies #[trigger] keys[i] == concat_keys(
            keys,
        ).subrange(32 * i, 32 * i + 32) by {
            if i < front.len() {
                assert(keys[i] == front[i]);
                assert(concat_keys(keys).subrange(32 * i, 32 * i + 32) =~= concat_keys(
                    front,
                ).subrange(32 * i, 32 * i + 32));
            } else {
                assert(concat_keys(keys).subrange(32 * i, 32 * i + 32) =~= keys.last());
            }
        }
    }
}

/// Two runs of 32-byte identifiers with the same bytes are the same run.
pub proof fn lemma_concat_keys_of_chunks(body: Seq<u8>, n: nat)
    requires
        body.len() == 32 * n,
    ensures
        concat_keys(Seq::new(n, |i: int| body.subrange(32 * i, 32 * i + 32))) == body,
    decreases n,
{
    let keys = Seq::new(n, |i: int| body.subrange(32 * i, 32 * i + 32));
    if n > 0 {
        let m = (n - 1) as nat;
        let front_body = body.subrange(0, 32 * (m as int));
        lemma_concat_keys_of_chunks(front_body, m);
        let front = Seq::new(m, |i: int| front_body.subrange(32 * i, 32 * i + 32));
        assert(keys.drop_last() =~= front) by {
            assert forall|i: int| 0 <= i < m implies keys.drop_last()[i] == front[i] by {
                assert(body.subrange(32 * i, 32 * i + 32) =~= front_body.subrange(
                    32 * i,
                    32 * i + 32,
                ));
            }
        }
        assert(concat_keys(keys) =~= body);
    } else {
        assert(concat_keys(keys) =~= body);
    }
}

/// A sequence of 32-byte identifiers that fits its prefix is read back from where it was written.
pub proof fn lemma_keys_read_back(s: Seq<u8>, at: int, keys: Seq<Seq<u8>>)
    requires
        fits_prefix(keys.len()),
        forall|i: int| 0 <= i < keys.len() ==> (#[trigger] keys[i]).len() == 32,
        occurs_at(s, at, keys_bytes(keys)),
    ensures
        parse_keys(s, at) == Ok::<(Seq<Seq<u8>>, int), DecodeError>(
            (keys, at + 4 + 32 * keys.len()),
        ),
        keys_bytes(keys).len() == 4 + 32 * keys.len(),
{
    lemma_widths();
    lemma_concat_keys(keys);
    let prefix = u32_bytes(keys.len() as u32);
    let body = concat_keys(keys);
    lemma_occurs_concat(s, at, prefix, body);
    lemma_u32_reads_back(s, at, keys.len() as u32);
    let read = parse_keys(s, at)->Ok_0.0;
    assert(read =~= keys) by {
        assert forall|i: int| 0 <= i < keys.len() implies read[i] == keys[i] by {
            assert(s.subrange(at + 4 + 32 * i, at + 4 + 32 * i + 32) =~= s.subrange(
                at + 4,
                at + 4 + body.len(),
            ).subrange(32 * i, 32 * i + 32));
        }
    }
}

/// Where a sequence of identifiers is read, its bytes stand, each identifier has 32
/// bytes, and the sequence fits its prefix.
pub proof fn lemma_keys_read_were_written(s: Seq<u8>, at: int)
    requires
        0 <= at,
        parse_keys(s, at) is Ok,
    ensures
        fits_prefix(parse_keys(s, at)->Ok_0.0.len()),
        forall|i: int|
            0 <= i < parse_keys(s, at)->Ok_0.0.len() ==> (#[trigger] parse_keys(
                s,
                at,
            )->Ok_0.0[i]).len() == 32,
        occurs_at(s, at, keys_bytes(parse_keys(s, at)->Ok_0.0)),
        parse_keys(s, at)->Ok_0.1 == at + keys_bytes(parse_keys(s, at)->Ok_0.0).len(),
        keys_bytes(parse_keys(s, at)->Ok_0.0).len() == 4 + 32 * parse_keys(s, at)->Ok_0.0.len(),
{
    lemma_widths();
    lemma_u32_read_was_written(s, at);
    let (len, start) = parse_u32(s, at)->Ok_0;
    let keys = parse_keys(s, at)->Ok_0.0;
    let body = s.subrange(start, start + 32 * len);
    lemma_concat_keys_of_chunks(body, len as nat);
    assert(keys =~= Seq::new(len as nat, |i: int| body.subrange(32 * i, 32 * i + 32))) by {
        assert forall|i: int| 0 <= i < len implies keys[i] == body.subrange(
            32 * i,
            32 * i + 32,
        ) by {
            assert(s.subrange(start + 32 * i, start + 32 * i + 32) =~= body.subrange(
                32 * i,
                32 * i + 32,
            ));
        }
    }
    lemma_occurs_concat(s, at, u32_bytes(len), body);
}

/// An optional `u64` is read back from where it was written.
pub proof fn lemma_option_u64_reads_back(s: Seq<u8>, at: int, o: Option<u64>)
    requires
        occurs_at(s, at, option_u64_bytes(o)),
    ensures
        parse_option_u64(s, at) == Ok::<(Option<u64>, int), DecodeError>(
            (o, at + option_u64_bytes(o).len()),
        ),
        option_u64_bytes(o).len() == if o is Some { 9int } else { 1int },
{
    lemma_widths();
    match o {
        None => {
            lemma_u8_reads_back(s, at, 0u8);
        },
        Some(v) => {
            lemma_occurs_concat(s, at, u8_bytes(1u8), u64_bytes(v));
            lemma_u8_reads_back(s, at, 1u8);
            lemma_u64_reads_back(s, at + 1, v);
        },
    }
}

/// Where an optional `u64` is read, its bytes stand.
pub proof fn lemma_option_u64_read_was_written(s: Seq<u8>, at: int)
    requires
        0 <= at,
        parse_option_u64(s, at) is Ok,
    ensures
        occurs_at(s, at, option_u64_bytes(parse_option_u64(s, at)->Ok_0.0)),
        parse_option_u64(s, at)->Ok_0.1 == at + option_u64_bytes(
            parse_option_u64(s, at)->Ok_0.0,
        ).len(),
{
    lemma_widths();
    lemma_u8_read_was_written(s, at);
    let (tag, body) = parse_u8(s, at)->Ok_0;
    if tag == 1 {
        lemma_u64_read_was_written(s, body);
        let v = parse_u64(s, body)->Ok_0.0;
        lemma_occurs_concat(s, at, u8_bytes(1u8), u64_bytes(v));
    }
}

} // verus!
