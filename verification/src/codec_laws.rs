//! Decoding inverts encoding: a record that can be encoded is decoded from its
//! bytes, and only from them.

use vstd::prelude::*;
use crate::codec::{rest, value};
use crate::error::DecodeError;
use crate::instruction::BorshDemoInstructionView;
use crate::state::{
    BorshDemoAccountView, BorshDemoStateView, DataEnumView, NestedStructView, SimpleEnum,
};
use crate::wire::{
    blob_bytes, bool_bytes, i64_bytes, key_bytes, keys_bytes, option_u64_bytes, parse_blob,
    parse_bool, parse_i64, parse_key, parse_keys, parse_option_u64, parse_text, parse_u16,
    parse_u32, parse_u64, parse_u8, text_bytes, u16_bytes, u32_bytes, u64_bytes, u8_bytes,
};
use crate::wire_laws::{
    lemma_blob_read_was_written, lemma_blob_reads_back, lemma_bool_read_was_written,
    lemma_bool_reads_back, lemma_i64_read_was_written, lemma_i64_reads_back,
    lemma_key_read_was_written, lemma_key_reads_back, lemma_keys_read_back,
    lemma_keys_read_were_written, lemma_occurs_concat, lemma_option_u64_read_was_written,
    lemma_option_u64_reads_back, lemma_text_read_was_written, lemma_text_reads_back,
    lemma_u16_read_was_written, lemma_u16_reads_back, lemma_u32_read_was_written,
    lemma_u32_reads_back, lemma_u64_read_was_written, lemma_u64_reads_back,
    lemma_u8_read_was_written, lemma_u8_reads_back, lemma_widths, occurs_at,
};

verus! {

/// A `SimpleEnum` is read back from where it was written.
pub proof fn lemma_simple_enum_reads_back(s: Seq<u8>, at: int, v: SimpleEnum)
    requires
        occurs_at(s, at, v.bytes()),
    ensures
        SimpleEnum::parse(s, at) == Ok::<(SimpleEnum, int), DecodeError>((v, at + 1)),
        v.bytes().len() == 1,
{
    lemma_u8_reads_back(s, at, v.tag());
}

/// Where a `SimpleEnum` is read, its byte stands.
pub proof fn lemma_simple_enum_read_was_written(s: Seq<u8>, at: int)
    requires
        0 <= at,
        SimpleEnum::parse(s, at) is Ok,
    ensures
        occurs_at(s, at, value(SimpleEnum::parse(s, at)).bytes()),
        rest(SimpleEnum::parse(s, at)) == at + 1,
{
    lemma_u8_read_was_written(s, at);
}

/// A `DataEnum` that can be encoded is read back from where it was written.
pub proof fn lemma_data_enum_reads_back(s: Seq<u8>, at: int, v: DataEnumView)
    requires
        v.wf(),
        occurs_at(s, at, v.bytes()),
    ensures
        DataEnumView::parse(s, at) == Ok::<(DataEnumView, int), DecodeError>(
            (v, at + v.bytes().len()),
        ),
{
    lemma_widths();
    match v {
        DataEnumView::Amount { value } => {
            lemma_occurs_concat(s, at, u8_bytes(0), u64_bytes(value));
            lemma_u8_reads_back(s, at, 0);
            lemma_u64_reads_back(s, at + 1, value);
        },
        DataEnumView::Name { label } => {
            lemma_occurs_concat(s, at, u8_bytes(1), text_bytes(label));
            lemma_u8_reads_back(s, at, 1);
            lemma_text_reads_back(s, at + 1, label);
        },
    }
}

/// Where a `DataEnum` is read, the bytes of one that can be encoded stand.
pub proof fn lemma_data_enum_read_was_written(s: Seq<u8>, at: int)
    requires
        0 <= at,
        DataEnumView::parse(s, at) is Ok,
    ensures
        value(DataEnumView::parse(s, at)).wf(),
        occurs_at(s, at, value(DataEnumView::parse(s, at)).bytes()),
        rest(DataEnumView::parse(s, at)) == at + value(DataEnumView::parse(s, at)).bytes().len(),
{
    lemma_widths();
    lemma_u8_read_was_written(s, at);
    let tag = value(parse_u8(s, at));
    if tag == 0 {
        lemma_u64_read_was_written(s, at + 1);
        lemma_occurs_concat(s, at, u8_bytes(0), u64_bytes(value(parse_u64(s, at + 1))));
    } else {
        lemma_text_read_was_written(s, at + 1);
        lemma_occurs_concat(s, at, u8_bytes(1), text_bytes(value(parse_text(s, at + 1))));
    }
}

/// A `NestedStruct` that can be encoded is read back from where it was written.
pub proof fn lemma_nested_reads_back(s: Seq<u8>, at: int, v: NestedStructView)
    requires
        v.wf(),
        occurs_at(s, at, v.bytes()),
    ensures
        NestedStructView::parse(s, at) == Ok::<(NestedStructView, int), DecodeError>(
            (v, at + v.bytes().len()),
        ),
{
    lemma_widths();
    lemma_occurs_concat(s, at, u32_bytes(v.count), text_bytes(v.note));
    lemma_u32_reads_back(s, at, v.count);
    lemma_text_reads_back(s, at + 4, v.note);
}

/// Where a `NestedStruct` is read, the bytes of one that can be encoded stand.
pub proof fn lemma_nested_read_was_written(s: Seq<u8>, at: int)
    requires
        0 <= at,
        NestedStructView::parse(s, at) is Ok,
    ensures
        value(NestedStructView::parse(s, at)).wf(),
        occurs_at(s, at, value(NestedStructView::parse(s, at)).bytes()),
        rest(NestedStructView::parse(s, at)) == at + value(
            NestedStructView::parse(s, at),
        ).bytes().len(),
{
    lemma_widths();
    lemma_u32_read_was_written(s, at);
    lemma_text_read_was_written(s, at + 4);
    let v = value(NestedStructView::parse(s, at));
    lemma_occurs_concat(s, at, u32_bytes(v.count), text_bytes(v.note));
}

/// A record that can be encoded is read back from where it was written.
pub proof fn lemma_state_reads_back(s: Seq<u8>, at: int, v: BorshDemoStateView)
    requires
        v.wf(),
        occurs_at(s, at, v.bytes()),
    ensures
        BorshDemoStateView::parse(s, at) == Ok::<(BorshDemoStateView, int), DecodeError>(
            (v, at + v.bytes().len()),
        ),
{
    lemma_widths();
    let e0 = u8_bytes(v.primitive_u8);
    let e1 = u16_bytes(v.primitive_u16);
    let e2 = u32_bytes(v.primitive_u32);
    let e3 = u64_bytes(v.primitive_u64);
    let e4 = i64_bytes(v.primitive_i64);
    let e5 = bool_bytes(v.primitive_bool);
    let e6 = key_bytes(v.fixed_pubkey_bytes);
    let e7 = text_bytes(v.text);
    let e8 = blob_bytes(v.data);
    let e9 = keys_bytes(v.keys);
    let e10 = v.simple_enum.bytes();
    let e11 = v.data_enum.bytes();
    let e12 = option_u64_bytes(v.maybe_amount);
    let e13 = v.nested.bytes();
    let acc1 = e0 + e1;
    let acc2 = acc1 + e2;
    let acc3 = acc2 + e3;
    let acc4 = acc3 + e4;
    let acc5 = acc4 + e5;
    let acc6 = acc5 + e6;
    let acc7 = acc6 + e7;
    let acc8 = acc7 + e8;
    let acc9 = acc8 + e9;
    let acc10 = acc9 + e10;
    let acc11 = acc10 + e11;
    let acc12 = acc11 + e12;
    assert(v.bytes() == acc12 + e13);
    lemma_occurs_concat(s, at, acc12, e13);
    lemma_occurs_concat(s, at, acc11, e12);
    lemma_occurs_concat(s, at, acc10, e11);
    lemma_occurs_concat(s, at, acc9, e10);
    lemma_occurs_concat(s, at, acc8, e9);
    lemma_occurs_concat(s, at, acc7, e8);
    lemma_occurs_concat(s, at, acc6, e7);
    lemma_occurs_concat(s, at, acc5, e6);
    lemma_occurs_concat(s, at, acc4, e5);
    lemma_occurs_concat(s, at, acc3, e4);
    lemma_occurs_concat(s, at, acc2, e3);
    lemma_occurs_concat(s, at, acc1, e2);
    lemma_occurs_concat(s, at, e0, e1);
    lemma_u8_reads_back(s, at, v.primitive_u8);
    lemma_u16_reads_back(s, at + e0.len(), v.primitive_u16);
    lemma_u32_reads_back(s, at + acc1.len(), v.primitive_u32);
    lemma_u64_reads_back(s, at + acc2.len(), v.primitive_u64);
    lemma_i64_reads_back(s, at + acc3.len(), v.primitive_i64);
    lemma_bool_reads_back(s, at + acc4.len(), v.primitive_bool);
    lemma_key_reads_back(s, at + acc5.len(), v.fixed_pubkey_bytes);
    lemma_text_reads_back(s, at + acc6.len(), v.text);
    lemma_blob_reads_back(s, at + acc7.len(), v.data);
    lemma_keys_read_back(s, at + acc8.len(), v.keys);
    lemma_simple_enum_reads_back(s, at + acc9.len(), v.simple_enum);
    lemma_data_enum_reads_back(s, at + acc10.len(), v.data_enum);
    lemma_option_u64_reads_back(s, at + acc11.len(), v.maybe_amount);
    lemma_nested_reads_back(s, at + acc12.len(), v.nested);
}

/// Where a record is read, the bytes of one that can be encoded stand.
pub proof fn lemma_state_read_was_written(s: Seq<u8>, at: int)
    requires
        0 <= at,
        BorshDemoStateView::parse(s, at) is Ok,
    ensures
        value(BorshDemoStateView::parse(s, at)).wf(),
        occurs_at(s, at, value(BorshDemoStateView::parse(s, at)).bytes()),
        rest(BorshDemoStateView::parse(s, at)) == at + value(
            BorshDemoStateView::parse(s, at),
        ).bytes().len(),
{
    lemma_widths();
    let v = value(BorshDemoStateView::parse(s, at));
    let f0 = parse_u8(s, at);
    let f1 = parse_u16(s, rest(f0));
    let f2 = parse_u32(s, rest(f1));
    let f3 = parse_u64(s, rest(f2));
    let f4 = parse_i64(s, rest(f3));
    let f5 = parse_bool(s, rest(f4));
    let f6 = parse_key(s, rest(f5));
    let f7 = parse_text(s, rest(f6));
    let f8 = parse_blob(s, rest(f7));
    let f9 = parse_keys(s, rest(f8));
    let f10 = SimpleEnum::parse(s, rest(f9));
    let f11 = DataEnumView::parse(s, rest(f10));
    let f12 = parse_option_u64(s, rest(f11));
    let f13 = NestedStructView::parse(s, rest(f12));
    lemma_u8_read_was_written(s, at);
    lemma_u16_read_was_written(s, rest(f0));
    lemma_u32_read_was_written(s, rest(f1));
    lemma_u64_read_was_written(s, rest(f2));
    lemma_i64_read_was_written(s, rest(f3));
    lemma_bool_read_was_written(s, rest(f4));
    lemma_key_read_was_written(s, rest(f5));
    lemma_text_read_was_written(s, rest(f6));
    lemma_blob_read_was_written(s, rest(f7));
    lemma_keys_read_were_written(s, rest(f8));
    lemma_simple_enum_read_was_written(s, rest(f9));
    lemma_data_enum_read_was_written(s, rest(f10));
    lemma_option_u64_read_was_written(s, rest(f11));
    lemma_nested_read_was_written(s, rest(f12));
    let e0 = u8_bytes(v.primitive_u8);
    let e1 = u16_bytes(v.primitive_u16);
    let e2 = u32_bytes(v.primitive_u32);
    let e3 = u64_bytes(v.primitive_u64);
    let e4 = i64_bytes(v.primitive_i64);
    let e5 = bool_bytes(v.primitive_bool);
    let e6 = key_bytes(v.fixed_pubkey_bytes);
    let e7 = text_bytes(v.text);
    let e8 = blob_bytes(v.data);
    let e9 = keys_bytes(v.keys);
    let e10 = v.simple_enum.bytes();
    let e11 = v.data_enum.bytes();
    let e12 = option_u64_bytes(v.maybe_amount);
    let e13 = v.nested.bytes();
    let acc1 = e0 + e1;
    let acc2 = acc1 + e2;
    let acc3 = acc2 + e3;
    let acc4 = acc3 + e4;
    let acc5 = acc4 + e5;
    let acc6 = acc5 + e6;
    let acc7 = acc6 + e7;
    let acc8 = acc7 + e8;
    let acc9 = acc8 + e9;
    let acc10 = acc9 + e10;
    let acc11 = acc10 + e11;
    let acc12 = acc11 + e12;
    lemma_occurs_concat(s, at, e0, e1);
    lemma_occurs_concat(s, at, acc1, e2);
    lemma_occurs_concat(s, at, acc2, e3);
    lemma_occurs_concat(s, at, acc3, e4);
    lemma_occurs_concat(s, at, acc4, e5);
    lemma_occurs_concat(s, at, acc5, e6);
    lemma_occurs_concat(s, at, acc6, e7);
    lemma_occurs_concat(s, at, acc7, e8);
    lemma_occurs_concat(s, at, acc8, e9);
    lemma_occurs_concat(s, at, acc9, e10);
    lemma_occurs_concat(s, at, acc10, e11);
    lemma_occurs_concat(s, at, acc11, e12);
    lemma_occurs_concat(s, at, acc12, e13);
    assert(v.bytes() == acc12 + e13);
}

/// An account that can be encoded is read back from where it was written.
pub proof fn lemma_account_reads_back(s: Seq<u8>, at: int, v: BorshDemoAccountView)
    requires
        v.wf(),
        occurs_at(s, at, v.bytes()),
    ensures
        BorshDemoAccountView::parse(s, at) == Ok::<(BorshDemoAccountView, int), DecodeError>(
            (v, at + v.bytes().len()),
        ),
{
    lemma_occurs_concat(s, at, v.discriminator, v.data.bytes());
    lemma_state_reads_back(s, at + 8, v.data);
}

/// Where an account is read, the bytes of one that can be encoded stand.
pub proof fn lemma_account_read_was_written(s: Seq<u8>, at: int)
    requires
        0 <= at,
        BorshDemoAccountView::parse(s, at) is Ok,
    ensures
        value(BorshDemoAccountView::parse(s, at)).wf(),
        occurs_at(s, at, value(BorshDemoAccountView::parse(s, at)).bytes()),
        rest(BorshDemoAccountView::parse(s, at)) == at + value(
            BorshDemoAccountView::parse(s, at),
        ).bytes().len(),
{
    lemma_state_read_was_written(s, at + 8);
    let v = value(BorshDemoAccountView::parse(s, at));
    lemma_occurs_concat(s, at, v.discriminator, v.data.bytes());
}

/// Decoding the encoding of a record gives the record back.
pub proof fn lemma_state_round_trip(v: BorshDemoStateView)
    requires
        v.wf(),
    ensures
        BorshDemoStateView::decode(v.bytes()) == Ok::<BorshDemoStateView, DecodeError>(v),
{
    let s = v.bytes();
    assert(s.subrange(0, s.len() as int) =~= s);
    lemma_state_reads_back(s, 0, v);
}

/// Bytes decode to a record only if they are its encoding, and then the record can
/// be encoded.
pub proof fn lemma_state_decoded_is_encoded(s: Seq<u8>)
    requires
        BorshDemoStateView::decode(s) is Ok,
    ensures
        BorshDemoStateView::decode(s)->Ok_0.wf(),
        BorshDemoStateView::decode(s)->Ok_0.bytes() == s,
{
    lemma_state_read_was_written(s, 0);
    assert(s.subrange(0, s.len() as int) =~= s);
}

/// No two records that can be encoded have the same encoding.
pub proof fn lemma_state_encoding_injective(a: BorshDemoStateView, b: BorshDemoStateView)
    requires
        a.wf(),
        b.wf(),
        a.bytes() == b.bytes(),
    ensures
        a == b,
{
    lemma_state_round_trip(a);
    lemma_state_round_trip(b);
}

/// Decoding the encoding of an account gives the account back.
pub proof fn lemma_account_round_trip(v: BorshDemoAccountView)
    requires
        v.wf(),
    ensures
        BorshDemoAccountView::decode(v.bytes()) == Ok::<BorshDemoAccountView, DecodeError>(v),
{
    let s = v.bytes();
    assert(s.subrange(0, s.len() as int) =~= s);
    lemma_account_reads_back(s, 0, v);
}

/// Bytes decode to an account only if they are its encoding, and then the account
/// can be encoded.
pub proof fn lemma_account_decoded_is_encoded(s: Seq<u8>)
    requires
        BorshDemoAccountView::decode(s) is Ok,
    ensures
        BorshDemoAccountView::decode(s)->Ok_0.wf(),
        BorshDemoAccountView::decode(s)->Ok_0.bytes() == s,
{
    lemma_account_read_was_written(s, 0);
    assert(s.subrange(0, s.len() as int) =~= s);
}

/// A request that can be encoded is read back from where it was written.
pub proof fn lemma_instruction_reads_back(s: Seq<u8>, at: int, v: BorshDemoInstructionView)
    requires
        v.wf(),
        occurs_at(s, at, v.bytes()),
    ensures
        BorshDemoInstructionView::parse(s, at) == Ok::<
            (BorshDemoInstructionView, int),
            DecodeError,
        >((v, at + v.bytes().len())),
{
    lemma_widths();
    match v {
        BorshDemoInstructionView::Initialize { data } => {
            lemma_occurs_concat(s, at, u8_bytes(0), data.bytes());
            lemma_u8_reads_back(s, at, 0);
            lemma_state_reads_back(s, at + 1, data);
        },
        BorshDemoInstructionView::Update { new_u64, new_bool, new_text, new_option } => {
            let acc1 = u8_bytes(1) + u64_bytes(new_u64);
            let acc2 = acc1 + bool_bytes(new_bool);
            let acc3 = acc2 + text_bytes(new_text);
            lemma_occurs_concat(s, at, acc3, option_u64_bytes(new_option));
            lemma_occurs_concat(s, at, acc2, text_bytes(new_text));
            lemma_occurs_concat(s, at, acc1, bool_bytes(new_bool));
            lemma_occurs_concat(s, at, u8_bytes(1), u64_bytes(new_u64));
            lemma_u8_reads_back(s, at, 1);
            lemma_u64_reads_back(s, at + 1, new_u64);
            lemma_bool_reads_back(s, at + acc1.len(), new_bool);
            lemma_text_reads_back(s, at + acc2.len(), new_text);
            lemma_option_u64_reads_back(s, at + acc3.len(), new_option);
        },
        BorshDemoInstructionView::Validate { expected_u8 } => {
            lemma_occurs_concat(s, at, u8_bytes(2), u8_bytes(expected_u8));
            lemma_u8_reads_back(s, at, 2);
            lemma_u8_reads_back(s, at + 1, expected_u8);
        },
    }
}

/// Where a request is read, the bytes of one that can be encoded stand.
pub proof fn lemma_instruction_read_was_written(s: Seq<u8>, at: int)
    requires
        0 <= at,
        BorshDemoInstructionView::parse(s, at) is Ok,
    ensures
        value(BorshDemoInstructionView::parse(s, at)).wf(),
        occurs_at(s, at, value(BorshDemoInstructionView::parse(s, at)).bytes()),
        rest(BorshDemoInstructionView::parse(s, at)) == at + value(
            BorshDemoInstructionView::parse(s, at),
        ).bytes().len(),
{
    lemma_widths();
    lemma_u8_read_was_written(s, at);
    let tag = value(parse_u8(s, at));
    if tag == 0 {
        lemma_state_read_was_written(s, at + 1);
        let data = value(BorshDemoStateView::parse(s, at + 1));
        lemma_occurs_concat(s, at, u8_bytes(0), data.bytes());
    } else if tag == 1 {
        let f0 = parse_u64(s, at + 1);
        let f1 = parse_bool(s, rest(f0));
        let f2 = parse_text(s, rest(f1));
        let f3 = parse_option_u64(s, rest(f2));
        lemma_u64_read_was_written(s, at + 1);
        lemma_bool_read_was_written(s, rest(f0));
        lemma_text_read_was_written(s, rest(f1));
        lemma_option_u64_read_was_written(s, rest(f2));
        let acc1 = u8_bytes(1) + u64_bytes(value(f0));
        let acc2 = acc1 + bool_bytes(value(f1));
        let acc3 = acc2 + text_bytes(value(f2));
        lemma_occurs_concat(s, at, u8_bytes(1), u64_bytes(value(f0)));
        lemma_occurs_concat(s, at, acc1, bool_bytes(value(f1)));
        lemma_occurs_concat(s, at, acc2, text_bytes(value(f2)));
        lemma_occurs_concat(s, at, acc3, option_u64_bytes(value(f3)));
    } else {
        lemma_u8_read_was_written(s, at + 1);
        lemma_occurs_concat(s, at, u8_bytes(2), u8_bytes(value(parse_u8(s, at + 1))));
    }
}

/// Decoding the encoding of a request gives the request back.
pub proof fn lemma_instruction_round_trip(v: BorshDemoInstructionView)
    requires
        v.wf(),
    ensures
        BorshDemoInstructionView::decode(v.bytes()) == Ok::<BorshDemoInstructionView, DecodeError>(
            v,
        ),
{
    let s = v.bytes();
    assert(s.subrange(0, s.len() as int) =~= s);
    lemma_instruction_reads_back(s, 0, v);
}

/// Bytes decode to a request only if they are its encoding, and then the request
/// can be encoded.
pub proof fn lemma_instruction_decoded_is_encoded(s: Seq<u8>)
    requires
        BorshDemoInstructionView::decode(s) is Ok,
    ensures
        BorshDemoInstructionView::decode(s)->Ok_0.wf(),
        BorshDemoInstructionView::decode(s)->Ok_0.bytes() == s,
{
    lemma_instruction_read_was_written(s, 0);
    assert(s.subrange(0, s.len() as int) =~= s);
}

/// Bytes decode to a record exactly if the record can be encoded and they are its
/// encoding.
pub proof fn lemma_state_decodes_iff_encoded(s: Seq<u8>, v: BorshDemoStateView)
    ensures
        BorshDemoStateView::decode(s) == Ok::<BorshDemoStateView, DecodeError>(v) <==> v.wf()
            && v.bytes() == s,
{
    if BorshDemoStateView::decode(s) is Ok {
        lemma_state_decoded_is_encoded(s);
    }
    if v.wf() {
        lemma_state_round_trip(v);
    }
}

/// Bytes decode to an account exactly if the account can be encoded and they are
/// its encoding.
pub proof fn lemma_account_decodes_iff_encoded(s: Seq<u8>, v: BorshDemoAccountView)
    ensures
        BorshDemoAccountView::decode(s) == Ok::<BorshDemoAccountView, DecodeError>(v) <==> v.wf()
            && v.bytes() == s,
{
    if BorshDemoAccountView::decode(s) is Ok {
        lemma_account_decoded_is_encoded(s);
    }
    if v.wf() {
        lemma_account_round_trip(v);
    }
}

/// Bytes decode to a request exactly if the request can be encoded and they are
/// its encoding.
pub proof fn lemma_instruction_decodes_iff_encoded(s: Seq<u8>, v: BorshDemoInstructionView)
    ensures
        BorshDemoInstructionView::decode(s) == Ok::<BorshDemoInstructionView, DecodeError>(v)
            <==> v.wf() && v.bytes() == s,
{
    if BorshDemoInstructionView::decode(s) is Ok {
        lemma_instruction_decoded_is_encoded(s);
    }
    if v.wf() {
        lemma_instruction_round_trip(v);
    }
}

} // verus!
