//! The encoding of the record and of the account: each field in the order in which
//! the type declares it, an enum as the position of its variant in one byte and then
//! the variant's fields.

use vstd::prelude::*;
use vstd::slice::slice_to_vec;
use crate::error::{DecodeError, EncodeError};
use crate::state::{
    BorshDemoAccount, BorshDemoAccountView, BorshDemoState, BorshDemoStateView, DataEnum,
    DataEnumView, NestedStruct, NestedStructView, SimpleEnum,
};
use crate::wire::{
    blob_bytes, bool_bytes, i64_bytes, key_bytes, keys_bytes, keys_view, option_u64_bytes,
    parse_blob, parse_bool, parse_i64, parse_key, parse_keys, parse_option_u64, parse_text,
    parse_u16, parse_u32, parse_u64, parse_u8, read_blob, read_bool, read_i64, read_key,
    read_keys, read_option_u64, read_text, read_u16, read_u32, read_u64, read_u8, text_bytes,
    text_fits, u16_bytes, u32_bytes, u64_bytes, u8_bytes, write_blob, write_bool, write_i64,
    write_key, write_keys, write_option_u64, write_text, write_u16, write_u32, write_u64,
    write_u8,
};

verus! {

/// The value that a successful read gave.
pub open spec fn value<T>(r: Result<(T, int), DecodeError>) -> T {
    r->Ok_0.0
}

/// The position behind the value that a successful read gave.
pub open spec fn rest<T>(r: Result<(T, int), DecodeError>) -> int {
    r->Ok_0.1
}

/// What decoding a whole byte string gives, from what reading at its start gave:
/// the value, if it ends where the bytes end.
pub open spec fn whole<T>(r: Result<(T, int), DecodeError>, len: nat) -> Result<T, DecodeError> {
    match r {
        Err(e) => Err(e),
        Ok((v, next)) => if next == len {
            Ok(v)
        } else {
            Err(DecodeError::TrailingBytes)
        },
    }
}

/// What has been appended so far, with one part more.
pub proof fn lemma_appended(start: Seq<u8>, done: Seq<u8>, part: Seq<u8>) -> (all: Seq<u8>)
    ensures
        all == done + part,
        (start + done) + part == start + all,
{
    assert((start + done) + part =~= start + (done + part));
    done + part
}

impl SimpleEnum {
    /// The position of the variant.
    pub open spec fn tag(self) -> u8 {
        match self {
            SimpleEnum::First => 0,
            SimpleEnum::Second => 1,
            SimpleEnum::Third => 2,
        }
    }

    /// The encoding: the tag.
    pub open spec fn bytes(self) -> Seq<u8> {
        u8_bytes(self.tag())
    }

    /// What reading a `SimpleEnum` at `at` gives.
    pub open spec fn parse(s: Seq<u8>, at: int) -> Result<(SimpleEnum, int), DecodeError> {
        let tag = parse_u8(s, at);
        if tag is Err {
            Err(tag->Err_0)
        } else if value(tag) == 0 {
            Ok((SimpleEnum::First, rest(tag)))
        } else if value(tag) == 1 {
            Ok((SimpleEnum::Second, rest(tag)))
        } else if value(tag) == 2 {
            Ok((SimpleEnum::Third, rest(tag)))
        } else {
            Err(DecodeError::InvalidTag)
        }
    }

    /// Appends the encoding.
    pub fn write(&self, out: &mut Vec<u8>)
        ensures
            final(out)@ == old(out)@ + self.bytes(),
    {
        let tag: u8 = match self {
            SimpleEnum::First => 0,
            SimpleEnum::Second => 1,
            SimpleEnum::Third => 2,
        };
        write_u8(out, tag);
    }

    /// Reads a `SimpleEnum` at `at`.
    pub fn read(input: &[u8], at: usize) -> (r: Result<(SimpleEnum, usize), DecodeError>)
        ensures
            match SimpleEnum::parse(input@, at as int) {
                Ok((v, next)) => r is Ok && r->Ok_0.0 == v && r->Ok_0.1 == next,
                Err(e) => r == Err::<(SimpleEnum, usize), DecodeError>(e),
            },
    {
        let (tag, next) = read_u8(input, at)?;
        if tag == 0 {
            Ok((SimpleEnum::First, next))
        } else if tag == 1 {
            Ok((SimpleEnum::Second, next))
        } else if tag == 2 {
            Ok((SimpleEnum::Third, next))
        } else {
            Err(DecodeError::InvalidTag)
        }
    }
}

impl DataEnumView {
    /// The position of the variant.
    pub open spec fn tag(self) -> u8 {
        match self {
            DataEnumView::Amount { value } => 0,
            DataEnumView::Name { label } => 1,
        }
    }

    /// The encoding: the tag, then the variant's field.
    pub open spec fn bytes(self) -> Seq<u8> {
        match self {
            DataEnumView::Amount { value } => u8_bytes(0) + u64_bytes(value),
            DataEnumView::Name { label } => u8_bytes(1) + text_bytes(label),
        }
    }

    /// What reading a `DataEnum` at `at` gives.
    pub open spec fn parse(s: Seq<u8>, at: int) -> Result<(DataEnumView, int), DecodeError> {
        let tag = parse_u8(s, at);
        if tag is Err {
            Err(tag->Err_0)
        } else if value(tag) == 0 {
            let amount = parse_u64(s, rest(tag));
            if amount is Err {
                Err(amount->Err_0)
            } else {
                Ok((DataEnumView::Amount { value: value(amount) }, rest(amount)))
            }
        } else if value(tag) == 1 {
            let label = parse_text(s, rest(tag));
            if label is Err {
                Err(label->Err_0)
            } else {
                Ok((DataEnumView::Name { label: value(label) }, rest(label)))
            }
        } else {
            Err(DecodeError::InvalidTag)
        }
    }
}

impl DataEnum {
    /// Whether the value can be encoded.
    pub fn is_encodable(&self) -> (b: bool)
        ensures
            b == self@.wf(),
    {
        match self {
            DataEnum::Amount { value } => true,
            DataEnum::Name { label } => text_fits(label.as_str()),
        }
    }

    /// Appends the encoding.
    pub fn write(&self, out: &mut Vec<u8>)
        requires
            self@.wf(),
        ensures
            final(out)@ == old(out)@ + self@.bytes(),
    {
        match self {
            DataEnum::Amount { value } => {
                write_u8(out, 0);
                write_u64(out, *value);
            },
            DataEnum::Name { label } => {
                write_u8(out, 1);
                write_text(out, label.as_str());
            },
        }
        assert(out@ =~= old(out)@ + self@.bytes());
    }

    /// Reads a `DataEnum` at `at`.
    pub fn read(input: &[u8], at: usize) -> (r: Result<(DataEnum, usize), DecodeError>)
        ensures
            match DataEnumView::parse(input@, at as int) {
                Ok((v, next)) => r is Ok && r->Ok_0.0@ == v && r->Ok_0.1 == next
                    && next <= input@.len(),
                Err(e) => r == Err::<(DataEnum, usize), DecodeError>(e),
            },
    {
        let (tag, at) = read_u8(input, at)?;
        if tag == 0 {
            let (value, at) = read_u64(input, at)?;
            Ok((DataEnum::Amount { value }, at))
        } else if tag == 1 {
            let (label, at) = read_text(input, at)?;
            Ok((DataEnum::Name { label }, at))
        } else {
            Err(DecodeError::InvalidTag)
        }
    }
}

impl NestedStructView {
    /// The encoding: the count, then the note.
    pub open spec fn bytes(self) -> Seq<u8> {
        u32_bytes(self.count) + text_bytes(self.note)
    }

    /// What reading a `NestedStruct` at `at` gives.
    pub open spec fn parse(s: Seq<u8>, at: int) -> Result<(NestedStructView, int), DecodeError> {
        let count = parse_u32(s, at);
        let note = parse_text(s, rest(count));
        if count is Err {
            Err(count->Err_0)
        } else if note is Err {
            Err(note->Err_0)
        } else {
            Ok((NestedStructView { count: value(count), note: value(note) }, rest(note)))
        }
    }
}

impl NestedStruct {
    /// Whether the value can be encoded.
    pub fn is_encodable(&self) -> (b: bool)
        ensures
            b == self@.wf(),
    {
        text_fits(self.note.as_str())
    }

    /// Appends the encoding.
    pub fn write(&self, out: &mut Vec<u8>)
        requires
            self@.wf(),
        ensures
            final(out)@ == old(out)@ + self@.bytes(),
    {
        write_u32(out, self.count);
        write_text(out, self.note.as_str());
        assert(out@ =~= old(out)@ + self@.bytes());
    }

    /// Reads a `NestedStruct` at `at`.
    pub fn read(input: &[u8], at: usize) -> (r: Result<(NestedStruct, usize), DecodeError>)
        ensures
            match NestedStructView::parse(input@, at as int) {
                Ok((v, next)) => r is Ok && r->Ok_0.0@ == v && r->Ok_0.1 == next
                    && next <= input@.len(),
                Err(e) => r == Err::<(NestedStruct, usize), DecodeError>(e),
            },
    {
        let (count, at) = read_u32(input, at)?;
        let (note, at) = read_text(input, at)?;
        Ok((NestedStruct { count, note }, at))
    }
}

impl BorshDemoStateView {
    /// The encoding: the fields in their order, each in its own encoding.
    pub open spec fn bytes(self) -> Seq<u8> {
        u8_bytes(self.primitive_u8) + u16_bytes(self.primitive_u16) + u32_bytes(
            self.primitive_u32,
        ) + u64_bytes(self.primitive_u64) + i64_bytes(self.primitive_i64) + bool_bytes(
            self.primitive_bool,
        ) + key_bytes(self.fixed_pubkey_bytes) + text_bytes(self.text) + blob_bytes(self.data)
            + keys_bytes(self.keys) + self.simple_enum.bytes() + self.data_enum.bytes()
            + option_u64_bytes(self.maybe_amount) + self.nested.bytes()
    }

    /// What reading a record at `at` gives: each field is read where the one before
    /// it ends, and the first that cannot be read gives the error.
    pub open spec fn parse(s: Seq<u8>, at: int) -> Result<(BorshDemoStateView, int), DecodeError> {
        let primitive_u8 = parse_u8(s, at);
        let primitive_u16 = parse_u16(s, rest(primitive_u8));
        let primitive_u32 = parse_u32(s, rest(primitive_u16));
        let primitive_u64 = parse_u64(s, rest(primitive_u32));
        let primitive_i64 = parse_i64(s, rest(primitive_u64));
        let primitive_bool = parse_bool(s, rest(primitive_i64));
        let fixed_pubkey_bytes = parse_key(s, rest(primitive_bool));
        let text = parse_text(s, rest(fixed_pubkey_bytes));
        let data = parse_blob(s, rest(text));
        let keys = parse_keys(s, rest(data));
        let simple_enum = SimpleEnum::parse(s, rest(keys));
        let data_enum = DataEnumView::parse(s, rest(simple_enum));
        let maybe_amount = parse_option_u64(s, rest(data_enum));
        let nested = NestedStructView::parse(s, rest(maybe_amount));
        if primitive_u8 is Err {
            Err(primitive_u8->Err_0)
        } else if primitive_u16 is Err {
            Err(primitive_u16->Err_0)
        } else if primitive_u32 is Err {
            Err(primitive_u32->Err_0)
        } else if primitive_u64 is Err {
            Err(primitive_u64->Err_0)
        } else if primitive_i64 is Err {
            Err(primitive_i64->Err_0)
        } else if primitive_bool is Err {
            Err(primitive_bool->Err_0)
        } else if fixed_pubkey_bytes is Err {
            Err(fixed_pubkey_bytes->Err_0)
        } else if text is Err {
            Err(text->Err_0)
        } else if data is Err {
            Err(data->Err_0)
        } else if keys is Err {
            Err(keys->Err_0)
        } else if simple_enum is Err {
            Err(simple_enum->Err_0)
        } else if data_enum is Err {
            Err(data_enum->Err_0)
        } else if maybe_amount is Err {
            Err(maybe_amount->Err_0)
        } else if nested is Err {
            Err(nested->Err_0)
        } else {
            Ok(
                (
                    BorshDemoStateView {
                        primitive_u8: value(primitive_u8),
                        primitive_u16: value(primitive_u16),
                        primitive_u32: value(primitive_u32),
                        primitive_u64: value(primitive_u64),
                        primitive_i64: value(primitive_i64),
                        primitive_bool: value(primitive_bool),
                        fixed_pubkey_bytes: value(fixed_pubkey_bytes),
                        text: value(text),
                        data: value(data),
                        keys: value(keys),
                        simple_enum: value(simple_enum),
                        data_enum: value(data_enum),
                        maybe_amount: value(maybe_amount),
                        nested: value(nested),
                    },
                    rest(nested),
                ),
            )
        }
    }

    /// What decoding `s` as a record gives: the record that `s` is the encoding of,
    /// from its first byte to its last.
    pub open spec fn decode(s: Seq<u8>) -> Result<BorshDemoStateView, DecodeError> {
        whole(Self::parse(s, 0), s.len())
    }
}

impl BorshDemoState {
    /// Whether the record can be encoded.
    pub fn is_encodable(&self) -> (b: bool)
        ensures
            b == self@.wf(),
    {
        text_fits(self.text.as_str()) && self.data.len() <= u32::MAX as usize && self.keys.len()
            <= u32::MAX as usize && self.data_enum.is_encodable() && self.nested.is_encodable()
    }

    /// Appends the encoding.
    pub fn write(&self, out: &mut Vec<u8>)
        requires
            self@.wf(),
        ensures
            final(out)@ == old(out)@ + self@.bytes(),
    {
        let ghost start = out@;
        write_u8(out, self.primitive_u8);
        let ghost mut done = u8_bytes(self.primitive_u8);
        write_u16(out, self.primitive_u16);
        proof {
            done = lemma_appended(start, done, u16_bytes(self.primitive_u16));
        }
        write_u32(out, self.primitive_u32);
        proof {
            done = lemma_appended(start, done, u32_bytes(self.primitive_u32));
        }
        write_u64(out, self.primitive_u64);
        proof {
            done = lemma_appended(start, done, u64_bytes(self.primitive_u64));
        }
        write_i64(out, self.primitive_i64);
        proof {
            done = lemma_appended(start, done, i64_bytes(self.primitive_i64));
        }
        write_bool(out, self.primitive_bool);
        proof {
            done = lemma_appended(start, done, bool_bytes(self.primitive_bool));
        }
        write_key(out, &self.fixed_pubkey_bytes);
        proof {
            done = lemma_appended(start, done, key_bytes(self.fixed_pubkey_bytes@));
        }
        write_text(out, self.text.as_str());
        proof {
            done = lemma_appended(start, done, text_bytes(self.text@));
        }
        write_blob(out, self.data.as_slice());
        proof {
            done = lemma_appended(start, done, blob_bytes(self.data@));
        }
        write_keys(out, &self.keys);
        proof {
            done = lemma_appended(start, done, keys_bytes(keys_view(self.keys@)));
        }
        self.simple_enum.write(out);
        proof {
            done = lemma_appended(start, done, self.simple_enum.bytes());
        }
        self.data_enum.write(out);
        proof {
            done = lemma_appended(start, done, self.data_enum@.bytes());
        }
        write_option_u64(out, &self.maybe_amount);
        proof {
            done = lemma_appended(start, done, option_u64_bytes(self.maybe_amount));
        }
        self.nested.write(out);
        proof {
            done = lemma_appended(start, done, self.nested@.bytes());
        }
    }

    /// Reads a record at `at`.
    pub fn read(input: &[u8], at: usize) -> (r: Result<(BorshDemoState, usize), DecodeError>)
        ensures
            match BorshDemoStateView::parse(input@, at as int) {
                Ok((v, next)) => r is Ok && r->Ok_0.0@ == v && r->Ok_0.1 == next
                    && next <= input@.len(),
                Err(e) => r == Err::<(BorshDemoState, usize), DecodeError>(e),
            },
    {
        let (primitive_u8, at) = read_u8(input, at)?;
        let (primitive_u16, at) = read_u16(input, at)?;
        let (primitive_u32, at) = read_u32(input, at)?;
        let (primitive_u64, at) = read_u64(input, at)?;
        let (primitive_i64, at) = read_i64(input, at)?;
        let (primitive_bool, at) = read_bool(input, at)?;
        let (fixed_pubkey_bytes, at) = read_key(input, at)?;
        let (text, at) = read_text(input, at)?;
        let (data, at) = read_blob(input, at)?;
        let (keys, at) = read_keys(input, at)?;
        let (simple_enum, at) = SimpleEnum::read(input, at)?;
        let (data_enum, at) = DataEnum::read(input, at)?;
        let (maybe_amount, at) = read_option_u64(input, at)?;
        let (nested, at) = NestedStruct::read(input, at)?;
        Ok(
            (
                BorshDemoState {
                    primitive_u8,
                    primitive_u16,
                    primitive_u32,
                    primitive_u64,
                    primitive_i64,
                    primitive_bool,
                    fixed_pubkey_bytes,
                    text,
                    data,
                    keys,
                    simple_enum,
                    data_enum,
                    maybe_amount,
                    nested,
                },
                at,
            ),
        )
    }

    /// Encodes the record, unless a text, buffer or sequence in it is too long for
    /// its length prefix.
    pub fn try_to_vec(&self) -> (r: Result<Vec<u8>, EncodeError>)
        ensures
            self@.wf() ==> r is Ok && r->Ok_0@ == self@.bytes(),
            !self@.wf() ==> r == Err::<Vec<u8>, EncodeError>(EncodeError::LengthOverflow),
    {
        if !self.is_encodable() {
            return Err(EncodeError::LengthOverflow);
        }
        let mut out: Vec<u8> = Vec::new();
        self.write(&mut out);
        assert(out@ =~= self@.bytes());
        Ok(out)
    }

    /// Decodes a record from the whole of `v`.
    pub fn try_from_slice(v: &[u8]) -> (r: Result<BorshDemoState, DecodeError>)
        ensures
            match BorshDemoStateView::decode(v@) {
                Ok(state) => r is Ok && r->Ok_0@ == state,
                Err(e) => r == Err::<BorshDemoState, DecodeError>(e),
            },
    {
        let (state, next) = BorshDemoState::read(v, 0)?;
        if next != v.len() {
            return Err(DecodeError::TrailingBytes);
        }
        Ok(state)
    }
}

impl BorshDemoAccountView {
    /// The encoding: the discriminator, then the record.
    pub open spec fn bytes(self) -> Seq<u8> {
        self.discriminator + self.data.bytes()
    }

    /// What reading an account at `at` gives.
    pub open spec fn parse(s: Seq<u8>, at: int) -> Result<
        (BorshDemoAccountView, int),
        DecodeError,
    > {
        if at + 8 > s.len() {
            Err(DecodeError::Truncated)
        } else {
            let data = BorshDemoStateView::parse(s, at + 8);
            if data is Err {
                Err(data->Err_0)
            } else {
                Ok(
                    (
                        BorshDemoAccountView {
                            discriminator: s.subrange(at, at + 8),
                            data: value(data),
                        },
                        rest(data),
                    ),
                )
            }
        }
    }

    /// What decoding `s` as an account gives.
    pub open spec fn decode(s: Seq<u8>) -> Result<BorshDemoAccountView, DecodeError> {
        whole(Self::parse(s, 0), s.len())
    }
}

impl BorshDemoAccount {
    /// Whether the account can be encoded.
    pub fn is_encodable(&self) -> (b: bool)
        ensures
            b == self@.wf(),
    {
        self.data.is_encodable()
    }

    /// Appends the encoding.
    pub fn write(&self, out: &mut Vec<u8>)
        requires
            self@.wf(),
        ensures
            final(out)@ == old(out)@ + self@.bytes(),
    {
        let mut tag = slice_to_vec(self.discriminator.as_slice());
        out.append(&mut tag);
        self.data.write(out);
        assert(out@ =~= old(out)@ + self@.bytes());
    }

    /// Reads an account at `at`.
    pub fn read(input: &[u8], at: usize) -> (r: Result<(BorshDemoAccount, usize), DecodeError>)
        ensures
            match BorshDemoAccountView::parse(input@, at as int) {
                Ok((v, next)) => r is Ok && r->Ok_0.0@ == v && r->Ok_0.1 == next
                    && next <= input@.len(),
                Err(e) => r == Err::<(BorshDemoAccount, usize), DecodeError>(e),
            },
    {
        if at > input.len() || input.len() - at < 8 {
            return Err(DecodeError::Truncated);
        }
        let mut discriminator = [0u8; 8];
        let mut i: usize = 0;
        while i < 8
            invariant
                i <= 8,
                at + 8 <= input@.len() <= usize::MAX,
                forall|j: int| 0 <= j < i ==> discriminator@[j] == input@[at + j],
            decreases 8 - i,
        {
            discriminator[i] = input[at + i];
            i += 1;
        }
        assert(discriminator@ =~= input@.subrange(at as int, at + 8));
        let (data, next) = BorshDemoState::read(input, at + 8)?;
        Ok((BorshDemoAccount { discriminator, data }, next))
    }

    /// Encodes the account, unless a text, buffer or sequence in its record is too
    /// long for its length prefix.
    pub fn try_to_vec(&self) -> (r: Result<Vec<u8>, EncodeError>)
        ensures
            self@.wf() ==> r is Ok && r->Ok_0@ == self@.bytes(),
            !self@.wf() ==> r == Err::<Vec<u8>, EncodeError>(EncodeError::LengthOverflow),
    {
        if !self.is_encodable() {
            return Err(EncodeError::LengthOverflow);
        }
        let mut out: Vec<u8> = Vec::new();
        self.write(&mut out);
        assert(out@ =~= self@.bytes());
        Ok(out)
    }

    /// Decodes an account from the whole of `v`, whatever its first eight bytes are.
    pub fn try_from_slice(v: &[u8]) -> (r: Result<BorshDemoAccount, DecodeError>)
        ensures
            match BorshDemoAccountView::decode(v@) {
                Ok(account) => r is Ok && r->Ok_0@ == account,
                Err(e) => r == Err::<BorshDemoAccount, DecodeError>(e),
            },
    {
        let (account, next) = BorshDemoAccount::read(v, 0)?;
        if next != v.len() {
            return Err(DecodeError::TrailingBytes);
        }
        Ok(account)
    }
}

} // verus!
