//! The record, the account that wraps it, and their mathematical models.

use vstd::prelude::*;
use vstd::utf8::encode_utf8;
use crate::wire::{fits_prefix, keys_view};

verus! {

/// The eight bytes every stored account starts with: `BORSHDEM` in ASCII.
pub const ACCOUNT_DISCRIMINATOR: [u8; 8] = [66, 79, 82, 83, 72, 68, 69, 77];

/// The number of bytes of the discriminator.
pub const DISCRIMINATOR_LEN: usize = 8;

/// The discriminator as a sequence of bytes.
pub open spec fn discriminator() -> Seq<u8> {
    seq![66u8, 79u8, 82u8, 83u8, 72u8, 68u8, 69u8, 77u8]
}

/// A record inside the record.
#[derive(Debug, Clone, PartialEq)]
pub struct NestedStruct {
    pub count: u32,
    pub note: String,
}

/// The model of a `NestedStruct`.
pub struct NestedStructView {
    pub count: u32,
    pub note: Seq<char>,
}

impl View for NestedStruct {
    type V = NestedStructView;

    open spec fn view(&self) -> NestedStructView {
        NestedStructView { count: self.count, note: self.note@ }
    }
}

impl NestedStructView {
    /// Whether the note fits its length prefix.
    pub open spec fn wf(self) -> bool {
        fits_prefix(encode_utf8(self.note).len())
    }
}

/// One of three names, with nothing attached.
#[derive(Debug, Clone, Copy, PartialEq, Eq, Structural)]
pub enum SimpleEnum {
    First,
    Second,
    Third,
}

/// Either an amount or a name.
#[derive(Debug, Clone, PartialEq)]
pub enum DataEnum {
    Amount { value: u64 },
    Name { label: String },
}

/// The model of a `DataEnum`.
pub enum DataEnumView {
    Amount { value: u64 },
    Name { label: Seq<char> },
}

impl View for DataEnum {
    type V = DataEnumView;

    open spec fn view(&self) -> DataEnumView {
        match self {
            DataEnum::Amount { value } => DataEnumView::Amount { value: *value },
            DataEnum::Name { label } => DataEnumView::Name { label: label@ },
        }
    }
}

impl DataEnumView {
    /// Whether the label, if there is one, fits its length prefix.
    pub open spec fn wf(self) -> bool {
        match self {
            DataEnumView::Amount { value } => true,
            DataEnumView::Name { label } => fits_prefix(encode_utf8(label).len()),
        }
    }
}

/// The record that an account stores.
#[derive(Debug, Clone, PartialEq)]
pub struct BorshDemoState {
    pub primitive_u8: u8,
    pub primitive_u16: u16,
    pub primitive_u32: u32,
    pub primitive_u64: u64,
    pub primitive_i64: i64,
    pub primitive_bool: bool,
    pub fixed_pubkey_bytes: [u8; 32],
    pub text: String,
    pub data: Vec<u8>,
    pub keys: Vec<[u8; 32]>,
    pub simple_enum: SimpleEnum,
    pub data_enum: DataEnum,
    pub maybe_amount: Option<u64>,
    pub nested: NestedStruct,
}

/// The model of a `BorshDemoState`: text as characters, buffers and identifiers as
/// sequences of bytes.
pub struct BorshDemoStateView {
    pub primitive_u8: u8,
    pub primitive_u16: u16,
    pub primitive_u32: u32,
    pub primitive_u64: u64,
    pub primitive_i64: i64,
    pub primitive_bool: bool,
    pub fixed_pubkey_bytes: Seq<u8>,
    pub text: Seq<char>,
    pub data: Seq<u8>,
    pub keys: Seq<Seq<u8>>,
    pub simple_enum: SimpleEnum,
    pub data_enum: DataEnumView,
    pub maybe_amount: Option<u64>,
    pub nested: NestedStructView,
}

impl View for BorshDemoState {
    type V = BorshDemoStateView;

    open spec fn view(&self) -> BorshDemoStateView {
        BorshDemoStateView {
            primitive_u8: self.primitive_u8,
            primitive_u16: self.primitive_u16,
            primitive_u32: self.primitive_u32,
            primitive_u64: self.primitive_u64,
            primitive_i64: self.primitive_i64,
            primitive_bool: self.primitive_bool,
            fixed_pubkey_bytes: self.fixed_pubkey_bytes@,
            text: self.text@,
            data: self.data@,
            keys: keys_view(self.keys@),
            simple_enum: self.simple_enum,
            data_enum: self.data_enum@,
            maybe_amount: self.maybe_amount,
            nested: self.nested@,
        }
    }
}

impl BorshDemoStateView {
    /// Whether each identifier has its 32 bytes, as in the model of every
    /// `BorshDemoState`.
    pub open spec fn has_full_keys(self) -> bool {
        &&& self.fixed_pubkey_bytes.len() == 32
        &&& forall|i: int| 0 <= i < self.keys.len() ==> (#[trigger] self.keys[i]).len() == 32
    }

    /// Whether the record can be encoded: each identifier has 32 bytes, and each text,
    /// buffer and sequence fits its length prefix.
    pub open spec fn wf(self) -> bool {
        &&& self.has_full_keys()
        &&& fits_prefix(encode_utf8(self.text).len())
        &&& fits_prefix(self.data.len())
        &&& fits_prefix(self.keys.len())
        &&& self.data_enum.wf()
        &&& self.nested.wf()
    }
}

/// The identifiers in the model of a record have 32 bytes each.
pub proof fn lemma_view_has_full_keys(state: BorshDemoState)
    ensures
        state@.has_full_keys(),
{
}

/// What a slot holds: the discriminator, then the record.
#[derive(Debug, Clone, PartialEq)]
pub struct BorshDemoAccount {
    pub discriminator: [u8; 8],
    pub data: BorshDemoState,
}

/// The model of a `BorshDemoAccount`.
pub struct BorshDemoAccountView {
    pub discriminator: Seq<u8>,
    pub data: BorshDemoStateView,
}

impl View for BorshDemoAccount {
    type V = BorshDemoAccountView;

    open spec fn view(&self) -> BorshDemoAccountView {
        BorshDemoAccountView { discriminator: self.discriminator@, data: self.data@ }
    }
}

impl BorshDemoAccountView {
    /// Whether the account can be encoded.
    pub open spec fn wf(self) -> bool {
        self.discriminator.len() == 8 && self.data.wf()
    }

    /// The account that stores `data`: the discriminator stamped in front of it.
    pub open spec fn wrap(data: BorshDemoStateView) -> BorshDemoAccountView {
        BorshDemoAccountView { discriminator: discriminator(), data }
    }
}

impl BorshDemoAccount {
    /// Wraps a record for storage, with the discriminator in front.
    pub fn new(data: BorshDemoState) -> (account: BorshDemoAccount)
        ensures
            account@ == BorshDemoAccountView::wrap(data@),
            account.data == data,
    {
        let account = BorshDemoAccount { discriminator: ACCOUNT_DISCRIMINATOR, data };
        assert(account.discriminator@ =~= discriminator());
        account
    }
}

} // verus!
