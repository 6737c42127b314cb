//! How long an encoding is: a matter of the lengths of the record's variable parts
//! alone.

use vstd::prelude::*;
use vstd::utf8::encode_utf8;
use crate::state::{BorshDemoAccountView, BorshDemoState, BorshDemoStateView, DataEnumView};
use crate::wire_laws::{lemma_concat_keys, lemma_widths};

verus! {

/// What of a record decides the length of its encoding.
pub struct Shape {
    /// The bytes of the text in UTF-8.
    pub text_len: nat,
    /// The bytes of the buffer.
    pub data_len: nat,
    /// The number of identifiers.
    pub keys_len: nat,
    /// The bytes of the label in UTF-8, where the `DataEnum` is a name.
    pub label_len: Option<nat>,
    /// Whether the optional amount is present.
    pub has_amount: bool,
    /// The bytes of the nested note in UTF-8.
    pub note_len: nat,
}

impl Shape {
    /// The length of the encoding of a record of this shape: 56 bytes of fixed-width
    /// fields, then each variable part with its prefix or tag.
    pub open spec fn encoded_len(self) -> nat {
        56 + (4 + self.text_len) + (4 + self.data_len) + (4 + 32 * self.keys_len) + 1 + (1
            + match self.label_len {
            None => 8,
            Some(n) => 4 + n,
        }) + (if self.has_amount {
            9nat
        } else {
            1nat
        }) + (4 + (4 + self.note_len))
    }
}

impl BorshDemoStateView {
    /// The shape of the record.
    pub open spec fn shape(self) -> Shape {
        Shape {
            text_len: encode_utf8(self.text).len(),
            data_len: self.data.len(),
            keys_len: self.keys.len(),
            label_len: match self.data_enum {
                DataEnumView::Amount { value } => None,
                DataEnumView::Name { label } => Some(encode_utf8(label).len()),
            },
            has_amount: self.maybe_amount is Some,
            note_len: encode_utf8(self.nested.note).len(),
        }
    }
}

/// The encoding of a record is as long as its shape says, whatever its fixed-width
/// fields hold and whatever its texts, buffers and identifiers are made of.
pub proof fn lemma_state_len(v: BorshDemoStateView)
    requires
        v.has_full_keys(),
    ensures
        v.bytes().len() == v.shape().encoded_len(),
{
    lemma_widths();
    lemma_concat_keys(v.keys);
}

/// The encoding of the account that wraps a record is eight bytes longer than the
/// record's shape says.
pub proof fn lemma_account_len(v: BorshDemoStateView)
    requires
        v.has_full_keys(),
    ensures
        BorshDemoAccountView::wrap(v).bytes().len() == 8 + v.shape().encoded_len(),
{
    lemma_state_len(v);
}

/// Two records of the same shape are stored in the same number of bytes.
pub proof fn lemma_same_shape_same_len(a: BorshDemoState, b: BorshDemoState)
    requires
        a@.shape() == b@.shape(),
    ensures
        BorshDemoAccountView::wrap(a@).bytes().len() == BorshDemoAccountView::wrap(
            b@,
        ).bytes().len(),
{
    lemma_account_len(a@);
    lemma_account_len(b@);
}

} // verus!
