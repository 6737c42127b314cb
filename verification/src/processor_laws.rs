//! What holds of every request: a refusal writes nothing, no request changes the
//! length of a slot, and what was written is read back.

use vstd::prelude::*;
use vstd::utf8::encode_utf8;
use crate::codec_laws::{
    lemma_account_decoded_is_encoded, lemma_account_read_was_written, lemma_account_round_trip,
};
use crate::error::{BorshDemoError, ProcessError};
use crate::instruction::BorshDemoInstructionView;
use crate::layout::lemma_account_len;
use crate::processor::{
    has_discriminator, initialize_step, process_step, request_step, update_step, validate_step,
    Outcome, SlotView,
};
use crate::state::{discriminator, BorshDemoAccountView, BorshDemoStateView};

verus! {

/// The account that wraps a record which can be encoded is stored with the
/// discriminator in front and read back as that record.
pub proof fn lemma_wrapped_is_unwrapped(data: BorshDemoStateView)
    requires
        data.wf(),
    ensures
        has_discriminator(BorshDemoAccountView::wrap(data).bytes()),
        BorshDemoAccountView::unwrap_checked(BorshDemoAccountView::wrap(data).bytes()) == Ok::<
            BorshDemoStateView,
            ProcessError,
        >(data),
{
    let account = BorshDemoAccountView::wrap(data);
    assert(account.bytes().subrange(0, 8) =~= discriminator());
    lemma_account_round_trip(account);
}

/// Bytes store a record only if they are the encoding of the account that wraps it.
pub proof fn lemma_unwrapped_was_wrapped(data: Seq<u8>)
    requires
        BorshDemoAccountView::unwrap_checked(data) is Ok,
    ensures
        BorshDemoAccountView::unwrap_checked(data)->Ok_0.wf(),
        BorshDemoAccountView::wrap(BorshDemoAccountView::unwrap_checked(data)->Ok_0).bytes()
            == data,
{
    lemma_account_decoded_is_encoded(data);
    let account = BorshDemoAccountView::decode(data)->Ok_0;
    lemma_account_read_was_written(data, 0);
    assert(account.discriminator == data.subrange(0, 8));
}

/// Bytes that do not start with the discriminator store no record, whatever else
/// they hold.
pub proof fn lemma_unwrap_needs_discriminator(data: Seq<u8>)
    requires
        !has_discriminator(data),
    ensures
        BorshDemoAccountView::unwrap_checked(data) == Err::<BorshDemoStateView, ProcessError>(
            ProcessError::Custom(BorshDemoError::InvalidDiscriminator),
        ),
{
}

/// An update and a validation of an owned slot whose bytes do not start with the
/// discriminator are both refused for that, and the slots stay as they are.
pub proof fn lemma_discriminator_gate(
    accounts: Seq<SlotView>,
    new_u64: u64,
    new_bool: bool,
    new_text: Seq<char>,
    new_option: Option<u64>,
    expected_u8: u8,
)
    requires
        accounts.len() >= 1,
        accounts[0].owned_by_program,
        !has_discriminator(accounts[0].data),
    ensures
        update_step(accounts, new_u64, new_bool, new_text, new_option) == (
            Err::<(), ProcessError>(ProcessError::Custom(BorshDemoError::InvalidDiscriminator)),
            accounts,
        ),
        validate_step(accounts, expected_u8) == Err::<(), ProcessError>(
            ProcessError::Custom(BorshDemoError::InvalidDiscriminator),
        ),
{
}

/// An update with a text of another byte length is refused, and the slots stay as
/// they are.
pub proof fn lemma_update_keeps_text_length(
    accounts: Seq<SlotView>,
    new_u64: u64,
    new_bool: bool,
    new_text: Seq<char>,
    new_option: Option<u64>,
)
    requires
        accounts.len() >= 1,
        accounts[0].owned_by_program,
        BorshDemoAccountView::unwrap_checked(accounts[0].data) is Ok,
        encode_utf8(BorshDemoAccountView::unwrap_checked(accounts[0].data)->Ok_0.text).len()
            != encode_utf8(new_text).len(),
    ensures
        update_step(accounts, new_u64, new_bool, new_text, new_option) == (
            Err::<(), ProcessError>(ProcessError::Custom(BorshDemoError::StringLengthChange)),
            accounts,
        ),
{
}

/// An update with a text of the same byte length that would make a present amount
/// absent, or an absent one present, is refused, and the slots stay as they are.
pub proof fn lemma_update_keeps_option_variant(
    accounts: Seq<SlotView>,
    new_u64: u64,
    new_bool: bool,
    new_text: Seq<char>,
    new_option: Option<u64>,
)
    requires
        accounts.len() >= 1,
        accounts[0].owned_by_program,
        BorshDemoAccountView::unwrap_checked(accounts[0].data) is Ok,
        encode_utf8(BorshDemoAccountView::unwrap_checked(accounts[0].data)->Ok_0.text).len()
            == encode_utf8(new_text).len(),
        (BorshDemoAccountView::unwrap_checked(accounts[0].data)->Ok_0.maybe_amount is Some) != (
        new_option is Some),
    ensures
        update_step(accounts, new_u64, new_bool, new_text, new_option) == (
            Err::<(), ProcessError>(ProcessError::Custom(BorshDemoError::OptionVariantChange)),
            accounts,
        ),
{
}

/// An update of an owned slot with a text of the same byte length and an amount
/// that is present exactly if the stored one is succeeds; the slot then stores the
/// record with the four new values and the other fields as they were, in as many
/// bytes as before.
pub proof fn lemma_update_is_stored(
    accounts: Seq<SlotView>,
    new_u64: u64,
    new_bool: bool,
    new_text: Seq<char>,
    new_option: Option<u64>,
)
    requires
        accounts.len() >= 1,
        accounts[0].owned_by_program,
        BorshDemoAccountView::unwrap_checked(accounts[0].data) is Ok,
        encode_utf8(BorshDemoAccountView::unwrap_checked(accounts[0].data)->Ok_0.text).len()
            == encode_utf8(new_text).len(),
        (BorshDemoAccountView::unwrap_checked(accounts[0].data)->Ok_0.maybe_amount is Some) == (
        new_option is Some),
    ensures
        update_step(accounts, new_u64, new_bool, new_text, new_option).0 is Ok,
        ({
            let after = update_step(accounts, new_u64, new_bool, new_text, new_option).1;
            let stored = BorshDemoAccountView::unwrap_checked(accounts[0].data)->Ok_0;
            &&& after.len() == accounts.len()
            &&& after[0].data.len() == accounts[0].data.len()
            &&& BorshDemoAccountView::unwrap_checked(after[0].data) == Ok::<
                BorshDemoStateView,
                ProcessError,
            >(stored.updated(new_u64, new_bool, new_text, new_option))
        }),
{
    let stored = BorshDemoAccountView::unwrap_checked(accounts[0].data)->Ok_0;
    let replaced = stored.updated(new_u64, new_bool, new_text, new_option);
    lemma_account_decoded_is_encoded(accounts[0].data);
    lemma_account_len(stored);
    lemma_account_len(replaced);
    lemma_wrapped_is_unwrapped(replaced);
}

/// A validation changes nothing, whether it succeeds or not.
pub proof fn lemma_validate_reads_only(accounts: Seq<SlotView>, expected_u8: u8)
    ensures
        request_step(accounts, BorshDemoInstructionView::Validate { expected_u8 }).1 == accounts,
{
}

/// Creating an account in an owned slot of the account's length, with both
/// authorizations, overwrites the slot, whatever it held: it then starts with the
/// discriminator and stores the new record.
pub proof fn lemma_initialize_overwrites(accounts: Seq<SlotView>, data: BorshDemoStateView)
    requires
        accounts.len() >= 3,
        accounts[0].is_signer,
        accounts[1].is_signer,
        accounts[1].owned_by_program,
        data.wf(),
        accounts[1].data.len() == BorshDemoAccountView::wrap(data).bytes().len(),
    ensures
        initialize_step(accounts, data).0 == Ok::<Outcome, ProcessError>(Outcome::Done),
        initialize_step(accounts, data).1[1].data == BorshDemoAccountView::wrap(data).bytes(),
        has_discriminator(initialize_step(accounts, data).1[1].data),
        BorshDemoAccountView::unwrap_checked(initialize_step(accounts, data).1[1].data) == Ok::<
            BorshDemoStateView,
            ProcessError,
        >(data),
{
    lemma_wrapped_is_unwrapped(data);
}

/// Where creating an account calls for the allocation of the slot, the slot once
/// allocated, owned and of the length asked for, has the same request complete: it
/// then stores the record, whatever the allocator left in it.
pub proof fn lemma_allocation_completes(
    accounts: Seq<SlotView>,
    data: BorshDemoStateView,
    allocated: Seq<u8>,
)
    requires
        initialize_step(accounts, data).0 is Ok,
        initialize_step(accounts, data).0->Ok_0 is Allocate,
        BorshDemoAccountView::wrap(data).bytes().len() <= usize::MAX,
        allocated.len() == initialize_step(accounts, data).0->Ok_0->space,
    ensures
        ({
            let slot = SlotView {
                is_signer: accounts[1].is_signer,
                owned_by_program: true,
                data: allocated,
            };
            let after = initialize_step(accounts.update(1, slot), data);
            &&& after.0 == Ok::<Outcome, ProcessError>(Outcome::Done)
            &&& BorshDemoAccountView::unwrap_checked(after.1[1].data) == Ok::<
                BorshDemoStateView,
                ProcessError,
            >(data)
        }),
{
    let slot = SlotView {
        is_signer: accounts[1].is_signer,
        owned_by_program: true,
        data: allocated,
    };
    lemma_initialize_overwrites(accounts.update(1, slot), data);
}

/// A request that is refused, or that calls for an allocation, leaves every slot as
/// it was.
pub proof fn lemma_refusal_writes_nothing(accounts: Seq<SlotView>, input: Seq<u8>)
    requires
        process_step(accounts, input).0 != Ok::<Outcome, ProcessError>(Outcome::Done),
    ensures
        process_step(accounts, input).1 == accounts,
{
}

/// No request changes the number of slots, the length of a slot, who owns it or
/// who authorized the request; only the content of one slot may differ.
pub proof fn lemma_lengths_are_kept(accounts: Seq<SlotView>, input: Seq<u8>)
    ensures
        process_step(accounts, input).1.len() == accounts.len(),
        forall|i: int|
            0 <= i < accounts.len() ==> {
                let after = #[trigger] process_step(accounts, input).1[i];
                &&& after.data.len() == accounts[i].data.len()
                &&& after.is_signer == accounts[i].is_signer
                &&& after.owned_by_program == accounts[i].owned_by_program
            },
{
    let request = BorshDemoInstructionView::decode(input);
    if request is Ok {
        match request->Ok_0 {
            BorshDemoInstructionView::Update { new_u64, new_bool, new_text, new_option } => {
                if update_step(accounts, new_u64, new_bool, new_text, new_option).0 is Ok {
                    lemma_update_is_stored(accounts, new_u64, new_bool, new_text, new_option);
                }
            },
            _ => {},
        }
    }
}

/// After a request that completed, the slot it was about stores a record: it
/// starts with the discriminator and decodes as a whole.
pub proof fn lemma_done_leaves_a_record(accounts: Seq<SlotView>, input: Seq<u8>)
    requires
        process_step(accounts, input).0 == Ok::<Outcome, ProcessError>(Outcome::Done),
    ensures
        ({
            let request = BorshDemoInstructionView::decode(input)->Ok_0;
            let after = process_step(accounts, input).1;
            let slot = if request is Initialize {
                after[1]
            } else {
                after[0]
            };
            BorshDemoAccountView::unwrap_checked(slot.data) is Ok
        }),
{
    let request = BorshDemoInstructionView::decode(input)->Ok_0;
    match request {
        BorshDemoInstructionView::Initialize { data } => {
            lemma_initialize_overwrites(accounts, data);
        },
        BorshDemoInstructionView::Update { new_u64, new_bool, new_text, new_option } => {
            lemma_update_is_stored(accounts, new_u64, new_bool, new_text, new_option);
        },
        BorshDemoInstructionView::Validate { expected_u8 } => {},
    }
}

} // verus!
