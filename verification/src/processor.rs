//! The three requests on a slot: create, update, validate.
//!
//! A slot is written only after every check of the request has passed, and then in
//! full and without a change of its length.

use vstd::prelude::*;
use vstd::utf8::encode_utf8;
use crate::codec_laws::lemma_account_decoded_is_encoded;
use crate::error::{BorshDemoError, EncodeError, ProcessError};
use crate::instruction::{BorshDemoInstruction, BorshDemoInstructionView};
use crate::layout::lemma_account_len;
use crate::state::{
    discriminator, BorshDemoAccount, BorshDemoAccountView, BorshDemoState, BorshDemoStateView,
    ACCOUNT_DISCRIMINATOR, DISCRIMINATOR_LEN,
};

verus! {

/// What the host tells about one of the slots a request names, and the slot's bytes.
#[derive(Debug, Clone, PartialEq, Eq)]
pub struct Slot {
    /// Whether the slot's identity authorized the request.
    pub is_signer: bool,
    /// Whether the slot belongs to this schema.
    pub owned_by_program: bool,
    /// The slot's content; its length is the length the slot was allocated with.
    pub data: Vec<u8>,
}

/// The model of a `Slot`.
pub struct SlotView {
    pub is_signer: bool,
    pub owned_by_program: bool,
    pub data: Seq<u8>,
}

impl View for Slot {
    type V = SlotView;

    open spec fn view(&self) -> SlotView {
        SlotView {
            is_signer: self.is_signer,
            owned_by_program: self.owned_by_program,
            data: self.data@,
        }
    }
}

impl SlotView {
    /// The slot with other content.
    pub open spec fn holding(self, data: Seq<u8>) -> SlotView {
        SlotView { is_signer: self.is_signer, owned_by_program: self.owned_by_program, data }
    }
}

/// The models of the slots of a request.
pub open spec fn slots(accounts: Seq<Slot>) -> Seq<SlotView> {
    Seq::new(accounts.len(), |i: int| accounts[i]@)
}

/// How a request that was not refused ended.
#[derive(Debug, Copy, Clone, PartialEq, Eq, Structural)]
pub enum Outcome {
    /// The request is complete.
    Done,
    /// Nothing was written: the slot does not belong to this schema yet. The host is
    /// to allocate it with `space` bytes for this schema; the same request then
    /// completes on the allocated slot.
    Allocate { space: usize },
}

/// Whether the bytes start with the discriminator.
pub open spec fn has_discriminator(data: Seq<u8>) -> bool {
    data.len() >= 8 && data.subrange(0, 8) == discriminator()
}

impl BorshDemoStateView {
    /// The record after an update: four fields replaced, the others kept.
    pub open spec fn updated(
        self,
        new_u64: u64,
        new_bool: bool,
        new_text: Seq<char>,
        new_option: Option<u64>,
    ) -> BorshDemoStateView {
        BorshDemoStateView {
            primitive_u64: new_u64,
            primitive_bool: new_bool,
            text: new_text,
            maybe_amount: new_option,
            ..self
        }
    }
}

impl BorshDemoAccountView {
    /// The record that the bytes of a slot store: none unless they start with the
    /// discriminator, whatever follows it, and then what they decode to as a whole.
    pub open spec fn unwrap_checked(data: Seq<u8>) -> Result<BorshDemoStateView, ProcessError> {
        if !has_discriminator(data) {
            Err(ProcessError::Custom(BorshDemoError::InvalidDiscriminator))
        } else {
            match BorshDemoAccountView::decode(data) {
                Err(e) => Err(ProcessError::Decode(e)),
                Ok(account) => Ok(account.data),
            }
        }
    }
}

impl BorshDemoAccount {
    /// Whether the bytes start with the discriminator.
    pub fn starts_with_discriminator(data: &[u8]) -> (b: bool)
        ensures
            b == has_discriminator(data@),
    {
        if data.len() < DISCRIMINATOR_LEN {
            return false;
        }
        let mut i: usize = 0;
        while i < DISCRIMINATOR_LEN
            invariant
                i <= 8,
                data@.len() >= 8,
                forall|j: int| 0 <= j < i ==> data@[j] == discriminator()[j],
            decreases 8 - i,
        {
            if data[i] != ACCOUNT_DISCRIMINATOR[i] {
                assert(data@.subrange(0, 8)[i as int] != discriminator()[i as int]);
                return false;
            }
            i += 1;
        }
        assert(data@.subrange(0, 8) =~= discriminator());
        true
    }

    /// Decodes the record that a slot stores. The discriminator is checked before
    /// anything behind it is read.
    pub fn unwrap_checked(data: &[u8]) -> (r: Result<BorshDemoState, ProcessError>)
        ensures
            match BorshDemoAccountView::unwrap_checked(data@) {
                Ok(state) => r is Ok && r->Ok_0@ == state,
                Err(e) => r == Err::<BorshDemoState, ProcessError>(e),
            },
    {
        if !BorshDemoAccount::starts_with_discriminator(data) {
            return Err(ProcessError::Custom(BorshDemoError::InvalidDiscriminator));
        }
        match BorshDemoAccount::try_from_slice(data) {
            Ok(account) => Ok(account.data),
            Err(e) => Err(ProcessError::Decode(e)),
        }
    }
}

/// What creating the account for `data` does to the slots `payer`, `state` and a
/// third that stands for the host's allocator: refused unless there are three slots
/// and the first two authorized it; if `state` is not owned yet, a call for its
/// allocation; else the account written over `state`, if it has the account's length.
pub open spec fn initialize_step(accounts: Seq<SlotView>, data: BorshDemoStateView) -> (
    Result<Outcome, ProcessError>,
    Seq<SlotView>,
) {
    let image = BorshDemoAccountView::wrap(data).bytes();
    if accounts.len() < 3 {
        (Err(ProcessError::NotEnoughAccountKeys), accounts)
    } else if !accounts[0].is_signer || !accounts[1].is_signer {
        (Err(ProcessError::MissingRequiredSignature), accounts)
    } else if !data.wf() {
        (Err(ProcessError::Encode(EncodeError::LengthOverflow)), accounts)
    } else if !accounts[1].owned_by_program {
        (Ok(Outcome::Allocate { space: image.len() as usize }), accounts)
    } else if accounts[1].data.len() != image.len() {
        (Err(ProcessError::Custom(BorshDemoError::SizeMismatch)), accounts)
    } else {
        (Ok(Outcome::Done), accounts.update(1, accounts[1].holding(image)))
    }
}

/// What an update does to the first slot: refused unless the slot is owned and
/// stores a record whose text has as many bytes as the new one and whose amount is
/// present exactly if the new one is; else the updated record written over it.
pub open spec fn update_step(
    accounts: Seq<SlotView>,
    new_u64: u64,
    new_bool: bool,
    new_text: Seq<char>,
    new_option: Option<u64>,
) -> (Result<(), ProcessError>, Seq<SlotView>) {
    if accounts.len() < 1 {
        (Err(ProcessError::NotEnoughAccountKeys), accounts)
    } else if !accounts[0].owned_by_program {
        (Err(ProcessError::IncorrectProgramId), accounts)
    } else {
        match BorshDemoAccountView::unwrap_checked(accounts[0].data) {
            Err(e) => (Err(e), accounts),
            Ok(state) => if encode_utf8(state.text).len() != encode_utf8(new_text).len() {
                (Err(ProcessError::Custom(BorshDemoError::StringLengthChange)), accounts)
            } else if (state.maybe_amount is Some) != (new_option is Some) {
                (Err(ProcessError::Custom(BorshDemoError::OptionVariantChange)), accounts)
            } else {
                (
                    Ok(()),
                    accounts.update(
                        0,
                        accounts[0].holding(
                            BorshDemoAccountView::wrap(
                                state.updated(new_u64, new_bool, new_text, new_option),
                            ).bytes(),
                        ),
                    ),
                )
            },
        }
    }
}

/// What validating the first slot gives: refused unless the slot is owned and stores
/// a record whose `primitive_u8` is the expected value.
pub open spec fn validate_step(accounts: Seq<SlotView>, expected_u8: u8) -> Result<
    (),
    ProcessError,
> {
    if accounts.len() < 1 {
        Err(ProcessError::NotEnoughAccountKeys)
    } else if !accounts[0].owned_by_program {
        Err(ProcessError::IncorrectProgramId)
    } else {
        match BorshDemoAccountView::unwrap_checked(accounts[0].data) {
            Err(e) => Err(e),
            Ok(state) => if state.primitive_u8 != expected_u8 {
                Err(ProcessError::InvalidAccountData)
            } else {
                Ok(())
            },
        }
    }
}

/// What a request does to the slots.
pub open spec fn request_step(accounts: Seq<SlotView>, request: BorshDemoInstructionView) -> (
    Result<Outcome, ProcessError>,
    Seq<SlotView>,
) {
    match request {
        BorshDemoInstructionView::Initialize { data } => initialize_step(accounts, data),
        BorshDemoInstructionView::Update { new_u64, new_bool, new_text, new_option } => {
            let (result, after) = update_step(accounts, new_u64, new_bool, new_text, new_option);
            match result {
                Ok(_) => (Ok(Outcome::Done), after),
                Err(e) => (Err(e), after),
            }
        },
        BorshDemoInstructionView::Validate { expected_u8 } => match validate_step(
            accounts,
            expected_u8,
        ) {
            Ok(_) => (Ok(Outcome::Done), accounts),
            Err(e) => (Err(e), accounts),
        },
    }
}

/// What an encoded request does to the slots: nothing if it cannot be decoded.
pub open spec fn process_step(accounts: Seq<SlotView>, input: Seq<u8>) -> (
    Result<Outcome, ProcessError>,
    Seq<SlotView>,
) {
    match BorshDemoInstructionView::decode(input) {
        Err(e) => (Err(ProcessError::Decode(e)), accounts),
        Ok(request) => request_step(accounts, request),
    }
}

/// The handler of the requests.
pub struct Processor;

impl Processor {
    /// Decodes a request and carries it out on the slots it names.
    pub fn process(accounts: &mut Vec<Slot>, input: &[u8]) -> (r: Result<Outcome, ProcessError>)
        ensures
            r == process_step(slots(old(accounts)@), input@).0,
            slots(final(accounts)@) == process_step(slots(old(accounts)@), input@).1,
    {
        let instruction = match BorshDemoInstruction::try_from_slice(input) {
            Ok(instruction) => instruction,
            Err(e) => {
                return Err(ProcessError::Decode(e));
            },
        };
        match instruction {
            BorshDemoInstruction::Initialize { data } => Self::process_initialize(accounts, data),
            BorshDemoInstruction::Update { new_u64, new_bool, new_text, new_option } => {
                match Self::process_update(accounts, new_u64, new_bool, new_text, new_option) {
                    Ok(()) => Ok(Outcome::Done),
                    Err(e) => Err(e),
                }
            },
            BorshDemoInstruction::Validate { expected_u8 } => {
                match Self::process_validate(accounts, expected_u8) {
                    Ok(()) => Ok(Outcome::Done),
                    Err(e) => Err(e),
                }
            },
        }
    }

    /// Creates the account for `data` in the second slot, or overwrites the one
    /// that is there.
    pub fn process_initialize(accounts: &mut Vec<Slot>, data: BorshDemoState) -> (r: Result<
        Outcome,
        ProcessError,
    >)
        ensures
            r == initialize_step(slots(old(accounts)@), data@).0,
            slots(final(accounts)@) == initialize_step(slots(old(accounts)@), data@).1,
    {
        if accounts.len() < 3 {
            return Err(ProcessError::NotEnoughAccountKeys);
        }
        if !accounts[0].is_signer || !accounts[1].is_signer {
            return Err(ProcessError::MissingRequiredSignature);
        }
        let demo_account = BorshDemoAccount::new(data);
        let serialized = match demo_account.try_to_vec() {
            Ok(serialized) => serialized,
            Err(e) => {
                return Err(ProcessError::Encode(e));
            },
        };
        let account_len = serialized.len();
        if !accounts[1].owned_by_program {
            return Ok(Outcome::Allocate { space: account_len });
        }
        if accounts[1].data.len() != account_len {
            return Err(ProcessError::Custom(BorshDemoError::SizeMismatch));
        }
        accounts[1].data = serialized;
        assert(slots(accounts@) =~= initialize_step(slots(old(accounts)@), data@).1);
        Ok(Outcome::Done)
    }

    /// Replaces four fields of the record in the first slot, in the same number of
    /// bytes.
    pub fn process_update(
        accounts: &mut Vec<Slot>,
        new_u64: u64,
        new_bool: bool,
        new_text: String,
        new_option: Option<u64>,
    ) -> (r: Result<(), ProcessError>)
        ensures
            r == update_step(slots(old(accounts)@), new_u64, new_bool, new_text@, new_option).0,
            slots(final(accounts)@) == update_step(
                slots(old(accounts)@),
                new_u64,
                new_bool,
                new_text@,
                new_option,
            ).1,
    {
        if accounts.len() < 1 {
            return Err(ProcessError::NotEnoughAccountKeys);
        }
        if !accounts[0].owned_by_program {
            return Err(ProcessError::IncorrectProgramId);
        }
        let mut state = BorshDemoAccount::unwrap_checked(accounts[0].data.as_slice())?;
        if state.text.as_str().as_bytes().len() != new_text.as_str().as_bytes().len() {
            return Err(ProcessError::Custom(BorshDemoError::StringLengthChange));
        }
        if state.maybe_amount.is_some() != new_option.is_some() {
            return Err(ProcessError::Custom(BorshDemoError::OptionVariantChange));
        }
        let ghost stored = state@;
        state.primitive_u64 = new_u64;
        state.primitive_bool = new_bool;
        state.text = new_text;
        state.maybe_amount = new_option;
        proof {
            assert(state@ == stored.updated(new_u64, new_bool, new_text@, new_option));
            lemma_account_decoded_is_encoded(accounts[0].data@);
            lemma_account_len(stored);
            lemma_account_len(state@);
        }
        let demo_account = BorshDemoAccount::new(state);
        // The two refusals below are never given: a text of the same length and an
        // amount that stays present or absent leave the encoding as long as it was.
        let serialized = match demo_account.try_to_vec() {
            Ok(serialized) => serialized,
            Err(e) => {
                return Err(ProcessError::Encode(e));
            },
        };
        if accounts[0].data.len() != serialized.len() {
            return Err(ProcessError::Custom(BorshDemoError::SizeMismatch));
        }
        accounts[0].data = serialized;
        assert(slots(accounts@) =~= update_step(
            slots(old(accounts)@),
            new_u64,
            new_bool,
            new_text@,
            new_option,
        ).1);
        Ok(())
    }

    /// Compares one field of the record in the first slot with the value expected.
    pub fn process_validate(accounts: &Vec<Slot>, expected_u8: u8) -> (r: Result<(), ProcessError>)
        ensures
            r == validate_step(slots(accounts@), expected_u8),
    {
        if accounts.len() < 1 {
            return Err(ProcessError::NotEnoughAccountKeys);
        }
        if !accounts[0].owned_by_program {
            return Err(ProcessError::IncorrectProgramId);
        }
        let state = BorshDemoAccount::unwrap_checked(accounts[0].data.as_slice())?;
        if state.primitive_u8 != expected_u8 {
            return Err(ProcessError::InvalidAccountData);
        }
        Ok(())
    }
}

} // verus!
