//! The three requests, and their encoding: the position of the variant in one byte,
//! then the variant's fields.

use vstd::prelude::*;
use vstd::utf8::encode_utf8;
use crate::codec::{lemma_appended, rest, value, whole};
use crate::error::{DecodeError, EncodeError};
use crate::state::{BorshDemoState, BorshDemoStateView};
use crate::wire::{
    bool_bytes, fits_prefix, option_u64_bytes, parse_bool, parse_option_u64, parse_text,
    parse_u64, parse_u8, read_bool, read_option_u64, read_text, read_u64, read_u8, text_bytes,
    text_fits, u64_bytes, u8_bytes, write_bool, write_option_u64, write_text, write_u64,
    write_u8,
};

verus! {

/// A request on an account.
#[derive(Debug, Clone, PartialEq)]
pub enum BorshDemoInstruction {
    /// Creates (or initializes) the account and stores the full state.
    Initialize { data: BorshDemoState },
    /// Updates fields while keeping the serialized length unchanged.
    Update { new_u64: u64, new_bool: bool, new_text: String, new_option: Option<u64> },
    /// Reads the account data and validates a field.
    Validate { expected_u8: u8 },
}

/// The model of a `BorshDemoInstruction`.
pub enum BorshDemoInstructionView {
    Initialize { data: BorshDemoStateView },
    Update { new_u64: u64, new_bool: bool, new_text: Seq<char>, new_option: Option<u64> },
    Validate { expected_u8: u8 },
}

impl View for BorshDemoInstruction {
    type V = BorshDemoInstructionView;

    open spec fn view(&self) -> BorshDemoInstructionView {
        match self {
            BorshDemoInstruction::Initialize { data } => BorshDemoInstructionView::Initialize {
                data: data@,
            },
            BorshDemoInstruction::Update {
                new_u64,
                new_bool,
                new_text,
                new_option,
            } => BorshDemoInstructionView::Update {
                new_u64: *new_u64,
                new_bool: *new_bool,
                new_text: new_text@,
                new_option: *new_option,
            },
            BorshDemoInstruction::Validate {
                expected_u8,
            } => BorshDemoInstructionView::Validate { expected_u8: *expected_u8 },
        }
    }
}

impl BorshDemoInstructionView {
    /// Whether the request can be encoded.
    pub open spec fn wf(self) -> bool {
        match self {
            BorshDemoInstructionView::Initialize { data } => data.wf(),
            BorshDemoInstructionView::Update { new_u64, new_bool, new_text, new_option } => {
                fits_prefix(encode_utf8(new_text).len())
            },
            BorshDemoInstructionView::Validate { expected_u8 } => true,
        }
    }

    /// The encoding: the variant's position, then its fields in their order.
    pub open spec fn bytes(self) -> Seq<u8> {
        match self {
            BorshDemoInstructionView::Initialize { data } => u8_bytes(0) + data.bytes(),
            BorshDemoInstructionView::Update { new_u64, new_bool, new_text, new_option } => {
                u8_bytes(1) + u64_bytes(new_u64) + bool_bytes(new_bool) + text_bytes(new_text)
                    + option_u64_bytes(new_option)
            },
            BorshDemoInstructionView::Validate { expected_u8 } => u8_bytes(2) + u8_bytes(
                expected_u8,
            ),
        }
    }

    /// What reading the fields of an update at `at` gives.
    pub open spec fn parse_update(s: Seq<u8>, at: int) -> Result<
        (BorshDemoInstructionView, int),
        DecodeError,
    > {
        let new_u64 = parse_u64(s, at);
        let new_bool = parse_bool(s, rest(new_u64));
        let new_text = parse_text(s, rest(new_bool));
        let new_option = parse_option_u64(s, rest(new_text));
        if new_u64 is Err {
            Err(new_u64->Err_0)
        } else if new_bool is Err {
            Err(new_bool->Err_0)
        } else if new_text is Err {
            Err(new_text->Err_0)
        } else if new_option is Err {
            Err(new_option->Err_0)
        } else {
            Ok(
                (
                    BorshDemoInstructionView::Update {
                        new_u64: value(new_u64),
                        new_bool: value(new_bool),
                        new_text: value(new_text),
                        new_option: value(new_option),
                    },
                    rest(new_option),
                ),
            )
        }
    }

    /// What reading a request at `at` gives.
    pub open spec fn parse(s: Seq<u8>, at: int) -> Result<
        (BorshDemoInstructionView, int),
        DecodeError,
    > {
        let tag = parse_u8(s, at);
        if tag is Err {
            Err(tag->Err_0)
        } else if value(tag) == 0 {
            let data = BorshDemoStateView::parse(s, rest(tag));
            if data is Err {
                Err(data->Err_0)
            } else {
                Ok((BorshDemoInstructionView::Initialize { data: value(data) }, rest(data)))
            }
        } else if value(tag) == 1 {
            Self::parse_update(s, rest(tag))
        } else if value(tag) == 2 {
            let expected_u8 = parse_u8(s, rest(tag));
            if expected_u8 is Err {
                Err(expected_u8->Err_0)
            } else {
                Ok(
                    (
                        BorshDemoInstructionView::Validate { expected_u8: value(expected_u8) },
                        rest(expected_u8),
                    ),
                )
            }
        } else {
            Err(DecodeError::InvalidTag)
        }
    }

    /// What decoding `s` as a request gives.
    pub open spec fn decode(s: Seq<u8>) -> Result<BorshDemoInstructionView, DecodeError> {
        whole(Self::parse(s, 0), s.len())
    }
}

impl BorshDemoInstruction {
    /// Whether the request can be encoded.
    pub fn is_encodable(&self) -> (b: bool)
        ensures
            b == self@.wf(),
    {
        match self {
            BorshDemoInstruction::Initialize { data } => data.is_encodable(),
            BorshDemoInstruction::Update { new_u64, new_bool, new_text, new_option } => text_fits(
                new_text.as_str(),
            ),
            BorshDemoInstruction::Validate { expected_u8 } => true,
        }
    }

    /// Appends the encoding.
    pub fn write(&self, out: &mut Vec<u8>)
        requires
            self@.wf(),
        ensures
            final(out)@ == old(out)@ + self@.bytes(),
    {
        let ghost start = out@;
        match self {
            BorshDemoInstruction::Initialize { data } => {
                write_u8(out, 0);
                let ghost mut done = u8_bytes(0);
                data.write(out);
                proof {
                    done = lemma_appended(start, done, data@.bytes());
                }
            },
            BorshDemoInstruction::Update { new_u64, new_bool, new_text, new_option } => {
                write_u8(out, 1);
                let ghost mut done = u8_bytes(1);
                write_u64(out, *new_u64);
                proof {
                    done = lemma_appended(start, done, u64_bytes(*new_u64));
                }
                write_bool(out, *new_bool);
                proof {
                    done = lemma_appended(start, done, bool_bytes(*new_bool));
                }
                write_text(out, new_text.as_str());
                proof {
                    done = lemma_appended(start, done, text_bytes(new_text@));
                }
                write_option_u64(out, new_option);
                proof {
                    done = lemma_appended(start, done, option_u64_bytes(*new_option));
                }
            },
            BorshDemoInstruction::Validate { expected_u8 } => {
                write_u8(out, 2);
                let ghost mut done = u8_bytes(2);
                write_u8(out, *expected_u8);
                proof {
                    done = lemma_appended(start, done, u8_bytes(*expected_u8));
                }
            },
        }
    }

    /// Reads a request at `at`.
    pub fn read(input: &[u8], at: usize) -> (r: Result<(BorshDemoInstruction, usize), DecodeError>)
        ensures
            match BorshDemoInstructionView::parse(input@, at as int) {
                Ok((v, next)) => r is Ok && r->Ok_0.0@ == v && r->Ok_0.1 == next
                    && next <= input@.len(),
                Err(e) => r == Err::<(BorshDemoInstruction, usize), DecodeError>(e),
            },
    {
        let (tag, at) = read_u8(input, at)?;
        if tag == 0 {
            let (data, at) = BorshDemoState::read(input, at)?;
            Ok((BorshDemoInstruction::Initialize { data }, at))
        } else if tag == 1 {
            let (new_u64, at) = read_u64(input, at)?;
            let (new_bool, at) = read_bool(input, at)?;
            let (new_text, at) = read_text(input, at)?;
            let (new_option, at) = read_option_u64(input, at)?;
            Ok((BorshDemoInstruction::Update { new_u64, new_bool, new_text, new_option }, at))
        } else if tag == 2 {
            let (expected_u8, at) = read_u8(input, at)?;
            Ok((BorshDemoInstruction::Validate { expected_u8 }, at))
        } else {
            Err(DecodeError::InvalidTag)
        }
    }

    /// Encodes the request, unless a text, buffer or sequence in it is too long for
    /// its length prefix.
    pub fn try_to_vec(&self) -> (r: Result<Vec<u8>, EncodeError>)
        ensures
            self@.wf() ==> r is Ok && r->Ok_0@ == self@.bytes(),
            !self@.wf() ==> r == Err::<Vec<u8>, EncodeError>(EncodeError::LengthOverflow),
    {
        if !self.is_encodable() {
            return Err(EncodeError::LengthOverflow);
        }
        let mut out: Vec<u8> = Vec::new();
        self.write(&mut out);
        assert(out@ =~= self@.bytes());
        Ok(out)
    }

    /// Decodes a request from the whole of `v`.
    pub fn try_from_slice(v: &[u8]) -> (r: Result<BorshDemoInstruction, DecodeError>)
        ensures
            match BorshDemoInstructionView::decode(v@) {
                Ok(request) => r is Ok && r->Ok_0@ == request,
                Err(e) => r == Err::<BorshDemoInstruction, DecodeError>(e),
            },
    {
        let (request, next) = BorshDemoInstruction::read(v, 0)?;
        if next != v.len() {
            return Err(DecodeError::TrailingBytes);
        }
        Ok(request)
    }
}

} // verus!
