//! Everything a request can fail with.

use vstd::prelude::*;

verus! {

/// The refusals that are specific to the stored record.
#[derive(Debug, Copy, Clone, PartialEq, Eq, Structural)]
pub enum BorshDemoError {
    /// The slot does not start with the record's discriminator.
    InvalidDiscriminator,
    /// The encoded record and the slot differ in length.
    SizeMismatch,
    /// An update would change the byte length of the text.
    StringLengthChange,
    /// An update would switch the optional amount between present and absent.
    OptionVariantChange,
}

impl BorshDemoError {
    /// The number under which the host reports this error: the variant's position.
    pub open spec fn spec_code(self) -> u32 {
        match self {
            BorshDemoError::InvalidDiscriminator => 0,
            BorshDemoError::SizeMismatch => 1,
            BorshDemoError::StringLengthChange => 2,
            BorshDemoError::OptionVariantChange => 3,
        }
    }

    /// The number under which the host reports this error.
    #[verifier::when_used_as_spec(spec_code)]
    pub fn code(self) -> (c: u32)
        ensures
            c == self.spec_code(),
    {
        match self {
            BorshDemoError::InvalidDiscriminator => 0,
            BorshDemoError::SizeMismatch => 1,
            BorshDemoError::StringLengthChange => 2,
            BorshDemoError::OptionVariantChange => 3,
        }
    }

    /// The text that describes this error.
    pub open spec fn spec_message(self) -> Seq<char> {
        match self {
            BorshDemoError::InvalidDiscriminator => "Invalid account discriminator"@,
            BorshDemoError::SizeMismatch => "Account data size mismatch"@,
            BorshDemoError::StringLengthChange => {
                "String length cannot change after initialization"@
            },
            BorshDemoError::OptionVariantChange => {
                "Option variant cannot change after initialization"@
            },
        }
    }

    /// The text that describes this error.
    pub fn message(&self) -> (s: String)
        ensures
            s@ == self.spec_message(),
    {
        match self {
            BorshDemoError::InvalidDiscriminator => "Invalid account discriminator".to_owned(),
            BorshDemoError::SizeMismatch => "Account data size mismatch".to_owned(),
            BorshDemoError::StringLengthChange => {
                "String length cannot change after initialization".to_owned()
            },
            BorshDemoError::OptionVariantChange => {
                "Option variant cannot change after initialization".to_owned()
            },
        }
    }
}

/// Why a byte string is not the encoding of a value.
#[derive(Debug, Copy, Clone, PartialEq, Eq, Structural)]
pub enum DecodeError {
    /// The bytes end before the field that is being read does.
    Truncated,
    /// The tag of an enum or of an optional value names no variant.
    InvalidTag,
    /// A boolean is encoded as something other than 0 or 1.
    InvalidBool,
    /// The bytes of a text are not UTF-8.
    InvalidUtf8,
    /// Bytes are left over after the value.
    TrailingBytes,
}

/// Why a value has no encoding.
#[derive(Debug, Copy, Clone, PartialEq, Eq, Structural)]
pub enum EncodeError {
    /// A text, buffer or sequence is longer than its 32-bit length prefix can say.
    LengthOverflow,
}

/// Every way in which a request can fail.
#[derive(Debug, Copy, Clone, PartialEq, Eq, Structural)]
pub enum ProcessError {
    /// The request, or the stored record, could not be decoded.
    Decode(DecodeError),
    /// The record to store could not be encoded.
    Encode(EncodeError),
    /// The request names fewer slots than it needs.
    NotEnoughAccountKeys,
    /// A slot that has to authorize the request did not.
    MissingRequiredSignature,
    /// The slot does not belong to this schema.
    IncorrectProgramId,
    /// The stored record does not hold the expected value.
    InvalidAccountData,
    /// A refusal specific to the record.
    Custom(BorshDemoError),
}

} // verus!
