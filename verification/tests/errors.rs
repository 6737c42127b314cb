use borsh_demo::{BorshDemoError, DecodeError, EncodeError, ProcessError};

#[test]
fn codes_are_the_positions_of_the_variants() {
    assert_eq!(BorshDemoError::InvalidDiscriminator.code(), 0);
    assert_eq!(BorshDemoError::SizeMismatch.code(), 1);
    assert_eq!(BorshDemoError::StringLengthChange.code(), 2);
    assert_eq!(BorshDemoError::OptionVariantChange.code(), 3);
}

#[test]
fn messages_describe_the_errors() {
    assert_eq!(BorshDemoError::InvalidDiscriminator.message(), "Invalid account discriminator");
    assert_eq!(BorshDemoError::SizeMismatch.message(), "Account data size mismatch");
    assert_eq!(
        BorshDemoError::StringLengthChange.message(),
        "String length cannot change after initialization"
    );
    assert_eq!(
        BorshDemoError::OptionVariantChange.message(),
        "Option variant cannot change after initialization"
    );
}

#[test]
fn errors_are_told_apart() {
    assert_ne!(
        ProcessError::Custom(BorshDemoError::SizeMismatch),
        ProcessError::Custom(BorshDemoError::StringLengthChange)
    );
    assert_ne!(
        ProcessError::Decode(DecodeError::Truncated),
        ProcessError::Decode(DecodeError::InvalidTag)
    );
    assert_ne!(
        ProcessError::Encode(EncodeError::LengthOverflow),
        ProcessError::InvalidAccountData
    );
}
