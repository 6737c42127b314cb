use borsh::{BorshDeserialize, BorshSerialize};
use borsh_demo::{
    BorshDemoAccount, BorshDemoInstruction, BorshDemoState, DataEnum, DecodeError, NestedStruct,
    SimpleEnum, ACCOUNT_DISCRIMINATOR, DISCRIMINATOR_LEN,
};

fn sample_state() -> BorshDemoState {
    BorshDemoState {
        primitive_u8: 7,
        primitive_u16: 0x1234,
        primitive_u32: 0xDEAD_BEEF,
        primitive_u64: 0x0102_0304_0506_0708,
        primitive_i64: -2,
        primitive_bool: true,
        fixed_pubkey_bytes: [9u8; 32],
        text: "abc".to_string(),
        data: vec![1, 2, 3, 4, 5],
        keys: vec![[1u8; 32], [2u8; 32]],
        simple_enum: SimpleEnum::Second,
        data_enum: DataEnum::Name { label: "hi".to_string() },
        maybe_amount: Some(5),
        nested: NestedStruct { count: 3, note: "n".to_string() },
    }
}

fn sample_bytes() -> Vec<u8> {
    let mut b: Vec<u8> = Vec::new();
    b.push(7);
    b.extend_from_slice(&[0x34, 0x12]);
    b.extend_from_slice(&[0xEF, 0xBE, 0xAD, 0xDE]);
    b.extend_from_slice(&[8, 7, 6, 5, 4, 3, 2, 1]);
    b.extend_from_slice(&[0xFE, 0xFF, 0xFF, 0xFF, 0xFF, 0xFF, 0xFF, 0xFF]);
    b.push(1);
    b.extend_from_slice(&[9u8; 32]);
    b.extend_from_slice(&[3, 0, 0, 0, b'a', b'b', b'c']);
    b.extend_from_slice(&[5, 0, 0, 0, 1, 2, 3, 4, 5]);
    b.extend_from_slice(&[2, 0, 0, 0]);
    b.extend_from_slice(&[1u8; 32]);
    b.extend_from_slice(&[2u8; 32]);
    b.push(1);
    b.extend_from_slice(&[1, 2, 0, 0, 0, b'h', b'i']);
    b.extend_from_slice(&[1, 5, 0, 0, 0, 0, 0, 0, 0]);
    b.extend_from_slice(&[3, 0, 0, 0, 1, 0, 0, 0, b'n']);
    b
}

type Mirror = (
    (u8, u16, u32, u64, i64, bool, [u8; 32]),
    (String, Vec<u8>, Vec<[u8; 32]>, u8, (u8, String), Option<u64>, (u32, String)),
);

fn sample_mirror() -> Mirror {
    (
        (7, 0x1234, 0xDEAD_BEEF, 0x0102_0304_0506_0708, -2, true, [9u8; 32]),
        (
            "abc".to_string(),
            vec![1, 2, 3, 4, 5],
            vec![[1u8; 32], [2u8; 32]],
            1,
            (1, "hi".to_string()),
            Some(5),
            (3, "n".to_string()),
        ),
    )
}

#[test]
fn discriminator_is_borshdem() {
    assert_eq!(&ACCOUNT_DISCRIMINATOR, b"BORSHDEM");
    assert_eq!(DISCRIMINATOR_LEN, 8);
    assert_eq!(ACCOUNT_DISCRIMINATOR.len(), DISCRIMINATOR_LEN);
}

#[test]
fn state_encodes_to_the_expected_bytes() {
    let bytes = sample_state().try_to_vec().unwrap();
    assert_eq!(bytes, sample_bytes());
    assert_eq!(bytes.len(), 166);
}

#[test]
fn state_round_trips() {
    let state = sample_state();
    let bytes = state.try_to_vec().unwrap();
    assert_eq!(BorshDemoState::try_from_slice(&bytes), Ok(state));
}

#[test]
fn state_decodes_from_the_expected_bytes() {
    assert_eq!(BorshDemoState::try_from_slice(&sample_bytes()), Ok(sample_state()));
}

#[test]
fn state_bytes_are_those_of_the_serializer_it_follows() {
    let theirs = sample_mirror().try_to_vec().unwrap();
    assert_eq!(sample_state().try_to_vec().unwrap(), theirs);
}

#[test]
fn state_bytes_are_read_by_the_deserializer_it_follows() {
    let ours = sample_state().try_to_vec().unwrap();
    let theirs = <Mirror as BorshDeserialize>::try_from_slice(&ours).unwrap();
    assert_eq!(theirs, sample_mirror());
}

#[test]
fn other_variants_round_trip() {
    let mut state = sample_state();
    state.simple_enum = SimpleEnum::Third;
    state.data_enum = DataEnum::Amount { value: u64::MAX };
    state.maybe_amount = None;
    state.primitive_bool = false;
    state.primitive_i64 = i64::MIN;
    state.text = "h\u{e9}llo \u{4e16}\u{754c} \u{1f600}".to_string();
    state.keys = Vec::new();
    state.data = Vec::new();
    let bytes = state.try_to_vec().unwrap();
    let theirs = (
        (
            state.primitive_u8,
            state.primitive_u16,
            state.primitive_u32,
            state.primitive_u64,
            state.primitive_i64,
            state.primitive_bool,
            state.fixed_pubkey_bytes,
        ),
        (
            state.text.clone(),
            state.data.clone(),
            state.keys.clone(),
            2u8,
            (0u8, u64::MAX),
            None::<u64>,
            (state.nested.count, state.nested.note.clone()),
        ),
    )
        .try_to_vec()
        .unwrap();
    assert_eq!(bytes, theirs);
    assert_eq!(BorshDemoState::try_from_slice(&bytes), Ok(state));
}

#[test]
fn first_variant_is_tag_zero() {
    let mut state = sample_state();
    state.simple_enum = SimpleEnum::First;
    let bytes = state.try_to_vec().unwrap();
    assert_eq!(bytes[56 + 7 + 9 + 68], 0);
    assert_eq!(BorshDemoState::try_from_slice(&bytes).unwrap().simple_enum, SimpleEnum::First);
}

#[test]
fn length_depends_on_the_variable_parts_only() {
    let a = sample_state();
    let mut b = sample_state();
    b.primitive_u8 = 0;
    b.primitive_u16 = 0;
    b.primitive_u32 = 0;
    b.primitive_u64 = 0;
    b.primitive_i64 = 0;
    b.primitive_bool = false;
    b.fixed_pubkey_bytes = [0u8; 32];
    b.text = "xyz".to_string();
    b.data = vec![0; 5];
    b.keys = vec![[7u8; 32], [8u8; 32]];
    b.simple_enum = SimpleEnum::First;
    b.data_enum = DataEnum::Name { label: "yo".to_string() };
    b.maybe_amount = Some(u64::MAX);
    b.nested = NestedStruct { count: 0, note: "m".to_string() };
    let la = BorshDemoAccount::new(a).try_to_vec().unwrap().len();
    let lb = BorshDemoAccount::new(b).try_to_vec().unwrap().len();
    assert_eq!(la, 8 + 166);
    assert_eq!(la, lb);
}

#[test]
fn length_follows_the_variable_parts() {
    let mut state = sample_state();
    state.text = "abcd".to_string();
    assert_eq!(state.try_to_vec().unwrap().len(), 167);
    state.maybe_amount = None;
    assert_eq!(state.try_to_vec().unwrap().len(), 159);
    state.data_enum = DataEnum::Amount { value: 1 };
    assert_eq!(state.try_to_vec().unwrap().len(), 161);
    state.keys.push([3u8; 32]);
    assert_eq!(state.try_to_vec().unwrap().len(), 193);
}

#[test]
fn account_is_discriminator_then_state() {
    let account = BorshDemoAccount::new(sample_state());
    assert_eq!(account.discriminator, ACCOUNT_DISCRIMINATOR);
    assert_eq!(account.data, sample_state());
    let bytes = account.try_to_vec().unwrap();
    assert_eq!(&bytes[..8], b"BORSHDEM");
    assert_eq!(&bytes[8..], &sample_bytes()[..]);
    assert_eq!(BorshDemoAccount::try_from_slice(&bytes), Ok(account));
}

#[test]
fn account_decodes_with_any_discriminator() {
    let mut bytes = BorshDemoAccount::new(sample_state()).try_to_vec().unwrap();
    bytes[0] = b'X';
    let account = BorshDemoAccount::try_from_slice(&bytes).unwrap();
    assert_eq!(&account.discriminator, b"XORSHDEM");
    assert_eq!(account.data, sample_state());
}

#[test]
fn unwrap_checked_gives_the_record() {
    let bytes = BorshDemoAccount::new(sample_state()).try_to_vec().unwrap();
    assert_eq!(BorshDemoAccount::unwrap_checked(&bytes), Ok(sample_state()));
    assert!(BorshDemoAccount::starts_with_discriminator(&bytes));
    assert!(!BorshDemoAccount::starts_with_discriminator(&bytes[1..]));
    assert!(!BorshDemoAccount::starts_with_discriminator(b"BORSHDE"));
}

#[test]
fn truncated_at_every_length() {
    let bytes = sample_bytes();
    for cut in 0..bytes.len() {
        assert_eq!(
            BorshDemoState::try_from_slice(&bytes[..cut]),
            Err(DecodeError::Truncated),
            "cut at {}",
            cut
        );
    }
}

#[test]
fn truncated_account() {
    assert_eq!(BorshDemoAccount::try_from_slice(b"BORSHDE"), Err(DecodeError::Truncated));
    assert_eq!(BorshDemoAccount::try_from_slice(b"BORSHDEM"), Err(DecodeError::Truncated));
}

#[test]
fn length_prefix_beyond_the_input_is_truncated() {
    let mut bytes = sample_bytes();
    bytes[56] = 0xFF;
    bytes[57] = 0xFF;
    bytes[58] = 0xFF;
    bytes[59] = 0xFF;
    assert_eq!(BorshDemoState::try_from_slice(&bytes), Err(DecodeError::Truncated));
    let mut bytes = sample_bytes();
    let keys_at = 56 + 7 + 9;
    bytes[keys_at + 3] = 0xFF;
    assert_eq!(BorshDemoState::try_from_slice(&bytes), Err(DecodeError::Truncated));
}

#[test]
fn trailing_bytes_are_refused() {
    let mut bytes = sample_bytes();
    bytes.push(0);
    assert_eq!(BorshDemoState::try_from_slice(&bytes), Err(DecodeError::TrailingBytes));
    let mut bytes = BorshDemoAccount::new(sample_state()).try_to_vec().unwrap();
    bytes.push(0);
    assert_eq!(BorshDemoAccount::try_from_slice(&bytes), Err(DecodeError::TrailingBytes));
}

#[test]
fn invalid_bool_is_refused() {
    let mut bytes = sample_bytes();
    bytes[23] = 2;
    assert_eq!(BorshDemoState::try_from_slice(&bytes), Err(DecodeError::InvalidBool));
    assert!(<Mirror as BorshDeserialize>::try_from_slice(&bytes).is_err());
}

#[test]
fn invalid_simple_enum_tag_is_refused() {
    let mut bytes = sample_bytes();
    let at = 56 + 7 + 9 + 68;
    assert_eq!(bytes[at], 1);
    bytes[at] = 3;
    assert_eq!(BorshDemoState::try_from_slice(&bytes), Err(DecodeError::InvalidTag));
}

#[test]
fn invalid_data_enum_tag_is_refused() {
    let mut bytes = sample_bytes();
    let at = 56 + 7 + 9 + 68 + 1;
    assert_eq!(bytes[at], 1);
    bytes[at] = 2;
    assert_eq!(BorshDemoState::try_from_slice(&bytes), Err(DecodeError::InvalidTag));
}

#[test]
fn invalid_option_tag_is_refused() {
    let mut bytes = sample_bytes();
    let at = 56 + 7 + 9 + 68 + 1 + 7;
    assert_eq!(bytes[at], 1);
    bytes[at] = 2;
    assert_eq!(BorshDemoState::try_from_slice(&bytes), Err(DecodeError::InvalidTag));
    assert!(<Mirror as BorshDeserialize>::try_from_slice(&bytes).is_err());
}

#[test]
fn invalid_utf8_is_refused() {
    let mut bytes = sample_bytes();
    assert_eq!(bytes[60], b'a');
    bytes[60] = 0xFF;
    assert_eq!(BorshDemoState::try_from_slice(&bytes), Err(DecodeError::InvalidUtf8));
    assert!(<Mirror as BorshDeserialize>::try_from_slice(&bytes).is_err());
}

#[test]
fn text_is_decoded_not_copied() {
    let mut state = sample_state();
    state.text = "\u{e9}".to_string();
    let bytes = state.try_to_vec().unwrap();
    assert_eq!(&bytes[56..62], &[2, 0, 0, 0, 0xC3, 0xA9]);
    let back = BorshDemoState::try_from_slice(&bytes).unwrap();
    assert_eq!(back.text, "\u{e9}");
    assert_eq!(back.text.chars().count(), 1);
}

#[test]
fn the_first_fault_decides_the_error() {
    let mut bytes = sample_bytes();
    bytes[23] = 2;
    bytes[60] = 0xFF;
    bytes.push(0);
    assert_eq!(BorshDemoState::try_from_slice(&bytes), Err(DecodeError::InvalidBool));
    bytes[23] = 0;
    assert_eq!(BorshDemoState::try_from_slice(&bytes), Err(DecodeError::InvalidUtf8));
    bytes[60] = b'z';
    assert_eq!(BorshDemoState::try_from_slice(&bytes), Err(DecodeError::TrailingBytes));
}

#[test]
fn instruction_initialize_round_trips() {
    let request = BorshDemoInstruction::Initialize { data: sample_state() };
    let bytes = request.try_to_vec().unwrap();
    assert_eq!(bytes[0], 0);
    assert_eq!(&bytes[1..], &sample_bytes()[..]);
    assert_eq!(BorshDemoInstruction::try_from_slice(&bytes), Ok(request));
}

#[test]
fn instruction_update_round_trips() {
    let request = BorshDemoInstruction::Update {
        new_u64: 9,
        new_bool: false,
        new_text: "xyz".to_string(),
        new_option: Some(1),
    };
    let bytes = request.try_to_vec().unwrap();
    let mut expected = vec![1u8];
    expected.extend_from_slice(
        &(9u64, false, "xyz".to_string(), Some(1u64)).try_to_vec().unwrap(),
    );
    assert_eq!(bytes, expected);
    assert_eq!(
        bytes,
        vec![1, 9, 0, 0, 0, 0, 0, 0, 0, 0, 3, 0, 0, 0, b'x', b'y', b'z', 1, 1, 0, 0, 0, 0, 0, 0, 0]
    );
    assert_eq!(BorshDemoInstruction::try_from_slice(&bytes), Ok(request));
}

#[test]
fn instruction_validate_round_trips() {
    let request = BorshDemoInstruction::Validate { expected_u8: 200 };
    let bytes = request.try_to_vec().unwrap();
    assert_eq!(bytes, vec![2, 200]);
    assert_eq!(BorshDemoInstruction::try_from_slice(&bytes), Ok(request));
}

#[test]
fn instruction_faults() {
    assert_eq!(BorshDemoInstruction::try_from_slice(&[]), Err(DecodeError::Truncated));
    assert_eq!(BorshDemoInstruction::try_from_slice(&[3]), Err(DecodeError::InvalidTag));
    assert_eq!(BorshDemoInstruction::try_from_slice(&[2]), Err(DecodeError::Truncated));
    assert_eq!(BorshDemoInstruction::try_from_slice(&[2, 1, 1]), Err(DecodeError::TrailingBytes));
    assert_eq!(
        BorshDemoInstruction::try_from_slice(&[1, 0, 0, 0, 0, 0, 0, 0, 0, 7]),
        Err(DecodeError::InvalidBool)
    );
}

#[test]
fn encodable_values_say_so() {
    assert!(sample_state().is_encodable());
    assert!(sample_state().nested.is_encodable());
    assert!(sample_state().data_enum.is_encodable());
    assert!(BorshDemoAccount::new(sample_state()).is_encodable());
    assert!(BorshDemoInstruction::Validate { expected_u8: 0 }.is_encodable());
}
