use borsh_demo::{
    BorshDemoAccount, BorshDemoError, BorshDemoInstruction, BorshDemoState, DataEnum, DecodeError,
    NestedStruct, Outcome, ProcessError, Processor, SimpleEnum, Slot,
};

fn record(text: &str, maybe_amount: Option<u64>) -> BorshDemoState {
    BorshDemoState {
        primitive_u8: 42,
        primitive_u16: 2,
        primitive_u32: 3,
        primitive_u64: 4,
        primitive_i64: -5,
        primitive_bool: false,
        fixed_pubkey_bytes: [6u8; 32],
        text: text.to_string(),
        data: vec![7, 8],
        keys: vec![[9u8; 32]],
        simple_enum: SimpleEnum::Third,
        data_enum: DataEnum::Amount { value: 10 },
        maybe_amount,
        nested: NestedStruct { count: 11, note: "note".to_string() },
    }
}

fn stored(state: &BorshDemoState) -> Vec<u8> {
    BorshDemoAccount::new(state.clone()).try_to_vec().unwrap()
}

fn owned_slot(data: Vec<u8>) -> Slot {
    Slot { is_signer: false, owned_by_program: true, data }
}

fn signer(owned_by_program: bool, data: Vec<u8>) -> Slot {
    Slot { is_signer: true, owned_by_program, data }
}

fn update_request(
    new_u64: u64,
    new_bool: bool,
    new_text: &str,
    new_option: Option<u64>,
) -> Vec<u8> {
    BorshDemoInstruction::Update { new_u64, new_bool, new_text: new_text.to_string(), new_option }
        .try_to_vec()
        .unwrap()
}

fn initialize_request(state: &BorshDemoState) -> Vec<u8> {
    BorshDemoInstruction::Initialize { data: state.clone() }.try_to_vec().unwrap()
}

fn validate_request(expected_u8: u8) -> Vec<u8> {
    BorshDemoInstruction::Validate { expected_u8 }.try_to_vec().unwrap()
}

#[test]
fn update_rejects_a_longer_text() {
    let before = stored(&record("abc", Some(1)));
    let mut accounts = vec![owned_slot(before.clone())];
    let r = Processor::process(&mut accounts, &update_request(9, true, "abcd", Some(2)));
    assert_eq!(r, Err(ProcessError::Custom(BorshDemoError::StringLengthChange)));
    assert_eq!(accounts, vec![owned_slot(before)]);
}

#[test]
fn update_rejects_a_shorter_text() {
    let before = stored(&record("abc", Some(1)));
    let mut accounts = vec![owned_slot(before.clone())];
    let r = Processor::process_update(&mut accounts, 9, true, "ab".to_string(), Some(2));
    assert_eq!(r, Err(ProcessError::Custom(BorshDemoError::StringLengthChange)));
    assert_eq!(accounts[0].data, before);
}

#[test]
fn update_counts_bytes_not_characters() {
    let before = stored(&record("abc", Some(1)));
    let mut accounts = vec![owned_slot(before.clone())];
    let r = Processor::process_update(&mut accounts, 9, true, "a\u{e9}c".to_string(), Some(2));
    assert_eq!(r, Err(ProcessError::Custom(BorshDemoError::StringLengthChange)));
    assert_eq!(accounts[0].data, before);
    let r = Processor::process_update(&mut accounts, 9, true, "\u{e9}c".to_string(), Some(2));
    assert_eq!(r, Ok(()));
    assert_eq!(accounts[0].data.len(), before.len());
    assert_eq!(BorshDemoAccount::unwrap_checked(&accounts[0].data).unwrap().text, "\u{e9}c");
}

#[test]
fn update_rejects_none_to_some() {
    let before = stored(&record("abc", None));
    let mut accounts = vec![owned_slot(before.clone())];
    let r = Processor::process(&mut accounts, &update_request(9, true, "xyz", Some(5)));
    assert_eq!(r, Err(ProcessError::Custom(BorshDemoError::OptionVariantChange)));
    assert_eq!(accounts, vec![owned_slot(before)]);
}

#[test]
fn update_rejects_some_to_none() {
    let before = stored(&record("abc", Some(5)));
    let mut accounts = vec![owned_slot(before.clone())];
    let r = Processor::process(&mut accounts, &update_request(9, true, "xyz", None));
    assert_eq!(r, Err(ProcessError::Custom(BorshDemoError::OptionVariantChange)));
    assert_eq!(accounts, vec![owned_slot(before)]);
}

#[test]
fn text_length_is_checked_before_the_option() {
    let before = stored(&record("abc", None));
    let mut accounts = vec![owned_slot(before.clone())];
    let r = Processor::process(&mut accounts, &update_request(9, true, "abcd", Some(5)));
    assert_eq!(r, Err(ProcessError::Custom(BorshDemoError::StringLengthChange)));
    assert_eq!(accounts[0].data, before);
}

#[test]
fn update_with_same_length_text_succeeds() {
    let before = record("abc", Some(1));
    let mut accounts = vec![owned_slot(stored(&before))];
    let r = Processor::process(&mut accounts, &update_request(99, true, "xyz", Some(7)));
    assert_eq!(r, Ok(Outcome::Done));
    let mut expected = before.clone();
    expected.primitive_u64 = 99;
    expected.primitive_bool = true;
    expected.text = "xyz".to_string();
    expected.maybe_amount = Some(7);
    assert_eq!(accounts[0].data, stored(&expected));
    assert_eq!(accounts[0].data.len(), stored(&before).len());
    assert_eq!(BorshDemoAccount::unwrap_checked(&accounts[0].data), Ok(expected));
    assert!(accounts[0].owned_by_program);
    assert!(!accounts[0].is_signer);
}

#[test]
fn update_with_absent_amount_succeeds() {
    let before = record("", None);
    let mut accounts = vec![owned_slot(stored(&before)), owned_slot(vec![1, 2, 3])];
    let r = Processor::process_update(&mut accounts, 1, true, String::new(), None);
    assert_eq!(r, Ok(()));
    let after = BorshDemoAccount::unwrap_checked(&accounts[0].data).unwrap();
    assert_eq!(after.primitive_u64, 1);
    assert!(after.primitive_bool);
    assert_eq!(after.text, "");
    assert_eq!(after.maybe_amount, None);
    assert_eq!(after.primitive_u8, 42);
    assert_eq!(after.nested, before.nested);
    assert_eq!(accounts[1], owned_slot(vec![1, 2, 3]));
}

#[test]
fn discriminator_gate_on_update_and_validate() {
    let mut bytes = stored(&record("abc", Some(1)));
    bytes[7] = b'N';
    let mut accounts = vec![owned_slot(bytes.clone())];
    let r = Processor::process(&mut accounts, &update_request(9, true, "xyz", Some(5)));
    assert_eq!(r, Err(ProcessError::Custom(BorshDemoError::InvalidDiscriminator)));
    assert_eq!(accounts[0].data, bytes);
    let r = Processor::process(&mut accounts, &validate_request(42));
    assert_eq!(r, Err(ProcessError::Custom(BorshDemoError::InvalidDiscriminator)));
    assert_eq!(accounts[0].data, bytes);
}

#[test]
fn discriminator_gate_on_arbitrary_bytes() {
    for bytes in [Vec::new(), vec![0u8; 3], vec![0xFFu8; 8], vec![0u8; 500], b"BORSHDE".to_vec()] {
        let mut accounts = vec![owned_slot(bytes.clone())];
        assert_eq!(
            Processor::process_update(&mut accounts, 1, true, "a".to_string(), None),
            Err(ProcessError::Custom(BorshDemoError::InvalidDiscriminator))
        );
        assert_eq!(
            Processor::process_validate(&accounts, 0),
            Err(ProcessError::Custom(BorshDemoError::InvalidDiscriminator))
        );
        assert_eq!(
            BorshDemoAccount::unwrap_checked(&bytes),
            Err(ProcessError::Custom(BorshDemoError::InvalidDiscriminator))
        );
        assert_eq!(accounts[0].data, bytes);
    }
}

#[test]
fn a_record_that_does_not_decode_is_reported_behind_the_gate() {
    let mut accounts = vec![owned_slot(b"BORSHDEM".to_vec())];
    assert_eq!(
        Processor::process_validate(&accounts, 0),
        Err(ProcessError::Decode(DecodeError::Truncated))
    );
    let mut bytes = stored(&record("abc", Some(1)));
    bytes.push(0);
    accounts[0].data = bytes.clone();
    assert_eq!(
        Processor::process_update(&mut accounts, 1, true, "abc".to_string(), Some(1)),
        Err(ProcessError::Decode(DecodeError::TrailingBytes))
    );
    assert_eq!(accounts[0].data, bytes);
}

#[test]
fn validate_is_read_only() {
    let bytes = stored(&record("abc", Some(1)));
    let mut accounts = vec![owned_slot(bytes.clone())];
    assert_eq!(Processor::process(&mut accounts, &validate_request(42)), Ok(Outcome::Done));
    assert_eq!(accounts, vec![owned_slot(bytes.clone())]);
    assert_eq!(
        Processor::process(&mut accounts, &validate_request(43)),
        Err(ProcessError::InvalidAccountData)
    );
    assert_eq!(accounts, vec![owned_slot(bytes.clone())]);
    assert_eq!(Processor::process_validate(&accounts, 42), Ok(()));
    assert_eq!(Processor::process_validate(&accounts, 0), Err(ProcessError::InvalidAccountData));
}

#[test]
fn unowned_slots_are_refused() {
    let bytes = stored(&record("abc", Some(1)));
    let mut accounts = vec![Slot { is_signer: true, owned_by_program: false, data: bytes.clone() }];
    assert_eq!(
        Processor::process(&mut accounts, &validate_request(42)),
        Err(ProcessError::IncorrectProgramId)
    );
    assert_eq!(
        Processor::process(&mut accounts, &update_request(9, true, "xyz", Some(5))),
        Err(ProcessError::IncorrectProgramId)
    );
    assert_eq!(accounts[0].data, bytes);
}

#[test]
fn missing_slots_are_reported() {
    let mut accounts: Vec<Slot> = Vec::new();
    assert_eq!(
        Processor::process(&mut accounts, &validate_request(42)),
        Err(ProcessError::NotEnoughAccountKeys)
    );
    assert_eq!(
        Processor::process(&mut accounts, &update_request(9, true, "xyz", Some(5))),
        Err(ProcessError::NotEnoughAccountKeys)
    );
    let state = record("abc", None);
    let mut accounts = vec![signer(false, Vec::new()), signer(true, stored(&state))];
    assert_eq!(
        Processor::process(&mut accounts, &initialize_request(&state)),
        Err(ProcessError::NotEnoughAccountKeys)
    );
}

#[test]
fn a_request_that_does_not_decode_is_refused() {
    let bytes = stored(&record("abc", Some(1)));
    let mut accounts = vec![owned_slot(bytes.clone())];
    assert_eq!(
        Processor::process(&mut accounts, &[]),
        Err(ProcessError::Decode(DecodeError::Truncated))
    );
    assert_eq!(
        Processor::process(&mut accounts, &[9]),
        Err(ProcessError::Decode(DecodeError::InvalidTag))
    );
    assert_eq!(
        Processor::process(&mut accounts, &[2, 42, 0]),
        Err(ProcessError::Decode(DecodeError::TrailingBytes))
    );
    assert_eq!(accounts[0].data, bytes);
}

#[test]
fn create_needs_both_signatures() {
    let state = record("abc", None);
    let image = stored(&state);
    for (payer, target) in [(false, true), (true, false), (false, false)] {
        let mut accounts = vec![
            Slot { is_signer: payer, owned_by_program: false, data: Vec::new() },
            Slot { is_signer: target, owned_by_program: true, data: vec![0u8; image.len()] },
            Slot { is_signer: false, owned_by_program: false, data: Vec::new() },
        ];
        assert_eq!(
            Processor::process(&mut accounts, &initialize_request(&state)),
            Err(ProcessError::MissingRequiredSignature)
        );
        assert_eq!(accounts[1].data, vec![0u8; image.len()]);
    }
}

#[test]
fn create_on_an_unowned_slot_asks_for_the_allocation() {
    let state = record("abc", None);
    let image = stored(&state);
    let mut accounts = vec![
        signer(false, Vec::new()),
        signer(false, Vec::new()),
        Slot { is_signer: false, owned_by_program: false, data: Vec::new() },
    ];
    let request = initialize_request(&state);
    let r = Processor::process(&mut accounts, &request);
    assert_eq!(r, Ok(Outcome::Allocate { space: image.len() }));
    assert_eq!(accounts[1], signer(false, Vec::new()));
    accounts[1] = signer(true, vec![0u8; image.len()]);
    assert_eq!(Processor::process(&mut accounts, &request), Ok(Outcome::Done));
    assert_eq!(accounts[1].data, image);
    assert_eq!(BorshDemoAccount::unwrap_checked(&accounts[1].data), Ok(state));
}

#[test]
fn create_overwrites_an_owned_slot_of_the_right_size() {
    let old = record("old", None);
    let new = record("new", None);
    let mut accounts = vec![
        signer(false, Vec::new()),
        signer(true, stored(&old)),
        Slot { is_signer: false, owned_by_program: false, data: Vec::new() },
    ];
    let r = Processor::process(&mut accounts, &initialize_request(&new));
    assert_eq!(r, Ok(Outcome::Done));
    assert_eq!(accounts[1].data, stored(&new));
    assert_eq!(&accounts[1].data[..8], b"BORSHDEM");
    assert_eq!(accounts[0], signer(false, Vec::new()));
}

#[test]
fn create_overwrites_whatever_the_slot_held() {
    let new = record("new", Some(3));
    let len = stored(&new).len();
    let mut accounts = vec![
        signer(false, Vec::new()),
        signer(true, vec![0xAAu8; len]),
        Slot { is_signer: false, owned_by_program: false, data: Vec::new() },
    ];
    let r = Processor::process_initialize(&mut accounts, new.clone());
    assert_eq!(r, Ok(Outcome::Done));
    assert_eq!(accounts[1].data, stored(&new));
    assert_eq!(Processor::process_validate(&vec![accounts[1].clone()], 42), Ok(()));
}

#[test]
fn create_on_an_owned_slot_of_another_size_is_refused() {
    let new = record("new", Some(3));
    let len = stored(&new).len();
    for wrong in [0, len - 1, len + 1] {
        let mut accounts = vec![
            signer(false, Vec::new()),
            signer(true, vec![0xAAu8; wrong]),
            Slot { is_signer: false, owned_by_program: false, data: Vec::new() },
        ];
        let r = Processor::process(&mut accounts, &initialize_request(&new));
        assert_eq!(r, Err(ProcessError::Custom(BorshDemoError::SizeMismatch)));
        assert_eq!(accounts[1].data, vec![0xAAu8; wrong]);
    }
}

#[test]
fn a_lifecycle() {
    let state = record("hello", Some(0));
    let request = initialize_request(&state);
    let mut accounts = vec![
        signer(false, Vec::new()),
        signer(false, Vec::new()),
        Slot { is_signer: false, owned_by_program: false, data: Vec::new() },
    ];
    let space = match Processor::process(&mut accounts, &request) {
        Ok(Outcome::Allocate { space }) => space,
        other => panic!("unexpected {:?}", other),
    };
    accounts[1] = signer(true, vec![0u8; space]);
    assert_eq!(Processor::process(&mut accounts, &request), Ok(Outcome::Done));
    let mut slot = vec![accounts[1].clone()];
    assert_eq!(Processor::process(&mut slot, &validate_request(42)), Ok(Outcome::Done));
    for (i, text) in ["HELLO", "world", "12345"].iter().enumerate() {
        let request = update_request(i as u64, i % 2 == 0, text, Some(i as u64));
        let r = Processor::process(&mut slot, &request);
        assert_eq!(r, Ok(Outcome::Done));
        assert_eq!(slot[0].data.len(), space);
        let now = BorshDemoAccount::unwrap_checked(&slot[0].data).unwrap();
        assert_eq!(now.text, *text);
        assert_eq!(now.primitive_u64, i as u64);
        assert_eq!(now.primitive_bool, i % 2 == 0);
        assert_eq!(now.maybe_amount, Some(i as u64));
        assert_eq!(now.keys, state.keys);
    }
    assert_eq!(Processor::process(&mut slot, &validate_request(42)), Ok(Outcome::Done));
}
