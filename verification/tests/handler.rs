use greeting_program::{process_instruction, Account, ErrorKind, GreetingAccount, Identity, Receipt};
use std::mem;

fn program() -> Identity {
    Identity { bytes: [7; 32] }
}

fn record(data: Vec<u8>) -> Vec<Account> {
    vec![Account { owner: program(), data }]
}

fn stored(counter: u32, message: &str, capacity: usize) -> Vec<u8> {
    let mut data = vec![0xEE; capacity];
    let state = GreetingAccount { counter, message: message.to_string() };
    state.serialize(&mut data).unwrap();
    data
}

#[test]
fn test_sanity() {
    let program_id = Identity::default();
    let owner = Identity::default();
    let data = vec![0; 2 * mem::size_of::<u32>()];
    let account = Account { owner, data };
    let instruction_data: Vec<u8> = Vec::new();

    let mut accounts = vec![account];

    assert_eq!(
        GreetingAccount::try_from_slice(&accounts[0].data)
            .unwrap()
            .counter,
        0
    );
    process_instruction(&program_id, &mut accounts, &instruction_data).unwrap();
    assert_eq!(
        GreetingAccount::try_from_slice(&accounts[0].data)
            .unwrap()
            .counter,
        1
    );
    process_instruction(&program_id, &mut accounts, &instruction_data).unwrap();
    assert_eq!(
        GreetingAccount::try_from_slice(&accounts[0].data)
            .unwrap()
            .counter,
        2
    );
}

#[test]
fn counter_alone_is_not_a_record() {
    let mut accounts = vec![Account { owner: Identity::default(), data: vec![0; 4] }];
    assert_eq!(GreetingAccount::try_from_slice(&accounts[0].data), None);
    assert_eq!(
        process_instruction(&Identity::default(), &mut accounts, &[]),
        Err(ErrorKind::CorruptState)
    );
    assert_eq!(accounts[0].data, vec![0; 4]);
}

#[test]
fn no_account_is_missing_account() {
    let mut accounts: Vec<Account> = Vec::new();
    assert_eq!(
        process_instruction(&program(), &mut accounts, &[1, 2, 3]),
        Err(ErrorKind::MissingAccount)
    );
    assert!(accounts.is_empty());
}

#[test]
fn stranger_is_refused_and_buffer_kept() {
    let before = stored(3, "hello", 32);
    for payload in [vec![], vec![9u8; 8], stored(1, "x", 9), vec![0u8; 33]] {
        let mut accounts = record(before.clone());
        let mut stranger = program();
        stranger.bytes[31] = 8;
        assert_eq!(
            process_instruction(&stranger, &mut accounts, &payload),
            Err(ErrorKind::UnauthorizedAccount)
        );
        assert_eq!(accounts[0].data, before);
        assert_eq!(accounts[0].owner, program());
    }
}

#[test]
fn identity_differs_in_any_single_byte() {
    for at in 0..32 {
        let mut other = program();
        other.bytes[at] ^= 1;
        assert_ne!(other, program());
        let mut accounts = record(stored(0, "", 8));
        assert_eq!(
            process_instruction(&other, &mut accounts, &[]),
            Err(ErrorKind::UnauthorizedAccount)
        );
    }
    assert_eq!(program(), program());
    assert_eq!(Identity::default(), Identity { bytes: [0; 32] });
}

#[test]
fn authorization_comes_before_every_other_check() {
    let mut stranger = program();
    stranger.bytes[0] = 0;
    let mut accounts = record(vec![0xFF; 3]);
    assert_eq!(
        process_instruction(&stranger, &mut accounts, &[0; 100]),
        Err(ErrorKind::UnauthorizedAccount)
    );
    assert_eq!(accounts[0].data, vec![0xFF; 3]);
}

#[test]
fn counter_counts_consecutive_invocations() {
    let mut accounts = record(vec![0; 40]);
    let payloads: [Vec<u8>; 5] =
        [vec![], vec![1], stored(77, "payload", 20), vec![0xFF; 40], vec![5; 13]];
    for (k, payload) in payloads.iter().enumerate() {
        let receipt = process_instruction(&program(), &mut accounts, payload).unwrap();
        assert_eq!(receipt.counter, k as u32 + 1);
        let state = GreetingAccount::deserialize(&accounts[0].data).unwrap();
        assert_eq!(state.counter, k as u32 + 1);
        assert_eq!(state.message, "");
        assert_eq!(accounts[0].data.len(), 40);
    }
}

#[test]
fn message_survives_invocations() {
    let mut accounts = record(stored(41, "grüße", 64));
    let receipt = process_instruction(&program(), &mut accounts, &stored(0, "other", 30)).unwrap();
    assert_eq!(receipt.counter, 42);
    assert_eq!(
        GreetingAccount::deserialize(&accounts[0].data),
        Some(GreetingAccount { counter: 42, message: "grüße".to_string() })
    );
}

#[test]
fn payload_of_capacity_length_is_accepted() {
    let mut accounts = record(stored(0, "ab", 16));
    let receipt = process_instruction(&program(), &mut accounts, &[0xAA; 16]).unwrap();
    assert_eq!(receipt.counter, 1);
    assert_eq!(
        accounts[0].data,
        vec![1, 0, 0, 0, 2, 0, 0, 0, b'a', b'b', 0xAA, 0xAA, 0xAA, 0xAA, 0xAA, 0xAA]
    );
}

#[test]
fn payload_one_byte_longer_overflows() {
    let before = stored(0, "ab", 16);
    let mut accounts = record(before.clone());
    assert_eq!(
        process_instruction(&program(), &mut accounts, &[0xAA; 17]),
        Err(ErrorKind::BufferOverflow)
    );
    assert_eq!(accounts[0].data, before);
}

#[test]
fn counter_at_ceiling_overflows() {
    let before = stored(u32::MAX, "full", 24);
    let mut accounts = record(before.clone());
    assert_eq!(
        process_instruction(&program(), &mut accounts, &[1, 2, 3]),
        Err(ErrorKind::CounterOverflow)
    );
    assert_eq!(accounts[0].data, before);
    assert_eq!(&accounts[0].data[..4], &[0xFF, 0xFF, 0xFF, 0xFF]);
}

#[test]
fn counter_below_ceiling_reaches_it() {
    let mut accounts = record(stored(u32::MAX - 1, "", 8));
    let receipt = process_instruction(&program(), &mut accounts, &[]).unwrap();
    assert_eq!(receipt.counter, u32::MAX);
    assert_eq!(accounts[0].data, vec![0xFF, 0xFF, 0xFF, 0xFF, 0, 0, 0, 0]);
    assert_eq!(
        process_instruction(&program(), &mut accounts, &[]),
        Err(ErrorKind::CounterOverflow)
    );
}

#[test]
fn zeroed_buffer_counts_from_one() {
    let mut accounts = record(vec![0; 64]);
    let payload: Vec<u8> = Vec::new();

    let first = process_instruction(&program(), &mut accounts, &payload);
    assert_eq!(first, Ok(Receipt { counter: 1, greeting: None }));
    assert_eq!(
        GreetingAccount::deserialize(&accounts[0].data),
        Some(GreetingAccount { counter: 1, message: String::new() })
    );

    let second = process_instruction(&program(), &mut accounts, &payload);
    assert_eq!(second, Ok(Receipt { counter: 2, greeting: None }));
    assert_eq!(
        GreetingAccount::deserialize(&accounts[0].data),
        Some(GreetingAccount { counter: 2, message: String::new() })
    );
    let mut expected = vec![0; 64];
    expected[0] = 2;
    assert_eq!(accounts[0].data, expected);
}

#[test]
fn eight_bytes_hold_the_empty_message_exactly() {
    let mut accounts = record(vec![0; 8]);
    let receipt = process_instruction(&program(), &mut accounts, &[]).unwrap();
    assert_eq!(receipt.counter, 1);
    assert_eq!(accounts[0].data, vec![1, 0, 0, 0, 0, 0, 0, 0]);
}

#[test]
fn eight_bytes_do_not_hold_a_message() {
    let state = GreetingAccount { counter: 1, message: "a".to_string() };
    let mut buffer = [0u8; 8];
    assert_eq!(state.serialize(&mut buffer), Err(ErrorKind::StateEncodeOverflow));
    assert_eq!(buffer, [0u8; 8]);

    let mut accounts = record(vec![0, 0, 0, 0, 1, 0, 0, 0]);
    assert_eq!(
        process_instruction(&program(), &mut accounts, &[]),
        Err(ErrorKind::CorruptState)
    );
    assert_eq!(accounts[0].data, vec![0, 0, 0, 0, 1, 0, 0, 0]);
}

#[test]
fn corrupt_buffers_are_rejected_unchanged() {
    let truncated_prefix = vec![1, 0, 0, 0, 0, 0, 0];
    let truncated_message = vec![1, 0, 0, 0, 3, 0, 0, 0, b'a', b'b'];
    let not_utf8 = vec![1, 0, 0, 0, 2, 0, 0, 0, 0xC3, 0x28, 0, 0];
    let huge_length = vec![1, 0, 0, 0, 0xFF, 0xFF, 0xFF, 0xFF, 0, 0, 0, 0];
    for data in [vec![], truncated_prefix, truncated_message, not_utf8, huge_length] {
        let mut accounts = record(data.clone());
        assert_eq!(
            process_instruction(&program(), &mut accounts, &[]),
            Err(ErrorKind::CorruptState)
        );
        assert_eq!(accounts[0].data, data);
    }
}

#[test]
fn corrupt_state_comes_before_buffer_overflow() {
    let mut accounts = record(vec![0; 7]);
    assert_eq!(
        process_instruction(&program(), &mut accounts, &[0; 8]),
        Err(ErrorKind::CorruptState)
    );
}

#[test]
fn counter_overflow_comes_before_buffer_overflow() {
    let mut accounts = record(stored(u32::MAX, "", 8));
    assert_eq!(
        process_instruction(&program(), &mut accounts, &[0; 9]),
        Err(ErrorKind::CounterOverflow)
    );
}

#[test]
fn malformed_payload_is_a_warning_not_a_failure() {
    let mut accounts = record(vec![0; 16]);
    let receipt = process_instruction(&program(), &mut accounts, &[1, 2, 3]).unwrap();
    assert_eq!(receipt.greeting, None);
    assert_eq!(receipt.warning(), Some(ErrorKind::PayloadDecodeWarning));
    assert!(!ErrorKind::PayloadDecodeWarning.is_fatal());
    assert_eq!(receipt.counter, 1);
    assert_eq!(GreetingAccount::deserialize(&accounts[0].data).unwrap().counter, 1);
}

#[test]
fn well_formed_payload_is_reported_not_stored() {
    let payload = stored(500, "hi there", 16);
    let mut accounts = record(stored(9, "kept", 32));
    let receipt = process_instruction(&program(), &mut accounts, &payload).unwrap();
    assert_eq!(
        receipt,
        Receipt {
            counter: 10,
            greeting: Some(GreetingAccount { counter: 500, message: "hi there".to_string() }),
        }
    );
    assert_eq!(receipt.warning(), None);
    assert_eq!(
        GreetingAccount::deserialize(&accounts[0].data),
        Some(GreetingAccount { counter: 10, message: "kept".to_string() })
    );
}

#[test]
fn payload_bytes_behind_the_state_stay_as_residue() {
    let mut accounts = record(stored(0, "ab", 16));
    let payload = [0x10, 0x11, 0x12, 0x13, 0x14, 0x15, 0x16, 0x17, 0x18, 0x19, 0x1A, 0x1B, 0x1C];
    process_instruction(&program(), &mut accounts, &payload).unwrap();
    assert_eq!(
        accounts[0].data,
        vec![1, 0, 0, 0, 2, 0, 0, 0, b'a', b'b', 0x1A, 0x1B, 0x1C, 0xEE, 0xEE, 0xEE]
    );
}

#[test]
fn only_the_first_account_is_touched() {
    let second = Account { owner: Identity { bytes: [1; 32] }, data: vec![0; 12] };
    let third = Account { owner: program(), data: stored(5, "", 8) };
    let mut accounts =
        vec![Account { owner: program(), data: vec![0; 8] }, second.clone(), third.clone()];
    process_instruction(&program(), &mut accounts, &[]).unwrap();
    assert_eq!(accounts.len(), 3);
    assert_eq!(accounts[0].data, vec![1, 0, 0, 0, 0, 0, 0, 0]);
    assert_eq!(accounts[1], second);
    assert_eq!(accounts[2], third);
}

#[test]
fn every_kind_but_the_warning_is_fatal() {
    for kind in [
        ErrorKind::MissingAccount,
        ErrorKind::UnauthorizedAccount,
        ErrorKind::CorruptState,
        ErrorKind::CounterOverflow,
        ErrorKind::BufferOverflow,
        ErrorKind::StateEncodeOverflow,
    ] {
        assert!(kind.is_fatal());
    }
    assert!(!ErrorKind::PayloadDecodeWarning.is_fatal());
}
