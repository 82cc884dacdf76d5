use solana_program::program_option::COption;
use solana_program::program_pack::Pack;
use solana_program::pubkey::Pubkey;
use vesting::address::DerivedAuthority;
use vesting::error::VestingError;
use vesting::instruction::{Schedule, VestingInstruction};
use vesting::processer::{ChangeAccounts, CreateAccounts, Processer, UnlockAccounts};
use vesting::state::{pack_schedules_into_slice, unpack_schedules, VestingSchedule, VestingScheduleInfo};
use vesting::utils::{RecordError, Utils};

const PROGRAM: [u8; 32] = [7u8; 32];

fn authority() -> DerivedAuthority {
    for b in 0u8..=255 {
        let seed = [b; 32];
        if let Ok(k) = Pubkey::create_program_address(&[&seed], &Pubkey::new_from_array(PROGRAM)) {
            return DerivedAuthority { seed, program_id: PROGRAM, address: k.to_bytes() };
        }
    }
    panic!("no seed yields a derived address");
}

fn token_account(owner: [u8; 32], amount: u64, delegate: bool, close: bool) -> Vec<u8> {
    let account = spl_token::state::Account {
        mint: Pubkey::new_from_array([9u8; 32]),
        owner: Pubkey::new_from_array(owner),
        amount,
        delegate: if delegate { COption::Some(Pubkey::new_from_array([5u8; 32])) } else { COption::None },
        state: spl_token::state::AccountState::Initialized,
        is_native: COption::None,
        delegated_amount: 0,
        close_authority: if close { COption::Some(Pubkey::new_from_array([6u8; 32])) } else { COption::None },
    };
    let mut data = vec![0u8; spl_token::state::Account::LEN];
    account.pack_into_slice(&mut data);
    data
}

fn create_accounts(a: &DerivedAuthority) -> CreateAccounts {
    CreateAccounts {
        vesting_account_key: a.address,
        vesting_account_owner: PROGRAM,
        vesting_token_account_data: token_account(a.address, 0, false, false),
        source_owner_is_signer: true,
        source_token_account_data: token_account([3u8; 32], 1_000, false, false),
    }
}

fn two_schedules() -> Vec<Schedule> {
    vec![
        Schedule { release_time: 100, amount: 10 },
        Schedule { release_time: 200, amount: 20 },
    ]
}

fn funded_buffer(a: &DerivedAuthority) -> Vec<u8> {
    let mut data = vec![0u8; 65 + 32];
    let r = Processer::process_create(a, &create_accounts(a), &[9u8; 32], &[4u8; 32], &two_schedules(), &mut data);
    assert_eq!(r, Ok(30));
    data
}

fn unlock_accounts(a: &DerivedAuthority) -> UnlockAccounts {
    UnlockAccounts {
        token_program_key: spl_token::id().to_bytes(),
        vesting_account_key: a.address,
        vesting_token_account_data: token_account(a.address, 30, false, false),
        destination_token_account_key: [4u8; 32],
    }
}

fn events_of(data: &[u8]) -> Vec<(u64, u64)> {
    unpack_schedules(&data[65..]).unwrap().iter().map(|s| (s.release_time, s.amount)).collect()
}

#[test]
fn schedule_bytes_are_little_endian() {
    let mut dst = vec![0xffu8; 18];
    VestingSchedule { release_time: 1, amount: 0x0102 }.pack_into_slice(&mut dst);
    assert_eq!(dst, vec![1, 0, 0, 0, 0, 0, 0, 0, 2, 1, 0, 0, 0, 0, 0, 0, 0xff, 0xff]);
}

#[test]
fn schedule_unpack_short_buffer_fails() {
    assert_eq!(VestingSchedule::unpack_from_slice(&[0u8; 15]), Err(VestingError::InvalidAccountData));
    let s = VestingSchedule::unpack_from_slice(&[1, 0, 0, 0, 0, 0, 0, 0, 5, 0, 0, 0, 0, 0, 0, 0]).unwrap();
    assert_eq!(s, VestingSchedule { release_time: 1, amount: 5 });
}

#[test]
fn schedules_round_trip() {
    let events = vec![
        VestingSchedule { release_time: 0, amount: u64::MAX },
        VestingSchedule { release_time: 1_700_000_000, amount: 42 },
        VestingSchedule { release_time: u64::MAX, amount: 0 },
    ];
    let mut buf = vec![0u8; 48];
    pack_schedules_into_slice(events.clone(), &mut buf);
    assert_eq!(unpack_schedules(&buf), Ok(events));
    assert_eq!(unpack_schedules(&[]), Ok(vec![]));
}

#[test]
fn schedules_decode_drops_trailing_bytes() {
    let mut buf = vec![0u8; 16 * 2 + 5];
    pack_schedules_into_slice(
        vec![VestingSchedule { release_time: 3, amount: 4 }, VestingSchedule { release_time: 5, amount: 6 }],
        &mut buf,
    );
    buf[33] = 9;
    let v = unpack_schedules(&buf).unwrap();
    assert_eq!(v.len(), 2);
    assert_eq!(v[1], VestingSchedule { release_time: 5, amount: 6 });
    assert_eq!(unpack_schedules(&[1u8; 15]).unwrap().len(), 0);
}

#[test]
fn create_instruction_round_trip() {
    let ix = VestingInstruction::Create {
        derived_vesting_address: [1u8; 32],
        mint_address: [2u8; 32],
        destination_token_address: [3u8; 32],
        schedules: two_schedules(),
    };
    let bytes = ix.pack();
    assert_eq!(bytes.len(), 1 + 96 + 32);
    assert_eq!(bytes[0], 1);
    match VestingInstruction::unpack(&bytes).unwrap() {
        VestingInstruction::Create { derived_vesting_address, mint_address, destination_token_address, schedules } => {
            assert_eq!(derived_vesting_address, [1u8; 32]);
            assert_eq!(mint_address, [2u8; 32]);
            assert_eq!(destination_token_address, [3u8; 32]);
            assert_eq!(schedules, two_schedules());
        }
        _ => panic!("wrong operation"),
    }
}

#[test]
fn unlock_and_change_destination_round_trip() {
    let bytes = VestingInstruction::Unlock { derived_vesting_address: [8u8; 32] }.pack();
    let mut expected = vec![2u8];
    expected.extend_from_slice(&[8u8; 32]);
    assert_eq!(bytes, expected);
    assert!(matches!(
        VestingInstruction::unpack(&bytes),
        Ok(VestingInstruction::Unlock { derived_vesting_address }) if derived_vesting_address == [8u8; 32]
    ));
    let bytes = VestingInstruction::ChangeDestination { derived_vesting_address: [6u8; 32] }.pack();
    assert_eq!(bytes[0], 3);
    assert!(matches!(
        VestingInstruction::unpack(&bytes),
        Ok(VestingInstruction::ChangeDestination { derived_vesting_address }) if derived_vesting_address == [6u8; 32]
    ));
}

#[test]
fn initialize_round_trip_and_trailing_text() {
    let bytes = VestingInstruction::Initialize { derived_vesting_address: [4u8; 32], number_of_schedules: 0x01020304 }.pack();
    assert_eq!(bytes.len(), 37);
    assert_eq!(&bytes[33..], &[4, 3, 2, 1]);
    let mut with_text = bytes.clone();
    with_text.extend_from_slice(b"target_account:abc|");
    for b in [bytes, with_text] {
        match VestingInstruction::unpack(&b).unwrap() {
            VestingInstruction::Initialize { derived_vesting_address, number_of_schedules } => {
                assert_eq!(derived_vesting_address, [4u8; 32]);
                assert_eq!(number_of_schedules, 0x01020304);
            }
            _ => panic!("wrong operation"),
        }
    }
}

#[test]
fn create_instruction_drops_partial_event() {
    let mut bytes = vec![1u8];
    bytes.extend_from_slice(&[0u8; 96]);
    bytes.extend_from_slice(&[1u8; 16 + 7]);
    match VestingInstruction::unpack(&bytes).unwrap() {
        VestingInstruction::Create { schedules, .. } => {
            assert_eq!(schedules, vec![Schedule { release_time: 0x0101010101010101, amount: 0x0101010101010101 }]);
        }
        _ => panic!("wrong operation"),
    }
}

#[test]
fn bad_instructions_are_refused() {
    let bad = VestingError::BadInstruction;
    assert_eq!(VestingInstruction::unpack(&[]).err(), Some(bad));
    assert_eq!(VestingInstruction::unpack(&[4u8; 40]).err(), Some(bad));
    assert_eq!(VestingInstruction::unpack(&[2u8; 10]).err(), Some(bad));
    assert_eq!(VestingInstruction::unpack(&[3u8; 32]).err(), Some(bad));
    assert_eq!(VestingInstruction::unpack(&[1u8; 96]).err(), Some(bad));
    assert_eq!(VestingInstruction::unpack(&[0u8; 36]).err(), Some(bad));
}

#[test]
fn header_codec() {
    let h = VestingScheduleInfo { destination_address: [1u8; 32], mint_address: [2u8; 32], is_initialized: true };
    let mut buf = vec![0u8; 70];
    h.pack_into_slice(&mut buf);
    assert_eq!(&buf[..32], &[1u8; 32]);
    assert_eq!(&buf[32..64], &[2u8; 32]);
    assert_eq!(buf[64], 1);
    let back = VestingScheduleInfo::unpack(&buf[..65]).unwrap();
    assert_eq!(back.destination_address, [1u8; 32]);
    assert_eq!(back.mint_address, [2u8; 32]);
    assert!(back.is_initialized());
    assert_eq!(VestingScheduleInfo::unpack_from_slice(&buf[..64]).err(), Some(VestingError::InvalidAccountData));
    assert_eq!(VestingScheduleInfo::unpack(&buf).err(), Some(VestingError::InvalidAccountData));
    assert_eq!(VestingScheduleInfo::unpack(&[0u8; 65]).err(), Some(VestingError::UninitializedAccount));
}

#[test]
fn derived_authority_matches_ledger() {
    let a = authority();
    let derived = DerivedAuthority::derive(a.seed, PROGRAM).unwrap();
    assert_eq!(derived.address, a.address);
    assert_ne!(derived.address, a.seed);
    assert_eq!(derived.program_id, PROGRAM);
}

#[test]
fn initialize_sizes_the_buffer() {
    let a = authority();
    assert_eq!(Processer::process_init(&a, &a.address, 3), Ok(65 + 48));
    assert_eq!(Processer::process_init(&a, &a.address, u32::MAX), Ok(65 + 16 * u32::MAX as u64));
    assert_eq!(Processer::process_init(&a, &[0u8; 32], 3), Err(VestingError::InvalidArgument));
}

#[test]
fn create_writes_header_and_events() {
    let a = authority();
    let data = funded_buffer(&a);
    assert_eq!(&data[..32], &[4u8; 32]);
    assert_eq!(&data[32..64], &[9u8; 32]);
    assert_eq!(data[64], 1);
    assert_eq!(events_of(&data), vec![(100, 10), (200, 20)]);
}

fn create_fails(a: &DerivedAuthority, accounts: &CreateAccounts, data: &[u8], schedules: &[Schedule], expected: VestingError) {
    let mut buf = data.to_vec();
    let r = Processer::process_create(a, accounts, &[9u8; 32], &[4u8; 32], &schedules.to_vec(), &mut buf);
    assert_eq!(r, Err(expected));
    assert_eq!(buf, data);
}

#[test]
fn create_preconditions_each_refuse() {
    let a = authority();
    let empty = vec![0u8; 65 + 32];
    let s = two_schedules();
    let mut wrong = a;
    wrong.address = [1u8; 32];
    create_fails(&wrong, &create_accounts(&a), &empty, &s, VestingError::InvalidArgument);
    let mut c = create_accounts(&a);
    c.vesting_account_owner = [1u8; 32];
    create_fails(&a, &c, &empty, &s, VestingError::InvalidArgument);
    let mut c = create_accounts(&a);
    c.source_owner_is_signer = false;
    create_fails(&a, &c, &empty, &s, VestingError::InvalidArgument);
    let funded = funded_buffer(&a);
    create_fails(&a, &create_accounts(&a), &funded, &s, VestingError::InvalidArgument);
    let mut c = create_accounts(&a);
    c.vesting_token_account_data = token_account([1u8; 32], 0, false, false);
    create_fails(&a, &c, &empty, &s, VestingError::InvalidArgument);
    let mut c = create_accounts(&a);
    c.vesting_token_account_data = token_account(a.address, 0, true, false);
    create_fails(&a, &c, &empty, &s, VestingError::InvalidAccountData);
    let mut c = create_accounts(&a);
    c.vesting_token_account_data = token_account(a.address, 0, false, true);
    create_fails(&a, &c, &empty, &s, VestingError::InvalidAccountData);
    create_fails(&a, &create_accounts(&a), &vec![0u8; 65 + 16], &s, VestingError::InvalidAccountData);
    create_fails(&a, &create_accounts(&a), &vec![0u8; 40], &s, VestingError::InvalidAccountData);
}

#[test]
fn create_refuses_bad_token_accounts_and_funds() {
    let a = authority();
    let empty = vec![0u8; 65 + 32];
    let s = two_schedules();
    let mut c = create_accounts(&a);
    c.vesting_token_account_data = vec![0u8; 164];
    create_fails(&a, &c, &empty, &s, VestingError::InvalidAccountData);
    let mut c = create_accounts(&a);
    c.vesting_token_account_data[108] = 0;
    create_fails(&a, &c, &empty, &s, VestingError::UninitializedAccount);
    let mut c = create_accounts(&a);
    c.source_token_account_data = token_account([3u8; 32], 29, false, false);
    create_fails(&a, &c, &empty, &s, VestingError::InsufficientFunds);
    let mut c = create_accounts(&a);
    c.source_token_account_data = token_account([3u8; 32], 30, false, false);
    let mut buf = empty.clone();
    assert_eq!(Processer::process_create(&a, &c, &[9u8; 32], &[4u8; 32], &s, &mut buf), Ok(30));
}

#[test]
fn create_overflow_moves_nothing() {
    let a = authority();
    let s = vec![Schedule { release_time: 1, amount: u64::MAX }, Schedule { release_time: 2, amount: 1 }];
    create_fails(&a, &create_accounts(&a), &vec![0u8; 65 + 32], &s, VestingError::InvalidInstructionData);
}

#[test]
fn unlock_releases_only_matured_events() {
    let a = authority();
    let mut data = funded_buffer(&a);
    let u = unlock_accounts(&a);
    assert_eq!(Processer::process_unlock(&a, &u, 150, &mut data), Ok(10));
    assert_eq!(events_of(&data), vec![(100, 0), (200, 20)]);
    assert_eq!(&data[..65], &funded_buffer(&a)[..65]);
    let before = data.clone();
    assert_eq!(Processer::process_unlock(&a, &u, 150, &mut data), Err(VestingError::InvalidArgument));
    assert_eq!(data, before);
}

#[test]
fn unlock_at_advancing_times() {
    let a = authority();
    let mut data = funded_buffer(&a);
    let u = unlock_accounts(&a);
    let first = Processer::process_unlock(&a, &u, 100, &mut data).unwrap();
    let second = Processer::process_unlock(&a, &u, 200, &mut data).unwrap();
    assert_eq!((first, second), (10, 20));
    assert_eq!(first + second, 30);
    assert_eq!(events_of(&data), vec![(100, 0), (200, 0)]);
}

#[test]
fn unlock_before_any_release_fails() {
    let a = authority();
    let mut data = funded_buffer(&a);
    let before = data.clone();
    assert_eq!(Processer::process_unlock(&a, &unlock_accounts(&a), 99, &mut data), Err(VestingError::InvalidArgument));
    assert_eq!(data, before);
}

#[test]
fn unlock_checks_accounts() {
    let a = authority();
    let data = funded_buffer(&a);
    let check = |u: &UnlockAccounts, d: &[u8], expected: VestingError| {
        let mut buf = d.to_vec();
        assert_eq!(Processer::process_unlock(&a, u, 500, &mut buf), Err(expected));
        assert_eq!(buf, d);
    };
    let mut u = unlock_accounts(&a);
    u.vesting_account_key = [1u8; 32];
    check(&u, &data, VestingError::InvalidArgument);
    let mut u = unlock_accounts(&a);
    u.token_program_key = [1u8; 32];
    check(&u, &data, VestingError::InvalidArgument);
    let mut u = unlock_accounts(&a);
    u.destination_token_account_key = [1u8; 32];
    check(&u, &data, VestingError::InvalidArgument);
    let mut u = unlock_accounts(&a);
    u.vesting_token_account_data = token_account([1u8; 32], 30, false, false);
    check(&u, &data, VestingError::InvalidArgument);
    check(&unlock_accounts(&a), &data[..64], VestingError::InvalidAccountData);
    check(&unlock_accounts(&a), &vec![0u8; 97], VestingError::UninitializedAccount);
}

#[test]
fn unlock_sum_overflow_is_refused() {
    let a = authority();
    let mut data = vec![0u8; 65 + 32];
    VestingScheduleInfo { destination_address: [4u8; 32], mint_address: [9u8; 32], is_initialized: true }.pack_into_slice(&mut data);
    pack_schedules_into_slice(
        vec![VestingSchedule { release_time: 1, amount: u64::MAX }, VestingSchedule { release_time: 2, amount: 1 }],
        &mut data[65..],
    );
    let before = data.clone();
    assert_eq!(Processer::process_unlock(&a, &unlock_accounts(&a), 5, &mut data), Err(VestingError::InvalidInstructionData));
    assert_eq!(data, before);
}

fn change_accounts() -> ChangeAccounts {
    ChangeAccounts {
        vesting_account_key: authority().address,
        destination_token_account_key: [4u8; 32],
        destination_token_account_data: token_account([12u8; 32], 0, false, false),
        destination_owner_key: [12u8; 32],
        destination_owner_is_signer: true,
        new_destination_token_account_key: [13u8; 32],
    }
}

#[test]
fn change_destination_only_touches_destination() {
    let a = authority();
    let before = funded_buffer(&a);
    let mut data = before.clone();
    assert_eq!(Processer::process_change_destination(&a, &change_accounts(), &mut data), Ok(()));
    assert_eq!(&data[..32], &[13u8; 32]);
    assert_eq!(&data[32..], &before[32..]);
}

#[test]
fn change_destination_checks() {
    let a = authority();
    let data = funded_buffer(&a);
    let check = |c: &ChangeAccounts, d: &[u8], expected: VestingError| {
        let mut buf = d.to_vec();
        assert_eq!(Processer::process_change_destination(&a, c, &mut buf), Err(expected));
        assert_eq!(buf, d);
    };
    check(&change_accounts(), &data[..60], VestingError::InvalidAccountData);
    check(&change_accounts(), &vec![0u8; 97], VestingError::UninitializedAccount);
    let mut c = change_accounts();
    c.vesting_account_key = [1u8; 32];
    check(&c, &data, VestingError::InvalidArgument);
    let mut c = change_accounts();
    c.destination_token_account_key = [1u8; 32];
    check(&c, &data, VestingError::InvalidArgument);
    let mut c = change_accounts();
    c.destination_owner_is_signer = false;
    check(&c, &data, VestingError::InvalidArgument);
    let mut c = change_accounts();
    c.destination_owner_key = [1u8; 32];
    check(&c, &data, VestingError::InvalidArgument);
    let mut c = change_accounts();
    c.destination_token_account_data = vec![1u8; 10];
    check(&c, &data, VestingError::InvalidAccountData);
}

#[test]
fn record_lookup() {
    let key = [21u8; 32];
    let text = format!("x|target_account:{}|rest", bs58::encode(key).into_string());
    assert_eq!(Utils::get_data(&text, "target_account:"), Ok(key));
    assert_eq!(Utils::get_data(&text, "missing:"), Err(RecordError::Missing));
    let no_bar = format!("target_account:{}", bs58::encode(key).into_string());
    assert_eq!(Utils::get_data(&no_bar, "target_account:"), Err(RecordError::Missing));
    assert_eq!(Utils::get_data("target_account:0OIl|", "target_account:"), Err(RecordError::InvalidBase58));
    assert_eq!(Utils::get_data("target_account:2g|", "target_account:"), Err(RecordError::WrongLength));
    assert_eq!(Utils::get_data("ab|cd", "b|c"), Err(RecordError::Malformed));
}
