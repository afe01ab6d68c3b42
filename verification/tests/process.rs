use movie_intro::error::IntroError;
use movie_intro::processor::{Address, InitPlan, Processor};
use movie_intro::state::MovieInfo;
use solana_program::pubkey::Pubkey;

fn addr(byte: u8) -> Address {
    Address {
        bytes: vec![byte; 32],
    }
}

fn system_allocator() -> Address {
    addr(0)
}

fn sample_instruction_bytes() -> Vec<u8> {
    let mut bytes: Vec<u8> = vec![0x00];
    bytes.extend_from_slice(&[6, 0, 0, 0]);
    bytes.extend_from_slice(b"Matrix");
    bytes.push(0x09);
    bytes.extend_from_slice(&[11, 0, 0, 0]);
    bytes.extend_from_slice(b"Great movie");
    bytes.extend_from_slice(&[100, 0, 0, 0]);
    bytes.extend_from_slice(&[4, 0, 0, 0]);
    bytes.extend_from_slice(b"Neo!");
    bytes.extend_from_slice(&[1, 0, 0, 0]);
    bytes
}

fn sample_plan() -> InitPlan {
    Processor::prepare_initialization(&addr(7), &addr(1), true, &sample_instruction_bytes())
        .unwrap()
}

#[test]
fn the_system_allocator_identity_is_the_all_zero_key() {
    assert_eq!(
        solana_program::system_program::ID.to_bytes(),
        [0u8; 32],
    );
}

#[test]
fn derivation_is_reproducible() {
    let caller = addr(1);
    let program = addr(7);
    let title = b"Matrix".to_vec();
    let first = Processor::derive_record_address(&caller, &title, &program).unwrap();
    let second = Processor::derive_record_address(&caller, &title, &program).unwrap();
    assert_eq!(first, second);
}

#[test]
fn derivation_matches_the_platform_search() {
    let caller = addr(1);
    let program = addr(7);
    let title = b"Matrix".to_vec();
    let (derived, bump) = Processor::derive_record_address(&caller, &title, &program).unwrap();
    let program_key = Pubkey::new_from_array([7u8; 32]);
    let (expected, expected_bump) =
        Pubkey::find_program_address(&[&caller.bytes, &title], &program_key);
    assert_eq!(derived.bytes, expected.to_bytes().to_vec());
    assert_eq!(bump, expected_bump);
}

#[test]
fn distinct_titles_derive_distinct_addresses() {
    let caller = addr(1);
    let program = addr(7);
    let (first, _) =
        Processor::derive_record_address(&caller, &b"Matrix".to_vec(), &program).unwrap();
    let (second, _) =
        Processor::derive_record_address(&caller, &b"Inception".to_vec(), &program).unwrap();
    assert_ne!(first.bytes, second.bytes);
}

#[test]
fn title_over_the_seed_length_limit_cannot_derive() {
    let caller = addr(1);
    let program = addr(7);
    let title = vec![b'x'; 33];
    assert!(Processor::derive_record_address(&caller, &title, &program).is_none());

    let mut bytes: Vec<u8> = vec![0x00];
    bytes.extend_from_slice(&[33, 0, 0, 0]);
    bytes.extend_from_slice(&title);
    bytes.push(0x01);
    bytes.extend_from_slice(&[0, 0, 0, 0]);
    bytes.extend_from_slice(&[0, 0, 0, 0]);
    bytes.extend_from_slice(&[0, 0, 0, 0]);
    bytes.extend_from_slice(&[0, 0, 0, 0]);
    assert_eq!(
        Processor::prepare_initialization(&program, &caller, true, &bytes).unwrap_err(),
        IntroError::InvalidArgument
    );
}

#[test]
fn prepare_computes_the_documented_plan() {
    let plan = sample_plan();
    assert_eq!(plan.account_len, 1 + 1 + (4 + 6) + (4 + 11));
    let (expected_pda, expected_bump) =
        Processor::derive_record_address(&addr(1), &b"Matrix".to_vec(), &addr(7)).unwrap();
    assert_eq!(plan.pda, expected_pda);
    assert_eq!(plan.bump, expected_bump);
}

#[test]
fn prepare_propagates_decode_errors() {
    assert_eq!(
        Processor::prepare_initialization(&addr(7), &addr(1), true, &[]).unwrap_err(),
        IntroError::Empty
    );
    assert_eq!(
        Processor::prepare_initialization(&addr(7), &addr(1), true, &[0x00, 0x01]).unwrap_err(),
        IntroError::Malformed
    );
}

#[test]
fn unsigned_call_is_unauthorized() {
    assert_eq!(
        Processor::prepare_initialization(&addr(7), &addr(1), false, &sample_instruction_bytes())
            .unwrap_err(),
        IntroError::Unauthorized
    );
}

#[test]
fn initialization_writes_the_documented_record() {
    let plan = sample_plan();
    let mut slot: Vec<u8> = vec![0u8; plan.account_len];
    let outcome = Processor::complete_initialization(
        &plan,
        &plan.pda.clone(),
        890_880,
        &mut slot,
        &system_allocator(),
        890_880,
    );
    assert_eq!(outcome, Ok(()));
    let record = MovieInfo::deserialize(&slot).unwrap();
    assert!(record.is_initialized());
    assert_eq!(record.rating, 9);
    assert_eq!(record.title, b"Matrix".to_vec());
    assert_eq!(record.description, b"Great movie".to_vec());
    assert_eq!(record.funding, 100);
    assert_eq!(record.recipient, b"Neo!".to_vec());
    assert_eq!(record.entry, 1);
}

#[test]
fn second_initialization_is_rejected_and_leaves_the_record() {
    let plan = sample_plan();
    let mut slot: Vec<u8> = vec![0u8; plan.account_len];
    let user_key = plan.pda.clone();
    let allocator = system_allocator();
    assert_eq!(
        Processor::complete_initialization(&plan, &user_key, 890_880, &mut slot, &allocator, 890_880),
        Ok(())
    );
    let written = slot.clone();
    assert_eq!(
        Processor::complete_initialization(&plan, &user_key, 890_880, &mut slot, &allocator, 890_880),
        Err(IntroError::AlreadyInitialized)
    );
    assert_eq!(slot, written);
}

#[test]
fn wrong_allocator_is_invalid_argument_and_touches_nothing() {
    let plan = sample_plan();
    let mut slot: Vec<u8> = vec![0u8; plan.account_len];
    assert_eq!(
        Processor::complete_initialization(
            &plan,
            &plan.pda.clone(),
            890_880,
            &mut slot,
            &addr(9),
            890_880,
        ),
        Err(IntroError::InvalidArgument)
    );
    assert_eq!(slot, vec![0u8; plan.account_len]);
}

#[test]
fn wrong_target_account_is_invalid_argument() {
    let plan = sample_plan();
    let mut slot: Vec<u8> = vec![0u8; plan.account_len];
    assert_eq!(
        Processor::complete_initialization(
            &plan,
            &addr(3),
            890_880,
            &mut slot,
            &system_allocator(),
            890_880,
        ),
        Err(IntroError::InvalidArgument)
    );
    assert_eq!(slot, vec![0u8; plan.account_len]);
}

#[test]
fn underfunded_slot_is_not_rent_exempt() {
    let plan = sample_plan();
    let mut slot: Vec<u8> = vec![0u8; plan.account_len];
    assert_eq!(
        Processor::complete_initialization(
            &plan,
            &plan.pda.clone(),
            890_879,
            &mut slot,
            &system_allocator(),
            890_880,
        ),
        Err(IntroError::NotRentExempt)
    );
    assert_eq!(slot, vec![0u8; plan.account_len]);
}

#[test]
fn slot_too_small_for_the_fixed_fields_is_malformed() {
    let mut bytes: Vec<u8> = vec![0x00];
    bytes.extend_from_slice(&[0, 0, 0, 0]);
    bytes.push(0x01);
    bytes.extend_from_slice(&[0, 0, 0, 0]);
    bytes.extend_from_slice(&[0, 0, 0, 0]);
    bytes.extend_from_slice(&[0, 0, 0, 0]);
    bytes.extend_from_slice(&[0, 0, 0, 0]);
    let plan = Processor::prepare_initialization(&addr(7), &addr(1), true, &bytes).unwrap();
    assert_eq!(plan.account_len, 10);
    let mut slot: Vec<u8> = vec![0u8; plan.account_len];
    assert_eq!(
        Processor::complete_initialization(
            &plan,
            &plan.pda.clone(),
            890_880,
            &mut slot,
            &system_allocator(),
            890_880,
        ),
        Err(IntroError::Malformed)
    );
}
