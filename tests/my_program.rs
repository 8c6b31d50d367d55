use anchor_lang::prelude::Pubkey;
use my_program::address::counter_address;
use my_program::identity::Identity;
use my_program::store::{increment, initialize, CounterStore, ErrorCode, Increment, Initialize};

const PROGRAM_ID: &str = "HzGMFQqafY25HaZJ9s3H5m8rUZzppcgeZvEhD7D7Yoyg";

fn program_id() -> Identity {
    Identity::new(Pubkey::from_str_const(PROGRAM_ID).to_bytes())
}

fn payer() -> Identity {
    Identity::new([17u8; 32])
}

fn other_user() -> Identity {
    Identity::new([42u8; 32])
}

fn new_store() -> CounterStore {
    CounterStore::new(program_id(), 1_000)
}

fn init_ctx(store: &CounterStore, user: Identity) -> Initialize {
    Initialize {
        counter: counter_address(&user, &store.program_id()).unwrap(),
        user,
        user_lamports: 5_000,
    }
}

fn inc_ctx(store: &CounterStore, authority: Identity) -> Increment {
    Increment { counter: counter_address(&authority, &store.program_id()).unwrap(), authority }
}

#[test]
fn test_initialize() {
    let mut store = new_store();
    let payer_pubkey = payer();
    let counter_pda = counter_address(&payer_pubkey, &store.program_id()).unwrap();
    let ctx = Initialize { counter: counter_pda, user: payer_pubkey, user_lamports: 5_000 };
    initialize(&mut store, &ctx).unwrap();
    let account = store.get(&counter_pda).unwrap();
    assert_eq!(account.count, 0, "the counter starts at zero");
    assert_eq!(account.authority, payer_pubkey, "the owner is the user");
}

#[test]
fn test_increment() {
    let mut store = new_store();
    let payer_pubkey = payer();
    let counter_pda = counter_address(&payer_pubkey, &store.program_id()).unwrap();
    let ctx = init_ctx(&store, payer_pubkey);
    initialize(&mut store, &ctx).unwrap();
    increment(&mut store, &Increment { counter: counter_pda, authority: payer_pubkey }).unwrap();
    let account = store.get(&counter_pda).unwrap();
    assert_eq!(account.count, 1, "the counter is one");
}

#[test]
fn test_multiple_increments() {
    let mut store = new_store();
    let payer_pubkey = payer();
    let counter_pda = counter_address(&payer_pubkey, &store.program_id()).unwrap();
    let ctx = init_ctx(&store, payer_pubkey);
    initialize(&mut store, &ctx).unwrap();
    for i in 1..=5u64 {
        increment(&mut store, &Increment { counter: counter_pda, authority: payer_pubkey })
            .unwrap();
        let account = store.get(&counter_pda).unwrap();
        assert_eq!(account.count, i, "the counter is {}", i);
    }
}

#[test]
fn test_unauthorized_increment() {
    let mut store = new_store();
    let payer_pubkey = payer();
    let ctx = init_ctx(&store, payer_pubkey);
    initialize(&mut store, &ctx).unwrap();
    let wrong_counter_pda = counter_address(&other_user(), &store.program_id()).unwrap();
    let result =
        increment(&mut store, &Increment { counter: wrong_counter_pda, authority: payer_pubkey });
    assert!(result.is_err(), "an increment at another owner's address fails");
}

#[test]
fn initialize_then_read() {
    let mut store = new_store();
    let u = payer();
    let ctx = init_ctx(&store, u);
    assert_eq!(initialize(&mut store, &ctx), Ok(0));
    let record = store.fetch(&u).unwrap();
    assert_eq!(record.count, 0);
    assert_eq!(record.authority, u);
}

#[test]
fn one_increment_counts_one() {
    let mut store = new_store();
    let u = payer();
    let ctx = init_ctx(&store, u);
    initialize(&mut store, &ctx).unwrap();
    let inc = inc_ctx(&store, u);
    assert_eq!(increment(&mut store, &inc), Ok(1));
    assert_eq!(store.fetch(&u).unwrap().count, 1);
}

#[test]
fn five_increments_count_in_sequence() {
    let mut store = new_store();
    let u = payer();
    let ctx = init_ctx(&store, u);
    initialize(&mut store, &ctx).unwrap();
    let inc = inc_ctx(&store, u);
    let mut seen = Vec::new();
    for _ in 0..5 {
        increment(&mut store, &inc).unwrap();
        seen.push(store.fetch(&u).unwrap().count);
    }
    assert_eq!(seen, vec![1, 2, 3, 4, 5]);
}

#[test]
fn increment_of_absent_owner_fails() {
    let mut store = new_store();
    let u = payer();
    let v = other_user();
    let ctx = init_ctx(&store, u);
    initialize(&mut store, &ctx).unwrap();
    let inc = inc_ctx(&store, v);
    assert_eq!(increment(&mut store, &inc), Err(ErrorCode::NotFound));
    assert_eq!(store.fetch(&u).unwrap().count, 0);
    assert!(store.fetch(&v).is_none());
}

#[test]
fn second_initialize_fails() {
    let mut store = new_store();
    let u = payer();
    let ctx = init_ctx(&store, u);
    initialize(&mut store, &ctx).unwrap();
    let inc = inc_ctx(&store, u);
    increment(&mut store, &inc).unwrap();
    assert_eq!(initialize(&mut store, &ctx), Err(ErrorCode::AlreadyInitialized));
    assert_eq!(store.fetch(&u).unwrap().count, 1);
}

#[test]
fn initialize_at_wrong_address_fails() {
    let mut store = new_store();
    let u = payer();
    let wrong = counter_address(&other_user(), &store.program_id()).unwrap();
    let ctx = Initialize { counter: wrong, user: u, user_lamports: 5_000 };
    assert_eq!(initialize(&mut store, &ctx), Err(ErrorCode::AddressMismatch));
    assert!(store.get(&wrong).is_none());
    assert!(store.fetch(&u).is_none());
}

#[test]
fn initialize_without_funds_fails() {
    let mut store = new_store();
    let u = payer();
    let mut ctx = init_ctx(&store, u);
    ctx.user_lamports = 999;
    assert_eq!(initialize(&mut store, &ctx), Err(ErrorCode::AllocationFailed));
    assert!(store.fetch(&u).is_none());
    ctx.user_lamports = 1_000;
    assert_eq!(initialize(&mut store, &ctx), Ok(0));
}

#[test]
fn increment_by_non_owner_at_owner_address_fails() {
    let mut store = new_store();
    let u = payer();
    let v = other_user();
    let ctx = init_ctx(&store, u);
    initialize(&mut store, &ctx).unwrap();
    let inc = Increment { counter: ctx.counter, authority: v };
    assert_eq!(increment(&mut store, &inc), Err(ErrorCode::AddressMismatch));
    assert_eq!(store.fetch(&u).unwrap().count, 0);
}

#[test]
fn owners_are_kept_apart() {
    let mut store = new_store();
    let u = payer();
    let v = other_user();
    let cu = init_ctx(&store, u);
    let cv = init_ctx(&store, v);
    initialize(&mut store, &cu).unwrap();
    initialize(&mut store, &cv).unwrap();
    let iu = inc_ctx(&store, u);
    let iv = inc_ctx(&store, v);
    for _ in 0..3 {
        increment(&mut store, &iu).unwrap();
    }
    increment(&mut store, &iv).unwrap();
    assert_eq!(store.fetch(&u).unwrap().count, 3);
    assert_eq!(store.fetch(&v).unwrap().count, 1);
    assert_eq!(store.fetch(&v).unwrap().authority, v);
}
