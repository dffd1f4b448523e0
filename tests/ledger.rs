use sstars_ido::error::ErrorCode;
use sstars_ido::merkle_proof::hash_pair;
use sstars_ido::sstars_ido_contract::{
    commit_deposit, deposit, init_user_allocation, init_user_deposit, initialize,
    toggle_freeze_program, unrestricted_phase, DepositPlan,
};
use sstars_ido::state::{AssetKind, IdoAccount, UserAllocation, UserDeposit};
use sstars_ido::whitelist::{hash_leaf, set_whitelist, verify as verify_entry, WhitelistAccount};

const W1: [u8; 32] = [11u8; 32];
const W2: [u8; 32] = [22u8; 32];
const VAULT: [u8; 32] = [5u8; 32];
const MINT: [u8; 32] = [6u8; 32];

struct Depositor {
    wallet: [u8; 32],
    record: UserDeposit,
    allocation: UserAllocation,
}

fn sale(check_whitelist: bool) -> IdoAccount {
    initialize("sale".to_string(), 1, [1u8; 32], MINT, VAULT, 254, check_whitelist).unwrap()
}

fn depositor(ido: &IdoAccount, wallet: [u8; 32]) -> Depositor {
    let mut record = None;
    init_user_deposit(ido, &mut record, wallet, 1_700_000_000).unwrap();
    let mut allocation = None;
    init_user_allocation(&mut allocation).unwrap();
    Depositor { wallet, record: record.unwrap(), allocation: allocation.unwrap() }
}

/// Decides a deposit, and commits it as if its transfer succeeded.
fn run(
    ido: &mut IdoAccount,
    wl: &Option<WhitelistAccount>,
    d: &mut Depositor,
    index: u64,
    cap: u64,
    allocation: u64,
    amount: u64,
    proof: Vec<[u8; 32]>,
) -> Result<DepositPlan, ErrorCode> {
    let plan = deposit(ido, wl, &d.record, &d.allocation, d.wallet, index, cap, allocation, amount, proof)?;
    commit_deposit(ido, &mut d.record, &mut d.allocation, &plan, 1_700_000_100);
    Ok(plan)
}

/// A root over the entries (0, 100, W1) and (1, 50, W2), with their proofs.
fn two_wallet_list() -> ([u8; 32], Vec<[u8; 32]>, Vec<[u8; 32]>) {
    let l1 = hash_leaf(0, 100, &W1);
    let l2 = hash_leaf(1, 50, &W2);
    (hash_pair(&l1, &l2), vec![l2], vec![l1])
}

#[test]
fn initialize_pads_the_name() {
    let ido = sale(true);
    assert_eq!(&ido.ido_name, b"sale      ");
    assert_eq!(ido.total_amount, 0);
    assert!(!ido.freeze_program);
    assert!(ido.check_whitelist);
    assert_eq!(ido.nonce, 254);
    assert_eq!(ido.token_type, 1);
    assert_eq!(ido.service_vault, VAULT);
    let full = initialize("abcdefghij".to_string(), 0, [1u8; 32], MINT, VAULT, 1, false).unwrap();
    assert_eq!(&full.ido_name, b"abcdefghij");
}

#[test]
fn initialize_refuses_long_name() {
    let r = initialize("abcdefghijk".to_string(), 0, [1u8; 32], MINT, VAULT, 1, false);
    assert_eq!(r.err(), Some(ErrorCode::InvalidArgument));
}

#[test]
fn toggle_twice_restores_state() {
    let mut ido = sale(false);
    toggle_freeze_program(&mut ido);
    assert!(ido.freeze_program);
    assert_eq!(unrestricted_phase(&ido), Err(ErrorCode::SaleFrozen));
    toggle_freeze_program(&mut ido);
    assert!(!ido.freeze_program);
    assert_eq!(unrestricted_phase(&ido), Ok(()));
}

#[test]
fn records_are_opened_once() {
    let ido = sale(false);
    let mut record = None;
    assert_eq!(init_user_deposit(&ido, &mut record, W1, 42), Ok(()));
    let r = record.unwrap();
    assert_eq!((r.authority, r.amount, r.started_at, r.updated_at), (W1, 0, 42, 42));
    assert_eq!(init_user_deposit(&ido, &mut record, W1, 43), Err(ErrorCode::AlreadyExists));
    assert_eq!(record.unwrap().started_at, 42);
    let mut allocation = None;
    assert_eq!(init_user_allocation(&mut allocation), Ok(()));
    assert_eq!(allocation, Some(UserAllocation { allocation_amount: 0 }));
    assert_eq!(init_user_allocation(&mut allocation), Err(ErrorCode::AlreadyExists));
}

#[test]
fn deposit_record_refused_while_frozen() {
    let mut ido = sale(false);
    toggle_freeze_program(&mut ido);
    let mut record = None;
    assert_eq!(init_user_deposit(&ido, &mut record, W1, 42), Err(ErrorCode::SaleFrozen));
    assert!(record.is_none());
}

#[test]
fn whitelisted_sale_end_to_end() {
    let mut ido = sale(true);
    let (root, p1, _p2) = two_wallet_list();
    let mut wl = None;
    set_whitelist(&mut wl, root);
    let mut d1 = depositor(&ido, W1);
    let mut d2 = depositor(&ido, W2);

    let plan = run(&mut ido, &wl, &mut d1, 0, 100, 40, 40, p1.clone()).unwrap();
    assert_eq!(plan.transfer.amount, 40);
    assert_eq!(plan.transfer.destination, VAULT);
    assert_eq!(plan.transfer.asset, AssetKind::Token);
    assert_eq!(ido.total_amount, 40);
    assert_eq!(d1.allocation.allocation_amount, 40);
    assert_eq!(d1.record.amount, 40);
    assert_eq!(d1.record.updated_at, 1_700_000_100);
    assert_eq!(d1.record.started_at, 1_700_000_000);

    assert_eq!(run(&mut ido, &wl, &mut d1, 0, 100, 70, 70, p1.clone()), Err(ErrorCode::InvalidAmount));
    assert_eq!(d1.allocation.allocation_amount, 40);
    assert_eq!(ido.total_amount, 40);

    assert_eq!(run(&mut ido, &wl, &mut d2, 0, 100, 10, 10, p1.clone()), Err(ErrorCode::InvalidProof));
    assert_eq!(d2.allocation.allocation_amount, 0);
    assert_eq!(ido.total_amount, 40);
}

#[test]
fn cap_prefix_sums_decide_admission() {
    let mut ido = sale(false);
    let wl = None;
    let mut d = depositor(&ido, W1);
    let cap = 100;
    assert!(run(&mut ido, &wl, &mut d, 0, cap, 30, 1, vec![]).is_ok());
    assert!(run(&mut ido, &wl, &mut d, 0, cap, 30, 1, vec![]).is_ok());
    assert!(run(&mut ido, &wl, &mut d, 0, cap, 40, 1, vec![]).is_ok());
    assert_eq!(d.allocation.allocation_amount, 100);
    assert_eq!(run(&mut ido, &wl, &mut d, 0, cap, 1, 1, vec![]), Err(ErrorCode::InvalidAmount));
    assert_eq!(d.allocation.allocation_amount, 100);
    assert!(run(&mut ido, &wl, &mut d, 0, cap, 0, 1, vec![]).is_ok());
    assert_eq!(ido.total_amount, 4);
}

#[test]
fn transfer_and_allocation_are_independent() {
    let mut ido = sale(false);
    let wl = None;
    let mut d = depositor(&ido, W1);
    let plan = run(&mut ido, &wl, &mut d, 0, 10, 3, 500, vec![]).unwrap();
    assert_eq!(plan.transfer.amount, 500);
    assert_eq!(plan.allocation_amount, 3);
    assert_eq!(d.allocation.allocation_amount, 3);
    assert_eq!(d.record.amount, 500);
    assert_eq!(ido.total_amount, 500);
}

#[test]
fn total_overflow_is_refused() {
    let mut ido = sale(false);
    ido.total_amount = u64::MAX - 5;
    let wl = None;
    let mut d = depositor(&ido, W1);
    assert_eq!(run(&mut ido, &wl, &mut d, 0, 100, 1, 6, vec![]), Err(ErrorCode::ArithmeticOverflow));
    assert_eq!(ido.total_amount, u64::MAX - 5);
    assert_eq!(d.allocation.allocation_amount, 0);
    assert!(run(&mut ido, &wl, &mut d, 0, 100, 1, 5, vec![]).is_ok());
    assert_eq!(ido.total_amount, u64::MAX);
}

#[test]
fn user_amount_overflow_is_refused() {
    let mut ido = sale(false);
    let wl = None;
    let mut d = depositor(&ido, W1);
    d.record.amount = u64::MAX;
    assert_eq!(run(&mut ido, &wl, &mut d, 0, 100, 1, 1, vec![]), Err(ErrorCode::ArithmeticOverflow));
    assert_eq!(d.record.amount, u64::MAX);
}

#[test]
fn allocation_overflow_is_refused() {
    let mut ido = sale(false);
    let wl = None;
    let mut d = depositor(&ido, W1);
    d.allocation.allocation_amount = u64::MAX;
    assert_eq!(
        run(&mut ido, &wl, &mut d, 0, u64::MAX, 1, 1, vec![]),
        Err(ErrorCode::ArithmeticOverflow)
    );
    assert_eq!(d.allocation.allocation_amount, u64::MAX);
}

#[test]
fn frozen_sale_refuses_then_resumes() {
    let mut ido = sale(true);
    let (root, p1, _) = two_wallet_list();
    let mut wl = None;
    set_whitelist(&mut wl, root);
    let mut d1 = depositor(&ido, W1);
    toggle_freeze_program(&mut ido);
    assert_eq!(run(&mut ido, &wl, &mut d1, 0, 100, 10, 10, p1.clone()), Err(ErrorCode::SaleFrozen));
    assert_eq!(run(&mut ido, &wl, &mut d1, 0, 100, 10, 10, vec![]), Err(ErrorCode::SaleFrozen));
    assert_eq!(d1.allocation.allocation_amount, 0);
    toggle_freeze_program(&mut ido);
    assert!(run(&mut ido, &wl, &mut d1, 0, 100, 10, 10, p1).is_ok());
    assert_eq!(d1.allocation.allocation_amount, 10);
}

#[test]
fn admin_paths_not_gated_by_freeze() {
    let mut ido = sale(true);
    let (root, _, p2) = two_wallet_list();
    toggle_freeze_program(&mut ido);
    let mut wl = None;
    set_whitelist(&mut wl, root);
    assert_eq!(verify_entry(&wl, 1, 50, W2, p2), Ok(()));
    toggle_freeze_program(&mut ido);
    assert!(!ido.freeze_program);
}

#[test]
fn missing_root_is_not_found() {
    let mut ido = sale(true);
    let (_, p1, _) = two_wallet_list();
    let wl = None;
    let mut d1 = depositor(&ido, W1);
    assert_eq!(run(&mut ido, &wl, &mut d1, 0, 100, 10, 10, p1), Err(ErrorCode::NotFound));
}

#[test]
fn unchecked_sale_still_enforces_cap() {
    let mut ido = sale(false);
    let wl = None;
    let mut d = depositor(&ido, W1);
    assert_eq!(run(&mut ido, &wl, &mut d, 9, 5, 6, 1, vec![[1u8; 32]]), Err(ErrorCode::InvalidAmount));
    assert!(run(&mut ido, &wl, &mut d, 9, 5, 5, 1, vec![[1u8; 32]]).is_ok());
}

#[test]
fn record_owner_must_match() {
    let mut ido = sale(false);
    let wl = None;
    let mut d = depositor(&ido, W1);
    d.wallet = W2;
    assert_eq!(run(&mut ido, &wl, &mut d, 0, 5, 1, 1, vec![]), Err(ErrorCode::PermissionError));
}

#[test]
fn native_mint_selects_native_transfer() {
    let native = spl_token::native_mint::id().to_bytes();
    let mut ido = initialize("sol".to_string(), 0, [1u8; 32], native, VAULT, 1, false).unwrap();
    assert_eq!(ido.asset_kind(), AssetKind::Native);
    let wl = None;
    let mut d = depositor(&ido, W1);
    let plan = run(&mut ido, &wl, &mut d, 0, 5, 1, 9, vec![]).unwrap();
    assert_eq!(plan.transfer.asset, AssetKind::Native);
    assert_eq!(sale(false).asset_kind(), AssetKind::Token);
}

#[test]
fn error_messages() {
    assert_eq!(ErrorCode::InvalidProof.message(), "Invalid proof");
    assert_eq!(ErrorCode::InvalidAmount.message(), "Invalid amount");
    assert_eq!(ErrorCode::IDONotStarted.message(), "IDO has not started, E1001");
}

#[test]
fn record_sizes() {
    assert_eq!(IdoAccount::LEN, 118);
    assert_eq!(UserDeposit::LEN, 56);
    assert_eq!(UserAllocation::LEN, 8);
    assert_eq!(WhitelistAccount::LEN, 32);
}

#[test]
fn second_deposit_record_on_frozen_sale_already_exists() {
    let mut ido = sale(false);
    let mut record = None;
    assert_eq!(init_user_deposit(&ido, &mut record, W1, 42), Ok(()));
    toggle_freeze_program(&mut ido);
    assert_eq!(init_user_deposit(&ido, &mut record, W1, 43), Err(ErrorCode::AlreadyExists));
    let r = record.unwrap();
    assert_eq!((r.authority, r.amount, r.started_at, r.updated_at), (W1, 0, 42, 42));
}
