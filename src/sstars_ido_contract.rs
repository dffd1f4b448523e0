//! The sale's operations. Each one checks everything before it changes a
//! record; a refused operation changes nothing.
use crate::error::ErrorCode;
use crate::merkle_proof;
use crate::state::{asset_kind_of, AssetKind, IdoAccount, UserAllocation, UserDeposit, NAME_LEN};
use crate::whitelist::{entry_proven, root_of, verify_merkle, WhitelistAccount};
use vstd::prelude::*;
use vstd::utf8::encode_utf8;

verus! {

/// A sale name padded with spaces to ten bytes.
pub open spec fn padded_name(name: Seq<u8>) -> Seq<u8> {
    name + Seq::new((10 - name.len()) as nat, |_i: int| 32u8)
}

/// The configuration of a new sale: nothing deposited, not frozen.
pub open spec fn initialized_sale(
    name: Seq<u8>,
    token_type: u8,
    ido_authority: [u8; 32],
    token_mint: [u8; 32],
    service_vault: [u8; 32],
    nonce: u8,
    check_whitelist: bool,
    r: IdoAccount,
) -> bool {
    &&& r.ido_name@ == padded_name(name)
    &&& r.token_type == token_type
    &&& r.ido_authority == ido_authority
    &&& r.token_mint == token_mint
    &&& r.service_vault == service_vault
    &&& r.total_amount == 0
    &&& r.nonce == nonce
    &&& !r.freeze_program
    &&& r.check_whitelist == check_whitelist
}

/// Creates a sale. A name over ten bytes is refused with `InvalidArgument`.
pub fn initialize(
    ido_name: String,
    token_type: u8,
    ido_authority: [u8; 32],
    token_mint: [u8; 32],
    service_vault: [u8; 32],
    nonce: u8,
    check_whitelist: bool,
) -> (r: Result<IdoAccount, ErrorCode>)
    ensures
        match r {
            Ok(ido) => encode_utf8(ido_name@).len() <= 10 && initialized_sale(
                encode_utf8(ido_name@),
                token_type,
                ido_authority,
                token_mint,
                service_vault,
                nonce,
                check_whitelist,
                ido,
            ),
            Err(e) => encode_utf8(ido_name@).len() > 10 && e == ErrorCode::InvalidArgument,
        },
{
    let name_bytes = ido_name.as_str().as_bytes();
    if name_bytes.len() > NAME_LEN {
        return Err(ErrorCode::InvalidArgument);
    }
    let mut name_data: [u8; 10] = [32u8; 10];
    let mut i: usize = 0;
    while i < name_bytes.len()
        invariant
            0 <= i <= name_bytes@.len() <= 10,
            name_data@.len() == 10,
            forall|j: int| 0 <= j < i ==> name_data@[j] == name_bytes@[j],
            forall|j: int| name_bytes@.len() <= j < 10 ==> name_data@[j] == 32u8,
        decreases name_bytes@.len() - i,
    {
        name_data[i] = name_bytes[i];
        i = i + 1;
    }
    assert(name_data@ =~= padded_name(name_bytes@));
    Ok(
        IdoAccount {
            ido_name: name_data,
            token_type,
            ido_authority,
            token_mint,
            service_vault,
            total_amount: 0,
            check_whitelist,
            freeze_program: false,
            nonce,
        },
    )
}

/// The sale with its freeze switch flipped.
pub open spec fn toggled(ido: IdoAccount) -> IdoAccount {
    IdoAccount { freeze_program: !ido.freeze_program, ..ido }
}

/// Flips the sale's freeze switch: a frozen sale accepts no deposits.
pub fn toggle_freeze_program(ido_account: &mut IdoAccount)
    ensures
        *final(ido_account) == toggled(*old(ido_account)),
{
    ido_account.freeze_program = !ido_account.freeze_program;
}

/// Toggling the freeze switch twice restores the sale exactly, so deposits
/// behave afterwards as they did before.
pub proof fn lemma_toggle_twice(ido: IdoAccount)
    ensures
        toggled(toggled(ido)) == ido,
{
}

/// Refuses with `SaleFrozen` while the sale is frozen.
pub fn unrestricted_phase(ido_account: &IdoAccount) -> (r: Result<(), ErrorCode>)
    ensures
        r == (if ido_account.freeze_program {
            Err(ErrorCode::SaleFrozen)
        } else {
            Ok(())
        }),
{
    if ido_account.freeze_program {
        return Err(ErrorCode::SaleFrozen);
    }
    Ok(())
}

/// Opens a depositor's deposit record at time `now_ts`. Refused where the
/// record exists already, and otherwise while the sale is frozen.
pub fn init_user_deposit(
    ido_account: &IdoAccount,
    user_deposit: &mut Option<UserDeposit>,
    user_authority: [u8; 32],
    now_ts: i64,
) -> (r: Result<(), ErrorCode>)
    ensures
        r == (if old(user_deposit).is_some() {
            Err(ErrorCode::AlreadyExists)
        } else if ido_account.freeze_program {
            Err(ErrorCode::SaleFrozen)
        } else {
            Ok(())
        }),
        r.is_ok() ==> *final(user_deposit) == Some(
            UserDeposit {
                authority: user_authority,
                amount: 0,
                started_at: now_ts as u64,
                updated_at: now_ts as u64,
            },
        ),
        r.is_err() ==> *final(user_deposit) == *old(user_deposit),
{
    if user_deposit.is_some() {
        return Err(ErrorCode::AlreadyExists);
    }
    unrestricted_phase(ido_account)?;
    *user_deposit = Some(
        UserDeposit {
            authority: user_authority,
            amount: 0,
            started_at: now_ts as u64,
            updated_at: now_ts as u64,
        },
    );
    Ok(())
}

/// Opens a depositor's allocation record. Refused where it exists already.
pub fn init_user_allocation(user_allocation: &mut Option<UserAllocation>) -> (r: Result<
    (),
    ErrorCode,
>)
    ensures
        r == (if old(user_allocation).is_some() {
            Err(ErrorCode::AlreadyExists)
        } else {
            Ok(())
        }),
        r.is_ok() ==> *final(user_allocation) == Some(UserAllocation { allocation_amount: 0 }),
        r.is_err() ==> *final(user_allocation) == *old(user_allocation),
{
    if user_allocation.is_some() {
        return Err(ErrorCode::AlreadyExists);
    }
    *user_allocation = Some(UserAllocation { allocation_amount: 0 });
    Ok(())
}

/// A transfer of `amount` into the sale's vault, which the caller carries out.
#[derive(Debug, Clone, Copy, PartialEq, Eq)]
pub struct Transfer {
    pub asset: AssetKind,
    pub destination: [u8; 32],
    pub amount: u64,
}

/// An admitted deposit: the transfer to make, and the counters to commit once
/// it has succeeded.
#[derive(Debug, Clone, Copy, PartialEq, Eq)]
pub struct DepositPlan {
    pub transfer: Transfer,
    pub total_amount: u64,
    pub user_amount: u64,
    pub allocation_amount: u64,
}

/// `a + b`, or `ArithmeticOverflow` where the sum does not fit in 64 bits.
pub open spec fn checked_sum(a: u64, b: u64) -> Result<u64, ErrorCode> {
    if a + b > u64::MAX {
        Err(ErrorCode::ArithmeticOverflow)
    } else {
        Ok((a + b) as u64)
    }
}

/// The allocation after adding `requested` to `current` under the cap `cap`.
pub open spec fn cap_step(current: u64, requested: u64, cap: u64) -> Result<u64, ErrorCode> {
    match checked_sum(current, requested) {
        Err(e) => Err(e),
        Ok(n) => if n <= cap {
            Ok(n)
        } else {
            Err(ErrorCode::InvalidAmount)
        },
    }
}

/// Where the sale requires it, the claim that `wallet` has cap `cap` must be
/// proven against the published root.
pub open spec fn whitelist_gate(
    ido: IdoAccount,
    whitelist: Option<WhitelistAccount>,
    index: u64,
    cap: u64,
    wallet: Seq<u8>,
    proof: Seq<[u8; 32]>,
) -> Result<(), ErrorCode> {
    if !ido.check_whitelist {
        Ok(())
    } else {
        match root_of(whitelist) {
            Err(e) => Err(e),
            Ok(root) => if entry_proven(index, cap, wallet, proof, root) {
                Ok(())
            } else {
                Err(ErrorCode::InvalidProof)
            },
        }
    }
}

/// What a deposit request comes to: the first check that fails, in the order
/// freeze switch, record owner, allow-list proof, cap, running totals; or the
/// plan of an admitted deposit.
pub open spec fn deposit_outcome(
    ido: IdoAccount,
    whitelist: Option<WhitelistAccount>,
    user_deposit: UserDeposit,
    user_allocation: UserAllocation,
    user_authority: Seq<u8>,
    index: u64,
    max_allocation_amount: u64,
    allocation_amount: u64,
    amount: u64,
    proof: Seq<[u8; 32]>,
) -> Result<DepositPlan, ErrorCode> {
    if ido.freeze_program {
        Err(ErrorCode::SaleFrozen)
    } else if user_deposit.authority@ != user_authority {
        Err(ErrorCode::PermissionError)
    } else {
        match whitelist_gate(ido, whitelist, index, max_allocation_amount, user_authority, proof) {
            Err(e) => Err(e),
            Ok(_) => match cap_step(
                user_allocation.allocation_amount,
                allocation_amount,
                max_allocation_amount,
            ) {
                Err(e) => Err(e),
                Ok(new_allocation) => match checked_sum(ido.total_amount, amount) {
                    Err(e) => Err(e),
                    Ok(new_total) => match checked_sum(user_deposit.amount, amount) {
                        Err(e) => Err(e),
                        Ok(new_user_amount) => Ok(
                            DepositPlan {
                                transfer: Transfer {
                                    asset: asset_kind_of(ido.token_mint@),
                                    destination: ido.service_vault,
                                    amount,
                                },
                                total_amount: new_total,
                                user_amount: new_user_amount,
                                allocation_amount: new_allocation,
                            },
                        ),
                    },
                },
            },
        }
    }
}

fn checked_add_u64(a: u64, b: u64) -> (r: Result<u64, ErrorCode>)
    ensures
        r == checked_sum(a, b),
{
    let wide: u128 = (a as u128) + (b as u128);
    if wide > u64::MAX as u128 {
        Err(ErrorCode::ArithmeticOverflow)
    } else {
        Ok(wide as u64)
    }
}

/// Decides a deposit of `amount` by `user_authority`, counting
/// `allocation_amount` against the cap `max_allocation_amount` that the
/// allow-list entry `(index, max_allocation_amount, user_authority)` proves.
/// The transfer amount and the allocation amount are independent. Nothing is
/// changed here: an admitted deposit yields the transfer to make and, once it
/// has succeeded, the counters that `commit_deposit` writes.
pub fn deposit(
    ido_account: &IdoAccount,
    whitelist_account: &Option<WhitelistAccount>,
    user_deposit: &UserDeposit,
    user_allocation: &UserAllocation,
    user_authority: [u8; 32],
    index: u64,
    max_allocation_amount: u64,
    allocation_amount: u64,
    amount: u64,
    proof: Vec<[u8; 32]>,
) -> (r: Result<DepositPlan, ErrorCode>)
    ensures
        r == deposit_outcome(
            *ido_account,
            *whitelist_account,
            *user_deposit,
            *user_allocation,
            user_authority@,
            index,
            max_allocation_amount,
            allocation_amount,
            amount,
            proof@,
        ),
{
    unrestricted_phase(ido_account)?;
    if !merkle_proof::bytes_eq(&user_deposit.authority, &user_authority) {
        return Err(ErrorCode::PermissionError);
    }
    if ido_account.check_whitelist {
        match whitelist_account {
            None => {
                return Err(ErrorCode::NotFound);
            },
            Some(w) => {
                if !verify_merkle(index, max_allocation_amount, user_authority, proof, w.root) {
                    return Err(ErrorCode::InvalidProof);
                }
            },
        }
    }
    let total_allocation_amount = checked_add_u64(
        user_allocation.allocation_amount,
        allocation_amount,
    )?;
    if max_allocation_amount < total_allocation_amount {
        return Err(ErrorCode::InvalidAmount);
    }
    let total_amount = checked_add_u64(ido_account.total_amount, amount)?;
    let user_amount = checked_add_u64(user_deposit.amount, amount)?;
    Ok(
        DepositPlan {
            transfer: Transfer {
                asset: ido_account.asset_kind(),
                destination: ido_account.service_vault,
                amount,
            },
            total_amount,
            user_amount,
            allocation_amount: total_allocation_amount,
        },
    )
}

/// Writes the counters of an admitted deposit after its transfer succeeded,
/// stamping the depositor's record with `now_ts`.
pub fn commit_deposit(
    ido_account: &mut IdoAccount,
    user_deposit: &mut UserDeposit,
    user_allocation: &mut UserAllocation,
    plan: &DepositPlan,
    now_ts: i64,
)
    ensures
        *final(ido_account) == (IdoAccount { total_amount: plan.total_amount, ..*old(ido_account) }),
        *final(user_deposit) == (UserDeposit {
            amount: plan.user_amount,
            updated_at: now_ts as u64,
            ..*old(user_deposit)
        }),
        *final(user_allocation) == (UserAllocation { allocation_amount: plan.allocation_amount }),
{
    ido_account.total_amount = plan.total_amount;
    user_deposit.updated_at = now_ts as u64;
    user_deposit.amount = plan.user_amount;
    user_allocation.allocation_amount = plan.allocation_amount;
}

/// The sum of the first `n` amounts of `a`.
pub open spec fn prefix_sum(a: Seq<u64>, n: int) -> int
    decreases n,
{
    if n <= 0 {
        0
    } else {
        prefix_sum(a, n - 1) + a[n - 1]
    }
}

/// A depositor's allocation after requests for the amounts `a`, in turn,
/// against the cap `cap`, starting from an empty allocation; a refused request
/// leaves it as it was.
pub open spec fn allocation_after(a: Seq<u64>, cap: u64) -> u64
    decreases a.len(),
{
    if a.len() == 0 {
        0
    } else {
        let prev = allocation_after(a.drop_last(), cap);
        match cap_step(prev, a.last(), cap) {
            Ok(n) => n,
            Err(_) => prev,
        }
    }
}

/// After requests that were all admitted, the allocation is their sum; the
/// next request is admitted exactly when the new sum stays within the cap.
/// Where it does not, and the sum still fits in 64 bits, it is refused with
/// `InvalidAmount` and the allocation stays as it was.
pub proof fn lemma_cap_monotonic(a: Seq<u64>, cap: u64, i: int)
    requires
        0 <= i < a.len(),
        forall|j: int| 1 <= j <= i ==> #[trigger] prefix_sum(a, j) <= cap,
    ensures
        allocation_after(a.take(i), cap) == prefix_sum(a, i),
        cap_step(allocation_after(a.take(i), cap), a[i], cap).is_ok() <==> prefix_sum(a, i + 1)
            <= cap,
        prefix_sum(a, i + 1) > cap && prefix_sum(a, i + 1) <= u64::MAX ==> cap_step(
            allocation_after(a.take(i), cap),
            a[i],
            cap,
        ) == Err::<u64, ErrorCode>(ErrorCode::InvalidAmount),
        prefix_sum(a, i + 1) > cap ==> allocation_after(a.take(i + 1), cap) == allocation_after(
            a.take(i),
            cap,
        ),
    decreases i,
{
    let prev = allocation_after(a.take(i), cap);
    if i > 0 {
        lemma_cap_monotonic(a, cap, i - 1);
        let before = allocation_after(a.take(i - 1), cap);
        assert(a.take(i).drop_last() =~= a.take(i - 1));
        assert(a.take(i).last() == a[i - 1]);
        assert(prefix_sum(a, i) == prefix_sum(a, i - 1) + a[i - 1]);
        assert(prefix_sum(a, i) <= cap);
        assert(cap_step(before, a[i - 1], cap) == Ok::<u64, ErrorCode>(prefix_sum(a, i) as u64));
        assert(prev == prefix_sum(a, i));
    } else {
        assert(a.take(0) =~= Seq::<u64>::empty());
        assert(prev == 0);
    }
    assert(prefix_sum(a, i + 1) == prefix_sum(a, i) + a[i]);
    assert(a.take(i + 1).drop_last() =~= a.take(i));
    assert(a.take(i + 1).last() == a[i]);
    if prefix_sum(a, i + 1) <= cap {
        assert(cap_step(prev, a[i], cap) == Ok::<u64, ErrorCode>(prefix_sum(a, i + 1) as u64));
    } else if prefix_sum(a, i + 1) <= u64::MAX {
        assert(cap_step(prev, a[i], cap) == Err::<u64, ErrorCode>(ErrorCode::InvalidAmount));
    } else {
        assert(cap_step(prev, a[i], cap) == Err::<u64, ErrorCode>(ErrorCode::ArithmeticOverflow));
    }
}

/// A deposit that passes the freeze switch, the owner check and the allow-list
/// check, and whose running totals fit in 64 bits, is admitted exactly when
/// the new allocation stays within the proven cap, and then records that
/// allocation.
pub proof fn lemma_deposit_cap(
    ido: IdoAccount,
    whitelist: Option<WhitelistAccount>,
    user_deposit: UserDeposit,
    user_allocation: UserAllocation,
    user_authority: Seq<u8>,
    index: u64,
    max_allocation_amount: u64,
    allocation_amount: u64,
    amount: u64,
    proof: Seq<[u8; 32]>,
)
    requires
        !ido.freeze_program,
        user_deposit.authority@ == user_authority,
        whitelist_gate(ido, whitelist, index, max_allocation_amount, user_authority, proof).is_ok(),
        ido.total_amount + amount <= u64::MAX,
        user_deposit.amount + amount <= u64::MAX,
    ensures
        ({
            let r = deposit_outcome(
                ido,
                whitelist,
                user_deposit,
                user_allocation,
                user_authority,
                index,
                max_allocation_amount,
                allocation_amount,
                amount,
                proof,
            );
            &&& r.is_ok() <==> user_allocation.allocation_amount + allocation_amount
                <= max_allocation_amount
            &&& r.is_ok() ==> r->Ok_0.allocation_amount == user_allocation.allocation_amount
                + allocation_amount
            &&& r.is_err() ==> r == Err::<DepositPlan, ErrorCode>(ErrorCode::InvalidAmount)
                || r == Err::<DepositPlan, ErrorCode>(ErrorCode::ArithmeticOverflow)
        }),
{
}

/// A frozen sale refuses every deposit with `SaleFrozen`, whatever the proof and the cap.
pub proof fn lemma_frozen_refuses(
    ido: IdoAccount,
    whitelist: Option<WhitelistAccount>,
    user_deposit: UserDeposit,
    user_allocation: UserAllocation,
    user_authority: Seq<u8>,
    index: u64,
    max_allocation_amount: u64,
    allocation_amount: u64,
    amount: u64,
    proof: Seq<[u8; 32]>,
)
    requires
        ido.freeze_program,
    ensures
        deposit_outcome(
            ido,
            whitelist,
            user_deposit,
            user_allocation,
            user_authority,
            index,
            max_allocation_amount,
            allocation_amount,
            amount,
            proof,
        ) == Err::<DepositPlan, ErrorCode>(ErrorCode::SaleFrozen),
{
}

/// A deposit whose amount would carry the sale's running total past 64 bits is
/// refused with `ArithmeticOverflow` wherever the earlier checks pass.
pub proof fn lemma_total_overflow_refused(
    ido: IdoAccount,
    whitelist: Option<WhitelistAccount>,
    user_deposit: UserDeposit,
    user_allocation: UserAllocation,
    user_authority: Seq<u8>,
    index: u64,
    max_allocation_amount: u64,
    allocation_amount: u64,
    amount: u64,
    proof: Seq<[u8; 32]>,
)
    requires
        !ido.freeze_program,
        user_deposit.authority@ == user_authority,
        whitelist_gate(ido, whitelist, index, max_allocation_amount, user_authority, proof).is_ok(),
        cap_step(user_allocation.allocation_amount, allocation_amount, max_allocation_amount).is_ok(),
        ido.total_amount + amount > u64::MAX,
    ensures
        deposit_outcome(
            ido,
            whitelist,
            user_deposit,
            user_allocation,
            user_authority,
            index,
            max_allocation_amount,
            allocation_amount,
            amount,
            proof,
        ) == Err::<DepositPlan, ErrorCode>(ErrorCode::ArithmeticOverflow),
{
}

} // verus!
