//! The sale's records: its configuration, and each depositor's deposit and
//! allocation counters.
use vstd::prelude::*;

verus! {

/// Capacity of a sale name, in bytes.
pub const NAME_LEN: usize = 10;

/// The key of the wrapped native asset's mint.
pub open spec fn native_mint_key() -> Seq<u8> {
    seq![
        6u8, 155u8, 136u8, 87u8, 254u8, 171u8, 129u8, 132u8, 251u8, 104u8, 127u8, 99u8, 70u8,
        24u8, 192u8, 53u8, 218u8, 196u8, 57u8, 220u8, 26u8, 235u8, 59u8, 85u8, 152u8, 160u8,
        240u8, 0u8, 0u8, 0u8, 0u8, 1u8,
    ]
}

/// Relies on `spl_token::native_mint::id`: the key of the native mint,
/// `So11111111111111111111111111111111111111112` in base 58.
#[verifier::external_body]
fn native_mint_id() -> (r: [u8; 32])
    ensures
        r@ == native_mint_key(),
{
    spl_token::native_mint::id().to_bytes()
}

/// How deposits of a sale move value: as the native asset, or as a token of its mint.
#[derive(Debug, Clone, Copy, PartialEq, Eq, Structural)]
pub enum AssetKind {
    Native,
    Token,
}

/// The asset kind of a sale whose mint is `mint`.
pub open spec fn asset_kind_of(mint: Seq<u8>) -> AssetKind {
    if mint == native_mint_key() {
        AssetKind::Native
    } else {
        AssetKind::Token
    }
}

/// Configuration and running total of one sale.
#[derive(Debug, Clone, Copy)]
pub struct IdoAccount {
    /// The sale's name, padded with spaces to ten bytes.
    pub ido_name: [u8; 10],
    pub token_type: u8,
    pub ido_authority: [u8; 32],
    pub token_mint: [u8; 32],
    pub service_vault: [u8; 32],
    /// The sum of all committed deposit amounts.
    pub total_amount: u64,
    pub check_whitelist: bool,
    pub freeze_program: bool,
    pub nonce: u8,
}

impl IdoAccount {
    /// Size of the record's fields, in bytes.
    pub const LEN: usize = 118;

    /// Whether deposits move the native asset or a token.
    pub fn asset_kind(&self) -> (r: AssetKind)
        ensures
            r == asset_kind_of(self.token_mint@),
    {
        let native = native_mint_id();
        let mut i: usize = 0;
        while i < 32
            invariant
                0 <= i <= 32,
                native@ == native_mint_key(),
                self.token_mint@.len() == 32,
                forall|j: int| 0 <= j < i ==> self.token_mint@[j] == native@[j],
            decreases 32 - i,
        {
            if self.token_mint[i] != native[i] {
                return AssetKind::Token;
            }
            i = i + 1;
        }
        assert(self.token_mint@ =~= native@);
        AssetKind::Native
    }
}

/// A depositor's running deposit total in one sale.
#[derive(Debug, Clone, Copy)]
pub struct UserDeposit {
    pub authority: [u8; 32],
    /// The sum of the amounts of the depositor's committed deposits.
    pub amount: u64,
    pub started_at: u64,
    pub updated_at: u64,
}

impl UserDeposit {
    /// Size of the record's fields, in bytes.
    pub const LEN: usize = 56;
}

/// The part of a depositor's cap used so far in one sale.
#[derive(Debug, Clone, Copy, PartialEq, Eq, Structural)]
pub struct UserAllocation {
    pub allocation_amount: u64,
}

impl UserAllocation {
    /// Size of the record's fields, in bytes.
    pub const LEN: usize = 8;
}

} // verus!
