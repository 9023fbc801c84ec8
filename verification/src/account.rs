//! The accounts of the pools, each derived from the exchanges' module id
//! and the pool's id.

use crate::types::{AccountId, ExchangeId};
use sp_runtime::traits::AccountIdConversion;
use vstd::prelude::*;

verus! {

/// The number that the sixteen bytes `"modl"`, then the eight of `module_id`,
/// then the four of `index` with the lowest first, spell when the first byte
/// is the lowest.
pub open spec fn sub_account_id(module_id: Seq<u8>, index: u32) -> AccountId {
    (0x6c64_6f6d + module_id[0] * 0x1_0000_0000 + module_id[1] * 0x100_0000_0000 + module_id[2]
        * 0x1_0000_0000_0000 + module_id[3] * 0x100_0000_0000_0000 + module_id[4]
        * 0x1_0000_0000_0000_0000 + module_id[5] * 0x100_0000_0000_0000_0000 + module_id[6]
        * 0x1_0000_0000_0000_0000_0000 + module_id[7] * 0x100_0000_0000_0000_0000_0000 + index
        * 0x1_0000_0000_0000_0000_0000_0000) as AccountId
}

/// `AccountIdConversion::into_sub_account_truncating` of sp_runtime, called
/// on the `PalletId` of frame_support with these eight bytes, for an account
/// id of sixteen bytes. It encodes the pallet tag `"modl"`, the eight bytes
/// and the index one after the other and decodes the result as the account
/// id; an integer is encoded and decoded with its lowest byte first. The
/// contract states the number that this gives. It is believed, not proved.
#[verifier::external_body]
fn into_sub_account(module_id: [u8; 8], index: u32) -> (account: AccountId)
    ensures
        account == sub_account_id(module_id@, index),
{
    frame_support::PalletId(module_id).into_sub_account_truncating(index)
}

/// The module id of the exchanges, `"zlk_dex1"`.
pub open spec fn module_id() -> Seq<u8> {
    seq![122u8, 108u8, 107u8, 95u8, 100u8, 101u8, 120u8, 49u8]
}

/// The account of the pool with id `exchange_id`.
pub open spec fn account_of(exchange_id: ExchangeId) -> AccountId {
    sub_account_id(module_id(), exchange_id)
}

/// The account that holds the reserves of the pool with id `exchange_id`.
pub fn pool_account(exchange_id: ExchangeId) -> (account: AccountId)
    ensures
        account == account_of(exchange_id),
{
    let tag: [u8; 8] = [122, 108, 107, 95, 100, 101, 120, 49];
    assert(tag@ =~= module_id());
    into_sub_account(tag, exchange_id)
}

/// The account of a pool is the module's own account number plus the pool's
/// id in the four highest bytes.
pub proof fn lemma_account_of(exchange_id: ExchangeId)
    ensures
        account_of(exchange_id) == 0x3178_6564_5f6b_6c7a_6c64_6f6d + exchange_id
            * 0x1_0000_0000_0000_0000_0000_0000,
{
    assert(exchange_id * 0x1_0000_0000_0000_0000_0000_0000 <= 0xffff_ffff
        * 0x1_0000_0000_0000_0000_0000_0000) by (nonlinear_arith)
        requires
            exchange_id <= 0xffff_ffff,
    ;
}

/// Different pools have different accounts.
pub proof fn lemma_accounts_are_distinct(first: ExchangeId, second: ExchangeId)
    requires
        first != second,
    ensures
        account_of(first) != account_of(second),
{
    lemma_account_of(first);
    lemma_account_of(second);
}

} // verus!
