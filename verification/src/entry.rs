//! The fixed-width record holding one epoch's metrics snapshot.
//!
//! Every field uses its type's maximum representable value as the "not yet
//! observed" sentinel, so a freshly constructed record is all-ones. Callers
//! must never supply an observed value equal to a field's sentinel.

use vstd::prelude::*;

verus! {

/// Software release identifier of the validator's client.
#[derive(Clone, Copy, PartialEq, Eq)]
pub struct ClientVersion {
    pub major: u8,
    pub minor: u8,
    pub patch: u16,
}

/// One epoch's metrics snapshot, fixed width, with an explicit "unset"
/// sentinel (the type's maximum value) per field.
#[derive(Clone, Copy, PartialEq, Eq)]
pub struct ValidatorHistoryEntry {
    pub activated_stake_lamports: u64,
    /// Epoch index; `u16::MAX` means "unset", so observed epochs stay below it.
    pub epoch: u16,
    /// MEV commission in basis points.
    pub mev_commission: u16,
    /// Successful votes accumulated in this epoch. Not final until the
    /// subsequent epoch's data arrives.
    pub epoch_credits: u32,
    /// Validator commission in percentage points.
    pub commission: u8,
    /// 0 for the reference client, 1 for the MEV client, greater for others.
    pub client_type: u8,
    pub version: ClientVersion,
    /// IPv4 address; all-ones is the "unset" marker, not a routable address.
    pub ip: [u8; 4],
    /// Keeps 8-byte alignment of the serialized layout.
    pub padding0: u8,
    /// 0 if not a superminority validator, 1 if superminority; any other
    /// value means "unknown".
    pub is_superminority: u8,
    /// Rank of the validator by stake amount.
    pub rank: u32,
    /// Most recently seen slot for commission and epoch-credits updates.
    pub vote_account_last_update_slot: u64,
    /// Reserved space keeping the serialized record width stable.
    pub padding1: [u8; 88],
}

/// The all-sentinel record: every field at its type's maximum value.
pub open spec fn unset_entry() -> ValidatorHistoryEntry {
    ValidatorHistoryEntry {
        activated_stake_lamports: u64::MAX,
        epoch: u16::MAX,
        mev_commission: u16::MAX,
        epoch_credits: u32::MAX,
        commission: u8::MAX,
        client_type: u8::MAX,
        version: ClientVersion { major: u8::MAX, minor: u8::MAX, patch: u16::MAX },
        ip: vstd::array::spec_array_fill_for_copy_type::<u8, 4>(u8::MAX),
        padding0: u8::MAX,
        is_superminority: u8::MAX,
        rank: u32::MAX,
        vote_account_last_update_slot: u64::MAX,
        padding1: vstd::array::spec_array_fill_for_copy_type::<u8, 88>(u8::MAX),
    }
}

impl Default for ValidatorHistoryEntry {
    /// A fresh record with every field equal to its sentinel.
    fn default() -> (e: Self)
        ensures
            e == unset_entry(),
    {
        ValidatorHistoryEntry {
            activated_stake_lamports: u64::MAX,
            epoch: u16::MAX,
            mev_commission: u16::MAX,
            epoch_credits: u32::MAX,
            commission: u8::MAX,
            client_type: u8::MAX,
            version: ClientVersion { major: u8::MAX, minor: u8::MAX, patch: u16::MAX },
            ip: [u8::MAX; 4],
            padding0: u8::MAX,
            is_superminority: u8::MAX,
            rank: u32::MAX,
            vote_account_last_update_slot: u64::MAX,
            padding1: [u8::MAX; 88],
        }
    }
}

} // verus!
