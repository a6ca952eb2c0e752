//! The campaign ledger: account records, and the three transitions that it
//! applies to them.

use vstd::prelude::*;
use vstd::array::array_as_slice;
use vstd::slice::slice_subrange;
use crate::record::{
    campaign_bytes, parse_campaign, parse_withdraw, CampaignRecord, WithdrawRequest,
    KEY_LEN,
};

verus! {

/// An account identity: `KEY_LEN` bytes.
#[derive(Clone, Copy, Debug)]
pub struct Key {
    pub bytes: [u8; KEY_LEN],
}

impl View for Key {
    type V = Seq<u8>;

    open spec fn view(&self) -> Seq<u8> {
        self.bytes@
    }
}

impl Key {
    /// Whether this identity is made of the bytes `b`.
    pub fn is_bytes(&self, b: &[u8]) -> (r: bool)
        ensures
            r == (self@ == b@),
    {
        let mine = array_as_slice(&self.bytes);
        if mine.len() != b.len() {
            return false;
        }
        let mut i: usize = 0;
        while i < b.len()
            invariant
                0 <= i <= b@.len(),
                mine@ == self@,
                mine@.len() == b@.len(),
                forall|j: int| 0 <= j < i ==> mine@[j] == b@[j],
            decreases b@.len() - i,
        {
            if mine[i] != b[i] {
                return false;
            }
            i = i + 1;
        }
        assert(mine@ =~= b@);
        true
    }

    /// Whether two identities are the same.
    pub fn same_as(&self, other: &Key) -> (r: bool)
        ensures
            r == (self@ == other@),
    {
        self.is_bytes(array_as_slice(&other.bytes))
    }
}

/// An account record as the ledger sees it.
#[derive(Clone, Debug)]
pub struct Account {
    pub key: Key,
    /// The module that may change the record's data.
    pub owner: Key,
    /// Whether the account's holder authorised the current call.
    pub is_signer: bool,
    /// Spendable funds.
    pub lamports: u64,
    pub data: Vec<u8>,
}

/// The abstract value of an account record.
pub struct AccountView {
    pub key: Seq<u8>,
    pub owner: Seq<u8>,
    pub is_signer: bool,
    pub lamports: u64,
    pub data: Seq<u8>,
}

impl View for Account {
    type V = AccountView;

    open spec fn view(&self) -> AccountView {
        AccountView {
            key: self.key@,
            owner: self.owner@,
            is_signer: self.is_signer,
            lamports: self.lamports,
            data: self.data@,
        }
    }
}

pub open spec fn account_views(s: Seq<Account>) -> Seq<AccountView> {
    s.map_values(|a: Account| a@)
}

/// Why a transition was refused.
#[derive(Clone, Copy, Debug, PartialEq, Eq, Structural)]
pub enum LedgerError {
    /// Fewer accounts than the operation reads.
    NotEnoughAccountKeys,
    /// A record is not owned by the ledger, or a required signer did not sign.
    IncorrectProgramId,
    /// The payload is absent or malformed, or names another admin than the
    /// signer.
    InvalidInstructionData,
    /// The stored admin is not the calling admin.
    InvalidAccountData,
    /// The move would take a balance below its minimum.
    InsufficientFunds,
    /// The campaign's stored data is not a well-formed record.
    MalformedRecord,
    /// A balance or counter would pass the largest `u64`.
    ArithmeticOverflow,
}

/// What creating a campaign does to the accounts: the target's data becomes
/// the payload's record with nothing donated yet.
pub open spec fn create_spec(
    program_id: Seq<u8>,
    accts: Seq<AccountView>,
    payload: Seq<u8>,
    min_balance: u64,
) -> Result<Seq<AccountView>, LedgerError> {
    if accts.len() < 2 {
        Err(LedgerError::NotEnoughAccountKeys)
    } else if !accts[1].is_signer {
        Err(LedgerError::IncorrectProgramId)
    } else if accts[0].owner != program_id {
        Err(LedgerError::IncorrectProgramId)
    } else if parse_campaign(payload) is None {
        Err(LedgerError::InvalidInstructionData)
    } else if parse_campaign(payload)->0.admin != accts[1].key {
        Err(LedgerError::InvalidInstructionData)
    } else if accts[0].lamports < min_balance {
        Err(LedgerError::InsufficientFunds)
    } else {
        let v = parse_campaign(payload)->0.with_donated(0);
        Ok(accts.update(0, AccountView { data: campaign_bytes(v), ..accts[0] }))
    }
}

/// What a withdrawal does to the accounts: `amount` moves from the campaign
/// to its admin, never below the campaign's minimum balance.
pub open spec fn withdraw_spec(
    program_id: Seq<u8>,
    accts: Seq<AccountView>,
    payload: Seq<u8>,
    min_balance: u64,
) -> Result<Seq<AccountView>, LedgerError> {
    if accts.len() < 2 {
        Err(LedgerError::NotEnoughAccountKeys)
    } else if accts[0].owner != program_id {
        Err(LedgerError::IncorrectProgramId)
    } else if !accts[1].is_signer {
        Err(LedgerError::IncorrectProgramId)
    } else if parse_campaign(accts[0].data) is None {
        Err(LedgerError::MalformedRecord)
    } else if parse_campaign(accts[0].data)->0.admin != accts[1].key {
        Err(LedgerError::InvalidAccountData)
    } else if parse_withdraw(payload) is None {
        Err(LedgerError::InvalidInstructionData)
    } else {
        let amount = parse_withdraw(payload)->0;
        if accts[0].lamports < min_balance || accts[0].lamports - min_balance < amount {
            Err(LedgerError::InsufficientFunds)
        } else if accts[1].lamports + amount > u64::MAX {
            Err(LedgerError::ArithmeticOverflow)
        } else {
            Ok(
                accts.update(
                    0,
                    AccountView { lamports: (accts[0].lamports - amount) as u64, ..accts[0] },
                ).update(
                    1,
                    AccountView { lamports: (accts[1].lamports + amount) as u64, ..accts[1] },
                ),
            )
        }
    }
}

/// What a donation does to the accounts: the donator record's whole balance
/// moves to the campaign, and the campaign counts it as donated.
pub open spec fn donate_spec(program_id: Seq<u8>, accts: Seq<AccountView>) -> Result<
    Seq<AccountView>,
    LedgerError,
> {
    if accts.len() < 3 {
        Err(LedgerError::NotEnoughAccountKeys)
    } else if accts[0].owner != program_id {
        Err(LedgerError::IncorrectProgramId)
    } else if accts[1].owner != program_id {
        Err(LedgerError::IncorrectProgramId)
    } else if !accts[2].is_signer {
        Err(LedgerError::IncorrectProgramId)
    } else if parse_campaign(accts[0].data) is None {
        Err(LedgerError::MalformedRecord)
    } else {
        let v = parse_campaign(accts[0].data)->0;
        let gift = accts[1].lamports;
        if v.amount_donated + gift > u64::MAX || accts[0].lamports + gift > u64::MAX {
            Err(LedgerError::ArithmeticOverflow)
        } else {
            let v2 = v.with_donated((v.amount_donated + gift) as u64);
            Ok(
                accts.update(
                    0,
                    AccountView {
                        lamports: (accts[0].lamports + gift) as u64,
                        data: campaign_bytes(v2),
                        ..accts[0]
                    },
                ).update(1, AccountView { lamports: 0, ..accts[1] }),
            )
        }
    }
}

/// The accounts after a transition: the new ones on success, the old ones
/// untouched on failure.
pub open spec fn applied(
    before: Seq<AccountView>,
    after: Seq<AccountView>,
    outcome: Result<Seq<AccountView>, LedgerError>,
    r: Result<(), LedgerError>,
) -> bool {
    match outcome {
        Ok(next) => r is Ok && after == next,
        Err(e) => r == Err::<(), LedgerError>(e) && after == before,
    }
}

/// Writes a new campaign record into `accounts[0]`, created by the signer
/// `accounts[1]`; the record's donated total starts at zero whatever the
/// payload said. `min_balance` is the minimum balance that a record of
/// `accounts[0]`'s data length must hold.
pub fn create_campaign(
    program_id: &Key,
    accounts: &mut Vec<Account>,
    payload: &[u8],
    min_balance: u64,
) -> (r: Result<(), LedgerError>)
    ensures
        applied(
            account_views(old(accounts)@),
            account_views(final(accounts)@),
            create_spec(program_id@, account_views(old(accounts)@), payload@, min_balance),
            r,
        ),
{
    let ghost before = account_views(accounts@);
    if accounts.len() < 2 {
        return Err(LedgerError::NotEnoughAccountKeys);
    }
    if !accounts[1].is_signer {
        return Err(LedgerError::IncorrectProgramId);
    }
    if !accounts[0].owner.same_as(program_id) {
        return Err(LedgerError::IncorrectProgramId);
    }
    let mut campaign = match CampaignRecord::decode(payload) {
        Some(c) => c,
        None => return Err(LedgerError::InvalidInstructionData),
    };
    if !accounts[1].key.is_bytes(campaign.admin.as_slice()) {
        return Err(LedgerError::InvalidInstructionData);
    }
    if accounts[0].lamports < min_balance {
        return Err(LedgerError::InsufficientFunds);
    }
    campaign.amount_donated = 0;
    let bytes = campaign.encode();
    accounts[0].data = bytes;
    proof {
        let target = AccountView { data: bytes@, ..before[0] };
        assert(account_views(accounts@) =~= before.update(0, target));
    }
    Ok(())
}

/// Moves the requested amount from the campaign `accounts[0]` to its admin
/// `accounts[1]`, who must sign; the campaign keeps at least `min_balance`.
pub fn withdraw(
    program_id: &Key,
    accounts: &mut Vec<Account>,
    payload: &[u8],
    min_balance: u64,
) -> (r: Result<(), LedgerError>)
    ensures
        applied(
            account_views(old(accounts)@),
            account_views(final(accounts)@),
            withdraw_spec(program_id@, account_views(old(accounts)@), payload@, min_balance),
            r,
        ),
{
    let ghost before = account_views(accounts@);
    if accounts.len() < 2 {
        return Err(LedgerError::NotEnoughAccountKeys);
    }
    if !accounts[0].owner.same_as(program_id) {
        return Err(LedgerError::IncorrectProgramId);
    }
    if !accounts[1].is_signer {
        return Err(LedgerError::IncorrectProgramId);
    }
    let campaign = match CampaignRecord::decode(accounts[0].data.as_slice()) {
        Some(c) => c,
        None => return Err(LedgerError::MalformedRecord),
    };
    if !accounts[1].key.is_bytes(campaign.admin.as_slice()) {
        return Err(LedgerError::InvalidAccountData);
    }
    let request = match WithdrawRequest::decode(payload) {
        Some(w) => w,
        None => return Err(LedgerError::InvalidInstructionData),
    };
    let balance = accounts[0].lamports;
    if balance < min_balance || balance - min_balance < request.amount {
        return Err(LedgerError::InsufficientFunds);
    }
    let admin_balance = accounts[1].lamports;
    if admin_balance > u64::MAX - request.amount {
        return Err(LedgerError::ArithmeticOverflow);
    }
    accounts[0].lamports = balance - request.amount;
    accounts[1].lamports = admin_balance + request.amount;
    proof {
        let c = AccountView { lamports: (balance - request.amount) as u64, ..before[0] };
        let a = AccountView { lamports: (admin_balance + request.amount) as u64, ..before[1] };
        assert(account_views(accounts@) =~= before.update(0, c).update(1, a));
    }
    Ok(())
}

/// Sweeps the whole balance of the ledger-owned donator record
/// `accounts[1]` into the campaign `accounts[0]`, on the signature of
/// `accounts[2]`, and adds it to the campaign's donated total.
pub fn donate(program_id: &Key, accounts: &mut Vec<Account>) -> (r: Result<(), LedgerError>)
    ensures
        applied(
            account_views(old(accounts)@),
            account_views(final(accounts)@),
            donate_spec(program_id@, account_views(old(accounts)@)),
            r,
        ),
{
    let ghost before = account_views(accounts@);
    if accounts.len() < 3 {
        return Err(LedgerError::NotEnoughAccountKeys);
    }
    if !accounts[0].owner.same_as(program_id) {
        return Err(LedgerError::IncorrectProgramId);
    }
    if !accounts[1].owner.same_as(program_id) {
        return Err(LedgerError::IncorrectProgramId);
    }
    if !accounts[2].is_signer {
        return Err(LedgerError::IncorrectProgramId);
    }
    let mut campaign = match CampaignRecord::decode(accounts[0].data.as_slice()) {
        Some(c) => c,
        None => return Err(LedgerError::MalformedRecord),
    };
    let gift = accounts[1].lamports;
    let balance = accounts[0].lamports;
    if campaign.amount_donated > u64::MAX - gift || balance > u64::MAX - gift {
        return Err(LedgerError::ArithmeticOverflow);
    }
    campaign.amount_donated = campaign.amount_donated + gift;
    let bytes = campaign.encode();
    accounts[0].lamports = balance + gift;
    accounts[0].data = bytes;
    accounts[1].lamports = 0;
    proof {
        let c = AccountView { lamports: (balance + gift) as u64, data: bytes@, ..before[0] };
        let d = AccountView { lamports: 0, ..before[1] };
        assert(account_views(accounts@) =~= before.update(0, c).update(1, d));
    }
    Ok(())
}

/// The operation that an instruction's first byte selects.
pub open spec fn instruction_spec(
    program_id: Seq<u8>,
    accts: Seq<AccountView>,
    data: Seq<u8>,
    min_balance: u64,
) -> Result<Seq<AccountView>, LedgerError> {
    if data.len() == 0 {
        Err(LedgerError::InvalidInstructionData)
    } else {
        let payload = data.drop_first();
        if data[0] == 0 {
            create_spec(program_id, accts, payload, min_balance)
        } else if data[0] == 1 {
            withdraw_spec(program_id, accts, payload, min_balance)
        } else if data[0] == 2 {
            donate_spec(program_id, accts)
        } else {
            Err(LedgerError::InvalidInstructionData)
        }
    }
}

/// Runs one instruction: its first byte selects the operation (0 create,
/// 1 withdraw, 2 donate) and the rest is the operation's payload.
/// `min_balance` is the minimum balance for `accounts[0]`'s data length.
pub fn process_instruction(
    program_id: &Key,
    accounts: &mut Vec<Account>,
    data: &[u8],
    min_balance: u64,
) -> (r: Result<(), LedgerError>)
    ensures
        applied(
            account_views(old(accounts)@),
            account_views(final(accounts)@),
            instruction_spec(program_id@, account_views(old(accounts)@), data@, min_balance),
            r,
        ),
{
    if data.len() == 0 {
        return Err(LedgerError::InvalidInstructionData);
    }
    let payload = slice_subrange(data, 1, data.len());
    assert(payload@ =~= data@.drop_first());
    let op = data[0];
    if op == 0 {
        create_campaign(program_id, accounts, payload, min_balance)
    } else if op == 1 {
        withdraw(program_id, accounts, payload, min_balance)
    } else if op == 2 {
        donate(program_id, accounts)
    } else {
        Err(LedgerError::InvalidInstructionData)
    }
}

} // verus!
