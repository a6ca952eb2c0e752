//! What holds of the ledger's transitions across calls and over all inputs.

use vstd::prelude::*;
use crate::ledger::{create_spec, donate_spec, withdraw_spec, AccountView, LedgerError};
use crate::record::{campaign_bytes, lemma_parse_campaign, parse_campaign, parse_withdraw, CampaignView};

verus! {

/// A successful create stores the payload's record with a donated total of
/// zero, whatever total the payload carried.
pub proof fn lemma_create_resets_donated(
    program_id: Seq<u8>,
    accts: Seq<AccountView>,
    payload: Seq<u8>,
    min_balance: u64,
)
    requires
        create_spec(program_id, accts, payload, min_balance) is Ok,
    ensures
        ({
            let after = create_spec(program_id, accts, payload, min_balance)->Ok_0;
            let v = parse_campaign(payload)->0;
            &&& parse_campaign(after[0].data) == Some(v.with_donated(0))
            &&& parse_campaign(after[0].data)->0.amount_donated == 0
        }),
{
    let v = parse_campaign(payload)->0;
    let w = choose|w: CampaignView| w.wf() && campaign_bytes(w) == payload;
    assert(v == w);
    lemma_parse_campaign(campaign_bytes(v.with_donated(0)), v.with_donated(0));
}

/// A create whose payload names an admin other than the creator fails, and
/// so leaves the target untouched; once the signer and owner checks pass,
/// the error is `InvalidInstructionData`.
pub proof fn lemma_create_rejects_foreign_admin(
    program_id: Seq<u8>,
    accts: Seq<AccountView>,
    payload: Seq<u8>,
    min_balance: u64,
    v: CampaignView,
)
    requires
        accts.len() >= 2,
        parse_campaign(payload) == Some(v),
        v.admin != accts[1].key,
    ensures
        create_spec(program_id, accts, payload, min_balance) is Err,
        accts[1].is_signer && accts[0].owner == program_id ==> create_spec(
            program_id,
            accts,
            payload,
            min_balance,
        ) == Err::<Seq<AccountView>, LedgerError>(LedgerError::InvalidInstructionData),
{
}

/// A second create on the same target overwrites the first: the result is
/// what the second alone would give, with nothing kept of the first payload.
pub proof fn lemma_create_overwrites(
    program_id: Seq<u8>,
    accts: Seq<AccountView>,
    first: Seq<u8>,
    second: Seq<u8>,
    min_balance: u64,
)
    requires
        create_spec(program_id, accts, first, min_balance) is Ok,
    ensures
        create_spec(
            program_id,
            create_spec(program_id, accts, first, min_balance)->Ok_0,
            second,
            min_balance,
        ) == create_spec(program_id, accts, second, min_balance),
{
    let mid = create_spec(program_id, accts, first, min_balance)->Ok_0;
    if create_spec(program_id, accts, second, min_balance) is Ok {
        let a = create_spec(program_id, mid, second, min_balance)->Ok_0;
        let b = create_spec(program_id, accts, second, min_balance)->Ok_0;
        assert(a =~= b);
    }
}

/// Once the caller is authorised and the request is read, a withdrawal
/// succeeds exactly when the campaign's balance less its minimum covers the
/// amount; then the campaign loses the amount, the admin gains it, and their
/// total is kept.
pub proof fn lemma_withdraw_solvency(
    program_id: Seq<u8>,
    accts: Seq<AccountView>,
    payload: Seq<u8>,
    min_balance: u64,
    amount: u64,
)
    requires
        accts.len() >= 2,
        accts[0].owner == program_id,
        accts[1].is_signer,
        parse_campaign(accts[0].data) is Some,
        parse_campaign(accts[0].data)->0.admin == accts[1].key,
        parse_withdraw(payload) == Some(amount),
        accts[1].lamports + amount <= u64::MAX,
    ensures
        withdraw_spec(program_id, accts, payload, min_balance) is Ok <==> accts[0].lamports
            - min_balance >= amount,
        withdraw_spec(program_id, accts, payload, min_balance) is Err ==> withdraw_spec(
            program_id,
            accts,
            payload,
            min_balance,
        ) == Err::<Seq<AccountView>, LedgerError>(LedgerError::InsufficientFunds),
        withdraw_spec(program_id, accts, payload, min_balance) matches Ok(after) ==> {
            &&& after.len() == accts.len()
            &&& after[0].lamports == accts[0].lamports - amount
            &&& after[1].lamports == accts[1].lamports + amount
            &&& after[0].lamports + after[1].lamports == accts[0].lamports + accts[1].lamports
            &&& after[0].data == accts[0].data
        },
{
}

/// A withdrawal by anyone but the stored admin fails with
/// `InvalidAccountData`, and so moves no funds.
pub proof fn lemma_withdraw_wrong_admin(
    program_id: Seq<u8>,
    accts: Seq<AccountView>,
    payload: Seq<u8>,
    min_balance: u64,
)
    requires
        accts.len() >= 2,
        accts[0].owner == program_id,
        accts[1].is_signer,
        parse_campaign(accts[0].data) is Some,
        parse_campaign(accts[0].data)->0.admin != accts[1].key,
    ensures
        withdraw_spec(program_id, accts, payload, min_balance) == Err::<
            Seq<AccountView>,
            LedgerError,
        >(LedgerError::InvalidAccountData),
{
}

/// After a successful donation the donator record is empty, the campaign
/// holds its former balance more, its donated total grew by the same amount,
/// and the two records' total is kept.
pub proof fn lemma_donate_sweeps(program_id: Seq<u8>, accts: Seq<AccountView>)
    requires
        donate_spec(program_id, accts) is Ok,
    ensures
        ({
            let after = donate_spec(program_id, accts)->Ok_0;
            let v = parse_campaign(accts[0].data)->0;
            &&& after.len() == accts.len()
            &&& after[1].lamports == 0
            &&& after[0].lamports == accts[0].lamports + accts[1].lamports
            &&& after[0].lamports + after[1].lamports == accts[0].lamports + accts[1].lamports
            &&& parse_campaign(after[0].data) == Some(
                v.with_donated((v.amount_donated + accts[1].lamports) as u64),
            )
            &&& parse_campaign(after[0].data)->0.amount_donated == v.amount_donated
                + accts[1].lamports
        }),
{
    let v = parse_campaign(accts[0].data)->0;
    let w = choose|w: CampaignView| w.wf() && campaign_bytes(w) == accts[0].data;
    assert(v == w);
    let v2 = v.with_donated((v.amount_donated + accts[1].lamports) as u64);
    lemma_parse_campaign(campaign_bytes(v2), v2);
}

} // verus!
