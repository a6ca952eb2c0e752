use campaign_ledger::ledger::{process_instruction, create_campaign, donate, withdraw, Account, Key, LedgerError};
use campaign_ledger::record::{CampaignRecord, WithdrawRequest};

const MIN: u64 = 1_000;

fn key(b: u8) -> Key {
    Key { bytes: [b; 32] }
}

fn program() -> Key {
    key(7)
}

fn account(k: Key, owner: Key, is_signer: bool, lamports: u64, data: Vec<u8>) -> Account {
    Account { key: k, owner, is_signer, lamports, data }
}

fn record(admin: Key, name: &str, donated: u64) -> CampaignRecord {
    CampaignRecord {
        admin: admin.bytes.to_vec(),
        name: name.as_bytes().to_vec(),
        description: b"help".to_vec(),
        image_link: b"http://img".to_vec(),
        amount_donated: donated,
    }
}

fn stored(a: &Account) -> CampaignRecord {
    CampaignRecord::decode(&a.data).expect("stored record")
}

fn create_accounts(creator: Key, balance: u64) -> Vec<Account> {
    vec![
        account(key(1), program(), false, balance, Vec::new()),
        account(creator, key(9), true, 50, Vec::new()),
    ]
}

fn instruction(op: u8, payload: &[u8]) -> Vec<u8> {
    let mut v = vec![op];
    v.extend_from_slice(payload);
    v
}

fn campaign_with(admin: Key, balance: u64, donated: u64) -> Account {
    account(key(1), program(), false, balance, record(admin, "fund", donated).encode())
}

#[test]
fn encodes_record_in_fixed_layout() {
    let r = CampaignRecord {
        admin: vec![3; 32],
        name: b"ab".to_vec(),
        description: Vec::new(),
        image_link: b"x".to_vec(),
        amount_donated: 0x0102,
    };
    let mut want = vec![3u8; 32];
    want.extend_from_slice(&[2, 0, 0, 0, b'a', b'b']);
    want.extend_from_slice(&[0, 0, 0, 0]);
    want.extend_from_slice(&[1, 0, 0, 0, b'x']);
    want.extend_from_slice(&[0x02, 0x01, 0, 0, 0, 0, 0, 0]);
    assert_eq!(r.encode(), want);
    let back = CampaignRecord::decode(&want).unwrap();
    assert_eq!(back.admin, vec![3u8; 32]);
    assert_eq!(back.name, b"ab".to_vec());
    assert_eq!(back.description, Vec::<u8>::new());
    assert_eq!(back.image_link, b"x".to_vec());
    assert_eq!(back.amount_donated, 0x0102);
}

#[test]
fn decode_rejects_malformed_records() {
    let good = record(key(2), "fund", 5).encode();
    let mut longer = good.clone();
    longer.push(0);
    assert!(CampaignRecord::decode(&longer).is_none());
    assert!(CampaignRecord::decode(&good[..good.len() - 1]).is_none());
    assert!(CampaignRecord::decode(&good[..10]).is_none());
    assert!(CampaignRecord::decode(&[]).is_none());
    let mut bad_utf8 = record(key(2), "ab", 5).encode();
    bad_utf8[36] = 0xff;
    assert!(CampaignRecord::decode(&bad_utf8).is_none());
}

#[test]
fn withdraw_request_layout() {
    let w = WithdrawRequest { amount: 0x0a0b0c };
    assert_eq!(w.encode(), vec![0x0c, 0x0b, 0x0a, 0, 0, 0, 0, 0]);
    assert_eq!(WithdrawRequest::decode(&[5, 1, 0, 0, 0, 0, 0, 0]).unwrap().amount, 261);
    assert!(WithdrawRequest::decode(&[5, 1, 0, 0, 0, 0, 0]).is_none());
    assert!(WithdrawRequest::decode(&[5, 1, 0, 0, 0, 0, 0, 0, 0]).is_none());
}

#[test]
fn keys_compare_by_bytes() {
    assert!(key(4).same_as(&key(4)));
    assert!(!key(4).same_as(&key(5)));
    let mut k = key(4);
    k.bytes[31] = 0;
    assert!(!key(4).same_as(&k));
    assert!(key(4).is_bytes(&[4u8; 32]));
    assert!(!key(4).is_bytes(&[4u8; 31]));
}

#[test]
fn create_resets_donated_total() {
    let a = key(2);
    let mut accts = create_accounts(a, MIN);
    let payload = record(a, "fund", 777).encode();
    assert_eq!(create_campaign(&program(), &mut accts, &payload, MIN), Ok(()));
    let r = stored(&accts[0]);
    assert_eq!(r.amount_donated, 0);
    assert_eq!(r.name, b"fund".to_vec());
    assert_eq!(r.admin, a.bytes.to_vec());
    assert_eq!(accts[0].lamports, MIN);
    assert_eq!(accts[1].lamports, 50);
}

#[test]
fn create_rejects_foreign_admin() {
    let mut accts = create_accounts(key(2), MIN);
    accts[0].data = vec![9, 9, 9];
    let payload = record(key(3), "fund", 0).encode();
    assert_eq!(
        create_campaign(&program(), &mut accts, &payload, MIN),
        Err(LedgerError::InvalidInstructionData)
    );
    assert_eq!(accts[0].data, vec![9, 9, 9]);
}

#[test]
fn create_errors() {
    let a = key(2);
    let payload = record(a, "fund", 0).encode();
    let mut accts = create_accounts(a, MIN - 1);
    assert_eq!(create_campaign(&program(), &mut accts, &payload, MIN), Err(LedgerError::InsufficientFunds));
    assert!(accts[0].data.is_empty());
    let mut accts = create_accounts(a, MIN);
    accts[1].is_signer = false;
    assert_eq!(create_campaign(&program(), &mut accts, &payload, MIN), Err(LedgerError::IncorrectProgramId));
    let mut accts = create_accounts(a, MIN);
    accts[0].owner = key(8);
    assert_eq!(create_campaign(&program(), &mut accts, &payload, MIN), Err(LedgerError::IncorrectProgramId));
    let mut accts = create_accounts(a, MIN);
    assert_eq!(
        create_campaign(&program(), &mut accts, &payload[..20], MIN),
        Err(LedgerError::InvalidInstructionData)
    );
    let mut one = vec![account(key(1), program(), false, MIN, Vec::new())];
    assert_eq!(create_campaign(&program(), &mut one, &payload, MIN), Err(LedgerError::NotEnoughAccountKeys));
}

#[test]
fn create_twice_last_write_wins() {
    let a = key(2);
    let mut accts = create_accounts(a, MIN);
    let first = CampaignRecord {
        admin: a.bytes.to_vec(),
        name: b"a much longer first name".to_vec(),
        description: b"first description".to_vec(),
        image_link: b"first link".to_vec(),
        amount_donated: 3,
    };
    let second = CampaignRecord {
        admin: a.bytes.to_vec(),
        name: b"b".to_vec(),
        description: Vec::new(),
        image_link: b"l".to_vec(),
        amount_donated: 4,
    };
    assert_eq!(create_campaign(&program(), &mut accts, &first.encode(), MIN), Ok(()));
    assert_eq!(create_campaign(&program(), &mut accts, &second.encode(), MIN), Ok(()));
    let mut expected = second.clone();
    expected.amount_donated = 0;
    assert_eq!(accts[0].data, expected.encode());
    let r = stored(&accts[0]);
    assert_eq!(r.name, b"b".to_vec());
    assert!(r.description.is_empty());
    assert_eq!(r.image_link, b"l".to_vec());
}

#[test]
fn withdraw_succeeds_at_the_floor() {
    let a = key(2);
    let mut accts = vec![campaign_with(a, MIN + 300, 0), account(a, key(9), true, 10, Vec::new())];
    let data = accts[0].data.clone();
    let req = WithdrawRequest { amount: 300 }.encode();
    assert_eq!(withdraw(&program(), &mut accts, &req, MIN), Ok(()));
    assert_eq!(accts[0].lamports, MIN);
    assert_eq!(accts[1].lamports, 310);
    assert_eq!(accts[0].lamports + accts[1].lamports, MIN + 310);
    assert_eq!(accts[0].data, data);
}

#[test]
fn withdraw_beyond_floor_fails() {
    let a = key(2);
    let mut accts = vec![campaign_with(a, MIN + 300, 0), account(a, key(9), true, 10, Vec::new())];
    let req = WithdrawRequest { amount: 301 }.encode();
    assert_eq!(withdraw(&program(), &mut accts, &req, MIN), Err(LedgerError::InsufficientFunds));
    assert_eq!(accts[0].lamports, MIN + 300);
    assert_eq!(accts[1].lamports, 10);
}

#[test]
fn withdraw_below_floor_fails_without_underflow() {
    let a = key(2);
    let mut accts = vec![campaign_with(a, MIN - 1, 0), account(a, key(9), true, 10, Vec::new())];
    let zero = WithdrawRequest { amount: 0 }.encode();
    assert_eq!(withdraw(&program(), &mut accts, &zero, MIN), Err(LedgerError::InsufficientFunds));
    let mut accts = vec![campaign_with(a, MIN, 0), account(a, key(9), true, 10, Vec::new())];
    assert_eq!(withdraw(&program(), &mut accts, &zero, MIN), Ok(()));
    assert_eq!(accts[0].lamports, MIN);
}

#[test]
fn withdraw_by_other_admin_fails() {
    let mut accts = vec![campaign_with(key(2), MIN + 300, 0), account(key(3), key(9), true, 10, Vec::new())];
    let req = WithdrawRequest { amount: 1 }.encode();
    assert_eq!(withdraw(&program(), &mut accts, &req, MIN), Err(LedgerError::InvalidAccountData));
    assert_eq!(accts[0].lamports, MIN + 300);
    assert_eq!(accts[1].lamports, 10);
}

#[test]
fn withdraw_errors() {
    let a = key(2);
    let req = WithdrawRequest { amount: 1 }.encode();
    let fresh = || vec![campaign_with(a, MIN + 300, 0), account(a, key(9), true, 10, Vec::new())];
    let mut accts = fresh();
    accts[1].is_signer = false;
    assert_eq!(withdraw(&program(), &mut accts, &req, MIN), Err(LedgerError::IncorrectProgramId));
    let mut accts = fresh();
    accts[0].owner = key(8);
    assert_eq!(withdraw(&program(), &mut accts, &req, MIN), Err(LedgerError::IncorrectProgramId));
    let mut accts = fresh();
    accts[0].data = vec![1, 2, 3];
    assert_eq!(withdraw(&program(), &mut accts, &req, MIN), Err(LedgerError::MalformedRecord));
    let mut accts = fresh();
    assert_eq!(withdraw(&program(), &mut accts, &req[..7], MIN), Err(LedgerError::InvalidInstructionData));
    let mut accts = fresh();
    accts[1].lamports = u64::MAX;
    assert_eq!(withdraw(&program(), &mut accts, &req, MIN), Err(LedgerError::ArithmeticOverflow));
    assert_eq!(accts[0].lamports, MIN + 300);
    let mut one = vec![campaign_with(a, MIN, 0)];
    assert_eq!(withdraw(&program(), &mut one, &req, MIN), Err(LedgerError::NotEnoughAccountKeys));
}

fn donate_accounts(campaign_balance: u64, donated: u64, gift: u64) -> Vec<Account> {
    vec![
        campaign_with(key(2), campaign_balance, donated),
        account(key(5), program(), false, gift, Vec::new()),
        account(key(6), key(9), true, 0, Vec::new()),
    ]
}

#[test]
fn donate_sweeps_whole_balance() {
    let mut accts = donate_accounts(MIN, 40, 500);
    assert_eq!(donate(&program(), &mut accts), Ok(()));
    assert_eq!(accts[1].lamports, 0);
    assert_eq!(accts[0].lamports, MIN + 500);
    assert_eq!(accts[0].lamports + accts[1].lamports, MIN + 500);
    let r = stored(&accts[0]);
    assert_eq!(r.amount_donated, 540);
    assert_eq!(r.name, b"fund".to_vec());
}

#[test]
fn donate_errors() {
    let mut accts = donate_accounts(MIN, 0, 5);
    accts[2].is_signer = false;
    assert_eq!(donate(&program(), &mut accts), Err(LedgerError::IncorrectProgramId));
    let mut accts = donate_accounts(MIN, 0, 5);
    accts[1].owner = key(8);
    assert_eq!(donate(&program(), &mut accts), Err(LedgerError::IncorrectProgramId));
    let mut accts = donate_accounts(MIN, 0, 5);
    accts[0].owner = key(8);
    assert_eq!(donate(&program(), &mut accts), Err(LedgerError::IncorrectProgramId));
    let mut accts = donate_accounts(MIN, 0, 5);
    accts[0].data.pop();
    assert_eq!(donate(&program(), &mut accts), Err(LedgerError::MalformedRecord));
    let mut accts = donate_accounts(MIN, u64::MAX - 4, 5);
    assert_eq!(donate(&program(), &mut accts), Err(LedgerError::ArithmeticOverflow));
    assert_eq!(accts[1].lamports, 5);
    let mut accts = donate_accounts(u64::MAX, 0, 5);
    assert_eq!(donate(&program(), &mut accts), Err(LedgerError::ArithmeticOverflow));
    let mut two = donate_accounts(MIN, 0, 5);
    two.pop();
    assert_eq!(donate(&program(), &mut two), Err(LedgerError::NotEnoughAccountKeys));
}

#[test]
fn instruction_dispatch() {
    let mut accts = donate_accounts(MIN, 0, 5);
    assert_eq!(process_instruction(&program(), &mut accts, &[], MIN), Err(LedgerError::InvalidInstructionData));
    assert_eq!(process_instruction(&program(), &mut accts, &[3], MIN), Err(LedgerError::InvalidInstructionData));
    assert_eq!(process_instruction(&program(), &mut accts, &[2], MIN), Ok(()));
    assert_eq!(accts[0].lamports, MIN + 5);
}

#[test]
fn end_to_end_campaign() {
    let a = key(2);
    let mut accts = vec![
        account(key(1), program(), false, MIN, Vec::new()),
        account(a, key(9), true, 20, Vec::new()),
    ];
    let payload = record(a, "fund", 123).encode();
    assert_eq!(process_instruction(&program(), &mut accts, &instruction(0, &payload), MIN), Ok(()));
    assert_eq!(stored(&accts[0]).amount_donated, 0);

    let mut d = vec![
        accts[0].clone(),
        account(key(5), program(), false, 500, Vec::new()),
        account(key(6), key(9), true, 0, Vec::new()),
    ];
    assert_eq!(process_instruction(&program(), &mut d, &instruction(2, &[]), MIN), Ok(()));
    assert_eq!(d[0].lamports, MIN + 500);
    assert_eq!(stored(&d[0]).amount_donated, 500);
    assert_eq!(d[1].lamports, 0);

    accts[0] = d[0].clone();
    let w500 = WithdrawRequest { amount: 500 }.encode();
    assert_eq!(process_instruction(&program(), &mut accts, &instruction(1, &w500), MIN), Ok(()));
    assert_eq!(accts[0].lamports, MIN);
    assert_eq!(accts[1].lamports, 520);

    let w1 = WithdrawRequest { amount: 1 }.encode();
    let data = accts[0].data.clone();
    assert_eq!(
        process_instruction(&program(), &mut accts, &instruction(1, &w1), MIN),
        Err(LedgerError::InsufficientFunds)
    );
    assert_eq!(accts[0].lamports, MIN);
    assert_eq!(accts[1].lamports, 520);
    assert_eq!(accts[0].data, data);
}
