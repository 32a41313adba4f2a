use deepchain::authorization::Caller;
use deepchain::identity::Identity;
use deepchain::wormhole_bridge::{
    lock_tokens, BridgeError, EventLog, LockTokens, TokenBalance, TokenLocked,
};

fn id(tag: u8) -> Identity {
    Identity::new([tag; 32])
}

fn accounts(owner: u8, source: u64, custody: u64) -> LockTokens {
    LockTokens {
        source: TokenBalance { owner: id(owner), amount: source },
        custody: TokenBalance { owner: id(250), amount: custody },
        owner: Caller { key: id(owner), is_signer: true },
    }
}

#[test]
fn lock_with_chain_zero_is_refused_and_changes_nothing() {
    let mut ctx = accounts(1, 100, 40);
    let before = ctx;
    let mut log = EventLog::new();
    assert_eq!(lock_tokens(&mut ctx, &mut log, 10, 0, 5), Err(BridgeError::InvalidChain));
    assert_eq!(ctx, before);
    assert_eq!(log.len(), 0);
    assert!(log.is_empty());
    let mut unsigned = accounts(1, 0, 0);
    unsigned.owner.is_signer = false;
    assert_eq!(lock_tokens(&mut unsigned, &mut log, 10, 0, 5), Err(BridgeError::InvalidChain));
}

#[test]
fn lock_moves_the_amount_and_records_it() {
    let mut ctx = accounts(1, 100, 40);
    let mut log = EventLog::new();
    assert_eq!(lock_tokens(&mut ctx, &mut log, 100, 5, 1_700_000_123), Ok(()));
    assert_eq!(ctx.source.amount, 0);
    assert_eq!(ctx.custody.amount, 140);
    assert_eq!(ctx.source.owner, id(1));
    assert_eq!(ctx.custody.owner, id(250));
    assert_eq!(log.len(), 1);
    assert_eq!(
        log.get(0),
        Some(TokenLocked {
            sender: id(1),
            amount: 100,
            target_chain: 5,
            timestamp: 1_700_000_123
        })
    );
    assert_eq!(log.get(1), None);
    let after = ctx;
    assert_eq!(
        lock_tokens(&mut ctx, &mut log, 1, 5, 1_700_000_124),
        Err(BridgeError::InsufficientFunds)
    );
    assert_eq!(ctx, after);
    assert_eq!(log.len(), 1);
}

#[test]
fn lock_of_part_of_the_balance() {
    let mut ctx = accounts(1, 100, 0);
    let mut log = EventLog::new();
    assert_eq!(lock_tokens(&mut ctx, &mut log, 30, 2, 1), Ok(()));
    assert_eq!(lock_tokens(&mut ctx, &mut log, 0, 3, 2), Ok(()));
    assert_eq!(lock_tokens(&mut ctx, &mut log, 70, 65535, -3), Ok(()));
    assert_eq!(ctx.source.amount, 0);
    assert_eq!(ctx.custody.amount, 100);
    assert_eq!(log.len(), 3);
    assert_eq!(log.get(0).unwrap().amount, 30);
    assert_eq!(log.get(1).unwrap().amount, 0);
    assert_eq!(log.get(2).unwrap().amount, 70);
    assert_eq!(log.get(2).unwrap().target_chain, 65535);
    assert_eq!(log.get(2).unwrap().timestamp, -3);
}

#[test]
fn lock_needs_the_signature_of_the_owner_of_the_source() {
    let mut log = EventLog::new();
    let mut unsigned = accounts(1, 100, 0);
    unsigned.owner.is_signer = false;
    let before = unsigned;
    assert_eq!(
        lock_tokens(&mut unsigned, &mut log, 10, 5, 1),
        Err(BridgeError::UnauthorizedAccess)
    );
    assert_eq!(unsigned, before);
    let mut stranger = accounts(1, 100, 0);
    stranger.owner.key = id(2);
    let before = stranger;
    assert_eq!(
        lock_tokens(&mut stranger, &mut log, 10, 5, 1),
        Err(BridgeError::UnauthorizedAccess)
    );
    assert_eq!(stranger, before);
    assert!(log.is_empty());
}

#[test]
fn lock_judges_authority_before_funds() {
    let mut log = EventLog::new();
    let mut ctx = accounts(1, 5, 0);
    ctx.owner.is_signer = false;
    assert_eq!(lock_tokens(&mut ctx, &mut log, 10, 5, 1), Err(BridgeError::UnauthorizedAccess));
}

#[test]
fn lock_refuses_what_custody_cannot_hold() {
    let mut log = EventLog::new();
    let mut ctx = accounts(1, 100, u64::MAX - 9);
    let before = ctx;
    assert_eq!(lock_tokens(&mut ctx, &mut log, 10, 5, 1), Err(BridgeError::BalanceOverflow));
    assert_eq!(ctx, before);
    assert!(log.is_empty());
    assert_eq!(lock_tokens(&mut ctx, &mut log, 9, 5, 1), Ok(()));
    assert_eq!(ctx.custody.amount, u64::MAX);
    assert_eq!(ctx.source.amount, 91);
}

#[test]
fn locks_from_different_sources_are_recorded_in_the_order_they_ran() {
    let mut log = EventLog::new();
    let mut one = accounts(1, 50, 7);
    let mut two = accounts(2, 60, 7);
    assert_eq!(lock_tokens(&mut one, &mut log, 50, 5, 10), Ok(()));
    two.custody = one.custody;
    assert_eq!(lock_tokens(&mut two, &mut log, 20, 6, 11), Ok(()));
    assert_eq!(one.source.amount, 0);
    assert_eq!(two.source.amount, 40);
    assert_eq!(two.custody.amount, 77);
    assert_eq!(log.len(), 2);
    assert_eq!(log.get(0).unwrap().sender, id(1));
    assert_eq!(log.get(1).unwrap().sender, id(2));

    let mut log = EventLog::new();
    let mut one = accounts(1, 50, 7);
    let mut two = accounts(2, 60, 7);
    assert_eq!(lock_tokens(&mut two, &mut log, 20, 6, 11), Ok(()));
    one.custody = two.custody;
    assert_eq!(lock_tokens(&mut one, &mut log, 50, 5, 10), Ok(()));
    assert_eq!(one.source.amount, 0);
    assert_eq!(two.source.amount, 40);
    assert_eq!(one.custody.amount, 77);
    assert_eq!(log.get(0).unwrap().sender, id(2));
    assert_eq!(log.get(1).unwrap().sender, id(1));
}

#[test]
fn bridge_errors_have_stable_codes_and_texts() {
    let all = [
        BridgeError::InvalidChain,
        BridgeError::UnauthorizedAccess,
        BridgeError::InsufficientFunds,
        BridgeError::BalanceOverflow,
    ];
    let codes: Vec<u32> = all.iter().map(|e| e.code()).collect();
    assert_eq!(codes, vec![6000, 6001, 6002, 6003]);
    assert_eq!(all[0].message(), "Invalid target chain ID");
    assert_eq!(all[1].message(), "Owner did not authorize the transfer");
    assert_eq!(all[2].message(), "Insufficient funds");
    assert_eq!(all[3].message(), "Custody balance overflow");
}
