//! The custody lock: tokens leave a source balance for the protocol's custody,
//! and each lock is recorded for the relayer of the target chain.

use vstd::prelude::*;
use crate::authorization::{authorize, authorized, Caller};
use crate::identity::Identity;

verus! {

/// Why a lock was refused.
#[derive(Clone, Copy, Debug, PartialEq, Eq, Structural)]
pub enum BridgeError {
    /// The target chain is zero.
    InvalidChain,
    /// The caller did not sign, or is not the owner of the source balance.
    UnauthorizedAccess,
    /// The source balance holds less than the amount.
    InsufficientFunds,
    /// The custody balance cannot hold the amount on top of what it has.
    BalanceOverflow,
}

impl BridgeError {
    /// The stable numeric code of the error.
    pub open spec fn spec_code(self) -> u32 {
        match self {
            BridgeError::InvalidChain => 6000,
            BridgeError::UnauthorizedAccess => 6001,
            BridgeError::InsufficientFunds => 6002,
            BridgeError::BalanceOverflow => 6003,
        }
    }

    /// The stable numeric code under which the error is surfaced.
    pub fn code(&self) -> (code: u32)
        ensures
            code == self.spec_code(),
    {
        match self {
            BridgeError::InvalidChain => 6000,
            BridgeError::UnauthorizedAccess => 6001,
            BridgeError::InsufficientFunds => 6002,
            BridgeError::BalanceOverflow => 6003,
        }
    }

    /// The text of the error.
    pub open spec fn spec_message(self) -> Seq<char> {
        match self {
            BridgeError::InvalidChain => "Invalid target chain ID"@,
            BridgeError::UnauthorizedAccess => "Owner did not authorize the transfer"@,
            BridgeError::InsufficientFunds => "Insufficient funds"@,
            BridgeError::BalanceOverflow => "Custody balance overflow"@,
        }
    }

    /// The text with which the error is reported.
    pub fn message(&self) -> (text: &'static str)
        ensures
            text@ == self.spec_message(),
    {
        match self {
            BridgeError::InvalidChain => "Invalid target chain ID",
            BridgeError::UnauthorizedAccess => "Owner did not authorize the transfer",
            BridgeError::InsufficientFunds => "Insufficient funds",
            BridgeError::BalanceOverflow => "Custody balance overflow",
        }
    }
}

/// A balance of tokens and the identity that may spend it.
#[derive(Clone, Copy, Debug, PartialEq, Eq)]
pub struct TokenBalance {
    pub owner: Identity,
    pub amount: u64,
}

/// The accounts of a lock.
#[derive(Clone, Copy, Debug, PartialEq, Eq)]
pub struct LockTokens {
    /// The balance that is debited.
    pub source: TokenBalance,
    /// The protocol's balance, which is credited.
    pub custody: TokenBalance,
    /// The caller, who must own the source balance and have signed.
    pub owner: Caller,
}

/// The record of one lock, as the relayer reads it.
#[derive(Clone, Copy, Debug, PartialEq, Eq)]
pub struct TokenLocked {
    pub sender: Identity,
    pub amount: u64,
    pub target_chain: u16,
    pub timestamp: i64,
}

/// The records of all locks, oldest first. Records are only ever added, at
/// the end, and only by a lock that moved the tokens.
pub struct EventLog {
    records: Vec<TokenLocked>,
}

impl View for EventLog {
    type V = Seq<TokenLocked>;

    closed spec fn view(&self) -> Seq<TokenLocked> {
        self.records@
    }
}

impl EventLog {
    #[verifier::type_invariant]
    spec fn inv(self) -> bool {
        forall|i: int| 0 <= i < self.records@.len() ==> self.records@[i].target_chain != 0
    }

    /// A log without records.
    pub fn new() -> (log: EventLog)
        ensures
            log@ == Seq::<TokenLocked>::empty(),
    {
        EventLog { records: Vec::new() }
    }

    /// The number of records.
    pub fn len(&self) -> (n: usize)
        ensures
            n == self@.len(),
    {
        self.records.len()
    }

    /// Whether the log has no record.
    pub fn is_empty(&self) -> (empty: bool)
        ensures
            empty == (self@.len() == 0),
    {
        self.records.len() == 0
    }

    /// The record at `index`, counted from the oldest. Every record names a
    /// target chain other than zero.
    pub fn get(&self, index: usize) -> (record: Option<TokenLocked>)
        ensures
            match record {
                Some(r) => index < self@.len() && r == self@[index as int] && r.target_chain != 0,
                None => index >= self@.len(),
            },
    {
        proof {
            use_type_invariant(&*self);
        }
        if index < self.records.len() {
            Some(self.records[index])
        } else {
            None
        }
    }

    fn append(&mut self, record: TokenLocked)
        requires
            record.target_chain != 0,
        ensures
            final(self)@ == old(self)@.push(record),
    {
        proof {
            use_type_invariant(&*self);
        }
        let mut records: Vec<TokenLocked> = Vec::new();
        std::mem::swap(&mut records, &mut self.records);
        records.push(record);
        self.records = records;
    }
}

/// How a lock ends. The target chain is judged first, then the caller's
/// authority over the source balance, then the source balance, then the room
/// left in custody.
pub open spec fn lock_outcome(ctx: LockTokens, amount: u64, target_chain: u16) -> Result<
    (),
    BridgeError,
> {
    if target_chain == 0 {
        Err(BridgeError::InvalidChain)
    } else if !authorized(ctx.owner, ctx.source.owner@) {
        Err(BridgeError::UnauthorizedAccess)
    } else if ctx.source.amount < amount {
        Err(BridgeError::InsufficientFunds)
    } else if ctx.custody.amount + amount > u64::MAX {
        Err(BridgeError::BalanceOverflow)
    } else {
        Ok(())
    }
}

/// The record that a lock emits.
pub open spec fn lock_record(
    ctx: LockTokens,
    amount: u64,
    target_chain: u16,
    now: i64,
) -> TokenLocked {
    TokenLocked { sender: ctx.owner.key, amount, target_chain, timestamp: now }
}

/// The balances after a lock: where the lock is refused they are the balances
/// before it, else the amount has left the source for custody.
pub open spec fn balances_after(ctx: LockTokens, amount: u64, target_chain: u16) -> LockTokens {
    if lock_outcome(ctx, amount, target_chain) is Ok {
        LockTokens {
            source: TokenBalance {
                owner: ctx.source.owner,
                amount: (ctx.source.amount - amount) as u64,
            },
            custody: TokenBalance {
                owner: ctx.custody.owner,
                amount: (ctx.custody.amount + amount) as u64,
            },
            owner: ctx.owner,
        }
    } else {
        ctx
    }
}

/// The log after a lock: where the lock is refused it is the log before it,
/// else the lock's record has been added at the end.
pub open spec fn log_after(
    log: Seq<TokenLocked>,
    ctx: LockTokens,
    amount: u64,
    target_chain: u16,
    now: i64,
) -> Seq<TokenLocked> {
    if lock_outcome(ctx, amount, target_chain) is Ok {
        log.push(lock_record(ctx, amount, target_chain, now))
    } else {
        log
    }
}

/// Locks `amount` tokens of the source balance in custody for `target_chain`.
/// The debit, the credit and the record happen together or not at all: a
/// refused lock leaves both balances and the log as they were.
pub fn lock_tokens(
    ctx: &mut LockTokens,
    log: &mut EventLog,
    amount: u64,
    target_chain: u16,
    now: i64,
) -> (done: Result<(), BridgeError>)
    ensures
        done == lock_outcome(*old(ctx), amount, target_chain),
        *final(ctx) == balances_after(*old(ctx), amount, target_chain),
        final(log)@ == log_after(old(log)@, *old(ctx), amount, target_chain, now),
        target_chain == 0 ==> done == Err::<(), BridgeError>(BridgeError::InvalidChain),
        done is Err ==> *final(ctx) == *old(ctx) && final(log)@ == old(log)@,
        done is Ok ==> final(log)@.last().amount == amount,
        done is Ok ==> old(ctx).source.amount - final(ctx).source.amount == amount,
        done is Ok ==> final(ctx).custody.amount - old(ctx).custody.amount == amount,
{
    if target_chain == 0 {
        return Err(BridgeError::InvalidChain);
    }
    match authorize(&ctx.owner, &ctx.source.owner) {
        Err(_) => {
            return Err(BridgeError::UnauthorizedAccess);
        },
        Ok(_) => {},
    }
    if ctx.source.amount < amount {
        return Err(BridgeError::InsufficientFunds);
    }
    let credited = match ctx.custody.amount.checked_add(amount) {
        None => {
            return Err(BridgeError::BalanceOverflow);
        },
        Some(sum) => sum,
    };
    let record = TokenLocked { sender: ctx.owner.key, amount, target_chain, timestamp: now };
    ctx.source.amount = ctx.source.amount - amount;
    ctx.custody.amount = credited;
    log.append(record);
    Ok(())
}

} // verus!
