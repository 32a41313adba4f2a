//! What holds of every lock, proved from the definitions that the contract of
//! `lock_tokens` uses.

use vstd::prelude::*;
use crate::wormhole_bridge::{
    balances_after, lock_outcome, lock_record, log_after, BridgeError, LockTokens, TokenLocked,
};

verus! {

/// A lock with target chain zero is refused as an invalid chain, and leaves
/// both balances and the log as they were.
pub proof fn lemma_chain_zero_is_refused(
    ctx: LockTokens,
    log: Seq<TokenLocked>,
    amount: u64,
    now: i64,
)
    ensures
        lock_outcome(ctx, amount, 0) == Err::<(), BridgeError>(BridgeError::InvalidChain),
        balances_after(ctx, amount, 0) == ctx,
        log_after(log, ctx, amount, 0, now) == log,
{
}

/// A lock moves tokens and records them as one step. A refused lock changes
/// nothing. A lock that succeeds takes exactly the amount from the source,
/// gives exactly the amount to custody, so that their sum is what it was, and
/// adds exactly one record, which names the caller, the amount moved, the
/// target chain, which is not zero, and the time.
pub proof fn lemma_lock_is_atomic(
    ctx: LockTokens,
    log: Seq<TokenLocked>,
    amount: u64,
    target_chain: u16,
    now: i64,
)
    ensures
        lock_outcome(ctx, amount, target_chain) is Err ==> balances_after(ctx, amount, target_chain)
            == ctx && log_after(log, ctx, amount, target_chain, now) == log,
        lock_outcome(ctx, amount, target_chain) is Ok ==> ({
            let after = balances_after(ctx, amount, target_chain);
            let grown = log_after(log, ctx, amount, target_chain, now);
            &&& after.source.amount == ctx.source.amount - amount
            &&& after.custody.amount == ctx.custody.amount + amount
            &&& after.source.amount + after.custody.amount == ctx.source.amount
                + ctx.custody.amount
            &&& after.source.owner == ctx.source.owner
            &&& after.custody.owner == ctx.custody.owner
            &&& grown.len() == log.len() + 1
            &&& grown.subrange(0, log.len() as int) == log
            &&& grown.last().sender == ctx.owner.key
            &&& grown.last().amount == amount
            &&& grown.last().target_chain == target_chain
            &&& grown.last().target_chain != 0
            &&& grown.last().timestamp == now
        }),
{
}

/// The log only grows: whatever a lock does, the records that were in the log
/// stay where they were.
pub proof fn lemma_log_is_append_only(
    ctx: LockTokens,
    log: Seq<TokenLocked>,
    amount: u64,
    target_chain: u16,
    now: i64,
    index: int,
)
    requires
        0 <= index < log.len(),
    ensures
        log.len() <= log_after(log, ctx, amount, target_chain, now).len() <= log.len() + 1,
        log_after(log, ctx, amount, target_chain, now)[index] == log[index],
{
}

/// The request of `second` as it stands once `first` has run: it sees the
/// custody balance that `first` left.
pub open spec fn following(first: LockTokens, second: LockTokens) -> LockTokens {
    LockTokens { custody: first.custody, ..second }
}

/// Two locks that draw on different source balances and pay into the same
/// custody do not disturb each other. Where each would succeed alone and
/// custody has room for both amounts, both succeed in either order, each
/// source loses its own amount, custody gains both, and the log shows the two
/// records in the order in which the locks ran.
pub proof fn lemma_disjoint_locks(
    one: LockTokens,
    two: LockTokens,
    log: Seq<TokenLocked>,
    amount_one: u64,
    chain_one: u16,
    now_one: i64,
    amount_two: u64,
    chain_two: u16,
    now_two: i64,
)
    requires
        one.custody == two.custody,
        lock_outcome(one, amount_one, chain_one) is Ok,
        lock_outcome(two, amount_two, chain_two) is Ok,
        one.custody.amount + amount_one + amount_two <= u64::MAX,
    ensures
        ({
            let one_first = balances_after(one, amount_one, chain_one);
            let two_second = following(one_first, two);
            let two_first = balances_after(two, amount_two, chain_two);
            let one_second = following(two_first, one);
            let record_one = lock_record(one, amount_one, chain_one, now_one);
            let record_two = lock_record(two, amount_two, chain_two, now_two);
            &&& lock_outcome(two_second, amount_two, chain_two) is Ok
            &&& lock_outcome(one_second, amount_one, chain_one) is Ok
            &&& balances_after(two_second, amount_two, chain_two).source == two_first.source
            &&& balances_after(one_second, amount_one, chain_one).source == one_first.source
            &&& balances_after(two_second, amount_two, chain_two).custody == balances_after(
                one_second,
                amount_one,
                chain_one,
            ).custody
            &&& balances_after(two_second, amount_two, chain_two).custody.amount
                == one.custody.amount + amount_one + amount_two
            &&& log_after(
                log_after(log, one, amount_one, chain_one, now_one),
                two_second,
                amount_two,
                chain_two,
                now_two,
            ) == log.push(record_one).push(record_two)
            &&& log_after(
                log_after(log, two, amount_two, chain_two, now_two),
                one_second,
                amount_one,
                chain_one,
                now_one,
            ) == log.push(record_two).push(record_one)
        }),
{
}

/// What one lock asks for: the amount, the target chain and the time.
pub struct LockRequest {
    pub amount: u64,
    pub target_chain: u16,
    pub now: i64,
}

/// The balances after a run of locks on the same accounts, one after the
/// other, each seeing what the one before left.
pub open spec fn balances_after_all(ctx: LockTokens, requests: Seq<LockRequest>) -> LockTokens
    decreases requests.len(),
{
    if requests.len() == 0 {
        ctx
    } else {
        balances_after(
            balances_after_all(ctx, requests.drop_last()),
            requests.last().amount,
            requests.last().target_chain,
        )
    }
}

/// The log after a run of locks on the same accounts.
pub open spec fn log_after_all(
    log: Seq<TokenLocked>,
    ctx: LockTokens,
    requests: Seq<LockRequest>,
) -> Seq<TokenLocked>
    decreases requests.len(),
{
    if requests.len() == 0 {
        log
    } else {
        log_after(
            log_after_all(log, ctx, requests.drop_last()),
            balances_after_all(ctx, requests.drop_last()),
            requests.last().amount,
            requests.last().target_chain,
            requests.last().now,
        )
    }
}

/// The sum of the amounts of the records from `from` on.
pub open spec fn recorded_since(log: Seq<TokenLocked>, from: int) -> int
    decreases log.len() - from,
{
    if from < 0 || from >= log.len() {
        0
    } else {
        log[from].amount + recorded_since(log, from + 1)
    }
}

proof fn lemma_recorded_push(log: Seq<TokenLocked>, from: int, record: TokenLocked)
    requires
        0 <= from <= log.len(),
    ensures
        recorded_since(log.push(record), from) == recorded_since(log, from) + record.amount,
    decreases log.len() - from,
{
    if from < log.len() {
        lemma_recorded_push(log, from + 1, record);
    } else {
        assert(recorded_since(log.push(record), from + 1) == 0);
    }
}

/// Custody holds what the log says: over any run of locks, whichever of them
/// succeed, custody has grown by exactly the sum of the amounts recorded
/// during the run, the source has shrunk by the same sum, and the records
/// from before the run are untouched.
pub proof fn lemma_custody_matches_the_log(
    ctx: LockTokens,
    log: Seq<TokenLocked>,
    requests: Seq<LockRequest>,
)
    ensures
        ({
            let after = balances_after_all(ctx, requests);
            let grown = log_after_all(log, ctx, requests);
            &&& log.len() <= grown.len() <= log.len() + requests.len()
            &&& grown.subrange(0, log.len() as int) == log
            &&& after.custody.amount - ctx.custody.amount == recorded_since(
                grown,
                log.len() as int,
            )
            &&& ctx.source.amount - after.source.amount == recorded_since(grown, log.len() as int)
            &&& after.source.owner == ctx.source.owner
            &&& after.custody.owner == ctx.custody.owner
            &&& after.owner == ctx.owner
        }),
    decreases requests.len(),
{
    if requests.len() > 0 {
        let earlier = requests.drop_last();
        let last = requests.last();
        lemma_custody_matches_the_log(ctx, log, earlier);
        let before = balances_after_all(ctx, earlier);
        let so_far = log_after_all(log, ctx, earlier);
        if lock_outcome(before, last.amount, last.target_chain) is Ok {
            let record = lock_record(before, last.amount, last.target_chain, last.now);
            lemma_recorded_push(so_far, log.len() as int, record);
        }
    }
}

/// Distinct errors are surfaced under distinct codes.
pub proof fn lemma_codes_distinguish(a: BridgeError, b: BridgeError)
    ensures
        a.spec_code() == b.spec_code() <==> a == b,
{
}

} // verus!
