//! Chain executor: what a swap is asked to deliver, and what it is booked as once
//! the chain has answered.
//!
//! An execution asks the chain client for one thing at a time. The caller performs
//! what is asked and hands the answer back; a call that failed is handed back as
//! nothing. What is booked is always what the wallet's balances show, never what
//! the router quoted.

use crate::address::{address_text, write_address, Address, TxHash};
use crate::amount::{
    amount_of, checked_sub, lemma_amount_of_view, slippage_floor, valuation, Amount,
    ArithmeticError, MAX_SCALE_DIGITS,
};
use crate::clock::{is_nameable, nameable};
use crate::config::{chain_name, BotConfig};
use crate::engine::scanner::GemCandidate;
use vstd::prelude::*;

verus! {

/// The time past its deadline that a swap is waited for, in seconds.
pub const RECEIPT_GRACE_SECS: u64 = 30;

/// The decimal places that a base asset is taken to have where it does not say.
pub const DEFAULT_DECIMALS: u8 = 18;

/// What a swap did, as the wallet's balances show it.
#[derive(Clone, Copy, Debug, PartialEq, Eq, Structural)]
pub struct ExecutionResult {
    pub tx_hash: TxHash,
    pub token_address: Address,
    pub base_token: Address,
    /// Base asset spent on an entry, or redeemed by an exit.
    pub base_spent: Amount,
    pub tokens_acquired: Amount,
    pub block_number: u64,
    pub timestamp: i64,
}

/// Why a position is to be closed.
#[derive(Clone, Copy, Debug, PartialEq, Eq, Structural)]
pub enum ExitReason {
    TakeProfit,
    StopLoss,
    RiskAlert,
    Manual,
}

/// An order to sell a position.
#[derive(Clone, Copy, Debug, PartialEq, Eq, Structural)]
pub struct ExitOrder {
    pub position_id: u128,
    pub token_address: Address,
    pub base_token: Address,
    pub token_amount: Amount,
    /// The least base asset that the sale may deliver.
    pub min_output: Amount,
    pub reason: ExitReason,
}

/// Why an execution failed.
#[derive(Clone, Copy, Debug, PartialEq, Eq, Structural)]
pub enum ExecutionError {
    /// The router could not be asked for a quote.
    QuoteFailed,
    /// The router answered a quote with no amounts.
    EmptyQuotePath,
    /// The least output could not be computed.
    Slippage(ArithmeticError),
    /// The deadline is no point in time that the chain can name.
    DeadlineOutOfRange,
    /// A balance could not be read.
    BalanceUnavailable,
    /// The swap could not be sent.
    SubmitFailed,
    /// The swap was not mined in time.
    TxTimeout,
    /// The chain reports that the swap failed.
    TxReverted,
    /// The swap was dropped without a receipt.
    MissingReceipt,
    /// The receipt names no block.
    MissingBlockNumber,
    /// The wallet holds less of the token after buying it than before.
    BalanceDecreased,
    /// The allowance could not be read.
    AllowanceUnavailable,
    /// The approval was not granted.
    ApprovalFailed,
    /// An answer was given to another question than the one asked.
    OutOfTurn,
}

/// What an execution asks of the chain client.
#[derive(Clone, Copy, Debug, PartialEq, Eq, Structural)]
pub enum ChainRequest {
    /// What the router would give out for `amount_in` of `from`, paid in `to`.
    Quote { amount_in: Amount, from: Address, to: Address },
    /// The wallet's balance of the native asset.
    NativeBalance,
    /// The wallet's balance of a token.
    TokenBalance(Address),
    /// The decimal places of a token.
    Decimals(Address),
    /// How much of `owner`'s token `spender` may spend.
    Allowance { token: Address, owner: Address, spender: Address },
    /// Let `spender` spend `amount` of the wallet's token.
    Approve { token: Address, spender: Address, amount: Amount, gas_price_gwei: u64 },
    /// Pay `amount_in` of the native asset for at least `min_out` of `to`, and wait
    /// for the receipt no longer than `timeout_secs`.
    SwapNativeForTokens {
        amount_in: Amount,
        min_out: Amount,
        from: Address,
        to: Address,
        recipient: Address,
        deadline: u64,
        gas_price_gwei: u64,
        timeout_secs: u64,
    },
    /// Pay `amount_in` of `from` for at least `min_out` of the native asset.
    SwapTokensForNative {
        amount_in: Amount,
        min_out: Amount,
        from: Address,
        to: Address,
        recipient: Address,
        deadline: u64,
        gas_price_gwei: u64,
    },
    /// The time of a block, in seconds since the epoch.
    BlockTimestamp(u64),
}

/// How a swap ended.
#[derive(Clone, Copy, Debug, PartialEq, Eq, Structural)]
pub enum SwapOutcome {
    NotSent,
    TimedOut,
    Reverted,
    Dropped,
    Mined { tx_hash: TxHash, block_number: Option<u64> },
}

/// What the chain client answered.
#[derive(Clone, Copy, Debug, PartialEq, Eq)]
pub enum ChainReply {
    Quote(Result<Amount, ExecutionError>),
    Balance(Option<Amount>),
    Decimals(Option<u8>),
    Allowance(Option<Amount>),
    /// Whether the approval was mined.
    Approval(bool),
    Swap(SwapOutcome),
    BlockTimestamp(Option<u64>),
}

/// What an execution does next.
#[derive(Clone, Copy, Debug, PartialEq, Eq)]
pub enum Step {
    Ask(ChainRequest),
    Finished(Result<ExecutionResult, ExecutionError>),
}

/// The chain executor: the settings and the wallet on whose behalf it acts. The
/// chain client itself is the caller's.
#[derive(Clone, Debug)]
pub struct Trader {
    pub config: BotConfig,
    pub wallet_address: Address,
}

/// What a quote comes to: the last of the amounts that the router answered.
pub open spec fn quote_outcome(amounts: Option<Seq<Amount>>) -> Result<Amount, ExecutionError> {
    match amounts {
        None => Err(ExecutionError::QuoteFailed),
        Some(a) => if a.len() == 0 {
            Err(ExecutionError::EmptyQuotePath)
        } else {
            Ok(a.last())
        },
    }
}

/// How the wallet's balance of an asset is read: the wallet's own address stands
/// for the native asset.
pub open spec fn balance_request(token: Address, wallet: Address) -> ChainRequest {
    if token == wallet {
        ChainRequest::NativeBalance
    } else {
        ChainRequest::TokenBalance(token)
    }
}

/// The deadline of a swap that is sent at `now`: `deadline_secs` later, where that
/// is a time the chain can name.
pub open spec fn swap_deadline_at(now: i64, deadline_secs: u64) -> Option<u64> {
    if 0 <= now + deadline_secs <= u64::MAX {
        Some((now + deadline_secs) as u64)
    } else {
        None
    }
}

/// How long the receipt of a swap is waited for: its deadline and a grace of half a
/// minute, or as long as can be said.
pub open spec fn receipt_timeout(deadline_secs: u64) -> u64 {
    if deadline_secs + RECEIPT_GRACE_SECS <= u64::MAX {
        (deadline_secs + RECEIPT_GRACE_SECS) as u64
    } else {
        u64::MAX
    }
}

/// The time at which a swap is booked: that of its block where the clock library
/// can name it, else the wall-clock time.
pub open spec fn booked_time(block_time: Option<u64>, now: i64) -> i64 {
    match block_time {
        Some(t) => if t <= i64::MAX && nameable(t as int) {
            t as i64
        } else {
            now
        },
        None => now,
    }
}

/// What a swap that did not end in a block with a number fails with.
pub open spec fn swap_failure(outcome: SwapOutcome) -> Option<ExecutionError> {
    match outcome {
        SwapOutcome::NotSent => Some(ExecutionError::SubmitFailed),
        SwapOutcome::TimedOut => Some(ExecutionError::TxTimeout),
        SwapOutcome::Reverted => Some(ExecutionError::TxReverted),
        SwapOutcome::Dropped => Some(ExecutionError::MissingReceipt),
        SwapOutcome::Mined { tx_hash, block_number } => match block_number {
            None => Some(ExecutionError::MissingBlockNumber),
            Some(_) => None,
        },
    }
}

/// The dollar worth of what one whole token was quoted to fetch: that of the quoted
/// amount of a base asset of so many decimal places (eighteen where it does not say)
/// at the given price; none where the decimal places are more than can be scaled.
pub open spec fn token_price(quoted: Amount, base_decimals: Option<u8>, price: u64) -> Option<
    u64,
> {
    let decimals = match base_decimals {
        Some(d) => d,
        None => DEFAULT_DECIMALS,
    };
    if decimals > MAX_SCALE_DIGITS {
        None
    } else {
        valuation(quoted@, decimals, price)
    }
}

/// The price that stands under a name: that of the first entry with the name.
pub open spec fn price_under(coins: Seq<(String, u64)>, name: Seq<char>) -> Option<u64>
    decreases coins.len(),
{
    if coins.len() == 0 {
        None
    } else if coins[0].0@ == name {
        Some(coins[0].1)
    } else {
        price_under(coins.drop_first(), name)
    }
}

/// The name under which the price oracle files an asset: the network, a colon, and
/// the asset's address.
pub open spec fn oracle_key(config: BotConfig, asset: Address) -> Seq<char> {
    chain_name(config.chain) + seq![':'] + address_text(asset)
}

fn deadline_at(now: i64, deadline_secs: u64) -> (r: Option<u64>)
    ensures
        r == swap_deadline_at(now, deadline_secs),
{
    let sum: i128 = now as i128 + deadline_secs as i128;
    if 0 <= sum && sum <= u64::MAX as i128 {
        Some(sum as u64)
    } else {
        None
    }
}

fn timeout_for(deadline_secs: u64) -> (r: u64)
    ensures
        r == receipt_timeout(deadline_secs),
{
    if deadline_secs <= u64::MAX - RECEIPT_GRACE_SECS {
        deadline_secs + RECEIPT_GRACE_SECS
    } else {
        u64::MAX
    }
}

fn time_to_book(block_time: Option<u64>, now: i64) -> (r: i64)
    ensures
        r == booked_time(block_time, now),
{
    match block_time {
        Some(t) => {
            if t <= i64::MAX as u64 && is_nameable(t as i64) {
                t as i64
            } else {
                now
            }
        },
        None => now,
    }
}

fn failure_of(outcome: SwapOutcome) -> (r: Option<ExecutionError>)
    ensures
        r == swap_failure(outcome),
{
    match outcome {
        SwapOutcome::NotSent => Some(ExecutionError::SubmitFailed),
        SwapOutcome::TimedOut => Some(ExecutionError::TxTimeout),
        SwapOutcome::Reverted => Some(ExecutionError::TxReverted),
        SwapOutcome::Dropped => Some(ExecutionError::MissingReceipt),
        SwapOutcome::Mined { tx_hash: _, block_number } => match block_number {
            None => Some(ExecutionError::MissingBlockNumber),
            Some(_) => None,
        },
    }
}

impl Trader {
    /// An executor under the given settings, acting for the given wallet.
    pub fn new(config: BotConfig, wallet_address: Address) -> (r: Trader)
        ensures
            r.config == config,
            r.wallet_address == wallet_address,
    {
        Trader { config, wallet_address }
    }

    /// What to ask the router for the price of a purchase: the tokens that
    /// `amount_in` of the base asset buys.
    pub fn quote_buy(&self, token: &Address, amount_in: Amount, base_token: Address) -> (r:
        ChainRequest)
        ensures
            r == (ChainRequest::Quote { amount_in, from: base_token, to: *token }),
    {
        ChainRequest::Quote { amount_in, from: base_token, to: *token }
    }

    /// What to ask the router for the price of a sale: the base asset that
    /// `amount_in` of the token fetches.
    pub fn quote_sell(&self, token: &Address, amount_in: Amount, base_token: Address) -> (r:
        ChainRequest)
        ensures
            r == (ChainRequest::Quote { amount_in, from: *token, to: base_token }),
    {
        ChainRequest::Quote { amount_in, from: *token, to: base_token }
    }

    /// What a quote comes to: the last of the amounts that the router answered.
    /// `amounts` is nothing where the router could not be asked.
    pub fn quoted(amounts: Option<&Vec<Amount>>) -> (r: Result<Amount, ExecutionError>)
        ensures
            r == quote_outcome(
                match amounts {
                    Some(a) => Some(a@),
                    None => None,
                },
            ),
    {
        match amounts {
            None => Err(ExecutionError::QuoteFailed),
            Some(a) => {
                if a.len() == 0 {
                    Err(ExecutionError::EmptyQuotePath)
                } else {
                    Ok(a[a.len() - 1])
                }
            },
        }
    }

    /// How to read the wallet's balance of an asset; the wallet's own address
    /// stands for the native asset.
    pub fn token_balance(&self, token: &Address) -> (r: ChainRequest)
        ensures
            r == balance_request(*token, self.wallet_address),
    {
        if *token == self.wallet_address {
            ChainRequest::NativeBalance
        } else {
            ChainRequest::TokenBalance(*token)
        }
    }

    /// How to read the decimal places of a token.
    pub fn token_decimals(&self, token: Address) -> (r: ChainRequest)
        ensures
            r == ChainRequest::Decimals(token),
    {
        ChainRequest::Decimals(token)
    }

    /// The dollar worth, in millionths, of what one whole token (ten to the
    /// eighteenth of its smallest unit) was quoted to fetch in the base asset.
    ///
    /// `base_decimals` is nothing where the base asset does not tell its decimal
    /// places, which are then taken to be eighteen. There is no price where the
    /// base asset has more decimal places than can be scaled, nor where the worth
    /// cannot be told.
    pub fn fetch_token_price_usd(
        &self,
        quoted: Amount,
        base_decimals: Option<u8>,
        usd_price_per_base: u64,
    ) -> (r: Option<u64>)
        ensures
            r == token_price(quoted, base_decimals, usd_price_per_base),
    {
        let decimals: u8 = match base_decimals {
            Some(d) => d,
            None => DEFAULT_DECIMALS,
        };
        if decimals > MAX_SCALE_DIGITS {
            return None;
        }
        match quoted.value_usd(decimals, usd_price_per_base) {
            Ok(v) => Some(v),
            Err(_) => None,
        }
    }

    /// The name under which the price oracle files a base asset.
    pub fn price_key(&self, base_token: Address) -> (r: String)
        ensures
            r@ == oracle_key(self.config, base_token),
    {
        let chain = self.config.chain_as_str();
        let mut key = String::from_str(chain);
        key.append(":");
        proof {
            reveal_strlit(":");
            assert(":"@ =~= seq![':']);
        }
        let address = write_address(base_token);
        key.append(address.as_str());
        key
    }

    /// The dollar price of a base asset, in millionths, among the prices that the
    /// oracle returned, each under the name of its asset; nothing where the asset's
    /// name is not among them.
    pub fn fetch_base_usd_price(&self, base_token: Address, coins: &Vec<(String, u64)>) -> (r:
        Option<u64>)
        ensures
            r == price_under(coins@, oracle_key(self.config, base_token)),
    {
        let key = self.price_key(base_token);
        let mut i: usize = 0;
        proof {
            assert(coins@.subrange(0, coins.len() as int) =~= coins@);
        }
        while i < coins.len()
            invariant
                i <= coins.len(),
                key@ == oracle_key(self.config, base_token),
                price_under(coins@, key@) == price_under(
                    coins@.subrange(i as int, coins.len() as int),
                    key@,
                ),
            decreases coins.len() - i,
        {
            let ghost rest = coins@.subrange(i as int, coins.len() as int);
            proof {
                assert(rest[0] == coins@[i as int]);
                assert(rest.drop_first() =~= coins@.subrange(i + 1, coins.len() as int));
            }
            if coins[i].0 == key {
                return Some(coins[i].1);
            }
            i = i + 1;
        }
        None
    }
}

/// How far an entry has come.
#[derive(Clone, Copy, Debug, PartialEq, Eq, Structural)]
pub enum EntryStage {
    AwaitQuote,
    AwaitBalanceBefore { min_out: Amount },
    AwaitSwap { before: Amount },
    AwaitBalanceAfter { before: Amount, tx_hash: TxHash, block_number: u64 },
    AwaitBlockTime { acquired: Amount, tx_hash: TxHash, block_number: u64 },
    Done,
}

/// An entry under way: a purchase of a token for the native asset.
#[derive(Clone, Copy, Debug, PartialEq, Eq, Structural)]
pub struct EntryFlow {
    pub token: Address,
    pub base_token: Address,
    pub amount_in: Amount,
    pub wallet: Address,
    pub slippage_bps: u16,
    pub deadline_secs: u64,
    pub gas_price_gwei: u64,
    pub stage: EntryStage,
}

/// How far an exit has come.
#[derive(Clone, Copy, Debug, PartialEq, Eq, Structural)]
pub enum ExitStage {
    AwaitAllowance,
    AwaitApproval,
    AwaitBalanceBefore,
    AwaitSwap { before: Amount },
    AwaitBalanceAfter { before: Amount, tx_hash: TxHash, block_number: u64 },
    AwaitBlockTime { redeemed: Amount, tx_hash: TxHash, block_number: u64 },
    Done,
}

/// An exit under way: a sale of a position for the native asset.
#[derive(Clone, Copy, Debug, PartialEq, Eq, Structural)]
pub struct ExitFlow {
    pub order: ExitOrder,
    pub wallet: Address,
    pub router: Address,
    pub deadline: u64,
    pub gas_price_gwei: u64,
    pub stage: ExitStage,
}

/// What a balance has grown by, where it has not shrunk.
pub open spec fn growth(before: Amount, after: Amount) -> Option<Amount> {
    if after@ >= before@ {
        Some(amount_of((after@ - before@) as nat))
    } else {
        None
    }
}

/// The growth of a balance is the later balance less the earlier.
pub proof fn lemma_growth_is_difference(before: Amount, after: Amount)
    requires
        after@ >= before@,
    ensures
        growth(before, after).is_some(),
        growth(before, after).unwrap()@ == after@ - before@,
{
    crate::amount::lemma_view_bounded(after);
    crate::amount::lemma_amount_of_spells((after@ - before@) as nat);
}

fn grown(before: Amount, after: Amount) -> (r: Option<Amount>)
    ensures
        r == growth(before, after),
{
    match checked_sub(after, before) {
        Some(d) => {
            proof {
                lemma_amount_of_view(d);
            }
            Some(d)
        },
        None => None,
    }
}

/// The swap that an entry sends.
pub open spec fn entry_swap(flow: EntryFlow, min_out: Amount, deadline: u64) -> ChainRequest {
    ChainRequest::SwapNativeForTokens {
        amount_in: flow.amount_in,
        min_out,
        from: flow.base_token,
        to: flow.token,
        recipient: flow.wallet,
        deadline,
        gas_price_gwei: flow.gas_price_gwei,
        timeout_secs: receipt_timeout(flow.deadline_secs),
    }
}

/// What an entry does with an answer: the stage it moves to, and what it asks or
/// ends with.
///
/// It asks for a quote, takes the tolerated slippage off it, reads the wallet's
/// balance of the token, sends the swap, waits for it to be mined, reads the balance
/// again, and asks for the time of the block. What it books as acquired is the
/// growth of the balance. A failed call and an answer out of turn end it.
pub open spec fn entry_transition(flow: EntryFlow, reply: ChainReply, now: i64) -> (
    EntryStage,
    Step,
) {
    match (flow.stage, reply) {
        (EntryStage::AwaitQuote, ChainReply::Quote(Err(e))) => (
            EntryStage::Done,
            Step::Finished(Err(e)),
        ),
        (EntryStage::AwaitQuote, ChainReply::Quote(Ok(expected))) => match slippage_floor(
            expected,
            flow.slippage_bps,
        ) {
            Err(e) => (EntryStage::Done, Step::Finished(Err(ExecutionError::Slippage(e)))),
            Ok(min_out) => (
                EntryStage::AwaitBalanceBefore { min_out },
                Step::Ask(balance_request(flow.token, flow.wallet)),
            ),
        },
        (EntryStage::AwaitBalanceBefore { min_out }, ChainReply::Balance(None)) => (
            EntryStage::Done,
            Step::Finished(Err(ExecutionError::BalanceUnavailable)),
        ),
        (EntryStage::AwaitBalanceBefore { min_out }, ChainReply::Balance(Some(before))) => {
            match swap_deadline_at(now, flow.deadline_secs) {
                None => (
                    EntryStage::Done,
                    Step::Finished(Err(ExecutionError::DeadlineOutOfRange)),
                ),
                Some(deadline) => (
                    EntryStage::AwaitSwap { before },
                    Step::Ask(entry_swap(flow, min_out, deadline)),
                ),
            }
        },
        (EntryStage::AwaitSwap { before }, ChainReply::Swap(outcome)) => match outcome {
            SwapOutcome::Mined { tx_hash, block_number: Some(block_number) } => (
                EntryStage::AwaitBalanceAfter { before, tx_hash, block_number },
                Step::Ask(balance_request(flow.token, flow.wallet)),
            ),
            _ => (EntryStage::Done, Step::Finished(Err(swap_failure(outcome).unwrap()))),
        },
        (
            EntryStage::AwaitBalanceAfter { before, tx_hash, block_number },
            ChainReply::Balance(None),
        ) => (EntryStage::Done, Step::Finished(Err(ExecutionError::BalanceUnavailable))),
        (
            EntryStage::AwaitBalanceAfter { before, tx_hash, block_number },
            ChainReply::Balance(Some(after)),
        ) => match growth(before, after) {
            None => (EntryStage::Done, Step::Finished(Err(ExecutionError::BalanceDecreased))),
            Some(acquired) => (
                EntryStage::AwaitBlockTime { acquired, tx_hash, block_number },
                Step::Ask(ChainRequest::BlockTimestamp(block_number)),
            ),
        },
        (
            EntryStage::AwaitBlockTime { acquired, tx_hash, block_number },
            ChainReply::BlockTimestamp(block_time),
        ) => (
            EntryStage::Done,
            Step::Finished(
                Ok(
                    ExecutionResult {
                        tx_hash,
                        token_address: flow.token,
                        base_token: flow.base_token,
                        base_spent: flow.amount_in,
                        tokens_acquired: acquired,
                        block_number,
                        timestamp: booked_time(block_time, now),
                    },
                ),
            ),
        ),
        _ => (EntryStage::Done, Step::Finished(Err(ExecutionError::OutOfTurn))),
    }
}

/// The swap that an exit sends.
pub open spec fn exit_swap(flow: ExitFlow) -> ChainRequest {
    ChainRequest::SwapTokensForNative {
        amount_in: flow.order.token_amount,
        min_out: flow.order.min_output,
        from: flow.order.token_address,
        to: flow.order.base_token,
        recipient: flow.wallet,
        deadline: flow.deadline,
        gas_price_gwei: flow.gas_price_gwei,
    }
}

/// What an exit books as redeemed: the growth of the wallet's native balance, or
/// the order's least output where the balance has not grown.
pub open spec fn redeemed(order: ExitOrder, before: Amount, after: Amount) -> Amount {
    match growth(before, after) {
        Some(g) => g,
        None => order.min_output,
    }
}

/// What an exit does with an answer: the stage it moves to, and what it asks or
/// ends with.
///
/// It makes sure that the router may spend the tokens, asking for an unlimited
/// allowance where the present one is short; reads the wallet's native balance;
/// sends the swap; waits for it to be mined; reads the balance again; and asks for
/// the time of the block. A failed call and an answer out of turn end it.
pub open spec fn exit_transition(flow: ExitFlow, reply: ChainReply, now: i64) -> (
    ExitStage,
    Step,
) {
    match (flow.stage, reply) {
        (ExitStage::AwaitAllowance, ChainReply::Allowance(None)) => (
            ExitStage::Done,
            Step::Finished(Err(ExecutionError::AllowanceUnavailable)),
        ),
        (ExitStage::AwaitAllowance, ChainReply::Allowance(Some(allowed))) => if allowed@
            >= flow.order.token_amount@ {
            (ExitStage::AwaitBalanceBefore, Step::Ask(ChainRequest::NativeBalance))
        } else {
            (
                ExitStage::AwaitApproval,
                Step::Ask(
                    ChainRequest::Approve {
                        token: flow.order.token_address,
                        spender: flow.router,
                        amount: amount_of((crate::amount::amount_limit() - 1) as nat),
                        gas_price_gwei: flow.gas_price_gwei,
                    },
                ),
            )
        },
        (ExitStage::AwaitApproval, ChainReply::Approval(granted)) => if granted {
            (ExitStage::AwaitBalanceBefore, Step::Ask(ChainRequest::NativeBalance))
        } else {
            (ExitStage::Done, Step::Finished(Err(ExecutionError::ApprovalFailed)))
        },
        (ExitStage::AwaitBalanceBefore, ChainReply::Balance(None)) => (
            ExitStage::Done,
            Step::Finished(Err(ExecutionError::BalanceUnavailable)),
        ),
        (ExitStage::AwaitBalanceBefore, ChainReply::Balance(Some(before))) => (
            ExitStage::AwaitSwap { before },
            Step::Ask(exit_swap(flow)),
        ),
        (ExitStage::AwaitSwap { before }, ChainReply::Swap(outcome)) => match outcome {
            SwapOutcome::Mined { tx_hash, block_number: Some(block_number) } => (
                ExitStage::AwaitBalanceAfter { before, tx_hash, block_number },
                Step::Ask(ChainRequest::NativeBalance),
            ),
            _ => (ExitStage::Done, Step::Finished(Err(swap_failure(outcome).unwrap()))),
        },
        (
            ExitStage::AwaitBalanceAfter { before, tx_hash, block_number },
            ChainReply::Balance(None),
        ) => (ExitStage::Done, Step::Finished(Err(ExecutionError::BalanceUnavailable))),
        (
            ExitStage::AwaitBalanceAfter { before, tx_hash, block_number },
            ChainReply::Balance(Some(after)),
        ) => (
            ExitStage::AwaitBlockTime {
                redeemed: redeemed(flow.order, before, after),
                tx_hash,
                block_number,
            },
            Step::Ask(ChainRequest::BlockTimestamp(block_number)),
        ),
        (
            ExitStage::AwaitBlockTime { redeemed, tx_hash, block_number },
            ChainReply::BlockTimestamp(block_time),
        ) => (
            ExitStage::Done,
            Step::Finished(
                Ok(
                    ExecutionResult {
                        tx_hash,
                        token_address: flow.order.token_address,
                        base_token: flow.order.base_token,
                        base_spent: redeemed,
                        tokens_acquired: flow.order.token_amount,
                        block_number,
                        timestamp: booked_time(block_time, now),
                    },
                ),
            ),
        ),
        _ => (ExitStage::Done, Step::Finished(Err(ExecutionError::OutOfTurn))),
    }
}

/// How an exit begins: with the allowance, unless the token is the wallet's own
/// native asset, which needs none.
pub open spec fn exit_start(order: ExitOrder, wallet: Address, router: Address) -> (
    ExitStage,
    ChainRequest,
) {
    if order.token_address == wallet {
        (ExitStage::AwaitBalanceBefore, ChainRequest::NativeBalance)
    } else {
        (
            ExitStage::AwaitAllowance,
            ChainRequest::Allowance { token: order.token_address, owner: wallet, spender: router },
        )
    }
}

/// What an entry books as acquired is what the wallet's balance of the token has
/// grown by between the two readings, whatever the router quoted.
pub proof fn lemma_entry_books_growth(
    flow: EntryFlow,
    before: Amount,
    tx_hash: TxHash,
    block_number: u64,
    after: Amount,
    now: i64,
)
    requires
        flow.stage == (EntryStage::AwaitBalanceAfter { before, tx_hash, block_number }),
        after@ >= before@,
    ensures
        growth(before, after).is_some(),
        growth(before, after).unwrap()@ == after@ - before@,
        entry_transition(flow, ChainReply::Balance(Some(after)), now).0
            == (EntryStage::AwaitBlockTime {
            acquired: growth(before, after).unwrap(),
            tx_hash,
            block_number,
        }),
{
    lemma_growth_is_difference(before, after);
}

/// An entry that ends well books the growth it has seen as acquired, and what it was
/// told to spend as spent.
pub proof fn lemma_entry_result(
    flow: EntryFlow,
    acquired: Amount,
    tx_hash: TxHash,
    block_number: u64,
    block_time: Option<u64>,
    now: i64,
)
    requires
        flow.stage == (EntryStage::AwaitBlockTime { acquired, tx_hash, block_number }),
    ensures
        entry_transition(flow, ChainReply::BlockTimestamp(block_time), now).1 == Step::Finished(
            Ok(
                ExecutionResult {
                    tx_hash,
                    token_address: flow.token,
                    base_token: flow.base_token,
                    base_spent: flow.amount_in,
                    tokens_acquired: acquired,
                    block_number,
                    timestamp: booked_time(block_time, now),
                },
            ),
        ),
{
}

/// An entry asks the swap to deliver at least the quote less the tolerated slippage.
pub proof fn lemma_entry_floor(flow: EntryFlow, expected: Amount, before: Amount, now: i64)
    requires
        flow.stage is AwaitQuote,
        slippage_floor(expected, flow.slippage_bps).is_ok(),
        swap_deadline_at(now, flow.deadline_secs).is_some(),
    ensures
        entry_transition(flow, ChainReply::Quote(Ok(expected)), now).0
            == (EntryStage::AwaitBalanceBefore {
            min_out: slippage_floor(expected, flow.slippage_bps).unwrap(),
        }),
        entry_transition(
            EntryFlow {
                stage: entry_transition(flow, ChainReply::Quote(Ok(expected)), now).0,
                ..flow
            },
            ChainReply::Balance(Some(before)),
            now,
        ).1 == Step::Ask(
            entry_swap(
                flow,
                slippage_floor(expected, flow.slippage_bps).unwrap(),
                swap_deadline_at(now, flow.deadline_secs).unwrap(),
            ),
        ),
{
}

/// Whether a step asks for an approval.
pub open spec fn asks_approval(step: Step) -> bool {
    step matches Step::Ask(ChainRequest::Approve { .. })
}

/// An exit asks for an allowance exactly where the present one is short of the
/// amount to sell.
pub proof fn lemma_exit_approves_when_short(flow: ExitFlow, allowed: Amount, now: i64)
    requires
        flow.stage is AwaitAllowance,
    ensures
        asks_approval(exit_transition(flow, ChainReply::Allowance(Some(allowed)), now).1) == (
        allowed@ < flow.order.token_amount@),
{
}

/// What an exit books as redeemed is what the wallet's native balance has grown by
/// or, where it has not grown, the least output that the order asked for.
pub proof fn lemma_exit_books_growth(
    flow: ExitFlow,
    before: Amount,
    tx_hash: TxHash,
    block_number: u64,
    after: Amount,
    now: i64,
)
    requires
        flow.stage == (ExitStage::AwaitBalanceAfter { before, tx_hash, block_number }),
    ensures
        exit_transition(flow, ChainReply::Balance(Some(after)), now).0
            == (ExitStage::AwaitBlockTime {
            redeemed: redeemed(flow.order, before, after),
            tx_hash,
            block_number,
        }),
        after@ >= before@ ==> redeemed(flow.order, before, after)@ == after@ - before@,
        after@ < before@ ==> redeemed(flow.order, before, after) == flow.order.min_output,
{
    if after@ >= before@ {
        lemma_growth_is_difference(before, after);
    }
}

/// An execution that has ended stays ended.
pub proof fn lemma_done_is_final(entry: EntryFlow, exit: ExitFlow, reply: ChainReply, now: i64)
    requires
        entry.stage is Done,
        exit.stage is Done,
    ensures
        entry_transition(entry, reply, now) == (
            EntryStage::Done,
            Step::Finished(Err(ExecutionError::OutOfTurn)),
        ),
        exit_transition(exit, reply, now) == (
            ExitStage::Done,
            Step::Finished(Err(ExecutionError::OutOfTurn)),
        ),
{
}

impl EntryFlow {
    fn done(&mut self, error: ExecutionError) -> (r: Step)
        ensures
            *final(self) == (EntryFlow { stage: EntryStage::Done, ..*old(self) }),
            r == Step::Finished(Err(error)),
    {
        self.stage = EntryStage::Done;
        Step::Finished(Err(error))
    }

    /// Takes an answer of the chain client, given at `now`, and says what the entry
    /// does next.
    pub fn step(&mut self, reply: ChainReply, now: i64) -> (r: Step)
        ensures
            (final(self).stage, r) == entry_transition(*old(self), reply, now),
            *final(self) == (EntryFlow { stage: final(self).stage, ..*old(self) }),
    {
        match self.stage {
            EntryStage::AwaitQuote => match reply {
                ChainReply::Quote(Err(e)) => self.done(e),
                ChainReply::Quote(Ok(expected)) => match expected.min_output(self.slippage_bps) {
                    Err(e) => self.done(ExecutionError::Slippage(e)),
                    Ok(min_out) => {
                        self.stage = EntryStage::AwaitBalanceBefore { min_out };
                        Step::Ask(balance_query(self.token, self.wallet))
                    },
                },
                _ => self.done(ExecutionError::OutOfTurn),
            },
            EntryStage::AwaitBalanceBefore { min_out } => match reply {
                ChainReply::Balance(None) => self.done(ExecutionError::BalanceUnavailable),
                ChainReply::Balance(Some(before)) => match deadline_at(now, self.deadline_secs) {
                    None => self.done(ExecutionError::DeadlineOutOfRange),
                    Some(deadline) => {
                        self.stage = EntryStage::AwaitSwap { before };
                        Step::Ask(
                            ChainRequest::SwapNativeForTokens {
                                amount_in: self.amount_in,
                                min_out,
                                from: self.base_token,
                                to: self.token,
                                recipient: self.wallet,
                                deadline,
                                gas_price_gwei: self.gas_price_gwei,
                                timeout_secs: timeout_for(self.deadline_secs),
                            },
                        )
                    },
                },
                _ => self.done(ExecutionError::OutOfTurn),
            },
            EntryStage::AwaitSwap { before } => match reply {
                ChainReply::Swap(outcome) => match outcome {
                    SwapOutcome::Mined { tx_hash, block_number: Some(block_number) } => {
                        self.stage = EntryStage::AwaitBalanceAfter { before, tx_hash, block_number };
                        Step::Ask(balance_query(self.token, self.wallet))
                    },
                    _ => match failure_of(outcome) {
                        Some(e) => self.done(e),
                        None => self.done(ExecutionError::OutOfTurn),
                    },
                },
                _ => self.done(ExecutionError::OutOfTurn),
            },
            EntryStage::AwaitBalanceAfter { before, tx_hash, block_number } => match reply {
                ChainReply::Balance(None) => self.done(ExecutionError::BalanceUnavailable),
                ChainReply::Balance(Some(after)) => match grown(before, after) {
                    None => self.done(ExecutionError::BalanceDecreased),
                    Some(acquired) => {
                        self.stage = EntryStage::AwaitBlockTime { acquired, tx_hash, block_number };
                        Step::Ask(ChainRequest::BlockTimestamp(block_number))
                    },
                },
                _ => self.done(ExecutionError::OutOfTurn),
            },
            EntryStage::AwaitBlockTime { acquired, tx_hash, block_number } => match reply {
                ChainReply::BlockTimestamp(block_time) => {
                    self.stage = EntryStage::Done;
                    Step::Finished(
                        Ok(
                            ExecutionResult {
                                tx_hash,
                                token_address: self.token,
                                base_token: self.base_token,
                                base_spent: self.amount_in,
                                tokens_acquired: acquired,
                                block_number,
                                timestamp: time_to_book(block_time, now),
                            },
                        ),
                    )
                },
                _ => self.done(ExecutionError::OutOfTurn),
            },
            EntryStage::Done => self.done(ExecutionError::OutOfTurn),
        }
    }
}

fn balance_query(token: Address, wallet: Address) -> (r: ChainRequest)
    ensures
        r == balance_request(token, wallet),
{
    if token == wallet {
        ChainRequest::NativeBalance
    } else {
        ChainRequest::TokenBalance(token)
    }
}

impl ExitFlow {
    fn done(&mut self, error: ExecutionError) -> (r: Step)
        ensures
            *final(self) == (ExitFlow { stage: ExitStage::Done, ..*old(self) }),
            r == Step::Finished(Err(error)),
    {
        self.stage = ExitStage::Done;
        Step::Finished(Err(error))
    }

    /// Takes an answer of the chain client, given at `now`, and says what the exit
    /// does next.
    pub fn step(&mut self, reply: ChainReply, now: i64) -> (r: Step)
        ensures
            (final(self).stage, r) == exit_transition(*old(self), reply, now),
            *final(self) == (ExitFlow { stage: final(self).stage, ..*old(self) }),
    {
        match self.stage {
            ExitStage::AwaitAllowance => match reply {
                ChainReply::Allowance(None) => self.done(ExecutionError::AllowanceUnavailable),
                ChainReply::Allowance(Some(allowed)) => {
                    if allowed.ge(&self.order.token_amount) {
                        self.stage = ExitStage::AwaitBalanceBefore;
                        Step::Ask(ChainRequest::NativeBalance)
                    } else {
                        let unlimited = Amount::max_value();
                        proof {
                            lemma_amount_of_view(unlimited);
                        }
                        self.stage = ExitStage::AwaitApproval;
                        Step::Ask(
                            ChainRequest::Approve {
                                token: self.order.token_address,
                                spender: self.router,
                                amount: unlimited,
                                gas_price_gwei: self.gas_price_gwei,
                            },
                        )
                    }
                },
                _ => self.done(ExecutionError::OutOfTurn),
            },
            ExitStage::AwaitApproval => match reply {
                ChainReply::Approval(granted) => {
                    if granted {
                        self.stage = ExitStage::AwaitBalanceBefore;
                        Step::Ask(ChainRequest::NativeBalance)
                    } else {
                        self.done(ExecutionError::ApprovalFailed)
                    }
                },
                _ => self.done(ExecutionError::OutOfTurn),
            },
            ExitStage::AwaitBalanceBefore => match reply {
                ChainReply::Balance(None) => self.done(ExecutionError::BalanceUnavailable),
                ChainReply::Balance(Some(before)) => {
                    self.stage = ExitStage::AwaitSwap { before };
                    Step::Ask(
                        ChainRequest::SwapTokensForNative {
                            amount_in: self.order.token_amount,
                            min_out: self.order.min_output,
                            from: self.order.token_address,
                            to: self.order.base_token,
                            recipient: self.wallet,
                            deadline: self.deadline,
                            gas_price_gwei: self.gas_price_gwei,
                        },
                    )
                },
                _ => self.done(ExecutionError::OutOfTurn),
            },
            ExitStage::AwaitSwap { before } => match reply {
                ChainReply::Swap(outcome) => match outcome {
                    SwapOutcome::Mined { tx_hash, block_number: Some(block_number) } => {
                        self.stage = ExitStage::AwaitBalanceAfter { before, tx_hash, block_number };
                        Step::Ask(ChainRequest::NativeBalance)
                    },
                    _ => match failure_of(outcome) {
                        Some(e) => self.done(e),
                        None => self.done(ExecutionError::OutOfTurn),
                    },
                },
                _ => self.done(ExecutionError::OutOfTurn),
            },
            ExitStage::AwaitBalanceAfter { before, tx_hash, block_number } => match reply {
                ChainReply::Balance(None) => self.done(ExecutionError::BalanceUnavailable),
                ChainReply::Balance(Some(after)) => {
                    let booked = match grown(before, after) {
                        Some(g) => g,
                        None => self.order.min_output,
                    };
                    self.stage = ExitStage::AwaitBlockTime {
                        redeemed: booked,
                        tx_hash,
                        block_number,
                    };
                    Step::Ask(ChainRequest::BlockTimestamp(block_number))
                },
                _ => self.done(ExecutionError::OutOfTurn),
            },
            ExitStage::AwaitBlockTime { redeemed, tx_hash, block_number } => match reply {
                ChainReply::BlockTimestamp(block_time) => {
                    self.stage = ExitStage::Done;
                    Step::Finished(
                        Ok(
                            ExecutionResult {
                                tx_hash,
                                token_address: self.order.token_address,
                                base_token: self.order.base_token,
                                base_spent: redeemed,
                                tokens_acquired: self.order.token_amount,
                                block_number,
                                timestamp: time_to_book(block_time, now),
                            },
                        ),
                    )
                },
                _ => self.done(ExecutionError::OutOfTurn),
            },
            ExitStage::Done => self.done(ExecutionError::OutOfTurn),
        }
    }
}

/// The entry that a purchase of `token` for `amount_in` of the native asset begins
/// as.
pub open spec fn entry_start(
    config: BotConfig,
    wallet: Address,
    token: Address,
    amount_in: Amount,
    base_token: Address,
) -> (EntryFlow, ChainRequest) {
    (
        EntryFlow {
            token,
            base_token,
            amount_in,
            wallet,
            slippage_bps: config.exchange.max_slippage_bps,
            deadline_secs: config.exchange.deadline_secs,
            gas_price_gwei: config.exchange.max_gas_price_gwei,
            stage: EntryStage::AwaitQuote,
        },
        ChainRequest::Quote { amount_in, from: base_token, to: token },
    )
}

/// The exit that the sale of an order begins as at `now`, where the deadline of its
/// swap is a time the chain can name.
pub open spec fn exit_begin(config: BotConfig, wallet: Address, order: ExitOrder, now: i64)
    -> Result<(ExitFlow, ChainRequest), ExecutionError> {
    match swap_deadline_at(now, config.exchange.deadline_secs) {
        None => Err(ExecutionError::DeadlineOutOfRange),
        Some(deadline) => Ok(
            (
                ExitFlow {
                    order,
                    wallet,
                    router: config.exchange.router_address,
                    deadline,
                    gas_price_gwei: config.exchange.max_gas_price_gwei,
                    stage: exit_start(order, wallet, config.exchange.router_address).0,
                },
                exit_start(order, wallet, config.exchange.router_address).1,
            ),
        ),
    }
}

/// Begins an entry under the given settings, for the given wallet.
pub fn begin_entry(
    config: &BotConfig,
    wallet: Address,
    token: Address,
    amount_in: Amount,
    base_token: Address,
) -> (r: (EntryFlow, ChainRequest))
    ensures
        r == entry_start(*config, wallet, token, amount_in, base_token),
{
    let flow = EntryFlow {
        token,
        base_token,
        amount_in,
        wallet,
        slippage_bps: config.slippage_bps(),
        deadline_secs: config.swap_deadline(),
        gas_price_gwei: config.exchange.max_gas_price_gwei,
        stage: EntryStage::AwaitQuote,
    };
    (flow, ChainRequest::Quote { amount_in, from: base_token, to: token })
}

/// Begins an exit at `now` under the given settings, for the given wallet.
pub fn begin_exit(config: &BotConfig, wallet: Address, order: ExitOrder, now: i64) -> (r: Result<
    (ExitFlow, ChainRequest),
    ExecutionError,
>)
    ensures
        r == exit_begin(*config, wallet, order, now),
{
    let deadline = match deadline_at(now, config.swap_deadline()) {
        Some(d) => d,
        None => { return Err(ExecutionError::DeadlineOutOfRange); },
    };
    let router = config.exchange.router_address;
    let (stage, request) = if order.token_address == wallet {
        (ExitStage::AwaitBalanceBefore, ChainRequest::NativeBalance)
    } else {
        (
            ExitStage::AwaitAllowance,
            ChainRequest::Allowance { token: order.token_address, owner: wallet, spender: router },
        )
    };
    let flow = ExitFlow {
        order,
        wallet,
        router,
        deadline,
        gas_price_gwei: config.exchange.max_gas_price_gwei,
        stage,
    };
    Ok((flow, request))
}

impl Trader {
    /// Begins an entry: a purchase of `token` for `amount_in` of the native asset.
    /// The first thing it asks for is a quote.
    pub fn execute_entry(&self, token: &Address, amount_in: Amount, candidate: &GemCandidate) -> (r:
        (EntryFlow, ChainRequest))
        ensures
            r == entry_start(
                self.config,
                self.wallet_address,
                *token,
                amount_in,
                candidate.base_token,
            ),
    {
        begin_entry(&self.config, self.wallet_address, *token, amount_in, candidate.base_token)
    }

    /// Begins an exit at `now`: the sale that an order asks for. The first thing it
    /// asks for is the router's allowance, unless the token is the native asset.
    ///
    /// Fails at once where the deadline of the swap is no time the chain can name.
    pub fn execute_exit(&self, exit_order: &ExitOrder, now: i64) -> (r: Result<
        (ExitFlow, ChainRequest),
        ExecutionError,
    >)
        ensures
            r == exit_begin(self.config, self.wallet_address, *exit_order, now),
    {
        begin_exit(&self.config, self.wallet_address, *exit_order, now)
    }
}

} // verus!
