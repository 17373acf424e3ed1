//! The engine's components: market scanner, risk analyzer, position book and
//! chain executor, and the cycle that runs them in turn.

pub mod cycle;
pub mod portfolio;
pub mod risk;
pub mod scanner;
pub mod trader;
pub mod valuation;

use crate::address::Address;
use crate::config::BotConfig;
use crate::decimal::{decimal_text, write_number};
use crate::engine::cycle::{
    cycle_transition, opening, outset, poised, Cycle, CycleAction, CycleEvent,
};
use crate::engine::portfolio::{
    holds, snapshot_of, total_value, Portfolio, PortfolioSnapshot, Position,
};
use vstd::prelude::*;

verus! {

/// The time between the end of one cycle and the start of the next, in seconds.
pub const LOOP_INTERVAL_SECS: u64 = 30;

/// The engine: its settings and the wallet it trades for. The book it works on and
/// the clients it works through are the caller's.
#[derive(Clone, Debug)]
pub struct TradingBot {
    pub config: BotConfig,
    pub wallet_address: Address,
}

/// What a liveness check reports of a node whose latest block has a given number.
pub open spec fn health_text(latest_block: u64) -> Seq<char> {
    seq!['o', 'k', ':'] + decimal_text(latest_block as nat)
}

impl TradingBot {
    /// An engine under the given settings, trading for the given wallet.
    pub fn new(config: BotConfig, wallet_address: Address) -> (r: TradingBot)
        ensures
            r.config == config,
            r.wallet_address == wallet_address,
    {
        TradingBot { config, wallet_address }
    }

    /// Begins a decision cycle. The first thing it asks for is a valuation pass over
    /// the book.
    pub fn tick(&self) -> (r: (Cycle, CycleAction))
        ensures
            r.0.wf(),
            r.0@ == outset(),
            r.1 == CycleAction::Revalue,
    {
        Cycle::begin()
    }

    /// Takes what came of what a cycle asked for, at `now`, and says what is to be
    /// done next.
    pub fn advance(&self, cycle: &mut Cycle, book: &mut Portfolio, event: CycleEvent, now: i64)
        -> (r: CycleAction)
        requires
            old(cycle).wf(),
            old(book).wf(),
            event matches CycleEvent::Valued(Ok(pass)) ==> pass.wf(),
        ensures
            final(cycle).wf(),
            final(book).wf(),
            exists|opened: Position|
                opening(old(cycle)@, event, self.config, opened) && (
                    final(cycle)@,
                    final(book)@,
                    r,
                ) == cycle_transition(
                    old(cycle)@,
                    old(book)@,
                    event,
                    self.config,
                    self.wallet_address,
                    now,
                    opened,
                ),
            r matches CycleAction::Enter(flow, _) ==> !holds(final(book)@, flow.token)
                && final(book)@ == old(book)@,
            poised(old(cycle)@, old(book)@) ==> poised(final(cycle)@, final(book)@),
    {
        cycle.step(book, event, &self.config, self.wallet_address, now)
    }

    /// What a liveness check reports: `ok:` and the number of the node's latest
    /// block, or nothing where the node did not tell it.
    pub fn health_check(&self, latest_block: Option<u64>) -> (r: Option<String>)
        ensures
            latest_block.is_none() ==> r.is_none(),
            latest_block.is_some() ==> r.is_some() && r.unwrap()@ == health_text(
                latest_block.unwrap(),
            ),
    {
        match latest_block {
            None => None,
            Some(n) => {
                let mut text = String::from_str("ok:");
                proof {
                    reveal_strlit("ok:");
                    assert("ok:"@ =~= seq!['o', 'k', ':']);
                }
                let number = write_number(n);
                text.append(number.as_str());
                Some(text)
            },
        }
    }

    /// The book as the monitoring surface shows it.
    pub fn portfolio_snapshot(&self, book: &Portfolio) -> (r: PortfolioSnapshot)
        requires
            book.wf(),
        ensures
            r.total_positions == book@.len(),
            r.total_value_usd == total_value(book@),
            r.positions@.len() == book@.len(),
            forall|i: int| 0 <= i < book@.len() ==> r.positions@[i] == snapshot_of(book@[i]),
    {
        book.snapshot()
    }
}

} // verus!
