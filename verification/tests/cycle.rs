use trading_bot::address::{Address, TxHash};
use trading_bot::amount::Amount;
use trading_bot::config::{
    AlertingConfig, BotConfig, Chain, ExchangeConfig, MonitoringConfig, RiskHeuristicsConfig,
    RpcConfig, StrategyConfig,
};
use trading_bot::engine::cycle::{Cycle, CycleAction, CycleEvent, CycleOutcome};
use trading_bot::engine::portfolio::{Portfolio, Position};
use trading_bot::engine::risk::GoPlusTokenSecurity;
use trading_bot::engine::scanner::{DexScreenerPair, TokenMetadata, TransactionWindow};
use trading_bot::engine::trader::{
    ChainRequest, EntryStage, ExecutionError, ExecutionResult, ExitReason,
};
use trading_bot::engine::valuation::{Revaluation, ValuationError, ValuationRequest};
use trading_bot::engine::TradingBot;

const NOW: i64 = 1_700_000_000;
const ETHER: u128 = 1_000_000_000_000_000_000;
const WALLET: Address = Address { hi: 0xaaaa, lo: 1 };
const WETH: Address = Address { hi: 0, lo: 0x22 };

fn config(max_positions: usize) -> BotConfig {
    BotConfig {
        chain: Chain::Mainnet,
        rpc: RpcConfig { http_url: String::new(), ws_url: None, poll_interval_ms: 2000 },
        strategy: StrategyConfig {
            max_positions,
            position_size_eth: 300_000,
            blacklisted_tokens: vec![Address { hi: 0, lo: 0x66 }],
            take_profit_bps: 2500,
            stop_loss_bps: 1200,
            price_momentum_window_minutes: 15,
            min_liquidity_usd: 120_000_000_000,
            min_daily_volume_usd: 250_000_000_000,
            min_age_minutes: 45,
        },
        exchange: ExchangeConfig {
            router_address: Address { hi: 7, lo: 7 },
            max_slippage_bps: 300,
            deadline_secs: 120,
            max_gas_price_gwei: 200,
            base_tokens: vec![],
        },
        risk: RiskHeuristicsConfig {
            max_top_holder_percent: 18_000_000,
            min_lock_ratio: 60_000_000,
            min_holder_count: 500,
            min_renounced_score: 500_000,
        },
        metadata: vec![],
        alerting: AlertingConfig::default(),
        monitoring: MonitoringConfig::default(),
    }
}

fn bot(max_positions: usize) -> TradingBot {
    TradingBot::new(config(max_positions), WALLET)
}

fn token(lo: u128) -> Address {
    Address { hi: 0, lo }
}

/// A rising, liquid pair of the token `lo`; the greater `lo`, the more confident.
fn pair(lo: u128) -> DexScreenerPair {
    DexScreenerPair {
        chain_id: "ethereum".to_string(),
        dex_id: "uniswap".to_string(),
        pair_address: "0x00000000000000000000000000000000000000aa".to_string(),
        base_token: TokenMetadata {
            address: format!("0x{:040x}", lo),
            symbol: format!("T{}", lo),
            name: String::new(),
        },
        quote_token: TokenMetadata {
            address: format!("0x{:040x}", WETH.lo),
            symbol: "WETH".to_string(),
            name: String::new(),
        },
        price_usd: Some(2_000_000),
        price_native: None,
        price_change_m5: Some(10_000_000),
        price_change_m15: Some(10_000_000),
        price_change_h1: Some(5_000_000),
        liquidity_usd: Some(200_000_000_000),
        liquidity_locked: Some(80_000_000),
        log_liquidity: lo as u64,
        volume_h24: Some(300_000_000_000),
        log_volume: 0,
        txns_m5: TransactionWindow { buys: 6, sells: 4 },
        pair_created_at: Some((NOW - 7_200) * 1000),
        fdv: None,
        holders: Some(900),
        renounced: None,
    }
}

fn profile(honeypot: bool) -> GoPlusTokenSecurity {
    GoPlusTokenSecurity {
        is_honeypot: Some(if honeypot { "1" } else { "0" }.to_string()),
        sell_tax: None,
        buy_tax: None,
        cannot_sell_all: None,
        owner_address: None,
        can_take_back_ownership: None,
        is_proxy: None,
        is_open_source: None,
        hidden_owner: None,
        is_blacklisted: None,
        trading_disabled: None,
        holder_count: None,
        total_supply: None,
        lp_holders: None,
        dex: None,
        creator_address: None,
        top_holders: None,
    }
}

/// A position of `id` in the token `id`, bought for one base asset at 1000 dollars.
fn position(id: u128) -> Position {
    Position {
        id,
        token: token(id),
        base_token: WETH,
        token_symbol: format!("T{}", id),
        base_spent: Amount::from_u128(ETHER),
        token_amount: Amount::from_u128(500),
        entry_token_price_usd: 2_000_000,
        entry_base_price_usd: 1_000_000_000,
        base_token_decimals: 18,
        entry_timestamp: NOW - 100,
        last_value_usd: 1_000_000_000,
        last_updated_at: NOW - 100,
        risk_score: 3_000_000,
        take_profit_bps: 2500,
        stop_loss_bps: 1200,
        entry_tx: String::new(),
    }
}

/// A finished pass in which every position fetches `proceeds` of a base asset that
/// costs 1000 dollars.
fn pass(book: &Portfolio, proceeds: u128) -> Result<Revaluation, ValuationError> {
    let mut pass = Revaluation::begin(book);
    loop {
        match pass.next_request() {
            ValuationRequest::BaseAsset(_) => pass.supply_base(Some(1_000_000_000), Some(18))?,
            ValuationRequest::SaleQuote { .. } => pass.supply_quote(Some(Amount::from_u128(proceeds)))?,
            ValuationRequest::Complete => return Ok(pass),
        }
    }
}

fn execution(token: Address) -> ExecutionResult {
    ExecutionResult {
        tx_hash: TxHash { hi: 1, lo: 2 },
        token_address: token,
        base_token: WETH,
        base_spent: Amount::from_u128(3 * ETHER / 10),
        tokens_acquired: Amount::from_u64(777),
        block_number: 5,
        timestamp: NOW,
    }
}

fn discovered(tokens: &[u128]) -> CycleEvent {
    CycleEvent::Discovered {
        trending: Some(tokens.iter().map(|lo| pair(*lo)).collect()),
        latest: None,
    }
}

/// A cycle over `book` that has refreshed and is waiting for the feeds.
fn discovering(b: &TradingBot, book: &mut Portfolio) -> Cycle {
    let (mut cycle, first) = b.tick();
    assert_eq!(first, CycleAction::Revalue);
    let valued = pass(book, ETHER);
    assert_eq!(b.advance(&mut cycle, book, CycleEvent::Valued(valued), NOW), CycleAction::Discover);
    cycle
}

#[test]
fn a_cycle_without_positions_or_candidates_stores_an_empty_book() {
    let b = bot(4);
    let mut book = Portfolio::new();
    let mut cycle = discovering(&b, &mut book);
    assert!(!cycle.is_finished());
    assert_eq!(b.advance(&mut cycle, &mut book, discovered(&[]), NOW), CycleAction::Persist);
    assert_eq!(
        b.advance(&mut cycle, &mut book, CycleEvent::Persisted(true), NOW),
        CycleAction::Finish(CycleOutcome::Completed)
    );
    assert!(cycle.is_finished());
    assert_eq!(
        b.advance(&mut cycle, &mut book, CycleEvent::Persisted(true), NOW),
        CycleAction::Finish(CycleOutcome::OutOfTurn)
    );
}

#[test]
fn a_cycle_enters_what_is_safe_and_rising_most_confident_first() {
    let b = bot(4);
    let mut book = Portfolio::new();
    let mut cycle = discovering(&b, &mut book);
    // 0x66 is blacklisted and never looked at
    assert_eq!(
        b.advance(&mut cycle, &mut book, discovered(&[1, 3, 0x66, 2]), NOW),
        CycleAction::Profile(token(3))
    );
    assert_eq!(
        b.advance(&mut cycle, &mut book, CycleEvent::Profiled(Some(Some(profile(false)))), NOW),
        CycleAction::Profile(token(2))
    );
    // the security feed cannot be reached for the second: it is passed over
    assert_eq!(
        b.advance(&mut cycle, &mut book, CycleEvent::Profiled(None), NOW),
        CycleAction::Profile(token(1))
    );
    assert_eq!(
        b.advance(&mut cycle, &mut book, CycleEvent::Profiled(Some(Some(profile(false)))), NOW),
        CycleAction::PriceBase(WETH)
    );
    let action = b.advance(
        &mut cycle,
        &mut book,
        CycleEvent::BasePriced { price: Some(3_000_000_000), decimals: None },
        NOW,
    );
    match action {
        CycleAction::Enter(flow, request) => {
            assert_eq!(flow.token, token(3));
            assert_eq!(flow.base_token, WETH);
            assert_eq!(flow.wallet, WALLET);
            assert_eq!(flow.amount_in, Amount::from_u128(3 * ETHER / 10));
            assert_eq!(flow.slippage_bps, 300);
            assert_eq!(flow.stage, EntryStage::AwaitQuote);
            assert_eq!(
                request,
                ChainRequest::Quote { amount_in: flow.amount_in, from: WETH, to: token(3) }
            );
        }
        other => panic!("{:?}", other),
    }
    assert_eq!(
        b.advance(&mut cycle, &mut book, CycleEvent::Entered(Ok(execution(token(3)))), NOW),
        CycleAction::PriceBase(WETH)
    );
    assert_eq!(book.positions().len(), 1);
    let opened = &book.positions()[0];
    assert_eq!(opened.token, token(3));
    assert_eq!(opened.token_amount, Amount::from_u64(777));
    assert_eq!(opened.entry_base_price_usd, 3_000_000_000);
    assert_eq!(opened.base_token_decimals, 18);
    assert_eq!(opened.last_value_usd, 900_000_000);
    assert_eq!(opened.take_profit_bps, 2500);
    assert_eq!(opened.stop_loss_bps, 1200);
    // liquidity, volume, lock and holders; no honeypot, nobody to take it back, no
    // proxy, no tax
    assert_eq!(opened.risk_score, 5_800_000);
    // the entry into the last fails: nothing is booked, and the selling begins
    match b.advance(
        &mut cycle,
        &mut book,
        CycleEvent::BasePriced { price: Some(3_000_000_000), decimals: Some(18) },
        NOW,
    ) {
        CycleAction::Enter(flow, _) => assert_eq!(flow.token, token(1)),
        other => panic!("{:?}", other),
    }
    assert_eq!(
        b.advance(&mut cycle, &mut book, CycleEvent::Entered(Err(ExecutionError::TxTimeout)), NOW),
        CycleAction::Revalue
    );
    assert_eq!(book.positions().len(), 1);
}

#[test]
fn a_token_that_is_held_is_not_entered_again() {
    let b = bot(4);
    let mut book = Portfolio::load(Some(vec![position(9)]));
    let mut cycle = discovering(&b, &mut book);
    // the held token comes back as the most confident candidate
    assert_eq!(
        b.advance(&mut cycle, &mut book, discovered(&[9, 1]), NOW),
        CycleAction::Profile(token(9))
    );
    b.advance(&mut cycle, &mut book, CycleEvent::Profiled(Some(Some(profile(false)))), NOW);
    assert_eq!(
        b.advance(&mut cycle, &mut book, CycleEvent::Profiled(Some(Some(profile(false)))), NOW),
        CycleAction::PriceBase(WETH)
    );
    match b.advance(
        &mut cycle,
        &mut book,
        CycleEvent::BasePriced { price: Some(1), decimals: None },
        NOW,
    ) {
        CycleAction::Enter(flow, _) => assert_eq!(flow.token, token(1)),
        other => panic!("{:?}", other),
    }
    assert_eq!(
        b.advance(&mut cycle, &mut book, CycleEvent::Entered(Ok(execution(token(1)))), NOW),
        CycleAction::Revalue
    );
    let tokens: Vec<u128> = book.positions().iter().map(|p| p.token.lo).collect();
    assert_eq!(tokens, vec![9, 1]);
}

#[test]
fn a_token_that_comes_twice_is_entered_once() {
    let b = bot(4);
    let mut book = Portfolio::new();
    let mut cycle = discovering(&b, &mut book);
    b.advance(&mut cycle, &mut book, discovered(&[5, 5]), NOW);
    b.advance(&mut cycle, &mut book, CycleEvent::Profiled(Some(Some(profile(false)))), NOW);
    b.advance(&mut cycle, &mut book, CycleEvent::Profiled(Some(Some(profile(false)))), NOW);
    b.advance(&mut cycle, &mut book, CycleEvent::BasePriced { price: Some(1), decimals: None }, NOW);
    assert_eq!(
        b.advance(&mut cycle, &mut book, CycleEvent::Entered(Ok(execution(token(5)))), NOW),
        CycleAction::Revalue
    );
    assert_eq!(book.positions().len(), 1);
}

#[test]
fn unsafe_and_sluggish_candidates_are_passed_over() {
    let b = bot(4);
    let mut book = Portfolio::new();
    let mut cycle = discovering(&b, &mut book);
    let mut sluggish = pair(2);
    sluggish.price_change_m5 = Some(0);
    let event = CycleEvent::Discovered { trending: Some(vec![pair(1)]), latest: Some(vec![sluggish]) };
    assert_eq!(b.advance(&mut cycle, &mut book, event, NOW), CycleAction::Profile(token(2)));
    b.advance(&mut cycle, &mut book, CycleEvent::Profiled(Some(Some(profile(false)))), NOW);
    // a honeypot, and then a token of which the feed knows nothing
    assert_eq!(
        b.advance(&mut cycle, &mut book, CycleEvent::Profiled(Some(Some(profile(true)))), NOW),
        CycleAction::Persist
    );
    let mut cycle = discovering(&b, &mut book);
    b.advance(&mut cycle, &mut book, discovered(&[1]), NOW);
    assert_eq!(
        b.advance(&mut cycle, &mut book, CycleEvent::Profiled(Some(None)), NOW),
        CycleAction::Persist
    );
}

#[test]
fn no_price_no_entry() {
    let b = bot(4);
    let mut book = Portfolio::new();
    let mut cycle = discovering(&b, &mut book);
    b.advance(&mut cycle, &mut book, discovered(&[1]), NOW);
    b.advance(&mut cycle, &mut book, CycleEvent::Profiled(Some(Some(profile(false)))), NOW);
    assert_eq!(
        b.advance(&mut cycle, &mut book, CycleEvent::BasePriced { price: None, decimals: Some(18) }, NOW),
        CycleAction::Persist
    );
    assert!(book.positions().is_empty());
}

#[test]
fn a_full_book_looks_for_nothing_new_but_still_sells() {
    let b = bot(2);
    let mut book = Portfolio::load(Some(vec![position(1), position(2)]));
    let (mut cycle, _) = b.tick();
    let valued = pass(&book, ETHER);
    assert_eq!(
        b.advance(&mut cycle, &mut book, CycleEvent::Valued(valued), NOW),
        CycleAction::Revalue
    );
    assert_eq!(book.positions()[0].last_updated_at, NOW);
    // the second pass finds both positions half as much again: both are sold
    let valued = pass(&book, ETHER + ETHER / 2);
    let first = b.advance(&mut cycle, &mut book, CycleEvent::Valued(valued), NOW + 1);
    match first {
        CycleAction::Exit(flow, request) => {
            assert_eq!(flow.order.position_id, 1);
            assert_eq!(flow.order.reason, ExitReason::TakeProfit);
            assert_eq!(flow.order.min_output, Amount::from_u128((ETHER + ETHER / 2) / 100 * 97));
            assert_eq!(flow.deadline, (NOW + 1 + 120) as u64);
            assert_eq!(
                request,
                ChainRequest::Allowance {
                    token: token(1),
                    owner: WALLET,
                    spender: Address { hi: 7, lo: 7 },
                }
            );
        }
        other => panic!("{:?}", other),
    }
    // the first exit fails and its position stays; the second succeeds
    let second = b.advance(
        &mut cycle,
        &mut book,
        CycleEvent::Exited(Err(ExecutionError::TxReverted)),
        NOW + 2,
    );
    match second {
        CycleAction::Exit(flow, _) => assert_eq!(flow.order.position_id, 2),
        other => panic!("{:?}", other),
    }
    assert_eq!(
        b.advance(&mut cycle, &mut book, CycleEvent::Exited(Ok(execution(token(2)))), NOW + 3),
        CycleAction::Persist
    );
    let ids: Vec<u128> = book.positions().iter().map(|p| p.id).collect();
    assert_eq!(ids, vec![1]);
    assert_eq!(
        b.advance(&mut cycle, &mut book, CycleEvent::Persisted(false), NOW + 4),
        CycleAction::Finish(CycleOutcome::PersistFailed)
    );
}

#[test]
fn a_book_that_cannot_be_valued_ends_the_cycle() {
    let b = bot(4);
    let mut book = Portfolio::load(Some(vec![position(1)]));
    let (mut cycle, _) = b.tick();
    let failed = Err(ValuationError::PriceUnavailable(WETH));
    assert_eq!(
        b.advance(&mut cycle, &mut book, CycleEvent::Valued(failed), NOW),
        CycleAction::Finish(CycleOutcome::RefreshFailed(ValuationError::PriceUnavailable(WETH)))
    );
    assert_eq!(book.positions()[0].last_updated_at, NOW - 100);
    assert!(cycle.is_finished());

    let (mut cycle, _) = b.tick();
    let mut cut_short = Revaluation::begin(&book);
    let failed = cut_short.supply_base(Some(1_000_000_000), None).unwrap_err();
    assert_eq!(failed, ValuationError::DecimalsUnavailable(WETH));
    assert_eq!(
        b.advance(&mut cycle, &mut book, CycleEvent::Valued(Err(failed)), NOW),
        CycleAction::Finish(CycleOutcome::RefreshFailed(ValuationError::DecimalsUnavailable(
            WETH
        )))
    );
    assert_eq!(book.positions()[0].last_updated_at, NOW - 100);

    // a pass that was cut short is of no use either
    let (mut cycle, _) = b.tick();
    assert_eq!(
        b.advance(&mut cycle, &mut book, CycleEvent::Valued(Ok(cut_short)), NOW),
        CycleAction::Finish(CycleOutcome::RefreshFailed(ValuationError::Stale))
    );
    assert_eq!(book.positions()[0].last_updated_at, NOW - 100);

    let (mut cycle, _) = b.tick();
    let other = Portfolio::new();
    let stale = pass(&other, ETHER);
    assert_eq!(
        b.advance(&mut cycle, &mut book, CycleEvent::Valued(stale), NOW),
        CycleAction::Finish(CycleOutcome::RefreshFailed(ValuationError::Stale))
    );

    let mut cycle = discovering(&b, &mut book);
    assert_eq!(b.advance(&mut cycle, &mut book, discovered(&[]), NOW), CycleAction::Revalue);
    let failed = Err(ValuationError::QuoteUnavailable(token(1)));
    assert_eq!(
        b.advance(&mut cycle, &mut book, CycleEvent::Valued(failed), NOW),
        CycleAction::Finish(CycleOutcome::ExitPlanningFailed(ValuationError::QuoteUnavailable(
            token(1)
        )))
    );
}

#[test]
fn unreachable_feeds_cost_the_entries_only() {
    let b = bot(4);
    let mut book = Portfolio::load(Some(vec![position(1)]));
    let mut cycle = discovering(&b, &mut book);
    let event = CycleEvent::Discovered { trending: None, latest: None };
    assert_eq!(b.advance(&mut cycle, &mut book, event, NOW), CycleAction::Revalue);
    let valued = pass(&book, ETHER);
    assert_eq!(
        b.advance(&mut cycle, &mut book, CycleEvent::Valued(valued), NOW),
        CycleAction::Persist
    );
}

#[test]
fn what_was_not_asked_for_ends_the_cycle() {
    let b = bot(4);
    let mut book = Portfolio::new();
    let (mut cycle, _) = b.tick();
    assert_eq!(
        b.advance(&mut cycle, &mut book, CycleEvent::Persisted(true), NOW),
        CycleAction::Finish(CycleOutcome::OutOfTurn)
    );
    assert!(cycle.is_finished());
}

#[test]
fn liveness_and_snapshot() {
    let b = bot(4);
    assert_eq!(b.health_check(Some(0)), Some("ok:0".to_string()));
    assert_eq!(b.health_check(Some(19_000_123)), Some("ok:19000123".to_string()));
    assert_eq!(b.health_check(Some(u64::MAX)), Some("ok:18446744073709551615".to_string()));
    assert_eq!(b.health_check(None), None);
    let book = Portfolio::load(Some(vec![position(1), position(2)]));
    let shown = b.portfolio_snapshot(&book);
    assert_eq!(shown.total_positions, 2);
    assert_eq!(shown.total_value_usd, 2_000_000_000);
    assert_eq!(shown.positions[1].id, 2);
    assert_eq!(shown.positions[1].pnl_bps, 0);
}

#[test]
fn the_book_is_looked_at_again_before_an_entry_is_asked_for() {
    let b = bot(4);
    let mut book = Portfolio::new();
    let mut cycle = discovering(&b, &mut book);
    b.advance(&mut cycle, &mut book, discovered(&[1, 2]), NOW);
    b.advance(&mut cycle, &mut book, CycleEvent::Profiled(Some(Some(profile(false)))), NOW);
    assert_eq!(
        b.advance(&mut cycle, &mut book, CycleEvent::Profiled(Some(Some(profile(false)))), NOW),
        CycleAction::PriceBase(WETH)
    );
    // while the price was fetched, a position in the more confident token was booked
    book.add_position(position(2));
    match b.advance(
        &mut cycle,
        &mut book,
        CycleEvent::BasePriced { price: Some(3_000_000_000), decimals: Some(18) },
        NOW,
    ) {
        CycleAction::PriceBase(base) => assert_eq!(base, WETH),
        other => panic!("{:?}", other),
    }
    match b.advance(
        &mut cycle,
        &mut book,
        CycleEvent::BasePriced { price: Some(3_000_000_000), decimals: Some(18) },
        NOW,
    ) {
        CycleAction::Enter(flow, _) => assert_eq!(flow.token, token(1)),
        other => panic!("{:?}", other),
    }
    assert_eq!(
        b.advance(&mut cycle, &mut book, CycleEvent::Entered(Ok(execution(token(1)))), NOW),
        CycleAction::Revalue
    );
    let tokens: Vec<u128> = book.positions().iter().map(|p| p.token.lo).collect();
    assert_eq!(tokens, vec![2, 1]);

    // the same where it was the last candidate: the selling begins
    let mut book = Portfolio::new();
    let mut cycle = discovering(&b, &mut book);
    b.advance(&mut cycle, &mut book, discovered(&[7]), NOW);
    b.advance(&mut cycle, &mut book, CycleEvent::Profiled(Some(Some(profile(false)))), NOW);
    book.add_position(position(7));
    assert_eq!(
        b.advance(
            &mut cycle,
            &mut book,
            CycleEvent::BasePriced { price: Some(3_000_000_000), decimals: Some(18) },
            NOW,
        ),
        CycleAction::Revalue
    );
    assert_eq!(book.positions().len(), 1);
}
