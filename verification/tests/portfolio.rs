use trading_bot::address::{Address, TxHash};
use trading_bot::amount::{Amount, ArithmeticError};
use trading_bot::config::{
    AlertingConfig, BotConfig, Chain, ExchangeConfig, MonitoringConfig, RiskHeuristicsConfig,
    RpcConfig, StrategyConfig,
};
use trading_bot::engine::portfolio::{profit_and_loss, Portfolio, PortfolioError, Position};
use trading_bot::engine::scanner::{GemCandidate, SafetyFlags};
use trading_bot::engine::trader::{ExecutionResult, ExitReason};
use trading_bot::engine::valuation::{Revaluation, ValuationError, ValuationRequest};

const NOW: i64 = 1_700_000_000;
const ETHER: u128 = 1_000_000_000_000_000_000;
const WETH: Address = Address { hi: 0, lo: 0x22 };
const USDC: Address = Address { hi: 0, lo: 0x33 };

fn config(slippage_bps: u16) -> BotConfig {
    BotConfig {
        chain: Chain::Mainnet,
        rpc: RpcConfig { http_url: String::new(), ws_url: None, poll_interval_ms: 2000 },
        strategy: StrategyConfig {
            max_positions: 4,
            position_size_eth: 300_000,
            blacklisted_tokens: vec![],
            take_profit_bps: 2500,
            stop_loss_bps: 1200,
            price_momentum_window_minutes: 15,
            min_liquidity_usd: 120_000_000_000,
            min_daily_volume_usd: 250_000_000_000,
            min_age_minutes: 45,
        },
        exchange: ExchangeConfig {
            router_address: Address { hi: 7, lo: 7 },
            max_slippage_bps: slippage_bps,
            deadline_secs: 120,
            max_gas_price_gwei: 200,
            base_tokens: vec![],
        },
        risk: RiskHeuristicsConfig {
            max_top_holder_percent: 18_000_000,
            min_lock_ratio: 60_000_000,
            min_holder_count: 500,
            min_renounced_score: 500_000,
        },
        metadata: vec![],
        alerting: AlertingConfig::default(),
        monitoring: MonitoringConfig::default(),
    }
}

/// A position of `id` in the token `id`, bought for one unit of `base` that cost
/// 1000 dollars.
fn position(id: u128, base: Address) -> Position {
    Position {
        id,
        token: Address { hi: 1, lo: id },
        base_token: base,
        token_symbol: format!("T{}", id),
        base_spent: Amount::from_u128(ETHER),
        token_amount: Amount::from_u128(500 * id),
        entry_token_price_usd: 2_000_000,
        entry_base_price_usd: 1_000_000_000,
        base_token_decimals: 18,
        entry_timestamp: NOW - 100,
        last_value_usd: 1_000_000_000,
        last_updated_at: NOW - 100,
        risk_score: 3_000_000,
        take_profit_bps: 2500,
        stop_loss_bps: 1200,
        entry_tx: format!("0x{:064x}", id),
    }
}

fn same(a: &Position, b: &Position) -> bool {
    a.id == b.id
        && a.token == b.token
        && a.base_token == b.base_token
        && a.token_symbol == b.token_symbol
        && a.base_spent == b.base_spent
        && a.token_amount == b.token_amount
        && a.entry_token_price_usd == b.entry_token_price_usd
        && a.entry_base_price_usd == b.entry_base_price_usd
        && a.base_token_decimals == b.base_token_decimals
        && a.entry_timestamp == b.entry_timestamp
        && a.last_value_usd == b.last_value_usd
        && a.last_updated_at == b.last_updated_at
        && a.risk_score == b.risk_score
        && a.take_profit_bps == b.take_profit_bps
        && a.stop_loss_bps == b.stop_loss_bps
        && a.entry_tx == b.entry_tx
}

fn book(positions: Vec<Position>) -> Portfolio {
    Portfolio::load(Some(positions))
}

/// Runs a pass over the book: every base asset costs `price` and has eighteen
/// decimal places, and the position of identifier `id` fetches `proceeds(id)`.
fn valued(book: &Portfolio, price: u64, proceeds: &dyn Fn(u128) -> u128) -> Revaluation {
    let mut pass = Revaluation::begin(book);
    loop {
        match pass.next_request() {
            ValuationRequest::BaseAsset(_) => pass.supply_base(Some(price), Some(18)).unwrap(),
            ValuationRequest::SaleQuote { token, .. } => {
                pass.supply_quote(Some(Amount::from_u128(proceeds(token.lo)))).unwrap()
            }
            ValuationRequest::Complete => return pass,
        }
    }
}

#[test]
fn profit_and_loss_of_equal_and_doubled_values() {
    for v in [1u64, 7, 1_000_000, u64::MAX / 2] {
        assert_eq!(profit_and_loss(v, v), Some(0));
        assert_eq!(profit_and_loss(2 * v, v), Some(10_000));
    }
    assert_eq!(profit_and_loss(u64::MAX, u64::MAX), Some(0));
}

#[test]
fn profit_and_loss_rounds_down() {
    assert_eq!(profit_and_loss(0, 5), Some(-10_000));
    assert_eq!(profit_and_loss(1_250, 1_000), Some(2_500));
    assert_eq!(profit_and_loss(880, 1_000), Some(-1_200));
    // a third of a hundredth of a percent up, and down
    assert_eq!(profit_and_loss(30_001, 30_000), Some(0));
    assert_eq!(profit_and_loss(29_999, 30_000), Some(-1));
    assert_eq!(profit_and_loss(30_010, 30_000), Some(3));
    assert_eq!(profit_and_loss(29_990, 30_000), Some(-4));
    assert_eq!(profit_and_loss(u64::MAX, 1), Some((u64::MAX as i128 - 1) * 10_000));
    assert_eq!(profit_and_loss(5, 0), None);
}

#[test]
fn positions_are_booked_in_order_and_replaced_by_identifier() {
    let mut b = Portfolio::new();
    assert!(b.positions().is_empty());
    b.add_position(position(1, WETH));
    b.add_position(position(2, WETH));
    b.add_position(position(3, USDC));
    let ids: Vec<u128> = b.positions().iter().map(|p| p.id).collect();
    assert_eq!(ids, vec![1, 2, 3]);
    let mut again = position(2, USDC);
    again.risk_score = 9;
    b.add_position(again);
    let ids: Vec<u128> = b.active_positions().iter().map(|p| p.id).collect();
    assert_eq!(ids, vec![1, 2, 3]);
    assert_eq!(b.positions()[1].risk_score, 9);
    assert_eq!(b.positions()[1].base_token, USDC);
}

#[test]
fn holding_is_by_token() {
    let b = book(vec![position(1, WETH), position(2, WETH)]);
    assert!(b.is_holding(&Address { hi: 1, lo: 1 }));
    assert!(b.is_holding(&Address { hi: 1, lo: 2 }));
    assert!(!b.is_holding(&Address { hi: 1, lo: 3 }));
    assert!(!b.is_holding(&WETH));
    assert!(!Portfolio::new().is_holding(&WETH));
}

#[test]
fn closing_takes_the_position_out_or_fails() {
    let mut b = book(vec![position(1, WETH), position(2, WETH), position(3, WETH)]);
    assert_eq!(b.close_position(2), Ok(()));
    let ids: Vec<u128> = b.positions().iter().map(|p| p.id).collect();
    assert_eq!(ids, vec![1, 3]);
    assert_eq!(b.close_position(2), Err(PortfolioError::NotFound));
    assert_eq!(b.close_position(9), Err(PortfolioError::NotFound));
    let ids: Vec<u128> = b.positions().iter().map(|p| p.id).collect();
    assert_eq!(ids, vec![1, 3]);
    assert_eq!(b.close_position(1), Ok(()));
    assert_eq!(b.close_position(3), Ok(()));
    assert!(b.positions().is_empty());
}

#[test]
fn storing_and_restoring_gives_the_same_book() {
    let mut odd = position(3, USDC);
    odd.entry_timestamp = -5;
    odd.last_updated_at = i64::MAX;
    odd.base_spent = Amount { w0: 1, w1: 2, w2: 3, w3: 4 };
    let b = book(vec![position(1, WETH), position(2, WETH), odd]);
    let stored = b.persist();
    assert_eq!(stored.len(), 3);
    let restored = Portfolio::load(Some(stored));
    assert_eq!(restored.positions().len(), 3);
    for (a, b) in restored.positions().iter().zip(b.positions().iter()) {
        assert!(same(a, b));
    }
    assert!(Portfolio::load(None).positions().is_empty());
    assert!(Portfolio::load(Some(vec![])).persist().is_empty());
}

#[test]
fn restoring_keeps_the_later_of_two_positions_with_one_identifier() {
    let mut later = position(1, USDC);
    later.risk_score = 5;
    let b = Portfolio::load(Some(vec![position(1, WETH), position(2, WETH), later]));
    let ids: Vec<u128> = b.positions().iter().map(|p| p.id).collect();
    assert_eq!(ids, vec![1, 2]);
    assert_eq!(b.positions()[0].risk_score, 5);
}

#[test]
fn entry_value_is_amount_times_price() {
    let mut p = position(1, WETH);
    assert_eq!(p.entry_value_usd(), Some(1_000_000_000));
    p.base_spent = Amount::from_u128(ETHER / 4);
    assert_eq!(p.entry_value_usd(), Some(250_000_000));
    p.base_token_decimals = 6;
    p.base_spent = Amount::from_u64(2_500_000);
    assert_eq!(p.entry_value_usd(), Some(2_500_000_000));
    p.entry_base_price_usd = 0;
    assert_eq!(p.entry_value_usd(), Some(0));
    // more decimal places than can be scaled: worth nothing
    p.entry_base_price_usd = 1_000_000;
    p.base_token_decimals = 77;
    p.base_spent = Amount::max_value();
    p.entry_base_price_usd = 1;
    assert_eq!(p.entry_value_usd(), Some(0));
    // a product that leaves 256 bits, and a worth that leaves 64
    p.base_token_decimals = 76;
    p.entry_base_price_usd = 2;
    assert_eq!(p.entry_value_usd(), None);
    p.base_token_decimals = 0;
    p.entry_base_price_usd = 1;
    assert_eq!(p.entry_value_usd(), None);
    assert_eq!(Amount::max_value().value_usd(76, 2), Err(ArithmeticError::ProductOverflow));
    assert_eq!(Amount::max_value().value_usd(0, 1), Err(ArithmeticError::ValueOverflow));
    assert_eq!(Amount::from_u128(1 << 64).value_usd(0, 1), Err(ArithmeticError::ValueOverflow));
    assert_eq!(Amount::from_u64(u64::MAX).value_usd(0, 1), Ok(u64::MAX));
}

#[test]
fn a_position_is_opened_from_an_execution() {
    let candidate = GemCandidate {
        pair_address: Address { hi: 0, lo: 0xaa },
        token_address: Address { hi: 0, lo: 0x11 },
        base_token: WETH,
        token_symbol: "GEM".to_string(),
        token_name: "Gem".to_string(),
        price_usd: 2_000_000,
        liquidity_usd: 0,
        volume24h_usd: 0,
        fdv_usd: 0,
        price_change_m5: 0,
        price_change_m15: 0,
        price_change_h1: 0,
        buy_pressure_ratio: 0,
        holder_count: None,
        locked_liquidity_ratio: None,
        contract_renounced_score: None,
        pair_created_at: 0,
        dex_id: String::new(),
        confidence: 0,
        safety_flags: SafetyFlags { low_liquidity: false, owner_not_renounced: false, low_lock: false },
        usd_per_base: 0,
    };
    let execution = ExecutionResult {
        tx_hash: TxHash { hi: 0x0123_4567_89ab_cdef_0000_0000_0000_0000, lo: 0xff },
        token_address: Address { hi: 0, lo: 0x11 },
        base_token: WETH,
        base_spent: Amount::from_u128(3 * ETHER / 10),
        tokens_acquired: Amount::from_u64(12_345),
        block_number: 99,
        timestamp: NOW,
    };
    let p = Position::from_execution(&candidate, execution, 3_100_000, 2500, 1200, 3_000_000_000, 18);
    assert_eq!(p.token, candidate.token_address);
    assert_eq!(p.base_token, WETH);
    assert_eq!(p.token_symbol, "GEM");
    assert_eq!(p.base_spent, Amount::from_u128(3 * ETHER / 10));
    assert_eq!(p.token_amount, Amount::from_u64(12_345));
    assert_eq!(p.entry_token_price_usd, 2_000_000);
    assert_eq!(p.entry_base_price_usd, 3_000_000_000);
    assert_eq!(p.base_token_decimals, 18);
    assert_eq!(p.entry_timestamp, NOW);
    assert_eq!(p.last_updated_at, NOW);
    // three tenths of an asset that costs 3000 dollars
    assert_eq!(p.last_value_usd, 900_000_000);
    assert_eq!(p.entry_value_usd(), Some(900_000_000));
    assert_eq!(p.risk_score, 3_100_000);
    assert_eq!(p.take_profit_bps, 2500);
    assert_eq!(p.stop_loss_bps, 1200);
    assert_eq!(
        p.entry_tx,
        "0x0123456789abcdef0000000000000000000000000000000000000000000000ff"
    );
    assert_eq!(p.entry_tx.len(), 66);
    let q = Position::from_execution(&candidate, execution, 3_100_000, 2500, 1200, 3_000_000_000, 18);
    assert_ne!(p.id, q.id);
    let r = Position::with_id(42, &candidate, execution, 1, 2, 3, 4, 5);
    assert_eq!(r.id, 42);
    assert_eq!(r.entry_tx, p.entry_tx);
    assert!(same(&r, &r.duplicate()));
}

#[test]
fn a_pass_asks_for_each_base_asset_once() {
    let b = book(vec![position(1, WETH), position(2, USDC), position(3, WETH), position(4, USDC)]);
    let mut pass = Revaluation::begin(&b);
    let mut asked = Vec::new();
    loop {
        let request = pass.next_request();
        asked.push(request);
        match request {
            ValuationRequest::BaseAsset(_) => pass.supply_base(Some(1), Some(18)).unwrap(),
            ValuationRequest::SaleQuote { .. } => pass.supply_quote(Some(Amount::zero())).unwrap(),
            ValuationRequest::Complete => break,
        }
    }
    let sale = |id: u128, base: Address| ValuationRequest::SaleQuote {
        token: Address { hi: 1, lo: id },
        amount: Amount::from_u128(500 * id),
        base,
    };
    assert_eq!(
        asked,
        vec![
            ValuationRequest::BaseAsset(WETH),
            sale(1, WETH),
            ValuationRequest::BaseAsset(USDC),
            sale(2, USDC),
            sale(3, WETH),
            sale(4, USDC),
            ValuationRequest::Complete,
        ]
    );
    assert!(pass.is_complete());
}

#[test]
fn a_pass_fails_without_a_price_or_a_quote_and_refuses_answers_out_of_turn() {
    let b = book(vec![position(1, WETH)]);
    let mut pass = Revaluation::begin(&b);
    assert_eq!(pass.supply_quote(Some(Amount::zero())), Err(ValuationError::OutOfTurn));
    assert_eq!(pass.supply_base(None, Some(18)), Err(ValuationError::PriceUnavailable(WETH)));
    assert_eq!(pass.next_request(), ValuationRequest::BaseAsset(WETH));
    assert_eq!(pass.supply_base(Some(5), None), Err(ValuationError::DecimalsUnavailable(WETH)));
    assert_eq!(pass.supply_base(None, None), Err(ValuationError::PriceUnavailable(WETH)));
    assert_eq!(pass.next_request(), ValuationRequest::BaseAsset(WETH));
    assert_eq!(pass.supply_base(Some(5), Some(18)), Ok(()));
    assert_eq!(pass.supply_base(Some(5), Some(18)), Err(ValuationError::OutOfTurn));
    assert_eq!(
        pass.supply_quote(None),
        Err(ValuationError::QuoteUnavailable(Address { hi: 1, lo: 1 }))
    );
    assert_eq!(
        pass.supply_quote(Some(Amount::max_value())),
        Err(ValuationError::Unrepresentable(1))
    );
    assert!(!pass.is_complete());
    assert_eq!(pass.supply_quote(Some(Amount::from_u128(ETHER))), Ok(()));
    assert!(pass.is_complete());
    assert_eq!(pass.next_request(), ValuationRequest::Complete);
    assert_eq!(pass.supply_quote(Some(Amount::zero())), Err(ValuationError::OutOfTurn));
    assert_eq!(pass.supply_base(Some(1), None), Err(ValuationError::OutOfTurn));
    assert_eq!(pass.results().len(), 1);
    assert_eq!(pass.results()[0].value_usd, 5);
}

#[test]
fn a_failed_lookup_of_decimal_places_fails_the_refresh() {
    let mut p = position(1, USDC);
    p.base_token_decimals = 6;
    let mut b = book(vec![p]);
    let mut pass = Revaluation::begin(&b);
    assert_eq!(
        pass.supply_base(Some(1_000_000), None),
        Err(ValuationError::DecimalsUnavailable(USDC))
    );
    // the pass stays where it is, and is of no use to the book
    assert!(!pass.is_complete());
    assert_eq!(pass.next_request(), ValuationRequest::BaseAsset(USDC));
    assert_eq!(
        pass.supply_quote(Some(Amount::from_u64(2_500_000))),
        Err(ValuationError::OutOfTurn)
    );
    assert_eq!(b.refresh_positions(&pass, NOW), Err(ValuationError::Stale));
    assert_eq!(b.positions()[0].last_value_usd, 1_000_000_000);
    assert_eq!(b.positions()[0].last_updated_at, NOW - 100);
    assert_eq!(b.generate_exit_orders(&pass, &config(300)).unwrap_err(), ValuationError::Stale);
    // with the decimal places told, the value is that of the quote
    pass.supply_base(Some(1_000_000), Some(6)).unwrap();
    pass.supply_quote(Some(Amount::from_u64(2_500_000))).unwrap();
    assert_eq!(b.refresh_positions(&pass, NOW), Ok(()));
    assert_eq!(b.positions()[0].last_value_usd, 2_500_000);
    assert_eq!(b.positions()[0].base_token_decimals, 6);
    assert_eq!(b.positions()[0].id, 1);
}

#[test]
fn refresh_brings_every_value_up_to_date_or_none() {
    let mut b = book(vec![position(1, WETH), position(2, WETH)]);
    let pass = valued(&b, 2_000_000_000, &|id| id as u128 * ETHER);
    assert_eq!(b.refresh_positions(&pass, NOW), Ok(()));
    assert_eq!(b.positions()[0].last_value_usd, 2_000_000_000);
    assert_eq!(b.positions()[1].last_value_usd, 4_000_000_000);
    assert_eq!(b.positions()[0].last_updated_at, NOW);
    assert_eq!(b.positions()[1].last_updated_at, NOW);
    assert_eq!(b.positions()[0].entry_timestamp, NOW - 100);

    // a pass over another book
    let other = book(vec![position(1, WETH), position(3, WETH)]);
    let stale = valued(&other, 1, &|_| 1);
    assert_eq!(b.refresh_positions(&stale, NOW + 1), Err(ValuationError::Stale));
    assert_eq!(b.positions()[0].last_value_usd, 2_000_000_000);
    assert_eq!(b.positions()[0].last_updated_at, NOW);

    // a pass that is not finished
    let mut half = Revaluation::begin(&b);
    half.supply_base(Some(1), Some(18)).unwrap();
    half.supply_quote(Some(Amount::zero())).unwrap();
    assert_eq!(b.refresh_positions(&half, NOW + 1), Err(ValuationError::Stale));
    assert_eq!(b.positions()[0].last_value_usd, 2_000_000_000);

    let mut empty = Portfolio::new();
    let pass = Revaluation::begin(&empty);
    assert_eq!(empty.refresh_positions(&pass, NOW), Ok(()));
}

#[test]
fn take_profit_is_due_at_the_threshold_itself() {
    let b = book(vec![position(1, WETH)]);
    // entry value 1000 dollars; 1.25 units at 1000 dollars make 1250: 2500 bps up
    let pass = valued(&b, 1_000_000_000, &|_| ETHER + ETHER / 4);
    let orders = b.generate_exit_orders(&pass, &config(300)).unwrap();
    assert_eq!(orders.len(), 1);
    assert_eq!(orders[0].reason, ExitReason::TakeProfit);
    assert_eq!(orders[0].position_id, 1);
    assert_eq!(orders[0].token_address, Address { hi: 1, lo: 1 });
    assert_eq!(orders[0].base_token, WETH);
    assert_eq!(orders[0].token_amount, Amount::from_u128(500));
    // the quoted proceeds less three percent
    assert_eq!(orders[0].min_output, Amount::from_u128((ETHER + ETHER / 4) / 100 * 97));
    // a millionth of a dollar less, and nothing is due
    let pass = valued(&b, 1_000_000_000, &|_| ETHER + ETHER / 4 - 1_000_000_000);
    assert!(b.generate_exit_orders(&pass, &config(300)).unwrap().is_empty());
}

#[test]
fn stop_loss_is_due_at_the_threshold_itself() {
    let b = book(vec![position(1, WETH)]);
    // 0.88 units make 880 dollars: 1200 bps down
    let pass = valued(&b, 1_000_000_000, &|_| ETHER / 100 * 88);
    let orders = b.generate_exit_orders(&pass, &config(0)).unwrap();
    assert_eq!(orders.len(), 1);
    assert_eq!(orders[0].reason, ExitReason::StopLoss);
    assert_eq!(orders[0].min_output, Amount::from_u128(ETHER / 100 * 88));
    let pass = valued(&b, 1_000_000_000, &|_| ETHER / 100 * 88 + 1_000_000_000);
    assert!(b.generate_exit_orders(&pass, &config(0)).unwrap().is_empty());
}

#[test]
fn take_profit_comes_before_stop_loss() {
    let mut p = position(1, WETH);
    p.take_profit_bps = 0;
    p.stop_loss_bps = 0;
    let b = book(vec![p]);
    let pass = valued(&b, 1_000_000_000, &|_| ETHER);
    let orders = b.generate_exit_orders(&pass, &config(300)).unwrap();
    assert_eq!(orders.len(), 1);
    assert_eq!(orders[0].reason, ExitReason::TakeProfit);
}

#[test]
fn a_position_without_entry_value_is_never_sold() {
    let mut free = position(1, WETH);
    free.base_spent = Amount::zero();
    let mut priceless = position(2, WETH);
    priceless.entry_base_price_usd = 0;
    let mut untold = position(3, WETH);
    untold.base_spent = Amount::max_value();
    untold.base_token_decimals = 0;
    let due = position(4, WETH);
    let b = book(vec![free, priceless, untold, due]);
    let pass = valued(&b, 1_000_000_000, &|_| 5 * ETHER);
    let orders = b.generate_exit_orders(&pass, &config(300)).unwrap();
    let ids: Vec<u128> = orders.iter().map(|o| o.position_id).collect();
    assert_eq!(ids, vec![4]);
}

#[test]
fn exit_orders_fail_on_senseless_slippage_and_on_a_stale_pass() {
    let b = book(vec![position(1, WETH)]);
    let pass = valued(&b, 1_000_000_000, &|_| ETHER);
    assert_eq!(
        b.generate_exit_orders(&pass, &config(10_001)).unwrap_err(),
        ValuationError::Slippage(ArithmeticError::SlippageOutOfRange)
    );
    assert!(b.generate_exit_orders(&pass, &config(10_000)).unwrap().is_empty());
    let other = book(vec![position(2, WETH)]);
    let stale = valued(&other, 1, &|_| 1);
    assert_eq!(b.generate_exit_orders(&stale, &config(300)).unwrap_err(), ValuationError::Stale);
    let empty = Portfolio::new();
    let pass = Revaluation::begin(&empty);
    assert!(empty.generate_exit_orders(&pass, &config(300)).unwrap().is_empty());
}

#[test]
fn slippage_is_taken_off_the_quote() {
    let quote = Amount::from_u128(1_000_001);
    assert_eq!(quote.min_output(0), Ok(quote));
    assert_eq!(quote.min_output(1), Ok(Amount::from_u128(999_900)));
    assert_eq!(quote.min_output(10_000), Ok(Amount::zero()));
    assert_eq!(Amount::max_value().min_output(0), Err(ArithmeticError::ProductOverflow));
    assert_eq!(Amount::max_value().min_output(300), Err(ArithmeticError::ProductOverflow));
    let big = Amount { w0: 0, w1: 0, w2: 0, w3: 1 << 50 };
    assert_eq!(big.min_output(5_000), Ok(Amount { w0: 0, w1: 0, w2: 0, w3: 1 << 49 }));
}

#[test]
fn amounts_convert_to_and_from_machine_numbers() {
    assert_eq!(Amount::from_u128(u128::MAX), Amount { w0: u64::MAX, w1: u64::MAX, w2: 0, w3: 0 });
    assert_eq!(Amount::from_u128(u128::MAX).to_u128(), Some(u128::MAX));
    assert_eq!(Amount::from_u128(1 << 64).to_u64(), None);
    assert_eq!(Amount::from_u64(9).to_u64(), Some(9));
    assert_eq!(Amount { w0: 0, w1: 0, w2: 1, w3: 0 }.to_u128(), None);
    assert!(Amount::zero().is_zero());
    assert!(!Amount::from_u64(1).is_zero());
    assert!(Amount { w0: 0, w1: 1, w2: 0, w3: 0 }.ge(&Amount::from_u64(u64::MAX)));
    assert!(!Amount::from_u64(u64::MAX).ge(&Amount { w0: 0, w1: 1, w2: 0, w3: 0 }));
    assert!(Amount::from_u64(3).ge(&Amount::from_u64(3)));
}

#[test]
fn the_snapshot_shows_values_and_profit() {
    let mut up = position(1, WETH);
    up.last_value_usd = 1_500_000_000;
    let mut down = position(2, WETH);
    down.last_value_usd = 900_000_000;
    let mut free = position(3, WETH);
    free.base_spent = Amount::zero();
    free.last_value_usd = 7;
    let b = book(vec![up, down, free]);
    let shown = b.snapshot();
    assert_eq!(shown.total_positions, 3);
    assert_eq!(shown.total_value_usd, 2_400_000_007);
    assert_eq!(shown.positions.len(), 3);
    assert_eq!(shown.positions[0].id, 1);
    assert_eq!(shown.positions[0].entry_value_usd, 1_000_000_000);
    assert_eq!(shown.positions[0].current_value_usd, 1_500_000_000);
    assert_eq!(shown.positions[0].pnl_bps, 5_000);
    assert_eq!(shown.positions[0].token_symbol, "T1");
    assert_eq!(shown.positions[0].entry_tx, b.positions()[0].entry_tx);
    assert_eq!(shown.positions[1].pnl_bps, -1_000);
    assert_eq!(shown.positions[2].entry_value_usd, 0);
    assert_eq!(shown.positions[2].pnl_bps, 0);
    let empty = Portfolio::new().snapshot();
    assert_eq!(empty.total_positions, 0);
    assert_eq!(empty.total_value_usd, 0);
}

#[test]
fn the_book_keeps_the_order_of_opening_through_replacing_and_closing() {
    let mut b = Portfolio::new();
    assert_eq!(b.count(), 0);
    for id in [5u128, 3, 9, 1] {
        b.add_position(position(id, WETH));
    }
    assert_eq!(b.count(), 4);
    let ids: Vec<u128> = b.positions().iter().map(|p| p.id).collect();
    assert_eq!(ids, vec![5, 3, 9, 1]);
    // a position booked under an identifier that is there takes that place
    let mut again = position(3, USDC);
    again.last_value_usd = 42;
    b.add_position(again);
    assert_eq!(b.count(), 4);
    let ids: Vec<u128> = b.positions().iter().map(|p| p.id).collect();
    assert_eq!(ids, vec![5, 3, 9, 1]);
    assert_eq!(b.positions()[1].last_value_usd, 42);
    assert_eq!(b.positions()[1].base_token, USDC);
    assert_eq!(b.close_position(5), Ok(()));
    assert_eq!(b.close_position(5), Err(PortfolioError::NotFound));
    assert_eq!(b.close_position(9), Ok(()));
    let ids: Vec<u128> = b.persist().iter().map(|p| p.id).collect();
    assert_eq!(ids, vec![3, 1]);
    assert_eq!(b.count(), 2);
    b.add_position(position(5, WETH));
    let ids: Vec<u128> = b.active_positions().iter().map(|p| p.id).collect();
    assert_eq!(ids, vec![3, 1, 5]);
    let shown: Vec<u128> = b.snapshot().positions.iter().map(|p| p.id).collect();
    assert_eq!(shown, vec![3, 1, 5]);
}
