use trading_bot::address::{Address, TxHash};
use trading_bot::amount::{Amount, ArithmeticError};
use trading_bot::config::{
    AlertingConfig, BotConfig, Chain, ExchangeConfig, MonitoringConfig, RiskHeuristicsConfig,
    RpcConfig, StrategyConfig,
};
use trading_bot::engine::scanner::{GemCandidate, SafetyFlags};
use trading_bot::engine::trader::{
    ChainReply, ChainRequest, EntryFlow, EntryStage, ExecutionError, ExecutionResult, ExitFlow,
    ExitOrder, ExitReason, ExitStage, Step, SwapOutcome, Trader,
};

const NOW: i64 = 1_700_000_000;
const WALLET: Address = Address { hi: 0xaaaa, lo: 1 };
const ROUTER: Address = Address { hi: 7, lo: 7 };
const TOKEN: Address = Address { hi: 0, lo: 0x11 };
const WETH: Address = Address { hi: 0, lo: 0x22 };
const TX: TxHash = TxHash { hi: 5, lo: 6 };

fn config() -> BotConfig {
    BotConfig {
        chain: Chain::Base,
        rpc: RpcConfig { http_url: String::new(), ws_url: None, poll_interval_ms: 2000 },
        strategy: StrategyConfig {
            max_positions: 4,
            position_size_eth: 300_000,
            blacklisted_tokens: vec![],
            take_profit_bps: 2500,
            stop_loss_bps: 1200,
            price_momentum_window_minutes: 15,
            min_liquidity_usd: 120_000_000_000,
            min_daily_volume_usd: 250_000_000_000,
            min_age_minutes: 45,
        },
        exchange: ExchangeConfig {
            router_address: ROUTER,
            max_slippage_bps: 300,
            deadline_secs: 120,
            max_gas_price_gwei: 200,
            base_tokens: vec![],
        },
        risk: RiskHeuristicsConfig {
            max_top_holder_percent: 18_000_000,
            min_lock_ratio: 60_000_000,
            min_holder_count: 500,
            min_renounced_score: 500_000,
        },
        metadata: vec![],
        alerting: AlertingConfig::default(),
        monitoring: MonitoringConfig::default(),
    }
}

fn trader() -> Trader {
    Trader::new(config(), WALLET)
}

fn candidate() -> GemCandidate {
    GemCandidate {
        pair_address: Address { hi: 0, lo: 0xaa },
        token_address: TOKEN,
        base_token: WETH,
        token_symbol: "GEM".to_string(),
        token_name: "Gem".to_string(),
        price_usd: 1,
        liquidity_usd: 0,
        volume24h_usd: 0,
        fdv_usd: 0,
        price_change_m5: 0,
        price_change_m15: 0,
        price_change_h1: 0,
        buy_pressure_ratio: 0,
        holder_count: None,
        locked_liquidity_ratio: None,
        contract_renounced_score: None,
        pair_created_at: 0,
        dex_id: String::new(),
        confidence: 0,
        safety_flags: SafetyFlags { low_liquidity: false, owner_not_renounced: false, low_lock: false },
        usd_per_base: 0,
    }
}

fn order() -> ExitOrder {
    ExitOrder {
        position_id: 9,
        token_address: TOKEN,
        base_token: WETH,
        token_amount: Amount::from_u64(5_000),
        min_output: Amount::from_u64(400),
        reason: ExitReason::TakeProfit,
    }
}

fn mined(block: u64) -> ChainReply {
    ChainReply::Swap(SwapOutcome::Mined { tx_hash: TX, block_number: Some(block) })
}

/// An entry that has come as far as having sent its swap.
fn entry_awaiting_swap(before: u64) -> EntryFlow {
    let (mut flow, _) = trader().execute_entry(&TOKEN, Amount::from_u64(1_000), &candidate());
    flow.step(ChainReply::Quote(Ok(Amount::from_u64(10_000))), NOW);
    flow.step(ChainReply::Balance(Some(Amount::from_u64(before))), NOW);
    flow
}

fn exit_awaiting_swap(before: u64) -> ExitFlow {
    let (mut flow, _) = trader().execute_exit(&order(), NOW).unwrap();
    flow.step(ChainReply::Allowance(Some(Amount::from_u64(5_000))), NOW);
    flow.step(ChainReply::Balance(Some(Amount::from_u64(before))), NOW);
    flow
}

#[test]
fn quotes_go_from_what_is_paid_to_what_is_bought() {
    let t = trader();
    assert_eq!(
        t.quote_buy(&TOKEN, Amount::from_u64(3), WETH),
        ChainRequest::Quote { amount_in: Amount::from_u64(3), from: WETH, to: TOKEN }
    );
    assert_eq!(
        t.quote_sell(&TOKEN, Amount::from_u64(3), WETH),
        ChainRequest::Quote { amount_in: Amount::from_u64(3), from: TOKEN, to: WETH }
    );
}

#[test]
fn a_quote_is_the_last_amount_of_the_path() {
    let amounts = vec![Amount::from_u64(1), Amount::from_u64(2), Amount::from_u64(3)];
    assert_eq!(Trader::quoted(Some(&amounts)), Ok(Amount::from_u64(3)));
    assert_eq!(Trader::quoted(Some(&vec![])), Err(ExecutionError::EmptyQuotePath));
    assert_eq!(Trader::quoted(None), Err(ExecutionError::QuoteFailed));
}

#[test]
fn the_wallets_own_address_stands_for_the_native_asset() {
    let t = trader();
    assert_eq!(t.token_balance(&WALLET), ChainRequest::NativeBalance);
    assert_eq!(t.token_balance(&TOKEN), ChainRequest::TokenBalance(TOKEN));
    assert_eq!(t.token_decimals(TOKEN), ChainRequest::Decimals(TOKEN));
}

#[test]
fn the_price_of_a_token_is_what_one_whole_token_fetches() {
    let t = trader();
    // one token fetches a thousandth of a base asset that costs 3000 dollars
    let quoted = Amount::from_u128(1_000_000_000_000_000);
    assert_eq!(t.fetch_token_price_usd(quoted, Some(18), 3_000_000_000), Some(3_000_000));
    assert_eq!(t.fetch_token_price_usd(quoted, None, 3_000_000_000), Some(3_000_000));
    assert_eq!(
        t.fetch_token_price_usd(quoted, Some(6), 3_000_000_000),
        Some(3_000_000_000_000_000_000)
    );
    assert_eq!(t.fetch_token_price_usd(quoted, Some(5), 3_000_000_000), None);
    assert_eq!(t.fetch_token_price_usd(Amount::from_u64(2_500_000), Some(6), 1_000_000), Some(2_500_000));
    // more decimal places than can be scaled: no price
    assert_eq!(t.fetch_token_price_usd(quoted, Some(76), 3_000_000_000), Some(0));
    assert_eq!(t.fetch_token_price_usd(quoted, Some(77), 3_000_000_000), None);
    assert_eq!(t.fetch_token_price_usd(Amount::zero(), Some(255), 0), None);
}

#[test]
fn the_oracle_files_assets_by_network_and_address() {
    let t = trader();
    assert_eq!(
        t.price_key(Address { hi: 0xc02a_aa39, lo: 0xb223_fe8d_0a0e_5c4f_27ea_d908_3c75_6cc2 }),
        "base:0xc02aaa39b223fe8d0a0e5c4f27ead9083c756cc2"
    );
    let mut other = config();
    other.chain = Chain::Other(5);
    assert_eq!(
        Trader::new(other, WALLET).price_key(Address { hi: 0, lo: 0xab }),
        "ethereum:0x00000000000000000000000000000000000000ab"
    );
}

#[test]
fn the_price_of_a_base_asset_is_the_one_under_its_name() {
    let t = trader();
    let coins = vec![
        ("base:0x0000000000000000000000000000000000000033".to_string(), 1_000_000),
        ("ethereum:0x0000000000000000000000000000000000000022".to_string(), 2),
        ("base:0x0000000000000000000000000000000000000022".to_string(), 3_000_000_000),
        ("base:0x0000000000000000000000000000000000000022".to_string(), 4),
    ];
    assert_eq!(t.fetch_base_usd_price(WETH, &coins), Some(3_000_000_000));
    assert_eq!(t.fetch_base_usd_price(Address { hi: 0, lo: 0x33 }, &coins), Some(1_000_000));
    assert_eq!(t.fetch_base_usd_price(TOKEN, &coins), None);
    assert_eq!(t.fetch_base_usd_price(WETH, &vec![]), None);
}

#[test]
fn an_entry_books_what_the_balance_has_grown_by() {
    let (mut flow, first) = trader().execute_entry(&TOKEN, Amount::from_u64(1_000), &candidate());
    assert_eq!(
        first,
        ChainRequest::Quote { amount_in: Amount::from_u64(1_000), from: WETH, to: TOKEN }
    );
    assert_eq!(flow.stage, EntryStage::AwaitQuote);
    assert_eq!(
        flow.step(ChainReply::Quote(Ok(Amount::from_u64(10_000))), NOW),
        Step::Ask(ChainRequest::TokenBalance(TOKEN))
    );
    assert_eq!(flow.stage, EntryStage::AwaitBalanceBefore { min_out: Amount::from_u64(9_700) });
    assert_eq!(
        flow.step(ChainReply::Balance(Some(Amount::from_u64(50))), NOW + 1),
        Step::Ask(ChainRequest::SwapNativeForTokens {
            amount_in: Amount::from_u64(1_000),
            min_out: Amount::from_u64(9_700),
            from: WETH,
            to: TOKEN,
            recipient: WALLET,
            deadline: (NOW + 1 + 120) as u64,
            gas_price_gwei: 200,
            timeout_secs: 150,
        })
    );
    assert_eq!(flow.step(mined(77), NOW + 2), Step::Ask(ChainRequest::TokenBalance(TOKEN)));
    // the token takes a tax on transfer: less arrives than was quoted
    assert_eq!(
        flow.step(ChainReply::Balance(Some(Amount::from_u64(9_050))), NOW + 3),
        Step::Ask(ChainRequest::BlockTimestamp(77))
    );
    assert_eq!(
        flow.step(ChainReply::BlockTimestamp(Some(1_699_999_999)), NOW + 4),
        Step::Finished(Ok(ExecutionResult {
            tx_hash: TX,
            token_address: TOKEN,
            base_token: WETH,
            base_spent: Amount::from_u64(1_000),
            tokens_acquired: Amount::from_u64(9_000),
            block_number: 77,
            timestamp: 1_699_999_999,
        }))
    );
    assert_eq!(flow.stage, EntryStage::Done);
    assert_eq!(
        flow.step(ChainReply::BlockTimestamp(None), NOW),
        Step::Finished(Err(ExecutionError::OutOfTurn))
    );
}

#[test]
fn an_entry_falls_back_on_the_wall_clock() {
    for block_time in [None, Some(253_402_300_800), Some(u64::MAX)] {
        let mut flow = entry_awaiting_swap(0);
        flow.step(mined(1), NOW);
        flow.step(ChainReply::Balance(Some(Amount::from_u64(1))), NOW);
        match flow.step(ChainReply::BlockTimestamp(block_time), NOW + 9) {
            Step::Finished(Ok(result)) => assert_eq!(result.timestamp, NOW + 9),
            other => panic!("{:?}", other),
        }
    }
    let mut flow = entry_awaiting_swap(0);
    flow.step(mined(1), NOW);
    flow.step(ChainReply::Balance(Some(Amount::from_u64(1))), NOW);
    match flow.step(ChainReply::BlockTimestamp(Some(253_402_300_799)), NOW + 9) {
        Step::Finished(Ok(result)) => assert_eq!(result.timestamp, 253_402_300_799),
        other => panic!("{:?}", other),
    }
}

#[test]
fn an_entry_fails_with_the_failure_of_its_swap() {
    let cases = [
        (SwapOutcome::NotSent, ExecutionError::SubmitFailed),
        (SwapOutcome::TimedOut, ExecutionError::TxTimeout),
        (SwapOutcome::Reverted, ExecutionError::TxReverted),
        (SwapOutcome::Dropped, ExecutionError::MissingReceipt),
        (
            SwapOutcome::Mined { tx_hash: TX, block_number: None },
            ExecutionError::MissingBlockNumber,
        ),
    ];
    for (outcome, error) in cases {
        let mut flow = entry_awaiting_swap(0);
        assert_eq!(flow.step(ChainReply::Swap(outcome), NOW), Step::Finished(Err(error)));
        assert_eq!(flow.stage, EntryStage::Done);
        let mut flow = exit_awaiting_swap(0);
        assert_eq!(flow.step(ChainReply::Swap(outcome), NOW), Step::Finished(Err(error)));
        assert_eq!(flow.stage, ExitStage::Done);
    }
}

#[test]
fn an_entry_fails_on_failed_calls_and_senseless_figures() {
    let t = trader();
    let (mut flow, _) = t.execute_entry(&TOKEN, Amount::from_u64(1), &candidate());
    assert_eq!(
        flow.step(ChainReply::Quote(Err(ExecutionError::EmptyQuotePath)), NOW),
        Step::Finished(Err(ExecutionError::EmptyQuotePath))
    );
    let (mut flow, _) = t.execute_entry(&TOKEN, Amount::from_u64(1), &candidate());
    assert_eq!(
        flow.step(ChainReply::Quote(Ok(Amount::max_value())), NOW),
        Step::Finished(Err(ExecutionError::Slippage(ArithmeticError::ProductOverflow)))
    );
    let (mut flow, _) = t.execute_entry(&TOKEN, Amount::from_u64(1), &candidate());
    assert_eq!(
        flow.step(ChainReply::Balance(Some(Amount::zero())), NOW),
        Step::Finished(Err(ExecutionError::OutOfTurn))
    );
    let (mut flow, _) = t.execute_entry(&TOKEN, Amount::from_u64(1), &candidate());
    flow.step(ChainReply::Quote(Ok(Amount::from_u64(10))), NOW);
    assert_eq!(
        flow.step(ChainReply::Balance(None), NOW),
        Step::Finished(Err(ExecutionError::BalanceUnavailable))
    );
    let (mut flow, _) = t.execute_entry(&TOKEN, Amount::from_u64(1), &candidate());
    flow.step(ChainReply::Quote(Ok(Amount::from_u64(10))), NOW);
    assert_eq!(
        flow.step(ChainReply::Balance(Some(Amount::zero())), -121),
        Step::Finished(Err(ExecutionError::DeadlineOutOfRange))
    );
    let mut flow = entry_awaiting_swap(100);
    flow.step(mined(1), NOW);
    assert_eq!(
        flow.step(ChainReply::Balance(Some(Amount::from_u64(99))), NOW),
        Step::Finished(Err(ExecutionError::BalanceDecreased))
    );
    let mut flow = entry_awaiting_swap(100);
    flow.step(mined(1), NOW);
    assert_eq!(
        flow.step(ChainReply::Balance(None), NOW),
        Step::Finished(Err(ExecutionError::BalanceUnavailable))
    );
    let mut slipped = config();
    slipped.exchange.max_slippage_bps = 10_001;
    let (mut flow, _) = Trader::new(slipped, WALLET).execute_entry(&TOKEN, Amount::from_u64(1), &candidate());
    assert_eq!(
        flow.step(ChainReply::Quote(Ok(Amount::from_u64(10))), NOW),
        Step::Finished(Err(ExecutionError::Slippage(ArithmeticError::SlippageOutOfRange)))
    );
}

#[test]
fn an_entry_into_the_native_asset_reads_the_native_balance() {
    let mut own = candidate();
    own.token_address = WALLET;
    let (mut flow, _) = trader().execute_entry(&WALLET, Amount::from_u64(1), &own);
    assert_eq!(
        flow.step(ChainReply::Quote(Ok(Amount::from_u64(10))), NOW),
        Step::Ask(ChainRequest::NativeBalance)
    );
}

#[test]
fn an_exit_asks_for_an_allowance_only_where_it_is_short() {
    let t = trader();
    let (mut flow, first) = t.execute_exit(&order(), NOW).unwrap();
    assert_eq!(first, ChainRequest::Allowance { token: TOKEN, owner: WALLET, spender: ROUTER });
    assert_eq!(flow.deadline, (NOW + 120) as u64);
    assert_eq!(
        flow.step(ChainReply::Allowance(Some(Amount::from_u64(5_000))), NOW),
        Step::Ask(ChainRequest::NativeBalance)
    );
    let (mut flow, _) = t.execute_exit(&order(), NOW).unwrap();
    assert_eq!(
        flow.step(ChainReply::Allowance(Some(Amount::from_u64(4_999))), NOW),
        Step::Ask(ChainRequest::Approve {
            token: TOKEN,
            spender: ROUTER,
            amount: Amount::max_value(),
            gas_price_gwei: 200,
        })
    );
    assert_eq!(flow.step(ChainReply::Approval(true), NOW), Step::Ask(ChainRequest::NativeBalance));
    let (mut flow, _) = t.execute_exit(&order(), NOW).unwrap();
    flow.step(ChainReply::Allowance(Some(Amount::zero())), NOW);
    assert_eq!(
        flow.step(ChainReply::Approval(false), NOW),
        Step::Finished(Err(ExecutionError::ApprovalFailed))
    );
    let (mut flow, _) = t.execute_exit(&order(), NOW).unwrap();
    assert_eq!(
        flow.step(ChainReply::Allowance(None), NOW),
        Step::Finished(Err(ExecutionError::AllowanceUnavailable))
    );
    let mut native = order();
    native.token_address = WALLET;
    let (flow, first) = t.execute_exit(&native, NOW).unwrap();
    assert_eq!(first, ChainRequest::NativeBalance);
    assert_eq!(flow.stage, ExitStage::AwaitBalanceBefore);
    assert_eq!(t.execute_exit(&order(), -121).unwrap_err(), ExecutionError::DeadlineOutOfRange);
    assert_eq!(t.execute_exit(&order(), i64::MAX).unwrap().0.deadline, i64::MAX as u64 + 120);
}

#[test]
fn an_exit_books_what_the_native_balance_has_grown_by() {
    let (mut flow, _) = trader().execute_exit(&order(), NOW).unwrap();
    flow.step(ChainReply::Allowance(Some(Amount::from_u64(9_999))), NOW);
    assert_eq!(
        flow.step(ChainReply::Balance(Some(Amount::from_u64(1_000))), NOW),
        Step::Ask(ChainRequest::SwapTokensForNative {
            amount_in: Amount::from_u64(5_000),
            min_out: Amount::from_u64(400),
            from: TOKEN,
            to: WETH,
            recipient: WALLET,
            deadline: (NOW + 120) as u64,
            gas_price_gwei: 200,
        })
    );
    assert_eq!(flow.step(mined(12), NOW), Step::Ask(ChainRequest::NativeBalance));
    assert_eq!(
        flow.step(ChainReply::Balance(Some(Amount::from_u64(1_450))), NOW),
        Step::Ask(ChainRequest::BlockTimestamp(12))
    );
    assert_eq!(
        flow.step(ChainReply::BlockTimestamp(Some(1_700_000_123)), NOW),
        Step::Finished(Ok(ExecutionResult {
            tx_hash: TX,
            token_address: TOKEN,
            base_token: WETH,
            base_spent: Amount::from_u64(450),
            tokens_acquired: Amount::from_u64(5_000),
            block_number: 12,
            timestamp: 1_700_000_123,
        }))
    );
}

#[test]
fn an_exit_whose_balance_has_shrunk_books_the_least_output() {
    let mut flow = exit_awaiting_swap(1_000);
    flow.step(mined(12), NOW);
    flow.step(ChainReply::Balance(Some(Amount::from_u64(999))), NOW);
    match flow.step(ChainReply::BlockTimestamp(None), NOW) {
        Step::Finished(Ok(result)) => {
            assert_eq!(result.base_spent, Amount::from_u64(400));
            assert_eq!(result.timestamp, NOW);
        }
        other => panic!("{:?}", other),
    }
    let mut flow = exit_awaiting_swap(1_000);
    flow.step(mined(12), NOW);
    flow.step(ChainReply::Balance(Some(Amount::from_u64(1_000))), NOW);
    match flow.step(ChainReply::BlockTimestamp(None), NOW) {
        Step::Finished(Ok(result)) => assert_eq!(result.base_spent, Amount::zero()),
        other => panic!("{:?}", other),
    }
    let mut flow = exit_awaiting_swap(1_000);
    flow.step(mined(12), NOW);
    assert_eq!(
        flow.step(ChainReply::Balance(None), NOW),
        Step::Finished(Err(ExecutionError::BalanceUnavailable))
    );
}
