use trading_bot::address::Address;
use trading_bot::amount::Amount;
use trading_bot::config::{
    AlertingConfig, BotConfig, Chain, ExchangeConfig, MonitoringConfig, RiskHeuristicsConfig,
    RpcConfig, StrategyConfig,
};

fn config(chain: Chain, position_size_eth: u64) -> BotConfig {
    BotConfig {
        chain,
        rpc: RpcConfig {
            http_url: "http://localhost:8545".to_string(),
            ws_url: None,
            poll_interval_ms: RpcConfig::default_poll_interval_ms(),
        },
        strategy: StrategyConfig {
            max_positions: 4,
            position_size_eth,
            blacklisted_tokens: vec![],
            take_profit_bps: StrategyConfig::default_reward_take_profit_bps(),
            stop_loss_bps: StrategyConfig::default_stop_loss_bps(),
            price_momentum_window_minutes: StrategyConfig::default_price_momentum_window_minutes(),
            min_liquidity_usd: StrategyConfig::default_min_liquidity_usd(),
            min_daily_volume_usd: StrategyConfig::default_min_daily_volume_usd(),
            min_age_minutes: StrategyConfig::default_min_age_minutes(),
        },
        exchange: ExchangeConfig {
            router_address: Address { hi: 7, lo: 7 },
            max_slippage_bps: ExchangeConfig::default_slippage_bps(),
            deadline_secs: ExchangeConfig::default_deadline_secs(),
            max_gas_price_gwei: ExchangeConfig::default_max_gas_gwei(),
            base_tokens: vec![],
        },
        risk: RiskHeuristicsConfig {
            max_top_holder_percent: RiskHeuristicsConfig::default_max_top_holder_percent(),
            min_lock_ratio: RiskHeuristicsConfig::default_min_lock_ratio(),
            min_holder_count: RiskHeuristicsConfig::default_min_holder_count(),
            min_renounced_score: RiskHeuristicsConfig::default_min_renounced_score(),
        },
        metadata: vec![],
        alerting: AlertingConfig::default(),
        monitoring: MonitoringConfig::default(),
    }
}

#[test]
fn defaults() {
    let c = config(Chain::Mainnet, 300_000);
    assert_eq!(c.rpc.poll_interval_ms, 2000);
    assert_eq!(c.slippage_bps(), 300);
    assert_eq!(c.swap_deadline(), 120);
    assert_eq!(c.exchange.max_gas_price_gwei, 200);
    assert_eq!(c.strategy.take_profit_bps, 2500);
    assert_eq!(c.strategy.stop_loss_bps, 1200);
    assert_eq!(c.strategy.price_momentum_window_minutes, 15);
    assert_eq!(c.strategy.min_liquidity_usd, 120_000_000_000);
    assert_eq!(c.strategy.min_daily_volume_usd, 250_000_000_000);
    assert_eq!(c.strategy.min_age_minutes, 45);
    assert_eq!(c.risk.max_top_holder_percent, 18_000_000);
    assert_eq!(c.risk.min_lock_ratio, 60_000_000);
    assert_eq!(c.risk.min_holder_count, 500);
    assert_eq!(c.risk.min_renounced_score, 500_000);
    assert_eq!(c.monitoring.bind_addr, "0.0.0.0:8787");
    assert_eq!(MonitoringConfig::default_bind_addr(), "0.0.0.0:8787");
    assert!(c.alerting.webhook_url.is_none());
    assert!(c.alerting.email_recipients.is_empty());
}

#[test]
fn position_size_in_the_smallest_unit() {
    // three tenths of the native asset
    assert_eq!(
        config(Chain::Mainnet, 300_000).position_size_wei(),
        Ok(Amount::from_u128(300_000_000_000_000_000))
    );
    assert_eq!(config(Chain::Mainnet, 0).position_size_wei(), Ok(Amount::zero()));
    assert_eq!(config(Chain::Mainnet, 1).position_size_wei(), Ok(Amount::from_u64(1_000_000_000_000)));
    assert_eq!(
        config(Chain::Mainnet, u64::MAX).position_size_wei(),
        Ok(Amount::from_u128(u64::MAX as u128 * 1_000_000_000_000))
    );
}

#[test]
fn chain_names_and_numbers() {
    let cases = [
        (Chain::Mainnet, "ethereum", 1),
        (Chain::Arbitrum, "arbitrum", 42161),
        (Chain::Base, "base", 8453),
        (Chain::Polygon, "polygon", 137),
        (Chain::Optimism, "optimism", 10),
        (Chain::BinanceSmartChain, "bsc", 56),
        (Chain::Other(43114), "ethereum", 43114),
    ];
    for (chain, name, number) in cases {
        assert_eq!(config(chain, 1).chain_as_str(), name);
        assert_eq!(chain.id(), number);
    }
}
