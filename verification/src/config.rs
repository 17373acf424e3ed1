//! Settings of the engine. Loading them is the embedding program's business; what
//! they mean to the engine is said here.
//!
//! Figures with a fraction are whole numbers of millionths: dollars, percentages,
//! ratios and scores alike.

use crate::address::{address_of_text, read_address, Address};
use crate::decimal::{decimal_micros_u64, parse_decimal};
use crate::text::{
    fields, find_char, lookup, parse_unsigned, setting_text, split, texts, trim, trimmed,
    unsigned_within,
};
use crate::amount::{
    amount_limit, checked_mul, pow10, power_of_ten, quotient, Amount,
    ArithmeticError,
};
use vstd::prelude::*;

verus! {

/// The networks that the engine tells apart; any other is known by its number.
#[derive(Clone, Copy, Debug, PartialEq, Eq, Structural)]
pub enum Chain {
    Mainnet,
    Arbitrum,
    Base,
    Polygon,
    Optimism,
    BinanceSmartChain,
    Other(u64),
}

/// The number by which a network is known to its nodes.
pub open spec fn chain_number(chain: Chain) -> u64 {
    match chain {
        Chain::Mainnet => 1,
        Chain::Optimism => 10,
        Chain::BinanceSmartChain => 56,
        Chain::Polygon => 137,
        Chain::Base => 8453,
        Chain::Arbitrum => 42161,
        Chain::Other(id) => id,
    }
}

/// The name by which the price oracle knows a network; one it has no name for goes
/// by the main network's.
pub open spec fn chain_name(chain: Chain) -> Seq<char> {
    match chain {
        Chain::Mainnet => "ethereum"@,
        Chain::Arbitrum => "arbitrum"@,
        Chain::Base => "base"@,
        Chain::Polygon => "polygon"@,
        Chain::Optimism => "optimism"@,
        Chain::BinanceSmartChain => "bsc"@,
        Chain::Other(_) => "ethereum"@,
    }
}

impl Chain {
    /// The network's number.
    pub fn id(&self) -> (r: u64)
        ensures
            r == chain_number(*self),
    {
        match self {
            Chain::Mainnet => 1,
            Chain::Optimism => 10,
            Chain::BinanceSmartChain => 56,
            Chain::Polygon => 137,
            Chain::Base => 8453,
            Chain::Arbitrum => 42161,
            Chain::Other(id) => *id,
        }
    }
}

/// How the node is reached.
#[derive(Clone, Debug)]
pub struct RpcConfig {
    pub http_url: String,
    pub ws_url: Option<String>,
    pub poll_interval_ms: u64,
}

impl RpcConfig {
    /// The polling interval where none is set: two seconds.
    pub fn default_poll_interval_ms() -> (r: u64)
        ensures
            r == 2000,
    {
        2000
    }
}

/// The router and the limits under which it is called.
#[derive(Clone, Debug)]
pub struct ExchangeConfig {
    pub router_address: Address,
    /// Tolerated slippage, in hundredths of a percent.
    pub max_slippage_bps: u16,
    pub deadline_secs: u64,
    pub max_gas_price_gwei: u64,
    pub base_tokens: Vec<Address>,
}

impl ExchangeConfig {
    /// The slippage tolerance where none is set: three percent.
    pub fn default_slippage_bps() -> (r: u16)
        ensures
            r == 300,
    {
        300
    }

    /// The swap deadline where none is set: two minutes.
    pub fn default_deadline_secs() -> (r: u64)
        ensures
            r == 120,
    {
        120
    }

    /// The gas-price ceiling where none is set, in gwei.
    pub fn default_max_gas_gwei() -> (r: u64)
        ensures
            r == 200,
    {
        200
    }
}

/// What to buy, how much of it, and when to sell.
#[derive(Clone, Debug)]
pub struct StrategyConfig {
    pub max_positions: usize,
    /// Size of one entry, in millionths of the native asset.
    pub position_size_eth: u64,
    pub blacklisted_tokens: Vec<Address>,
    pub take_profit_bps: u32,
    pub stop_loss_bps: u32,
    pub price_momentum_window_minutes: u64,
    /// In millionths of a dollar.
    pub min_liquidity_usd: u64,
    /// In millionths of a dollar.
    pub min_daily_volume_usd: u64,
    pub min_age_minutes: u64,
}

impl StrategyConfig {
    /// The take-profit threshold where none is set: twenty-five percent.
    pub fn default_reward_take_profit_bps() -> (r: u32)
        ensures
            r == 2500,
    {
        2500
    }

    /// The stop-loss threshold where none is set: twelve percent.
    pub fn default_stop_loss_bps() -> (r: u32)
        ensures
            r == 1200,
    {
        1200
    }

    /// The momentum window where none is set, in minutes.
    pub fn default_price_momentum_window_minutes() -> (r: u64)
        ensures
            r == 15,
    {
        15
    }

    /// The liquidity floor where none is set: 120,000 dollars.
    pub fn default_min_liquidity_usd() -> (r: u64)
        ensures
            r == 120_000_000_000,
    {
        120_000_000_000
    }

    /// The floor on a day's volume where none is set: 250,000 dollars.
    pub fn default_min_daily_volume_usd() -> (r: u64)
        ensures
            r == 250_000_000_000,
    {
        250_000_000_000
    }

    /// The least age of a pair where none is set, in minutes.
    pub fn default_min_age_minutes() -> (r: u64)
        ensures
            r == 45,
    {
        45
    }
}

/// The thresholds of the safety evaluation.
#[derive(Clone, Copy, Debug, PartialEq, Eq, Structural)]
pub struct RiskHeuristicsConfig {
    /// Ceiling on what the ten largest holders own, in millionths of a percent.
    pub max_top_holder_percent: u64,
    /// Floor on the locked share of liquidity, in millionths of a percent.
    pub min_lock_ratio: u64,
    pub min_holder_count: u64,
    /// Floor on the renounce score, in millionths.
    pub min_renounced_score: u64,
}

impl RiskHeuristicsConfig {
    /// The holder-concentration ceiling where none is set: eighteen percent.
    pub fn default_max_top_holder_percent() -> (r: u64)
        ensures
            r == 18_000_000,
    {
        18_000_000
    }

    /// The lock floor where none is set: sixty percent.
    pub fn default_min_lock_ratio() -> (r: u64)
        ensures
            r == 60_000_000,
    {
        60_000_000
    }

    /// The holder-count floor where none is set.
    pub fn default_min_holder_count() -> (r: u64)
        ensures
            r == 500,
    {
        500
    }

    /// The renounce-score floor where none is set: one half.
    pub fn default_min_renounced_score() -> (r: u64)
        ensures
            r == 500_000,
    {
        500_000
    }
}

/// Where alerts go.
#[derive(Clone, Debug)]
pub struct AlertingConfig {
    pub webhook_url: Option<String>,
    pub email_recipients: Vec<String>,
}

impl Default for AlertingConfig {
    fn default() -> (r: AlertingConfig)
        ensures
            r.webhook_url.is_none(),
            r.email_recipients@.len() == 0,
    {
        AlertingConfig { webhook_url: None, email_recipients: Vec::new() }
    }
}

/// The address at which the monitoring surface listens where none is set.
pub open spec fn default_bind_text() -> Seq<char> {
    "0.0.0.0:8787"@
}

/// Where the monitoring surface listens, as host and port in text.
#[derive(Clone, Debug)]
pub struct MonitoringConfig {
    pub bind_addr: String,
}

impl MonitoringConfig {
    /// The listening address where none is set: every interface, port 8787.
    pub fn default_bind_addr() -> (r: String)
        ensures
            r@ == default_bind_text(),
    {
        "0.0.0.0:8787".to_owned()
    }
}

impl Default for MonitoringConfig {
    fn default() -> (r: MonitoringConfig)
        ensures
            r.bind_addr@ == default_bind_text(),
    {
        MonitoringConfig { bind_addr: MonitoringConfig::default_bind_addr() }
    }
}

/// All settings of one engine.
#[derive(Clone, Debug)]
pub struct BotConfig {
    pub chain: Chain,
    pub rpc: RpcConfig,
    pub strategy: StrategyConfig,
    pub exchange: ExchangeConfig,
    pub risk: RiskHeuristicsConfig,
    /// Free-form tags, each a name and a value.
    pub metadata: Vec<(String, String)>,
    pub alerting: AlertingConfig,
    pub monitoring: MonitoringConfig,
}

/// Smallest units of the native asset in one millionth of it: ten to the twelfth.
pub open spec fn wei_per_micro() -> nat {
    1_000_000_000_000
}

impl BotConfig {
    /// The size of one entry in the native asset's smallest unit.
    ///
    /// The size is set in millionths of the asset, which has eighteen decimal places;
    /// the result always exists.
    pub fn position_size_wei(&self) -> (r: Result<Amount, ArithmeticError>)
        ensures
            r.is_ok(),
            r.unwrap()@ == self.strategy.position_size_eth as nat * wei_per_micro(),
    {
        let size: u64 = self.strategy.position_size_eth;
        let wei_per_eth = power_of_ten(18);
        proof {
            reveal_with_fuel(pow10, 20);
            assert(pow10(18) == 1_000_000_000_000_000_000);
            assert(pow10(6) == 1_000_000);
            assert(wei_per_eth@ * (size as nat) < amount_limit()) by (nonlinear_arith)
                requires
                    wei_per_eth@ == 1_000_000_000_000_000_000,
                    size <= u64::MAX,
                    amount_limit() == 0x1_0000_0000_0000_0000 * 0x1_0000_0000_0000_0000
                        * 0x1_0000_0000_0000_0000 * 0x1_0000_0000_0000_0000,
            ;
        }
        match checked_mul(wei_per_eth, Amount::from_u64(size)) {
            None => Err(ArithmeticError::ProductOverflow),
            Some(scaled) => {
                let r = quotient(scaled, power_of_ten(6));
                proof {
                    assert(1_000_000_000_000_000_000 * (size as nat) / 1_000_000 == (size as nat)
                        * 1_000_000_000_000) by (nonlinear_arith);
                }
                Ok(r)
            },
        }
    }

    /// The tolerated slippage, in hundredths of a percent.
    pub fn slippage_bps(&self) -> (r: u16)
        ensures
            r == self.exchange.max_slippage_bps,
    {
        self.exchange.max_slippage_bps
    }

    /// The time a swap is given to be mined, in seconds.
    pub fn swap_deadline(&self) -> (r: u64)
        ensures
            r == self.exchange.deadline_secs,
    {
        self.exchange.deadline_secs
    }

    /// The name by which the price oracle knows the configured network.
    pub fn chain_as_str(&self) -> (r: &'static str)
        ensures
            r@ == chain_name(self.chain),
    {
        match self.chain {
            Chain::Mainnet => "ethereum",
            Chain::Arbitrum => "arbitrum",
            Chain::Base => "base",
            Chain::Polygon => "polygon",
            Chain::Optimism => "optimism",
            Chain::BinanceSmartChain => "bsc",
            Chain::Other(_) => "ethereum",
        }
    }
}

/// Why settings could not be loaded.
#[derive(Clone, Copy, Debug, PartialEq, Eq, Structural)]
pub enum ConfigError {
    MissingChainId,
    InvalidChainId,
    /// The network of this number is none that the chain client knows.
    UnsupportedChain(u64),
    MissingRpcHttp,
    MissingRouterAddress,
    InvalidRouterAddress,
}

/// Whether the chain client knows a network of this number.
pub uninterp spec fn chain_listed(id: u64) -> bool;

/// Whether `Chain::try_from` of ethers accepts a number: it does for the numbers of
/// the networks that the enumeration lists.
#[verifier::external_body]
pub(crate) fn is_listed(id: u64) -> (r: bool)
    ensures
        r == chain_listed(id),
{
    ethers::types::Chain::try_from(id).is_ok()
}

/// The network of a number.
pub open spec fn chain_of(id: u64) -> Chain {
    if id == 1 {
        Chain::Mainnet
    } else if id == 10 {
        Chain::Optimism
    } else if id == 56 {
        Chain::BinanceSmartChain
    } else if id == 137 {
        Chain::Polygon
    } else if id == 8453 {
        Chain::Base
    } else if id == 42161 {
        Chain::Arbitrum
    } else {
        Chain::Other(id)
    }
}

/// The number set under a name where one no greater than `limit` is, else the
/// default.
pub open spec fn number_or(vars: Seq<(String, String)>, name: Seq<char>, limit: u64, default: u64)
    -> u64 {
    match setting_text(vars, name) {
        Some(text) => match unsigned_within(text, limit) {
            Some(n) => n,
            None => default,
        },
        None => default,
    }
}

/// The figure set under a name, in millionths, where one is, else the default.
pub open spec fn figure_or(vars: Seq<(String, String)>, name: Seq<char>, default: u64) -> u64 {
    match setting_text(vars, name) {
        Some(text) => match decimal_micros_u64(text) {
            Some(n) => n,
            None => default,
        },
        None => default,
    }
}

/// The text set under a name, or the empty text.
pub open spec fn text_or_empty(vars: Seq<(String, String)>, name: Seq<char>) -> Seq<char> {
    match setting_text(vars, name) {
        Some(text) => text,
        None => Seq::empty(),
    }
}

/// The addresses among some pieces of text, in their order; a piece that is no
/// address is passed over.
pub open spec fn addresses_of(pieces: Seq<Seq<char>>) -> Seq<Address>
    decreases pieces.len(),
{
    if pieces.len() == 0 {
        Seq::empty()
    } else {
        let before = addresses_of(pieces.drop_last());
        let piece = trimmed(pieces.last());
        if piece.len() > 0 && address_of_text(piece).is_some() {
            before.push(address_of_text(piece).unwrap())
        } else {
            before
        }
    }
}

/// The pieces of text that are more than white space, each without the white space
/// around it.
pub open spec fn entries_of(pieces: Seq<Seq<char>>) -> Seq<Seq<char>>
    decreases pieces.len(),
{
    if pieces.len() == 0 {
        Seq::empty()
    } else {
        let before = entries_of(pieces.drop_last());
        let piece = trimmed(pieces.last());
        if piece.len() > 0 {
            before.push(piece)
        } else {
            before
        }
    }
}

/// The name and the value of a tag written as `name=value`.
pub open spec fn tag_of(piece: Seq<char>) -> Option<(Seq<char>, Seq<char>)> {
    let text = trimmed(piece);
    match text.index_of_first('=') {
        Some(k) => Some(
            (trimmed(text.subrange(0, k)), trimmed(text.subrange(k + 1, text.len() as int))),
        ),
        None => None,
    }
}

/// The tags among some pieces of text, in their order; a piece without an equals
/// sign is passed over.
pub open spec fn tags_of(pieces: Seq<Seq<char>>) -> Seq<(Seq<char>, Seq<char>)>
    decreases pieces.len(),
{
    if pieces.len() == 0 {
        Seq::empty()
    } else {
        let before = tags_of(pieces.drop_last());
        match tag_of(pieces.last()) {
            Some(tag) => before.push(tag),
            None => before,
        }
    }
}

/// The names and values of some tags.
pub open spec fn tag_texts(tags: Seq<(String, String)>) -> Seq<(Seq<char>, Seq<char>)> {
    Seq::new(tags.len(), |i: int| (tags[i].0@, tags[i].1@))
}

/// Why the settings cannot be loaded, if they cannot: the network must be set, be a
/// number and be known; the node's address must be set; the router's address must
/// be set and be an address.
pub open spec fn load_error(vars: Seq<(String, String)>) -> Option<ConfigError> {
    match setting_text(vars, "CHAIN_ID"@) {
        None => Some(ConfigError::MissingChainId),
        Some(text) => match unsigned_within(text, u64::MAX) {
            None => Some(ConfigError::InvalidChainId),
            Some(id) => if !chain_listed(id) {
                Some(ConfigError::UnsupportedChain(id))
            } else if setting_text(vars, "RPC_HTTP"@).is_none() {
                Some(ConfigError::MissingRpcHttp)
            } else {
                match setting_text(vars, "ROUTER_ADDRESS"@) {
                    None => Some(ConfigError::MissingRouterAddress),
                    Some(router) => if address_of_text(router).is_none() {
                        Some(ConfigError::InvalidRouterAddress)
                    } else {
                        None
                    },
                }
            },
        },
    }
}

/// Whether settings are those that the named values call for. What is not set, or
/// set to what cannot be read, takes its default.
pub open spec fn loaded(config: BotConfig, vars: Seq<(String, String)>) -> bool {
    &&& config.chain == chain_of(unsigned_within(setting_text(vars, "CHAIN_ID"@).unwrap(), u64::MAX).unwrap())
    &&& config.rpc.http_url@ == setting_text(vars, "RPC_HTTP"@).unwrap()
    &&& config.rpc.ws_url.is_some() == setting_text(vars, "RPC_WS"@).is_some()
    &&& config.rpc.ws_url.is_some() ==> config.rpc.ws_url.unwrap()@ == setting_text(
        vars,
        "RPC_WS"@,
    ).unwrap()
    &&& config.rpc.poll_interval_ms == number_or(vars, "RPC_POLL_INTERVAL_MS"@, u64::MAX, 2000)
    &&& Some(config.exchange.router_address) == address_of_text(
        setting_text(vars, "ROUTER_ADDRESS"@).unwrap(),
    )
    &&& config.exchange.max_slippage_bps == number_or(
        vars,
        "MAX_SLIPPAGE_BPS"@,
        u16::MAX as u64,
        300,
    )
    &&& config.exchange.deadline_secs == number_or(vars, "SWAP_DEADLINE_SECS"@, u64::MAX, 120)
    &&& config.exchange.max_gas_price_gwei == number_or(
        vars,
        "MAX_GAS_PRICE_GWEI"@,
        u64::MAX,
        200,
    )
    &&& config.exchange.base_tokens@ == addresses_of(
        fields(text_or_empty(vars, "BASE_TOKENS"@), ','),
    )
    &&& config.strategy.max_positions == number_or(vars, "MAX_POSITIONS"@, usize::MAX as u64, 4)
    &&& config.strategy.position_size_eth == figure_or(vars, "POSITION_SIZE_ETH"@, 300_000)
    &&& config.strategy.blacklisted_tokens@ == addresses_of(
        fields(text_or_empty(vars, "BLACKLISTED_TOKENS"@), ','),
    )
    &&& config.strategy.take_profit_bps == number_or(
        vars,
        "TAKE_PROFIT_BPS"@,
        u32::MAX as u64,
        2500,
    )
    &&& config.strategy.stop_loss_bps == number_or(vars, "STOP_LOSS_BPS"@, u32::MAX as u64, 1200)
    &&& config.strategy.price_momentum_window_minutes == number_or(
        vars,
        "MOMENTUM_WINDOW_MINUTES"@,
        u64::MAX,
        15,
    )
    &&& config.strategy.min_liquidity_usd == figure_or(
        vars,
        "MIN_LIQUIDITY_USD"@,
        120_000_000_000,
    )
    &&& config.strategy.min_daily_volume_usd == figure_or(
        vars,
        "MIN_DAILY_VOLUME_USD"@,
        250_000_000_000,
    )
    &&& config.strategy.min_age_minutes == number_or(
        vars,
        "MIN_TOKEN_AGE_MINUTES"@,
        u64::MAX,
        45,
    )
    &&& config.risk.max_top_holder_percent == figure_or(
        vars,
        "MAX_TOP_HOLDER_PERCENT"@,
        18_000_000,
    )
    &&& config.risk.min_lock_ratio == figure_or(vars, "MIN_LOCK_RATIO_PERCENT"@, 60_000_000)
    &&& config.risk.min_holder_count == number_or(vars, "MIN_HOLDER_COUNT"@, u64::MAX, 500)
    &&& config.risk.min_renounced_score == figure_or(vars, "MIN_RENOUNCED_SCORE"@, 500_000)
    &&& tag_texts(config.metadata@) == tags_of(fields(text_or_empty(vars, "BOT_TAGS"@), ','))
    &&& config.alerting.webhook_url.is_some() == setting_text(vars, "ALERT_WEBHOOK"@).is_some()
    &&& config.alerting.webhook_url.is_some() ==> config.alerting.webhook_url.unwrap()@
        == setting_text(vars, "ALERT_WEBHOOK"@).unwrap()
    &&& texts(config.alerting.email_recipients@) == entries_of(
        fields(text_or_empty(vars, "ALERT_EMAILS"@), ','),
    )
    &&& config.monitoring.bind_addr@ == (match setting_text(vars, "MONITOR_ADDR"@) {
        Some(text) => text,
        None => default_bind_text(),
    })
}

fn chain_from(id: u64) -> (r: Chain)
    ensures
        r == chain_of(id),
{
    if id == 1 {
        Chain::Mainnet
    } else if id == 10 {
        Chain::Optimism
    } else if id == 56 {
        Chain::BinanceSmartChain
    } else if id == 137 {
        Chain::Polygon
    } else if id == 8453 {
        Chain::Base
    } else if id == 42161 {
        Chain::Arbitrum
    } else {
        Chain::Other(id)
    }
}

fn number_setting(vars: &Vec<(String, String)>, name: &str, limit: u64, default: u64) -> (r: u64)
    ensures
        r == number_or(vars@, name@, limit, default),
{
    match lookup(vars, name) {
        Some(text) => match parse_unsigned(text.as_str(), limit) {
            Some(n) => n,
            None => default,
        },
        None => default,
    }
}

fn figure_setting(vars: &Vec<(String, String)>, name: &str, default: u64) -> (r: u64)
    ensures
        r == figure_or(vars@, name@, default),
{
    match lookup(vars, name) {
        Some(text) => match parse_decimal(text.as_str()) {
            Some(n) => n,
            None => default,
        },
        None => default,
    }
}

fn text_setting(vars: &Vec<(String, String)>, name: &str) -> (r: Option<String>)
    ensures
        r.is_some() == setting_text(vars@, name@).is_some(),
        r.is_some() ==> r.unwrap()@ == setting_text(vars@, name@).unwrap(),
{
    match lookup(vars, name) {
        Some(text) => Some(text.clone()),
        None => None,
    }
}

fn pieces_of(vars: &Vec<(String, String)>, name: &str) -> (r: Vec<String>)
    ensures
        texts(r@) == fields(text_or_empty(vars@, name@), ','),
{
    match lookup(vars, name) {
        Some(text) => split(text.as_str(), ','),
        None => {
            let empty = String::new();
            split(empty.as_str(), ',')
        },
    }
}

fn address_list(pieces: &Vec<String>) -> (r: Vec<Address>)
    ensures
        r@ == addresses_of(texts(pieces@)),
{
    let mut found: Vec<Address> = Vec::new();
    let mut i: usize = 0;
    while i < pieces.len()
        invariant
            i <= pieces.len(),
            found@ == addresses_of(texts(pieces@).subrange(0, i as int)),
        decreases pieces.len() - i,
    {
        proof {
            let all = texts(pieces@);
            assert(all.subrange(0, i + 1).drop_last() =~= all.subrange(0, i as int));
            assert(all.subrange(0, i + 1).last() == pieces@[i as int]@);
        }
        let piece = trim(pieces[i].as_str());
        if piece.unicode_len() > 0 {
            match read_address(piece) {
                Some(a) => {
                    found.push(a);
                },
                None => {},
            }
        }
        i = i + 1;
    }
    proof {
        let all = texts(pieces@);
        assert(all.subrange(0, pieces.len() as int) =~= all);
    }
    found
}

fn entry_list(pieces: &Vec<String>) -> (r: Vec<String>)
    ensures
        texts(r@) == entries_of(texts(pieces@)),
{
    let mut found: Vec<String> = Vec::new();
    let mut i: usize = 0;
    while i < pieces.len()
        invariant
            i <= pieces.len(),
            texts(found@) == entries_of(texts(pieces@).subrange(0, i as int)),
        decreases pieces.len() - i,
    {
        proof {
            let all = texts(pieces@);
            assert(all.subrange(0, i + 1).drop_last() =~= all.subrange(0, i as int));
            assert(all.subrange(0, i + 1).last() == pieces@[i as int]@);
        }
        let piece = trim(pieces[i].as_str());
        if piece.unicode_len() > 0 {
            let ghost before = found@;
            let entry = piece.to_owned();
            found.push(entry);
            proof {
                assert(texts(found@) =~= texts(before).push(piece@));
            }
        }
        i = i + 1;
    }
    proof {
        let all = texts(pieces@);
        assert(all.subrange(0, pieces.len() as int) =~= all);
    }
    found
}

fn tag_list(pieces: &Vec<String>) -> (r: Vec<(String, String)>)
    ensures
        tag_texts(r@) == tags_of(texts(pieces@)),
{
    let mut found: Vec<(String, String)> = Vec::new();
    let mut i: usize = 0;
    while i < pieces.len()
        invariant
            i <= pieces.len(),
            tag_texts(found@) == tags_of(texts(pieces@).subrange(0, i as int)),
        decreases pieces.len() - i,
    {
        proof {
            let all = texts(pieces@);
            assert(all.subrange(0, i + 1).drop_last() =~= all.subrange(0, i as int));
            assert(all.subrange(0, i + 1).last() == pieces@[i as int]@);
        }
        let piece = trim(pieces[i].as_str());
        match find_char(piece, '=') {
            Some(k) => {
                let n = piece.unicode_len();
                let name = trim(piece.substring_char(0, k)).to_owned();
                let value = trim(piece.substring_char(k + 1, n)).to_owned();
                let ghost before = found@;
                found.push((name, value));
                proof {
                    assert(tag_texts(found@) =~= tag_texts(before).push((name@, value@)));
                }
            },
            None => {},
        }
        i = i + 1;
    }
    proof {
        let all = texts(pieces@);
        assert(all.subrange(0, pieces.len() as int) =~= all);
    }
    found
}

impl BotConfig {
    /// The settings that a list of named values calls for, as a process environment
    /// holds them.
    ///
    /// The network, the node's address and the router's address must be set; what
    /// else is not set, or set to what cannot be read, takes its default. Figures
    /// are read in plain decimal notation.
    pub fn from_env(vars: &Vec<(String, String)>) -> (r: Result<BotConfig, ConfigError>)
        ensures
            r.is_err() == load_error(vars@).is_some(),
            r.is_err() ==> r.unwrap_err() == load_error(vars@).unwrap(),
            r.is_ok() ==> loaded(r.unwrap(), vars@),
    {
        let chain_id: u64 = match lookup(vars, "CHAIN_ID") {
            None => { return Err(ConfigError::MissingChainId); },
            Some(text) => match parse_unsigned(text.as_str(), u64::MAX) {
                None => { return Err(ConfigError::InvalidChainId); },
                Some(id) => id,
            },
        };
        if !is_listed(chain_id) {
            return Err(ConfigError::UnsupportedChain(chain_id));
        }
        let http_url = match text_setting(vars, "RPC_HTTP") {
            Some(url) => url,
            None => { return Err(ConfigError::MissingRpcHttp); },
        };
        let rpc = RpcConfig {
            http_url,
            ws_url: text_setting(vars, "RPC_WS"),
            poll_interval_ms: number_setting(
                vars,
                "RPC_POLL_INTERVAL_MS",
                u64::MAX,
                RpcConfig::default_poll_interval_ms(),
            ),
        };
        let router_address = match lookup(vars, "ROUTER_ADDRESS") {
            None => { return Err(ConfigError::MissingRouterAddress); },
            Some(text) => match read_address(text.as_str()) {
                None => { return Err(ConfigError::InvalidRouterAddress); },
                Some(a) => a,
            },
        };
        let base_pieces = pieces_of(vars, "BASE_TOKENS");
        let exchange = ExchangeConfig {
            router_address,
            max_slippage_bps: number_setting(
                vars,
                "MAX_SLIPPAGE_BPS",
                u16::MAX as u64,
                ExchangeConfig::default_slippage_bps() as u64,
            ) as u16,
            deadline_secs: number_setting(
                vars,
                "SWAP_DEADLINE_SECS",
                u64::MAX,
                ExchangeConfig::default_deadline_secs(),
            ),
            max_gas_price_gwei: number_setting(
                vars,
                "MAX_GAS_PRICE_GWEI",
                u64::MAX,
                ExchangeConfig::default_max_gas_gwei(),
            ),
            base_tokens: address_list(&base_pieces),
        };
        let listed_pieces = pieces_of(vars, "BLACKLISTED_TOKENS");
        let strategy = StrategyConfig {
            max_positions: number_setting(vars, "MAX_POSITIONS", usize::MAX as u64, 4) as usize,
            position_size_eth: figure_setting(vars, "POSITION_SIZE_ETH", 300_000),
            blacklisted_tokens: address_list(&listed_pieces),
            take_profit_bps: number_setting(
                vars,
                "TAKE_PROFIT_BPS",
                u32::MAX as u64,
                StrategyConfig::default_reward_take_profit_bps() as u64,
            ) as u32,
            stop_loss_bps: number_setting(
                vars,
                "STOP_LOSS_BPS",
                u32::MAX as u64,
                StrategyConfig::default_stop_loss_bps() as u64,
            ) as u32,
            price_momentum_window_minutes: number_setting(
                vars,
                "MOMENTUM_WINDOW_MINUTES",
                u64::MAX,
                StrategyConfig::default_price_momentum_window_minutes(),
            ),
            min_liquidity_usd: figure_setting(
                vars,
                "MIN_LIQUIDITY_USD",
                StrategyConfig::default_min_liquidity_usd(),
            ),
            min_daily_volume_usd: figure_setting(
                vars,
                "MIN_DAILY_VOLUME_USD",
                StrategyConfig::default_min_daily_volume_usd(),
            ),
            min_age_minutes: number_setting(
                vars,
                "MIN_TOKEN_AGE_MINUTES",
                u64::MAX,
                StrategyConfig::default_min_age_minutes(),
            ),
        };
        let risk = RiskHeuristicsConfig {
            max_top_holder_percent: figure_setting(
                vars,
                "MAX_TOP_HOLDER_PERCENT",
                RiskHeuristicsConfig::default_max_top_holder_percent(),
            ),
            min_lock_ratio: figure_setting(
                vars,
                "MIN_LOCK_RATIO_PERCENT",
                RiskHeuristicsConfig::default_min_lock_ratio(),
            ),
            min_holder_count: number_setting(
                vars,
                "MIN_HOLDER_COUNT",
                u64::MAX,
                RiskHeuristicsConfig::default_min_holder_count(),
            ),
            min_renounced_score: figure_setting(
                vars,
                "MIN_RENOUNCED_SCORE",
                RiskHeuristicsConfig::default_min_renounced_score(),
            ),
        };
        let tag_pieces = pieces_of(vars, "BOT_TAGS");
        let metadata = tag_list(&tag_pieces);
        let email_pieces = pieces_of(vars, "ALERT_EMAILS");
        let alerting = AlertingConfig {
            webhook_url: text_setting(vars, "ALERT_WEBHOOK"),
            email_recipients: entry_list(&email_pieces),
        };
        let monitoring = MonitoringConfig {
            bind_addr: match text_setting(vars, "MONITOR_ADDR") {
                Some(text) => text,
                None => MonitoringConfig::default_bind_addr(),
            },
        };
        Ok(
            BotConfig {
                chain: chain_from(chain_id),
                rpc,
                strategy,
                exchange,
                risk,
                metadata,
                alerting,
                monitoring,
            },
        )
    }
}

} // verus!
