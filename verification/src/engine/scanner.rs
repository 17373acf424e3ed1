//! Market scanner: turns the pairs that a market-data feed reports into scored
//! candidates, keeps the ones worth a look, and tests them for momentum.
//!
//! Dollar figures, percentages and ratios are whole numbers of millionths. Prices
//! of a single token are whole numbers of trillionths of a dollar.

use crate::address::{address_of_text, read_address, Address};
use crate::clock::{is_nameable, nameable};
use crate::config::{BotConfig, Chain, StrategyConfig};
use vstd::prelude::*;

verus! {

/// How many candidates a discovery hands on at most.
pub const SHORTLIST_LEN: usize = 12;

/// The least weighted price change that counts as momentum: eight percent, in the
/// unit of [`momentum_score`].
pub const MOMENTUM_FLOOR: i128 = 800_000_000;

/// The least share of buys that counts as buy pressure, in millionths.
pub const BUY_PRESSURE_FLOOR: u64 = 550_000;

/// The shortest momentum window that is trusted, in minutes.
pub const MOMENTUM_WINDOW_FLOOR: u64 = 5;

/// Liquidity below which a pair is flagged: 60,000 dollars.
pub const LOW_LIQUIDITY_USD: u64 = 60_000_000_000;

/// Renounce score below which a pair is flagged: four tenths.
pub const LOW_RENOUNCE_SCORE: u64 = 400_000;

/// Locked share of liquidity below which a pair is flagged: fifty percent.
pub const LOW_LOCK_RATIO: u64 = 50_000_000;

/// The age that a pair without a known creation time is taken to have, in seconds.
pub const ASSUMED_AGE_SECS: i64 = 3_600;

/// A token as a feed names it.
#[derive(Clone, Debug)]
pub struct TokenMetadata {
    pub address: String,
    pub symbol: String,
    pub name: String,
}

/// Buys and sells counted over one window.
#[derive(Clone, Copy, Debug, PartialEq, Eq, Structural)]
pub struct TransactionWindow {
    pub buys: u64,
    pub sells: u64,
}

/// One trading pair as the market-data feed reports it.
#[derive(Clone, Debug)]
pub struct DexScreenerPair {
    pub chain_id: String,
    pub dex_id: String,
    pub pair_address: String,
    pub base_token: TokenMetadata,
    pub quote_token: TokenMetadata,
    /// Price of the token in trillionths of a dollar.
    pub price_usd: Option<u64>,
    /// Price of the token in trillionths of the paired asset.
    pub price_native: Option<u64>,
    /// Price changes over five minutes, fifteen minutes and one hour, in millionths
    /// of a percent.
    pub price_change_m5: Option<i64>,
    pub price_change_m15: Option<i64>,
    pub price_change_h1: Option<i64>,
    /// Liquidity in millionths of a dollar.
    pub liquidity_usd: Option<u64>,
    /// Locked share of the liquidity, in millionths of a percent.
    pub liquidity_locked: Option<u64>,
    /// Natural logarithm of one plus the liquidity in dollars, in millionths.
    pub log_liquidity: u64,
    /// Volume of the last day in millionths of a dollar.
    pub volume_h24: Option<u64>,
    /// Natural logarithm of one plus the day's volume in dollars, in millionths.
    pub log_volume: u64,
    pub txns_m5: TransactionWindow,
    /// Creation time in milliseconds since the epoch.
    pub pair_created_at: Option<i64>,
    /// Fully diluted valuation in millionths of a dollar.
    pub fdv: Option<u64>,
    pub holders: Option<u64>,
    /// Ownership-renounce score in millionths.
    pub renounced: Option<u64>,
}

/// What a first look at a pair found wanting.
#[derive(Clone, Copy, Debug, PartialEq, Eq, Structural)]
pub struct SafetyFlags {
    pub low_liquidity: bool,
    pub owner_not_renounced: bool,
    pub low_lock: bool,
}

/// A pair that is eligible for evaluation.
#[derive(Clone, Debug)]
pub struct GemCandidate {
    pub pair_address: Address,
    pub token_address: Address,
    pub base_token: Address,
    pub token_symbol: String,
    pub token_name: String,
    pub price_usd: u64,
    pub liquidity_usd: u64,
    pub volume24h_usd: u64,
    pub fdv_usd: u64,
    pub price_change_m5: i64,
    pub price_change_m15: i64,
    pub price_change_h1: i64,
    /// Share of buys among the trades of the last five minutes, in millionths.
    pub buy_pressure_ratio: u64,
    pub holder_count: Option<u64>,
    pub locked_liquidity_ratio: Option<u64>,
    pub contract_renounced_score: Option<u64>,
    /// Creation time in seconds since the epoch.
    pub pair_created_at: i64,
    pub dex_id: String,
    /// Confidence score, in units of ten to the minus ten.
    pub confidence: u128,
    pub safety_flags: SafetyFlags,
    /// Price of one unit of the paired asset in millionths of a dollar; zero where
    /// the feed does not allow to tell.
    pub usd_per_base: u64,
}

/// Why a discovery gave no candidates.
#[derive(Clone, Copy, Debug, PartialEq, Eq, Structural)]
pub enum DiscoveryError {
    /// The market-data feed does not cover the configured network.
    UnsupportedChain,
    /// No feed could be reached.
    FeedsUnreachable,
    /// A pair carries an address that is none.
    MalformedPair,
}

/// The scanner. It holds no state of its own: feeds are read by the caller.
#[derive(Clone, Copy, Debug, Default)]
pub struct DexScreenerScanner {}

/// A number or, where there is none, zero.
pub open spec fn or_zero(x: Option<u64>) -> u64 {
    match x {
        Some(v) => v,
        None => 0,
    }
}

/// A change or, where there is none, zero.
pub open spec fn change_or_zero(x: Option<i64>) -> i64 {
    match x {
        Some(v) => v,
        None => 0,
    }
}

/// The confidence score: a quarter of the liquidity's logarithm, three tenths of the
/// volume's logarithm, three tenths of the hourly price change where it is a rise,
/// and fifteen hundredths of the locked share of liquidity as a fraction of one.
/// The terms are in millionths, the score in units of ten to the minus ten.
pub open spec fn confidence_score(
    log_liquidity: nat,
    log_volume: nat,
    price_change_h1: int,
    locked_ratio: nat,
) -> nat {
    2500 * log_liquidity + 3000 * log_volume + 3000 * (if price_change_h1 > 0 {
        price_change_h1 as nat
    } else {
        0
    }) + 15 * locked_ratio
}

/// The confidence score of a pair.
pub open spec fn pair_confidence(pair: DexScreenerPair) -> nat {
    confidence_score(
        pair.log_liquidity as nat,
        pair.log_volume as nat,
        change_or_zero(pair.price_change_h1) as int,
        or_zero(pair.liquidity_locked) as nat,
    )
}

/// The confidence score never falls when one of its terms rises and the others stay.
pub proof fn lemma_confidence_monotone(
    log_liquidity: nat,
    log_volume: nat,
    price_change_h1: int,
    locked_ratio: nat,
    log_liquidity2: nat,
    log_volume2: nat,
    price_change_h12: int,
    locked_ratio2: nat,
)
    requires
        log_liquidity <= log_liquidity2,
        log_volume <= log_volume2,
        price_change_h1 <= price_change_h12,
        locked_ratio <= locked_ratio2,
    ensures
        confidence_score(log_liquidity, log_volume, price_change_h1, locked_ratio)
            <= confidence_score(log_liquidity2, log_volume2, price_change_h12, locked_ratio2),
{
}

/// A fall of the hourly price counts for as much as no change at all.
pub proof fn lemma_confidence_ignores_falls(
    log_liquidity: nat,
    log_volume: nat,
    price_change_h1: int,
    locked_ratio: nat,
)
    requires
        price_change_h1 <= 0,
    ensures
        confidence_score(log_liquidity, log_volume, price_change_h1, locked_ratio)
            == confidence_score(log_liquidity, log_volume, 0, locked_ratio),
{
}

/// The share of buys among buys and sells, in millionths, each side counted as at
/// least one.
pub open spec fn buy_pressure(window: TransactionWindow) -> nat {
    let buys: nat = if window.buys == 0 {
        1
    } else {
        window.buys as nat
    };
    let sells: nat = if window.sells == 0 {
        1
    } else {
        window.sells as nat
    };
    buys * 1_000_000 / (buys + sells)
}

/// The weighted price change: four tenths of the five-minute change, thirty-five
/// hundredths of the fifteen-minute change and a quarter of the hourly change, in
/// hundred-millionths of a percent.
pub open spec fn momentum_score(m5: int, m15: int, h1: int) -> int {
    40 * m5 + 35 * m15 + 25 * h1
}

/// Whether a candidate has momentum under a given window.
pub open spec fn momentum(candidate: GemCandidate, window_minutes: u64) -> bool {
    &&& momentum_score(
        candidate.price_change_m5 as int,
        candidate.price_change_m15 as int,
        candidate.price_change_h1 as int,
    ) >= MOMENTUM_FLOOR
    &&& candidate.buy_pressure_ratio >= BUY_PRESSURE_FLOOR
    &&& window_minutes >= MOMENTUM_WINDOW_FLOOR
}

/// Flat prices give no momentum, whatever the buy pressure and the window.
pub proof fn lemma_flat_prices_have_no_momentum(candidate: GemCandidate, window_minutes: u64)
    requires
        candidate.price_change_m5 == 0,
        candidate.price_change_m15 == 0,
        candidate.price_change_h1 == 0,
    ensures
        !momentum(candidate, window_minutes),
{
}

/// What a first look at a pair finds wanting.
pub open spec fn pair_flags(pair: DexScreenerPair) -> SafetyFlags {
    SafetyFlags {
        low_liquidity: pair.liquidity_usd.is_some() && pair.liquidity_usd.unwrap()
            < LOW_LIQUIDITY_USD,
        owner_not_renounced: pair.renounced.is_some() && pair.renounced.unwrap()
            < LOW_RENOUNCE_SCORE,
        low_lock: pair.liquidity_locked.is_some() && pair.liquidity_locked.unwrap()
            < LOW_LOCK_RATIO,
    }
}

/// Whole seconds in a count of milliseconds, rounded towards zero.
pub open spec fn millis_to_seconds(ms: i64) -> int {
    if ms >= 0 {
        ms / 1000
    } else {
        -((-ms) / 1000)
    }
}

/// The time an hour before `now`, or the earliest time there is.
pub open spec fn assumed_creation(now: i64) -> i64 {
    if now - ASSUMED_AGE_SECS >= i64::MIN {
        (now - ASSUMED_AGE_SECS) as i64
    } else {
        i64::MIN
    }
}

/// The creation time of a pair in seconds: the reported one where the clock library
/// can name it, else an hour before `now`.
pub open spec fn creation_time(reported_ms: Option<i64>, now: i64) -> i64 {
    match reported_ms {
        Some(ms) => if nameable(millis_to_seconds(ms)) {
            millis_to_seconds(ms) as i64
        } else {
            assumed_creation(now)
        },
        None => assumed_creation(now),
    }
}

/// The dollar price of the paired asset, in millionths, that the token's two prices
/// imply: their quotient where both are positive and it fits 64 bits, else zero.
pub open spec fn implied_base_price(price_usd: Option<u64>, price_native: Option<u64>) -> u64 {
    if or_zero(price_native) > 0 && or_zero(price_usd) > 0 && or_zero(price_usd) * 1_000_000
        / (or_zero(price_native) as int) <= u64::MAX {
        (or_zero(price_usd) * 1_000_000 / (or_zero(price_native) as int)) as u64
    } else {
        0
    }
}

/// The candidate that a pair makes: nothing where its token is blacklisted, an error
/// where one of its addresses is none.
pub open spec fn candidate_of(pair: DexScreenerPair, strategy: StrategyConfig, now: i64) -> Result<
    Option<GemCandidate>,
    DiscoveryError,
> {
    let token = address_of_text(pair.base_token.address@);
    let base = address_of_text(pair.quote_token.address@);
    let pool = address_of_text(pair.pair_address@);
    if token.is_none() || base.is_none() {
        Err(DiscoveryError::MalformedPair)
    } else if strategy.blacklisted_tokens@.contains(token.unwrap()) {
        Ok(None)
    } else if pool.is_none() {
        Err(DiscoveryError::MalformedPair)
    } else {
        Ok(
            Some(
                GemCandidate {
                    pair_address: pool.unwrap(),
                    token_address: token.unwrap(),
                    base_token: base.unwrap(),
                    token_symbol: pair.base_token.symbol,
                    token_name: pair.base_token.name,
                    price_usd: or_zero(pair.price_usd),
                    liquidity_usd: or_zero(pair.liquidity_usd),
                    volume24h_usd: or_zero(pair.volume_h24),
                    fdv_usd: or_zero(pair.fdv),
                    price_change_m5: change_or_zero(pair.price_change_m5),
                    price_change_m15: change_or_zero(pair.price_change_m15),
                    price_change_h1: change_or_zero(pair.price_change_h1),
                    buy_pressure_ratio: buy_pressure(pair.txns_m5) as u64,
                    holder_count: pair.holders,
                    locked_liquidity_ratio: pair.liquidity_locked,
                    contract_renounced_score: pair.renounced,
                    pair_created_at: creation_time(pair.pair_created_at, now),
                    dex_id: pair.dex_id,
                    confidence: pair_confidence(pair) as u128,
                    safety_flags: pair_flags(pair),
                    usd_per_base: implied_base_price(pair.price_usd, pair.price_native),
                },
            ),
        )
    }
}

/// Whether a candidate is liquid, traded and old enough to be kept.
pub open spec fn qualifies(candidate: GemCandidate, strategy: StrategyConfig, now: i64) -> bool {
    &&& candidate.liquidity_usd >= strategy.min_liquidity_usd
    &&& candidate.volume24h_usd >= strategy.min_daily_volume_usd
    &&& now - candidate.pair_created_at >= strategy.min_age_minutes * 60
}

/// The candidates that a run of pairs makes and that qualify, in the pairs' order;
/// the first malformed pair makes the whole run fail.
pub open spec fn qualified_candidates(
    pairs: Seq<DexScreenerPair>,
    strategy: StrategyConfig,
    now: i64,
) -> Result<Seq<GemCandidate>, DiscoveryError>
    decreases pairs.len(),
{
    if pairs.len() == 0 {
        Ok(Seq::empty())
    } else {
        match qualified_candidates(pairs.drop_last(), strategy, now) {
            Err(e) => Err(e),
            Ok(kept) => match candidate_of(pairs.last(), strategy, now) {
                Err(e) => Err(e),
                Ok(None) => Ok(kept),
                Ok(Some(c)) => if qualifies(c, strategy, now) {
                    Ok(kept.push(c))
                } else {
                    Ok(kept)
                },
            },
        }
    }
}

/// Where a candidate of a given confidence goes into a ranking: behind every one
/// that is at least as confident.
pub open spec fn insertion_point(ranking: Seq<GemCandidate>, confidence: u128) -> int
    decreases ranking.len(),
{
    if ranking.len() == 0 || ranking[0].confidence < confidence {
        0
    } else {
        1 + insertion_point(ranking.drop_first(), confidence)
    }
}

/// The candidates in descending order of confidence; those of equal confidence keep
/// the order in which they came.
pub open spec fn rank(candidates: Seq<GemCandidate>) -> Seq<GemCandidate>
    decreases candidates.len(),
{
    if candidates.len() == 0 {
        Seq::empty()
    } else {
        let ranking = rank(candidates.drop_last());
        ranking.insert(
            insertion_point(ranking, candidates.last().confidence),
            candidates.last(),
        )
    }
}

/// Whether a run of candidates descends in confidence.
pub open spec fn descending(candidates: Seq<GemCandidate>) -> bool {
    forall|i: int, j: int|
        0 <= i < j < candidates.len() ==> candidates[i].confidence >= candidates[j].confidence
}

/// The first twelve of a ranking.
pub open spec fn shortlist(candidates: Seq<GemCandidate>) -> Seq<GemCandidate> {
    let ranking = rank(candidates);
    if ranking.len() > SHORTLIST_LEN {
        ranking.subrange(0, SHORTLIST_LEN as int)
    } else {
        ranking
    }
}

/// The pairs of a feed, or none where the feed could not be reached.
pub open spec fn feed_pairs(feed: Option<Vec<DexScreenerPair>>) -> Seq<DexScreenerPair> {
    match feed {
        Some(pairs) => pairs@,
        None => Seq::empty(),
    }
}

/// What a discovery gives for what two feeds returned.
pub open spec fn discovery(
    trending: Option<Vec<DexScreenerPair>>,
    latest: Option<Vec<DexScreenerPair>>,
    config: BotConfig,
    now: i64,
) -> Result<Seq<GemCandidate>, DiscoveryError> {
    if chain_key(config.chain).is_none() {
        Err(DiscoveryError::UnsupportedChain)
    } else if trending.is_none() && latest.is_none() {
        Err(DiscoveryError::FeedsUnreachable)
    } else {
        match qualified_candidates(
            feed_pairs(trending) + feed_pairs(latest),
            config.strategy,
            now,
        ) {
            Err(e) => Err(e),
            Ok(kept) => Ok(shortlist(kept)),
        }
    }
}

/// The name under which the market-data feed files a network, if it covers it.
pub open spec fn chain_key(chain: Chain) -> Option<Seq<char>> {
    match chain {
        Chain::Mainnet => Some("ethereum"@),
        Chain::Arbitrum => Some("arbitrum"@),
        Chain::Base => Some("base"@),
        Chain::Optimism => Some("optimism"@),
        Chain::Polygon => Some("polygon"@),
        _ => None,
    }
}

/// The candidates that the pairs of one network make, in the pairs' order.
pub open spec fn network_candidates(
    pairs: Seq<DexScreenerPair>,
    key: Seq<char>,
    strategy: StrategyConfig,
    now: i64,
) -> Result<Seq<GemCandidate>, DiscoveryError>
    decreases pairs.len(),
{
    if pairs.len() == 0 {
        Ok(Seq::empty())
    } else {
        match network_candidates(pairs.drop_last(), key, strategy, now) {
            Err(e) => Err(e),
            Ok(kept) => if pairs.last().chain_id@ != key {
                Ok(kept)
            } else {
                match candidate_of(pairs.last(), strategy, now) {
                    Err(e) => Err(e),
                    Ok(None) => Ok(kept),
                    Ok(Some(c)) => Ok(kept.push(c)),
                }
            },
        }
    }
}

/// Whether what a function returned is what was to be returned.
pub open spec fn same_outcome(
    got: Result<Vec<GemCandidate>, DiscoveryError>,
    due: Result<Seq<GemCandidate>, DiscoveryError>,
) -> bool {
    match got {
        Ok(v) => due == Ok::<Seq<GemCandidate>, DiscoveryError>(v@),
        Err(e) => due == Err::<Seq<GemCandidate>, DiscoveryError>(e),
    }
}

/// Once a pair is malformed, the pairs behind it change nothing.
pub proof fn lemma_failure_is_final(
    pairs: Seq<DexScreenerPair>,
    k: int,
    strategy: StrategyConfig,
    now: i64,
)
    requires
        0 <= k <= pairs.len(),
        qualified_candidates(pairs.subrange(0, k), strategy, now).is_err(),
    ensures
        qualified_candidates(pairs, strategy, now) == qualified_candidates(
            pairs.subrange(0, k),
            strategy,
            now,
        ),
    decreases pairs.len() - k,
{
    if k == pairs.len() {
        assert(pairs.subrange(0, k) =~= pairs);
    } else {
        assert(pairs.subrange(0, k + 1).drop_last() =~= pairs.subrange(0, k));
        lemma_failure_is_final(pairs, k + 1, strategy, now);
    }
}

/// The same of the candidates of one network.
pub proof fn lemma_network_failure_is_final(
    pairs: Seq<DexScreenerPair>,
    k: int,
    key: Seq<char>,
    strategy: StrategyConfig,
    now: i64,
)
    requires
        0 <= k <= pairs.len(),
        network_candidates(pairs.subrange(0, k), key, strategy, now).is_err(),
    ensures
        network_candidates(pairs, key, strategy, now) == network_candidates(
            pairs.subrange(0, k),
            key,
            strategy,
            now,
        ),
    decreases pairs.len() - k,
{
    if k == pairs.len() {
        assert(pairs.subrange(0, k) =~= pairs);
    } else {
        assert(pairs.subrange(0, k + 1).drop_last() =~= pairs.subrange(0, k));
        lemma_network_failure_is_final(pairs, k + 1, key, strategy, now);
    }
}

/// The insertion point is the one place with nothing less confident before it and
/// something less confident, or nothing, at it.
pub proof fn lemma_insertion_point(ranking: Seq<GemCandidate>, confidence: u128, p: int)
    requires
        0 <= p <= ranking.len(),
        forall|j: int| 0 <= j < p ==> ranking[j].confidence >= confidence,
        p == ranking.len() || ranking[p].confidence < confidence,
    ensures
        insertion_point(ranking, confidence) == p,
    decreases p,
{
    if p > 0 {
        let rest = ranking.drop_first();
        assert forall|j: int| 0 <= j < p - 1 implies rest[j].confidence >= confidence by {
            assert(rest[j] == ranking[j + 1]);
        }
        lemma_insertion_point(rest, confidence, p - 1);
    }
}

/// Where the insertion point lies, and what lies around it.
pub proof fn lemma_insertion_point_bounds(ranking: Seq<GemCandidate>, confidence: u128)
    ensures
        0 <= insertion_point(ranking, confidence) <= ranking.len(),
        forall|j: int|
            0 <= j < insertion_point(ranking, confidence) ==> ranking[j].confidence
                >= confidence,
        insertion_point(ranking, confidence) < ranking.len() ==> ranking[insertion_point(
            ranking,
            confidence,
        )].confidence < confidence,
    decreases ranking.len(),
{
    if ranking.len() > 0 && ranking[0].confidence >= confidence {
        let rest = ranking.drop_first();
        lemma_insertion_point_bounds(rest, confidence);
        let p = insertion_point(rest, confidence);
        assert forall|j: int| 0 <= j < p + 1 implies ranking[j].confidence >= confidence by {
            if j > 0 {
                assert(rest[j - 1] == ranking[j]);
            }
        }
        if p < rest.len() {
            assert(rest[p] == ranking[p + 1]);
        }
    }
}

/// A ranking descends in confidence and holds the candidates it was made of, each
/// as often as it came.
pub proof fn lemma_rank_orders(candidates: Seq<GemCandidate>)
    ensures
        descending(rank(candidates)),
        rank(candidates).len() == candidates.len(),
        rank(candidates).to_multiset() == candidates.to_multiset(),
    decreases candidates.len(),
{
    if candidates.len() == 0 {
        assert(rank(candidates) =~= candidates);
    } else {
        let before = rank(candidates.drop_last());
        let c = candidates.last();
        let p = insertion_point(before, c.confidence);
        lemma_rank_orders(candidates.drop_last());
        lemma_insertion_point_bounds(before, c.confidence);
        let after = before.insert(p, c);
        before.insert_ensures(p, c);
        assert forall|i: int, j: int| 0 <= i < j < after.len() implies after[i].confidence
            >= after[j].confidence by {
            if j < p {
                assert(after[i] == before[i] && after[j] == before[j]);
            } else if j == p {
                assert(after[i] == before[i]);
            } else if i < p {
                assert(after[i] == before[i] && after[j] == before[j - 1]);
            } else if i == p {
                assert(after[j] == before[j - 1]);
                assert(before[p].confidence >= before[j - 1].confidence || p == j - 1);
            } else {
                assert(after[i] == before[i - 1] && after[j] == before[j - 1]);
            }
        }
        vstd::seq_lib::to_multiset_insert(before, p, c);
        vstd::seq_lib::to_multiset_build(candidates.drop_last(), c);
        assert(candidates.drop_last().push(c) =~= candidates);
    }
}

/// A shortlist holds at most twelve candidates, in descending order of confidence.
pub proof fn lemma_shortlist_is_short(candidates: Seq<GemCandidate>)
    ensures
        shortlist(candidates).len() <= SHORTLIST_LEN,
        shortlist(candidates).len() <= candidates.len(),
        descending(shortlist(candidates)),
{
    lemma_rank_orders(candidates);
}

pub(crate) fn contains_address(list: &Vec<Address>, address: Address) -> (r: bool)
    ensures
        r == list@.contains(address),
{
    let mut i: usize = 0;
    while i < list.len()
        invariant
            i <= list.len(),
            forall|j: int| 0 <= j < i ==> list@[j] != address,
        decreases list.len() - i,
    {
        if list[i] == address {
            return true;
        }
        i = i + 1;
    }
    false
}

fn buy_pressure_ratio(window: TransactionWindow) -> (r: u64)
    ensures
        r == buy_pressure(window),
        r <= 1_000_000,
{
    let buys: u128 = if window.buys == 0 {
        1
    } else {
        window.buys as u128
    };
    let sells: u128 = if window.sells == 0 {
        1
    } else {
        window.sells as u128
    };
    let ratio: u128 = buys * 1_000_000 / (buys + sells);
    assert(ratio <= 1_000_000) by (nonlinear_arith)
        requires
            ratio == buys * 1_000_000 / (buys + sells),
            buys >= 1,
            sells >= 1,
    ;
    ratio as u64
}

fn created_at(reported_ms: Option<i64>, now: i64) -> (r: i64)
    ensures
        r == creation_time(reported_ms, now),
{
    let assumed: i64 = if now >= i64::MIN + ASSUMED_AGE_SECS {
        now - ASSUMED_AGE_SECS
    } else {
        i64::MIN
    };
    match reported_ms {
        Some(ms) => {
            let seconds: i64 = ms / 1000;
            if is_nameable(seconds) {
                seconds
            } else {
                assumed
            }
        },
        None => assumed,
    }
}

fn base_price_implied(price_usd: Option<u64>, price_native: Option<u64>) -> (r: u64)
    ensures
        r == implied_base_price(price_usd, price_native),
{
    let usd: u64 = match price_usd {
        Some(v) => v,
        None => 0,
    };
    let native: u64 = match price_native {
        Some(v) => v,
        None => 0,
    };
    if native > 0 && usd > 0 {
        let q: u128 = (usd as u128) * 1_000_000 / (native as u128);
        if q <= u64::MAX as u128 {
            q as u64
        } else {
            0
        }
    } else {
        0
    }
}

/// The confidence score of a pair, in units of ten to the minus ten.
pub fn compute_confidence_score(pair: &DexScreenerPair) -> (r: u128)
    ensures
        r == pair_confidence(*pair),
{
    let change: u128 = match pair.price_change_h1 {
        Some(c) => if c > 0 {
            c as u128
        } else {
            0
        },
        None => 0,
    };
    let locked: u128 = match pair.liquidity_locked {
        Some(l) => l as u128,
        None => 0,
    };
    2500 * (pair.log_liquidity as u128) + 3000 * (pair.log_volume as u128) + 3000 * change + 15
        * locked
}

/// What a first look at a pair finds wanting.
pub fn collect_safety_flags(pair: &DexScreenerPair) -> (r: SafetyFlags)
    ensures
        r == pair_flags(*pair),
{
    let low_liquidity = match pair.liquidity_usd {
        Some(l) => l < LOW_LIQUIDITY_USD,
        None => false,
    };
    let owner_not_renounced = match pair.renounced {
        Some(s) => s < LOW_RENOUNCE_SCORE,
        None => false,
    };
    let low_lock = match pair.liquidity_locked {
        Some(l) => l < LOW_LOCK_RATIO,
        None => false,
    };
    SafetyFlags { low_liquidity, owner_not_renounced, low_lock }
}

/// The name under which the market-data feed files a network, if it covers it.
pub fn chain_to_dexscreener_key(chain: Chain) -> (r: Option<&'static str>)
    ensures
        r.is_some() == chain_key(chain).is_some(),
        r.is_some() ==> r.unwrap()@ == chain_key(chain).unwrap(),
{
    match chain {
        Chain::Mainnet => Some("ethereum"),
        Chain::Arbitrum => Some("arbitrum"),
        Chain::Base => Some("base"),
        Chain::Optimism => Some("optimism"),
        Chain::Polygon => Some("polygon"),
        _ => None,
    }
}

fn is_qualified(candidate: &GemCandidate, strategy: &StrategyConfig, now: i64) -> (r: bool)
    ensures
        r == qualifies(*candidate, *strategy, now),
{
    let age: i128 = now as i128 - candidate.pair_created_at as i128;
    let least: i128 = (strategy.min_age_minutes as i128) * 60;
    candidate.liquidity_usd >= strategy.min_liquidity_usd && candidate.volume24h_usd
        >= strategy.min_daily_volume_usd && age >= least
}

fn rank_candidates(candidates: Vec<GemCandidate>) -> (r: Vec<GemCandidate>)
    ensures
        r@ == rank(candidates@),
{
    let ghost all = candidates@;
    let mut ranking: Vec<GemCandidate> = Vec::new();
    for c in it: candidates
        invariant
            it.seq() == all,
            ranking@ == rank(all.subrange(0, it.index() as int)),
    {
        let mut p: usize = 0;
        while p < ranking.len() && ranking[p].confidence >= c.confidence
            invariant
                p <= ranking.len(),
                forall|j: int| 0 <= j < p ==> ranking@[j].confidence >= c.confidence,
            decreases ranking.len() - p,
        {
            p = p + 1;
        }
        proof {
            lemma_insertion_point(ranking@, c.confidence, p as int);
            assert(all.subrange(0, it.index() + 1).drop_last() =~= all.subrange(0, it.index() as int));
        }
        ranking.insert(p, c);
    }
    proof {
        assert(all.subrange(0, all.len() as int) =~= all);
    }
    ranking
}

impl DexScreenerScanner {
    /// The candidate that a pair makes: nothing where its token is blacklisted, an
    /// error where one of its addresses is none.
    pub fn to_candidate(&self, pair: &DexScreenerPair, strategy: &StrategyConfig, now: i64) -> (r:
        Result<Option<GemCandidate>, DiscoveryError>)
        ensures
            r == candidate_of(*pair, *strategy, now),
    {
        let token_address = match read_address(pair.base_token.address.as_str()) {
            Some(a) => a,
            None => { return Err(DiscoveryError::MalformedPair); },
        };
        let base_token = match read_address(pair.quote_token.address.as_str()) {
            Some(a) => a,
            None => { return Err(DiscoveryError::MalformedPair); },
        };
        if contains_address(&strategy.blacklisted_tokens, token_address) {
            return Ok(None);
        }
        let confidence = compute_confidence_score(pair);
        let safety_flags = collect_safety_flags(pair);
        let buy_pressure_ratio = buy_pressure_ratio(pair.txns_m5);
        let pair_created_at = created_at(pair.pair_created_at, now);
        let usd_per_base = base_price_implied(pair.price_usd, pair.price_native);
        let pair_address = match read_address(pair.pair_address.as_str()) {
            Some(a) => a,
            None => { return Err(DiscoveryError::MalformedPair); },
        };
        Ok(
            Some(
                GemCandidate {
                    pair_address,
                    token_address,
                    base_token,
                    token_symbol: pair.base_token.symbol.clone(),
                    token_name: pair.base_token.name.clone(),
                    price_usd: match pair.price_usd {
                        Some(v) => v,
                        None => 0,
                    },
                    liquidity_usd: match pair.liquidity_usd {
                        Some(v) => v,
                        None => 0,
                    },
                    volume24h_usd: match pair.volume_h24 {
                        Some(v) => v,
                        None => 0,
                    },
                    fdv_usd: match pair.fdv {
                        Some(v) => v,
                        None => 0,
                    },
                    price_change_m5: match pair.price_change_m5 {
                        Some(v) => v,
                        None => 0,
                    },
                    price_change_m15: match pair.price_change_m15 {
                        Some(v) => v,
                        None => 0,
                    },
                    price_change_h1: match pair.price_change_h1 {
                        Some(v) => v,
                        None => 0,
                    },
                    buy_pressure_ratio,
                    holder_count: pair.holders,
                    locked_liquidity_ratio: pair.liquidity_locked,
                    contract_renounced_score: pair.renounced,
                    pair_created_at,
                    dex_id: pair.dex_id.clone(),
                    confidence,
                    safety_flags,
                    usd_per_base,
                },
            ),
        )
    }

    /// The candidates worth evaluating among what the two feeds returned: the twelve
    /// most confident of those that are liquid, traded and old enough.
    ///
    /// A feed that could not be reached is passed as nothing. One such feed is made
    /// up for by the other; with both gone, and on a network that the feed does not
    /// cover, the discovery fails, as it does on a pair with a malformed address.
    pub fn discover_candidates(
        &self,
        trending: Option<Vec<DexScreenerPair>>,
        latest: Option<Vec<DexScreenerPair>>,
        config: &BotConfig,
        now: i64,
    ) -> (r: Result<Vec<GemCandidate>, DiscoveryError>)
        ensures
            same_outcome(r, discovery(trending, latest, *config, now)),
            r matches Ok(found) ==> found@.len() <= SHORTLIST_LEN && descending(found@),
    {
        if chain_to_dexscreener_key(config.chain).is_none() {
            return Err(DiscoveryError::UnsupportedChain);
        }
        if trending.is_none() && latest.is_none() {
            return Err(DiscoveryError::FeedsUnreachable);
        }
        let mut pairs: Vec<DexScreenerPair> = match trending {
            Some(v) => v,
            None => Vec::new(),
        };
        let mut more: Vec<DexScreenerPair> = match latest {
            Some(v) => v,
            None => Vec::new(),
        };
        pairs.append(&mut more);
        assert(pairs@ == feed_pairs(trending) + feed_pairs(latest));
        let mut kept: Vec<GemCandidate> = Vec::new();
        let mut i: usize = 0;
        while i < pairs.len()
            invariant
                i <= pairs.len(),
                chain_key(config.chain).is_some(),
                !(trending.is_none() && latest.is_none()),
                pairs@ == feed_pairs(trending) + feed_pairs(latest),
                qualified_candidates(pairs@.subrange(0, i as int), config.strategy, now) == Ok::<
                    Seq<GemCandidate>,
                    DiscoveryError,
                >(kept@),
            decreases pairs.len() - i,
        {
            proof {
                assert(pairs@.subrange(0, i + 1).drop_last() =~= pairs@.subrange(0, i as int));
            }
            match self.to_candidate(&pairs[i], &config.strategy, now) {
                Err(e) => {
                    proof {
                        lemma_failure_is_final(pairs@, i + 1, config.strategy, now);
                    }
                    return Err(e);
                },
                Ok(None) => {},
                Ok(Some(c)) => {
                    if is_qualified(&c, &config.strategy, now) {
                        kept.push(c);
                    }
                },
            }
            i = i + 1;
        }
        proof {
            assert(pairs@.subrange(0, pairs.len() as int) =~= pairs@);
        }
        proof {
            lemma_shortlist_is_short(kept@);
        }
        let mut ranking = rank_candidates(kept);
        if ranking.len() > SHORTLIST_LEN {
            ranking.truncate(SHORTLIST_LEN);
        }
        Ok(ranking)
    }

    /// The candidates that the pairs of one token make on the configured network, in
    /// the order in which the feed gave them.
    pub fn fetch_token_candidates(&self, pairs: &Vec<DexScreenerPair>, config: &BotConfig, now: i64)
        -> (r: Result<Vec<GemCandidate>, DiscoveryError>)
        ensures
            chain_key(config.chain).is_none() ==> r == Err::<Vec<GemCandidate>, DiscoveryError>(
                DiscoveryError::UnsupportedChain,
            ),
            chain_key(config.chain).is_some() ==> same_outcome(
                r,
                network_candidates(
                    pairs@,
                    chain_key(config.chain).unwrap(),
                    config.strategy,
                    now,
                ),
            ),
    {
        let key: String = match chain_to_dexscreener_key(config.chain) {
            Some(k) => k.to_owned(),
            None => { return Err(DiscoveryError::UnsupportedChain); },
        };
        let mut found: Vec<GemCandidate> = Vec::new();
        let mut i: usize = 0;
        while i < pairs.len()
            invariant
                i <= pairs.len(),
                chain_key(config.chain) == Some(key@),
                network_candidates(pairs@.subrange(0, i as int), key@, config.strategy, now)
                    == Ok::<Seq<GemCandidate>, DiscoveryError>(found@),
            decreases pairs.len() - i,
        {
            proof {
                assert(pairs@.subrange(0, i + 1).drop_last() =~= pairs@.subrange(0, i as int));
            }
            if pairs[i].chain_id == key {
                match self.to_candidate(&pairs[i], &config.strategy, now) {
                    Err(e) => {
                        proof {
                            lemma_network_failure_is_final(
                                pairs@,
                                i + 1,
                                key@,
                                config.strategy,
                                now,
                            );
                        }
                        return Err(e);
                    },
                    Ok(None) => {},
                    Ok(Some(c)) => {
                        found.push(c);
                    },
                }
            }
            i = i + 1;
        }
        proof {
            assert(pairs@.subrange(0, pairs.len() as int) =~= pairs@);
        }
        Ok(found)
    }

    /// Whether a candidate's prices rise fast enough, on enough buying, to enter:
    /// the weighted price change is at least eight percent, buys make up at least
    /// fifty-five percent of the recent trades, and the configured momentum window
    /// is at least five minutes.
    pub fn has_momentum(&self, candidate: &GemCandidate, config: &BotConfig) -> (r: bool)
        ensures
            r == momentum(*candidate, config.strategy.price_momentum_window_minutes),
    {
        let score: i128 = 40 * (candidate.price_change_m5 as i128) + 35 * (
        candidate.price_change_m15 as i128) + 25 * (candidate.price_change_h1 as i128);
        score >= MOMENTUM_FLOOR && candidate.buy_pressure_ratio >= BUY_PRESSURE_FLOOR
            && config.strategy.price_momentum_window_minutes >= MOMENTUM_WINDOW_FLOOR
    }
}

} // verus!
