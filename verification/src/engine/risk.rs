//! Risk analyzer: weighs what a token-security feed says about a token, together
//! with the candidate's own figures, into a score, a list of flags and a verdict.
//!
//! Scores are whole numbers of millionths of a point.

use crate::address::{address_text, write_address, Address};
use crate::config::{BotConfig, RiskHeuristicsConfig};
use crate::decimal::{decimal_micros_up_u64, parse_decimal_up};
use crate::engine::scanner::GemCandidate;
use vstd::prelude::*;

verus! {

/// The least score of a safe token: two points and eight tenths.
pub const SAFE_SCORE: u64 = 2_800_000;

/// The highest tax on a trade that is put up with: fifteen percent.
pub const MAX_TAX: u64 = 15_000_000;

/// How many of the largest holders count towards concentration.
pub const TOP_HOLDERS: usize = 10;

pub const LIQUIDITY_POINTS: u64 = 1_000_000;

pub const VOLUME_POINTS: u64 = 800_000;

pub const LOCK_POINTS: u64 = 1_200_000;

pub const HOLDER_POINTS: u64 = 700_000;

pub const HONEYPOT_POINTS: u64 = 1_000_000;

pub const OWNERSHIP_POINTS: u64 = 400_000;

pub const PROXY_POINTS: u64 = 300_000;

pub const TAX_POINTS: u64 = 400_000;

pub const CONCENTRATION_POINTS: u64 = 500_000;

pub const RENOUNCE_POINTS: u64 = 200_000;

/// One of the largest holders of a token, as the security feed reports it.
#[derive(Clone, Debug)]
pub struct GoPlusHolder {
    pub address: String,
    pub amount: String,
    pub percent: String,
}

/// One holder of liquidity-pool shares, as the security feed reports it.
#[derive(Clone, Debug)]
pub struct GoPlusLpHolder {
    pub address: String,
    pub percent: String,
}

/// The security profile of a token, in the feed's own words: flags are the text `1`
/// where they are set, figures are decimal numbers in text.
#[derive(Clone, Debug)]
pub struct GoPlusTokenSecurity {
    pub is_honeypot: Option<String>,
    pub sell_tax: Option<String>,
    pub buy_tax: Option<String>,
    pub cannot_sell_all: Option<String>,
    pub owner_address: Option<String>,
    pub can_take_back_ownership: Option<String>,
    pub is_proxy: Option<String>,
    pub is_open_source: Option<String>,
    pub hidden_owner: Option<String>,
    pub is_blacklisted: Option<String>,
    pub trading_disabled: Option<String>,
    pub holder_count: Option<String>,
    pub total_supply: Option<String>,
    pub lp_holders: Option<Vec<GoPlusLpHolder>>,
    pub dex: Option<String>,
    pub creator_address: Option<String>,
    pub top_holders: Option<Vec<GoPlusHolder>>,
}

/// What an evaluation can hold against a token.
#[derive(Clone, Copy, Debug, PartialEq, Eq, Structural)]
pub enum RiskFlag {
    LiquidityBelowThreshold,
    Volume24hLow,
    InsufficientLiquidityLock,
    HolderCountLow,
    /// The security feed knows nothing of the token.
    SecurityDataMissing,
    HoneypotDetected,
    TradingDisabled,
    OwnerCanRevoke,
    ProxyContract,
    /// The higher of the two trade taxes, in millionths of a percent.
    ExcessiveTax(u64),
    /// A trade tax is given, but not as a number that can be read.
    TaxUnreadable,
    /// What the ten largest holders own, in millionths of a percent.
    TopHolders(u128),
    /// The share of one of the ten largest holders is given, but not as a number
    /// that can be read.
    HolderShareUnreadable,
    /// The renounce score, in millionths.
    RenounceScoreLow(u64),
}

/// The result of one evaluation.
#[derive(Clone, Debug)]
pub struct TokenRiskReport {
    pub score: u64,
    pub is_safe: bool,
    pub flags: Vec<RiskFlag>,
    pub raw_security: Option<GoPlusTokenSecurity>,
    pub evaluated_at: i64,
}

/// The analyzer. The security feed is read by the caller.
#[derive(Clone, Debug)]
pub struct RiskAnalyzer {
    pub config: BotConfig,
}

/// Why a token could not be evaluated.
#[derive(Clone, Copy, Debug, PartialEq, Eq, Structural)]
pub enum EvaluationError {
    /// The security feed answered with a code other than that of success.
    FeedRefused(i64),
}

/// The code with which the security feed reports success.
pub const FEED_SUCCESS: i64 = 1;

/// The profile that stands under a name: that of the first entry with the name.
pub open spec fn profile_under(profiles: Seq<(String, GoPlusTokenSecurity)>, name: Seq<char>)
    -> Option<GoPlusTokenSecurity>
    decreases profiles.len(),
{
    if profiles.len() == 0 {
        None
    } else if profiles[0].0@ == name {
        Some(profiles[0].1)
    } else {
        profile_under(profiles.drop_first(), name)
    }
}

/// Whether a flag vetoes safety whatever the score.
pub open spec fn critical(flag: RiskFlag) -> bool {
    match flag {
        RiskFlag::SecurityDataMissing => true,
        RiskFlag::HoneypotDetected => true,
        RiskFlag::TradingDisabled => true,
        RiskFlag::OwnerCanRevoke => true,
        RiskFlag::ProxyContract => true,
        RiskFlag::ExcessiveTax(_) => true,
        RiskFlag::TaxUnreadable => true,
        RiskFlag::TopHolders(_) => true,
        RiskFlag::HolderShareUnreadable => true,
        _ => false,
    }
}

/// The text by which a flag is known; a figure that the flag carries is not part
/// of it.
pub open spec fn flag_tag(flag: RiskFlag) -> Seq<char> {
    match flag {
        RiskFlag::LiquidityBelowThreshold => "liquidity-below-threshold"@,
        RiskFlag::Volume24hLow => "volume-24h-low"@,
        RiskFlag::InsufficientLiquidityLock => "insufficient-liquidity-lock"@,
        RiskFlag::HolderCountLow => "holder-count-low"@,
        RiskFlag::SecurityDataMissing => "critical:security-data-missing"@,
        RiskFlag::HoneypotDetected => "critical:honeypot-detected"@,
        RiskFlag::TradingDisabled => "critical:trading-disabled"@,
        RiskFlag::OwnerCanRevoke => "critical:owner-can-revoke"@,
        RiskFlag::ProxyContract => "critical:proxy-contract"@,
        RiskFlag::ExcessiveTax(_) => "critical:excessive-tax"@,
        RiskFlag::TaxUnreadable => "critical:tax-unreadable"@,
        RiskFlag::TopHolders(_) => "critical:top-holders"@,
        RiskFlag::HolderShareUnreadable => "critical:holder-share-unreadable"@,
        RiskFlag::RenounceScoreLow(_) => "renounce-score-low"@,
    }
}

/// Whether a text begins with the word `critical`.
pub open spec fn has_critical_prefix(text: Seq<char>) -> bool {
    text.len() >= 8 && text.subrange(0, 8) == seq!['c', 'r', 'i', 't', 'i', 'c', 'a', 'l']
}

/// The flags that veto safety are those whose tag begins with `critical`.
pub proof fn lemma_critical_flags_are_tagged(flag: RiskFlag)
    ensures
        critical(flag) == has_critical_prefix(flag_tag(flag)),
{
    reveal_strlit("liquidity-below-threshold");
    reveal_strlit("volume-24h-low");
    reveal_strlit("insufficient-liquidity-lock");
    reveal_strlit("holder-count-low");
    reveal_strlit("critical:security-data-missing");
    reveal_strlit("critical:honeypot-detected");
    reveal_strlit("critical:trading-disabled");
    reveal_strlit("critical:owner-can-revoke");
    reveal_strlit("critical:proxy-contract");
    reveal_strlit("critical:excessive-tax");
    reveal_strlit("critical:top-holders");
    reveal_strlit("critical:tax-unreadable");
    reveal_strlit("critical:holder-share-unreadable");
    reveal_strlit("renounce-score-low");
    let text = flag_tag(flag);
    let word = seq!['c', 'r', 'i', 't', 'i', 'c', 'a', 'l'];
    if critical(flag) {
        assert(text.subrange(0, 8) =~= word);
    } else {
        assert(text[0] != 'c');
        assert(text.subrange(0, 8)[0] == text[0]);
        assert(word[0] == 'c');
    }
}

/// Whether any flag of a list vetoes safety.
pub open spec fn any_critical(flags: Seq<RiskFlag>) -> bool {
    exists|i: int| 0 <= i < flags.len() && critical(#[trigger] flags[i])
}

/// Whether a token is safe: its score reaches two points and eight tenths and no
/// flag is critical.
pub open spec fn verdict(score: u64, flags: Seq<RiskFlag>) -> bool {
    score >= SAFE_SCORE && !any_critical(flags)
}

/// One critical flag makes a token unsafe, whatever it scored.
pub proof fn lemma_critical_flag_vetoes(score: u64, flags: Seq<RiskFlag>, i: int)
    requires
        0 <= i < flags.len(),
        critical(flags[i]),
    ensures
        !verdict(score, flags),
{
}

/// Whether a flag of the feed is set: it is where the feed says `1`.
pub open spec fn is_set(field: Option<String>) -> bool {
    field.is_some() && field.unwrap()@ == seq!['1']
}

/// What a figure of the feed says.
#[derive(Clone, Copy, Debug, PartialEq, Eq, Structural)]
pub enum Figure {
    /// Nothing: the figure is not given, or given as the empty text.
    Absent,
    /// Something that is no number in plain decimal notation, or one too large to
    /// hold.
    Unreadable,
    /// A number, in millionths, rounded up.
    Known(u64),
}

/// What a text of the feed says. Figures are rounded up to the next millionth, so
/// that one above a bound never reads as the bound.
pub open spec fn figure_of(text: Seq<char>) -> Figure {
    if text.len() == 0 {
        Figure::Absent
    } else {
        match decimal_micros_up_u64(text) {
            Some(v) => Figure::Known(v),
            None => Figure::Unreadable,
        }
    }
}

/// What a field of the feed says.
pub open spec fn field_figure(field: Option<String>) -> Figure {
    match field {
        Some(text) => figure_of(text@),
        None => Figure::Absent,
    }
}

/// The figure that a field of the feed gives, in millionths, where it gives one.
pub open spec fn figure(field: Option<String>) -> Option<u64> {
    match field_figure(field) {
        Figure::Known(v) => Some(v),
        _ => None,
    }
}

/// A figure as a number, one that is not given counting as nothing.
pub open spec fn known_or_zero(figure: Figure) -> u64 {
    match figure {
        Figure::Known(v) => v,
        _ => 0,
    }
}

/// The sum of the shares of some holders, in millionths of a percent; a share that
/// is not given counts for nothing.
pub open spec fn shares_sum(holders: Seq<GoPlusHolder>) -> nat
    decreases holders.len(),
{
    if holders.len() == 0 {
        0
    } else {
        shares_sum(holders.drop_last()) + known_or_zero(figure_of(holders.last().percent@)) as nat
    }
}

/// Whether the share of every holder can be read or is not given.
pub open spec fn shares_readable(holders: Seq<GoPlusHolder>) -> bool
    decreases holders.len(),
{
    if holders.len() == 0 {
        true
    } else {
        shares_readable(holders.drop_last()) && !(figure_of(holders.last().percent@)
            is Unreadable)
    }
}

/// The holders that count towards concentration: the first ten.
pub open spec fn leading_holders(holders: Seq<GoPlusHolder>) -> Seq<GoPlusHolder> {
    if holders.len() > TOP_HOLDERS {
        holders.subrange(0, TOP_HOLDERS as int)
    } else {
        holders
    }
}

/// What is known of the share of the ten largest holders.
#[derive(Clone, Copy, Debug, PartialEq, Eq, Structural)]
pub enum Concentration {
    /// Nothing: no holders are listed, or their shares sum to nothing.
    Unknown,
    /// One of the shares is given, but cannot be read.
    Unreadable,
    /// The sum of the shares, in millionths of a percent.
    Share(u128),
}

/// What is known of the share of the ten largest holders.
pub open spec fn concentration(security: GoPlusTokenSecurity) -> Concentration {
    match security.top_holders {
        Some(holders) => if !shares_readable(leading_holders(holders@)) {
            Concentration::Unreadable
        } else if shares_sum(leading_holders(holders@)) > 0 {
            Concentration::Share(shares_sum(leading_holders(holders@)) as u128)
        } else {
            Concentration::Unknown
        },
        None => Concentration::Unknown,
    }
}

/// What the ten largest holders own, where the feed lists holders, every share can
/// be read and they sum to more than nothing.
pub open spec fn top10_share(security: GoPlusTokenSecurity) -> Option<u128> {
    match concentration(security) {
        Concentration::Share(share) => Some(share),
        _ => None,
    }
}

/// What the two trade taxes come to.
#[derive(Clone, Copy, Debug, PartialEq, Eq, Structural)]
pub enum TaxFinding {
    /// Neither tax is above the bound; a tax that is not given counts as none.
    Tolerable,
    /// The higher of the two taxes is above the bound.
    Excessive(u64),
    /// A tax is given, but cannot be read.
    Unreadable,
}

/// What the two trade taxes come to.
pub open spec fn tax_finding(security: GoPlusTokenSecurity) -> TaxFinding {
    let buy = field_figure(security.buy_tax);
    let sell = field_figure(security.sell_tax);
    if buy is Unreadable || sell is Unreadable {
        TaxFinding::Unreadable
    } else {
        let highest = if known_or_zero(buy) >= known_or_zero(sell) {
            known_or_zero(buy)
        } else {
            known_or_zero(sell)
        };
        if highest <= MAX_TAX {
            TaxFinding::Tolerable
        } else {
            TaxFinding::Excessive(highest)
        }
    }
}

/// The points for the trade taxes: earned where they are tolerable.
pub open spec fn tax_points(security: GoPlusTokenSecurity) -> nat {
    points_if(tax_finding(security) is Tolerable, TAX_POINTS)
}

/// The flag that the trade taxes raise where they are not tolerable.
pub open spec fn tax_flags(security: GoPlusTokenSecurity) -> Seq<RiskFlag> {
    match tax_finding(security) {
        TaxFinding::Tolerable => Seq::empty(),
        TaxFinding::Excessive(tax) => seq![RiskFlag::ExcessiveTax(tax)],
        TaxFinding::Unreadable => seq![RiskFlag::TaxUnreadable],
    }
}

/// A tax above the bound, however little above, is not tolerable.
pub proof fn lemma_tax_above_bound_is_flagged(security: GoPlusTokenSecurity, text: String)
    requires
        security.buy_tax == Some(text) || security.sell_tax == Some(text),
        crate::decimal::decimal_micros(text@).is_some(),
        crate::decimal::decimal_micros(text@).unwrap() > MAX_TAX || (
        crate::decimal::decimal_micros(text@).unwrap() == MAX_TAX
            && crate::decimal::dropped_digits(crate::decimal::fraction_part(text@))),
    ensures
        !(tax_finding(security) is Tolerable),
        tax_points(security) == 0,
        tax_flags(security).len() == 1,
        critical(tax_flags(security)[0]),
{
    text@.index_of_first_ensures('.');
    assert(text@.len() > 0);
    assert(!(figure_of(text@) is Absent));
    assert(figure_of(text@) matches Figure::Known(v) ==> v > MAX_TAX);
}

/// The points that a test earns where it is passed.
pub open spec fn points_if(passed: bool, points: u64) -> nat {
    if passed {
        points as nat
    } else {
        0
    }
}

/// The flag that a test raises where it is failed.
pub open spec fn flag_unless(passed: bool, flag: RiskFlag) -> Seq<RiskFlag> {
    if passed {
        Seq::empty()
    } else {
        seq![flag]
    }
}

pub open spec fn liquidity_ok(candidate: GemCandidate, config: BotConfig) -> bool {
    candidate.liquidity_usd >= config.strategy.min_liquidity_usd
}

pub open spec fn volume_ok(candidate: GemCandidate, config: BotConfig) -> bool {
    candidate.volume24h_usd >= config.strategy.min_daily_volume_usd
}

/// An unknown locked share counts as none.
pub open spec fn lock_ok(candidate: GemCandidate, config: BotConfig) -> bool {
    (match candidate.locked_liquidity_ratio {
        Some(l) => l,
        None => 0,
    }) >= config.risk.min_lock_ratio
}

/// An unknown number of holders counts as enough.
pub open spec fn holders_ok(candidate: GemCandidate, config: BotConfig) -> bool {
    match candidate.holder_count {
        Some(n) => n >= config.risk.min_holder_count,
        None => true,
    }
}

/// The points that a candidate's own figures earn.
pub open spec fn market_score(candidate: GemCandidate, config: BotConfig) -> nat {
    points_if(liquidity_ok(candidate, config), LIQUIDITY_POINTS) + points_if(
        volume_ok(candidate, config),
        VOLUME_POINTS,
    ) + points_if(lock_ok(candidate, config), LOCK_POINTS) + points_if(
        holders_ok(candidate, config),
        HOLDER_POINTS,
    )
}

/// The flags that a candidate's own figures raise.
pub open spec fn market_flags(candidate: GemCandidate, config: BotConfig) -> Seq<RiskFlag> {
    flag_unless(liquidity_ok(candidate, config), RiskFlag::LiquidityBelowThreshold) + flag_unless(
        volume_ok(candidate, config),
        RiskFlag::Volume24hLow,
    ) + flag_unless(lock_ok(candidate, config), RiskFlag::InsufficientLiquidityLock)
        + flag_unless(holders_ok(candidate, config), RiskFlag::HolderCountLow)
}

/// The points for holder concentration: earned where the ten largest holders are
/// known to own no more than the ceiling.
pub open spec fn concentration_points(security: GoPlusTokenSecurity, risk: RiskHeuristicsConfig)
    -> nat {
    match concentration(security) {
        Concentration::Share(share) => points_if(
            share <= risk.max_top_holder_percent,
            CONCENTRATION_POINTS,
        ),
        _ => 0,
    }
}

/// The flag that holder concentration raises: where the ten largest holders own more
/// than the ceiling, and where a share that is given cannot be read.
pub open spec fn concentration_flags(security: GoPlusTokenSecurity, risk: RiskHeuristicsConfig)
    -> Seq<RiskFlag> {
    match concentration(security) {
        Concentration::Share(share) => flag_unless(
            share <= risk.max_top_holder_percent,
            RiskFlag::TopHolders(share),
        ),
        Concentration::Unreadable => seq![RiskFlag::HolderShareUnreadable],
        Concentration::Unknown => Seq::empty(),
    }
}

/// The points for a renounce score: earned where one is known and reaches the floor.
pub open spec fn renounce_points(candidate: GemCandidate, risk: RiskHeuristicsConfig) -> nat {
    match candidate.contract_renounced_score {
        Some(score) => points_if(score >= risk.min_renounced_score, RENOUNCE_POINTS),
        None => 0,
    }
}

pub open spec fn renounce_flags(candidate: GemCandidate, risk: RiskHeuristicsConfig) -> Seq<
    RiskFlag,
> {
    match candidate.contract_renounced_score {
        Some(score) => flag_unless(
            score >= risk.min_renounced_score,
            RiskFlag::RenounceScoreLow(score),
        ),
        None => Seq::empty(),
    }
}

/// The points that the security profile earns. A token without a profile earns none.
pub open spec fn security_score(
    security: Option<GoPlusTokenSecurity>,
    candidate: GemCandidate,
    risk: RiskHeuristicsConfig,
) -> nat {
    match security {
        None => 0,
        Some(s) => points_if(!is_set(s.is_honeypot), HONEYPOT_POINTS) + points_if(
            !is_set(s.can_take_back_ownership),
            OWNERSHIP_POINTS,
        ) + points_if(!is_set(s.is_proxy), PROXY_POINTS) + tax_points(s)
            + concentration_points(s, risk) + renounce_points(candidate, risk),
    }
}

/// The flags that the security profile raises. A missing profile is itself a
/// critical flag.
pub open spec fn security_flags(
    security: Option<GoPlusTokenSecurity>,
    candidate: GemCandidate,
    risk: RiskHeuristicsConfig,
) -> Seq<RiskFlag> {
    match security {
        None => seq![RiskFlag::SecurityDataMissing],
        Some(s) => flag_unless(!is_set(s.is_honeypot), RiskFlag::HoneypotDetected) + flag_unless(
            !is_set(s.trading_disabled),
            RiskFlag::TradingDisabled,
        ) + flag_unless(!is_set(s.can_take_back_ownership), RiskFlag::OwnerCanRevoke)
            + flag_unless(!is_set(s.is_proxy), RiskFlag::ProxyContract) + tax_flags(s)
            + concentration_flags(s, risk) + renounce_flags(candidate, risk),
    }
}

/// The whole score of a candidate.
pub open spec fn risk_score(
    candidate: GemCandidate,
    security: Option<GoPlusTokenSecurity>,
    config: BotConfig,
) -> nat {
    market_score(candidate, config) + security_score(security, candidate, config.risk)
}

/// All flags of a candidate: those of its own figures, then those of its profile.
pub open spec fn risk_flags(
    candidate: GemCandidate,
    security: Option<GoPlusTokenSecurity>,
    config: BotConfig,
) -> Seq<RiskFlag> {
    market_flags(candidate, config) + security_flags(security, candidate, config.risk)
}

/// No candidate scores more than six points and a half.
pub proof fn lemma_score_is_bounded(
    candidate: GemCandidate,
    security: Option<GoPlusTokenSecurity>,
    config: BotConfig,
)
    ensures
        risk_score(candidate, security, config) <= 6_500_000,
{
}

/// A token of which the security feed knows nothing is never safe.
pub proof fn lemma_missing_profile_is_unsafe(candidate: GemCandidate, config: BotConfig)
    ensures
        !verdict(
            risk_score(candidate, None, config) as u64,
            risk_flags(candidate, None, config),
        ),
{
    let flags = risk_flags(candidate, None, config);
    let last = flags.len() - 1;
    assert(flags[last] == RiskFlag::SecurityDataMissing);
    assert(critical(flags[last]));
}

fn text_is_one(field: &Option<String>) -> (r: bool)
    ensures
        r == is_set(*field),
{
    match field {
        Some(text) => {
            let s = text.as_str();
            if s.unicode_len() == 1 {
                let c = s.get_char(0);
                proof {
                    assert(c == '1' ==> s@ =~= seq!['1']);
                }
                c == '1'
            } else {
                false
            }
        },
        None => false,
    }
}

fn read_text(text: &str) -> (r: Figure)
    ensures
        r == figure_of(text@),
{
    if text.unicode_len() == 0 {
        Figure::Absent
    } else {
        match parse_decimal_up(text) {
            Some(v) => Figure::Known(v),
            None => Figure::Unreadable,
        }
    }
}

fn read_field(field: &Option<String>) -> (r: Figure)
    ensures
        r == field_figure(*field),
{
    match field {
        Some(text) => read_text(text.as_str()),
        None => Figure::Absent,
    }
}

fn read_figure(field: &Option<String>) -> (r: Option<u64>)
    ensures
        r == figure(*field),
{
    match read_field(field) {
        Figure::Known(v) => Some(v),
        _ => None,
    }
}

impl RiskFlag {
    /// Whether the flag vetoes safety whatever the score.
    pub fn is_critical(&self) -> (r: bool)
        ensures
            r == critical(*self),
    {
        match self {
            RiskFlag::SecurityDataMissing => true,
            RiskFlag::HoneypotDetected => true,
            RiskFlag::TradingDisabled => true,
            RiskFlag::OwnerCanRevoke => true,
            RiskFlag::ProxyContract => true,
            RiskFlag::ExcessiveTax(_) => true,
            RiskFlag::TaxUnreadable => true,
            RiskFlag::TopHolders(_) => true,
            RiskFlag::HolderShareUnreadable => true,
            _ => false,
        }
    }

    /// The text by which the flag is known.
    pub fn tag(&self) -> (r: &'static str)
        ensures
            r@ == flag_tag(*self),
    {
        match self {
            RiskFlag::LiquidityBelowThreshold => "liquidity-below-threshold",
            RiskFlag::Volume24hLow => "volume-24h-low",
            RiskFlag::InsufficientLiquidityLock => "insufficient-liquidity-lock",
            RiskFlag::HolderCountLow => "holder-count-low",
            RiskFlag::SecurityDataMissing => "critical:security-data-missing",
            RiskFlag::HoneypotDetected => "critical:honeypot-detected",
            RiskFlag::TradingDisabled => "critical:trading-disabled",
            RiskFlag::OwnerCanRevoke => "critical:owner-can-revoke",
            RiskFlag::ProxyContract => "critical:proxy-contract",
            RiskFlag::ExcessiveTax(_) => "critical:excessive-tax",
            RiskFlag::TaxUnreadable => "critical:tax-unreadable",
            RiskFlag::TopHolders(_) => "critical:top-holders",
            RiskFlag::HolderShareUnreadable => "critical:holder-share-unreadable",
            RiskFlag::RenounceScoreLow(_) => "renounce-score-low",
        }
    }
}

impl GoPlusTokenSecurity {
    /// Whether the token cannot be sold once bought.
    pub fn is_honeypot(&self) -> (r: bool)
        ensures
            r == is_set(self.is_honeypot),
    {
        text_is_one(&self.is_honeypot)
    }

    /// Whether trading of the token is switched off.
    pub fn trading_disabled(&self) -> (r: bool)
        ensures
            r == is_set(self.trading_disabled),
    {
        text_is_one(&self.trading_disabled)
    }

    /// Whether a former owner can take the contract back.
    pub fn can_take_back_ownership(&self) -> (r: bool)
        ensures
            r == is_set(self.can_take_back_ownership),
    {
        text_is_one(&self.can_take_back_ownership)
    }

    /// Whether the contract is a proxy for another.
    pub fn is_proxy(&self) -> (r: bool)
        ensures
            r == is_set(self.is_proxy),
    {
        text_is_one(&self.is_proxy)
    }

    /// The tax on a sale, in millionths of a percent, where the feed gives one.
    pub fn sell_tax(&self) -> (r: Option<u64>)
        ensures
            r == figure(self.sell_tax),
    {
        read_figure(&self.sell_tax)
    }

    /// The tax on a purchase, in millionths of a percent, where the feed gives one.
    pub fn buy_tax(&self) -> (r: Option<u64>)
        ensures
            r == figure(self.buy_tax),
    {
        read_figure(&self.buy_tax)
    }

    /// What the ten largest holders own, in millionths of a percent, where the feed
    /// lists holders, every share can be read and they sum to more than nothing.
    pub fn top10_holder_percent(&self) -> (r: Option<u128>)
        ensures
            r == top10_share(*self),
    {
        match self.holder_concentration() {
            Concentration::Share(share) => Some(share),
            _ => None,
        }
    }

    /// What is known of the share of the ten largest holders.
    pub fn holder_concentration(&self) -> (r: Concentration)
        ensures
            r == concentration(*self),
    {
        match &self.top_holders {
            None => Concentration::Unknown,
            Some(holders) => {
                let n: usize = if holders.len() > TOP_HOLDERS {
                    TOP_HOLDERS
                } else {
                    holders.len()
                };
                let ghost counted = leading_holders(holders@);
                let mut sum: u128 = 0;
                let mut readable = true;
                let mut i: usize = 0;
                while i < n
                    invariant
                        i <= n,
                        n <= TOP_HOLDERS,
                        n == counted.len(),
                        n <= holders.len(),
                        forall|j: int| 0 <= j < n ==> counted[j] == holders@[j],
                        sum == shares_sum(counted.subrange(0, i as int)),
                        readable == shares_readable(counted.subrange(0, i as int)),
                        sum <= i * u64::MAX,
                    decreases n - i,
                {
                    proof {
                        assert(counted.subrange(0, i + 1).drop_last() =~= counted.subrange(
                            0,
                            i as int,
                        ));
                        assert(counted.subrange(0, i + 1).last() == holders@[i as int]);
                    }
                    match read_text(holders[i].percent.as_str()) {
                        Figure::Known(v) => {
                            sum = sum + v as u128;
                        },
                        Figure::Unreadable => {
                            readable = false;
                        },
                        Figure::Absent => {},
                    }
                    i = i + 1;
                }
                proof {
                    assert(counted.subrange(0, n as int) =~= counted);
                }
                if !readable {
                    Concentration::Unreadable
                } else if sum > 0 {
                    Concentration::Share(sum)
                } else {
                    Concentration::Unknown
                }
            },
        }
    }

    /// What the two trade taxes come to.
    pub fn tax_finding(&self) -> (r: TaxFinding)
        ensures
            r == tax_finding(*self),
    {
        let buy = read_field(&self.buy_tax);
        let sell = read_field(&self.sell_tax);
        let buy_known: u64 = match buy {
            Figure::Known(v) => v,
            Figure::Unreadable => { return TaxFinding::Unreadable; },
            Figure::Absent => 0,
        };
        let sell_known: u64 = match sell {
            Figure::Known(v) => v,
            Figure::Unreadable => { return TaxFinding::Unreadable; },
            Figure::Absent => 0,
        };
        let highest: u64 = if buy_known >= sell_known {
            buy_known
        } else {
            sell_known
        };
        if highest <= MAX_TAX {
            TaxFinding::Tolerable
        } else {
            TaxFinding::Excessive(highest)
        }
    }
}

/// Books the outcome of one test: its points where it is passed, its flag where not.
fn settle(passed: bool, points: u64, flag: RiskFlag, score: &mut u64, flags: &mut Vec<RiskFlag>)
    requires
        *old(score) + points <= u64::MAX,
    ensures
        *final(score) == *old(score) + points_if(passed, points),
        final(flags)@ == old(flags)@ + flag_unless(passed, flag),
{
    if passed {
        *score = *score + points;
        assert(flags@ =~= old(flags)@ + flag_unless(passed, flag));
    } else {
        flags.push(flag);
        assert(flags@ =~= old(flags)@ + flag_unless(passed, flag));
    }
}

fn settle_concentration(
    profile: &GoPlusTokenSecurity,
    risk: &RiskHeuristicsConfig,
    score: &mut u64,
    flags: &mut Vec<RiskFlag>,
)
    requires
        *old(score) + CONCENTRATION_POINTS <= u64::MAX,
    ensures
        *final(score) == *old(score) + concentration_points(*profile, *risk),
        final(flags)@ == old(flags)@ + concentration_flags(*profile, *risk),
{
    match profile.holder_concentration() {
        Concentration::Share(share) => {
            settle(
                share <= risk.max_top_holder_percent as u128,
                CONCENTRATION_POINTS,
                RiskFlag::TopHolders(share),
                score,
                flags,
            );
        },
        Concentration::Unreadable => {
            settle(false, 0, RiskFlag::HolderShareUnreadable, score, flags);
        },
        Concentration::Unknown => {
            assert(flags@ =~= old(flags)@ + concentration_flags(*profile, *risk));
        },
    }
}

fn settle_tax(profile: &GoPlusTokenSecurity, score: &mut u64, flags: &mut Vec<RiskFlag>)
    requires
        *old(score) + TAX_POINTS <= u64::MAX,
    ensures
        *final(score) == *old(score) + tax_points(*profile),
        final(flags)@ == old(flags)@ + tax_flags(*profile),
{
    match profile.tax_finding() {
        TaxFinding::Tolerable => {
            settle(true, TAX_POINTS, RiskFlag::TaxUnreadable, score, flags);
        },
        TaxFinding::Excessive(tax) => {
            settle(false, 0, RiskFlag::ExcessiveTax(tax), score, flags);
        },
        TaxFinding::Unreadable => {
            settle(false, 0, RiskFlag::TaxUnreadable, score, flags);
        },
    }
}

fn settle_renounce(
    candidate: &GemCandidate,
    risk: &RiskHeuristicsConfig,
    score: &mut u64,
    flags: &mut Vec<RiskFlag>,
)
    requires
        *old(score) + RENOUNCE_POINTS <= u64::MAX,
    ensures
        *final(score) == *old(score) + renounce_points(*candidate, *risk),
        final(flags)@ == old(flags)@ + renounce_flags(*candidate, *risk),
{
    match candidate.contract_renounced_score {
        Some(renounced) => {
            settle(
                renounced >= risk.min_renounced_score,
                RENOUNCE_POINTS,
                RiskFlag::RenounceScoreLow(renounced),
                score,
                flags,
            );
        },
        None => {
            assert(flags@ =~= old(flags)@ + renounce_flags(*candidate, *risk));
        },
    }
}

/// The points and the flags that a security profile earns a candidate.
pub fn evaluate_security_policy(
    security: &Option<GoPlusTokenSecurity>,
    candidate: &GemCandidate,
    risk: &RiskHeuristicsConfig,
) -> (r: (u64, Vec<RiskFlag>))
    ensures
        r.0 == security_score(*security, *candidate, *risk),
        r.1@ == security_flags(*security, *candidate, *risk),
{
    let mut score: u64 = 0;
    let mut flags: Vec<RiskFlag> = Vec::new();
    let profile = match security {
        Some(p) => p,
        None => {
            flags.push(RiskFlag::SecurityDataMissing);
            assert(flags@ =~= seq![RiskFlag::SecurityDataMissing]);
            return (score, flags);
        },
    };
    settle(
        !profile.is_honeypot(),
        HONEYPOT_POINTS,
        RiskFlag::HoneypotDetected,
        &mut score,
        &mut flags,
    );
    settle(!profile.trading_disabled(), 0, RiskFlag::TradingDisabled, &mut score, &mut flags);
    settle(
        !profile.can_take_back_ownership(),
        OWNERSHIP_POINTS,
        RiskFlag::OwnerCanRevoke,
        &mut score,
        &mut flags,
    );
    settle(!profile.is_proxy(), PROXY_POINTS, RiskFlag::ProxyContract, &mut score, &mut flags);
    settle_tax(profile, &mut score, &mut flags);
    settle_concentration(profile, risk, &mut score, &mut flags);
    settle_renounce(candidate, risk, &mut score, &mut flags);
    assert(flags@ =~= security_flags(*security, *candidate, *risk));
    (score, flags)
}

fn has_critical(flags: &Vec<RiskFlag>) -> (r: bool)
    ensures
        r == any_critical(flags@),
{
    let mut i: usize = 0;
    while i < flags.len()
        invariant
            i <= flags.len(),
            forall|j: int| 0 <= j < i ==> !critical(#[trigger] flags@[j]),
        decreases flags.len() - i,
    {
        if flags[i].is_critical() {
            return true;
        }
        i = i + 1;
    }
    false
}

impl TokenRiskReport {
    /// Whether the report's verdict is the one that its score and flags call for.
    pub open spec fn consistent(&self) -> bool {
        self.is_safe == verdict(self.score, self.flags@)
    }
}

/// Evaluates a candidate under the given settings against what the security feed
/// returned for its token; `security` is nothing where the feed knows nothing of the
/// token.
///
/// The report is safe exactly where the score reaches two points and eight tenths
/// and no flag is critical.
pub fn evaluate(
    config: &BotConfig,
    candidate: &GemCandidate,
    security: Option<GoPlusTokenSecurity>,
    now: i64,
) -> (r: TokenRiskReport)
    ensures
        r.score == risk_score(*candidate, security, *config),
        r.flags@ == risk_flags(*candidate, security, *config),
        r.is_safe == verdict(r.score, r.flags@),
        any_critical(r.flags@) ==> !r.is_safe,
        r.raw_security == security,
        r.evaluated_at == now,
{
    let mut score: u64 = 0;
    let mut flags: Vec<RiskFlag> = Vec::new();
    settle(
        candidate.liquidity_usd >= config.strategy.min_liquidity_usd,
        LIQUIDITY_POINTS,
        RiskFlag::LiquidityBelowThreshold,
        &mut score,
        &mut flags,
    );
    settle(
        candidate.volume24h_usd >= config.strategy.min_daily_volume_usd,
        VOLUME_POINTS,
        RiskFlag::Volume24hLow,
        &mut score,
        &mut flags,
    );
    let locked: u64 = match candidate.locked_liquidity_ratio {
        Some(l) => l,
        None => 0,
    };
    settle(
        locked >= config.risk.min_lock_ratio,
        LOCK_POINTS,
        RiskFlag::InsufficientLiquidityLock,
        &mut score,
        &mut flags,
    );
    let enough_holders = match candidate.holder_count {
        Some(n) => n >= config.risk.min_holder_count,
        None => true,
    };
    settle(enough_holders, HOLDER_POINTS, RiskFlag::HolderCountLow, &mut score, &mut flags);
    assert(flags@ =~= market_flags(*candidate, *config));
    let (security_score, mut security_flags) = evaluate_security_policy(
        &security,
        candidate,
        &config.risk,
    );
    score = score + security_score;
    flags.append(&mut security_flags);
    let is_safe = score >= SAFE_SCORE && !has_critical(&flags);
    TokenRiskReport { score, is_safe, flags, raw_security: security, evaluated_at: now }
}

impl RiskAnalyzer {
    /// An analyzer under the given settings.
    pub fn new(config: BotConfig) -> (r: RiskAnalyzer)
        ensures
            r.config == config,
    {
        RiskAnalyzer { config }
    }

    /// The security profile of a token in what the security feed answered: a code,
    /// and profiles under the addresses of their tokens.
    ///
    /// Fails where the code is not that of success; gives nothing where no profile
    /// stands under the token's address.
    pub fn fetch_security_report(
        &self,
        token_address: Address,
        code: i64,
        profiles: Vec<(String, GoPlusTokenSecurity)>,
    ) -> (r: Result<Option<GoPlusTokenSecurity>, EvaluationError>)
        ensures
            code != FEED_SUCCESS ==> r == Err::<Option<GoPlusTokenSecurity>, EvaluationError>(
                EvaluationError::FeedRefused(code),
            ),
            code == FEED_SUCCESS ==> r == Ok::<Option<GoPlusTokenSecurity>, EvaluationError>(
                profile_under(profiles@, address_text(token_address)),
            ),
    {
        if code != FEED_SUCCESS {
            return Err(EvaluationError::FeedRefused(code));
        }
        let key = write_address(token_address);
        let ghost all = profiles@;
        proof {
            assert(all.subrange(0, all.len() as int) =~= all);
        }
        for entry in it: profiles
            invariant
                it.seq() == all,
                all == profiles@,
                code == FEED_SUCCESS,
                key@ == address_text(token_address),
                profile_under(all, key@) == profile_under(
                    all.subrange(it.index() as int, all.len() as int),
                    key@,
                ),
        {
            let ghost rest = all.subrange(it.index() as int, all.len() as int);
            proof {
                assert(rest[0] == all[it.index() as int]);
                assert(rest.drop_first() =~= all.subrange(it.index() + 1, all.len() as int));
            }
            let (name, profile) = entry;
            if name == key {
                return Ok(Some(profile));
            }
        }
        Ok(None)
    }

    /// Evaluates a candidate against what the security feed returned for its token;
    /// `security` is nothing where the feed knows nothing of the token.
    ///
    /// The report is safe exactly where the score reaches two points and eight
    /// tenths and no flag is critical.
    pub fn evaluate_candidate(
        &self,
        candidate: &GemCandidate,
        security: Option<GoPlusTokenSecurity>,
        now: i64,
    ) -> (r: TokenRiskReport)
        ensures
            r.score == risk_score(*candidate, security, self.config),
            r.flags@ == risk_flags(*candidate, security, self.config),
            r.is_safe == verdict(r.score, r.flags@),
            any_critical(r.flags@) ==> !r.is_safe,
            r.raw_security == security,
            r.evaluated_at == now,
    {
        evaluate(&self.config, candidate, security, now)
    }
}

} // verus!
