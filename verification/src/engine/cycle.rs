//! The decision cycle: refresh the book, look for candidates while there is room,
//! evaluate them, enter the ones that are safe and rising, sell what is due, and
//! store the book.
//!
//! A cycle says what is to be done next; the caller does it and hands back what
//! came of it. What fails for one candidate or one order costs only that candidate
//! or order. A book that cannot be valued ends the cycle with nothing stored.

use crate::address::{hash_text, Address};
use crate::amount::{amount_of, lemma_amount_of_view, Amount};
use crate::config::{wei_per_micro, BotConfig};
use crate::engine::portfolio::{
    booked, covers, distinct_tokens, exit_orders, has_id, holds, index_of_id,
    lemma_booked_apart, lemma_index_of_id_found, lemma_revalued_apart, opened_position,
    revalued, Portfolio, Position,
};
use crate::engine::risk::{evaluate, risk_flags, risk_score, verdict, GoPlusTokenSecurity};
use crate::engine::scanner::{
    contains_address, discovery, momentum, DexScreenerPair, DexScreenerScanner, GemCandidate,
};
use crate::engine::trader::{
    begin_entry, begin_exit, entry_start, exit_begin, ChainRequest, EntryFlow, ExecutionError,
    ExecutionResult, ExitFlow, ExitOrder, DEFAULT_DECIMALS,
};
use crate::engine::valuation::{Revaluation, ValuationError};
use vstd::prelude::*;

verus! {

/// What a cycle is waiting for.
#[derive(Clone, Copy, Debug, PartialEq, Eq, Structural)]
pub enum CyclePhase {
    Refreshing,
    Discovering,
    Evaluating,
    PricingEntry,
    Entering { base_price: u64, base_decimals: u8 },
    PlanningExits,
    Exiting,
    Persisting,
    Finished,
}

/// A candidate that was found safe, by its place among the candidates, with the
/// score it was given.
#[derive(Clone, Copy, Debug, PartialEq, Eq, Structural)]
pub struct Approved {
    pub index: usize,
    pub score: u64,
}

/// How a cycle ended.
#[derive(Clone, Copy, Debug, PartialEq, Eq, Structural)]
pub enum CycleOutcome {
    /// Everything was done and the book is stored.
    Completed,
    /// The book could not be brought up to date; nothing was traded or stored.
    RefreshFailed(ValuationError),
    /// The book could not be valued for selling; nothing was sold or stored.
    ExitPlanningFailed(ValuationError),
    /// The book could not be stored, though trades may have been made.
    PersistFailed,
    /// The cycle was told of something it had not asked for.
    OutOfTurn,
}

/// What a cycle asks to be done.
#[derive(Clone, Copy, Debug, PartialEq, Eq)]
pub enum CycleAction {
    /// Make a valuation pass over the book.
    Revalue,
    /// Read the market-data feeds.
    Discover,
    /// Read the security profile of a token.
    Profile(Address),
    /// Read the dollar price and the decimal places of a base asset.
    PriceBase(Address),
    /// Run an entry, beginning with the given request.
    Enter(EntryFlow, ChainRequest),
    /// Run an exit, beginning with the given request.
    Exit(ExitFlow, ChainRequest),
    /// Store the book.
    Persist,
    /// Nothing more: the cycle has ended.
    Finish(CycleOutcome),
}

/// What came of what a cycle asked for.
#[derive(Debug)]
pub enum CycleEvent {
    /// A valuation pass, finished or failed.
    Valued(Result<Revaluation, ValuationError>),
    /// What the two market-data feeds returned; a feed that could not be reached
    /// returned nothing.
    Discovered { trending: Option<Vec<DexScreenerPair>>, latest: Option<Vec<DexScreenerPair>> },
    /// What the security feed returned: nothing where it could not be reached, and
    /// no profile where it knows nothing of the token.
    Profiled(Option<Option<GoPlusTokenSecurity>>),
    /// What was learned of a base asset.
    BasePriced { price: Option<u64>, decimals: Option<u8> },
    /// How an entry ended.
    Entered(Result<ExecutionResult, ExecutionError>),
    /// How an exit ended.
    Exited(Result<ExecutionResult, ExecutionError>),
    /// Whether the book was stored.
    Persisted(bool),
}

/// A cycle under way.
#[derive(Debug)]
pub struct Cycle {
    phase: CyclePhase,
    candidates: Vec<GemCandidate>,
    approved: Vec<Approved>,
    orders: Vec<ExitOrder>,
    cursor: usize,
}

/// What a cycle knows.
pub struct CycleView {
    pub phase: CyclePhase,
    /// The candidates of this cycle, most confident first.
    pub candidates: Seq<GemCandidate>,
    /// Those of them that were found safe, in the same order.
    pub approved: Seq<Approved>,
    /// The orders of this cycle.
    pub orders: Seq<ExitOrder>,
    /// The candidate, the approved candidate or the order that is being dealt with.
    pub cursor: nat,
}

impl View for Cycle {
    type V = CycleView;

    closed spec fn view(&self) -> CycleView {
        CycleView {
            phase: self.phase,
            candidates: self.candidates@,
            approved: self.approved@,
            orders: self.orders@,
            cursor: self.cursor as nat,
        }
    }
}

/// Whether what a cycle knows hangs together.
pub open spec fn coherent(state: CycleView) -> bool {
    &&& forall|i: int|
        0 <= i < state.approved.len() ==> (#[trigger] state.approved[i]).index
            < state.candidates.len()
    &&& state.phase is Evaluating ==> state.cursor < state.candidates.len()
    &&& state.phase is PricingEntry ==> state.cursor < state.approved.len()
    &&& state.phase is Entering ==> state.cursor < state.approved.len()
    &&& state.phase is Exiting ==> state.cursor < state.orders.len()
    &&& state.candidates.len() <= usize::MAX
    &&& state.approved.len() <= usize::MAX
    &&& state.orders.len() <= usize::MAX
    &&& state.cursor <= usize::MAX
}

/// The first candidate from `from` on whose token is not blacklisted, or the number
/// of candidates where there is none.
pub open spec fn next_unlisted(candidates: Seq<GemCandidate>, blacklist: Seq<Address>, from: nat)
    -> nat
    decreases candidates.len() - from,
{
    if from >= candidates.len() {
        candidates.len()
    } else if !blacklist.contains(candidates[from as int].token_address) {
        from
    } else {
        next_unlisted(candidates, blacklist, from + 1)
    }
}

/// Whether a candidate may be entered: the book has no position in its token, and
/// it has momentum.
pub open spec fn enterable(candidate: GemCandidate, book: Seq<Position>, config: BotConfig)
    -> bool {
    !holds(book, candidate.token_address) && momentum(
        candidate,
        config.strategy.price_momentum_window_minutes,
    )
}

/// The first approved candidate from `from` on that may be entered, or the number of
/// approved candidates where there is none.
pub open spec fn next_enterable(
    state: CycleView,
    book: Seq<Position>,
    config: BotConfig,
    from: nat,
) -> nat
    decreases state.approved.len() - from,
{
    if from >= state.approved.len() {
        state.approved.len()
    } else if enterable(state.candidates[state.approved[from as int].index as int], book, config) {
        from
    } else {
        next_enterable(state, book, config, from + 1)
    }
}

/// The end of a cycle.
pub open spec fn finish(state: CycleView, book: Seq<Position>, outcome: CycleOutcome) -> (
    CycleView,
    Seq<Position>,
    CycleAction,
) {
    (CycleView { phase: CyclePhase::Finished, ..state }, book, CycleAction::Finish(outcome))
}

/// How the selling begins: with a valuation pass, or, where the book is empty, with
/// the storing.
pub open spec fn begin_exits(state: CycleView, book: Seq<Position>) -> (
    CycleView,
    Seq<Position>,
    CycleAction,
) {
    if book.len() == 0 {
        (CycleView { phase: CyclePhase::Persisting, ..state }, book, CycleAction::Persist)
    } else {
        (CycleView { phase: CyclePhase::PlanningExits, ..state }, book, CycleAction::Revalue)
    }
}

/// How the entering goes on from the approved candidate `from`: with the base
/// asset of the first that may be entered, or with the selling.
pub open spec fn enter_from(state: CycleView, book: Seq<Position>, config: BotConfig, from: nat)
    -> (CycleView, Seq<Position>, CycleAction) {
    let k = next_enterable(state, book, config, from);
    if k < state.approved.len() {
        (
            CycleView { phase: CyclePhase::PricingEntry, cursor: k, ..state },
            book,
            CycleAction::PriceBase(
                state.candidates[state.approved[k as int].index as int].base_token,
            ),
        )
    } else {
        begin_exits(state, book)
    }
}

/// How the evaluating goes on from the candidate `from`: with the profile of the
/// first that is not blacklisted, or with the entering.
pub open spec fn evaluate_from(
    state: CycleView,
    book: Seq<Position>,
    config: BotConfig,
    from: nat,
) -> (CycleView, Seq<Position>, CycleAction) {
    let k = next_unlisted(state.candidates, config.strategy.blacklisted_tokens@, from);
    if k < state.candidates.len() {
        (
            CycleView { phase: CyclePhase::Evaluating, cursor: k, ..state },
            book,
            CycleAction::Profile(state.candidates[k as int].token_address),
        )
    } else {
        enter_from(state, book, config, 0)
    }
}

/// How the selling goes on from the order `from`: with the first exit that can be
/// begun, or with the storing.
pub open spec fn exit_from(
    state: CycleView,
    book: Seq<Position>,
    config: BotConfig,
    wallet: Address,
    now: i64,
    from: nat,
) -> (CycleView, Seq<Position>, CycleAction)
    decreases state.orders.len() - from,
{
    if from >= state.orders.len() {
        (CycleView { phase: CyclePhase::Persisting, ..state }, book, CycleAction::Persist)
    } else {
        match exit_begin(config, wallet, state.orders[from as int], now) {
            Ok((flow, request)) => (
                CycleView { phase: CyclePhase::Exiting, cursor: from, ..state },
                book,
                CycleAction::Exit(flow, request),
            ),
            Err(_) => exit_from(state, book, config, wallet, now, from + 1),
        }
    }
}

/// The book without the position of an identifier.
pub open spec fn without(book: Seq<Position>, id: u128) -> Seq<Position> {
    if has_id(book, id) {
        book.remove(index_of_id(book, id))
    } else {
        book
    }
}

/// The size of one entry in the native asset's smallest unit.
pub open spec fn entry_size(config: BotConfig) -> Amount {
    amount_of(config.strategy.position_size_eth as nat * wei_per_micro())
}

/// Whether a position is the one that an entry opens.
pub open spec fn opens(
    position: Position,
    candidate: GemCandidate,
    execution: ExecutionResult,
    score: u64,
    config: BotConfig,
    base_price: u64,
    base_decimals: u8,
) -> bool {
    position == opened_position(
        position.id,
        candidate,
        execution,
        score,
        config.strategy.take_profit_bps,
        config.strategy.stop_loss_bps,
        base_price,
        base_decimals,
        position.entry_tx,
    ) && position.entry_tx@ == hash_text(execution.tx_hash)
}

/// The approved candidate that a cycle is dealing with while it enters.
pub open spec fn entrant(state: CycleView) -> GemCandidate {
    state.candidates[state.approved[state.cursor as int].index as int]
}

/// What a cycle makes of what it is told: what it knows afterwards, what the book
/// holds afterwards, and what it asks to be done next. `opened` is the position
/// that is booked where an entry has succeeded.
///
/// The book is looked at again just before an entry is asked for: a candidate in whose
/// token it has a position by then is passed over.
pub open spec fn cycle_transition(
    state: CycleView,
    book: Seq<Position>,
    event: CycleEvent,
    config: BotConfig,
    wallet: Address,
    now: i64,
    opened: Position,
) -> (CycleView, Seq<Position>, CycleAction) {
    match (state.phase, event) {
        (CyclePhase::Refreshing, CycleEvent::Valued(Err(e))) => finish(
            state,
            book,
            CycleOutcome::RefreshFailed(e),
        ),
        (CyclePhase::Refreshing, CycleEvent::Valued(Ok(pass))) => if !covers(pass, book) {
            finish(state, book, CycleOutcome::RefreshFailed(ValuationError::Stale))
        } else if revalued(book, pass.valued(), now).len() >= config.strategy.max_positions {
            begin_exits(state, revalued(book, pass.valued(), now))
        } else {
            (
                CycleView { phase: CyclePhase::Discovering, ..state },
                revalued(book, pass.valued(), now),
                CycleAction::Discover,
            )
        },
        (CyclePhase::Discovering, CycleEvent::Discovered { trending, latest }) => match discovery(
            trending,
            latest,
            config,
            now,
        ) {
            Err(_) => begin_exits(state, book),
            Ok(found) => evaluate_from(
                CycleView { candidates: found, approved: Seq::empty(), ..state },
                book,
                config,
                0,
            ),
        },
        (CyclePhase::Evaluating, CycleEvent::Profiled(None)) => evaluate_from(
            state,
            book,
            config,
            state.cursor + 1,
        ),
        (CyclePhase::Evaluating, CycleEvent::Profiled(Some(security))) => {
            let candidate = state.candidates[state.cursor as int];
            let score = risk_score(candidate, security, config) as u64;
            if verdict(score, risk_flags(candidate, security, config)) {
                evaluate_from(
                    CycleView {
                        approved: state.approved.push(
                            Approved { index: state.cursor as usize, score },
                        ),
                        ..state
                    },
                    book,
                    config,
                    state.cursor + 1,
                )
            } else {
                evaluate_from(state, book, config, state.cursor + 1)
            }
        },
        (CyclePhase::PricingEntry, CycleEvent::BasePriced { price: None, decimals }) => enter_from(
            state,
            book,
            config,
            state.cursor + 1,
        ),
        (CyclePhase::PricingEntry, CycleEvent::BasePriced { price: Some(p), decimals }) => {
            let candidate = entrant(state);
            if holds(book, candidate.token_address) {
                enter_from(state, book, config, state.cursor + 1)
            } else {
                (
                    CycleView {
                        phase: CyclePhase::Entering {
                            base_price: p,
                            base_decimals: match decimals {
                                Some(d) => d,
                                None => DEFAULT_DECIMALS,
                            },
                        },
                        ..state
                    },
                    book,
                    CycleAction::Enter(
                        entry_start(
                            config,
                            wallet,
                            candidate.token_address,
                            entry_size(config),
                            candidate.base_token,
                        ).0,
                        entry_start(
                            config,
                            wallet,
                            candidate.token_address,
                            entry_size(config),
                            candidate.base_token,
                        ).1,
                    ),
                )
            }
        },
        (CyclePhase::Entering { base_price, base_decimals }, CycleEvent::Entered(Err(_))) => {
            enter_from(state, book, config, state.cursor + 1)
        },
        (CyclePhase::Entering { base_price, base_decimals }, CycleEvent::Entered(Ok(_))) => {
            enter_from(state, booked(book, opened), config, state.cursor + 1)
        },
        (CyclePhase::PlanningExits, CycleEvent::Valued(Err(e))) => finish(
            state,
            book,
            CycleOutcome::ExitPlanningFailed(e),
        ),
        (CyclePhase::PlanningExits, CycleEvent::Valued(Ok(pass))) => if !covers(pass, book) {
            finish(state, book, CycleOutcome::ExitPlanningFailed(ValuationError::Stale))
        } else {
            match exit_orders(
                book,
                pass.valued(),
                config.exchange.max_slippage_bps,
                book.len(),
            ) {
                Err(e) => finish(state, book, CycleOutcome::ExitPlanningFailed(e)),
                Ok(orders) => exit_from(
                    CycleView { orders, ..state },
                    book,
                    config,
                    wallet,
                    now,
                    0,
                ),
            }
        },
        (CyclePhase::Exiting, CycleEvent::Exited(Err(_))) => exit_from(
            state,
            book,
            config,
            wallet,
            now,
            state.cursor + 1,
        ),
        (CyclePhase::Exiting, CycleEvent::Exited(Ok(_))) => exit_from(
            state,
            without(book, state.orders[state.cursor as int].position_id),
            config,
            wallet,
            now,
            state.cursor + 1,
        ),
        (CyclePhase::Persisting, CycleEvent::Persisted(stored)) => finish(
            state,
            book,
            if stored {
                CycleOutcome::Completed
            } else {
                CycleOutcome::PersistFailed
            },
        ),
        _ => finish(state, book, CycleOutcome::OutOfTurn),
    }
}

/// Whether `opened` is the position that the event calls for: the one that the
/// entry opens where an entry has succeeded, and any position otherwise.
pub open spec fn opening(
    state: CycleView,
    event: CycleEvent,
    config: BotConfig,
    opened: Position,
) -> bool {
    match (state.phase, event) {
        (
            CyclePhase::Entering { base_price, base_decimals },
            CycleEvent::Entered(Ok(execution)),
        ) => opens(
            opened,
            entrant(state),
            execution,
            state.approved[state.cursor as int].score,
            config,
            base_price,
            base_decimals,
        ),
        _ => true,
    }
}

/// What a cycle knows when it begins: nothing yet.
pub open spec fn outset() -> CycleView {
    CycleView {
        phase: CyclePhase::Refreshing,
        candidates: Seq::empty(),
        approved: Seq::empty(),
        orders: Seq::empty(),
        cursor: 0,
    }
}

/// Whether every approved candidate is one of the candidates.
pub open spec fn sound(state: CycleView) -> bool {
    &&& forall|i: int|
        0 <= i < state.approved.len() ==> (#[trigger] state.approved[i]).index
            < state.candidates.len()
    &&& state.candidates.len() <= usize::MAX
    &&& state.approved.len() <= usize::MAX
    &&& state.orders.len() <= usize::MAX
    &&& state.cursor <= usize::MAX
}

impl Cycle {
    /// Whether the cycle is in order.
    pub open spec fn wf(&self) -> bool {
        coherent(self@)
    }

    /// A new cycle. The first thing it asks for is a valuation pass over the book.
    pub fn begin() -> (r: (Cycle, CycleAction))
        ensures
            r.0.wf(),
            r.0@ == outset(),
            r.1 == CycleAction::Revalue,
    {
        let cycle = Cycle {
            phase: CyclePhase::Refreshing,
            candidates: Vec::new(),
            approved: Vec::new(),
            orders: Vec::new(),
            cursor: 0,
        };
        assert(cycle@.candidates =~= Seq::empty());
        assert(cycle@.approved =~= Seq::empty());
        assert(cycle@.orders =~= Seq::empty());
        (cycle, CycleAction::Revalue)
    }

    /// Whether the cycle has ended.
    pub fn is_finished(&self) -> (r: bool)
        ensures
            r == (self@.phase is Finished),
    {
        match self.phase {
            CyclePhase::Finished => true,
            _ => false,
        }
    }

    fn finish(&mut self, book: &Portfolio, outcome: CycleOutcome) -> (r: CycleAction)
        requires
            sound(old(self)@),
        ensures
            final(self).wf(),
            (final(self)@, book@, r) == finish(old(self)@, book@, outcome),
    {
        self.phase = CyclePhase::Finished;
        CycleAction::Finish(outcome)
    }

    fn begin_exits(&mut self, book: &Portfolio) -> (r: CycleAction)
        requires
            book.wf(),
            sound(old(self)@),
        ensures
            final(self).wf(),
            (final(self)@, book@, r) == begin_exits(old(self)@, book@),
    {
        if book.count() == 0 {
            self.phase = CyclePhase::Persisting;
            CycleAction::Persist
        } else {
            self.phase = CyclePhase::PlanningExits;
            CycleAction::Revalue
        }
    }

    fn enter_from(&mut self, book: &Portfolio, config: &BotConfig, from: usize) -> (r: CycleAction)
        requires
            book.wf(),
            sound(old(self)@),
            from <= old(self)@.approved.len(),
        ensures
            final(self).wf(),
            (final(self)@, book@, r) == enter_from(old(self)@, book@, *config, from as nat),
    {
        let scanner = DexScreenerScanner {  };
        let mut k: usize = from;
        while k < self.approved.len()
            invariant
                from <= k <= self.approved.len(),
                *self == *old(self),
                sound(self@),
                book.wf(),
                next_enterable(self@, book@, *config, k as nat) == next_enterable(
                    self@,
                    book@,
                    *config,
                    from as nat,
                ),
            decreases self.approved.len() - k,
        {
            let candidate = &self.candidates[self.approved[k].index];
            if !book.is_holding(&candidate.token_address) && scanner.has_momentum(
                candidate,
                config,
            ) {
                let base = candidate.base_token;
                self.phase = CyclePhase::PricingEntry;
                self.cursor = k;
                return CycleAction::PriceBase(base);
            }
            k = k + 1;
        }
        self.begin_exits(book)
    }

    fn evaluate_from(&mut self, book: &Portfolio, config: &BotConfig, from: usize) -> (r:
        CycleAction)
        requires
            book.wf(),
            sound(old(self)@),
            from <= old(self)@.candidates.len(),
        ensures
            final(self).wf(),
            (final(self)@, book@, r) == evaluate_from(old(self)@, book@, *config, from as nat),
    {
        let mut k: usize = from;
        while k < self.candidates.len()
            invariant
                from <= k <= self.candidates.len(),
                *self == *old(self),
                sound(self@),
                next_unlisted(
                    self@.candidates,
                    config.strategy.blacklisted_tokens@,
                    k as nat,
                ) == next_unlisted(
                    self@.candidates,
                    config.strategy.blacklisted_tokens@,
                    from as nat,
                ),
            decreases self.candidates.len() - k,
        {
            let token = self.candidates[k].token_address;
            if !contains_address(&config.strategy.blacklisted_tokens, token) {
                self.phase = CyclePhase::Evaluating;
                self.cursor = k;
                return CycleAction::Profile(token);
            }
            k = k + 1;
        }
        self.enter_from(book, config, 0)
    }

    fn exit_from(
        &mut self,
        book: &Portfolio,
        config: &BotConfig,
        wallet: Address,
        now: i64,
        from: usize,
    ) -> (r: CycleAction)
        requires
            sound(old(self)@),
            from <= old(self)@.orders.len(),
        ensures
            final(self).wf(),
            (final(self)@, book@, r) == exit_from(
                old(self)@,
                book@,
                *config,
                wallet,
                now,
                from as nat,
            ),
    {
        let mut k: usize = from;
        while k < self.orders.len()
            invariant
                from <= k <= self.orders.len(),
                *self == *old(self),
                sound(self@),
                exit_from(self@, book@, *config, wallet, now, k as nat) == exit_from(
                    self@,
                    book@,
                    *config,
                    wallet,
                    now,
                    from as nat,
                ),
            decreases self.orders.len() - k,
        {
            match begin_exit(config, wallet, self.orders[k], now) {
                Ok((flow, request)) => {
                    self.phase = CyclePhase::Exiting;
                    self.cursor = k;
                    return CycleAction::Exit(flow, request);
                },
                Err(_) => {},
            }
            k = k + 1;
        }
        self.phase = CyclePhase::Persisting;
        CycleAction::Persist
    }
}

impl Cycle {
    /// Takes what came of what the cycle asked for, at `now`, and says what is to be
    /// done next. Positions are booked and struck off the book as entries and
    /// exits succeed.
    ///
    /// An entry is asked for only into a token in which the book has no position, and
    /// a book without two positions in one token stays so.
    pub fn step(
        &mut self,
        book: &mut Portfolio,
        event: CycleEvent,
        config: &BotConfig,
        wallet: Address,
        now: i64,
    ) -> (r: CycleAction)
        requires
            old(self).wf(),
            old(book).wf(),
            event matches CycleEvent::Valued(Ok(pass)) ==> pass.wf(),
        ensures
            final(self).wf(),
            final(book).wf(),
            exists|opened: Position|
                opening(old(self)@, event, *config, opened) && (final(self)@, final(book)@, r)
                    == cycle_transition(
                    old(self)@,
                    old(book)@,
                    event,
                    *config,
                    wallet,
                    now,
                    opened,
                ),
            r matches CycleAction::Enter(flow, _) ==> !holds(final(book)@, flow.token)
                && final(book)@ == old(book)@,
            poised(old(self)@, old(book)@) ==> poised(final(self)@, final(book)@),
    {
        let ghost before = self@;
        let ghost held = book@;
        let ghost mut witness: Position = arbitrary();
        let action = match self.phase {
            CyclePhase::Refreshing => match event {
                CycleEvent::Valued(Err(e)) => self.finish(book, CycleOutcome::RefreshFailed(e)),
                CycleEvent::Valued(Ok(pass)) => match book.refresh_positions(&pass, now) {
                    Err(_) => self.finish(
                        book,
                        CycleOutcome::RefreshFailed(ValuationError::Stale),
                    ),
                    Ok(()) => {
                        if book.count() >= config.strategy.max_positions {
                            self.begin_exits(book)
                        } else {
                            self.phase = CyclePhase::Discovering;
                            CycleAction::Discover
                        }
                    },
                },
                _ => self.finish(book, CycleOutcome::OutOfTurn),
            },
            CyclePhase::Discovering => match event {
                CycleEvent::Discovered { trending, latest } => {
                    let scanner = DexScreenerScanner {  };
                    match scanner.discover_candidates(trending, latest, config, now) {
                        Err(_) => self.begin_exits(book),
                        Ok(found) => {
                            self.candidates = found;
                            self.approved = Vec::new();
                            let ghost bound = self.candidates.len();
                            self.evaluate_from(book, config, 0)
                        },
                    }
                },
                _ => self.finish(book, CycleOutcome::OutOfTurn),
            },
            CyclePhase::Evaluating => match event {
                CycleEvent::Profiled(None) => {
                    let next = self.cursor + 1;
                    self.evaluate_from(book, config, next)
                },
                CycleEvent::Profiled(Some(security)) => {
                    let report = evaluate(config, &self.candidates[self.cursor], security, now);
                    if report.is_safe {
                        self.approved.push(Approved { index: self.cursor, score: report.score });
                    }
                    let ghost bound = self.approved.len();
                    let next = self.cursor + 1;
                    self.evaluate_from(book, config, next)
                },
                _ => self.finish(book, CycleOutcome::OutOfTurn),
            },
            CyclePhase::PricingEntry => match event {
                CycleEvent::BasePriced { price: None, decimals: _ } => {
                    let next = self.cursor + 1;
                    self.enter_from(book, config, next)
                },
                CycleEvent::BasePriced { price: Some(p), decimals } => {
                    let candidate = &self.candidates[self.approved[self.cursor].index];
                    if book.is_holding(&candidate.token_address) {
                        let next = self.cursor + 1;
                        self.enter_from(book, config, next)
                    } else {
                        let size = config.position_size_wei().unwrap();
                        proof {
                            lemma_amount_of_view(size);
                        }
                        let (flow, request) = begin_entry(
                            config,
                            wallet,
                            candidate.token_address,
                            size,
                            candidate.base_token,
                        );
                        self.phase = CyclePhase::Entering {
                            base_price: p,
                            base_decimals: match decimals {
                                Some(d) => d,
                                None => DEFAULT_DECIMALS,
                            },
                        };
                        CycleAction::Enter(flow, request)
                    }
                },
                _ => self.finish(book, CycleOutcome::OutOfTurn),
            },
            CyclePhase::Entering { base_price, base_decimals } => match event {
                CycleEvent::Entered(Err(_)) => {
                    let next = self.cursor + 1;
                    self.enter_from(book, config, next)
                },
                CycleEvent::Entered(Ok(execution)) => {
                    let approved = self.approved[self.cursor];
                    let position = Position::from_execution(
                        &self.candidates[approved.index],
                        execution,
                        approved.score,
                        config.strategy.take_profit_bps,
                        config.strategy.stop_loss_bps,
                        base_price,
                        base_decimals,
                    );
                    proof {
                        witness = position;
                    }
                    book.add_position(position);
                    let next = self.cursor + 1;
                    self.enter_from(book, config, next)
                },
                _ => self.finish(book, CycleOutcome::OutOfTurn),
            },
            CyclePhase::PlanningExits => match event {
                CycleEvent::Valued(Err(e)) => self.finish(
                    book,
                    CycleOutcome::ExitPlanningFailed(e),
                ),
                CycleEvent::Valued(Ok(pass)) => match book.generate_exit_orders(&pass, config) {
                    Err(e) => self.finish(book, CycleOutcome::ExitPlanningFailed(e)),
                    Ok(orders) => {
                        self.orders = orders;
                        let ghost bound = self.orders.len();
                        self.exit_from(book, config, wallet, now, 0)
                    },
                },
                _ => self.finish(book, CycleOutcome::OutOfTurn),
            },
            CyclePhase::Exiting => match event {
                CycleEvent::Exited(Err(_)) => {
                    let next = self.cursor + 1;
                    self.exit_from(book, config, wallet, now, next)
                },
                CycleEvent::Exited(Ok(_)) => {
                    let id = self.orders[self.cursor].position_id;
                    let _ = book.close_position(id);
                    let next = self.cursor + 1;
                    self.exit_from(book, config, wallet, now, next)
                },
                _ => self.finish(book, CycleOutcome::OutOfTurn),
            },
            CyclePhase::Persisting => match event {
                CycleEvent::Persisted(stored) => {
                    if stored {
                        self.finish(book, CycleOutcome::Completed)
                    } else {
                        self.finish(book, CycleOutcome::PersistFailed)
                    }
                },
                _ => self.finish(book, CycleOutcome::OutOfTurn),
            },
            CyclePhase::Finished => self.finish(book, CycleOutcome::OutOfTurn),
        };
        proof {
            assert(opening(before, event, *config, witness));
            assert((self@, book@, action) == cycle_transition(
                before,
                held,
                event,
                *config,
                wallet,
                now,
                witness,
            ));
            lemma_no_reentry(before, held, event, *config, wallet, now, witness);
            if poised(before, held) {
                lemma_step_keeps_tokens_apart(before, held, event, *config, wallet, now, witness);
            }
        }
        action
    }
}

/// Whether the candidate whose base asset a cycle has asked the price of is one in
/// whose token the book has no position.
pub open spec fn clear_to_enter(state: CycleView, book: Seq<Position>) -> bool {
    state.phase is PricingEntry ==> !holds(book, entrant(state).token_address)
}

/// The next candidate that may be entered is none before `from`, and is one that may
/// be entered.
pub proof fn lemma_next_enterable(
    state: CycleView,
    book: Seq<Position>,
    config: BotConfig,
    from: nat,
)
    requires
        from <= state.approved.len(),
    ensures
        from <= next_enterable(state, book, config, from) <= state.approved.len(),
        next_enterable(state, book, config, from) < state.approved.len() ==> enterable(
            state.candidates[state.approved[next_enterable(
                state,
                book,
                config,
                from,
            ) as int].index as int],
            book,
            config,
        ),
    decreases state.approved.len() - from,
{
    if from < state.approved.len() && !enterable(
        state.candidates[state.approved[from as int].index as int],
        book,
        config,
    ) {
        lemma_next_enterable(state, book, config, from + 1);
    }
}

/// Going on with the entering asks the price of the base asset only for a candidate
/// in whose token the book has no position. It asks for no entry and leaves the book
/// as it is.
pub proof fn lemma_enter_from_is_clear(
    state: CycleView,
    book: Seq<Position>,
    config: BotConfig,
    from: nat,
)
    requires
        from <= state.approved.len(),
    ensures
        clear_to_enter(
            enter_from(state, book, config, from).0,
            enter_from(state, book, config, from).1,
        ),
        enter_from(state, book, config, from).1 == book,
        !(enter_from(state, book, config, from).2 is Enter),
{
    lemma_next_enterable(state, book, config, from);
}

/// Going on with the selling asks for no entry, leaves the cycle in none, and leaves
/// the book as it is.
pub proof fn lemma_exit_from_is_clear(
    state: CycleView,
    book: Seq<Position>,
    config: BotConfig,
    wallet: Address,
    now: i64,
    from: nat,
)
    ensures
        !(exit_from(state, book, config, wallet, now, from).0.phase is PricingEntry),
        !(exit_from(state, book, config, wallet, now, from).0.phase is Entering),
        exit_from(state, book, config, wallet, now, from).1 == book,
        !(exit_from(state, book, config, wallet, now, from).2 is Enter),
    decreases state.orders.len() - from,
{
    if from < state.orders.len() {
        if exit_begin(config, wallet, state.orders[from as int], now).is_err() {
            lemma_exit_from_is_clear(state, book, config, wallet, now, from + 1);
        }
    }
}

/// No token is entered twice: whatever a cycle knows, whatever the book holds and
/// whatever the cycle is told, it asks for an entry only into a token in which the
/// book has no position, however confident the candidate. The book is as it was,
/// and the cycle is then entering that token.
pub proof fn lemma_no_reentry(
    state: CycleView,
    book: Seq<Position>,
    event: CycleEvent,
    config: BotConfig,
    wallet: Address,
    now: i64,
    opened: Position,
)
    ensures
        cycle_transition(state, book, event, config, wallet, now, opened).2 matches CycleAction::Enter(
            flow,
            _,
        ) ==> !holds(book, flow.token) && cycle_transition(
            state,
            book,
            event,
            config,
            wallet,
            now,
            opened,
        ).1 == book && cycle_transition(
            state,
            book,
            event,
            config,
            wallet,
            now,
            opened,
        ).0.phase is Entering && entrant(
            cycle_transition(state, book, event, config, wallet, now, opened).0,
        ).token_address == flow.token,
{
    match (state.phase, event) {
        (CyclePhase::PlanningExits, CycleEvent::Valued(Ok(pass))) => {
            if covers(pass, book) {
                match exit_orders(
                    book,
                    pass.valued(),
                    config.exchange.max_slippage_bps,
                    book.len(),
                ) {
                    Ok(orders) => {
                        lemma_exit_from_is_clear(
                            CycleView { orders, ..state },
                            book,
                            config,
                            wallet,
                            now,
                            0,
                        );
                    },
                    Err(_) => {},
                }
            }
        },
        (CyclePhase::Exiting, CycleEvent::Exited(Err(_))) => {
            lemma_exit_from_is_clear(state, book, config, wallet, now, state.cursor + 1);
        },
        (CyclePhase::Exiting, CycleEvent::Exited(Ok(_))) => {
            lemma_exit_from_is_clear(
                state,
                without(book, state.orders[state.cursor as int].position_id),
                config,
                wallet,
                now,
                state.cursor + 1,
            );
        },
        _ => {},
    }
}

/// Striking a position off the book leaves no two positions in one token.
pub proof fn lemma_without_apart(book: Seq<Position>, id: u128)
    requires
        distinct_tokens(book),
    ensures
        distinct_tokens(without(book, id)),
{
    if has_id(book, id) {
        lemma_index_of_id_found(book, id);
        let k = index_of_id(book, id);
        let after = book.remove(k);
        assert forall|i: int, j: int| 0 <= i < j < after.len() implies after[i].token
            != after[j].token by {
            let from_i = if i < k { i } else { i + 1 };
            let from_j = if j < k { j } else { j + 1 };
            assert(after[i] == book[from_i]);
            assert(after[j] == book[from_j]);
        }
    }
}

/// Whether the book has no two positions in one token, and none in the token that
/// the cycle is entering.
pub open spec fn poised(state: CycleView, book: Seq<Position>) -> bool {
    &&& distinct_tokens(book)
    &&& state.phase is Entering ==> !holds(book, entrant(state).token_address)
}

/// A book that has no two positions in one token has none afterwards, whatever the
/// cycle is told, so long as the position that is booked is the one that the entry
/// has opened.
pub proof fn lemma_step_keeps_tokens_apart(
    state: CycleView,
    book: Seq<Position>,
    event: CycleEvent,
    config: BotConfig,
    wallet: Address,
    now: i64,
    opened: Position,
)
    requires
        poised(state, book),
        opening(state, event, config, opened),
    ensures
        poised(
            cycle_transition(state, book, event, config, wallet, now, opened).0,
            cycle_transition(state, book, event, config, wallet, now, opened).1,
        ),
{
    match (state.phase, event) {
        (CyclePhase::Refreshing, CycleEvent::Valued(Ok(pass))) => {
            lemma_revalued_apart(book, pass.valued(), now);
        },
        (CyclePhase::Entering { base_price, base_decimals }, CycleEvent::Entered(Ok(_))) => {
            assert(opened.token == entrant(state).token_address);
            lemma_booked_apart(book, opened);
        },
        (CyclePhase::PlanningExits, CycleEvent::Valued(Ok(pass))) => {
            if covers(pass, book) {
                match exit_orders(
                    book,
                    pass.valued(),
                    config.exchange.max_slippage_bps,
                    book.len(),
                ) {
                    Ok(orders) => {
                        lemma_exit_from_is_clear(
                            CycleView { orders, ..state },
                            book,
                            config,
                            wallet,
                            now,
                            0,
                        );
                    },
                    Err(_) => {},
                }
            }
        },
        (CyclePhase::Exiting, CycleEvent::Exited(Err(_))) => {
            lemma_exit_from_is_clear(state, book, config, wallet, now, state.cursor + 1);
        },
        (CyclePhase::Exiting, CycleEvent::Exited(Ok(_))) => {
            let rest = without(book, state.orders[state.cursor as int].position_id);
            lemma_without_apart(book, state.orders[state.cursor as int].position_id);
            lemma_exit_from_is_clear(state, rest, config, wallet, now, state.cursor + 1);
        },
        _ => {},
    }
}

/// One thing that a cycle is told: what came of what it asked for, the time, and the
/// position that is booked where an entry has succeeded.
pub ghost struct Told {
    pub event: CycleEvent,
    pub now: i64,
    pub opened: Position,
}

/// Where a cycle that began over `book` stands once it has been told all of `told`,
/// one thing after the other: what it knows, what the book holds, and what it asked
/// for last.
pub open spec fn course(book: Seq<Position>, told: Seq<Told>, config: BotConfig, wallet: Address)
    -> (CycleView, Seq<Position>, CycleAction)
    decreases told.len(),
{
    if told.len() == 0 {
        (outset(), book, CycleAction::Revalue)
    } else {
        let before = course(book, told.drop_last(), config, wallet);
        cycle_transition(
            before.0,
            before.1,
            told.last().event,
            config,
            wallet,
            told.last().now,
            told.last().opened,
        )
    }
}

/// Whether each position in `told` is the one that the entry has opened, where its
/// event is an entry that has succeeded.
pub open spec fn faithful(book: Seq<Position>, told: Seq<Told>, config: BotConfig, wallet: Address)
    -> bool
    decreases told.len(),
{
    told.len() == 0 || (faithful(book, told.drop_last(), config, wallet) && opening(
        course(book, told.drop_last(), config, wallet).0,
        told.last().event,
        config,
        told.last().opened,
    ))
}

/// Over a whole cycle, from its beginning and whatever it is told: a book that began
/// with no two positions in one token never has two, and an entry is asked for only
/// into a token in which the book has no position at that moment.
pub proof fn lemma_tokens_stay_apart(
    book: Seq<Position>,
    told: Seq<Told>,
    config: BotConfig,
    wallet: Address,
)
    requires
        distinct_tokens(book),
        faithful(book, told, config, wallet),
    ensures
        poised(course(book, told, config, wallet).0, course(book, told, config, wallet).1),
        course(book, told, config, wallet).2 matches CycleAction::Enter(flow, _) ==> !holds(
            course(book, told, config, wallet).1,
            flow.token,
        ),
    decreases told.len(),
{
    if told.len() > 0 {
        let before = course(book, told.drop_last(), config, wallet);
        lemma_tokens_stay_apart(book, told.drop_last(), config, wallet);
        lemma_step_keeps_tokens_apart(
            before.0,
            before.1,
            told.last().event,
            config,
            wallet,
            told.last().now,
            told.last().opened,
        );
        lemma_no_reentry(
            before.0,
            before.1,
            told.last().event,
            config,
            wallet,
            told.last().now,
            told.last().opened,
        );
    }
}

/// New candidates are looked for only while the book has room.
pub proof fn lemma_discovery_needs_room(
    state: CycleView,
    book: Seq<Position>,
    event: CycleEvent,
    config: BotConfig,
    wallet: Address,
    now: i64,
    opened: Position,
)
    requires
        cycle_transition(state, book, event, config, wallet, now, opened).2 is Discover,
    ensures
        cycle_transition(state, book, event, config, wallet, now, opened).1.len()
            < config.strategy.max_positions,
{
    match (state.phase, event) {
        (CyclePhase::Discovering, CycleEvent::Discovered { trending, latest }) => {
            match discovery(trending, latest, config, now) {
                Ok(found) => {
                    let fresh = CycleView { candidates: found, approved: Seq::empty(), ..state };
                    lemma_enter_from_is_clear(fresh, book, config, 0);
                    lemma_evaluate_never_discovers(fresh, book, config, 0);
                },
                Err(_) => {},
            }
        },
        (CyclePhase::Evaluating, CycleEvent::Profiled(None)) => {
            lemma_evaluate_never_discovers(state, book, config, state.cursor + 1);
        },
        (CyclePhase::Evaluating, CycleEvent::Profiled(Some(security))) => {
            let candidate = state.candidates[state.cursor as int];
            let score = risk_score(candidate, security, config) as u64;
            let more = CycleView {
                approved: state.approved.push(Approved { index: state.cursor as usize, score }),
                ..state
            };
            lemma_evaluate_never_discovers(state, book, config, state.cursor + 1);
            lemma_evaluate_never_discovers(more, book, config, state.cursor + 1);
        },
        (CyclePhase::PlanningExits, CycleEvent::Valued(Ok(pass))) => {
            if covers(pass, book) {
                match exit_orders(
                    book,
                    pass.valued(),
                    config.exchange.max_slippage_bps,
                    book.len(),
                ) {
                    Ok(orders) => {
                        lemma_exit_never_discovers(
                            CycleView { orders, ..state },
                            book,
                            config,
                            wallet,
                            now,
                            0,
                        );
                    },
                    Err(_) => {},
                }
            }
        },
        (CyclePhase::Exiting, CycleEvent::Exited(Err(_))) => {
            lemma_exit_never_discovers(state, book, config, wallet, now, state.cursor + 1);
        },
        (CyclePhase::Exiting, CycleEvent::Exited(Ok(_))) => {
            lemma_exit_never_discovers(
                state,
                without(book, state.orders[state.cursor as int].position_id),
                config,
                wallet,
                now,
                state.cursor + 1,
            );
        },
        _ => {},
    }
}

/// Going on with the evaluating never asks for a discovery.
pub proof fn lemma_evaluate_never_discovers(
    state: CycleView,
    book: Seq<Position>,
    config: BotConfig,
    from: nat,
)
    ensures
        !(evaluate_from(state, book, config, from).2 is Discover),
{
}

/// Going on with the selling never asks for a discovery.
pub proof fn lemma_exit_never_discovers(
    state: CycleView,
    book: Seq<Position>,
    config: BotConfig,
    wallet: Address,
    now: i64,
    from: nat,
)
    ensures
        !(exit_from(state, book, config, wallet, now, from).2 is Discover),
    decreases state.orders.len() - from,
{
    if from < state.orders.len() {
        if exit_begin(config, wallet, state.orders[from as int], now).is_err() {
            lemma_exit_never_discovers(state, book, config, wallet, now, from + 1);
        }
    }
}

} // verus!
