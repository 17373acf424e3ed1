//! Position book: the open positions, what they were bought for, what they are
//! worth, and when they are to be sold.
//!
//! Dollar values are whole numbers of millionths.

use crate::address::{write_hash, Address};
use crate::amount::{slippage_floor, valuation, Amount};
use crate::config::BotConfig;
use crate::engine::scanner::GemCandidate;
use crate::engine::trader::{ExecutionResult, ExitOrder, ExitReason};
use crate::engine::valuation::{holding_of, holdings_of, Revaluation, Valued, ValuationError};
use std::collections::HashMap;
use vstd::prelude::*;

verus! {

/// One open position.
#[derive(Clone, Debug)]
pub struct Position {
    pub id: u128,
    pub token: Address,
    pub base_token: Address,
    pub token_symbol: String,
    pub base_spent: Amount,
    pub token_amount: Amount,
    /// Price of the token at entry, in trillionths of a dollar.
    pub entry_token_price_usd: u64,
    /// Price of the base asset at entry, in millionths of a dollar.
    pub entry_base_price_usd: u64,
    pub base_token_decimals: u8,
    pub entry_timestamp: i64,
    pub last_value_usd: u64,
    pub last_updated_at: i64,
    /// Risk score at entry, in millionths of a point.
    pub risk_score: u64,
    pub take_profit_bps: u32,
    pub stop_loss_bps: u32,
    pub entry_tx: String,
}

/// Why the book refused an operation.
#[derive(Clone, Copy, Debug, PartialEq, Eq, Structural)]
pub enum PortfolioError {
    /// The book holds no position of that identifier.
    NotFound,
}

/// What a position was bought for, in millionths of a dollar, where it can be told.
pub open spec fn entry_value(position: Position) -> Option<u64> {
    valuation(
        position.base_spent@,
        position.base_token_decimals,
        position.entry_base_price_usd,
    )
}

/// The position that an entry opens.
pub open spec fn opened_position(
    id: u128,
    candidate: GemCandidate,
    execution: ExecutionResult,
    risk_score: u64,
    take_profit_bps: u32,
    stop_loss_bps: u32,
    entry_base_price_usd: u64,
    base_token_decimals: u8,
    entry_tx: String,
) -> Position {
    Position {
        id,
        token: candidate.token_address,
        base_token: candidate.base_token,
        token_symbol: candidate.token_symbol,
        base_spent: execution.base_spent,
        token_amount: execution.tokens_acquired,
        entry_token_price_usd: candidate.price_usd,
        entry_base_price_usd,
        base_token_decimals,
        entry_timestamp: execution.timestamp,
        last_value_usd: match valuation(
            execution.base_spent@,
            base_token_decimals,
            entry_base_price_usd,
        ) {
            Some(v) => v,
            None => 0,
        },
        last_updated_at: execution.timestamp,
        risk_score,
        take_profit_bps,
        stop_loss_bps,
        entry_tx,
    }
}

/// A fresh position identifier, by `Uuid::new_v4` of the uuid crate: 128 bits of
/// which 122 are random, so nothing is promised of them.
#[verifier::external_body]
pub(crate) fn fresh_id() -> (r: u128) {
    uuid::Uuid::new_v4().as_u128()
}

impl Position {
    /// The position that an entry opens, under an identifier of the caller's choice.
    ///
    /// It is first valued at what was paid for it, or at nothing where that cannot
    /// be told.
    pub fn with_id(
        id: u128,
        candidate: &GemCandidate,
        execution: ExecutionResult,
        risk_score: u64,
        take_profit_bps: u32,
        stop_loss_bps: u32,
        entry_base_price_usd: u64,
        base_token_decimals: u8,
    ) -> (r: Position)
        ensures
            r == opened_position(
                id,
                *candidate,
                execution,
                risk_score,
                take_profit_bps,
                stop_loss_bps,
                entry_base_price_usd,
                base_token_decimals,
                r.entry_tx,
            ),
            r.entry_tx@ == crate::address::hash_text(execution.tx_hash),
    {
        let entry_value_usd: u64 = match execution.base_spent.value_usd(
            base_token_decimals,
            entry_base_price_usd,
        ) {
            Ok(v) => v,
            Err(_) => 0,
        };
        Position {
            id,
            token: candidate.token_address,
            base_token: candidate.base_token,
            token_symbol: candidate.token_symbol.clone(),
            base_spent: execution.base_spent,
            token_amount: execution.tokens_acquired,
            entry_token_price_usd: candidate.price_usd,
            entry_base_price_usd,
            base_token_decimals,
            entry_timestamp: execution.timestamp,
            last_value_usd: entry_value_usd,
            last_updated_at: execution.timestamp,
            risk_score,
            take_profit_bps,
            stop_loss_bps,
            entry_tx: write_hash(execution.tx_hash),
        }
    }

    /// The position that an entry opens, under a fresh random identifier.
    pub fn from_execution(
        candidate: &GemCandidate,
        execution: ExecutionResult,
        risk_score: u64,
        take_profit_bps: u32,
        stop_loss_bps: u32,
        entry_base_price_usd: u64,
        base_token_decimals: u8,
    ) -> (r: Position)
        ensures
            r == opened_position(
                r.id,
                *candidate,
                execution,
                risk_score,
                take_profit_bps,
                stop_loss_bps,
                entry_base_price_usd,
                base_token_decimals,
                r.entry_tx,
            ),
            r.entry_tx@ == crate::address::hash_text(execution.tx_hash),
    {
        Position::with_id(
            fresh_id(),
            candidate,
            execution,
            risk_score,
            take_profit_bps,
            stop_loss_bps,
            entry_base_price_usd,
            base_token_decimals,
        )
    }

    /// What the position was bought for, in millionths of a dollar, where it can
    /// be told.
    pub fn entry_value_usd(&self) -> (r: Option<u64>)
        ensures
            r == entry_value(*self),
    {
        match self.base_spent.value_usd(self.base_token_decimals, self.entry_base_price_usd) {
            Ok(v) => Some(v),
            Err(_) => None,
        }
    }

    /// A copy of the position.
    pub fn duplicate(&self) -> (r: Position)
        ensures
            r == *self,
    {
        Position {
            id: self.id,
            token: self.token,
            base_token: self.base_token,
            token_symbol: self.token_symbol.clone(),
            base_spent: self.base_spent,
            token_amount: self.token_amount,
            entry_token_price_usd: self.entry_token_price_usd,
            entry_base_price_usd: self.entry_base_price_usd,
            base_token_decimals: self.base_token_decimals,
            entry_timestamp: self.entry_timestamp,
            last_value_usd: self.last_value_usd,
            last_updated_at: self.last_updated_at,
            risk_score: self.risk_score,
            take_profit_bps: self.take_profit_bps,
            stop_loss_bps: self.stop_loss_bps,
            entry_tx: self.entry_tx.clone(),
        }
    }
}

/// The open positions, kept by identifier, and walked in the order in which they
/// were opened. No two of them share an identifier.
#[derive(Clone, Debug)]
pub struct Portfolio {
    /// The open positions, each under its identifier.
    positions: HashMap<u128, Position>,
    /// The identifiers, in the order in which the positions were opened.
    order: Vec<u128>,
}

/// Whether no two positions share an identifier.
pub open spec fn distinct_ids(positions: Seq<Position>) -> bool {
    forall|i: int, j: int|
        0 <= i < j < positions.len() ==> positions[i].id != positions[j].id
}

/// Whether some position has the identifier.
pub open spec fn has_id(positions: Seq<Position>, id: u128) -> bool {
    exists|i: int| 0 <= i < positions.len() && (#[trigger] positions[i]).id == id
}

/// Where the position of an identifier stands: the first index that has it.
pub open spec fn index_of_id(positions: Seq<Position>, id: u128) -> int
    decreases positions.len(),
{
    if positions.len() == 0 || positions[0].id == id {
        0
    } else {
        1 + index_of_id(positions.drop_first(), id)
    }
}

/// Whether some position is in the token.
pub open spec fn holds(positions: Seq<Position>, token: Address) -> bool {
    exists|i: int| 0 <= i < positions.len() && (#[trigger] positions[i]).token == token
}

/// Whether no two positions are in the same token.
pub open spec fn distinct_tokens(positions: Seq<Position>) -> bool {
    forall|i: int, j: int|
        0 <= i < j < positions.len() ==> positions[i].token != positions[j].token
}

/// The positions after one is booked: it takes the place of the one that has its
/// identifier, or comes last where none has.
pub open spec fn booked(positions: Seq<Position>, position: Position) -> Seq<Position> {
    if has_id(positions, position.id) {
        positions.update(index_of_id(positions, position.id), position)
    } else {
        positions.push(position)
    }
}

/// The positions that a stored list restores: each one booked in turn.
pub open spec fn restored(stored: Seq<Position>) -> Seq<Position>
    decreases stored.len(),
{
    if stored.len() == 0 {
        Seq::empty()
    } else {
        booked(restored(stored.drop_last()), stored.last())
    }
}

/// The first index that has an identifier is the only one where identifiers differ.
pub proof fn lemma_index_of_id(positions: Seq<Position>, id: u128, k: int)
    requires
        0 <= k < positions.len(),
        positions[k].id == id,
        forall|j: int| 0 <= j < k ==> positions[j].id != id,
    ensures
        index_of_id(positions, id) == k,
    decreases k,
{
    if k > 0 {
        let rest = positions.drop_first();
        assert forall|j: int| 0 <= j < k - 1 implies rest[j].id != id by {
            assert(rest[j] == positions[j + 1]);
        }
        lemma_index_of_id(rest, id, k - 1);
    }
}

/// Where an identifier is found, it is found at its index.
pub proof fn lemma_index_of_id_found(positions: Seq<Position>, id: u128)
    requires
        has_id(positions, id),
    ensures
        0 <= index_of_id(positions, id) < positions.len(),
        positions[index_of_id(positions, id)].id == id,
    decreases positions.len(),
{
    if positions[0].id != id {
        let rest = positions.drop_first();
        let k = choose|k: int| 0 <= k < positions.len() && (#[trigger] positions[k]).id == id;
        assert(rest[k - 1] == positions[k]);
        lemma_index_of_id_found(rest, id);
        assert(rest[index_of_id(rest, id)] == positions[index_of_id(rest, id) + 1]);
    }
}

/// A position in a token that the book does not hold can be booked without two
/// positions coming to be in one token.
pub proof fn lemma_booked_apart(positions: Seq<Position>, position: Position)
    requires
        distinct_tokens(positions),
        !holds(positions, position.token),
    ensures
        distinct_tokens(booked(positions, position)),
{
    let after = booked(positions, position);
    if has_id(positions, position.id) {
        lemma_index_of_id_found(positions, position.id);
    }
    assert forall|i: int, j: int| 0 <= i < j < after.len() implies after[i].token
        != after[j].token by {
        if after[i] != position {
            assert(after[i] == positions[i]);
        }
        if after[j] != position {
            assert(after[j] == positions[j]);
        }
    }
}

/// Booking keeps identifiers distinct.
pub proof fn lemma_booked_distinct(positions: Seq<Position>, position: Position)
    requires
        distinct_ids(positions),
    ensures
        distinct_ids(booked(positions, position)),
        has_id(booked(positions, position), position.id),
{
    let after = booked(positions, position);
    if has_id(positions, position.id) {
        let k = choose|k: int| 0 <= k < positions.len() && (#[trigger] positions[k]).id
            == position.id;
        assert forall|j: int| 0 <= j < k implies positions[j].id != position.id by {}
        lemma_index_of_id(positions, position.id, k);
        assert(after[k].id == position.id);
    } else {
        assert(after[positions.len() as int].id == position.id);
    }
}

/// A list without repeated identifiers restores to itself: what a book hands out
/// for storing brings the same book back.
pub proof fn lemma_restore_roundtrip(positions: Seq<Position>)
    requires
        distinct_ids(positions),
    ensures
        restored(positions) == positions,
    decreases positions.len(),
{
    if positions.len() > 0 {
        let front = positions.drop_last();
        lemma_restore_roundtrip(front);
        let last = positions.last();
        assert(!has_id(front, last.id)) by {
            if has_id(front, last.id) {
                let k = choose|k: int| 0 <= k < front.len() && (#[trigger] front[k]).id
                    == last.id;
                assert(front[k] == positions[k]);
            }
        }
        assert(front.push(last) =~= positions);
    }
}

impl View for Portfolio {
    type V = Seq<Position>;

    closed spec fn view(&self) -> Seq<Position> {
        Seq::new(self.order@.len(), |i: int| self.positions@[self.order@[i]])
    }
}

impl Portfolio {
    /// Whether the book is in order: every position is kept under its own
    /// identifier, and the order names each position once.
    pub closed spec fn wf(&self) -> bool {
        &&& self.order@.no_duplicates()
        &&& forall|i: int|
            0 <= i < self.order@.len() ==> self.positions@.contains_key(#[trigger] self.order@[i])
                && self.positions@[self.order@[i]].id == self.order@[i]
        &&& forall|id: u128| #[trigger]
            self.positions@.contains_key(id) ==> self.order@.contains(id)
    }

    /// In a book that is in order no two positions share an identifier.
    pub proof fn lemma_distinct(&self)
        requires
            self.wf(),
        ensures
            distinct_ids(self@),
    {
    }

    /// An empty book.
    pub fn new() -> (r: Portfolio)
        ensures
            r.wf(),
            r@.len() == 0,
    {
        Portfolio { positions: HashMap::new(), order: Vec::new() }
    }

    /// The position at a place in the order.
    fn at(&self, i: usize) -> (r: &Position)
        requires
            self.wf(),
            i < self@.len(),
        ensures
            *r == self@[i as int],
            r.id == self.order@[i as int],
    {
        let found = self.positions.get(&self.order[i]);
        assert(self.positions@.contains_key(self.order@[i as int]));
        found.unwrap()
    }

    fn find(&self, id: u128) -> (r: Option<usize>)
        requires
            self.wf(),
        ensures
            r.is_some() == has_id(self@, id),
            r.is_some() == self.positions@.contains_key(id),
            r.is_some() ==> r.unwrap() == index_of_id(self@, id) && r.unwrap() < self@.len()
                && self.order@[r.unwrap() as int] == id,
    {
        let mut i: usize = 0;
        while i < self.order.len()
            invariant
                self.wf(),
                i <= self.order.len(),
                forall|j: int| 0 <= j < i ==> self.order@[j] != id,
            decreases self.order.len() - i,
        {
            if self.order[i] == id {
                proof {
                    assert forall|j: int| 0 <= j < i implies self@[j].id != id by {
                        assert(self@[j].id == self.order@[j]);
                    }
                    assert(self@[i as int].id == id);
                    lemma_index_of_id(self@, id, i as int);
                }
                return Some(i);
            }
            i = i + 1;
        }
        proof {
            assert forall|j: int| 0 <= j < self@.len() implies (#[trigger] self@[j]).id != id by {
                assert(self@[j].id == self.order@[j]);
            }
            if self.positions@.contains_key(id) {
                assert(self.order@.contains(id));
            }
        }
        None
    }

    /// The book that a stored list of positions restores; an absent store restores
    /// an empty book. Of two stored positions with one identifier the later takes
    /// the place of the earlier.
    pub fn load(stored: Option<Vec<Position>>) -> (r: Portfolio)
        ensures
            r.wf(),
            stored.is_none() ==> r@.len() == 0,
            stored.is_some() ==> r@ == restored(stored.unwrap()@),
    {
        let mut book = Portfolio::new();
        match stored {
            None => book,
            Some(records) => {
                let ghost all = records@;
                for p in it: records
                    invariant
                        it.seq() == all,
                        book.wf(),
                        book@ == restored(all.subrange(0, it.index() as int)),
                {
                    proof {
                        assert(all.subrange(0, it.index() + 1).drop_last() =~= all.subrange(
                            0,
                            it.index() as int,
                        ));
                    }
                    book.add_position(p);
                }
                proof {
                    assert(all.subrange(0, all.len() as int) =~= all);
                }
                book
            },
        }
    }

    /// The list of positions to store: all of them, in the book's order.
    pub fn persist(&self) -> (r: Vec<Position>)
        requires
            self.wf(),
        ensures
            r@ == self@,
    {
        let mut out: Vec<Position> = Vec::new();
        let mut i: usize = 0;
        while i < self.order.len()
            invariant
                self.wf(),
                i <= self.order.len(),
                out@ == self@.subrange(0, i as int),
            decreases self.order.len() - i,
        {
            out.push(self.at(i).duplicate());
            proof {
                assert(out@ =~= self@.subrange(0, i + 1));
            }
            i = i + 1;
        }
        proof {
            assert(self@.subrange(0, self.order.len() as int) =~= self@);
        }
        out
    }

    /// Books a position: in the place of the one that has its identifier, or last.
    pub fn add_position(&mut self, position: Position)
        requires
            old(self).wf(),
        ensures
            final(self).wf(),
            final(self)@ == booked(old(self)@, position),
    {
        let id = position.id;
        let ghost before = self@;
        let found = self.find(id);
        self.positions.insert(id, position);
        match found {
            Some(k) => {
                proof {
                    assert(self@ =~= before.update(k as int, position));
                }
            },
            None => {
                self.order.push(id);
                proof {
                    assert(self@ =~= before.push(position));
                    assert forall|other: u128| #[trigger]
                        self.positions@.contains_key(other) implies self.order@.contains(
                        other,
                    ) by {
                        if other == id {
                            assert(self.order@[self.order@.len() - 1] == id);
                        } else {
                            let j = choose|j: int|
                                0 <= j < old(self).order@.len() && old(self).order@[j] == other;
                            assert(self.order@[j] == other);
                        }
                    }
                }
            },
        }
    }

    /// The open positions, in the order in which they were opened.
    pub fn positions(&self) -> (r: Vec<&Position>)
        requires
            self.wf(),
        ensures
            r@.len() == self@.len(),
            forall|i: int| 0 <= i < r@.len() ==> *r@[i] == self@[i],
    {
        let mut out: Vec<&Position> = Vec::new();
        let mut i: usize = 0;
        while i < self.order.len()
            invariant
                self.wf(),
                i <= self.order.len(),
                out@.len() == i,
                forall|j: int| 0 <= j < i ==> *out@[j] == self@[j],
            decreases self.order.len() - i,
        {
            out.push(self.at(i));
            i = i + 1;
        }
        out
    }

    /// The positions that are open; a closed position leaves the book, so these are
    /// all of them.
    pub fn active_positions(&self) -> (r: Vec<&Position>)
        requires
            self.wf(),
        ensures
            r@.len() == self@.len(),
            forall|i: int| 0 <= i < r@.len() ==> *r@[i] == self@[i],
    {
        self.positions()
    }

    /// How many positions are open.
    pub fn count(&self) -> (r: usize)
        ensures
            r == self@.len(),
    {
        self.order.len()
    }

    /// Whether the book has a position in the token.
    pub fn is_holding(&self, token: &Address) -> (r: bool)
        requires
            self.wf(),
        ensures
            r == holds(self@, *token),
    {
        let mut i: usize = 0;
        while i < self.order.len()
            invariant
                self.wf(),
                i <= self.order.len(),
                forall|j: int| 0 <= j < i ==> (#[trigger] self@[j]).token != *token,
            decreases self.order.len() - i,
        {
            if self.at(i).token == *token {
                return true;
            }
            i = i + 1;
        }
        false
    }

    /// Takes the position of an identifier out of the book; fails where the book has
    /// none, and then leaves the book as it is.
    pub fn close_position(&mut self, id: u128) -> (r: Result<(), PortfolioError>)
        requires
            old(self).wf(),
        ensures
            final(self).wf(),
            has_id(old(self)@, id) ==> r.is_ok() && final(self)@ == old(self)@.remove(
                index_of_id(old(self)@, id),
            ) && !has_id(final(self)@, id),
            !has_id(old(self)@, id) ==> r == Err::<(), PortfolioError>(PortfolioError::NotFound)
                && final(self)@ == old(self)@,
    {
        match self.find(id) {
            Some(i) => {
                let ghost before = self@;
                let ghost names = self.order@;
                let _ = self.order.remove(i);
                let _ = self.positions.remove(&id);
                proof {
                    assert(self.order@ =~= names.remove(i as int));
                    assert forall|a: int| 0 <= a < self.order@.len() implies #[trigger] self.order@[a]
                        != id && names.contains(self.order@[a]) by {
                        let a0 = if a < i { a } else { a + 1 };
                        assert(self.order@[a] == names[a0]);
                    }
                    assert forall|other: u128| #[trigger]
                        self.positions@.contains_key(other) implies self.order@.contains(
                        other,
                    ) by {
                        let j = choose|j: int| 0 <= j < names.len() && names[j] == other;
                        let j1 = if j < i { j } else { j - 1 };
                        assert(self.order@[j1] == other);
                    }
                    assert(self@ =~= before.remove(i as int)) by {
                        assert forall|a: int| 0 <= a < self@.len() implies self@[a]
                            == before.remove(i as int)[a] by {
                            let a0 = if a < i { a } else { a + 1 };
                            assert(self.order@[a] == names[a0]);
                        }
                    }
                    assert forall|a: int| 0 <= a < self@.len() implies (#[trigger] self@[a]).id
                        != id by {
                        assert(self@[a].id == self.order@[a]);
                    }
                }
                Ok(())
            },
            None => Err(PortfolioError::NotFound),
        }
    }
}

/// Profit or loss in hundredths of a percent of what was paid, rounded down: the
/// current value over the entry value, less one, times ten thousand.
pub open spec fn pnl_bps(current: int, entry: int) -> int
    recommends
        entry > 0,
{
    (current - entry) * 10_000 / entry
}

/// Whether the profit has reached a threshold given in hundredths of a percent. The
/// threshold itself counts as reached.
pub open spec fn profit_reached(current: int, entry: int, threshold_bps: int) -> bool {
    entry > 0 && (current - entry) * 10_000 >= threshold_bps * entry
}

/// Whether the loss has reached a threshold given in hundredths of a percent. The
/// threshold itself counts as reached.
pub open spec fn loss_reached(current: int, entry: int, threshold_bps: int) -> bool {
    entry > 0 && (current - entry) * 10_000 <= -(threshold_bps * entry)
}

/// A position worth what was paid for it has neither gained nor lost.
pub proof fn lemma_pnl_of_equal_values(value: int)
    requires
        value > 0,
    ensures
        pnl_bps(value, value) == 0,
{
    assert(0int / value == 0) by (nonlinear_arith)
        requires
            value > 0,
    ;
}

/// A position worth twice what was paid for it has gained a hundred percent.
pub proof fn lemma_pnl_of_doubled_value(value: int)
    requires
        value > 0,
    ensures
        pnl_bps(2 * value, value) == 10_000,
{
    assert((2 * value - value) * 10_000 / value == 10_000) by (nonlinear_arith)
        requires
            value > 0,
    ;
}

/// The profit has reached a threshold exactly where the rounded profit is at least
/// the threshold.
pub proof fn lemma_profit_reached_is_pnl(current: int, entry: int, threshold_bps: int)
    requires
        entry > 0,
    ensures
        profit_reached(current, entry, threshold_bps) == (pnl_bps(current, entry)
            >= threshold_bps),
{
    let n = (current - entry) * 10_000;
    assert((n >= threshold_bps * entry) == (n / entry >= threshold_bps)) by (nonlinear_arith)
        requires
            entry > 0,
    ;
}

/// A profit that equals the threshold to the hundredth of a percent has reached it.
pub proof fn lemma_profit_boundary_is_inclusive(current: int, entry: int, threshold_bps: int)
    requires
        entry > 0,
        (current - entry) * 10_000 == threshold_bps * entry,
    ensures
        profit_reached(current, entry, threshold_bps),
        pnl_bps(current, entry) == threshold_bps,
{
    lemma_profit_reached_is_pnl(current, entry, threshold_bps);
    lemma_profit_reached_is_pnl(current, entry, threshold_bps + 1);
    assert(!((current - entry) * 10_000 >= (threshold_bps + 1) * entry)) by (nonlinear_arith)
        requires
            entry > 0,
            (current - entry) * 10_000 == threshold_bps * entry,
    ;
}

/// A loss that has reached a threshold shows in the rounded profit, and a rounded
/// profit below the threshold means that the loss has reached it.
pub proof fn lemma_loss_reached_is_pnl(current: int, entry: int, threshold_bps: int)
    requires
        entry > 0,
    ensures
        loss_reached(current, entry, threshold_bps) ==> pnl_bps(current, entry)
            <= -threshold_bps,
        pnl_bps(current, entry) < -threshold_bps ==> loss_reached(
            current,
            entry,
            threshold_bps,
        ),
{
    let n = (current - entry) * 10_000;
    assert(n <= -(threshold_bps * entry) ==> n / entry <= -threshold_bps) by (nonlinear_arith)
        requires
            entry > 0,
    ;
    assert(n / entry < -threshold_bps ==> n <= -(threshold_bps * entry)) by (nonlinear_arith)
        requires
            entry > 0,
    ;
}

/// With a threshold above nothing on either side, profit and loss are not reached
/// at once.
pub proof fn lemma_not_both(current: int, entry: int, profit_bps: int, loss_bps: int)
    requires
        profit_bps >= 0,
        loss_bps >= 0,
        profit_bps + loss_bps > 0,
    ensures
        !(profit_reached(current, entry, profit_bps) && loss_reached(current, entry, loss_bps)),
{
    if entry > 0 {
        assert(profit_bps * entry >= 0 && loss_bps * entry >= 0 && (profit_bps + loss_bps) * entry
            > 0 && (profit_bps + loss_bps) * entry == profit_bps * entry + loss_bps * entry)
            by (nonlinear_arith)
            requires
                entry > 0,
                profit_bps >= 0,
                loss_bps >= 0,
                profit_bps + loss_bps > 0,
        ;
    }
}

/// Profit or loss of a value against an entry value, in hundredths of a percent,
/// rounded down; nothing where the entry value is nothing.
pub fn profit_and_loss(current: u64, entry: u64) -> (r: Option<i128>)
    ensures
        entry == 0 ==> r.is_none(),
        entry > 0 ==> r == Some(pnl_bps(current as int, entry as int) as i128),
        entry > 0 ==> -10_000 <= pnl_bps(current as int, entry as int) <= (u64::MAX as int)
            * 10_000,
{
    if entry == 0 {
        return None;
    }
    let e: i128 = entry as i128;
    let n: i128 = (current as i128 - e) * 10_000;
    proof {
        assert(-10_000 <= n / e <= (u64::MAX as int) * 10_000 && n >= -(e * 10_000))
            by (nonlinear_arith)
            requires
                e > 0,
                n == (current as int - e) * 10_000,
                0 <= current <= u64::MAX,
                e <= u64::MAX,
        ;
    }
    if n >= 0 {
        Some(n / e)
    } else {
        let m: i128 = -n;
        let q: i128 = (m + e - 1) / e;
        proof {
            assert(n / e == -q) by (nonlinear_arith)
                requires
                    e > 0,
                    n < 0,
                    m == -n,
                    q == (m + e - 1) / (e as int),
            ;
        }
        Some(-q)
    }
}

fn has_profit(current: u64, entry: u64, threshold_bps: u32) -> (r: bool)
    ensures
        r == profit_reached(current as int, entry as int, threshold_bps as int),
{
    if entry == 0 {
        return false;
    }
    assert(0 <= threshold_bps * entry <= 0xffff_ffff * 0xffff_ffff_ffff_ffff) by (nonlinear_arith)
        requires
            0 <= threshold_bps <= 0xffff_ffff,
            0 < entry <= 0xffff_ffff_ffff_ffff,
    ;
    let n: i128 = (current as i128 - entry as i128) * 10_000;
    let t: i128 = (threshold_bps as i128) * (entry as i128);
    n >= t
}

fn has_loss(current: u64, entry: u64, threshold_bps: u32) -> (r: bool)
    ensures
        r == loss_reached(current as int, entry as int, threshold_bps as int),
{
    if entry == 0 {
        return false;
    }
    assert(0 <= threshold_bps * entry <= 0xffff_ffff * 0xffff_ffff_ffff_ffff) by (nonlinear_arith)
        requires
            0 <= threshold_bps <= 0xffff_ffff,
            0 < entry <= 0xffff_ffff_ffff_ffff,
    ;
    let n: i128 = (current as i128 - entry as i128) * 10_000;
    let t: i128 = (threshold_bps as i128) * (entry as i128);
    n <= -t
}

/// Whether a pass is finished and was made over these positions.
pub open spec fn covers(pass: Revaluation, positions: Seq<Position>) -> bool {
    pass.complete() && pass.holdings() == holdings_of(positions)
}

/// A position with its value brought up to date.
pub open spec fn revalued_position(position: Position, value_usd: u64, now: i64) -> Position {
    Position { last_value_usd: value_usd, last_updated_at: now, ..position }
}

/// The positions with their values brought up to date.
pub open spec fn revalued(positions: Seq<Position>, valued: Seq<Valued>, now: i64) -> Seq<
    Position,
> {
    Seq::new(positions.len(), |i: int| revalued_position(positions[i], valued[i].value_usd, now))
}

/// Bringing values up to date leaves every position in its token.
pub proof fn lemma_revalued_apart(positions: Seq<Position>, valued: Seq<Valued>, now: i64)
    requires
        distinct_tokens(positions),
    ensures
        distinct_tokens(revalued(positions, valued, now)),
{
    let after = revalued(positions, valued, now);
    assert forall|i: int, j: int| 0 <= i < j < after.len() implies after[i].token
        != after[j].token by {
        assert(after[i].token == positions[i].token);
        assert(after[j].token == positions[j].token);
    }
}

/// The order that sells a position.
pub open spec fn exit_order(position: Position, min_output: Amount, reason: ExitReason)
    -> ExitOrder {
    ExitOrder {
        position_id: position.id,
        token_address: position.token,
        base_token: position.base_token,
        token_amount: position.token_amount,
        min_output,
        reason,
    }
}

/// What is to be done with a position, given what a pass has learned of it.
///
/// A position whose entry value is nothing, or cannot be told, is left alone.
/// Otherwise the least output of its sale is the quoted proceeds less the tolerated
/// slippage, and it is sold where its profit has reached its take-profit threshold
/// or, failing that, its loss has reached its stop-loss threshold.
pub open spec fn exit_decision(position: Position, valued: Valued, slippage_bps: u16) -> Result<
    Option<ExitOrder>,
    ValuationError,
> {
    match entry_value(position) {
        None => Ok(None),
        Some(entry) => if entry == 0 {
            Ok(None)
        } else {
            match slippage_floor(valued.proceeds, slippage_bps) {
                Err(e) => Err(ValuationError::Slippage(e)),
                Ok(min_output) => if profit_reached(
                    valued.value_usd as int,
                    entry as int,
                    position.take_profit_bps as int,
                ) {
                    Ok(Some(exit_order(position, min_output, ExitReason::TakeProfit)))
                } else if loss_reached(
                    valued.value_usd as int,
                    entry as int,
                    position.stop_loss_bps as int,
                ) {
                    Ok(Some(exit_order(position, min_output, ExitReason::StopLoss)))
                } else {
                    Ok(None)
                },
            }
        },
    }
}

/// The orders that the first `n` positions call for, in the positions' order; the
/// first position whose least output cannot be computed makes the whole fail.
pub open spec fn exit_orders(
    positions: Seq<Position>,
    valued: Seq<Valued>,
    slippage_bps: u16,
    n: nat,
) -> Result<Seq<ExitOrder>, ValuationError>
    decreases n,
{
    if n == 0 {
        Ok(Seq::empty())
    } else {
        match exit_orders(positions, valued, slippage_bps, (n - 1) as nat) {
            Err(e) => Err(e),
            Ok(orders) => match exit_decision(positions[n - 1], valued[n - 1], slippage_bps) {
                Err(e) => Err(e),
                Ok(None) => Ok(orders),
                Ok(Some(order)) => Ok(orders.push(order)),
            },
        }
    }
}

/// No position is sold unless what was paid for it is known and more than nothing.
pub proof fn lemma_exit_needs_entry_value(position: Position, valued: Valued, slippage_bps: u16)
    requires
        exit_decision(position, valued, slippage_bps) matches Ok(Some(_)),
    ensures
        entry_value(position).is_some(),
        entry_value(position).unwrap() > 0,
        exit_decision(position, valued, slippage_bps).unwrap().unwrap().position_id
            == position.id,
{
}

/// Whether an order is for one of the positions, and for one whose entry value is
/// known and more than nothing.
pub open spec fn backed(positions: Seq<Position>, order: ExitOrder) -> bool {
    exists|i: int|
        0 <= i < positions.len() && (#[trigger] positions[i]).id == order.position_id
            && entry_value(positions[i]).is_some() && entry_value(positions[i]).unwrap() > 0
}

/// Every order is for one of the positions, and for one whose entry value is known
/// and more than nothing.
pub proof fn lemma_orders_need_entry_value(
    positions: Seq<Position>,
    valued: Seq<Valued>,
    slippage_bps: u16,
    n: nat,
    k: int,
)
    requires
        n <= positions.len(),
        exit_orders(positions, valued, slippage_bps, n).is_ok(),
        0 <= k < exit_orders(positions, valued, slippage_bps, n).unwrap().len(),
    ensures
        backed(positions, exit_orders(positions, valued, slippage_bps, n).unwrap()[k]),
    decreases n,
{
    if n > 0 {
        let before = exit_orders(positions, valued, slippage_bps, (n - 1) as nat);
        let orders = before.unwrap();
        if k < orders.len() {
            lemma_orders_need_entry_value(positions, valued, slippage_bps, (n - 1) as nat, k);
        } else {
            lemma_exit_needs_entry_value(positions[n - 1], valued[n - 1], slippage_bps);
            assert(positions[n - 1].id == exit_orders(
                positions,
                valued,
                slippage_bps,
                n,
            ).unwrap()[k].position_id);
        }
    }
}

/// A position whose profit equals its take-profit threshold is sold, and sold for
/// profit.
pub proof fn lemma_take_profit_at_threshold(position: Position, valued: Valued, slippage_bps: u16)
    requires
        entry_value(position).is_some(),
        entry_value(position).unwrap() > 0,
        slippage_floor(valued.proceeds, slippage_bps).is_ok(),
        (valued.value_usd - entry_value(position).unwrap()) * 10_000 == position.take_profit_bps
            * entry_value(position).unwrap(),
    ensures
        exit_decision(position, valued, slippage_bps) == Ok::<Option<ExitOrder>, ValuationError>(
            Some(
                exit_order(
                    position,
                    slippage_floor(valued.proceeds, slippage_bps).unwrap(),
                    ExitReason::TakeProfit,
                ),
            ),
        ),
{
}

/// Once a position fails, the positions behind it change nothing.
pub proof fn lemma_exit_failure_is_final(
    positions: Seq<Position>,
    valued: Seq<Valued>,
    slippage_bps: u16,
    k: nat,
    n: nat,
)
    requires
        k <= n,
        exit_orders(positions, valued, slippage_bps, k).is_err(),
    ensures
        exit_orders(positions, valued, slippage_bps, n) == exit_orders(
            positions,
            valued,
            slippage_bps,
            k,
        ),
    decreases n - k,
{
    if k < n {
        lemma_exit_failure_is_final(positions, valued, slippage_bps, k, (n - 1) as nat);
    }
}

fn decide_exit(position: &Position, valued: &Valued, slippage_bps: u16) -> (r: Result<
    Option<ExitOrder>,
    ValuationError,
>)
    ensures
        r == exit_decision(*position, *valued, slippage_bps),
{
    let entry: u64 = match position.entry_value_usd() {
        Some(e) => e,
        None => { return Ok(None); },
    };
    if entry == 0 {
        return Ok(None);
    }
    let min_output = match valued.proceeds.min_output(slippage_bps) {
        Ok(m) => m,
        Err(e) => { return Err(ValuationError::Slippage(e)); },
    };
    let reason = if has_profit(valued.value_usd, entry, position.take_profit_bps) {
        ExitReason::TakeProfit
    } else if has_loss(valued.value_usd, entry, position.stop_loss_bps) {
        ExitReason::StopLoss
    } else {
        return Ok(None);
    };
    Ok(
        Some(
            ExitOrder {
                position_id: position.id,
                token_address: position.token,
                base_token: position.base_token,
                token_amount: position.token_amount,
                min_output,
                reason,
            },
        ),
    )
}

impl Portfolio {
    fn is_covered_by(&self, pass: &Revaluation) -> (r: bool)
        requires
            self.wf(),
            pass.wf(),
        ensures
            r == covers(*pass, self@),
    {
        let targets = pass.targets();
        if !pass.is_complete() || targets.len() != self.order.len() {
            return false;
        }
        let mut i: usize = 0;
        while i < self.order.len()
            invariant
                self.wf(),
                i <= self.order.len(),
                targets@ == pass.holdings(),
                targets@.len() == self@.len(),
                forall|j: int| 0 <= j < i ==> targets@[j] == holding_of(self@[j]),
            decreases self.order.len() - i,
        {
            let h = targets[i];
            let p = self.at(i);
            if !(h.id == p.id && h.token == p.token && h.base_token == p.base_token
                && h.token_amount == p.token_amount) {
                proof {
                    assert(holdings_of(self@)[i as int] == holding_of(self@[i as int]));
                }
                return false;
            }
            i = i + 1;
        }
        proof {
            assert(targets@ =~= holdings_of(self@));
        }
        true
    }

    /// Brings the value of every position up to date from a finished pass, and marks
    /// each as seen at `now`.
    ///
    /// A pass that is not finished, or was made over other positions, is refused,
    /// and the book stays as it is: either all values are brought up to date or none.
    pub fn refresh_positions(&mut self, pass: &Revaluation, now: i64) -> (r: Result<
        (),
        ValuationError,
    >)
        requires
            old(self).wf(),
            pass.wf(),
        ensures
            final(self).wf(),
            covers(*pass, old(self)@) ==> r.is_ok() && final(self)@ == revalued(
                old(self)@,
                pass.valued(),
                now,
            ),
            !covers(*pass, old(self)@) ==> r == Err::<(), ValuationError>(ValuationError::Stale)
                && final(self)@ == old(self)@,
    {
        if !self.is_covered_by(pass) {
            return Err(ValuationError::Stale);
        }
        let values = pass.results();
        let ghost before = self@;
        let ghost names = self.order@;
        let mut i: usize = 0;
        while i < self.order.len()
            invariant
                self.wf(),
                self.order@ == names,
                i <= self.order.len(),
                values@ == pass.valued(),
                values@.len() == before.len(),
                self@.len() == before.len(),
                forall|j: int|
                    0 <= j < i ==> self@[j] == revalued_position(
                        before[j],
                        values@[j].value_usd,
                        now,
                    ),
                forall|j: int| i <= j < before.len() ==> self@[j] == before[j],
            decreases self.order.len() - i,
        {
            let id = self.order[i];
            let ghost held = self@;
            let mut p = self.at(i).duplicate();
            p.last_value_usd = values[i].value_usd;
            p.last_updated_at = now;
            let ghost fresh = p;
            self.positions.insert(id, p);
            proof {
                assert(held[i as int] == before[i as int]);
                assert(fresh == revalued_position(
                    before[i as int],
                    values@[i as int].value_usd,
                    now,
                ));
                assert(self@[i as int] == fresh);
                assert forall|j: int| 0 <= j < i + 1 implies self@[j] == revalued_position(
                    before[j],
                    values@[j].value_usd,
                    now,
                ) by {
                    if j < i {
                        assert(names[j] != names[i as int]);
                        assert(self@[j] == held[j]);
                    }
                }
                assert forall|j: int| i + 1 <= j < before.len() implies self@[j] == before[j] by {
                    assert(names[j] != names[i as int]);
                    assert(self@[j] == held[j]);
                }
            }
            i = i + 1;
        }
        proof {
            assert(self@ =~= revalued(before, pass.valued(), now));
        }
        Ok(())
    }

    /// The orders that sell what is due to be sold, given a finished pass over the
    /// book: for each position in turn, what [`exit_decision`] says.
    ///
    /// A pass that is not finished, or was made over other positions, is refused.
    pub fn generate_exit_orders(&self, pass: &Revaluation, config: &BotConfig) -> (r: Result<
        Vec<ExitOrder>,
        ValuationError,
    >)
        requires
            self.wf(),
            pass.wf(),
        ensures
            !covers(*pass, self@) ==> r == Err::<Vec<ExitOrder>, ValuationError>(
                ValuationError::Stale,
            ),
            covers(*pass, self@) ==> match r {
                Ok(orders) => exit_orders(
                    self@,
                    pass.valued(),
                    config.exchange.max_slippage_bps,
                    self@.len(),
                ) == Ok::<Seq<ExitOrder>, ValuationError>(orders@),
                Err(e) => exit_orders(
                    self@,
                    pass.valued(),
                    config.exchange.max_slippage_bps,
                    self@.len(),
                ) == Err::<Seq<ExitOrder>, ValuationError>(e),
            },
            r matches Ok(orders) ==> forall|k: int|
                0 <= k < orders@.len() ==> backed(self@, #[trigger] orders@[k]),
    {
        if !self.is_covered_by(pass) {
            return Err(ValuationError::Stale);
        }
        let values = pass.results();
        let slippage_bps: u16 = config.slippage_bps();
        let mut orders: Vec<ExitOrder> = Vec::new();
        let mut i: usize = 0;
        while i < self.order.len()
            invariant
                self.wf(),
                i <= self.order.len(),
                covers(*pass, self@),
                values@ == pass.valued(),
                values@.len() == self@.len(),
                slippage_bps == config.exchange.max_slippage_bps,
                exit_orders(self@, values@, slippage_bps, i as nat) == Ok::<
                    Seq<ExitOrder>,
                    ValuationError,
                >(orders@),
            decreases self.order.len() - i,
        {
            match decide_exit(self.at(i), &values[i], slippage_bps) {
                Err(e) => {
                    proof {
                        lemma_exit_failure_is_final(
                            self@,
                            values@,
                            slippage_bps,
                            (i + 1) as nat,
                            self@.len(),
                        );
                    }
                    return Err(e);
                },
                Ok(None) => {},
                Ok(Some(order)) => {
                    orders.push(order);
                },
            }
            i = i + 1;
        }
        proof {
            assert forall|k: int| 0 <= k < orders@.len() implies backed(
                self@,
                #[trigger] orders@[k],
            ) by {
                lemma_orders_need_entry_value(self@, values@, slippage_bps, self@.len(), k);
            }
        }
        Ok(orders)
    }
}

/// One position as the monitoring surface shows it.
#[derive(Clone, Debug)]
pub struct PositionSnapshot {
    pub id: u128,
    pub token: Address,
    pub base_token: Address,
    pub token_symbol: String,
    /// What was paid, in millionths of a dollar; nothing where it cannot be told.
    pub entry_value_usd: u64,
    pub current_value_usd: u64,
    /// Profit or loss in hundredths of a percent, rounded down; nothing where the
    /// entry value is nothing.
    pub pnl_bps: i128,
    pub risk_score: u64,
    pub entry_timestamp: i64,
    pub last_updated_at: i64,
    pub entry_tx: String,
}

/// The book as the monitoring surface shows it.
#[derive(Clone, Debug)]
pub struct PortfolioSnapshot {
    pub total_positions: usize,
    /// Sum of the positions' last values, in millionths of a dollar.
    pub total_value_usd: u128,
    pub positions: Vec<PositionSnapshot>,
}

/// The entry value that is shown for a position.
pub open spec fn shown_entry_value(position: Position) -> u64 {
    match entry_value(position) {
        Some(v) => v,
        None => 0,
    }
}

/// The profit or loss that is shown for a position.
pub open spec fn shown_pnl(position: Position) -> int {
    if shown_entry_value(position) > 0 {
        pnl_bps(position.last_value_usd as int, shown_entry_value(position) as int)
    } else {
        0
    }
}

/// What is shown of a position.
pub open spec fn snapshot_of(position: Position) -> PositionSnapshot {
    PositionSnapshot {
        id: position.id,
        token: position.token,
        base_token: position.base_token,
        token_symbol: position.token_symbol,
        entry_value_usd: shown_entry_value(position),
        current_value_usd: position.last_value_usd,
        pnl_bps: shown_pnl(position) as i128,
        risk_score: position.risk_score,
        entry_timestamp: position.entry_timestamp,
        last_updated_at: position.last_updated_at,
        entry_tx: position.entry_tx,
    }
}

/// The sum of the last values of some positions.
pub open spec fn total_value(positions: Seq<Position>) -> nat
    decreases positions.len(),
{
    if positions.len() == 0 {
        0
    } else {
        total_value(positions.drop_last()) + positions.last().last_value_usd as nat
    }
}

/// The sum of the values of some positions is at most as many times the largest
/// value there is.
pub proof fn lemma_total_value_bound(positions: Seq<Position>)
    ensures
        total_value(positions) <= positions.len() * (u64::MAX as nat),
    decreases positions.len(),
{
    if positions.len() > 0 {
        lemma_total_value_bound(positions.drop_last());
        assert((positions.len() - 1) * (u64::MAX as nat) + (u64::MAX as nat) == positions.len()
            * (u64::MAX as nat)) by (nonlinear_arith);
    }
}

impl Portfolio {
    /// The book as the monitoring surface shows it: every position with its entry
    /// value, its last value and its profit or loss, and the sum of the last values.
    pub fn snapshot(&self) -> (r: PortfolioSnapshot)
        requires
            self.wf(),
        ensures
            r.total_positions == self@.len(),
            r.total_value_usd == total_value(self@),
            r.positions@.len() == self@.len(),
            forall|i: int| 0 <= i < self@.len() ==> r.positions@[i] == snapshot_of(self@[i]),
    {
        let mut total: u128 = 0;
        let mut shown: Vec<PositionSnapshot> = Vec::new();
        let mut i: usize = 0;
        while i < self.order.len()
            invariant
                self.wf(),
                i <= self.order.len(),
                shown@.len() == i,
                total == total_value(self@.subrange(0, i as int)),
                forall|j: int| 0 <= j < i ==> shown@[j] == snapshot_of(self@[j]),
            decreases self.order.len() - i,
        {
            let p = self.at(i);
            proof {
                let next = self@.subrange(0, i + 1);
                assert(next.drop_last() =~= self@.subrange(0, i as int));
                lemma_total_value_bound(next);
                assert(next.len() * (u64::MAX as nat) <= usize::MAX * (u64::MAX as nat))
                    by (nonlinear_arith)
                    requires
                        next.len() <= usize::MAX,
                ;
                assert(usize::MAX * (u64::MAX as nat) <= u64::MAX * (u64::MAX as nat))
                    by (nonlinear_arith)
                    requires
                        usize::MAX <= u64::MAX,
                ;
            }
            total = total + p.last_value_usd as u128;
            let entry: u64 = match p.entry_value_usd() {
                Some(v) => v,
                None => 0,
            };
            let pnl: i128 = match profit_and_loss(p.last_value_usd, entry) {
                Some(v) => v,
                None => 0,
            };
            shown.push(
                PositionSnapshot {
                    id: p.id,
                    token: p.token,
                    base_token: p.base_token,
                    token_symbol: p.token_symbol.clone(),
                    entry_value_usd: entry,
                    current_value_usd: p.last_value_usd,
                    pnl_bps: pnl,
                    risk_score: p.risk_score,
                    entry_timestamp: p.entry_timestamp,
                    last_updated_at: p.last_updated_at,
                    entry_tx: p.entry_tx.clone(),
                },
            );
            i = i + 1;
        }
        proof {
            assert(self@.subrange(0, self.order.len() as int) =~= self@);
        }
        PortfolioSnapshot { total_positions: shown.len(), total_value_usd: total, positions: shown }
    }
}

} // verus!
