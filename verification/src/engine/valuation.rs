//! Revaluation: one pass over the position book that asks the outside world what
//! each position would fetch, and remembers what it was told.
//!
//! The pass asks for one thing at a time. The caller gets it and hands it back; a
//! lookup that failed is handed back as nothing. The price and the precision of a
//! base asset are asked for once in a pass, however many positions share the asset.

use crate::address::Address;
use crate::amount::{valuation, Amount};
use crate::engine::portfolio::{Portfolio, Position};
use vstd::prelude::*;

verus! {

/// What a pass needs to know of a position.
#[derive(Clone, Copy, Debug, PartialEq, Eq, Structural)]
pub struct Holding {
    pub id: u128,
    pub token: Address,
    pub base_token: Address,
    pub token_amount: Amount,
}

/// What was learned of a base asset.
#[derive(Clone, Copy, Debug, PartialEq, Eq, Structural)]
pub struct BaseQuote {
    pub base: Address,
    /// Price in millionths of a dollar.
    pub price_usd: u64,
    pub decimals: u8,
}

/// What was learned of a position.
#[derive(Clone, Copy, Debug, PartialEq, Eq, Structural)]
pub struct Valued {
    pub id: u128,
    /// The base asset that selling the position is quoted at.
    pub proceeds: Amount,
    /// The worth of the proceeds in millionths of a dollar.
    pub value_usd: u64,
}

/// What a pass asks for next.
#[derive(Clone, Copy, Debug, PartialEq, Eq, Structural)]
pub enum ValuationRequest {
    /// The dollar price and the decimal places of a base asset.
    BaseAsset(Address),
    /// What selling `amount` of `token` for `base` would fetch.
    SaleQuote { token: Address, amount: Amount, base: Address },
    /// Nothing: every position is valued.
    Complete,
}

/// Why a valuation failed.
#[derive(Clone, Copy, Debug, PartialEq, Eq, Structural)]
pub enum ValuationError {
    /// The price of a base asset could not be had.
    PriceUnavailable(Address),
    /// The decimal places of a base asset could not be had.
    DecimalsUnavailable(Address),
    /// The sale of a token could not be quoted.
    QuoteUnavailable(Address),
    /// The worth of a position cannot be told in the numbers at hand.
    Unrepresentable(u128),
    /// An answer was given to another question than the one asked.
    OutOfTurn,
    /// The pass is not finished, or was made over another book.
    Stale,
    /// The least output of a sale could not be computed.
    Slippage(crate::amount::ArithmeticError),
}

/// The progress of one pass.
#[derive(Clone, Debug)]
pub struct Revaluation {
    holdings: Vec<Holding>,
    quotes: Vec<BaseQuote>,
    valued: Vec<Valued>,
}

/// What a pass needs to know of a position.
pub open spec fn holding_of(position: Position) -> Holding {
    Holding {
        id: position.id,
        token: position.token,
        base_token: position.base_token,
        token_amount: position.token_amount,
    }
}

/// What a pass needs to know of the positions of a book.
pub open spec fn holdings_of(positions: Seq<Position>) -> Seq<Holding> {
    Seq::new(positions.len(), |i: int| holding_of(positions[i]))
}

/// Whether a base asset has been learned of.
pub open spec fn knows(quotes: Seq<BaseQuote>, base: Address) -> bool {
    exists|i: int| 0 <= i < quotes.len() && (#[trigger] quotes[i]).base == base
}

/// Whether no base asset was learned of twice.
pub open spec fn distinct_bases(quotes: Seq<BaseQuote>) -> bool {
    forall|i: int, j: int| 0 <= i < j < quotes.len() ==> quotes[i].base != quotes[j].base
}

/// What was learned of a base asset.
pub open spec fn quote_of(quotes: Seq<BaseQuote>, base: Address) -> BaseQuote {
    quotes[choose|i: int| 0 <= i < quotes.len() && (#[trigger] quotes[i]).base == base]
}

/// Whether what was learned of a position is what its base asset's price and the
/// quoted proceeds make it worth.
pub open spec fn rightly_valued(holding: Holding, valued: Valued, quotes: Seq<BaseQuote>) -> bool {
    &&& valued.id == holding.id
    &&& knows(quotes, holding.base_token)
    &&& valuation(
        valued.proceeds@,
        quote_of(quotes, holding.base_token).decimals,
        quote_of(quotes, holding.base_token).price_usd,
    ) == Some(valued.value_usd)
}

/// Among distinct base assets, what was learned of one is found at any place that
/// bears its name.
pub proof fn lemma_quote_of(quotes: Seq<BaseQuote>, base: Address, k: int)
    requires
        distinct_bases(quotes),
        0 <= k < quotes.len(),
        quotes[k].base == base,
    ensures
        knows(quotes, base),
        quote_of(quotes, base) == quotes[k],
{
    let j = choose|i: int| 0 <= i < quotes.len() && (#[trigger] quotes[i]).base == base;
    assert(j == k);
}

/// Learning of one more base asset changes nothing of what was learned before.
pub proof fn lemma_quotes_grow(quotes: Seq<BaseQuote>, fresh: BaseQuote, base: Address)
    requires
        distinct_bases(quotes),
        !knows(quotes, fresh.base),
        knows(quotes, base),
    ensures
        distinct_bases(quotes.push(fresh)),
        knows(quotes.push(fresh), base),
        quote_of(quotes.push(fresh), base) == quote_of(quotes, base),
{
    let k = choose|i: int| 0 <= i < quotes.len() && (#[trigger] quotes[i]).base == base;
    let more = quotes.push(fresh);
    assert forall|i: int, j: int| 0 <= i < j < more.len() implies more[i].base != more[j].base by {
        if j == quotes.len() {
            assert(more[i] == quotes[i]);
        }
    }
    assert(more[k] == quotes[k]);
    lemma_quote_of(more, base, k);
    lemma_quote_of(quotes, base, k);
}

impl Revaluation {
    /// The positions that the pass is made over.
    pub closed spec fn holdings(&self) -> Seq<Holding> {
        self.holdings@
    }

    /// What the pass has learned of base assets, in the order in which it asked.
    pub closed spec fn quotes(&self) -> Seq<BaseQuote> {
        self.quotes@
    }

    /// What the pass has learned of positions: of the first so many, in their order.
    pub closed spec fn valued(&self) -> Seq<Valued> {
        self.valued@
    }

    /// Whether the pass is in order: it has valued no more positions than there
    /// are, each rightly, and has learned of no base asset twice.
    pub open spec fn wf(&self) -> bool {
        &&& self.valued().len() <= self.holdings().len()
        &&& distinct_bases(self.quotes())
        &&& forall|i: int|
            0 <= i < self.valued().len() ==> rightly_valued(
                #[trigger] self.holdings()[i],
                self.valued()[i],
                self.quotes(),
            )
    }

    /// What the pass asks for next: of the first position not yet valued, its base
    /// asset where that is not known yet, else the quote of its sale.
    pub open spec fn pending(&self) -> ValuationRequest {
        if self.valued().len() >= self.holdings().len() {
            ValuationRequest::Complete
        } else {
            let h = self.holdings()[self.valued().len() as int];
            if knows(self.quotes(), h.base_token) {
                ValuationRequest::SaleQuote {
                    token: h.token,
                    amount: h.token_amount,
                    base: h.base_token,
                }
            } else {
                ValuationRequest::BaseAsset(h.base_token)
            }
        }
    }

    /// The first position that is not valued yet.
    pub open spec fn current(&self) -> Holding {
        self.holdings()[self.valued().len() as int]
    }

    /// Whether every position is valued.
    pub open spec fn complete(&self) -> bool {
        self.valued().len() == self.holdings().len()
    }

    /// A pass over a book, with nothing learned yet.
    pub fn begin(book: &Portfolio) -> (r: Revaluation)
        requires
            book.wf(),
        ensures
            r.wf(),
            r.holdings() == holdings_of(book@),
            r.quotes().len() == 0,
            r.valued().len() == 0,
    {
        let positions = book.positions();
        let mut holdings: Vec<Holding> = Vec::new();
        let mut i: usize = 0;
        while i < positions.len()
            invariant
                i <= positions.len(),
                holdings@.len() == i,
                positions@.len() == book@.len(),
                forall|j: int| 0 <= j < positions@.len() ==> *positions@[j] == book@[j],
                forall|j: int| 0 <= j < i ==> holdings@[j] == holding_of(book@[j]),
            decreases positions.len() - i,
        {
            let p = positions[i];
            holdings.push(
                Holding {
                    id: p.id,
                    token: p.token,
                    base_token: p.base_token,
                    token_amount: p.token_amount,
                },
            );
            i = i + 1;
        }
        proof {
            assert(holdings@ =~= holdings_of(book@));
        }
        Revaluation { holdings, quotes: Vec::new(), valued: Vec::new() }
    }

    fn find_quote(&self, base: Address) -> (r: Option<BaseQuote>)
        requires
            distinct_bases(self.quotes()),
        ensures
            r.is_some() == knows(self.quotes(), base),
            r.is_some() ==> r.unwrap() == quote_of(self.quotes(), base),
    {
        let mut i: usize = 0;
        while i < self.quotes.len()
            invariant
                i <= self.quotes.len(),
                distinct_bases(self.quotes@),
                forall|j: int| 0 <= j < i ==> (#[trigger] self.quotes@[j]).base != base,
            decreases self.quotes.len() - i,
        {
            if self.quotes[i].base == base {
                proof {
                    lemma_quote_of(self.quotes@, base, i as int);
                }
                return Some(self.quotes[i]);
            }
            i = i + 1;
        }
        None
    }

    /// What the pass asks for next.
    pub fn next_request(&self) -> (r: ValuationRequest)
        requires
            self.wf(),
        ensures
            r == self.pending(),
            r matches ValuationRequest::BaseAsset(base) ==> !knows(self.quotes(), base),
    {
        if self.valued.len() >= self.holdings.len() {
            return ValuationRequest::Complete;
        }
        let h = self.holdings[self.valued.len()];
        match self.find_quote(h.base_token) {
            Some(_) => ValuationRequest::SaleQuote {
                token: h.token,
                amount: h.token_amount,
                base: h.base_token,
            },
            None => ValuationRequest::BaseAsset(h.base_token),
        }
    }

    /// Whether every position is valued.
    pub fn is_complete(&self) -> (r: bool)
        requires
            self.wf(),
        ensures
            r == self.complete(),
    {
        self.valued.len() == self.holdings.len()
    }

    /// What the pass has learned of positions.
    pub fn results(&self) -> (r: &Vec<Valued>)
        ensures
            r@ == self.valued(),
    {
        &self.valued
    }

    /// The positions that the pass is made over.
    pub fn targets(&self) -> (r: &Vec<Holding>)
        ensures
            r@ == self.holdings(),
    {
        &self.holdings
    }

    /// Takes what was found out about the base asset that was asked for.
    ///
    /// Without a price, and without the decimal places, the pass fails and stays
    /// where it is, so that it never completes. Given while something else was
    /// asked for, the answer is refused.
    pub fn supply_base(&mut self, price: Option<u64>, decimals: Option<u8>) -> (r: Result<
        (),
        ValuationError,
    >)
        requires
            old(self).wf(),
        ensures
            final(self).wf(),
            final(self).holdings() == old(self).holdings(),
            final(self).valued() == old(self).valued(),
            r.is_err() ==> final(self).quotes() == old(self).quotes(),
            match old(self).pending() {
                ValuationRequest::BaseAsset(base) => match (price, decimals) {
                    (Some(p), Some(d)) => r.is_ok() && final(self).quotes() == old(self).quotes().push(BaseQuote { base, price_usd: p, decimals: d }),
                    (None, _) => r == Err::<(), ValuationError>(
                        ValuationError::PriceUnavailable(base),
                    ),
                    (Some(_), None) => r == Err::<(), ValuationError>(
                        ValuationError::DecimalsUnavailable(base),
                    ),
                },
                _ => r == Err::<(), ValuationError>(ValuationError::OutOfTurn),
            },
    {
        match self.next_request() {
            ValuationRequest::BaseAsset(base) => {
                let p = match price {
                    Some(p) => p,
                    None => { return Err(ValuationError::PriceUnavailable(base)); },
                };
                let d = match decimals {
                    Some(d) => d,
                    None => { return Err(ValuationError::DecimalsUnavailable(base)); },
                };
                let fresh = BaseQuote { base, price_usd: p, decimals: d };
                proof {
                    let quotes = self.quotes@;
                    assert forall|i: int| 0 <= i < self.valued@.len() implies rightly_valued(
                        #[trigger] self.holdings@[i],
                        self.valued@[i],
                        quotes.push(fresh),
                    ) by {
                        lemma_quotes_grow(quotes, fresh, self.holdings@[i].base_token);
                    }
                    let more = quotes.push(fresh);
                    assert forall|i: int, j: int| 0 <= i < j < more.len() implies more[i].base
                        != more[j].base by {
                        if j == quotes.len() {
                            assert(more[i] == quotes[i]);
                        }
                    }
                }
                self.quotes.push(fresh);
                Ok(())
            },
            _ => Err(ValuationError::OutOfTurn),
        }
    }

    /// Takes the quote that was asked for.
    ///
    /// Without a quote the pass fails and stays where it is, as it does where the
    /// worth of the proceeds cannot be told. Given while something else was asked
    /// for, the answer is refused.
    pub fn supply_quote(&mut self, proceeds: Option<Amount>) -> (r: Result<(), ValuationError>)
        requires
            old(self).wf(),
        ensures
            final(self).wf(),
            final(self).holdings() == old(self).holdings(),
            final(self).quotes() == old(self).quotes(),
            r.is_err() ==> final(self).valued() == old(self).valued(),
            match old(self).pending() {
                ValuationRequest::SaleQuote { token, amount, base } => match proceeds {
                    Some(a) => match valuation(
                        a@,
                        quote_of(old(self).quotes(), base).decimals,
                        quote_of(old(self).quotes(), base).price_usd,
                    ) {
                        Some(v) => r.is_ok() && final(self).valued() == old(self).valued().push(
                            Valued {
                                id: old(self).current().id,
                                proceeds: a,
                                value_usd: v,
                            },
                        ),
                        None => r == Err::<(), ValuationError>(
                            ValuationError::Unrepresentable(
                                old(self).current().id,
                            ),
                        ),
                    },
                    None => r == Err::<(), ValuationError>(
                        ValuationError::QuoteUnavailable(token),
                    ),
                },
                _ => r == Err::<(), ValuationError>(ValuationError::OutOfTurn),
            },
    {
        match self.next_request() {
            ValuationRequest::SaleQuote { token, amount: _, base } => {
                let a = match proceeds {
                    Some(a) => a,
                    None => { return Err(ValuationError::QuoteUnavailable(token)); },
                };
                let h = self.holdings[self.valued.len()];
                let q = match self.find_quote(base) {
                    Some(q) => q,
                    None => { return Err(ValuationError::OutOfTurn); },
                };
                match a.value_usd(q.decimals, q.price_usd) {
                    Ok(v) => {
                        let fresh = Valued { id: h.id, proceeds: a, value_usd: v };
                        proof {
                            let n = self.valued@.len() as int;
                            let more = self.valued@.push(fresh);
                            assert forall|i: int| 0 <= i < more.len() implies rightly_valued(
                                #[trigger] self.holdings@[i],
                                more[i],
                                self.quotes@,
                            ) by {
                                if i < n {
                                    assert(more[i] == self.valued@[i]);
                                }
                            }
                        }
                        self.valued.push(fresh);
                        Ok(())
                    },
                    Err(_) => Err(ValuationError::Unrepresentable(h.id)),
                }
            },
            _ => Err(ValuationError::OutOfTurn),
        }
    }
}

} // verus!
