//! Quotes for routes: what a route pays out after its fee, how much that moves
//! the price, and which of several routes is best.
//!
//! Fees and price impacts are in basis points; 100 of them are one percent.

use vstd::prelude::*;
use vstd::string::*;

use crate::address::Address;
use crate::soroban::Env;
use crate::table::Table;

verus! {

/// The largest fee: all of the input.
pub const MAX_BPS: u32 = 10_000;

/// The fee of a route before any fee has been set.
pub const FALLBACK_FEE_BPS: u32 = 100;

/// A question for a quote.
#[derive(Debug, PartialEq, Eq)]
pub struct QuoteRequest {
    pub route: String,
    pub token_in: Address,
    pub token_out: Address,
    pub amount_in: i128,
}

/// What a request says.
pub struct RequestView {
    pub route: Seq<char>,
    pub token_in: Address,
    pub token_out: Address,
    pub amount_in: i128,
}

impl View for QuoteRequest {
    type V = RequestView;

    open spec fn view(&self) -> RequestView {
        RequestView {
            route: self.route@,
            token_in: self.token_in,
            token_out: self.token_out,
            amount_in: self.amount_in,
        }
    }
}

/// A quote.
#[derive(Debug, PartialEq, Eq)]
pub struct QuoteResponse {
    pub route: String,
    pub token_in: Address,
    pub token_out: Address,
    pub amount_in: i128,
    /// What is left after the fee.
    pub amount_out: i128,
    /// The fee, in units of the input token.
    pub fee_amount: i128,
    pub fee_bps: u32,
    /// `fee_amount * 10_000 / amount_in`.
    pub price_impact_bps: i128,
}

/// What a quote says.
pub struct QuoteView {
    pub route: Seq<char>,
    pub token_in: Address,
    pub token_out: Address,
    pub amount_in: i128,
    pub amount_out: i128,
    pub fee_amount: i128,
    pub fee_bps: u32,
    pub price_impact_bps: i128,
}

impl View for QuoteResponse {
    type V = QuoteView;

    open spec fn view(&self) -> QuoteView {
        QuoteView {
            route: self.route@,
            token_in: self.token_in,
            token_out: self.token_out,
            amount_in: self.amount_in,
            amount_out: self.amount_out,
            fee_amount: self.fee_amount,
            fee_bps: self.fee_bps,
            price_impact_bps: self.price_impact_bps,
        }
    }
}

impl QuoteResponse {
    fn copy(&self) -> (quote: QuoteResponse)
        ensures
            quote@ == self@,
    {
        QuoteResponse {
            route: self.route.clone(),
            token_in: self.token_in,
            token_out: self.token_out,
            amount_in: self.amount_in,
            amount_out: self.amount_out,
            fee_amount: self.fee_amount,
            fee_bps: self.fee_bps,
            price_impact_bps: self.price_impact_bps,
        }
    }
}

/// Why a call was refused.
#[derive(Clone, Copy, Debug, PartialEq, Eq, Structural)]
pub enum QuoteError {
    AlreadyInitialized,
    NotInitialized,
    Unauthorized,
    InvalidAmount,
    InvalidFeeBps,
    NoQuotesProvided,
    RouteNotFound,
    /// The threshold is not between 0 and 10 000.
    InvalidPriceImpactBps,
}

impl QuoteError {
    /// The number under which the contract reports the error.
    pub open spec fn number(self) -> u32 {
        match self {
            QuoteError::AlreadyInitialized => 1,
            QuoteError::NotInitialized => 2,
            QuoteError::Unauthorized => 3,
            QuoteError::InvalidAmount => 4,
            QuoteError::InvalidFeeBps => 5,
            QuoteError::NoQuotesProvided => 6,
            QuoteError::RouteNotFound => 7,
            QuoteError::InvalidPriceImpactBps => 8,
        }
    }

    /// The number under which the contract reports the error.
    pub fn code(&self) -> (code: u32)
        ensures
            code == self.number(),
    {
        match self {
            QuoteError::AlreadyInitialized => 1,
            QuoteError::NotInitialized => 2,
            QuoteError::Unauthorized => 3,
            QuoteError::InvalidAmount => 4,
            QuoteError::InvalidFeeBps => 5,
            QuoteError::NoQuotesProvided => 6,
            QuoteError::RouteNotFound => 7,
            QuoteError::InvalidPriceImpactBps => 8,
        }
    }
}

/// What the quote contract tells the world.
#[derive(Debug, PartialEq, Eq)]
pub enum QuoteEvent {
    Initialized { admin: Address, default_fee_bps: u32 },
    RouteFeeSet { route: String, fee_bps: u32 },
    QuoteCalculated { route: String, amount_out: i128, fee_amount: i128, price_impact_bps: i128 },
    BestQuoteSelected { route: String, amount_out: i128 },
    QuotesCompared { count: u32, max_price_impact_bps: i128 },
    DefaultFeeUpdated { fee_bps: u32 },
    AdminTransferred { current: Address, new_admin: Address },
}

/// What an event says.
pub enum QuoteEventView {
    Initialized { admin: Address, default_fee_bps: u32 },
    RouteFeeSet { route: Seq<char>, fee_bps: u32 },
    QuoteCalculated {
        route: Seq<char>,
        amount_out: i128,
        fee_amount: i128,
        price_impact_bps: i128,
    },
    BestQuoteSelected { route: Seq<char>, amount_out: i128 },
    QuotesCompared { count: u32, max_price_impact_bps: i128 },
    DefaultFeeUpdated { fee_bps: u32 },
    AdminTransferred { current: Address, new_admin: Address },
}

impl View for QuoteEvent {
    type V = QuoteEventView;

    open spec fn view(&self) -> QuoteEventView {
        match *self {
            QuoteEvent::Initialized { admin, default_fee_bps } => {
                QuoteEventView::Initialized { admin, default_fee_bps }
            },
            QuoteEvent::RouteFeeSet { route, fee_bps } => {
                QuoteEventView::RouteFeeSet { route: route@, fee_bps }
            },
            QuoteEvent::QuoteCalculated { route, amount_out, fee_amount, price_impact_bps } => {
                QuoteEventView::QuoteCalculated {
                    route: route@,
                    amount_out,
                    fee_amount,
                    price_impact_bps,
                }
            },
            QuoteEvent::BestQuoteSelected { route, amount_out } => {
                QuoteEventView::BestQuoteSelected { route: route@, amount_out }
            },
            QuoteEvent::QuotesCompared { count, max_price_impact_bps } => {
                QuoteEventView::QuotesCompared { count, max_price_impact_bps }
            },
            QuoteEvent::DefaultFeeUpdated { fee_bps } => {
                QuoteEventView::DefaultFeeUpdated { fee_bps }
            },
            QuoteEvent::AdminTransferred { current, new_admin } => {
                QuoteEventView::AdminTransferred { current, new_admin }
            },
        }
    }
}

/// What each event says.
pub open spec fn event_views(events: Seq<QuoteEvent>) -> Seq<QuoteEventView> {
    events.map_values(|e: QuoteEvent| e@)
}

impl QuoteEventView {
    /// The name under which the event is published.
    pub open spec fn name(self) -> Seq<char> {
        match self {
            QuoteEventView::Initialized { .. } => "initialized"@,
            QuoteEventView::RouteFeeSet { .. } => "route_fee_set"@,
            QuoteEventView::QuoteCalculated { .. } => "quote_calculated"@,
            QuoteEventView::BestQuoteSelected { .. } => "best_quote_selected"@,
            QuoteEventView::QuotesCompared { .. } => "quotes_compared"@,
            QuoteEventView::DefaultFeeUpdated { .. } => "default_fee_updated"@,
            QuoteEventView::AdminTransferred { .. } => "admin_transferred"@,
        }
    }
}

impl QuoteEvent {
    /// The name under which the event is published.
    pub fn topic(&self) -> (topic: &'static str)
        ensures
            topic@ == self@.name(),
    {
        match self {
            QuoteEvent::Initialized { .. } => "initialized",
            QuoteEvent::RouteFeeSet { .. } => "route_fee_set",
            QuoteEvent::QuoteCalculated { .. } => "quote_calculated",
            QuoteEvent::BestQuoteSelected { .. } => "best_quote_selected",
            QuoteEvent::QuotesCompared { .. } => "quotes_compared",
            QuoteEvent::DefaultFeeUpdated { .. } => "default_fee_updated",
            QuoteEvent::AdminTransferred { .. } => "admin_transferred",
        }
    }
}

/// What the quote contract remembers.
#[verifier::ext_equal]
pub struct QuoteState {
    pub admin: Option<Address>,
    pub default_fee: Option<u32>,
    pub route_fees: Map<Seq<char>, u32>,
    pub events: Seq<QuoteEventView>,
}

impl QuoteState {
    /// A contract that nobody has initialized.
    pub open spec fn fresh() -> QuoteState {
        QuoteState {
            admin: None,
            default_fee: None,
            route_fees: Map::empty(),
            events: Seq::empty(),
        }
    }

    /// The fee of routes that have none of their own.
    pub open spec fn general_fee(self) -> u32 {
        match self.default_fee {
            Some(fee) => fee,
            None => FALLBACK_FEE_BPS,
        }
    }

    /// The fee of a route.
    pub open spec fn fee_of(self, route: Seq<char>) -> u32 {
        if self.route_fees.contains_key(route) {
            self.route_fees[route]
        } else {
            self.general_fee()
        }
    }

    /// Why `caller` is not let through as admin.
    pub open spec fn admin_refusal(self, caller: Address) -> Option<QuoteError> {
        match self.admin {
            None => Some(QuoteError::NotInitialized),
            Some(admin) => if admin == caller {
                None
            } else {
                Some(QuoteError::Unauthorized)
            },
        }
    }

    /// After an event has been published.
    pub open spec fn publish(self, event: QuoteEventView) -> QuoteState {
        QuoteState { events: self.events.push(event), ..self }
    }

    /// After events have been published.
    pub open spec fn publish_all(self, events: Seq<QuoteEventView>) -> QuoteState {
        QuoteState { events: self.events + events, ..self }
    }

    /// No fee takes more than all of the input.
    pub open spec fn fees_in_range(self) -> bool {
        &&& self.general_fee() <= MAX_BPS
        &&& forall|route: Seq<char>| #[trigger]
            self.route_fees.contains_key(route) ==> self.route_fees[route] <= MAX_BPS
    }
}

/// What `initialize` does.
pub open spec fn initialize_step(s: QuoteState, admin: Address, default_fee_bps: u32) -> Result<
    QuoteState,
    QuoteError,
> {
    if s.admin is Some {
        Err(QuoteError::AlreadyInitialized)
    } else if default_fee_bps > MAX_BPS {
        Err(QuoteError::InvalidFeeBps)
    } else {
        Ok(
            (QuoteState { admin: Some(admin), default_fee: Some(default_fee_bps), ..s }).publish(
                QuoteEventView::Initialized { admin, default_fee_bps },
            ),
        )
    }
}

/// What `set_route_fee` does.
pub open spec fn set_route_fee_step(
    s: QuoteState,
    caller: Address,
    route: Seq<char>,
    fee_bps: u32,
) -> Result<QuoteState, QuoteError> {
    match s.admin_refusal(caller) {
        Some(e) => Err(e),
        None => if fee_bps > MAX_BPS {
            Err(QuoteError::InvalidFeeBps)
        } else {
            Ok(
                (QuoteState { route_fees: s.route_fees.insert(route, fee_bps), ..s }).publish(
                    QuoteEventView::RouteFeeSet { route, fee_bps },
                ),
            )
        },
    }
}

/// What `set_default_fee` does.
pub open spec fn set_default_fee_step(s: QuoteState, caller: Address, fee_bps: u32) -> Result<
    QuoteState,
    QuoteError,
> {
    match s.admin_refusal(caller) {
        Some(e) => Err(e),
        None => if fee_bps > MAX_BPS {
            Err(QuoteError::InvalidFeeBps)
        } else {
            Ok(
                (QuoteState { default_fee: Some(fee_bps), ..s }).publish(
                    QuoteEventView::DefaultFeeUpdated { fee_bps },
                ),
            )
        },
    }
}

/// What `transfer_admin` does.
pub open spec fn transfer_admin_step(s: QuoteState, current: Address, new_admin: Address) -> Result<
    QuoteState,
    QuoteError,
> {
    match s.admin_refusal(current) {
        Some(e) => Err(e),
        None => Ok(
            (QuoteState { admin: Some(new_admin), ..s }).publish(
                QuoteEventView::AdminTransferred { current, new_admin },
            ),
        ),
    }
}

/// The fee on an amount. Where the product is too large to compute with, there
/// is none.
pub open spec fn fee_on(amount: int, fee_bps: int) -> int {
    if amount * fee_bps <= i128::MAX {
        amount * fee_bps / 10_000
    } else {
        0
    }
}

/// The price impact of a fee, in basis points of the amount.
pub open spec fn impact_of(fee: int, amount: int) -> int {
    fee * 10_000 / amount
}

/// The quote for a request with a positive amount.
pub open spec fn quote_for(s: QuoteState, request: RequestView) -> QuoteView {
    let fee_bps = s.fee_of(request.route);
    let fee = fee_on(request.amount_in as int, fee_bps as int);
    QuoteView {
        route: request.route,
        token_in: request.token_in,
        token_out: request.token_out,
        amount_in: request.amount_in,
        amount_out: (request.amount_in - fee) as i128,
        fee_amount: fee as i128,
        fee_bps,
        price_impact_bps: impact_of(fee, request.amount_in as int) as i128,
    }
}

/// The event that tells of a quote.
pub open spec fn quote_event(q: QuoteView) -> QuoteEventView {
    QuoteEventView::QuoteCalculated {
        route: q.route,
        amount_out: q.amount_out,
        fee_amount: q.fee_amount,
        price_impact_bps: q.price_impact_bps,
    }
}

/// The quotes for requests, in their order.
pub open spec fn quotes_for(s: QuoteState, requests: Seq<RequestView>) -> Seq<QuoteView> {
    requests.map_values(|r: RequestView| quote_for(s, r))
}

/// Why a list of requests is refused.
pub open spec fn requests_refusal(requests: Seq<RequestView>) -> Option<QuoteError> {
    if requests.len() == 0 {
        Some(QuoteError::NoQuotesProvided)
    } else if exists|i: int| 0 <= i < requests.len() && (#[trigger] requests[i]).amount_in <= 0 {
        Some(QuoteError::InvalidAmount)
    } else {
        None
    }
}

/// After the quotes for requests have been computed: one event for each.
pub open spec fn quoted(s: QuoteState, requests: Seq<RequestView>) -> QuoteState {
    s.publish_all(quotes_for(s, requests).map_values(|q: QuoteView| quote_event(q)))
}

/// The quote that pays out most; the first of them where several do.
pub open spec fn best_of(quotes: Seq<QuoteView>) -> QuoteView
    decreases quotes.len(),
{
    if quotes.len() <= 1 {
        quotes[0]
    } else {
        let best = best_of(quotes.drop_last());
        if quotes.last().amount_out > best.amount_out {
            quotes.last()
        } else {
            best
        }
    }
}

/// `item` put in front of the first quote of `ranked` that pays out no more.
pub open spec fn rank_in(ranked: Seq<QuoteView>, item: QuoteView) -> Seq<QuoteView>
    decreases ranked.len(),
{
    if ranked.len() == 0 {
        seq![item]
    } else if item.amount_out >= ranked[0].amount_out {
        seq![item] + ranked
    } else {
        seq![ranked[0]] + rank_in(ranked.drop_first(), item)
    }
}

/// The quotes by what they pay out, the best first. Of quotes that pay out the
/// same, the later one comes first.
pub open spec fn ranking(quotes: Seq<QuoteView>) -> Seq<QuoteView>
    decreases quotes.len(),
{
    if quotes.len() == 0 {
        Seq::empty()
    } else {
        rank_in(ranking(quotes.drop_last()), quotes.last())
    }
}

/// The quotes whose price impact is within the threshold.
pub open spec fn passing(quotes: Seq<QuoteView>, max_price_impact_bps: int) -> Seq<QuoteView>
    decreases quotes.len(),
{
    if quotes.len() == 0 {
        Seq::empty()
    } else {
        let rest = passing(quotes.drop_last(), max_price_impact_bps);
        if quotes.last().price_impact_bps <= max_price_impact_bps {
            rest.push(quotes.last())
        } else {
            rest
        }
    }
}

/// Why `compare_quotes` is refused: the threshold is looked at first.
pub open spec fn compare_refusal(requests: Seq<RequestView>, max_price_impact_bps: i128) -> Option<
    QuoteError,
> {
    if max_price_impact_bps < 0 || max_price_impact_bps > 10_000 {
        Some(QuoteError::InvalidPriceImpactBps)
    } else {
        requests_refusal(requests)
    }
}

/// What `compare_quotes` returns.
pub open spec fn compared(
    s: QuoteState,
    requests: Seq<RequestView>,
    max_price_impact_bps: i128,
) -> Seq<QuoteView> {
    ranking(passing(quotes_for(s, requests), max_price_impact_bps as int))
}

/// What `get_quote` returns, and the state after it.
pub open spec fn get_quote_step(s: QuoteState, request: RequestView) -> (
    Result<QuoteView, QuoteError>,
    QuoteState,
) {
    if request.amount_in <= 0 {
        (Err(QuoteError::InvalidAmount), s)
    } else {
        (Ok(quote_for(s, request)), s.publish(quote_event(quote_for(s, request))))
    }
}

/// What `get_quotes` returns, and the state after it.
pub open spec fn get_quotes_step(s: QuoteState, requests: Seq<RequestView>) -> (
    Result<Seq<QuoteView>, QuoteError>,
    QuoteState,
) {
    match requests_refusal(requests) {
        Some(e) => (Err(e), s),
        None => (Ok(quotes_for(s, requests)), quoted(s, requests)),
    }
}

/// What `get_best_quote` returns, and the state after it.
pub open spec fn get_best_quote_step(s: QuoteState, requests: Seq<RequestView>) -> (
    Result<QuoteView, QuoteError>,
    QuoteState,
) {
    match requests_refusal(requests) {
        Some(e) => (Err(e), s),
        None => {
            let best = best_of(quotes_for(s, requests));
            (
                Ok(best),
                quoted(s, requests).publish(
                    QuoteEventView::BestQuoteSelected {
                        route: best.route,
                        amount_out: best.amount_out,
                    },
                ),
            )
        },
    }
}

/// What `compare_quotes` returns, and the state after it.
pub open spec fn compare_quotes_step(
    s: QuoteState,
    requests: Seq<RequestView>,
    max_price_impact_bps: i128,
) -> (Result<Seq<QuoteView>, QuoteError>, QuoteState) {
    match compare_refusal(requests, max_price_impact_bps) {
        Some(e) => (Err(e), s),
        None => {
            let quotes = compared(s, requests, max_price_impact_bps);
            (
                Ok(quotes),
                quoted(s, requests).publish(
                    QuoteEventView::QuotesCompared {
                        count: quotes.len() as u32,
                        max_price_impact_bps,
                    },
                ),
            )
        },
    }
}

/// What one quote that was returned says, or why there is none.
pub open spec fn quote_result(result: Result<QuoteResponse, QuoteError>) -> Result<
    QuoteView,
    QuoteError,
> {
    match result {
        Ok(quote) => Ok(quote@),
        Err(e) => Err(e),
    }
}

/// What quotes that were returned say, or why there are none.
pub open spec fn quotes_result(result: Result<Vec<QuoteResponse>, QuoteError>) -> Result<
    Seq<QuoteView>,
    QuoteError,
> {
    match result {
        Ok(quotes) => Ok(quote_views(quotes@)),
        Err(e) => Err(e),
    }
}

/// Whether a call went as `step` says: to the new state, or refused with
/// nothing changed.
pub open spec fn went(
    before: QuoteState,
    after: QuoteState,
    result: Result<(), QuoteError>,
    step: Result<QuoteState, QuoteError>,
) -> bool {
    match result {
        Ok(()) => step == Ok::<QuoteState, QuoteError>(after),
        Err(e) => step == Err::<QuoteState, QuoteError>(e) && after == before,
    }
}

/// What each request says.
pub open spec fn request_views(requests: Seq<QuoteRequest>) -> Seq<RequestView> {
    requests.map_values(|r: QuoteRequest| r@)
}

/// What each quote says.
pub open spec fn quote_views(quotes: Seq<QuoteResponse>) -> Seq<QuoteView> {
    quotes.map_values(|q: QuoteResponse| q@)
}

/// The quote contract.
pub struct RouterQuote {
    admin: Option<Address>,
    default_fee: Option<u32>,
    route_fees: Table<String, u32>,
    events: Vec<QuoteEvent>,
}

impl View for RouterQuote {
    type V = QuoteState;

    closed spec fn view(&self) -> QuoteState {
        QuoteState {
            admin: self.admin,
            default_fee: self.default_fee,
            route_fees: self.route_fees@,
            events: event_views(self.events@),
        }
    }
}

/// A fee of at most all of the amount is at most the amount, and its impact at
/// most the fee.
pub(crate) proof fn lemma_product_bounds(amount: int, bps: int)
    requires
        0 < amount,
        0 <= bps <= 10_000,
    ensures
        0 <= amount * bps,
        amount * bps <= amount * 10_000,
        0 <= fee_on(amount, bps) <= amount,
        fee_on(amount, bps) * 10_000 <= i128::MAX,
        fee_on(amount, bps) * 10_000 <= amount * bps,
        0 <= impact_of(fee_on(amount, bps), amount) <= bps,
{
    assert(0 <= amount * bps) by (nonlinear_arith)
        requires
            0 < amount,
            0 <= bps,
    ;
    assert(amount * bps <= amount * 10_000) by (nonlinear_arith)
        requires
            0 < amount,
            bps <= 10_000,
    ;
    let fee = fee_on(amount, bps);
    let impact = impact_of(fee, amount);
    assert(fee * 10_000 <= amount * bps);
    assert(0 <= impact <= bps) by (nonlinear_arith)
        requires
            0 <= fee,
            0 < amount,
            fee * 10_000 <= amount * bps,
            impact == fee * 10_000 / amount,
    ;
}

/// Putting `item` in at the first place where it pays out no less than what
/// stands there is ranking it in.
proof fn lemma_rank_in_at(ranked: Seq<QuoteView>, item: QuoteView, at: int)
    requires
        0 <= at <= ranked.len(),
        forall|j: int| 0 <= j < at ==> (#[trigger] ranked[j]).amount_out > item.amount_out,
        at < ranked.len() ==> ranked[at].amount_out <= item.amount_out,
    ensures
        rank_in(ranked, item) == ranked.insert(at, item),
    decreases ranked.len(),
{
    if at == 0 {
        if ranked.len() == 0 {
            assert(ranked.insert(0, item) =~= seq![item]);
        } else {
            assert(ranked.insert(0, item) =~= seq![item] + ranked);
        }
    } else {
        assert(ranked[0].amount_out > item.amount_out);
        let rest = ranked.drop_first();
        assert forall|j: int| 0 <= j < at - 1 implies (#[trigger] rest[j]).amount_out
            > item.amount_out by {
            assert(rest[j] == ranked[j + 1]);
        }
        lemma_rank_in_at(rest, item, at - 1);
        assert(ranked.insert(at, item) =~= seq![ranked[0]] + rest.insert(at - 1, item));
    }
}

impl RouterQuote {
    /// Whether the table inside is in order and every fee is within range.
    pub closed spec fn wf(&self) -> bool {
        self.route_fees.wf() && self@.fees_in_range()
    }

    /// A contract that nobody has initialized.
    pub fn new() -> (contract: Self)
        ensures
            contract.wf(),
            contract@ == QuoteState::fresh(),
    {
        let contract = RouterQuote {
            admin: None,
            default_fee: None,
            route_fees: Table::new(),
            events: Vec::new(),
        };
        assert(contract@ =~= QuoteState::fresh());
        contract
    }

    /// A contract with what another remembered, but for route fees and events.
    pub fn restore(admin: Option<Address>, default_fee: Option<u32>) -> (contract: Self)
        requires
            default_fee matches Some(fee) ==> fee <= MAX_BPS,
        ensures
            contract.wf(),
            contract@ == (QuoteState { admin, default_fee, ..QuoteState::fresh() }),
    {
        let mut contract = Self::new();
        contract.admin = admin;
        contract.default_fee = default_fee;
        assert(contract@ =~= (QuoteState { admin, default_fee, ..QuoteState::fresh() }));
        contract
    }

    /// Remembers the fee of a route, in place of any other.
    pub fn put_route_fee(&mut self, route: String, fee_bps: u32)
        requires
            old(self).wf(),
            fee_bps <= MAX_BPS,
        ensures
            final(self).wf(),
            final(self)@ == (QuoteState {
                route_fees: old(self)@.route_fees.insert(route@, fee_bps),
                ..old(self)@
            }),
    {
        self.route_fees.insert(route, fee_bps);
        assert(self@ =~= (QuoteState {
            route_fees: old(self)@.route_fees.insert(route@, fee_bps),
            ..old(self)@
        }));
    }

    /// Every fee of a contract in order is at most all of the input.
    pub proof fn fees_are_in_range(&self)
        requires
            self.wf(),
        ensures
            self@.fees_in_range(),
    {
    }

    fn publish(&mut self, event: QuoteEvent)
        requires
            old(self).wf(),
        ensures
            final(self).wf(),
            final(self)@ == old(self)@.publish(event@),
    {
        self.events.push(event);
        assert(self@ =~= old(self)@.publish(event@));
    }

    fn require_admin(&self, caller: &Address) -> (allowed: Result<(), QuoteError>)
        ensures
            match allowed {
                Ok(()) => self@.admin_refusal(*caller) is None,
                Err(e) => self@.admin_refusal(*caller) == Some(e),
            },
    {
        match &self.admin {
            None => Err(QuoteError::NotInitialized),
            Some(admin) => if admin.same(caller) {
                Ok(())
            } else {
                Err(QuoteError::Unauthorized)
            },
        }
    }

    /// Sets the admin and the default fee, once.
    ///
    /// Publishes `initialized`.
    pub fn initialize(&mut self, admin: Address, default_fee_bps: u32) -> (result: Result<
        (),
        QuoteError,
    >)
        requires
            old(self).wf(),
        ensures
            final(self).wf(),
            went(
                old(self)@,
                final(self)@,
                result,
                initialize_step(old(self)@, admin, default_fee_bps),
            ),
    {
        if self.admin.is_some() {
            return Err(QuoteError::AlreadyInitialized);
        }
        if default_fee_bps > MAX_BPS {
            return Err(QuoteError::InvalidFeeBps);
        }
        self.admin = Some(admin);
        self.default_fee = Some(default_fee_bps);
        assert(self@ =~= (QuoteState {
            admin: Some(admin),
            default_fee: Some(default_fee_bps),
            ..old(self)@
        }));
        self.publish(QuoteEvent::Initialized { admin, default_fee_bps });
        Ok(())
    }

    /// Sets the fee of a route.
    ///
    /// Publishes `route_fee_set`.
    pub fn set_route_fee(&mut self, env: &Env, caller: Address, route: String, fee_bps: u32) -> (result:
        Result<(), QuoteError>)
        requires
            old(self).wf(),
            env.authorizes(caller),
        ensures
            final(self).wf(),
            went(
                old(self)@,
                final(self)@,
                result,
                set_route_fee_step(old(self)@, caller, route@, fee_bps),
            ),
    {
        match self.require_admin(&caller) {
            Err(e) => {
                return Err(e);
            },
            Ok(()) => {},
        }
        if fee_bps > MAX_BPS {
            return Err(QuoteError::InvalidFeeBps);
        }
        let told = route.clone();
        self.put_route_fee(route, fee_bps);
        self.publish(QuoteEvent::RouteFeeSet { route: told, fee_bps });
        Ok(())
    }

    /// The fee of a route: its own, or else the default fee.
    pub fn get_route_fee(&self, route: &String) -> (fee_bps: u32)
        requires
            self.wf(),
        ensures
            fee_bps == self@.fee_of(route@),
    {
        match self.route_fees.get(route) {
            Some(fee) => *fee,
            None => self.get_default_fee(),
        }
    }

    /// Computes the quote for a request with a positive amount.
    fn compute_quote(&self, request: &QuoteRequest) -> (quote: QuoteResponse)
        requires
            self.wf(),
            request.amount_in > 0,
        ensures
            quote@ == quote_for(self@, request@),
    {
        let fee_bps: u32 = self.get_route_fee(&request.route);
        let amount: i128 = request.amount_in;
        proof {
            lemma_product_bounds(amount as int, fee_bps as int);
        }
        let fee_amount: i128 = match amount.checked_mul(fee_bps as i128) {
            Some(v) => v / 10_000,
            None => 0,
        };
        let amount_out: i128 = amount - fee_amount;
        let price_impact_bps: i128 = fee_amount * 10_000 / amount;
        QuoteResponse {
            route: request.route.clone(),
            token_in: request.token_in,
            token_out: request.token_out,
            amount_in: amount,
            amount_out,
            fee_amount,
            fee_bps,
            price_impact_bps,
        }
    }

    fn publish_quote(&mut self, quote: &QuoteResponse)
        requires
            old(self).wf(),
        ensures
            final(self).wf(),
            final(self)@ == old(self)@.publish(quote_event(quote@)),
    {
        self.publish(
            QuoteEvent::QuoteCalculated {
                route: quote.route.clone(),
                amount_out: quote.amount_out,
                fee_amount: quote.fee_amount,
                price_impact_bps: quote.price_impact_bps,
            },
        );
    }

    /// The quote for one route.
    ///
    /// Publishes `quote_calculated`.
    pub fn get_quote(&mut self, request: &QuoteRequest) -> (result: Result<
        QuoteResponse,
        QuoteError,
    >)
        requires
            old(self).wf(),
        ensures
            final(self).wf(),
            match result {
                Ok(quote) => request.amount_in > 0 && quote@ == quote_for(old(self)@, request@)
                    && final(self)@ == old(self)@.publish(quote_event(quote@)),
                Err(e) => request.amount_in <= 0 && e == QuoteError::InvalidAmount && final(self)@
                    == old(self)@,
            },
            (quote_result(result), final(self)@) == get_quote_step(old(self)@, request@),
    {
        if request.amount_in <= 0 {
            return Err(QuoteError::InvalidAmount);
        }
        let quote = self.compute_quote(request);
        self.publish_quote(&quote);
        Ok(quote)
    }

    /// Whether every amount is positive.
    fn amounts_valid(requests: &Vec<QuoteRequest>) -> (valid: bool)
        ensures
            valid == (forall|i: int|
                0 <= i < requests@.len() ==> (#[trigger] requests@[i]).amount_in > 0),
    {
        let mut i: usize = 0;
        while i < requests.len()
            invariant
                i <= requests@.len(),
                forall|k: int| 0 <= k < i ==> (#[trigger] requests@[k]).amount_in > 0,
            decreases requests@.len() - i,
        {
            if requests[i].amount_in <= 0 {
                return false;
            }
            i = i + 1;
        }
        true
    }

    /// The quotes for several routes, in the order of the requests.
    ///
    /// Publishes `quote_calculated` for each. Where one of the requests is
    /// refused, all are, and nothing is published.
    pub fn get_quotes(&mut self, requests: &Vec<QuoteRequest>) -> (result: Result<
        Vec<QuoteResponse>,
        QuoteError,
    >)
        requires
            old(self).wf(),
        ensures
            final(self).wf(),
            match result {
                Ok(quotes) => requests_refusal(request_views(requests@)) is None && quote_views(
                    quotes@,
                ) == quotes_for(old(self)@, request_views(requests@)) && final(self)@ == quoted(
                    old(self)@,
                    request_views(requests@),
                ),
                Err(e) => requests_refusal(request_views(requests@)) == Some(e) && final(self)@
                    == old(self)@,
            },
            (quotes_result(result), final(self)@) == get_quotes_step(
                old(self)@,
                request_views(requests@),
            ),
    {
        let ghost asked = request_views(requests@);
        let ghost start = self@;
        if requests.len() == 0 {
            return Err(QuoteError::NoQuotesProvided);
        }
        if !Self::amounts_valid(requests) {
            proof {
                let i = choose|i: int|
                    0 <= i < requests@.len() && (#[trigger] requests@[i]).amount_in <= 0;
                assert(asked[i].amount_in <= 0);
            }
            return Err(QuoteError::InvalidAmount);
        }
        assert forall|i: int| 0 <= i < asked.len() implies (#[trigger] asked[i]).amount_in > 0 by {
            assert(requests@[i].amount_in > 0);
        }
        let mut quotes: Vec<QuoteResponse> = Vec::new();
        let mut i: usize = 0;
        assert(self@ =~= quoted(start, asked.take(0)));
        while i < requests.len()
            invariant
                i <= requests@.len(),
                self.wf(),
                asked == request_views(requests@),
                forall|k: int| 0 <= k < requests@.len() ==> (#[trigger] requests@[k]).amount_in > 0,
                quote_views(quotes@) =~= quotes_for(start, asked.take(i as int)),
                self@ == quoted(start, asked.take(i as int)),
            decreases requests@.len() - i,
        {
            let ghost before = self@;
            let quote = self.compute_quote(&requests[i]);
            assert(quote@ == quote_for(start, asked[i as int]));
            self.publish_quote(&quote);
            quotes.push(quote);
            i = i + 1;
            proof {
                let now = asked.take(i as int);
                assert(now =~= asked.take(i - 1).push(asked[i - 1]));
                assert(quotes_for(start, now) =~= quotes_for(start, asked.take(i - 1)).push(quote@));
                assert(quoted(start, now).events =~= before.events.push(quote_event(quote@)));
                assert(self@ =~= quoted(start, now));
            }
        }
        assert(asked.take(i as int) =~= asked);
        Ok(quotes)
    }

    /// The quote that pays out most; the first of them where several do.
    ///
    /// Publishes `best_quote_selected` after the events of the quotes.
    pub fn get_best_quote(&mut self, requests: &Vec<QuoteRequest>) -> (result: Result<
        QuoteResponse,
        QuoteError,
    >)
        requires
            old(self).wf(),
        ensures
            final(self).wf(),
            match result {
                Ok(best) => requests_refusal(request_views(requests@)) is None && best@ == best_of(
                    quotes_for(old(self)@, request_views(requests@)),
                ) && final(self)@ == quoted(old(self)@, request_views(requests@)).publish(
                    QuoteEventView::BestQuoteSelected {
                        route: best@.route,
                        amount_out: best@.amount_out,
                    },
                ),
                Err(e) => requests_refusal(request_views(requests@)) == Some(e) && final(self)@
                    == old(self)@,
            },
            (quote_result(result), final(self)@) == get_best_quote_step(
                old(self)@,
                request_views(requests@),
            ),
    {
        let quotes = match self.get_quotes(requests) {
            Err(e) => {
                return Err(e);
            },
            Ok(quotes) => quotes,
        };
        let ghost views = quote_views(quotes@);
        assert(views.len() == requests@.len());
        let mut best: usize = 0;
        let mut i: usize = 1;
        assert(views.take(1)[0] == views[0]);
        while i < quotes.len()
            invariant
                1 <= i <= quotes@.len(),
                best < i,
                views == quote_views(quotes@),
                views[best as int] == best_of(views.take(i as int)),
            decreases quotes@.len() - i,
        {
            proof {
                let now = views.take(i + 1);
                assert(now.drop_last() =~= views.take(i as int));
                assert(now.last() == views[i as int]);
                assert(views[i as int] == quotes@[i as int]@);
                assert(views[best as int] == quotes@[best as int]@);
            }
            if quotes[i].amount_out > quotes[best].amount_out {
                best = i;
            }
            i = i + 1;
        }
        assert(views.take(i as int) =~= views);
        let quote = quotes[best].copy();
        assert(views[best as int] == quotes@[best as int]@);
        self.publish(
            QuoteEvent::BestQuoteSelected {
                route: quote.route.clone(),
                amount_out: quote.amount_out,
            },
        );
        Ok(quote)
    }

    /// The quotes whose price impact is at most `max_price_impact_bps`, the one
    /// that pays out most first. There may be none.
    ///
    /// Publishes `quotes_compared` after the events of the quotes.
    pub fn compare_quotes(&mut self, requests: &Vec<QuoteRequest>, max_price_impact_bps: i128) -> (result:
        Result<Vec<QuoteResponse>, QuoteError>)
        requires
            old(self).wf(),
            requests@.len() <= u32::MAX,
        ensures
            final(self).wf(),
            match result {
                Ok(quotes) => compare_refusal(request_views(requests@), max_price_impact_bps) is None
                    && quote_views(quotes@) == compared(
                    old(self)@,
                    request_views(requests@),
                    max_price_impact_bps,
                ) && final(self)@ == quoted(old(self)@, request_views(requests@)).publish(
                    QuoteEventView::QuotesCompared {
                        count: quotes@.len() as u32,
                        max_price_impact_bps,
                    },
                ),
                Err(e) => compare_refusal(request_views(requests@), max_price_impact_bps) == Some(e)
                    && final(self)@ == old(self)@,
            },
            (quotes_result(result), final(self)@) == compare_quotes_step(
                old(self)@,
                request_views(requests@),
                max_price_impact_bps,
            ),
    {
        if max_price_impact_bps < 0 || max_price_impact_bps > 10_000 {
            return Err(QuoteError::InvalidPriceImpactBps);
        }
        let quotes = match self.get_quotes(requests) {
            Err(e) => {
                return Err(e);
            },
            Ok(quotes) => quotes,
        };
        let ghost views = quote_views(quotes@);
        let ghost limit = max_price_impact_bps as int;
        let mut accepted: Vec<QuoteResponse> = Vec::new();
        let mut i: usize = 0;
        assert(views.take(0) =~= Seq::empty());
        while i < quotes.len()
            invariant
                i <= quotes@.len(),
                views == quote_views(quotes@),
                limit == max_price_impact_bps,
                accepted@.len() <= i,
                quote_views(accepted@) =~= passing(views.take(i as int), limit),
            decreases quotes@.len() - i,
        {
            proof {
                let now = views.take(i + 1);
                assert(now.drop_last() =~= views.take(i as int));
                assert(now.last() == quotes@[i as int]@);
            }
            if quotes[i].price_impact_bps <= max_price_impact_bps {
                accepted.push(quotes[i].copy());
            }
            i = i + 1;
        }
        assert(views.take(i as int) =~= views);
        assert(views.len() == requests@.len());
        let sorted = Self::sort_by_amount_out_desc(accepted);
        let count: u32 = sorted.len() as u32;
        self.publish(QuoteEvent::QuotesCompared { count, max_price_impact_bps });
        Ok(sorted)
    }

    /// Orders quotes by what they pay out, the best first, by insertion.
    fn sort_by_amount_out_desc(quotes: Vec<QuoteResponse>) -> (sorted: Vec<QuoteResponse>)
        ensures
            quote_views(sorted@) == ranking(quote_views(quotes@)),
            sorted@.len() == quotes@.len(),
    {
        let ghost views = quote_views(quotes@);
        let mut sorted: Vec<QuoteResponse> = Vec::new();
        let mut i: usize = 0;
        assert(views.take(0) =~= Seq::empty());
        while i < quotes.len()
            invariant
                i <= quotes@.len(),
                views == quote_views(quotes@),
                sorted@.len() == i,
                quote_views(sorted@) =~= ranking(views.take(i as int)),
            decreases quotes@.len() - i,
        {
            let item = quotes[i].copy();
            let mut at: usize = 0;
            while at < sorted.len() && sorted[at].amount_out > item.amount_out
                invariant
                    at <= sorted@.len(),
                    forall|j: int|
                        0 <= j < at ==> (#[trigger] sorted@[j]).amount_out > item.amount_out,
                decreases sorted@.len() - at,
            {
                at = at + 1;
            }
            proof {
                let before = quote_views(sorted@);
                assert forall|j: int| 0 <= j < at implies (#[trigger] before[j]).amount_out
                    > item@.amount_out by {
                    assert(before[j] == sorted@[j]@);
                }
                lemma_rank_in_at(before, item@, at as int);
                let now = views.take(i + 1);
                assert(now.drop_last() =~= views.take(i as int));
                assert(now.last() == quotes@[i as int]@);
                assert(quote_views(sorted@.insert(at as int, item)) =~= before.insert(
                    at as int,
                    item@,
                ));
            }
            sorted.insert(at, item);
            i = i + 1;
        }
        assert(views.take(i as int) =~= views);
        sorted
    }

    /// Sets the default fee.
    ///
    /// Publishes `default_fee_updated`.
    pub fn set_default_fee(&mut self, env: &Env, caller: Address, fee_bps: u32) -> (result: Result<
        (),
        QuoteError,
    >)
        requires
            old(self).wf(),
            env.authorizes(caller),
        ensures
            final(self).wf(),
            went(old(self)@, final(self)@, result, set_default_fee_step(old(self)@, caller, fee_bps)),
    {
        match self.require_admin(&caller) {
            Err(e) => {
                return Err(e);
            },
            Ok(()) => {},
        }
        if fee_bps > MAX_BPS {
            return Err(QuoteError::InvalidFeeBps);
        }
        self.default_fee = Some(fee_bps);
        assert(self@ =~= (QuoteState { default_fee: Some(fee_bps), ..old(self)@ }));
        self.publish(QuoteEvent::DefaultFeeUpdated { fee_bps });
        Ok(())
    }

    /// The default fee.
    pub fn get_default_fee(&self) -> (fee_bps: u32)
        ensures
            fee_bps == self@.general_fee(),
    {
        match self.default_fee {
            Some(fee) => fee,
            None => FALLBACK_FEE_BPS,
        }
    }

    /// Whether there is an admin.
    pub fn is_initialized(&self) -> (initialized: bool)
        ensures
            initialized == self@.admin is Some,
    {
        self.admin.is_some()
    }

    /// The admin of an initialized contract.
    pub fn admin(&self) -> (admin: Address)
        requires
            self@.admin is Some,
        ensures
            self@.admin == Some(admin),
    {
        self.admin.unwrap()
    }

    /// Hands the admin role over.
    ///
    /// Publishes `admin_transferred`.
    pub fn transfer_admin(&mut self, env: &Env, current: Address, new_admin: Address) -> (result:
        Result<(), QuoteError>)
        requires
            old(self).wf(),
            env.authorizes(current),
        ensures
            final(self).wf(),
            went(
                old(self)@,
                final(self)@,
                result,
                transfer_admin_step(old(self)@, current, new_admin),
            ),
    {
        match self.require_admin(&current) {
            Err(e) => {
                return Err(e);
            },
            Ok(()) => {},
        }
        self.admin = Some(new_admin);
        assert(self@ =~= (QuoteState { admin: Some(new_admin), ..old(self)@ }));
        self.publish(QuoteEvent::AdminTransferred { current, new_admin });
        Ok(())
    }

    /// The events published so far, the latest last.
    pub fn events(&self) -> (events: &Vec<QuoteEvent>)
        ensures
            event_views(events@) == self@.events,
    {
        &self.events
    }
}

} // verus!
