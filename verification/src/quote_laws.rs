//! What holds of quotes whatever the fees and the requests are.

use vstd::multiset::*;
use vstd::prelude::*;

use crate::address::Address;
use crate::quote::{
    best_of, compare_quotes_step, compare_refusal, compared, fee_on, get_best_quote_step,
    get_quote_step, get_quotes_step, initialize_step, lemma_product_bounds, passing, quote_event,
    quote_for, quote_result, quoted, quotes_for, quotes_result, rank_in, ranking,
    requests_refusal, set_default_fee_step, set_route_fee_step, transfer_admin_step, went,
};
use crate::quote::{QuoteError, QuoteResponse, MAX_BPS};
use crate::quote::{QuoteEventView, QuoteState, QuoteView, RequestView};

verus! {

/// A fee is taken out of the amount and nothing else is: fee and output make up
/// the input, and neither is negative. The price impact is the fee in basis
/// points of the input, and at most the fee of the route.
pub proof fn quotes_add_up(s: QuoteState, request: RequestView)
    requires
        s.fees_in_range(),
        request.amount_in > 0,
    ensures
        ({
            let q = quote_for(s, request);
            &&& q.amount_out + q.fee_amount == q.amount_in
            &&& 0 <= q.fee_amount <= q.amount_in
            &&& 0 <= q.amount_out <= q.amount_in
            &&& q.price_impact_bps == q.fee_amount as int * 10_000 / q.amount_in as int
            &&& 0 <= q.price_impact_bps <= q.fee_bps
            &&& q.fee_bps == s.fee_of(request.route)
            &&& q.fee_bps <= MAX_BPS
        }),
{
    lemma_product_bounds(request.amount_in as int, s.fee_of(request.route) as int);
}

/// Where the fee comes out even, the price impact is the fee of the route.
pub proof fn impact_is_the_fee(s: QuoteState, request: RequestView)
    requires
        s.fees_in_range(),
        request.amount_in > 0,
        request.amount_in * s.fee_of(request.route) <= i128::MAX,
        request.amount_in * s.fee_of(request.route) % 10_000 == 0,
    ensures
        quote_for(s, request).price_impact_bps == quote_for(s, request).fee_bps,
{
    let amount = request.amount_in as int;
    let bps = s.fee_of(request.route) as int;
    lemma_product_bounds(amount, bps);
    let fee = fee_on(amount, bps);
    assert(fee * 10_000 == amount * bps);
    assert(fee * 10_000 / amount == bps) by (nonlinear_arith)
        requires
            fee * 10_000 == amount * bps,
            0 < amount,
    ;
}

/// Of two fees on the same amount, the lower one pays out no less.
pub proof fn lower_fees_pay_out_more(amount: i128, low: u32, high: u32)
    requires
        amount > 0,
        low <= high <= MAX_BPS,
        amount * high <= i128::MAX,
    ensures
        amount - fee_on(amount as int, low as int) >= amount - fee_on(amount as int, high as int),
{
    let l = amount * low;
    let h = amount * high;
    assert(l <= h) by (nonlinear_arith)
        requires
            amount > 0,
            low <= high,
            l == amount * low,
            h == amount * high,
    ;
}

/// The best quote is one of the quotes, none pays out more, and those before it
/// pay out less.
pub proof fn best_is_the_first_maximum(quotes: Seq<QuoteView>) -> (at: int)
    requires
        quotes.len() > 0,
    ensures
        0 <= at < quotes.len(),
        best_of(quotes) == quotes[at],
        forall|i: int|
            0 <= i < quotes.len() ==> (#[trigger] quotes[i]).amount_out <= quotes[at].amount_out,
        forall|i: int|
            0 <= i < at ==> (#[trigger] quotes[i]).amount_out < quotes[at].amount_out,
    decreases quotes.len(),
{
    if quotes.len() == 1 {
        0
    } else {
        let rest = quotes.drop_last();
        let at = best_is_the_first_maximum(rest);
        assert(rest[at] == quotes[at]);
        assert forall|i: int| 0 <= i < rest.len() implies (#[trigger] quotes[i]).amount_out
            <= quotes[at].amount_out by {
            assert(rest[i] == quotes[i]);
        }
        assert forall|i: int| 0 <= i < at implies (#[trigger] quotes[i]).amount_out
            < quotes[at].amount_out by {
            assert(rest[i] == quotes[i]);
        }
        if quotes.last().amount_out > quotes[at].amount_out {
            quotes.len() - 1
        } else {
            at
        }
    }
}

/// Whether quotes stand by what they pay out, the best first.
pub open spec fn best_first(quotes: Seq<QuoteView>) -> bool {
    forall|i: int, j: int|
        0 <= i <= j < quotes.len() ==> (#[trigger] quotes[i]).amount_out >= (
        #[trigger] quotes[j]).amount_out
}

proof fn lemma_rank_in_keeps(ranked: Seq<QuoteView>, item: QuoteView)
    requires
        best_first(ranked),
    ensures
        best_first(rank_in(ranked, item)),
        rank_in(ranked, item).to_multiset() == ranked.to_multiset().insert(item),
        rank_in(ranked, item).len() == ranked.len() + 1,
        rank_in(ranked, item)[0] == item || (ranked.len() > 0 && rank_in(ranked, item)[0]
            == ranked[0]),
    decreases ranked.len(),
{
    broadcast use vstd::seq_lib::group_to_multiset_ensures;

    if ranked.len() == 0 {
        assert(seq![item] =~= ranked.push(item));
    } else if item.amount_out >= ranked[0].amount_out {
        let r = seq![item] + ranked;
        assert(r =~= ranked.insert(0, item));
        assert forall|i: int, j: int| 0 <= i <= j < r.len() implies (#[trigger] r[i]).amount_out
            >= (#[trigger] r[j]).amount_out by {
            if i == 0 && j > 0 {
                assert(r[j] == ranked[j - 1]);
                assert(ranked[0].amount_out >= ranked[j - 1].amount_out);
            } else if i > 0 {
                assert(r[i] == ranked[i - 1] && r[j] == ranked[j - 1]);
            }
        }
    } else {
        let rest = ranked.drop_first();
        assert forall|i: int, j: int| 0 <= i <= j < rest.len() implies (
        #[trigger] rest[i]).amount_out >= (#[trigger] rest[j]).amount_out by {
            assert(rest[i] == ranked[i + 1] && rest[j] == ranked[j + 1]);
        }
        lemma_rank_in_keeps(rest, item);
        let inner = rank_in(rest, item);
        let r = seq![ranked[0]] + inner;
        assert(rank_in(ranked, item) == r);
        assert(r =~= inner.insert(0, ranked[0]));
        assert(ranked =~= rest.insert(0, ranked[0]));
        assert(r.to_multiset() =~= ranked.to_multiset().insert(item));
        assert(inner[0].amount_out <= ranked[0].amount_out) by {
            if inner[0] != item {
                assert(inner[0] == ranked[1]);
            }
        }
        assert forall|i: int, j: int| 0 <= i <= j < r.len() implies (#[trigger] r[i]).amount_out
            >= (#[trigger] r[j]).amount_out by {
            if i == 0 && j > 0 {
                assert(r[j] == inner[j - 1]);
                assert(inner[0].amount_out >= inner[j - 1].amount_out);
            } else if i > 0 {
                assert(r[i] == inner[i - 1] && r[j] == inner[j - 1]);
            }
        }
    }
}

/// A ranking holds the same quotes, each as often, with the best first.
pub proof fn ranking_sorts(quotes: Seq<QuoteView>)
    ensures
        best_first(ranking(quotes)),
        ranking(quotes).to_multiset() == quotes.to_multiset(),
        ranking(quotes).len() == quotes.len(),
    decreases quotes.len(),
{
    broadcast use vstd::seq_lib::group_to_multiset_ensures;

    if quotes.len() == 0 {
        assert(quotes =~= Seq::<QuoteView>::empty());
    } else {
        ranking_sorts(quotes.drop_last());
        lemma_rank_in_keeps(ranking(quotes.drop_last()), quotes.last());
        assert(quotes.drop_last().push(quotes.last()) =~= quotes);
    }
}

/// The quotes that pay out `amount`.
pub open spec fn paying(quotes: Seq<QuoteView>, amount: i128) -> Seq<QuoteView>
    decreases quotes.len(),
{
    if quotes.len() == 0 {
        Seq::empty()
    } else {
        let rest = paying(quotes.drop_first(), amount);
        if quotes[0].amount_out == amount {
            seq![quotes[0]] + rest
        } else {
            rest
        }
    }
}

proof fn lemma_paying_append(a: Seq<QuoteView>, b: Seq<QuoteView>, amount: i128)
    ensures
        paying(a + b, amount) == paying(a, amount) + paying(b, amount),
    decreases a.len(),
{
    if a.len() == 0 {
        assert(a + b =~= b);
        assert(paying(a, amount) + paying(b, amount) =~= paying(b, amount));
    } else {
        assert((a + b).drop_first() =~= a.drop_first() + b);
        lemma_paying_append(a.drop_first(), b, amount);
        assert((a + b)[0] == a[0]);
        assert(paying(a + b, amount) =~= paying(a, amount) + paying(b, amount));
    }
}

proof fn lemma_paying_rank_in(ranked: Seq<QuoteView>, item: QuoteView, amount: i128)
    requires
        best_first(ranked),
    ensures
        paying(rank_in(ranked, item), amount) == if item.amount_out == amount {
            seq![item] + paying(ranked, amount)
        } else {
            paying(ranked, amount)
        },
    decreases ranked.len(),
{
    if ranked.len() == 0 {
        assert(seq![item].drop_first() =~= Seq::empty());
        assert(ranked =~= Seq::empty());
    } else if item.amount_out >= ranked[0].amount_out {
        assert((seq![item] + ranked).drop_first() =~= ranked);
    } else {
        let rest = ranked.drop_first();
        assert forall|i: int, j: int| 0 <= i <= j < rest.len() implies (
        #[trigger] rest[i]).amount_out >= (#[trigger] rest[j]).amount_out by {
            assert(rest[i] == ranked[i + 1] && rest[j] == ranked[j + 1]);
        }
        lemma_paying_rank_in(rest, item, amount);
        let inner = rank_in(rest, item);
        let r = seq![ranked[0]] + inner;
        assert(r.drop_first() =~= inner);
        assert(rank_in(ranked, item) == r);
        if item.amount_out == amount {
            assert(ranked[0].amount_out != amount);
        }
    }
}

/// Quotes that pay out the same stand in a ranking in the opposite of their
/// order.
pub proof fn ranking_turns_ties_round(quotes: Seq<QuoteView>, amount: i128)
    ensures
        paying(ranking(quotes), amount) == paying(quotes, amount).reverse(),
    decreases quotes.len(),
{
    if quotes.len() == 0 {
        assert(paying(quotes, amount).reverse() =~= Seq::empty());
    } else {
        let rest = quotes.drop_last();
        let last = quotes.last();
        ranking_turns_ties_round(rest, amount);
        ranking_sorts(rest);
        lemma_paying_rank_in(ranking(rest), last, amount);
        assert(rest + seq![last] =~= quotes);
        lemma_paying_append(rest, seq![last], amount);
        assert(seq![last].drop_first() =~= Seq::<QuoteView>::empty());
        assert(paying(Seq::empty(), amount) =~= Seq::empty());
        let own = paying(seq![last], amount);
        if last.amount_out == amount {
            assert(own =~= seq![last]);
            assert((paying(rest, amount) + own).reverse() =~= seq![last] + paying(
                rest,
                amount,
            ).reverse());
        } else {
            assert(own =~= Seq::<QuoteView>::empty());
            assert(paying(rest, amount) + own =~= paying(rest, amount));
        }
    }
}

proof fn lemma_passing(quotes: Seq<QuoteView>, limit: int)
    ensures
        forall|q: QuoteView|
            passing(quotes, limit).contains(q) <==> (quotes.contains(q) && q.price_impact_bps
                <= limit),
        passing(quotes, limit).len() <= quotes.len(),
    decreases quotes.len(),
{
    if quotes.len() > 0 {
        let rest = quotes.drop_last();
        lemma_passing(rest, limit);
        let kept = passing(rest, limit);
        assert(quotes =~= rest.push(quotes.last()));
        assert forall|q: QuoteView|
            passing(quotes, limit).contains(q) <==> (quotes.contains(q) && q.price_impact_bps
                <= limit) by {
            lemma_push_contains(rest, quotes.last(), q);
            lemma_push_contains(kept, quotes.last(), q);
        }
    }
}

proof fn lemma_push_contains(list: Seq<QuoteView>, last: QuoteView, q: QuoteView)
    ensures
        list.push(last).contains(q) <==> (list.contains(q) || q == last),
{
    let longer = list.push(last);
    if list.contains(q) {
        let i = choose|i: int| 0 <= i < list.len() && list[i] == q;
        assert(longer[i] == q);
    }
    if q == last {
        assert(longer[list.len() as int] == q);
    }
    if longer.contains(q) {
        let i = choose|i: int| 0 <= i < longer.len() && longer[i] == q;
        if i < list.len() {
            assert(list[i] == q);
        }
    }
}

/// A comparison returns exactly the quotes whose price impact is within the
/// threshold, the best first; it returns none exactly where every quote exceeds
/// the threshold.
pub proof fn comparison_filters_and_sorts(
    s: QuoteState,
    requests: Seq<RequestView>,
    max_price_impact_bps: i128,
)
    ensures
        best_first(compared(s, requests, max_price_impact_bps)),
        forall|q: QuoteView| #[trigger]
            compared(s, requests, max_price_impact_bps).contains(q) <==> (quotes_for(
                s,
                requests,
            ).contains(q) && q.price_impact_bps <= max_price_impact_bps),
        compared(s, requests, max_price_impact_bps).len() == 0 <==> forall|i: int|
            0 <= i < requests.len() ==> (#[trigger] quotes_for(s, requests)[i]).price_impact_bps
                > max_price_impact_bps,
{
    broadcast use vstd::seq_lib::group_to_multiset_ensures;

    let quotes = quotes_for(s, requests);
    let limit = max_price_impact_bps as int;
    let kept = passing(quotes, limit);
    let result = compared(s, requests, max_price_impact_bps);
    lemma_passing(quotes, limit);
    ranking_sorts(kept);
    assert forall|q: QuoteView| #[trigger] result.contains(q) <==> (quotes.contains(q)
        && q.price_impact_bps <= max_price_impact_bps) by {
        assert(result.contains(q) <==> result.to_multiset().count(q) > 0);
        assert(kept.contains(q) <==> kept.to_multiset().count(q) > 0);
    }
    if result.len() == 0 {
        assert forall|i: int| 0 <= i < requests.len() implies (
        #[trigger] quotes[i]).price_impact_bps > max_price_impact_bps by {
            assert(quotes.contains(quotes[i]));
            assert(!result.contains(quotes[i]));
        }
    } else {
        assert(result.contains(result[0]));
        let i = choose|i: int| 0 <= i < quotes.len() && quotes[i] == result[0];
        assert(quotes[i].price_impact_bps <= max_price_impact_bps);
    }
}

/// The first quote of a comparison pays out as much as the best of all the
/// quotes, where the threshold lets everything through.
pub proof fn open_threshold_keeps_everything(s: QuoteState, requests: Seq<RequestView>)
    requires
        s.fees_in_range(),
        compare_refusal(requests, 10_000) is None,
    ensures
        compared(s, requests, 10_000) == ranking(quotes_for(s, requests)),
        compared(s, requests, 10_000)[0].amount_out == best_of(quotes_for(s, requests)).amount_out,
{
    broadcast use vstd::seq_lib::group_to_multiset_ensures;

    let quotes = quotes_for(s, requests);
    assert forall|i: int| 0 <= i < quotes.len() implies (#[trigger] quotes[i]).price_impact_bps
        <= 10_000 by {
        assert(requests[i].amount_in > 0);
        quotes_add_up(s, requests[i]);
    }
    lemma_all_pass(quotes, 10_000);
    ranking_sorts(quotes);
    let ranked = ranking(quotes);
    let at = best_is_the_first_maximum(quotes);
    assert(quotes.contains(quotes[at]));
    assert(quotes.to_multiset().count(quotes[at]) > 0);
    assert(ranked.contains(quotes[at]));
    let k = choose|k: int| 0 <= k < ranked.len() && ranked[k] == quotes[at];
    assert(ranked[0].amount_out >= ranked[k].amount_out);
    assert(ranked.contains(ranked[0]));
    assert(ranked.to_multiset().count(ranked[0]) > 0);
    assert(quotes.contains(ranked[0]));
}

proof fn lemma_all_pass(quotes: Seq<QuoteView>, limit: int)
    requires
        forall|i: int| 0 <= i < quotes.len() ==> (#[trigger] quotes[i]).price_impact_bps <= limit,
    ensures
        passing(quotes, limit) == quotes,
    decreases quotes.len(),
{
    if quotes.len() > 0 {
        let rest = quotes.drop_last();
        assert forall|i: int| 0 <= i < rest.len() implies (#[trigger] rest[i]).price_impact_bps
            <= limit by {
            assert(rest[i] == quotes[i]);
        }
        lemma_all_pass(rest, limit);
        assert(rest.push(quotes.last()) =~= quotes);
    } else {
        assert(quotes =~= Seq::empty());
    }
}

/// The fee that was set for a route is the one that the route then has, and no
/// other route has another fee for it.
pub proof fn route_fee_is_read_back(
    s: QuoteState,
    caller: Address,
    route: Seq<char>,
    fee_bps: u32,
    other: Seq<char>,
)
    requires
        set_route_fee_step(s, caller, route, fee_bps) is Ok,
        other != route,
    ensures
        set_route_fee_step(s, caller, route, fee_bps)->Ok_0.fee_of(route) == fee_bps,
        set_route_fee_step(s, caller, route, fee_bps)->Ok_0.fee_of(other) == s.fee_of(other),
{
}

/// The default fee is the fee of the routes that have none of their own, and of
/// no others.
pub proof fn default_fee_is_for_the_others(
    s: QuoteState,
    caller: Address,
    fee_bps: u32,
    route: Seq<char>,
)
    requires
        set_default_fee_step(s, caller, fee_bps) is Ok,
    ensures
        set_default_fee_step(s, caller, fee_bps)->Ok_0.fee_of(route) == if s.route_fees.contains_key(
            route,
        ) {
            s.fee_of(route)
        } else {
            fee_bps
        },
{
}

/// A call that may change the quote contract.
pub enum QuoteCall {
    Initialize { admin: Address, default_fee_bps: u32 },
    SetRouteFee { caller: Address, route: Seq<char>, fee_bps: u32 },
    SetDefaultFee { caller: Address, fee_bps: u32 },
    TransferAdmin { caller: Address, new_admin: Address },
}

impl QuoteCall {
    /// The state after the call, or why it is refused.
    pub open spec fn step(self, s: QuoteState) -> Result<QuoteState, QuoteError> {
        match self {
            QuoteCall::Initialize { admin, default_fee_bps } => {
                initialize_step(s, admin, default_fee_bps)
            },
            QuoteCall::SetRouteFee { caller, route, fee_bps } => {
                set_route_fee_step(s, caller, route, fee_bps)
            },
            QuoteCall::SetDefaultFee { caller, fee_bps } => {
                set_default_fee_step(s, caller, fee_bps)
            },
            QuoteCall::TransferAdmin { caller, new_admin } => {
                transfer_admin_step(s, caller, new_admin)
            },
        }
    }

    /// The admin that the call says it comes from, if only an admin may make it.
    pub open spec fn admin_caller(self) -> Option<Address> {
        match self {
            QuoteCall::Initialize { .. } => None,
            QuoteCall::SetRouteFee { caller, .. } => Some(caller),
            QuoteCall::SetDefaultFee { caller, .. } => Some(caller),
            QuoteCall::TransferAdmin { caller, .. } => Some(caller),
        }
    }
}

/// Every call keeps the fees within range, and a contract is initialized once.
pub proof fn calls_keep_fees_in_range(s: QuoteState, call: QuoteCall)
    requires
        s.fees_in_range(),
        call.step(s) is Ok,
    ensures
        call.step(s)->Ok_0.fees_in_range(),
        call is Initialize ==> s.admin is None,
        call.step(s)->Ok_0.admin is Some,
{
}

/// A call that only the admin may make is refused from anyone else, and also
/// from a former admin.
pub proof fn only_the_admin(s: QuoteState, call: QuoteCall, new_admin: Address)
    requires
        call.admin_caller() is Some,
    ensures
        s.admin is None ==> call.step(s) == Err::<QuoteState, QuoteError>(
            QuoteError::NotInitialized,
        ),
        s.admin is Some && s.admin != call.admin_caller() ==> call.step(s) == Err::<
            QuoteState,
            QuoteError,
        >(QuoteError::Unauthorized),
        s.admin == call.admin_caller() && s.admin != Some(new_admin) ==> call.step(
            transfer_admin_step(s, call.admin_caller()->0, new_admin)->Ok_0,
        ) == Err::<QuoteState, QuoteError>(QuoteError::Unauthorized),
{
}

/// A quote depends on the fee of its own route only.
pub proof fn only_its_own_fee_matters(s: QuoteState, t: QuoteState, request: RequestView)
    requires
        s.fee_of(request.route) == t.fee_of(request.route),
    ensures
        quote_for(s, request) == quote_for(t, request),
{
}

// ── What each call comes to ─────────────────────────────────────────────────

/// A refusal.
pub open spec fn refused(e: QuoteError) -> Result<QuoteState, QuoteError> {
    Err(e)
}

/// The contract can be initialized while it has no admin, with a fee of at most
/// all of the input. It then has that admin and that fee, and says so.
pub proof fn what_initialize_does(s: QuoteState, admin: Address, fee_bps: u32)
    ensures
        ({
            let r = initialize_step(s, admin, fee_bps);
            &&& s.admin is Some ==> r == refused(QuoteError::AlreadyInitialized)
            &&& s.admin is None && fee_bps > 10_000 ==> r == refused(QuoteError::InvalidFeeBps)
            &&& s.admin is None && fee_bps <= 10_000 ==> {
                &&& r is Ok
                &&& r->Ok_0.admin == Some(admin)
                &&& r->Ok_0.default_fee == Some(fee_bps)
                &&& r->Ok_0.route_fees == s.route_fees
                &&& r->Ok_0.events == s.events.push(
                    QuoteEventView::Initialized { admin, default_fee_bps: fee_bps },
                )
            }
        }),
{
}

/// The settings: only the admin changes them, a fee of more than all of the input
/// is refused, each changes what it says and nothing else, and each is told of.
pub proof fn what_the_settings_do(
    s: QuoteState,
    caller: Address,
    route: Seq<char>,
    fee_bps: u32,
    new_admin: Address,
)
    ensures
        ({
            let f = set_route_fee_step(s, caller, route, fee_bps);
            let d = set_default_fee_step(s, caller, fee_bps);
            let a = transfer_admin_step(s, caller, new_admin);
            &&& s.admin is None ==> {
                &&& f == refused(QuoteError::NotInitialized)
                &&& d == refused(QuoteError::NotInitialized)
                &&& a == refused(QuoteError::NotInitialized)
            }
            &&& s.admin is Some && s.admin != Some(caller) ==> {
                &&& f == refused(QuoteError::Unauthorized)
                &&& d == refused(QuoteError::Unauthorized)
                &&& a == refused(QuoteError::Unauthorized)
            }
            &&& s.admin == Some(caller) && fee_bps > 10_000 ==> {
                &&& f == refused(QuoteError::InvalidFeeBps)
                &&& d == refused(QuoteError::InvalidFeeBps)
            }
            &&& s.admin == Some(caller) && fee_bps <= 10_000 ==> {
                &&& f is Ok
                &&& f->Ok_0.admin == s.admin
                &&& f->Ok_0.default_fee == s.default_fee
                &&& f->Ok_0.route_fees == s.route_fees.insert(route, fee_bps)
                &&& f->Ok_0.events == s.events.push(QuoteEventView::RouteFeeSet { route, fee_bps })
                &&& d is Ok
                &&& d->Ok_0.admin == s.admin
                &&& d->Ok_0.default_fee == Some(fee_bps)
                &&& d->Ok_0.route_fees == s.route_fees
                &&& d->Ok_0.events == s.events.push(QuoteEventView::DefaultFeeUpdated { fee_bps })
            }
            &&& s.admin == Some(caller) ==> {
                &&& a is Ok
                &&& a->Ok_0.admin == Some(new_admin)
                &&& a->Ok_0.default_fee == s.default_fee
                &&& a->Ok_0.route_fees == s.route_fees
                &&& a->Ok_0.events == s.events.push(
                    QuoteEventView::AdminTransferred { current: caller, new_admin },
                )
            }
        }),
{
}

/// A call that goes through leaves the state of its step, and one that is refused
/// changes nothing.
pub proof fn refusals_change_nothing(
    s: QuoteState,
    t: QuoteState,
    result: Result<(), QuoteError>,
    step: Result<QuoteState, QuoteError>,
)
    requires
        went(s, t, result, step),
    ensures
        step matches Ok(u) ==> result is Ok && t == u,
        step matches Err(e) ==> result == Err::<(), QuoteError>(e) && t == s,
{
}

/// The fee of a route is its own, or else the default, or else 100 basis points.
pub proof fn which_fee_a_route_has(s: QuoteState, route: Seq<char>)
    ensures
        s.route_fees.contains_key(route) ==> s.fee_of(route) == s.route_fees[route],
        !s.route_fees.contains_key(route) && s.default_fee is Some ==> s.fee_of(route)
            == s.default_fee->0,
        !s.route_fees.contains_key(route) && s.default_fee is None ==> s.fee_of(route) == 100,
        s.default_fee matches Some(fee) ==> s.general_fee() == fee,
        s.default_fee is None ==> s.general_fee() == 100,
{
}

/// A quote is for the request: its route, tokens and amount are those asked for.
/// The fee is the share of the amount that the fee of the route says, rounded
/// down; none where the product is too large. The price impact is the share of
/// the amount that the fee is, rounded down.
pub proof fn what_a_quote_says(s: QuoteState, request: RequestView)
    requires
        s.fees_in_range(),
        request.amount_in > 0,
    ensures
        ({
            let q = quote_for(s, request);
            let product = request.amount_in * q.fee_bps;
            &&& q.route == request.route
            &&& q.token_in == request.token_in
            &&& q.token_out == request.token_out
            &&& q.amount_in == request.amount_in
            &&& q.fee_bps == s.fee_of(request.route)
            &&& product <= i128::MAX ==> q.fee_amount * 10_000 <= product < (q.fee_amount + 1)
                * 10_000
            &&& product > i128::MAX ==> q.fee_amount == 0
            &&& q.amount_out == q.amount_in - q.fee_amount
            &&& q.price_impact_bps * q.amount_in <= q.fee_amount * 10_000 < (q.price_impact_bps + 1)
                * q.amount_in
        }),
{
    let amount = request.amount_in as int;
    let bps = s.fee_of(request.route) as int;
    lemma_product_bounds(amount, bps);
    let fee = fee_on(amount, bps);
    let impact = fee * 10_000 / amount;
    assert(impact * amount <= fee * 10_000 < (impact + 1) * amount) by (nonlinear_arith)
        requires
            0 < amount,
            impact == fee * 10_000 / amount,
    ;
}

/// Requests are answered together: none are where there are none, or where one of
/// them has no positive amount. A comparison looks at its threshold first, which
/// is between nothing and everything.
pub proof fn which_requests_are_answered(requests: Seq<RequestView>, limit: i128)
    ensures
        requests.len() == 0 <==> requests_refusal(requests) == Some(QuoteError::NoQuotesProvided),
        requests_refusal(requests) is None <==> requests.len() > 0 && forall|i: int|
            0 <= i < requests.len() ==> (#[trigger] requests[i]).amount_in > 0,
        requests_refusal(requests) matches Some(e) ==> e == QuoteError::NoQuotesProvided || e
            == QuoteError::InvalidAmount,
        limit < 0 || limit > 10_000 ==> compare_refusal(requests, limit) == Some(
            QuoteError::InvalidPriceImpactBps,
        ),
        0 <= limit <= 10_000 ==> compare_refusal(requests, limit) == requests_refusal(requests),
{
}

/// Answers come in the order of the requests, one for each, and each is told of
/// in that order; nothing else changes.
pub proof fn answers_follow_the_requests(s: QuoteState, requests: Seq<RequestView>, i: int)
    requires
        0 <= i < requests.len(),
    ensures
        quotes_for(s, requests).len() == requests.len(),
        quotes_for(s, requests)[i] == quote_for(s, requests[i]),
        ({
            let t = quoted(s, requests);
            let q = quote_for(s, requests[i]);
            let event = t.events[s.events.len() + i];
            &&& t.admin == s.admin
            &&& t.default_fee == s.default_fee
            &&& t.route_fees == s.route_fees
            &&& t.events.len() == s.events.len() + requests.len()
            &&& t.events.take(s.events.len() as int) == s.events
            &&& event is QuoteCalculated
            &&& event->QuoteCalculated_route == requests[i].route
            &&& event->QuoteCalculated_amount_out == q.amount_out
            &&& event->QuoteCalculated_fee_amount == q.fee_amount
            &&& event->QuoteCalculated_price_impact_bps == q.price_impact_bps
        }),
{
    let t = quoted(s, requests);
    assert(t.events.take(s.events.len() as int) =~= s.events);
}

/// The event of one quote says what the quote does, and publishing it adds it
/// behind the others and changes nothing else.
pub proof fn quotes_are_told(s: QuoteState, q: QuoteView)
    ensures
        ({
            let t = s.publish(quote_event(q));
            &&& t.admin == s.admin
            &&& t.default_fee == s.default_fee
            &&& t.route_fees == s.route_fees
            &&& t.events == s.events.push(
                QuoteEventView::QuoteCalculated {
                    route: q.route,
                    amount_out: q.amount_out,
                    fee_amount: q.fee_amount,
                    price_impact_bps: q.price_impact_bps,
                },
            )
        }),
{
}

/// A comparison returns each quote that is within the threshold as often as it
/// was asked for, and no other.
pub proof fn comparison_keeps_repeats(
    s: QuoteState,
    requests: Seq<RequestView>,
    limit: i128,
    q: QuoteView,
)
    ensures
        compared(s, requests, limit).to_multiset().count(q) == if q.price_impact_bps <= limit {
            quotes_for(s, requests).to_multiset().count(q)
        } else {
            0
        },
{
    let quotes = quotes_for(s, requests);
    ranking_sorts(passing(quotes, limit as int));
    lemma_passing_counts(quotes, limit as int, q);
}

proof fn lemma_passing_counts(quotes: Seq<QuoteView>, limit: int, q: QuoteView)
    ensures
        passing(quotes, limit).to_multiset().count(q) == if q.price_impact_bps <= limit {
            quotes.to_multiset().count(q)
        } else {
            0
        },
    decreases quotes.len(),
{
    broadcast use vstd::seq_lib::group_to_multiset_ensures;

    if quotes.len() > 0 {
        let rest = quotes.drop_last();
        lemma_passing_counts(rest, limit, q);
        assert(rest.push(quotes.last()) =~= quotes);
    } else {
        assert(quotes =~= Seq::<QuoteView>::empty());
    }
}

/// Of quotes within the threshold that pay out the same, a comparison has the one
/// that was asked for later first.
pub proof fn comparison_turns_ties_round(
    s: QuoteState,
    requests: Seq<RequestView>,
    limit: i128,
    amount: i128,
)
    ensures
        paying(compared(s, requests, limit), amount) == paying(
            passing(quotes_for(s, requests), limit as int),
            amount,
        ).reverse(),
{
    ranking_turns_ties_round(passing(quotes_for(s, requests), limit as int), amount);
}

/// What is within a threshold keeps its order.
pub proof fn passing_keeps_the_order(quotes: Seq<QuoteView>, next: QuoteView, limit: int)
    ensures
        passing(Seq::empty(), limit) == Seq::<QuoteView>::empty(),
        next.price_impact_bps <= limit ==> passing(quotes.push(next), limit) == passing(
            quotes,
            limit,
        ).push(next),
        next.price_impact_bps > limit ==> passing(quotes.push(next), limit) == passing(
            quotes,
            limit,
        ),
{
    assert(quotes.push(next).drop_last() =~= quotes);
}

/// A contract that nobody has initialized has no admin, no fees and nothing to
/// tell.
pub proof fn what_a_fresh_contract_is()
    ensures
        QuoteState::fresh().admin is None,
        QuoteState::fresh().default_fee is None,
        QuoteState::fresh().route_fees == Map::<Seq<char>, u32>::empty(),
        QuoteState::fresh().events.len() == 0,
{
}

/// The numbers under which errors are reported.
pub proof fn error_numbers_stay()
    ensures
        QuoteError::AlreadyInitialized.number() == 1,
        QuoteError::NotInitialized.number() == 2,
        QuoteError::Unauthorized.number() == 3,
        QuoteError::InvalidAmount.number() == 4,
        QuoteError::InvalidFeeBps.number() == 5,
        QuoteError::NoQuotesProvided.number() == 6,
        QuoteError::RouteNotFound.number() == 7,
        QuoteError::InvalidPriceImpactBps.number() == 8,
{
}

/// The names under which events are published, whatever they say.
pub proof fn event_names_stay(event: QuoteEventView)
    ensures
        event is Initialized ==> event.name() == "initialized"@,
        event is RouteFeeSet ==> event.name() == "route_fee_set"@,
        event is QuoteCalculated ==> event.name() == "quote_calculated"@,
        event is BestQuoteSelected ==> event.name() == "best_quote_selected"@,
        event is QuotesCompared ==> event.name() == "quotes_compared"@,
        event is DefaultFeeUpdated ==> event.name() == "default_fee_updated"@,
        event is AdminTransferred ==> event.name() == "admin_transferred"@,
{
}

/// Why quotes are refused, and that nothing changes and nothing is told then.
pub proof fn when_quotes_are_refused(
    s: QuoteState,
    request: RequestView,
    requests: Seq<RequestView>,
    limit: i128,
)
    ensures
        ({
            let one = get_quote_step(s, request);
            let many = get_quotes_step(s, requests);
            let best = get_best_quote_step(s, requests);
            let all = compare_quotes_step(s, requests, limit);
            let unpaid = exists|i: int|
                0 <= i < requests.len() && (#[trigger] requests[i]).amount_in <= 0;
            &&& one.0 is Ok <==> request.amount_in > 0
            &&& request.amount_in <= 0 ==> one == (
                Err::<QuoteView, QuoteError>(QuoteError::InvalidAmount),
                s,
            )
            &&& many.0 is Ok <==> requests.len() > 0 && !unpaid
            &&& requests.len() == 0 ==> many == (
                Err::<Seq<QuoteView>, QuoteError>(QuoteError::NoQuotesProvided),
                s,
            ) && best == (Err::<QuoteView, QuoteError>(QuoteError::NoQuotesProvided), s)
            &&& unpaid ==> many == (
                Err::<Seq<QuoteView>, QuoteError>(QuoteError::InvalidAmount),
                s,
            ) && best == (Err::<QuoteView, QuoteError>(QuoteError::InvalidAmount), s)
            &&& best.0 is Ok <==> requests.len() > 0 && !unpaid
            &&& all.0 is Ok <==> 0 <= limit <= 10_000 && requests.len() > 0 && !unpaid
            &&& !(0 <= limit <= 10_000) ==> all == (
                Err::<Seq<QuoteView>, QuoteError>(QuoteError::InvalidPriceImpactBps),
                s,
            )
            &&& 0 <= limit <= 10_000 && requests.len() == 0 ==> all == (
                Err::<Seq<QuoteView>, QuoteError>(QuoteError::NoQuotesProvided),
                s,
            )
            &&& 0 <= limit <= 10_000 && unpaid ==> all == (
                Err::<Seq<QuoteView>, QuoteError>(QuoteError::InvalidAmount),
                s,
            )
        }),
{
}

/// What quotes return: the quote of the request, the quotes of all requests in
/// their order, one of those that pays out most, and those within the threshold;
/// and what each tells, behind one event for every request.
pub proof fn what_quotes_return(
    s: QuoteState,
    request: RequestView,
    requests: Seq<RequestView>,
    limit: i128,
)
    requires
        request.amount_in > 0,
        requests.len() > 0,
        forall|i: int| 0 <= i < requests.len() ==> (#[trigger] requests[i]).amount_in > 0,
        0 <= limit <= 10_000,
    ensures
        ({
            let one = get_quote_step(s, request);
            let q = quote_for(s, request);
            &&& one.0 == Ok::<QuoteView, QuoteError>(q)
            &&& one.1.admin == s.admin
            &&& one.1.default_fee == s.default_fee
            &&& one.1.route_fees == s.route_fees
            &&& one.1.events.len() == s.events.len() + 1
            &&& one.1.events.drop_last() == s.events
            &&& one.1.events.last() is QuoteCalculated
            &&& one.1.events.last()->QuoteCalculated_route == q.route
            &&& one.1.events.last()->QuoteCalculated_amount_out == q.amount_out
            &&& one.1.events.last()->QuoteCalculated_fee_amount == q.fee_amount
            &&& one.1.events.last()->QuoteCalculated_price_impact_bps == q.price_impact_bps
        }),
        ({
            let many = get_quotes_step(s, requests);
            &&& many.0 is Ok
            &&& many.0->Ok_0.len() == requests.len()
            &&& forall|i: int|
                0 <= i < requests.len() ==> #[trigger] many.0->Ok_0[i] == quote_for(s, requests[i])
            &&& many.1 == quoted(s, requests)
        }),
        ({
            let best = get_best_quote_step(s, requests);
            let quotes = quotes_for(s, requests);
            &&& best.0 is Ok
            &&& quotes.contains(best.0->Ok_0)
            &&& forall|i: int|
                0 <= i < quotes.len() ==> (#[trigger] quotes[i]).amount_out
                    <= best.0->Ok_0.amount_out
            &&& best.1.admin == s.admin
            &&& best.1.default_fee == s.default_fee
            &&& best.1.route_fees == s.route_fees
            &&& best.1.events.drop_last() == quoted(s, requests).events
            &&& best.1.events.last() is BestQuoteSelected
            &&& best.1.events.last()->BestQuoteSelected_route == best.0->Ok_0.route
            &&& best.1.events.last()->BestQuoteSelected_amount_out == best.0->Ok_0.amount_out
        }),
        ({
            let all = compare_quotes_step(s, requests, limit);
            &&& all.0 == Ok::<Seq<QuoteView>, QuoteError>(compared(s, requests, limit))
            &&& all.1.admin == s.admin
            &&& all.1.default_fee == s.default_fee
            &&& all.1.route_fees == s.route_fees
            &&& all.1.events.drop_last() == quoted(s, requests).events
            &&& all.1.events.last() is QuotesCompared
            &&& all.1.events.last()->QuotesCompared_count == compared(s, requests, limit).len() as u32
            &&& all.1.events.last()->QuotesCompared_max_price_impact_bps == limit
        }),
{
    let quotes = quotes_for(s, requests);
    let at = best_is_the_first_maximum(quotes);
    assert(quotes.contains(quotes[at]));
    assert(get_quote_step(s, request).1.events.drop_last() =~= s.events);
    assert(get_best_quote_step(s, requests).1.events.drop_last() =~= quoted(s, requests).events);
    assert(compare_quotes_step(s, requests, limit).1.events.drop_last() =~= quoted(
        s,
        requests,
    ).events);
}

/// What is returned says what it holds.
pub proof fn what_results_say(
    one: Result<QuoteResponse, QuoteError>,
    many: Result<Vec<QuoteResponse>, QuoteError>,
    i: int,
)
    ensures
        one matches Ok(q) ==> quote_result(one) == Ok::<QuoteView, QuoteError>(q@),
        one matches Err(e) ==> quote_result(one) == Err::<QuoteView, QuoteError>(e),
        many matches Ok(v) ==> quotes_result(many) is Ok && quotes_result(many)->Ok_0.len()
            == v@.len() && (0 <= i < v@.len() ==> quotes_result(many)->Ok_0[i] == v@[i]@),
        many matches Err(e) ==> quotes_result(many) == Err::<Seq<QuoteView>, QuoteError>(e),
{
}

/// A fee is the share of the amount that the basis points say, rounded down, and
/// the price impact is the share of the amount that the fee is, rounded down too.
/// Where the product of amount and basis points has no room there is no fee.
pub proof fn shares_are_rounded_down(s: QuoteState, request: RequestView)
    requires
        s.fees_in_range(),
        request.amount_in > 0,
    ensures
        ({
            let q = quote_for(s, request);
            let bps = q.fee_bps as int;
            let amount = request.amount_in as int;
            &&& amount * bps <= i128::MAX ==> q.fee_amount * 10_000 <= amount * bps < (q.fee_amount
                + 1) * 10_000
            &&& amount * bps > i128::MAX ==> q.fee_amount == 0
            &&& q.amount_out == amount - q.fee_amount
            &&& q.price_impact_bps * amount <= q.fee_amount * 10_000 < (q.price_impact_bps + 1)
                * amount
        }),
{
    let q = quote_for(s, request);
    let bps = s.fee_of(request.route) as int;
    let amount = request.amount_in as int;
    let fee = fee_on(amount, bps);
    assert(0 <= amount * bps <= amount * 10_000) by (nonlinear_arith)
        requires
            0 <= bps <= 10_000,
            0 < amount,
    ;
    assert(0 <= fee <= amount);
    let impact = fee * 10_000 / amount;
    vstd::arithmetic::div_mod::lemma_fundamental_div_mod(fee * 10_000, amount);
    vstd::arithmetic::div_mod::lemma_mod_bound(fee * 10_000, amount);
    assert(impact * amount <= fee * 10_000 < (impact + 1) * amount) by (nonlinear_arith)
        requires
            fee * 10_000 == amount * impact + (fee * 10_000) % amount,
            0 <= (fee * 10_000) % amount < amount,
    ;
    assert(0 <= impact <= 10_000) by (nonlinear_arith)
        requires
            impact * amount <= fee * 10_000 < (impact + 1) * amount,
            0 <= fee <= amount,
            0 < amount,
    ;
}

} // verus!
