//! What holds of scrape cycles whatever the replies are.

use vstd::prelude::*;

use crate::collector::{
    counted, counts_events, cursor_key, cycle_from, kind_of, new_events, newest, outcome_of, step,
    step_updates, update_of,
};
use crate::collector::{Change, ContractKind, Metric, Phase, RpcReply};
use crate::collector::{CollectorView, CycleView, Outcome, ScrapeView};

verus! {

/// Whether a cycle scrapes the contract at its place, from the cursor of that
/// contract on.
pub open spec fn cycle_fits(s: CollectorView, c: CycleView) -> bool {
    match c.scrape {
        None => c.at == 5,
        Some(scrape) => {
            &&& c.at < 5
            &&& scrape.kind == kind_of(c.at)
            &&& scrape.contract == s.targets[c.at as int]
            &&& scrape.contract.len() > 0
            &&& scrape.start_ledger == s.cursor(scrape.kind, scrape.contract)
            &&& scrape.in_order()
        },
    }
}

/// Where a cycle begins or goes on, it fits its collector, and contracts with an
/// empty identifier are left out. Without any contract there is nothing to do,
/// and that is a success.
pub proof fn cycles_begin_well(s: CollectorView, from: nat, ok: bool)
    requires
        s.targets.len() == 5,
        from <= 5,
    ensures
        cycle_fits(s, cycle_from(s, from, ok)),
        cycle_from(s, from, ok).ok == ok,
        cycle_from(s, from, ok).at >= from,
        forall|i: int|
            from <= i < cycle_from(s, from, ok).at ==> (#[trigger] s.targets[i]).len() == 0,
    decreases 5 - from,
{
    if from < 5 && s.targets[from as int].len() == 0 {
        cycles_begin_well(s, from + 1, ok);
    }
}

/// Every reply leaves a cycle that fits its collector, with the same contracts
/// to scrape.
pub proof fn replies_keep_cycles_fitting(s: CollectorView, c: CycleView, reply: RpcReply)
    requires
        s.targets.len() == 5,
        cycle_fits(s, c),
        c.scrape is Some,
    ensures
        cycle_fits(step(s, c, reply).0, step(s, c, reply).1),
        step(s, c, reply).0.targets == s.targets,
{
    let scrape = c.scrape->0;
    match outcome_of(scrape, reply) {
        Outcome::Next(_) => {},
        Outcome::Done(ledger) => {
            let moved = s.moved(scrape.kind, scrape.contract, scrape.start_ledger, ledger);
            cycles_begin_well(moved, c.at + 1, c.ok);
        },
        Outcome::Failed => {
            cycles_begin_well(s, c.at + 1, false);
        },
    }
}

/// The keys of cursors of contracts of different kinds are different.
proof fn lemma_cursor_keys(a: ContractKind, x: Seq<char>, b: ContractKind, y: Seq<char>)
    requires
        counts_events(a),
        counts_events(b),
    ensures
        cursor_key(a, x) == cursor_key(b, y) <==> a == b && x == y,
{
    reveal_strlit("quote:");
    reveal_strlit("execution:");
    let p = cursor_key(a, x);
    let q = cursor_key(b, y);
    assert(p[0] == if a is Quote { 'q' } else { 'e' });
    assert(q[0] == if b is Quote { 'q' } else { 'e' });
    if p == q {
        let n: int = if a is Quote { 6 } else { 10 };
        assert(p.skip(n) =~= x);
        assert(q.skip(n) =~= y);
    }
}

/// No reply moves a cursor back, and no reply moves the cursor of another
/// contract than the one that is being scraped.
pub proof fn cursors_never_go_back(
    s: CollectorView,
    c: CycleView,
    reply: RpcReply,
    kind: ContractKind,
    contract: Seq<char>,
)
    requires
        cycle_fits(s, c),
        c.scrape is Some,
    ensures
        step(s, c, reply).0.cursor(kind, contract) >= s.cursor(kind, contract),
        kind != c.scrape->0.kind || contract != c.scrape->0.contract ==> step(
            s,
            c,
            reply,
        ).0.cursor(kind, contract) == s.cursor(kind, contract),
{
    let scrape = c.scrape->0;
    if counts_events(kind) && counts_events(scrape.kind) {
        lemma_cursor_keys(kind, contract, scrape.kind, scrape.contract);
    }
}

/// The newest ledger is at least as new as each.
proof fn lemma_newest(ledgers: Seq<u32>, start: u32)
    ensures
        newest(ledgers, start) >= start,
        forall|i: int| 0 <= i < ledgers.len() ==> newest(ledgers, start) >= #[trigger] ledgers[i],
        newest(ledgers, start) == start || ledgers.contains(newest(ledgers, start)),
    decreases ledgers.len(),
{
    if ledgers.len() > 0 {
        let rest = ledgers.drop_last();
        lemma_newest(rest, start);
        assert forall|i: int| 0 <= i < ledgers.len() implies newest(ledgers, start)
            >= #[trigger] ledgers[i] by {
            if i < rest.len() {
                assert(rest[i] == ledgers[i]);
            }
        }
        let n = newest(ledgers, start);
        if n == ledgers.last() {
            assert(ledgers[ledgers.len() - 1] == n);
        } else if n != start {
            let i = choose|i: int| 0 <= i < rest.len() && rest[i] == n;
            assert(ledgers[i] == n);
        }
    }
}

/// The ledgers of the events that a scrape has seen with a reply.
pub open spec fn seen(scrape: ScrapeView, reply: RpcReply) -> Seq<u32> {
    match (scrape.phase, reply) {
        (Phase::Second, RpcReply::Events(ledgers)) => scrape.first + ledgers@,
        _ => scrape.first + scrape.second,
    }
}

/// Events of ledgers up to `start` are not new.
proof fn lemma_no_new_events(ledgers: Seq<u32>, start: u32)
    requires
        forall|i: int| 0 <= i < ledgers.len() ==> #[trigger] ledgers[i] <= start,
    ensures
        new_events(ledgers, start) == 0,
    decreases ledgers.len(),
{
    reveal(Seq::filter);
    if ledgers.len() > 0 {
        let rest = ledgers.drop_last();
        assert forall|i: int| 0 <= i < rest.len() implies #[trigger] rest[i] <= start by {
            assert(rest[i] == ledgers[i]);
        }
        lemma_no_new_events(rest, start);
    }
}

/// New events of two lists are those of the one and those of the other.
proof fn lemma_new_events_append(a: Seq<u32>, b: Seq<u32>, start: u32)
    ensures
        new_events(a + b, start) == new_events(a, start) + new_events(b, start),
    decreases b.len(),
{
    reveal(Seq::filter);
    if b.len() == 0 {
        assert(a + b =~= a);
    } else {
        assert((a + b).drop_last() =~= a + b.drop_last());
        assert((a + b).last() == b.last());
        lemma_new_events_append(a, b.drop_last(), start);
    }
}

/// When the scrape of a contract whose events are counted is done, its cursor
/// has reached every ledger of the events seen, and stands where it was or at
/// one of them. Once it is above zero, none of those events adds to a count
/// again: whatever else a later reply holds, the same events in it change
/// nothing.
pub proof fn counted_events_are_not_counted_again(
    s: CollectorView,
    c: CycleView,
    reply: RpcReply,
    others: Seq<u32>,
)
    requires
        cycle_fits(s, c),
        c.scrape is Some,
        counts_events(c.scrape->0.kind),
        outcome_of(c.scrape->0, reply) is Done,
    ensures
        ({
            let scrape = c.scrape->0;
            let after = step(s, c, reply).0.cursor(scrape.kind, scrape.contract);
            &&& forall|i: int|
                0 <= i < seen(scrape, reply).len() ==> after >= #[trigger] seen(scrape, reply)[i]
            &&& after == scrape.start_ledger || seen(scrape, reply).contains(after)
            &&& new_events(seen(scrape, reply), after) == 0
            &&& after > 0 ==> counted(after, seen(scrape, reply) + others) == counted(after, others)
        }),
{
    let scrape = c.scrape->0;
    let after = step(s, c, reply).0.cursor(scrape.kind, scrape.contract);
    lemma_newest(seen(scrape, reply), scrape.start_ledger);
    lemma_no_new_events(seen(scrape, reply), after);
    lemma_new_events_append(seen(scrape, reply), others, after);
}

/// What a change makes of a value.
pub open spec fn applied(value: int, change: Change) -> int {
    match change {
        Change::Replace(n) => n as int,
        Change::Increase(n) => value + n,
        Change::ObserveElapsed => value,
    }
}

/// Counting events in two scrapes counts each event once: whatever the metric
/// was before, after the baseline and one more scrape it is the number of events
/// of the first and of the events of the second that are of later ledgers than
/// those. Ledgers are numbered from one.
pub proof fn counts_add_up(value: int, first: Seq<u32>, second: Seq<u32>)
    requires
        forall|i: int| 0 <= i < first.len() ==> #[trigger] first[i] > 0,
        forall|i: int| 0 <= i < second.len() ==> #[trigger] second[i] > 0,
        first.len() <= u64::MAX,
        second.len() <= u64::MAX,
    ensures
        applied(applied(value, counted(0, first)), counted(newest(first, 0), second))
            == first.len() + new_events(second, newest(first, 0)),
{
    lemma_newest(first, 0);
    second.lemma_filter_len(|ledger: u32| ledger > newest(first, 0));
    if first.len() > 0 {
        assert(newest(first, 0) >= first[0]);
    } else {
        lemma_all_new_events(second, 0);
    }
}

proof fn lemma_all_new_events(ledgers: Seq<u32>, start: u32)
    requires
        forall|i: int| 0 <= i < ledgers.len() ==> #[trigger] ledgers[i] > start,
    ensures
        new_events(ledgers, start) == ledgers.len(),
    decreases ledgers.len(),
{
    reveal(Seq::filter);
    if ledgers.len() > 0 {
        let rest = ledgers.drop_last();
        assert forall|i: int| 0 <= i < rest.len() implies #[trigger] rest[i] > start by {
            assert(rest[i] == ledgers[i]);
        }
        lemma_all_new_events(rest, start);
    }
}

/// A scrape that fails is counted once, fails the cycle, moves no cursor, and
/// lets the next contract have its turn.
pub proof fn failures_are_counted(s: CollectorView, c: CycleView, reply: RpcReply)
    requires
        c.scrape is Some,
        outcome_of(c.scrape->0, reply) is Failed,
    ensures
        step(s, c, reply).0 == s,
        step(s, c, reply).1 == cycle_from(s, c.at + 1, false),
        step_updates(c, reply).last() == update_of(
            Metric::ScrapeErrorsTotal,
            c.scrape->0.contract,
            Change::Increase(1),
        ),
{
}

/// A cycle that has failed stays failed, and one fails only where a scrape does.
pub proof fn cycles_fail_with_a_scrape(s: CollectorView, c: CycleView, reply: RpcReply)
    requires
        s.targets.len() == 5,
        cycle_fits(s, c),
        c.scrape is Some,
    ensures
        step(s, c, reply).1.ok == (c.ok && !(outcome_of(c.scrape->0, reply) is Failed)),
{
    let scrape = c.scrape->0;
    match outcome_of(scrape, reply) {
        Outcome::Next(_) => {},
        Outcome::Done(ledger) => {
            let moved = s.moved(scrape.kind, scrape.contract, scrape.start_ledger, ledger);
            cycles_begin_well(moved, c.at + 1, c.ok);
        },
        Outcome::Failed => {
            cycles_begin_well(s, c.at + 1, false);
        },
    }
}

/// How many phases of its scrape a contract has behind it.
pub open spec fn phases_done(phase: Phase) -> int {
    match phase {
        Phase::Total => 0,
        Phase::Names => 1,
        Phase::Item => 2,
        Phase::First => 0,
        Phase::Second => 1,
        Phase::Entries => 2,
    }
}

/// How far a cycle has come: contracts, then phases, then names.
pub open spec fn progress(c: CycleView) -> (int, int, int) {
    match c.scrape {
        None => (c.at as int, 0, 0),
        Some(scrape) => (c.at as int, phases_done(scrape.phase), scrape.next as int),
    }
}

/// Every reply brings a cycle on: to a later contract, or to a later phase of the
/// same, or to the next of its names, of which there are finitely many. So every
/// cycle comes to its end.
pub proof fn replies_bring_cycles_on(s: CollectorView, c: CycleView, reply: RpcReply)
    requires
        s.targets.len() == 5,
        cycle_fits(s, c),
        c.scrape is Some,
    ensures
        ({
            let before = progress(c);
            let after = progress(step(s, c, reply).1);
            ||| after.0 > before.0
            ||| after.0 == before.0 && after.1 > before.1
            ||| after.0 == before.0 && after.1 == before.1 && after.2 > before.2 && after.2
                < c.scrape->0.names.len() && step(s, c, reply).1.scrape->0.names
                == c.scrape->0.names
        }),
        step(s, c, reply).1.at <= 5,
{
    let scrape = c.scrape->0;
    match outcome_of(scrape, reply) {
        Outcome::Next(_) => {},
        Outcome::Done(ledger) => {
            let moved = s.moved(scrape.kind, scrape.contract, scrape.start_ledger, ledger);
            cycles_begin_well(moved, c.at + 1, c.ok);
        },
        Outcome::Failed => {
            cycles_begin_well(s, c.at + 1, false);
        },
    }
}

} // verus!
