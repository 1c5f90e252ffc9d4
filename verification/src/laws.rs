use vstd::prelude::*;

use crate::contract::{
    duration_of, lemma_step_keeps_valid, lemma_trade_events_push, trade_events,
    winner_of, ArenaView, Call,
};
use crate::decimal::{decimal, digit_char};
use crate::onchain::{create_revert, trade_digest, ModuleCall, ModuleView, OdraMatchStatus, StoredView};
use crate::types::{ArenaError, MatchId, MatchStatus, MatchView, Motes, TradeView};

verus! {

/// A settlement names the agent with the strictly larger final value as
/// winner, and no winner on a tie.
pub proof fn law_winner_rule(agent_a: Seq<char>, agent_b: Seq<char>, value_a: Motes, value_b: Motes)
    ensures
        value_a > value_b ==> winner_of(agent_a, agent_b, value_a, value_b) == Some(agent_a),
        value_b > value_a ==> winner_of(agent_a, agent_b, value_a, value_b) == Some(agent_b),
        winner_of(agent_a, agent_b, value_a, value_b) is None <==> value_a == value_b,
        agent_a != agent_b ==> (winner_of(agent_a, agent_b, value_a, value_b) == Some(agent_a)
            <==> value_a > value_b),
{
}

/// The winner that `get_winner` reports after a settlement is the one the
/// settlement returned.
pub proof fn law_settled_winner_is_kept(
    s: ArenaView,
    match_id: MatchId,
    final_value_a: Motes,
    final_value_b: Motes,
    settlement_hash: Seq<char>,
)
    requires
        s.matches.contains_key(match_id),
    ensures
        ({
            let t = s.after_settle(match_id, final_value_a, final_value_b, settlement_hash);
            &&& t.matches.contains_key(match_id)
            &&& t.matches[match_id].status == MatchStatus::Settled
            &&& t.matches[match_id].winner == winner_of(
                s.matches[match_id].agent_a,
                s.matches[match_id].agent_b,
                final_value_a,
                final_value_b,
            )
        }),
{
}

/// Only the verifier of a match can settle it.
pub proof fn law_only_verifier_settles(
    s: ArenaView,
    caller: Seq<char>,
    match_id: MatchId,
    current_block: u64,
    settlement_hash: Seq<char>,
)
    requires
        s.matches.contains_key(match_id),
        caller != s.matches[match_id].verifier,
    ensures
        s.settle_error(caller, match_id, current_block, settlement_hash) is Some,
{
}

/// No match is settled before its end block.
pub proof fn law_no_settlement_before_end(
    s: ArenaView,
    caller: Seq<char>,
    match_id: MatchId,
    current_block: u64,
    settlement_hash: Seq<char>,
)
    requires
        s.matches.contains_key(match_id),
        current_block < s.matches[match_id].end_block,
    ensures
        s.settle_error(caller, match_id, current_block, settlement_hash) is Some,
{
}

/// Only the two agents of a match can record trades in it, and each only
/// under its own name.
pub proof fn law_only_agents_trade(s: ArenaView, caller: Seq<char>, trade: TradeView, current_block: u64)
    requires
        s.matches.contains_key(trade.match_id),
        (caller != s.matches[trade.match_id].agent_a && caller != s.matches[trade.match_id].agent_b)
            || trade.agent != caller,
    ensures
        s.record_error(caller, trade, current_block) is Some,
{
}

/// No trade is recorded in a match that has not started, or once it has
/// passed its end block.
pub proof fn law_trades_only_while_active(
    s: ArenaView,
    caller: Seq<char>,
    trade: TradeView,
    current_block: u64,
)
    requires
        s.matches.contains_key(trade.match_id),
        trade.reasoning_hash.len() > 0,
        trade.evidence_hash.len() > 0,
        s.matches[trade.match_id].status != MatchStatus::Active || current_block
            > s.matches[trade.match_id].end_block,
    ensures
        s.record_error(caller, trade, current_block) == Some(ArenaError::NotActive),
{
}


/// The empty ledger holds the invariant.
pub proof fn law_initial_valid()
    ensures
        ArenaView::initial().valid(),
{
}

/// Every sequence of requests the machine's integers permit keeps the
/// invariant.
pub proof fn law_run_keeps_valid(s: ArenaView, calls: Seq<Call>)
    requires
        s.valid(),
        s.runnable(calls),
    ensures
        s.run(calls).valid(),
    decreases calls.len(),
{
    if calls.len() > 0 {
        law_run_keeps_valid(s, calls.drop_last());
        lemma_step_keeps_valid(s.run(calls.drop_last()), calls.last());
    }
}

/// Whether a request is accepted where it is made.
pub open spec fn accepted(s: ArenaView, c: Call) -> bool {
    s.call_error(c) is None
}

/// The number of requests of the sequence that are accepted.
pub open spec fn accepted_count(s: ArenaView, calls: Seq<Call>) -> nat
    decreases calls.len(),
{
    if calls.len() == 0 {
        0
    } else {
        accepted_count(s, calls.drop_last()) + if accepted(s.run(calls.drop_last()), calls.last()) {
            1nat
        } else {
            0nat
        }
    }
}

/// The identifiers that the accepted creations of the sequence return, in
/// order.
pub open spec fn created_ids(s: ArenaView, calls: Seq<Call>) -> Seq<MatchId>
    decreases calls.len(),
{
    if calls.len() == 0 {
        Seq::empty()
    } else {
        let before = s.run(calls.drop_last());
        let ids = created_ids(s, calls.drop_last());
        if calls.last() is Create && accepted(before, calls.last()) {
            ids.push(before.next_match_id)
        } else {
            ids
        }
    }
}

/// The number of accepted requests of the sequence that record a trade in
/// match `k`.
pub open spec fn accepted_records(s: ArenaView, calls: Seq<Call>, k: MatchId) -> nat
    decreases calls.len(),
{
    if calls.len() == 0 {
        0
    } else {
        let before = s.run(calls.drop_last());
        accepted_records(s, calls.drop_last(), k) + if calls.last() matches Call::Record {
            trade,
            ..
        } && trade.match_id == k && accepted(before, calls.last()) {
            1nat
        } else {
            0nat
        }
    }
}

/// One request appends one event when it is accepted and none when it is
/// refused, and keeps every event before it.
pub proof fn law_event_log_step(s: ArenaView, c: Call)
    ensures
        s.step(c).events.len() == s.events.len() + if accepted(s, c) {
            1nat
        } else {
            0nat
        },
        s.step(c).events.take(s.events.len() as int) == s.events,
        accepted(s, c) ==> s.step(c).events == s.events.push(s.step(c).events.last()),
{
    let t = s.step(c);
    assert(t.events.take(s.events.len() as int) =~= s.events);
    if accepted(s, c) {
        assert(t.events =~= s.events.push(t.events.last()));
    }
}

/// The event log is append-only: after any sequence of requests it starts
/// with the events before it and has one more event per accepted request.
pub proof fn law_event_log_append_only(s: ArenaView, calls: Seq<Call>)
    ensures
        s.run(calls).events.len() == s.events.len() + accepted_count(s, calls),
        s.run(calls).events.take(s.events.len() as int) == s.events,
    decreases calls.len(),
{
    if calls.len() > 0 {
        let before = s.run(calls.drop_last());
        law_event_log_append_only(s, calls.drop_last());
        law_event_log_step(before, calls.last());
        let t = s.run(calls).events;
        assert(t.take(s.events.len() as int) =~= before.events.take(s.events.len() as int)) by {
            assert(t.take(before.events.len() as int) == before.events);
        }
    }
}

/// One request counts a trade in match `k` exactly when it is an accepted
/// trade in `k`.
pub proof fn lemma_trade_events_step(s: ArenaView, c: Call, k: MatchId)
    ensures
        trade_events(s.step(c).events, k) == trade_events(s.events, k) + if c matches Call::Record {
            trade,
            ..
        } && trade.match_id == k && accepted(s, c) {
            1nat
        } else {
            0nat
        },
{
    if accepted(s, c) {
        let e = s.step(c).events.last();
        law_event_log_step(s, c);
        lemma_trade_events_push(s.events, e, k);
    }
}

/// The trade count of a match is the number of accepted trades in it and
/// the number of trade events for it in the log: from any ledger, a
/// sequence of requests adds to the log one trade event for `k` per
/// accepted trade in `k`.
pub proof fn law_trade_count_counts_records(s: ArenaView, calls: Seq<Call>, k: MatchId)
    requires
        s.valid(),
        s.runnable(calls),
    ensures
        trade_events(s.run(calls).events, k) == trade_events(s.events, k) + accepted_records(
            s,
            calls,
            k,
        ),
        trade_events(s.run(calls).events, k) == (if s.run(calls).matches.contains_key(k) {
            s.run(calls).matches[k].trade_count as nat
        } else {
            0
        }),
    decreases calls.len(),
{
    law_run_keeps_valid(s, calls);
    if calls.len() > 0 {
        law_trade_count_counts_records(s, calls.drop_last(), k);
        lemma_trade_events_step(s.run(calls.drop_last()), calls.last(), k);
    }
}

/// From a new ledger, the trade count of every match, and 0 for an unknown
/// identifier, is the number of accepted trades in it.
pub proof fn law_trade_count_from_new(calls: Seq<Call>, k: MatchId)
    requires
        ArenaView::initial().runnable(calls),
    ensures
        ({
            let t = ArenaView::initial().run(calls);
            &&& (if t.matches.contains_key(k) {
                t.matches[k].trade_count as nat
            } else {
                0
            }) == accepted_records(ArenaView::initial(), calls, k)
            &&& trade_events(t.events, k) == accepted_records(ArenaView::initial(), calls, k)
        }),
{
    law_trade_count_counts_records(ArenaView::initial(), calls, k);
}

/// Identifiers are consecutive: the accepted creations of any sequence of
/// requests get the identifiers that follow one another from the ledger's
/// next one, refused requests use none up, and no identifier is reused.
pub proof fn law_identifiers_are_consecutive(s: ArenaView, calls: Seq<Call>)
    requires
        s.valid(),
        s.runnable(calls),
    ensures
        forall|i: int|
            0 <= i < created_ids(s, calls).len() ==> #[trigger] created_ids(s, calls)[i]
                == s.next_match_id + i,
        s.run(calls).next_match_id == s.next_match_id + created_ids(s, calls).len(),
        forall|k: MatchId| #[trigger]
            s.run(calls).matches.contains_key(k) ==> k < s.run(calls).next_match_id,
    decreases calls.len(),
{
    law_run_keeps_valid(s, calls);
    if calls.len() > 0 {
        law_identifiers_are_consecutive(s, calls.drop_last());
        let before = s.run(calls.drop_last());
        let ids = created_ids(s, calls.drop_last());
        if calls.last() is Create && accepted(before, calls.last()) {
            assert forall|i: int| 0 <= i < created_ids(s, calls).len() implies #[trigger] created_ids(
                s,
                calls,
            )[i] == s.next_match_id + i by {
                if i < ids.len() {
                    assert(created_ids(s, calls)[i] == ids[i]);
                }
            }
        }
    }
}

/// From a new ledger, the matches get the identifiers 1, 2, 3, ... in the
/// order of their creation.
pub proof fn law_identifiers_from_new(calls: Seq<Call>)
    requires
        ArenaView::initial().runnable(calls),
    ensures
        forall|i: int|
            0 <= i < created_ids(ArenaView::initial(), calls).len() ==> #[trigger] created_ids(
                ArenaView::initial(),
                calls,
            )[i] == i + 1,
        ArenaView::initial().run(calls).next_match_id == created_ids(
            ArenaView::initial(),
            calls,
        ).len() + 1,
{
    law_identifiers_are_consecutive(ArenaView::initial(), calls);
}

/// One request keeps a started match started, with its creator and
/// verifier, and leaves a settled match as it is.
pub proof fn lemma_step_keeps_started(s: ArenaView, c: Call, id: MatchId)
    requires
        s.valid(),
        s.permits(c),
        s.matches.contains_key(id),
        s.matches[id].status != MatchStatus::Pending,
    ensures
        s.step(c).matches.contains_key(id),
        s.step(c).matches[id].status != MatchStatus::Pending,
        s.step(c).matches[id].creator == s.matches[id].creator,
        s.step(c).matches[id].verifier == s.matches[id].verifier,
        s.matches[id].status == MatchStatus::Settled ==> s.step(c).matches[id] == s.matches[id],
{
}

/// A started match is never pending again: whatever requests follow, it
/// keeps its creator and verifier, and a request of either to start it
/// again is refused as not pending.
pub proof fn law_started_match_stays_started(s: ArenaView, calls: Seq<Call>, id: MatchId)
    requires
        s.valid(),
        s.runnable(calls),
        s.matches.contains_key(id),
        s.matches[id].status != MatchStatus::Pending,
    ensures
        s.run(calls).matches.contains_key(id),
        s.run(calls).matches[id].status != MatchStatus::Pending,
        s.run(calls).matches[id].creator == s.matches[id].creator,
        s.run(calls).matches[id].verifier == s.matches[id].verifier,
        s.run(calls).start_error(s.matches[id].creator, id) == Some(ArenaError::NotPending),
        s.run(calls).start_error(s.matches[id].verifier, id) == Some(ArenaError::NotPending),
    decreases calls.len(),
{
    if calls.len() > 0 {
        law_started_match_stays_started(s, calls.drop_last(), id);
        law_run_keeps_valid(s, calls.drop_last());
        lemma_step_keeps_started(s.run(calls.drop_last()), calls.last(), id);
    }
}

/// A settled match is final: whatever requests follow, its values, winner
/// and settlement hash stay as they are, and a new settlement by its
/// verifier is refused as not active.
pub proof fn law_settled_match_stays_final(
    s: ArenaView,
    calls: Seq<Call>,
    id: MatchId,
    current_block: u64,
    settlement_hash: Seq<char>,
)
    requires
        s.valid(),
        s.runnable(calls),
        s.matches.contains_key(id),
        s.matches[id].status == MatchStatus::Settled,
        settlement_hash.len() > 0,
    ensures
        s.run(calls).matches.contains_key(id),
        s.run(calls).matches[id] == s.matches[id],
        s.run(calls).settle_error(s.matches[id].verifier, id, current_block, settlement_hash)
            == Some(ArenaError::NotActive),
    decreases calls.len(),
{
    if calls.len() > 0 {
        law_settled_match_stays_final(s, calls.drop_last(), id, current_block, settlement_hash);
        law_run_keeps_valid(s, calls.drop_last());
        lemma_step_keeps_started(s.run(calls.drop_last()), calls.last(), id);
    }
}

/// The winner a settlement returns is the one the ledger keeps for the
/// match from then on, whatever requests follow.
pub proof fn law_settlement_winner_is_final(
    s: ArenaView,
    caller: Seq<char>,
    match_id: MatchId,
    current_block: u64,
    final_value_a: Motes,
    final_value_b: Motes,
    settlement_hash: Seq<char>,
    later: Seq<Call>,
)
    requires
        s.valid(),
        s.settle_error(caller, match_id, current_block, settlement_hash) is None,
        s.after_settle(match_id, final_value_a, final_value_b, settlement_hash).runnable(later),
    ensures
        ({
            let t = s.after_settle(match_id, final_value_a, final_value_b, settlement_hash).run(
                later,
            );
            &&& t.matches.contains_key(match_id)
            &&& t.matches[match_id].winner == winner_of(
                s.matches[match_id].agent_a,
                s.matches[match_id].agent_b,
                final_value_a,
                final_value_b,
            )
        }),
{
    let c = Call::Settle {
        caller,
        match_id,
        current_block,
        final_value_a,
        final_value_b,
        settlement_hash,
    };
    lemma_step_keeps_valid(s, c);
    let u = s.after_settle(match_id, final_value_a, final_value_b, settlement_hash);
    assert(u == s.step(c));
    law_settled_match_stays_final(u, later, match_id, current_block, settlement_hash);
}

/// A new match gets an identifier that no match had before, and the next
/// one grows by one.
pub proof fn law_fresh_identifiers(
    s: ArenaView,
    caller: Seq<char>,
    agent_a: Seq<char>,
    agent_b: Seq<char>,
    verifier: Seq<char>,
    current_block: u64,
    duration_blocks: u64,
    start_budget: Motes,
)
    requires
        s.valid(),
        s.next_match_id < u64::MAX,
    ensures
        !s.matches.contains_key(s.next_match_id),
        ({
            let t = s.after_create(
                caller,
                agent_a,
                agent_b,
                verifier,
                current_block,
                duration_blocks,
                start_budget,
            );
            &&& t.next_match_id == s.next_match_id + 1
            &&& t.matches.dom() == s.matches.dom().insert(s.next_match_id)
            &&& t.matches[s.next_match_id].status == MatchStatus::Pending
        }),
{
    let t = s.after_create(
        caller,
        agent_a,
        agent_b,
        verifier,
        current_block,
        duration_blocks,
        start_budget,
    );
    assert(t.matches.dom() =~= s.matches.dom().insert(s.next_match_id));
}

/// Starting a match moves its window to the current block and keeps its
/// length.
pub proof fn law_start_keeps_duration(s: ArenaView, match_id: MatchId, current_block: u64)
    requires
        s.valid(),
        s.matches.contains_key(match_id),
        current_block + duration_of(s.matches[match_id]) <= u64::MAX,
    ensures
        ({
            let before = s.matches[match_id];
            let after = s.after_start(match_id, current_block).matches[match_id];
            &&& after.start_block == current_block
            &&& after.end_block - after.start_block == before.end_block - before.start_block
            &&& after.end_block > after.start_block
        }),
{
}

/// The ledger and the on-chain module accept the same requests to create a
/// match.
pub proof fn law_creation_rules_agree(
    duration_blocks: u64,
    start_budget: u64,
    agent_a: Seq<char>,
    agent_b: Seq<char>,
)
    ensures
        ArenaView::create_error(duration_blocks, start_budget as Motes, agent_a, agent_b) is None
            <==> create_revert(duration_blocks, start_budget, agent_a, agent_b) is None,
{
}


/// The status the module stores for a ledger status.
pub open spec fn stored_status(st: MatchStatus) -> OdraMatchStatus {
    match st {
        MatchStatus::Pending => OdraMatchStatus::Pending,
        MatchStatus::Active => OdraMatchStatus::Active,
        MatchStatus::Settled => OdraMatchStatus::Settled,
    }
}

/// Whether the module's storage for a match says what the ledger's match
/// says: the same accounts, blocks, budget, status, values, trade count and
/// winner, and, once settled, the same settlement hash. (While a match runs
/// the module keeps the digest of its last trade where the ledger keeps no
/// hash.)
pub open spec fn match_agrees(mv: MatchView, sv: StoredView) -> bool {
    &&& mv.creator == sv.creator
    &&& mv.agent_a == sv.agent_a
    &&& mv.agent_b == sv.agent_b
    &&& mv.verifier == sv.verifier
    &&& mv.start_block == sv.start_block
    &&& mv.end_block == sv.end_block
    &&& mv.start_budget == sv.start_budget as Motes
    &&& sv.status == Some(stored_status(mv.status))
    &&& mv.value_a == sv.value_a as Motes
    &&& mv.value_b == sv.value_b as Motes
    &&& mv.trade_count == sv.trade_count
    &&& mv.winner == sv.winner
    &&& mv.status == MatchStatus::Settled ==> mv.settlement_hash == sv.settlement_hash
}

/// Whether the module's storage says what the ledger says: the same next
/// identifier, the same matches, and each match alike.
pub open spec fn ledger_agrees(l: ArenaView, m: ModuleView) -> bool {
    &&& l.next_match_id == m.next_match_id
    &&& forall|k: MatchId| #[trigger] l.matches.contains_key(k) <==> m.stored.contains_key(k)
    &&& forall|k: MatchId| #[trigger]
        l.matches.contains_key(k) ==> match_agrees(l.matches[k], m.stored[k])
}

/// Whether a ledger request and a module request are the same request: the
/// same accounts, identifiers, blocks, values that fit the module's
/// integers and hashes; a trade named after its caller; and a non-empty
/// action and pair, which only the module receives.
pub open spec fn calls_agree(c: Call, mc: ModuleCall) -> bool {
    match (c, mc) {
        (
            Call::Create {
                caller,
                agent_a,
                agent_b,
                verifier,
                current_block,
                duration_blocks,
                start_budget,
            },
            ModuleCall::Create {
                creator: c2,
                agent_a: a2,
                agent_b: b2,
                verifier: v2,
                current_block: cb2,
                duration_blocks: d2,
                start_budget: s2,
            },
        ) => caller == c2 && agent_a == a2 && agent_b == b2 && verifier == v2 && current_block
            == cb2 && duration_blocks == d2 && start_budget == s2 as Motes,
        (
            Call::Start { caller, match_id, current_block },
            ModuleCall::Start { match_id: id2, caller: c2, current_block: cb2 },
        ) => caller == c2 && match_id == id2 && current_block == cb2,
        (
            Call::Record { caller, trade, current_block },
            ModuleCall::Record {
                match_id: id2,
                caller: c2,
                action,
                pair,
                portfolio_value,
                reasoning_hash,
                evidence_hash,
                current_block: cb2,
                ..
            },
        ) => caller == c2 && trade.agent == caller && trade.match_id == id2
            && trade.portfolio_value == portfolio_value as Motes && trade.reasoning_hash
            == reasoning_hash && trade.evidence_hash == evidence_hash && current_block == cb2
            && action.len() > 0 && pair.len() > 0,
        (
            Call::Settle {
                caller,
                match_id,
                current_block,
                final_value_a,
                final_value_b,
                settlement_hash,
            },
            ModuleCall::Settle {
                match_id: id2,
                caller: c2,
                current_block: cb2,
                final_value_a: fa2,
                final_value_b: fb2,
                settlement_hash: h2,
            },
        ) => caller == c2 && match_id == id2 && current_block == cb2 && final_value_a
            == fa2 as Motes && final_value_b == fb2 as Motes && settlement_hash == h2,
        _ => false,
    }
}

/// A new ledger and a freshly initialised module agree.
pub proof fn law_initial_states_agree()
    ensures
        ledger_agrees(ArenaView::initial(), ModuleView::initial()),
{
}

/// Where they agree, the module reports what the ledger reports: the trade
/// count (0 for an unknown match), the winner and the status of every match.
pub proof fn law_module_reports_agree(l: ArenaView, m: ModuleView, k: MatchId)
    requires
        ledger_agrees(l, m),
    ensures
        m.load(k).trade_count == (if l.matches.contains_key(k) {
            l.matches[k].trade_count
        } else {
            0
        }),
        m.load(k).winner == (if l.matches.contains_key(k) {
            l.matches[k].winner
        } else {
            None
        }),
        m.load(k).status == (if l.matches.contains_key(k) {
            Some(stored_status(l.matches[k].status))
        } else {
            None
        }),
{
}

/// Where the ledger and the module agree, the same request is accepted by
/// both or refused by both, keeps within the machine's integers for both
/// or for neither, and leaves them agreeing; an accepted creation gets the
/// same identifier from both, and an accepted settlement names the same
/// winner.
pub proof fn law_module_step_agrees(l: ArenaView, m: ModuleView, c: Call, mc: ModuleCall)
    requires
        ledger_agrees(l, m),
        calls_agree(c, mc),
    ensures
        accepted(l, c) <==> m.revert(mc) is None,
        l.permits(c) <==> m.permits(mc),
        ledger_agrees(l.step(c), m.step(mc)),
        c is Create ==> l.next_match_id == m.next_match_id,
        c matches Call::Settle { match_id, final_value_a, final_value_b, .. } ==> (accepted(l, c)
            ==> l.step(c).matches[match_id].winner == winner_of(
            l.matches[match_id].agent_a,
            l.matches[match_id].agent_b,
            final_value_a,
            final_value_b,
        ) && m.step(mc).load(match_id).winner == l.step(c).matches[match_id].winner),
{
    match c {
        Call::Create { .. } => {
            if accepted(l, c) {
                let (l2, m2) = (l.step(c), m.step(mc));
                assert forall|k: MatchId| #[trigger]
                    l2.matches.contains_key(k) implies match_agrees(
                    l2.matches[k],
                    m2.stored[k],
                ) by {
                    if k != l.next_match_id {
                        assert(l.matches.contains_key(k));
                    }
                }
            }
        },
        Call::Start { match_id, .. } => {
            if l.matches.contains_key(match_id) {
                assert(m.load(match_id) == m.stored[match_id]);
            }
        },
        Call::Record { trade, .. } => {
            if l.matches.contains_key(trade.match_id) {
                assert(m.load(trade.match_id) == m.stored[trade.match_id]);
            }
        },
        Call::Settle { match_id, .. } => {
            if l.matches.contains_key(match_id) {
                assert(m.load(match_id) == m.stored[match_id]);
            }
        },
    }
}

/// Whether two sequences of requests are the same requests, one for one.
pub open spec fn all_calls_agree(calls: Seq<Call>, module_calls: Seq<ModuleCall>) -> bool {
    &&& calls.len() == module_calls.len()
    &&& forall|i: int| 0 <= i < calls.len() ==> calls_agree(calls[i], #[trigger] module_calls[i])
}

/// The ledger and the module agree over any sequence of the same requests:
/// from agreeing states, each request is accepted by both or by neither
/// (`law_module_step_agrees`, applied to every prefix), the sequence keeps
/// within the machine's integers for both or for neither, and they agree
/// at the end.
pub proof fn law_module_runs_agree(
    l: ArenaView,
    m: ModuleView,
    calls: Seq<Call>,
    module_calls: Seq<ModuleCall>,
)
    requires
        ledger_agrees(l, m),
        all_calls_agree(calls, module_calls),
    ensures
        ledger_agrees(l.run(calls), m.run(module_calls)),
        l.runnable(calls) <==> m.runnable(module_calls),
    decreases calls.len(),
{
    if calls.len() > 0 {
        let (cs, ms) = (calls.drop_last(), module_calls.drop_last());
        assert forall|i: int| 0 <= i < cs.len() implies calls_agree(cs[i], #[trigger] ms[i]) by {
            assert(cs[i] == calls[i]);
            assert(ms[i] == module_calls[i]);
        }
        law_module_runs_agree(l, m, cs, ms);
        assert(calls_agree(calls.last(), module_calls.last()));
        law_module_step_agrees(l.run(cs), m.run(ms), calls.last(), module_calls.last());
    }
}


/// A match is created exactly when its length and its budget are positive
/// and its two agents differ, whatever the accounts are otherwise; each
/// refusal names the first of these that fails. An accepted creation stores
/// a pending match under the next identifier, with both values at the
/// budget, ending `duration_blocks` after `current_block`.
pub proof fn law_creation_acceptance(
    s: ArenaView,
    caller: Seq<char>,
    agent_a: Seq<char>,
    agent_b: Seq<char>,
    verifier: Seq<char>,
    current_block: u64,
    duration_blocks: u64,
    start_budget: Motes,
)
    ensures
        ({
            let c = Call::Create {
                caller,
                agent_a,
                agent_b,
                verifier,
                current_block,
                duration_blocks,
                start_budget,
            };
            &&& accepted(s, c) <==> duration_blocks > 0 && start_budget > 0 && agent_a != agent_b
            &&& s.call_error(c) == Some(ArenaError::InvalidDuration) <==> duration_blocks == 0
            &&& s.call_error(c) == Some(ArenaError::InvalidBudget) <==> duration_blocks > 0
                && start_budget == 0
            &&& s.call_error(c) == Some(ArenaError::DuplicateAgents) <==> duration_blocks > 0
                && start_budget > 0 && agent_a == agent_b
            &&& (accepted(s, c) && s.permits(c)) ==> {
                let m = s.step(c).matches[s.next_match_id];
                &&& s.step(c).matches.contains_key(s.next_match_id)
                &&& m.id == s.next_match_id
                &&& m.creator == caller && m.verifier == verifier
                &&& m.agent_a == agent_a && m.agent_b == agent_b
                &&& m.status == MatchStatus::Pending
                &&& m.start_block == current_block
                &&& m.end_block == current_block + duration_blocks
                &&& m.value_a == start_budget && m.value_b == start_budget
                &&& m.trade_count == 0 && m.winner is None
            }
        }),
{
}

/// A match is started exactly when it exists, is pending, and the caller is
/// its creator or its verifier (either one, also when they are the same
/// account). A started match is active from `current_block` on and keeps its
/// length.
pub proof fn law_start_acceptance(
    s: ArenaView,
    caller: Seq<char>,
    match_id: MatchId,
    current_block: u64,
)
    ensures
        ({
            let c = Call::Start { caller, match_id, current_block };
            let m = s.matches[match_id];
            &&& accepted(s, c) <==> s.matches.contains_key(match_id) && (caller == m.creator
                || caller == m.verifier) && m.status == MatchStatus::Pending
            &&& s.call_error(c) == Some(ArenaError::MatchNotFound) <==> !s.matches.contains_key(
                match_id,
            )
            &&& s.call_error(c) == Some(ArenaError::Unauthorized) <==> s.matches.contains_key(
                match_id,
            ) && caller != m.creator && caller != m.verifier
            &&& (accepted(s, c) && s.permits(c)) ==> {
                let n = s.step(c).matches[match_id];
                &&& n.status == MatchStatus::Active
                &&& n.start_block == current_block
                &&& n.end_block == current_block + (if m.end_block >= m.start_block {
                    m.end_block - m.start_block
                } else {
                    0
                })
                &&& n.value_a == m.value_a && n.value_b == m.value_b
                &&& n.trade_count == m.trade_count
            }
        }),
{
}

/// A trade is recorded exactly when both its hashes are non-empty, its
/// match exists, is active and has not passed its end block, and the caller
/// is one of the match's two agents and the trade's agent; no other
/// condition, in particular none on how many trades were recorded before.
/// A recorded trade sets the caller's value to the trade's portfolio value,
/// keeps the other agent's, and counts one more trade.
pub proof fn law_trade_acceptance(
    s: ArenaView,
    caller: Seq<char>,
    trade: TradeView,
    current_block: u64,
)
    ensures
        ({
            let c = Call::Record { caller, trade, current_block };
            let m = s.matches[trade.match_id];
            &&& accepted(s, c) <==> trade.reasoning_hash.len() > 0 && trade.evidence_hash.len()
                > 0 && s.matches.contains_key(trade.match_id) && m.status == MatchStatus::Active
                && current_block <= m.end_block && (caller == m.agent_a || caller == m.agent_b)
                && trade.agent == caller
            &&& (accepted(s, c) && s.permits(c)) ==> {
                let n = s.step(c).matches[trade.match_id];
                &&& n.trade_count == m.trade_count + 1
                &&& caller == m.agent_a ==> n.value_a == trade.portfolio_value && n.value_b
                    == m.value_b
                &&& caller != m.agent_a ==> n.value_b == trade.portfolio_value && n.value_a
                    == m.value_a
                &&& n.status == MatchStatus::Active
                &&& s.step(c).trades[trade.match_id] == s.trades[trade.match_id].push(trade)
            }
        }),
{
}

/// A match is settled exactly when the settlement hash is non-empty, the
/// match exists and is active, the caller is its verifier (whoever created
/// it), and the current block has reached its end block. A settled match
/// holds the final values and the hash, and names as winner the agent with
/// the strictly larger final value, none on a tie.
pub proof fn law_settlement_acceptance(
    s: ArenaView,
    caller: Seq<char>,
    match_id: MatchId,
    current_block: u64,
    final_value_a: Motes,
    final_value_b: Motes,
    settlement_hash: Seq<char>,
)
    ensures
        ({
            let c = Call::Settle {
                caller,
                match_id,
                current_block,
                final_value_a,
                final_value_b,
                settlement_hash,
            };
            let m = s.matches[match_id];
            &&& accepted(s, c) <==> settlement_hash.len() > 0 && s.matches.contains_key(match_id)
                && caller == m.verifier && m.status == MatchStatus::Active && current_block
                >= m.end_block
            &&& accepted(s, c) ==> {
                let n = s.step(c).matches[match_id];
                &&& n.status == MatchStatus::Settled
                &&& n.value_a == final_value_a && n.value_b == final_value_b
                &&& n.settlement_hash == Some(settlement_hash)
                &&& (final_value_a > final_value_b ==> n.winner == Some(m.agent_a))
                &&& (final_value_b > final_value_a ==> n.winner == Some(m.agent_b))
                &&& (final_value_a == final_value_b ==> n.winner is None)
            }
        }),
{
}

/// The on-chain module creates a match exactly when its length and its
/// budget are positive and its two agents differ.
pub proof fn law_module_creation_acceptance(
    duration_blocks: u64,
    start_budget: u64,
    agent_a: Seq<char>,
    agent_b: Seq<char>,
)
    ensures
        create_revert(duration_blocks, start_budget, agent_a, agent_b) is None <==> duration_blocks
            > 0 && start_budget > 0 && agent_a != agent_b,
        create_revert(duration_blocks, start_budget, agent_a, agent_b) == Some(
            crate::onchain::Revert::DuplicateAgents,
        ) ==> agent_a == agent_b,
{
}

/// The on-chain module starts a match exactly when it is pending and the
/// caller is its creator or its verifier (either one).
pub proof fn law_module_start_acceptance(stored: StoredView, caller: Seq<char>)
    ensures
        stored.start_revert(caller) is None <==> (caller == stored.creator || caller
            == stored.verifier) && stored.status == Some(OdraMatchStatus::Pending),
{
}

/// The on-chain module records a trade exactly when action, pair and both
/// hashes are non-empty, the match is active and has not passed its end
/// block, and the caller is one of its agents; no other condition, in
/// particular none on the trade count.
pub proof fn law_module_trade_acceptance(
    stored: StoredView,
    caller: Seq<char>,
    action: Seq<char>,
    pair: Seq<char>,
    reasoning_hash: Seq<char>,
    evidence_hash: Seq<char>,
    current_block: u64,
)
    ensures
        stored.record_revert(caller, action, pair, reasoning_hash, evidence_hash, current_block)
            is None <==> action.len() > 0 && pair.len() > 0 && reasoning_hash.len() > 0
            && evidence_hash.len() > 0 && stored.status == Some(OdraMatchStatus::Active)
            && current_block <= stored.end_block && (caller == stored.agent_a || caller
            == stored.agent_b),
{
}

/// The on-chain module settles a match exactly when the hash is non-empty,
/// the match is active, the caller is its verifier (whoever created it),
/// and the current block has reached its end block.
pub proof fn law_module_settlement_acceptance(
    stored: StoredView,
    caller: Seq<char>,
    current_block: u64,
    settlement_hash: Seq<char>,
)
    ensures
        stored.settle_revert(caller, current_block, settlement_hash) is None <==> settlement_hash.len()
            > 0 && caller == stored.verifier && stored.status == Some(OdraMatchStatus::Active)
            && current_block >= stored.end_block,
{
}


/// What the on-chain module's storage holds after an accepted start, trade
/// or settlement: a started match is active from `current_block` on and
/// keeps its length; a trade sets the caller's value, keeps the other's,
/// counts one more trade and stores the trade's digest; a settlement stores
/// the final values and hash and names the agent with the strictly larger
/// final value as winner, none on a tie. Nothing else changes.
pub proof fn law_module_outcomes(
    stored: StoredView,
    caller: Seq<char>,
    action: Seq<char>,
    pair: Seq<char>,
    amount: u64,
    price: u64,
    portfolio_value: u64,
    current_block: u64,
    final_value_a: u64,
    final_value_b: u64,
    settlement_hash: Seq<char>,
)
    requires
        stored.start_block <= stored.end_block,
        current_block + (stored.end_block - stored.start_block) <= u64::MAX,
        stored.trade_count < u32::MAX,
    ensures
        ({
            let n = stored.after_start(current_block);
            &&& n.status == Some(OdraMatchStatus::Active)
            &&& n.start_block == current_block
            &&& n.end_block == current_block + (stored.end_block - stored.start_block)
            &&& n.agent_a == stored.agent_a && n.agent_b == stored.agent_b
            &&& n.value_a == stored.value_a && n.value_b == stored.value_b
            &&& n.trade_count == stored.trade_count
        }),
        ({
            let n = stored.after_record(caller, action, pair, amount, price, portfolio_value);
            &&& n.trade_count == stored.trade_count + 1
            &&& caller == stored.agent_a ==> n.value_a == portfolio_value && n.value_b
                == stored.value_b
            &&& caller != stored.agent_a ==> n.value_b == portfolio_value && n.value_a
                == stored.value_a
            &&& n.status == stored.status
            &&& n.winner == stored.winner
            &&& n.settlement_hash matches Some(h) && h.take(action.len() as int) == action
        }),
        ({
            let n = stored.after_settle(final_value_a, final_value_b, settlement_hash);
            &&& n.status == Some(OdraMatchStatus::Settled)
            &&& n.value_a == final_value_a && n.value_b == final_value_b
            &&& n.settlement_hash == Some(settlement_hash)
            &&& (final_value_a > final_value_b ==> n.winner == Some(stored.agent_a))
            &&& (final_value_b > final_value_a ==> n.winner == Some(stored.agent_b))
            &&& (final_value_a == final_value_b ==> n.winner is None)
            &&& n.trade_count == stored.trade_count
        }),
{
    law_digest_layout(action, pair, amount, price, portfolio_value);
}

/// The digest of a trade starts with its action, a colon, its pair and a
/// colon, and goes on with the decimal renderings of amount, price and
/// portfolio value, separated by colons.
pub proof fn law_digest_layout(
    action: Seq<char>,
    pair: Seq<char>,
    amount: u64,
    price: u64,
    portfolio_value: u64,
)
    ensures
        ({
            let d = trade_digest(action, pair, amount, price, portfolio_value);
            let a = action.len() as int;
            let p = pair.len() as int;
            &&& d.take(a) == action
            &&& d[a] == ':'
            &&& d.subrange(a + 1, a + 1 + p) == pair
            &&& d[a + 1 + p] == ':'
            &&& d.skip(a + 2 + p) == decimal(amount as nat) + seq![':'] + decimal(price as nat)
                + seq![':'] + decimal(portfolio_value as nat)
        }),
{
    let d = trade_digest(action, pair, amount, price, portfolio_value);
    let a = action.len() as int;
    let p = pair.len() as int;
    assert(d.take(a) =~= action);
    assert(d.subrange(a + 1, a + 1 + p) =~= pair);
    assert(d.skip(a + 2 + p) =~= decimal(amount as nat) + seq![':'] + decimal(price as nat)
        + seq![':'] + decimal(portfolio_value as nat));
}

/// The number a decimal digit stands for.
pub open spec fn digit_value(c: char) -> nat {
    if c == '1' {
        1
    } else if c == '2' {
        2
    } else if c == '3' {
        3
    } else if c == '4' {
        4
    } else if c == '5' {
        5
    } else if c == '6' {
        6
    } else if c == '7' {
        7
    } else if c == '8' {
        8
    } else if c == '9' {
        9
    } else {
        0
    }
}

/// Whether a character is a decimal digit.
pub open spec fn is_digit(c: char) -> bool {
    '0' <= c && c <= '9'
}

/// The number a sequence of decimal digits stands for, most significant
/// first.
pub open spec fn digits_value(s: Seq<char>) -> nat
    decreases s.len(),
{
    if s.len() == 0 {
        0
    } else {
        digits_value(s.drop_last()) * 10 + digit_value(s.last())
    }
}

/// The decimal rendering of a number is a non-empty run of decimal digits
/// that stands for the number, with no leading zero unless the number is
/// zero.
pub proof fn law_decimal_reads_back(n: nat)
    ensures
        decimal(n).len() >= 1,
        forall|i: int| 0 <= i < decimal(n).len() ==> is_digit(#[trigger] decimal(n)[i]),
        digits_value(decimal(n)) == n,
        decimal(n)[0] == '0' ==> n == 0,
    decreases n,
{
    if n >= 10 {
        law_decimal_reads_back(n / 10);
        let prev = decimal(n / 10);
        assert(decimal(n) == prev.push(digit_char(n % 10)));
        assert(decimal(n).drop_last() =~= prev);
        assert(decimal(n)[0] == prev[0]);
        assert(digit_value(digit_char(n % 10)) == n % 10);
        assert(digits_value(decimal(n)) == (n / 10) * 10 + n % 10);
        assert((n / 10) * 10 + n % 10 == n) by (nonlinear_arith);
        assert forall|i: int| 0 <= i < decimal(n).len() implies is_digit(
            #[trigger] decimal(n)[i],
        ) by {
            if i < prev.len() {
                assert(decimal(n)[i] == prev[i]);
            }
        }
    } else {
        assert(decimal(n) == seq![digit_char(n)]);
        assert(decimal(n).drop_last() =~= Seq::<char>::empty());
        assert(digits_value(Seq::<char>::empty()) == 0);
        assert(digit_value(digit_char(n)) == n);
    }
}

} // verus!
