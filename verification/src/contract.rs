use std::collections::BTreeMap;
use vstd::prelude::*;

use crate::types::{
    clone_opt_string, opt_view, Account, ArenaError, ArenaEvent, ArenaEventView, Match, MatchId, MatchStatus,
    MatchView, Motes, Trade, TradeView,
};

verus! {

/// The ledger as a mathematical value.
pub struct ArenaView {
    pub next_match_id: MatchId,
    pub matches: Map<MatchId, MatchView>,
    pub trades: Map<MatchId, Seq<TradeView>>,
    pub events: Seq<ArenaEventView>,
}

/// The agent that a settlement with these final values names as winner:
/// the one with the strictly larger value, none on a tie.
pub open spec fn winner_of(
    agent_a: Seq<char>,
    agent_b: Seq<char>,
    value_a: Motes,
    value_b: Motes,
) -> Option<Seq<char>> {
    if value_a > value_b {
        Some(agent_a)
    } else if value_b > value_a {
        Some(agent_b)
    } else {
        None
    }
}

/// What holds of every match the ledger keeps.
pub open spec fn match_valid(m: MatchView) -> bool {
    &&& m.agent_a != m.agent_b
    &&& m.start_block < m.end_block
    &&& m.start_budget > 0
    &&& m.status == MatchStatus::Pending ==> {
        &&& m.trade_count == 0
        &&& m.value_a == m.start_budget
        &&& m.value_b == m.start_budget
    }
    &&& m.status != MatchStatus::Settled ==> m.winner is None && m.settlement_hash is None
    &&& m.status == MatchStatus::Settled ==> {
        &&& m.winner == winner_of(m.agent_a, m.agent_b, m.value_a, m.value_b)
        &&& m.settlement_hash matches Some(h) && h.len() > 0
    }
}

/// The match that `create_match` stores.
pub open spec fn created_match(
    id: MatchId,
    caller: Seq<char>,
    agent_a: Seq<char>,
    agent_b: Seq<char>,
    verifier: Seq<char>,
    current_block: u64,
    duration_blocks: u64,
    start_budget: Motes,
) -> MatchView {
    MatchView {
        id,
        creator: caller,
        agent_a,
        agent_b,
        verifier,
        start_block: current_block,
        end_block: (current_block + duration_blocks) as u64,
        start_budget,
        status: MatchStatus::Pending,
        value_a: start_budget,
        value_b: start_budget,
        trade_count: 0,
        winner: None,
        settlement_hash: None,
    }
}

/// The length of a match, in blocks, as `start_match` reads it.
pub open spec fn duration_of(m: MatchView) -> u64 {
    if m.end_block >= m.start_block {
        (m.end_block - m.start_block) as u64
    } else {
        0
    }
}

/// The match that `start_match` leaves: moved to start at `current_block`,
/// with its length kept, and active.
pub open spec fn started_match(m: MatchView, current_block: u64) -> MatchView {
    MatchView {
        start_block: current_block,
        end_block: (current_block + duration_of(m)) as u64,
        status: MatchStatus::Active,
        ..m
    }
}

/// The match that `record_trade` leaves: the caller's portfolio value
/// replaced and one more trade counted.
pub open spec fn traded_match(m: MatchView, caller: Seq<char>, portfolio_value: Motes) -> MatchView {
    if caller == m.agent_a {
        MatchView { value_a: portfolio_value, trade_count: (m.trade_count + 1) as u32, ..m }
    } else {
        MatchView { value_b: portfolio_value, trade_count: (m.trade_count + 1) as u32, ..m }
    }
}

/// The match that `settle_match` leaves.
pub open spec fn settled_match(
    m: MatchView,
    final_value_a: Motes,
    final_value_b: Motes,
    settlement_hash: Seq<char>,
) -> MatchView {
    MatchView {
        value_a: final_value_a,
        value_b: final_value_b,
        status: MatchStatus::Settled,
        settlement_hash: Some(settlement_hash),
        winner: winner_of(m.agent_a, m.agent_b, final_value_a, final_value_b),
        ..m
    }
}

/// Whether an event reports a trade in match `k`.
pub open spec fn is_trade_in(e: ArenaEventView, k: MatchId) -> bool {
    e matches ArenaEventView::TradeRecorded(t) && t.match_id == k
}

/// The number of events in `events` that report a trade in match `k`.
pub open spec fn trade_events(events: Seq<ArenaEventView>, k: MatchId) -> nat
    decreases events.len(),
{
    if events.len() == 0 {
        0
    } else {
        trade_events(events.drop_last(), k) + if is_trade_in(events.last(), k) {
            1nat
        } else {
            0nat
        }
    }
}

/// Appending an event adds one to the trades counted for `k` exactly when
/// it reports a trade in `k`.
pub proof fn lemma_trade_events_push(events: Seq<ArenaEventView>, e: ArenaEventView, k: MatchId)
    ensures
        trade_events(events.push(e), k) == trade_events(events, k) + if is_trade_in(e, k) {
            1nat
        } else {
            0nat
        },
{
    assert(events.push(e).drop_last() =~= events);
}

/// A request to the ledger, with its strings read as character sequences.
pub enum Call {
    Create {
        caller: Seq<char>,
        agent_a: Seq<char>,
        agent_b: Seq<char>,
        verifier: Seq<char>,
        current_block: u64,
        duration_blocks: u64,
        start_budget: Motes,
    },
    Start { caller: Seq<char>, match_id: MatchId, current_block: u64 },
    Record { caller: Seq<char>, trade: TradeView, current_block: u64 },
    Settle {
        caller: Seq<char>,
        match_id: MatchId,
        current_block: u64,
        final_value_a: Motes,
        final_value_b: Motes,
        settlement_hash: Seq<char>,
    },
}

impl ArenaView {
    /// What holds of every ledger built by the operations below.
    pub open spec fn valid(self) -> bool {
        &&& forall|k: MatchId| #[trigger]
            self.matches.contains_key(k) ==> k < self.next_match_id && self.matches[k].id == k
                && match_valid(self.matches[k])
        &&& self.trades.dom() == self.matches.dom()
        &&& forall|k: MatchId| #[trigger]
            self.matches.contains_key(k) ==> self.trades[k].len() == self.matches[k].trade_count
        &&& forall|k: MatchId, i: int|
            self.matches.contains_key(k) && 0 <= i < self.trades[k].len() ==> {
                let t = #[trigger] self.trades[k][i];
                &&& t.match_id == k
                &&& t.agent == self.matches[k].agent_a || t.agent == self.matches[k].agent_b
            }
        &&& forall|k: MatchId| #[trigger]
            trade_events(self.events, k) == (if self.matches.contains_key(k) {
                self.matches[k].trade_count as nat
            } else {
                0
            })
    }

    /// The error with which `create_match` refuses, if any.
    pub open spec fn create_error(
        duration_blocks: u64,
        start_budget: Motes,
        agent_a: Seq<char>,
        agent_b: Seq<char>,
    ) -> Option<ArenaError> {
        if duration_blocks == 0 {
            Some(ArenaError::InvalidDuration)
        } else if start_budget == 0 {
            Some(ArenaError::InvalidBudget)
        } else if agent_a == agent_b {
            Some(ArenaError::DuplicateAgents)
        } else {
            None
        }
    }

    /// The error with which `start_match` refuses, if any.
    pub open spec fn start_error(self, caller: Seq<char>, match_id: MatchId) -> Option<ArenaError> {
        if !self.matches.contains_key(match_id) {
            Some(ArenaError::MatchNotFound)
        } else if caller != self.matches[match_id].creator && caller
            != self.matches[match_id].verifier {
            Some(ArenaError::Unauthorized)
        } else if self.matches[match_id].status != MatchStatus::Pending {
            Some(ArenaError::NotPending)
        } else {
            None
        }
    }

    /// The error with which `record_trade` refuses, if any.
    pub open spec fn record_error(
        self,
        caller: Seq<char>,
        trade: TradeView,
        current_block: u64,
    ) -> Option<ArenaError> {
        let m = self.matches[trade.match_id];
        if trade.reasoning_hash.len() == 0 || trade.evidence_hash.len() == 0 {
            Some(ArenaError::EmptyHash)
        } else if !self.matches.contains_key(trade.match_id) {
            Some(ArenaError::MatchNotFound)
        } else if m.status != MatchStatus::Active {
            Some(ArenaError::NotActive)
        } else if current_block > m.end_block {
            Some(ArenaError::NotActive)
        } else if caller != m.agent_a && caller != m.agent_b {
            Some(ArenaError::Unauthorized)
        } else if trade.agent != caller {
            Some(ArenaError::Unauthorized)
        } else {
            None
        }
    }

    /// The error with which `settle_match` refuses, if any.
    pub open spec fn settle_error(
        self,
        caller: Seq<char>,
        match_id: MatchId,
        current_block: u64,
        settlement_hash: Seq<char>,
    ) -> Option<ArenaError> {
        let m = self.matches[match_id];
        if settlement_hash.len() == 0 {
            Some(ArenaError::EmptyHash)
        } else if !self.matches.contains_key(match_id) {
            Some(ArenaError::MatchNotFound)
        } else if caller != m.verifier {
            Some(ArenaError::Unauthorized)
        } else if m.status != MatchStatus::Active {
            Some(ArenaError::NotActive)
        } else if current_block < m.end_block {
            Some(ArenaError::TooEarly)
        } else {
            None
        }
    }

    /// The ledger after a successful `create_match`.
    pub open spec fn after_create(
        self,
        caller: Seq<char>,
        agent_a: Seq<char>,
        agent_b: Seq<char>,
        verifier: Seq<char>,
        current_block: u64,
        duration_blocks: u64,
        start_budget: Motes,
    ) -> ArenaView {
        let id = self.next_match_id;
        let m = created_match(
            id,
            caller,
            agent_a,
            agent_b,
            verifier,
            current_block,
            duration_blocks,
            start_budget,
        );
        ArenaView {
            next_match_id: (id + 1) as u64,
            matches: self.matches.insert(id, m),
            trades: self.trades.insert(id, Seq::empty()),
            events: self.events.push(
                ArenaEventView::MatchCreated {
                    match_id: id,
                    agent_a,
                    agent_b,
                    verifier,
                    start_budget,
                    end_block: m.end_block,
                },
            ),
        }
    }

    /// The ledger after a successful `start_match`.
    pub open spec fn after_start(self, match_id: MatchId, current_block: u64) -> ArenaView {
        let m = started_match(self.matches[match_id], current_block);
        ArenaView {
            matches: self.matches.insert(match_id, m),
            events: self.events.push(
                ArenaEventView::MatchStarted {
                    match_id,
                    start_block: m.start_block,
                    end_block: m.end_block,
                },
            ),
            ..self
        }
    }

    /// The ledger after a successful `record_trade`.
    pub open spec fn after_record(self, caller: Seq<char>, trade: TradeView) -> ArenaView {
        let id = trade.match_id;
        ArenaView {
            matches: self.matches.insert(
                id,
                traded_match(self.matches[id], caller, trade.portfolio_value),
            ),
            trades: self.trades.insert(id, self.trades[id].push(trade)),
            events: self.events.push(ArenaEventView::TradeRecorded(trade)),
            ..self
        }
    }

    /// The ledger after a successful `settle_match`.
    pub open spec fn after_settle(
        self,
        match_id: MatchId,
        final_value_a: Motes,
        final_value_b: Motes,
        settlement_hash: Seq<char>,
    ) -> ArenaView {
        let m = settled_match(self.matches[match_id], final_value_a, final_value_b, settlement_hash);
        ArenaView {
            matches: self.matches.insert(match_id, m),
            events: self.events.push(
                ArenaEventView::MatchSettled {
                    match_id,
                    winner: m.winner,
                    final_value_a,
                    final_value_b,
                    settlement_hash,
                },
            ),
            ..self
        }
    }

    /// The ledger that `new` returns.
    pub open spec fn initial() -> ArenaView {
        ArenaView {
            next_match_id: 1,
            matches: Map::empty(),
            trades: Map::empty(),
            events: Seq::empty(),
        }
    }

    /// The error with which a request is refused, if any.
    pub open spec fn call_error(self, c: Call) -> Option<ArenaError> {
        match c {
            Call::Create { agent_a, agent_b, duration_blocks, start_budget, .. } =>
                Self::create_error(duration_blocks, start_budget, agent_a, agent_b),
            Call::Start { caller, match_id, .. } => self.start_error(caller, match_id),
            Call::Record { caller, trade, current_block } => self.record_error(
                caller,
                trade,
                current_block,
            ),
            Call::Settle { caller, match_id, current_block, settlement_hash, .. } =>
                self.settle_error(caller, match_id, current_block, settlement_hash),
        }
    }

    /// Whether a request keeps within the machine's integers: an accepted
    /// request must not overflow the identifier, a block number or the
    /// trade count.
    pub open spec fn permits(self, c: Call) -> bool {
        self.call_error(c) is None ==> match c {
            Call::Create { current_block, duration_blocks, .. } => self.next_match_id < u64::MAX
                && current_block + duration_blocks <= u64::MAX,
            Call::Start { match_id, current_block, .. } => current_block + duration_of(
                self.matches[match_id],
            ) <= u64::MAX,
            Call::Record { trade, .. } => self.matches[trade.match_id].trade_count < u32::MAX,
            Call::Settle { .. } => true,
        }
    }

    /// The ledger after a request: unchanged when it is refused.
    pub open spec fn step(self, c: Call) -> ArenaView {
        if self.call_error(c) is Some {
            self
        } else {
            match c {
                Call::Create {
                    caller,
                    agent_a,
                    agent_b,
                    verifier,
                    current_block,
                    duration_blocks,
                    start_budget,
                } => self.after_create(
                    caller,
                    agent_a,
                    agent_b,
                    verifier,
                    current_block,
                    duration_blocks,
                    start_budget,
                ),
                Call::Start { match_id, current_block, .. } => self.after_start(
                    match_id,
                    current_block,
                ),
                Call::Record { caller, trade, .. } => self.after_record(caller, trade),
                Call::Settle {
                    match_id,
                    final_value_a,
                    final_value_b,
                    settlement_hash,
                    ..
                } => self.after_settle(match_id, final_value_a, final_value_b, settlement_hash),
            }
        }
    }

    /// The ledger after a sequence of requests, first to last.
    pub open spec fn run(self, calls: Seq<Call>) -> ArenaView
        decreases calls.len(),
    {
        if calls.len() == 0 {
            self
        } else {
            self.run(calls.drop_last()).step(calls.last())
        }
    }

    /// Whether every request of the sequence keeps within the machine's
    /// integers where it is made.
    pub open spec fn runnable(self, calls: Seq<Call>) -> bool
        decreases calls.len(),
    {
        calls.len() == 0 || (self.runnable(calls.drop_last()) && self.run(
            calls.drop_last(),
        ).permits(calls.last()))
    }
}

/// Every request the machine's integers permit keeps the invariant.
pub proof fn lemma_step_keeps_valid(s: ArenaView, c: Call)
    requires
        s.valid(),
        s.permits(c),
    ensures
        s.step(c).valid(),
{
    if s.call_error(c) is None {
        let t = s.step(c);
        match c {
            Call::Create { current_block, duration_blocks, .. } => {
                let id = s.next_match_id;
                assert(!s.matches.contains_key(id));
                assert(t.trades.dom() =~= t.matches.dom());
                assert forall|k: MatchId|
                    #[trigger] trade_events(t.events, k) == (if t.matches.contains_key(k) {
                        t.matches[k].trade_count as nat
                    } else {
                        0
                    }) by {
                    lemma_trade_events_push(s.events, t.events.last(), k);
                    assert(t.events == s.events.push(t.events.last()));
                }
                assert forall|k: MatchId, i: int|
                    t.matches.contains_key(k) && 0 <= i < t.trades[k].len() implies {
                    let tr = #[trigger] t.trades[k][i];
                    &&& tr.match_id == k
                    &&& tr.agent == t.matches[k].agent_a || tr.agent == t.matches[k].agent_b
                } by {
                    assert(k != id);
                }
            },
            Call::Start { match_id, current_block, .. } => {
                assert(t.trades.dom() =~= t.matches.dom());
                assert forall|k: MatchId|
                    #[trigger] trade_events(t.events, k) == (if t.matches.contains_key(k) {
                        t.matches[k].trade_count as nat
                    } else {
                        0
                    }) by {
                    lemma_trade_events_push(s.events, t.events.last(), k);
                    assert(t.events == s.events.push(t.events.last()));
                }
                assert forall|k: MatchId, i: int|
                    t.matches.contains_key(k) && 0 <= i < t.trades[k].len() implies {
                    let tr = #[trigger] t.trades[k][i];
                    &&& tr.match_id == k
                    &&& tr.agent == t.matches[k].agent_a || tr.agent == t.matches[k].agent_b
                } by {
                    assert(t.trades[k] == s.trades[k]);
                }
            },
            Call::Record { caller, trade, current_block } => {
                let id = trade.match_id;
                assert(t.trades.dom() =~= t.matches.dom());
                assert forall|k: MatchId|
                    #[trigger] trade_events(t.events, k) == (if t.matches.contains_key(k) {
                        t.matches[k].trade_count as nat
                    } else {
                        0
                    }) by {
                    lemma_trade_events_push(s.events, ArenaEventView::TradeRecorded(trade), k);
                }
                assert forall|k: MatchId, i: int|
                    t.matches.contains_key(k) && 0 <= i < t.trades[k].len() implies {
                    let tr = #[trigger] t.trades[k][i];
                    &&& tr.match_id == k
                    &&& tr.agent == t.matches[k].agent_a || tr.agent == t.matches[k].agent_b
                } by {
                    if k != id {
                        assert(t.trades[k] == s.trades[k]);
                    } else if i < s.trades[k].len() {
                        assert(t.trades[k][i] == s.trades[k][i]);
                    }
                }
            },
            Call::Settle { match_id, final_value_a, final_value_b, settlement_hash, .. } => {
                assert(t.trades.dom() =~= t.matches.dom());
                assert forall|k: MatchId|
                    #[trigger] trade_events(t.events, k) == (if t.matches.contains_key(k) {
                        t.matches[k].trade_count as nat
                    } else {
                        0
                    }) by {
                    lemma_trade_events_push(s.events, t.events.last(), k);
                    assert(t.events == s.events.push(t.events.last()));
                }
                assert forall|k: MatchId, i: int|
                    t.matches.contains_key(k) && 0 <= i < t.trades[k].len() implies {
                    let tr = #[trigger] t.trades[k][i];
                    &&& tr.match_id == k
                    &&& tr.agent == t.matches[k].agent_a || tr.agent == t.matches[k].agent_b
                } by {
                    assert(t.trades[k] == s.trades[k]);
                }
            },
        }
    }
}

/// The ledger of matches, their trades and the events they produced.
#[derive(Debug)]
pub struct ArenaContract {
    next_match_id: MatchId,
    matches: BTreeMap<MatchId, Match>,
    trades: BTreeMap<MatchId, Vec<Trade>>,
    events: Vec<ArenaEvent>,
}

/// The view of a list of trades.
pub open spec fn trades_view(v: Vec<Trade>) -> Seq<TradeView> {
    v@.map_values(|t: Trade| t@)
}

impl View for ArenaContract {
    type V = ArenaView;

    closed spec fn view(&self) -> ArenaView {
        ArenaView {
            next_match_id: self.next_match_id,
            matches: self.matches@.map_values(|m: Match| m@),
            trades: self.trades@.map_values(|v: Vec<Trade>| trades_view(v)),
            events: self.events@.map_values(|e: ArenaEvent| e@),
        }
    }
}

impl ArenaContract {
    /// Whether the ledger holds its invariant.
    pub open spec fn wf(&self) -> bool {
        self@.valid()
    }

    /// An empty ledger whose first match gets the identifier 1.
    pub fn new() -> (r: Self)
        ensures
            r.wf(),
            r@.next_match_id == 1,
            r@.matches == Map::<MatchId, MatchView>::empty(),
            r@.trades == Map::<MatchId, Seq<TradeView>>::empty(),
            r@.events == Seq::<ArenaEventView>::empty(),
    {
        let r = Self {
            next_match_id: 1,
            matches: BTreeMap::new(),
            trades: BTreeMap::new(),
            events: Vec::new(),
        };
        assert(r@.matches =~= Map::<MatchId, MatchView>::empty());
        assert(r@.trades =~= Map::<MatchId, Seq<TradeView>>::empty());
        assert(r@.events =~= Seq::<ArenaEventView>::empty());
        r
    }

    /// Opens a pending match between two distinct agents, with both
    /// portfolios at `start_budget`, ending `duration_blocks` after
    /// `current_block`. Returns its identifier.
    pub fn create_match(
        &mut self,
        caller: Account,
        agent_a: Account,
        agent_b: Account,
        verifier: Account,
        current_block: u64,
        duration_blocks: u64,
        start_budget: Motes,
    ) -> (r: Result<MatchId, ArenaError>)
        requires
            old(self).wf(),
            ArenaView::create_error(duration_blocks, start_budget, agent_a@, agent_b@) is None ==> {
                &&& old(self)@.next_match_id < u64::MAX
                &&& current_block + duration_blocks <= u64::MAX
            },
        ensures
            final(self).wf(),
            final(self)@ == old(self)@.step((Call::Create {
                caller: caller@,
                agent_a: agent_a@,
                agent_b: agent_b@,
                verifier: verifier@,
                current_block,
                duration_blocks,
                start_budget,
            })),
            r is Ok <==> old(self)@.call_error((Call::Create {
                caller: caller@,
                agent_a: agent_a@,
                agent_b: agent_b@,
                verifier: verifier@,
                current_block,
                duration_blocks,
                start_budget,
            })) is None,
            match r {
                Ok(id) => {
                    &&& ArenaView::create_error(duration_blocks, start_budget, agent_a@, agent_b@)
                        is None
                    &&& id == old(self)@.next_match_id
                    &&& final(self)@ == old(self)@.after_create(
                        caller@,
                        agent_a@,
                        agent_b@,
                        verifier@,
                        current_block,
                        duration_blocks,
                        start_budget,
                    )
                },
                Err(e) => {
                    &&& ArenaView::create_error(duration_blocks, start_budget, agent_a@, agent_b@)
                        == Some(e)
                    &&& final(self)@ == old(self)@
                },
            },
    {
        let ghost call = Call::Create {
            caller: caller@,
            agent_a: agent_a@,
            agent_b: agent_b@,
            verifier: verifier@,
            current_block,
            duration_blocks,
            start_budget,
        };
        if duration_blocks == 0 {
            return Err(ArenaError::InvalidDuration);
        }
        if start_budget == 0 {
            return Err(ArenaError::InvalidBudget);
        }
        if agent_a == agent_b {
            return Err(ArenaError::DuplicateAgents);
        }
        let ghost pre = self@;
        let id = self.next_match_id;
        self.next_match_id = id + 1;
        let end_block = current_block + duration_blocks;
        let arena_match = Match {
            id,
            creator: caller,
            agent_a: agent_a.clone(),
            agent_b: agent_b.clone(),
            verifier: verifier.clone(),
            start_block: current_block,
            end_block,
            start_budget,
            status: MatchStatus::Pending,
            value_a: start_budget,
            value_b: start_budget,
            trade_count: 0,
            winner: None,
            settlement_hash: None,
        };
        let ghost mv = arena_match@;
        self.matches.insert(id, arena_match);
        let empty: Vec<Trade> = Vec::new();
        proof {
            assert(trades_view(empty) =~= Seq::<TradeView>::empty());
        }
        self.trades.insert(id, empty);
        self.events.push(
            ArenaEvent::MatchCreated {
                match_id: id,
                agent_a,
                agent_b,
                verifier,
                start_budget,
                end_block,
            },
        );
        proof {
            let post = self@;
            assert(post.matches =~= pre.matches.insert(id, mv));
            assert(post.trades =~= pre.trades.insert(id, Seq::empty()));
            assert(post.events =~= pre.events.push(post.events.last()));
            assert(post == pre.step(call));
            lemma_step_keeps_valid(pre, call);
        }
        Ok(id)
    }

    /// Starts a pending match at `current_block`, keeping its length.
    /// Only the match's creator or verifier may start it.
    pub fn start_match(
        &mut self,
        caller: &Account,
        match_id: MatchId,
        current_block: u64,
    ) -> (r: Result<(), ArenaError>)
        requires
            old(self).wf(),
            old(self)@.start_error(caller@, match_id) is None ==> current_block + duration_of(
                old(self)@.matches[match_id],
            ) <= u64::MAX,
        ensures
            final(self).wf(),
            final(self)@ == old(self)@.step((Call::Start { caller: caller@, match_id, current_block })),
            r is Ok <==> old(self)@.call_error((Call::Start { caller: caller@, match_id, current_block })) is None,
            match r {
                Ok(()) => {
                    &&& old(self)@.start_error(caller@, match_id) is None
                    &&& final(self)@ == old(self)@.after_start(match_id, current_block)
                },
                Err(e) => {
                    &&& old(self)@.start_error(caller@, match_id) == Some(e)
                    &&& final(self)@ == old(self)@
                },
            },
    {
        let ghost call = Call::Start { caller: caller@, match_id, current_block };
        let ghost pre = self@;
        let found = self.matches.get(&match_id);
        let stored = match found {
            Some(m) => m,
            None => {
                return Err(ArenaError::MatchNotFound);
            },
        };
        if !caller.eq(&stored.creator) && !caller.eq(&stored.verifier) {
            return Err(ArenaError::Unauthorized);
        }
        if stored.status != MatchStatus::Pending {
            return Err(ArenaError::NotPending);
        }
        let mut m = self.matches.remove(&match_id).unwrap();
        let duration = m.end_block.saturating_sub(m.start_block);
        m.start_block = current_block;
        m.end_block = current_block + duration;
        m.status = MatchStatus::Active;
        let start_block = m.start_block;
        let end_block = m.end_block;
        let ghost mv = m@;
        self.matches.insert(match_id, m);
        self.events.push(ArenaEvent::MatchStarted { match_id, start_block, end_block });
        proof {
            let post = self@;
            assert(post.matches =~= pre.matches.insert(match_id, mv));
            assert(post.trades =~= pre.trades);
            assert(post.events =~= pre.events.push(post.events.last()));
            assert(post == pre.step(call));
            lemma_step_keeps_valid(pre, call);
        }
        Ok(())
    }

    /// Records a trade of one of the match's agents while the match is
    /// active and has not passed its end block. The trade's portfolio value
    /// becomes that agent's current value.
    pub fn record_trade(
        &mut self,
        caller: Account,
        trade: Trade,
        current_block: u64,
    ) -> (r: Result<(), ArenaError>)
        requires
            old(self).wf(),
            old(self)@.record_error(caller@, trade@, current_block) is None
                ==> old(self)@.matches[trade.match_id].trade_count < u32::MAX,
        ensures
            final(self).wf(),
            final(self)@ == old(self)@.step((Call::Record { caller: caller@, trade: trade@, current_block })),
            r is Ok <==> old(self)@.call_error((Call::Record { caller: caller@, trade: trade@, current_block })) is None,
            match r {
                Ok(()) => {
                    &&& old(self)@.record_error(caller@, trade@, current_block) is None
                    &&& final(self)@ == old(self)@.after_record(caller@, trade@)
                },
                Err(e) => {
                    &&& old(self)@.record_error(caller@, trade@, current_block) == Some(e)
                    &&& final(self)@ == old(self)@
                },
            },
    {
        let ghost call = Call::Record { caller: caller@, trade: trade@, current_block };
        let ghost pre = self@;
        if trade.reasoning_hash.as_str().is_empty() || trade.evidence_hash.as_str().is_empty() {
            return Err(ArenaError::EmptyHash);
        }
        let match_id = trade.match_id;
        let found = self.matches.get(&match_id);
        let stored = match found {
            Some(m) => m,
            None => {
                return Err(ArenaError::MatchNotFound);
            },
        };
        if stored.status != MatchStatus::Active {
            return Err(ArenaError::NotActive);
        }
        if current_block > stored.end_block {
            return Err(ArenaError::NotActive);
        }
        if !caller.eq(&stored.agent_a) && !caller.eq(&stored.agent_b) {
            return Err(ArenaError::Unauthorized);
        }
        if !trade.agent.eq(&caller) {
            return Err(ArenaError::Unauthorized);
        }
        let is_agent_a = caller.eq(&stored.agent_a);
        let mut m = self.matches.remove(&match_id).unwrap();
        if is_agent_a {
            m.value_a = trade.portfolio_value;
        } else {
            m.value_b = trade.portfolio_value;
        }
        m.trade_count = m.trade_count + 1;
        let ghost mv = m@;
        self.matches.insert(match_id, m);
        let mut list = self.trades.remove(&match_id).unwrap();
        let ghost old_list = list;
        list.push(trade.clone());
        let ghost new_list = list;
        self.trades.insert(match_id, list);
        let ghost tv = trade@;
        self.events.push(ArenaEvent::TradeRecorded(trade));
        proof {
            let post = self@;
            assert(post.matches =~= pre.matches.insert(match_id, mv));
            assert(pre.trades[match_id] == trades_view(old_list));
            assert(trades_view(new_list) =~= trades_view(old_list).push(tv));
            assert(post.trades =~= pre.trades.insert(match_id, pre.trades[match_id].push(tv)));
            assert(post.events =~= pre.events.push(ArenaEventView::TradeRecorded(tv)));
            assert(post == pre.step(call));
            lemma_step_keeps_valid(pre, call);
        }
        Ok(())
    }

    /// Settles an active match that has reached its end block with the
    /// verifier's final values and settlement hash. Returns the winner: the
    /// agent with the strictly larger final value, none on a tie.
    pub fn settle_match(
        &mut self,
        caller: &Account,
        match_id: MatchId,
        current_block: u64,
        final_value_a: Motes,
        final_value_b: Motes,
        settlement_hash: String,
    ) -> (r: Result<Option<Account>, ArenaError>)
        requires
            old(self).wf(),
        ensures
            final(self).wf(),
            final(self)@ == old(self)@.step((Call::Settle {
                caller: caller@,
                match_id,
                current_block,
                final_value_a,
                final_value_b,
                settlement_hash: settlement_hash@,
            })),
            r is Ok <==> old(self)@.call_error((Call::Settle {
                caller: caller@,
                match_id,
                current_block,
                final_value_a,
                final_value_b,
                settlement_hash: settlement_hash@,
            })) is None,
            match r {
                Ok(w) => {
                    &&& old(self)@.settle_error(caller@, match_id, current_block, settlement_hash@)
                        is None
                    &&& opt_view(w) == winner_of(
                        old(self)@.matches[match_id].agent_a,
                        old(self)@.matches[match_id].agent_b,
                        final_value_a,
                        final_value_b,
                    )
                    &&& final(self)@ == old(self)@.after_settle(
                        match_id,
                        final_value_a,
                        final_value_b,
                        settlement_hash@,
                    )
                },
                Err(e) => {
                    &&& old(self)@.settle_error(caller@, match_id, current_block, settlement_hash@)
                        == Some(e)
                    &&& final(self)@ == old(self)@
                },
            },
    {
        let ghost call = Call::Settle {
            caller: caller@,
            match_id,
            current_block,
            final_value_a,
            final_value_b,
            settlement_hash: settlement_hash@,
        };
        let ghost pre = self@;
        if settlement_hash.as_str().is_empty() {
            return Err(ArenaError::EmptyHash);
        }
        let found = self.matches.get(&match_id);
        let stored = match found {
            Some(m) => m,
            None => {
                return Err(ArenaError::MatchNotFound);
            },
        };
        if !caller.eq(&stored.verifier) {
            return Err(ArenaError::Unauthorized);
        }
        if stored.status != MatchStatus::Active {
            return Err(ArenaError::NotActive);
        }
        if current_block < stored.end_block {
            return Err(ArenaError::TooEarly);
        }
        let mut m = self.matches.remove(&match_id).unwrap();
        m.value_a = final_value_a;
        m.value_b = final_value_b;
        m.status = MatchStatus::Settled;
        m.settlement_hash = Some(settlement_hash.clone());
        m.winner = if final_value_a > final_value_b {
            Some(m.agent_a.clone())
        } else if final_value_a < final_value_b {
            Some(m.agent_b.clone())
        } else {
            None
        };
        let winner = clone_opt_string(&m.winner);
        let reported = clone_opt_string(&m.winner);
        let ghost mv = m@;
        self.matches.insert(match_id, m);
        self.events.push(
            ArenaEvent::MatchSettled {
                match_id,
                winner: reported,
                final_value_a,
                final_value_b,
                settlement_hash,
            },
        );
        proof {
            let post = self@;
            assert(post.matches =~= pre.matches.insert(match_id, mv));
            assert(post.trades =~= pre.trades);
            assert(post.events =~= pre.events.push(post.events.last()));
            assert(post == pre.step(call));
            lemma_step_keeps_valid(pre, call);
        }
        Ok(winner)
    }

    /// The identifier the next created match gets.
    pub fn next_match_id(&self) -> (r: MatchId)
        ensures
            r == self@.next_match_id,
    {
        self.next_match_id
    }

    /// Whether a match created now, ending `duration_blocks` after
    /// `current_block`, keeps the identifier counter and its end block within
    /// range; `create_match` requires it of every request it accepts.
    pub fn can_create(&self, current_block: u64, duration_blocks: u64) -> (r: bool)
        ensures
            r == (self@.next_match_id < u64::MAX && current_block + duration_blocks <= u64::MAX),
    {
        self.next_match_id < u64::MAX && current_block <= u64::MAX - duration_blocks
    }

    /// Whether starting the match at `current_block` keeps its end block
    /// within range; `start_match` requires it of every request it accepts.
    pub fn can_start(&self, match_id: MatchId, current_block: u64) -> (r: bool)
        ensures
            r == (self@.matches.contains_key(match_id) ==> current_block + duration_of(
                self@.matches[match_id],
            ) <= u64::MAX),
    {
        match self.matches.get(&match_id) {
            Some(m) => current_block <= u64::MAX - m.end_block.saturating_sub(m.start_block),
            None => true,
        }
    }

    /// The match with this identifier, if the ledger holds one.
    pub fn get_match(&self, match_id: MatchId) -> (r: Option<&Match>)
        ensures
            match r {
                Some(m) => self@.matches.contains_key(match_id) && m@ == self@.matches[match_id],
                None => !self@.matches.contains_key(match_id),
            },
    {
        self.matches.get(&match_id)
    }

    /// The number of trades recorded for the match; 0 for an unknown match.
    pub fn get_trade_count(&self, match_id: MatchId) -> (r: u32)
        ensures
            r == (if self@.matches.contains_key(match_id) {
                self@.matches[match_id].trade_count
            } else {
                0
            }),
    {
        match self.matches.get(&match_id) {
            Some(m) => m.trade_count,
            None => 0,
        }
    }

    /// The winner of the match, if the ledger holds the match and its
    /// settlement named one.
    pub fn get_winner(&self, match_id: MatchId) -> (r: Option<&Account>)
        ensures
            match r {
                Some(w) => self@.matches.contains_key(match_id) && self@.matches[match_id].winner
                    == Some(w@),
                None => !self@.matches.contains_key(match_id) || self@.matches[match_id].winner
                    is None,
            },
    {
        match self.matches.get(&match_id) {
            Some(m) => match &m.winner {
                Some(w) => Some(w),
                None => None,
            },
            None => None,
        }
    }

    /// Every event so far, oldest first.
    pub fn events(&self) -> (r: &[ArenaEvent])
        ensures
            r@.map_values(|e: ArenaEvent| e@) == self@.events,
    {
        let r = self.events.as_slice();
        proof {
            assert(r@.map_values(|e: ArenaEvent| e@) =~= self@.events);
        }
        r
    }
}

impl Default for ArenaContract {
    /// An empty ledger whose first match gets the identifier 0.
    fn default() -> (r: Self)
        ensures
            r.wf(),
            r@.next_match_id == 0,
            r@.matches == Map::<MatchId, MatchView>::empty(),
            r@.trades == Map::<MatchId, Seq<TradeView>>::empty(),
            r@.events == Seq::<ArenaEventView>::empty(),
    {
        let r = ArenaContract {
            next_match_id: 0,
            matches: BTreeMap::new(),
            trades: BTreeMap::new(),
            events: Vec::new(),
        };
        assert(r@.matches =~= Map::<MatchId, MatchView>::empty());
        assert(r@.trades =~= Map::<MatchId, Seq<TradeView>>::empty());
        assert(r@.events =~= Seq::<ArenaEventView>::empty());
        r
    }
}

} // verus!
