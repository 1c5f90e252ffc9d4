//! The rules of the on-chain contract module.
//!
//! The module keeps each field of a match in a storage mapping of its own,
//! keyed by the match identifier. A [`StoredMatch`] holds what those
//! mappings give for one identifier, each absent entry read as its
//! default; the functions here decide, from that and a request, whether
//! the request is refused and, if not, what the storage holds afterwards.
use vstd::prelude::*;
use vstd::string::*;

use crate::contract::winner_of;
use crate::decimal::{append_decimal, decimal};
use crate::types::{clone_opt_string, opt_view};

verus! {

/// Where a match stands, as the module stores it.
#[derive(Debug, Clone, Copy, PartialEq, Eq, Structural)]
pub enum OdraMatchStatus {
    Pending,
    Active,
    Settled,
}

/// Why the module refuses a request (and reverts it).
#[derive(Debug, Clone, Copy, PartialEq, Eq, Structural)]
pub enum Revert {
    DurationNotPositive,
    BudgetNotPositive,
    DuplicateAgents,
    UnauthorizedStart,
    NotPending,
    ActionRequired,
    PairRequired,
    ReasoningHashRequired,
    EvidenceHashRequired,
    NotActive,
    MatchEnded,
    UnauthorizedAgent,
    SettlementHashRequired,
    UnauthorizedVerifier,
    TooEarly,
}

/// The text the module reverts with.
pub open spec fn revert_text(r: Revert) -> Seq<char> {
    match r {
        Revert::DurationNotPositive => "duration must be positive"@,
        Revert::BudgetNotPositive => "start budget must be positive"@,
        Revert::DuplicateAgents => "agent accounts must be distinct"@,
        Revert::UnauthorizedStart => "unauthorized start caller"@,
        Revert::NotPending => "match is not pending"@,
        Revert::ActionRequired => "action is required"@,
        Revert::PairRequired => "pair is required"@,
        Revert::ReasoningHashRequired => "reasoning hash is required"@,
        Revert::EvidenceHashRequired => "evidence hash is required"@,
        Revert::NotActive => "match is not active"@,
        Revert::MatchEnded => "match already ended"@,
        Revert::UnauthorizedAgent => "unauthorized agent"@,
        Revert::SettlementHashRequired => "settlement hash is required"@,
        Revert::UnauthorizedVerifier => "unauthorized verifier"@,
        Revert::TooEarly => "too early to settle"@,
    }
}

impl Revert {
    /// The message the module reverts with.
    pub fn message(&self) -> (s: &'static str)
        ensures
            s@ == revert_text(*self),
    {
        match self {
            Revert::DurationNotPositive => "duration must be positive",
            Revert::BudgetNotPositive => "start budget must be positive",
            Revert::DuplicateAgents => "agent accounts must be distinct",
            Revert::UnauthorizedStart => "unauthorized start caller",
            Revert::NotPending => "match is not pending",
            Revert::ActionRequired => "action is required",
            Revert::PairRequired => "pair is required",
            Revert::ReasoningHashRequired => "reasoning hash is required",
            Revert::EvidenceHashRequired => "evidence hash is required",
            Revert::NotActive => "match is not active",
            Revert::MatchEnded => "match already ended",
            Revert::UnauthorizedAgent => "unauthorized agent",
            Revert::SettlementHashRequired => "settlement hash is required",
            Revert::UnauthorizedVerifier => "unauthorized verifier",
            Revert::TooEarly => "too early to settle",
        }
    }
}

/// What the module's storage holds for one match identifier.
#[derive(Debug, PartialEq, Eq)]
pub struct StoredMatch {
    pub creator: String,
    pub agent_a: String,
    pub agent_b: String,
    pub verifier: String,
    pub start_block: u64,
    pub end_block: u64,
    pub start_budget: u64,
    pub status: Option<OdraMatchStatus>,
    pub value_a: u64,
    pub value_b: u64,
    pub trade_count: u32,
    pub winner: Option<String>,
    pub settlement_hash: Option<String>,
}

/// A stored match with its strings read as character sequences.
pub struct StoredView {
    pub creator: Seq<char>,
    pub agent_a: Seq<char>,
    pub agent_b: Seq<char>,
    pub verifier: Seq<char>,
    pub start_block: u64,
    pub end_block: u64,
    pub start_budget: u64,
    pub status: Option<OdraMatchStatus>,
    pub value_a: u64,
    pub value_b: u64,
    pub trade_count: u32,
    pub winner: Option<Seq<char>>,
    pub settlement_hash: Option<Seq<char>>,
}

impl View for StoredMatch {
    type V = StoredView;

    open spec fn view(&self) -> StoredView {
        StoredView {
            creator: self.creator@,
            agent_a: self.agent_a@,
            agent_b: self.agent_b@,
            verifier: self.verifier@,
            start_block: self.start_block,
            end_block: self.end_block,
            start_budget: self.start_budget,
            status: self.status,
            value_a: self.value_a,
            value_b: self.value_b,
            trade_count: self.trade_count,
            winner: opt_view(self.winner),
            settlement_hash: opt_view(self.settlement_hash),
        }
    }
}

/// The text the module records as the digest of a trade: action, pair,
/// amount, price and portfolio value, in decimal, separated by colons.
pub open spec fn trade_digest(
    action: Seq<char>,
    pair: Seq<char>,
    amount: u64,
    price: u64,
    portfolio_value: u64,
) -> Seq<char> {
    action + seq![':'] + pair + seq![':'] + decimal(amount as nat) + seq![':'] + decimal(
        price as nat,
    ) + seq![':'] + decimal(portfolio_value as nat)
}

/// Appends one colon.
fn append_colon(s: &mut String)
    ensures
        final(s)@ == old(s)@ + seq![':'],
{
    proof {
        reveal_strlit(":");
    }
    s.append(":");
}

/// The digest of a trade that the module stores in place of a settlement
/// hash while the match runs.
pub fn digest_trade(
    action: &String,
    pair: &String,
    amount: u64,
    price: u64,
    portfolio_value: u64,
) -> (r: String)
    ensures
        r@ == trade_digest(action@, pair@, amount, price, portfolio_value),
{
    let mut s = action.clone();
    append_colon(&mut s);
    s.append(pair.as_str());
    append_colon(&mut s);
    append_decimal(&mut s, amount);
    append_colon(&mut s);
    append_decimal(&mut s, price);
    append_colon(&mut s);
    append_decimal(&mut s, portfolio_value);
    s
}

/// The refusal of a request to create a match, if any.
pub open spec fn create_revert(
    duration_blocks: u64,
    start_budget: u64,
    agent_a: Seq<char>,
    agent_b: Seq<char>,
) -> Option<Revert> {
    if duration_blocks == 0 {
        Some(Revert::DurationNotPositive)
    } else if start_budget == 0 {
        Some(Revert::BudgetNotPositive)
    } else if agent_a == agent_b {
        Some(Revert::DuplicateAgents)
    } else {
        None
    }
}

/// The storage of a newly created match.
pub open spec fn created_stored(
    creator: Seq<char>,
    agent_a: Seq<char>,
    agent_b: Seq<char>,
    verifier: Seq<char>,
    current_block: u64,
    duration_blocks: u64,
    start_budget: u64,
) -> StoredView {
    StoredView {
        creator,
        agent_a,
        agent_b,
        verifier,
        start_block: current_block,
        end_block: (current_block + duration_blocks) as u64,
        start_budget,
        status: Some(OdraMatchStatus::Pending),
        value_a: start_budget,
        value_b: start_budget,
        trade_count: 0,
        winner: None,
        settlement_hash: None,
    }
}

impl StoredView {
    /// The refusal of a request to start this match, if any.
    pub open spec fn start_revert(self, caller: Seq<char>) -> Option<Revert> {
        if caller != self.creator && caller != self.verifier {
            Some(Revert::UnauthorizedStart)
        } else if self.status != Some(OdraMatchStatus::Pending) {
            Some(Revert::NotPending)
        } else {
            None
        }
    }

    /// The length of the match in blocks, as starting it reads it.
    pub open spec fn duration(self) -> u64 {
        if self.end_block >= self.start_block {
            (self.end_block - self.start_block) as u64
        } else {
            0
        }
    }

    /// The refusal of a request to record a trade, if any.
    pub open spec fn record_revert(
        self,
        caller: Seq<char>,
        action: Seq<char>,
        pair: Seq<char>,
        reasoning_hash: Seq<char>,
        evidence_hash: Seq<char>,
        current_block: u64,
    ) -> Option<Revert> {
        if action.len() == 0 {
            Some(Revert::ActionRequired)
        } else if pair.len() == 0 {
            Some(Revert::PairRequired)
        } else if reasoning_hash.len() == 0 {
            Some(Revert::ReasoningHashRequired)
        } else if evidence_hash.len() == 0 {
            Some(Revert::EvidenceHashRequired)
        } else if self.status != Some(OdraMatchStatus::Active) {
            Some(Revert::NotActive)
        } else if current_block > self.end_block {
            Some(Revert::MatchEnded)
        } else if caller != self.agent_a && caller != self.agent_b {
            Some(Revert::UnauthorizedAgent)
        } else {
            None
        }
    }

    /// The refusal of a request to settle the match, if any.
    pub open spec fn settle_revert(
        self,
        caller: Seq<char>,
        current_block: u64,
        settlement_hash: Seq<char>,
    ) -> Option<Revert> {
        if settlement_hash.len() == 0 {
            Some(Revert::SettlementHashRequired)
        } else if caller != self.verifier {
            Some(Revert::UnauthorizedVerifier)
        } else if self.status != Some(OdraMatchStatus::Active) {
            Some(Revert::NotActive)
        } else if current_block < self.end_block {
            Some(Revert::TooEarly)
        } else {
            None
        }
    }

    /// The storage after the match is started at `current_block`.
    pub open spec fn after_start(self, current_block: u64) -> StoredView {
        StoredView {
            start_block: current_block,
            end_block: (current_block + self.duration()) as u64,
            status: Some(OdraMatchStatus::Active),
            ..self
        }
    }

    /// The storage after a trade of `caller` is recorded.
    pub open spec fn after_record(
        self,
        caller: Seq<char>,
        action: Seq<char>,
        pair: Seq<char>,
        amount: u64,
        price: u64,
        portfolio_value: u64,
    ) -> StoredView {
        StoredView {
            value_a: if caller == self.agent_a {
                portfolio_value
            } else {
                self.value_a
            },
            value_b: if caller == self.agent_a {
                self.value_b
            } else {
                portfolio_value
            },
            trade_count: (self.trade_count + 1) as u32,
            settlement_hash: Some(trade_digest(action, pair, amount, price, portfolio_value)),
            ..self
        }
    }

    /// The storage after the match is settled.
    pub open spec fn after_settle(
        self,
        final_value_a: u64,
        final_value_b: u64,
        settlement_hash: Seq<char>,
    ) -> StoredView {
        StoredView {
            value_a: final_value_a,
            value_b: final_value_b,
            status: Some(OdraMatchStatus::Settled),
            settlement_hash: Some(settlement_hash),
            winner: self.winner_for(final_value_a, final_value_b),
            ..self
        }
    }

    /// The winner that settling with these final values names.
    pub open spec fn winner_for(self, final_value_a: u64, final_value_b: u64) -> Option<Seq<char>> {
        winner_of(self.agent_a, self.agent_b, final_value_a as u128, final_value_b as u128)
    }
}

/// The refusal of a request to create a match, if any.
pub fn check_create(
    duration_blocks: u64,
    start_budget: u64,
    agent_a: &String,
    agent_b: &String,
) -> (r: Option<Revert>)
    ensures
        r == create_revert(duration_blocks, start_budget, agent_a@, agent_b@),
{
    if duration_blocks == 0 {
        Some(Revert::DurationNotPositive)
    } else if start_budget == 0 {
        Some(Revert::BudgetNotPositive)
    } else if agent_a.eq(agent_b) {
        Some(Revert::DuplicateAgents)
    } else {
        None
    }
}

/// Whether creating a match under `next_match_id` keeps the next
/// identifier and the end block within range.
pub fn create_fits(next_match_id: u64, current_block: u64, duration_blocks: u64) -> (r: bool)
    ensures
        r == (next_match_id < u64::MAX && current_block + duration_blocks <= u64::MAX),
{
    next_match_id < u64::MAX && current_block <= u64::MAX - duration_blocks
}

impl StoredMatch {
    /// Whether starting the match at `current_block` keeps its end block
    /// within range.
    pub fn start_fits(&self, current_block: u64) -> (r: bool)
        ensures
            r == (current_block + self@.duration() <= u64::MAX),
    {
        current_block <= u64::MAX - self.end_block.saturating_sub(self.start_block)
    }

    /// The refusal of a request to start this match, if any.
    pub fn check_start(&self, caller: &String) -> (r: Option<Revert>)
        ensures
            r == self@.start_revert(caller@),
    {
        if !caller.eq(&self.creator) && !caller.eq(&self.verifier) {
            Some(Revert::UnauthorizedStart)
        } else if self.status != Some(OdraMatchStatus::Pending) {
            Some(Revert::NotPending)
        } else {
            None
        }
    }

    /// The refusal of a request to record a trade in this match, if any.
    pub fn check_record(
        &self,
        caller: &String,
        action: &String,
        pair: &String,
        reasoning_hash: &String,
        evidence_hash: &String,
        current_block: u64,
    ) -> (r: Option<Revert>)
        ensures
            r == self@.record_revert(
                caller@,
                action@,
                pair@,
                reasoning_hash@,
                evidence_hash@,
                current_block,
            ),
    {
        if action.as_str().is_empty() {
            Some(Revert::ActionRequired)
        } else if pair.as_str().is_empty() {
            Some(Revert::PairRequired)
        } else if reasoning_hash.as_str().is_empty() {
            Some(Revert::ReasoningHashRequired)
        } else if evidence_hash.as_str().is_empty() {
            Some(Revert::EvidenceHashRequired)
        } else if self.status != Some(OdraMatchStatus::Active) {
            Some(Revert::NotActive)
        } else if current_block > self.end_block {
            Some(Revert::MatchEnded)
        } else if !caller.eq(&self.agent_a) && !caller.eq(&self.agent_b) {
            Some(Revert::UnauthorizedAgent)
        } else {
            None
        }
    }

    /// Creates a match under the identifier `next_match_id`. Returns the
    /// identifier, the next identifier to store, and the match's storage.
    pub fn create(
        next_match_id: u64,
        creator: String,
        agent_a: String,
        agent_b: String,
        verifier: String,
        current_block: u64,
        duration_blocks: u64,
        start_budget: u64,
    ) -> (r: Result<(u64, u64, StoredMatch), Revert>)
        requires
            create_revert(duration_blocks, start_budget, agent_a@, agent_b@) is None ==> {
                &&& next_match_id < u64::MAX
                &&& current_block + duration_blocks <= u64::MAX
            },
        ensures
            match r {
                Ok((id, next, stored)) => {
                    &&& create_revert(duration_blocks, start_budget, agent_a@, agent_b@) is None
                    &&& id == next_match_id
                    &&& next == next_match_id + 1
                    &&& stored@ == created_stored(
                        creator@,
                        agent_a@,
                        agent_b@,
                        verifier@,
                        current_block,
                        duration_blocks,
                        start_budget,
                    )
                },
                Err(e) => create_revert(duration_blocks, start_budget, agent_a@, agent_b@) == Some(
                    e,
                ),
            },
    {
        if let Some(refusal) = check_create(duration_blocks, start_budget, &agent_a, &agent_b) {
            return Err(refusal);
        }
        let stored = StoredMatch {
            creator,
            agent_a,
            agent_b,
            verifier,
            start_block: current_block,
            end_block: current_block + duration_blocks,
            start_budget,
            status: Some(OdraMatchStatus::Pending),
            value_a: start_budget,
            value_b: start_budget,
            trade_count: 0,
            winner: None,
            settlement_hash: None,
        };
        Ok((next_match_id, next_match_id + 1, stored))
    }

    /// Starts the match at `current_block`, keeping its length. Only its
    /// creator or verifier may start it, and only while it is pending.
    pub fn start(&mut self, caller: &String, current_block: u64) -> (r: Result<(), Revert>)
        requires
            old(self)@.start_revert(caller@) is None ==> current_block + old(self)@.duration()
                <= u64::MAX,
        ensures
            match r {
                Ok(()) => {
                    &&& old(self)@.start_revert(caller@) is None
                    &&& final(self)@ == old(self)@.after_start(current_block)
                },
                Err(e) => {
                    &&& old(self)@.start_revert(caller@) == Some(e)
                    &&& final(self)@ == old(self)@
                },
            },
    {
        if let Some(refusal) = self.check_start(caller) {
            return Err(refusal);
        }
        let duration = self.end_block.saturating_sub(self.start_block);
        self.start_block = current_block;
        self.end_block = current_block + duration;
        self.status = Some(OdraMatchStatus::Active);
        Ok(())
    }

    /// Records a trade of one of the two agents while the match is active
    /// and has not passed its end block: the agent's portfolio value is
    /// replaced, one more trade is counted, and the trade's digest is stored
    /// as the match's settlement hash.
    pub fn record_trade(
        &mut self,
        caller: &String,
        action: &String,
        pair: &String,
        amount: u64,
        price: u64,
        portfolio_value: u64,
        reasoning_hash: &String,
        evidence_hash: &String,
        current_block: u64,
    ) -> (r: Result<(), Revert>)
        requires
            old(self)@.record_revert(
                caller@,
                action@,
                pair@,
                reasoning_hash@,
                evidence_hash@,
                current_block,
            ) is None ==> old(self).trade_count < u32::MAX,
        ensures
            match r {
                Ok(()) => {
                    &&& old(self)@.record_revert(
                        caller@,
                        action@,
                        pair@,
                        reasoning_hash@,
                        evidence_hash@,
                        current_block,
                    ) is None
                    &&& final(self)@ == old(self)@.after_record(
                        caller@,
                        action@,
                        pair@,
                        amount,
                        price,
                        portfolio_value,
                    )
                },
                Err(e) => {
                    &&& old(self)@.record_revert(
                        caller@,
                        action@,
                        pair@,
                        reasoning_hash@,
                        evidence_hash@,
                        current_block,
                    ) == Some(e)
                    &&& final(self)@ == old(self)@
                },
            },
    {
        if let Some(refusal) = self.check_record(
            caller,
            action,
            pair,
            reasoning_hash,
            evidence_hash,
            current_block,
        ) {
            return Err(refusal);
        }
        if caller.eq(&self.agent_a) {
            self.value_a = portfolio_value;
        } else {
            self.value_b = portfolio_value;
        }
        self.trade_count = self.trade_count + 1;
        let digest = digest_trade(action, pair, amount, price, portfolio_value);
        self.settlement_hash = Some(digest);
        Ok(())
    }

    /// Settles an active match that has reached its end block with the
    /// verifier's final values and hash. Returns the winner: the agent with
    /// the strictly larger final value, none on a tie.
    pub fn settle(
        &mut self,
        caller: &String,
        current_block: u64,
        final_value_a: u64,
        final_value_b: u64,
        settlement_hash: String,
    ) -> (r: Result<Option<String>, Revert>)
        ensures
            match r {
                Ok(w) => {
                    &&& old(self)@.settle_revert(caller@, current_block, settlement_hash@) is None
                    &&& opt_view(w) == old(self)@.winner_for(final_value_a, final_value_b)
                    &&& final(self)@ == old(self)@.after_settle(
                        final_value_a,
                        final_value_b,
                        settlement_hash@,
                    )
                },
                Err(e) => {
                    &&& old(self)@.settle_revert(caller@, current_block, settlement_hash@)
                        == Some(e)
                    &&& final(self)@ == old(self)@
                },
            },
    {
        if settlement_hash.as_str().is_empty() {
            return Err(Revert::SettlementHashRequired);
        }
        if !caller.eq(&self.verifier) {
            return Err(Revert::UnauthorizedVerifier);
        }
        if self.status != Some(OdraMatchStatus::Active) {
            return Err(Revert::NotActive);
        }
        if current_block < self.end_block {
            return Err(Revert::TooEarly);
        }
        self.value_a = final_value_a;
        self.value_b = final_value_b;
        self.status = Some(OdraMatchStatus::Settled);
        self.settlement_hash = Some(settlement_hash);
        let winner = if final_value_a > final_value_b {
            Some(self.agent_a.clone())
        } else if final_value_b > final_value_a {
            Some(self.agent_b.clone())
        } else {
            None
        };
        self.winner = clone_opt_string(&winner);
        Ok(winner)
    }
}

/// What the storage gives for an identifier under which nothing was
/// written: every entry read as its default.
pub open spec fn absent_stored() -> StoredView {
    StoredView {
        creator: Seq::empty(),
        agent_a: Seq::empty(),
        agent_b: Seq::empty(),
        verifier: Seq::empty(),
        start_block: 0,
        end_block: 0,
        start_budget: 0,
        status: None,
        value_a: 0,
        value_b: 0,
        trade_count: 0,
        winner: None,
        settlement_hash: None,
    }
}

/// The module's whole storage as a mathematical value: the identifier
/// counter and what was written under each match identifier.
pub struct ModuleView {
    pub next_match_id: u64,
    pub stored: Map<u64, StoredView>,
}

/// A request to the module, with its strings read as character sequences.
pub enum ModuleCall {
    Create {
        creator: Seq<char>,
        agent_a: Seq<char>,
        agent_b: Seq<char>,
        verifier: Seq<char>,
        current_block: u64,
        duration_blocks: u64,
        start_budget: u64,
    },
    Start { match_id: u64, caller: Seq<char>, current_block: u64 },
    Record {
        match_id: u64,
        caller: Seq<char>,
        action: Seq<char>,
        pair: Seq<char>,
        amount: u64,
        price: u64,
        portfolio_value: u64,
        reasoning_hash: Seq<char>,
        evidence_hash: Seq<char>,
        current_block: u64,
    },
    Settle {
        match_id: u64,
        caller: Seq<char>,
        current_block: u64,
        final_value_a: u64,
        final_value_b: u64,
        settlement_hash: Seq<char>,
    },
}

impl ModuleView {
    /// The storage once the module is initialised.
    pub open spec fn initial() -> ModuleView {
        ModuleView { next_match_id: 1, stored: Map::empty() }
    }

    /// What the storage gives for a match identifier.
    pub open spec fn load(self, id: u64) -> StoredView {
        if self.stored.contains_key(id) {
            self.stored[id]
        } else {
            absent_stored()
        }
    }

    /// The refusal of a request, if any.
    pub open spec fn revert(self, c: ModuleCall) -> Option<Revert> {
        match c {
            ModuleCall::Create { agent_a, agent_b, duration_blocks, start_budget, .. } =>
                create_revert(duration_blocks, start_budget, agent_a, agent_b),
            ModuleCall::Start { match_id, caller, .. } => self.load(match_id).start_revert(caller),
            ModuleCall::Record {
                match_id,
                caller,
                action,
                pair,
                reasoning_hash,
                evidence_hash,
                current_block,
                ..
            } => self.load(match_id).record_revert(
                caller,
                action,
                pair,
                reasoning_hash,
                evidence_hash,
                current_block,
            ),
            ModuleCall::Settle { match_id, caller, current_block, settlement_hash, .. } =>
                self.load(match_id).settle_revert(caller, current_block, settlement_hash),
        }
    }

    /// Whether an accepted request keeps within the machine's integers.
    pub open spec fn permits(self, c: ModuleCall) -> bool {
        self.revert(c) is None ==> match c {
            ModuleCall::Create { current_block, duration_blocks, .. } => self.next_match_id
                < u64::MAX && current_block + duration_blocks <= u64::MAX,
            ModuleCall::Start { match_id, current_block, .. } => current_block + self.load(
                match_id,
            ).duration() <= u64::MAX,
            ModuleCall::Record { match_id, .. } => self.load(match_id).trade_count < u32::MAX,
            ModuleCall::Settle { .. } => true,
        }
    }

    /// The storage after a request: unchanged when it is reverted.
    pub open spec fn step(self, c: ModuleCall) -> ModuleView {
        if self.revert(c) is Some {
            self
        } else {
            match c {
                ModuleCall::Create {
                    creator,
                    agent_a,
                    agent_b,
                    verifier,
                    current_block,
                    duration_blocks,
                    start_budget,
                } => ModuleView {
                    next_match_id: (self.next_match_id + 1) as u64,
                    stored: self.stored.insert(
                        self.next_match_id,
                        created_stored(
                            creator,
                            agent_a,
                            agent_b,
                            verifier,
                            current_block,
                            duration_blocks,
                            start_budget,
                        ),
                    ),
                },
                ModuleCall::Start { match_id, current_block, .. } => ModuleView {
                    stored: self.stored.insert(
                        match_id,
                        self.load(match_id).after_start(current_block),
                    ),
                    ..self
                },
                ModuleCall::Record {
                    match_id,
                    caller,
                    action,
                    pair,
                    amount,
                    price,
                    portfolio_value,
                    ..
                } => ModuleView {
                    stored: self.stored.insert(
                        match_id,
                        self.load(match_id).after_record(
                            caller,
                            action,
                            pair,
                            amount,
                            price,
                            portfolio_value,
                        ),
                    ),
                    ..self
                },
                ModuleCall::Settle {
                    match_id,
                    final_value_a,
                    final_value_b,
                    settlement_hash,
                    ..
                } => ModuleView {
                    stored: self.stored.insert(
                        match_id,
                        self.load(match_id).after_settle(
                            final_value_a,
                            final_value_b,
                            settlement_hash,
                        ),
                    ),
                    ..self
                },
            }
        }
    }

    /// The storage after a sequence of requests, first to last.
    pub open spec fn run(self, calls: Seq<ModuleCall>) -> ModuleView
        decreases calls.len(),
    {
        if calls.len() == 0 {
            self
        } else {
            self.run(calls.drop_last()).step(calls.last())
        }
    }

    /// Whether every request of the sequence keeps within the machine's
    /// integers where it is made.
    pub open spec fn runnable(self, calls: Seq<ModuleCall>) -> bool
        decreases calls.len(),
    {
        calls.len() == 0 || (self.runnable(calls.drop_last()) && self.run(
            calls.drop_last(),
        ).permits(calls.last()))
    }
}

} // verus!
