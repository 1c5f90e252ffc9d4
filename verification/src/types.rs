use vstd::prelude::*;

verus! {

/// Identifier of a match.
pub type MatchId = u64;

/// An account on the chain, by its textual key.
pub type Account = String;

/// An amount of motes.
pub type Motes = u128;

/// Where a match stands in its lifecycle.
#[derive(Debug, Clone, Copy, PartialEq, Eq, Structural)]
pub enum MatchStatus {
    Pending,
    Active,
    Settled,
}

/// What an agent did in a trade.
#[derive(Debug, Clone, Copy, PartialEq, Eq, Structural)]
pub enum TradeAction {
    Buy,
    Sell,
    Hold,
}

/// Why a request to the ledger was refused.
#[derive(Debug, Clone, Copy, PartialEq, Eq, Structural)]
pub enum ArenaError {
    MatchNotFound,
    Unauthorized,
    NotPending,
    NotActive,
    TooEarly,
    InvalidDuration,
    InvalidBudget,
    DuplicateAgents,
    EmptyHash,
}

/// The text that describes an error.
pub open spec fn error_text(e: ArenaError) -> Seq<char> {
    match e {
        ArenaError::MatchNotFound => "match not found"@,
        ArenaError::Unauthorized => "caller is not authorized for this action"@,
        ArenaError::NotPending => "match is not pending"@,
        ArenaError::NotActive => "match is not active"@,
        ArenaError::TooEarly => "match has not reached its end block"@,
        ArenaError::InvalidDuration => "invalid match duration"@,
        ArenaError::InvalidBudget => "invalid start budget"@,
        ArenaError::DuplicateAgents => "agent accounts must be distinct"@,
        ArenaError::EmptyHash => "required hash is empty"@,
    }
}

impl ArenaError {
    /// The human-readable description of the error.
    pub fn message(&self) -> (s: &'static str)
        ensures
            s@ == error_text(*self),
    {
        match self {
            ArenaError::MatchNotFound => "match not found",
            ArenaError::Unauthorized => "caller is not authorized for this action",
            ArenaError::NotPending => "match is not pending",
            ArenaError::NotActive => "match is not active",
            ArenaError::TooEarly => "match has not reached its end block",
            ArenaError::InvalidDuration => "invalid match duration",
            ArenaError::InvalidBudget => "invalid start budget",
            ArenaError::DuplicateAgents => "agent accounts must be distinct",
            ArenaError::EmptyHash => "required hash is empty",
        }
    }
}


/// One match between two agents.
#[derive(Debug, PartialEq, Eq)]
pub struct Match {
    pub id: MatchId,
    pub creator: Account,
    pub agent_a: Account,
    pub agent_b: Account,
    pub verifier: Account,
    pub start_block: u64,
    pub end_block: u64,
    pub start_budget: Motes,
    pub status: MatchStatus,
    pub value_a: Motes,
    pub value_b: Motes,
    pub trade_count: u32,
    pub winner: Option<Account>,
    pub settlement_hash: Option<String>,
}

/// A match with its accounts and hashes read as character sequences.
pub struct MatchView {
    pub id: MatchId,
    pub creator: Seq<char>,
    pub agent_a: Seq<char>,
    pub agent_b: Seq<char>,
    pub verifier: Seq<char>,
    pub start_block: u64,
    pub end_block: u64,
    pub start_budget: Motes,
    pub status: MatchStatus,
    pub value_a: Motes,
    pub value_b: Motes,
    pub trade_count: u32,
    pub winner: Option<Seq<char>>,
    pub settlement_hash: Option<Seq<char>>,
}

/// The view of an optional string.
pub open spec fn opt_view(o: Option<String>) -> Option<Seq<char>> {
    match o {
        Some(s) => Some(s@),
        None => None,
    }
}

impl View for Match {
    type V = MatchView;

    open spec fn view(&self) -> MatchView {
        MatchView {
            id: self.id,
            creator: self.creator@,
            agent_a: self.agent_a@,
            agent_b: self.agent_b@,
            verifier: self.verifier@,
            start_block: self.start_block,
            end_block: self.end_block,
            start_budget: self.start_budget,
            status: self.status,
            value_a: self.value_a,
            value_b: self.value_b,
            trade_count: self.trade_count,
            winner: opt_view(self.winner),
            settlement_hash: opt_view(self.settlement_hash),
        }
    }
}

/// Clones an optional string, keeping its value.
pub fn clone_opt_string(o: &Option<String>) -> (r: Option<String>)
    ensures
        r == *o,
{
    match o {
        Some(s) => Some(s.clone()),
        None => None,
    }
}

impl Clone for Match {
    fn clone(&self) -> (r: Self)
        ensures
            r == *self,
    {
        Match {
            id: self.id,
            creator: self.creator.clone(),
            agent_a: self.agent_a.clone(),
            agent_b: self.agent_b.clone(),
            verifier: self.verifier.clone(),
            start_block: self.start_block,
            end_block: self.end_block,
            start_budget: self.start_budget,
            status: self.status,
            value_a: self.value_a,
            value_b: self.value_b,
            trade_count: self.trade_count,
            winner: clone_opt_string(&self.winner),
            settlement_hash: clone_opt_string(&self.settlement_hash),
        }
    }
}

/// A trade an agent reports while its match is active.
#[derive(Debug, PartialEq, Eq)]
pub struct Trade {
    pub match_id: MatchId,
    pub agent: Account,
    pub action: TradeAction,
    pub pair: String,
    pub amount: Motes,
    pub price: u64,
    pub portfolio_value: Motes,
    pub reasoning_hash: String,
    pub evidence_hash: String,
    pub block_time: u64,
}

/// A trade with its strings read as character sequences.
pub struct TradeView {
    pub match_id: MatchId,
    pub agent: Seq<char>,
    pub action: TradeAction,
    pub pair: Seq<char>,
    pub amount: Motes,
    pub price: u64,
    pub portfolio_value: Motes,
    pub reasoning_hash: Seq<char>,
    pub evidence_hash: Seq<char>,
    pub block_time: u64,
}

impl View for Trade {
    type V = TradeView;

    open spec fn view(&self) -> TradeView {
        TradeView {
            match_id: self.match_id,
            agent: self.agent@,
            action: self.action,
            pair: self.pair@,
            amount: self.amount,
            price: self.price,
            portfolio_value: self.portfolio_value,
            reasoning_hash: self.reasoning_hash@,
            evidence_hash: self.evidence_hash@,
            block_time: self.block_time,
        }
    }
}

impl Clone for Trade {
    fn clone(&self) -> (r: Self)
        ensures
            r == *self,
    {
        Trade {
            match_id: self.match_id,
            agent: self.agent.clone(),
            action: self.action,
            pair: self.pair.clone(),
            amount: self.amount,
            price: self.price,
            portfolio_value: self.portfolio_value,
            reasoning_hash: self.reasoning_hash.clone(),
            evidence_hash: self.evidence_hash.clone(),
            block_time: self.block_time,
        }
    }
}

/// What the ledger reports of each accepted request.
#[derive(Debug, PartialEq, Eq)]
pub enum ArenaEvent {
    MatchCreated {
        match_id: MatchId,
        agent_a: Account,
        agent_b: Account,
        verifier: Account,
        start_budget: Motes,
        end_block: u64,
    },
    MatchStarted { match_id: MatchId, start_block: u64, end_block: u64 },
    TradeRecorded(Trade),
    MatchSettled {
        match_id: MatchId,
        winner: Option<Account>,
        final_value_a: Motes,
        final_value_b: Motes,
        settlement_hash: String,
    },
}

/// An event with its strings read as character sequences.
pub enum ArenaEventView {
    MatchCreated {
        match_id: MatchId,
        agent_a: Seq<char>,
        agent_b: Seq<char>,
        verifier: Seq<char>,
        start_budget: Motes,
        end_block: u64,
    },
    MatchStarted { match_id: MatchId, start_block: u64, end_block: u64 },
    TradeRecorded(TradeView),
    MatchSettled {
        match_id: MatchId,
        winner: Option<Seq<char>>,
        final_value_a: Motes,
        final_value_b: Motes,
        settlement_hash: Seq<char>,
    },
}

impl View for ArenaEvent {
    type V = ArenaEventView;

    open spec fn view(&self) -> ArenaEventView {
        match self {
            ArenaEvent::MatchCreated {
                match_id,
                agent_a,
                agent_b,
                verifier,
                start_budget,
                end_block,
            } => ArenaEventView::MatchCreated {
                match_id: *match_id,
                agent_a: agent_a@,
                agent_b: agent_b@,
                verifier: verifier@,
                start_budget: *start_budget,
                end_block: *end_block,
            },
            ArenaEvent::MatchStarted { match_id, start_block, end_block } =>
                ArenaEventView::MatchStarted {
                match_id: *match_id,
                start_block: *start_block,
                end_block: *end_block,
            },
            ArenaEvent::TradeRecorded(t) => ArenaEventView::TradeRecorded(t@),
            ArenaEvent::MatchSettled {
                match_id,
                winner,
                final_value_a,
                final_value_b,
                settlement_hash,
            } => ArenaEventView::MatchSettled {
                match_id: *match_id,
                winner: opt_view(*winner),
                final_value_a: *final_value_a,
                final_value_b: *final_value_b,
                settlement_hash: settlement_hash@,
            },
        }
    }
}

impl Clone for ArenaEvent {
    fn clone(&self) -> (r: Self)
        ensures
            r == *self,
    {
        match self {
            ArenaEvent::MatchCreated {
                match_id,
                agent_a,
                agent_b,
                verifier,
                start_budget,
                end_block,
            } => ArenaEvent::MatchCreated {
                match_id: *match_id,
                agent_a: agent_a.clone(),
                agent_b: agent_b.clone(),
                verifier: verifier.clone(),
                start_budget: *start_budget,
                end_block: *end_block,
            },
            ArenaEvent::MatchStarted { match_id, start_block, end_block } =>
                ArenaEvent::MatchStarted {
                match_id: *match_id,
                start_block: *start_block,
                end_block: *end_block,
            },
            ArenaEvent::TradeRecorded(t) => ArenaEvent::TradeRecorded(t.clone()),
            ArenaEvent::MatchSettled {
                match_id,
                winner,
                final_value_a,
                final_value_b,
                settlement_hash,
            } => ArenaEvent::MatchSettled {
                match_id: *match_id,
                winner: clone_opt_string(winner),
                final_value_a: *final_value_a,
                final_value_b: *final_value_b,
                settlement_hash: settlement_hash.clone(),
            },
        }
    }
}

} // verus!
