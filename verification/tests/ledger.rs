use arena::{Account, ArenaContract, ArenaError, ArenaEvent, MatchId, MatchStatus, Motes, Trade, TradeAction};

fn account(name: &str) -> Account {
    name.to_string()
}

fn trade(match_id: MatchId, agent: &str, value: Motes) -> Trade {
    Trade {
        match_id,
        agent: account(agent),
        action: TradeAction::Buy,
        pair: "CSPR/USDT".to_string(),
        amount: 100,
        price: 25_000,
        portfolio_value: value,
        reasoning_hash: "reasoning".to_string(),
        evidence_hash: "evidence".to_string(),
        block_time: 2,
    }
}

fn open_match(arena: &mut ArenaContract, current_block: u64, duration: u64) -> MatchId {
    arena
        .create_match(
            account("creator"),
            account("alpha"),
            account("beta"),
            account("verifier"),
            current_block,
            duration,
            1_000,
        )
        .unwrap()
}

#[test]
fn create_match_initializes_state() {
    let mut arena = ArenaContract::new();
    let id = arena
        .create_match(
            account("creator"),
            account("alpha"),
            account("beta"),
            account("verifier"),
            10,
            20,
            1_000,
        )
        .unwrap();
    let m = arena.get_match(id).unwrap();
    assert_eq!(m.status, MatchStatus::Pending);
    assert_eq!(m.value_a, 1_000);
    assert_eq!(m.value_b, 1_000);
    assert_eq!(m.end_block, 30);
    assert_eq!(arena.events().len(), 1);
}

#[test]
fn non_agent_cannot_record_trade() {
    let mut arena = ArenaContract::new();
    let id = arena
        .create_match(
            account("creator"),
            account("alpha"),
            account("beta"),
            account("verifier"),
            1,
            10,
            1_000,
        )
        .unwrap();
    arena.start_match(&account("creator"), id, 2).unwrap();
    let err = arena.record_trade(account("intruder"), trade(id, "intruder", 1_001), 3);
    assert_eq!(err, Err(ArenaError::Unauthorized));
}

#[test]
fn agent_cannot_record_before_start() {
    let mut arena = ArenaContract::new();
    let id = arena
        .create_match(
            account("creator"),
            account("alpha"),
            account("beta"),
            account("verifier"),
            1,
            10,
            1_000,
        )
        .unwrap();
    let err = arena.record_trade(account("alpha"), trade(id, "alpha", 1_001), 2);
    assert_eq!(err, Err(ArenaError::NotActive));
}

#[test]
fn verifier_only_settlement_and_winner_selection() {
    let mut arena = ArenaContract::new();
    let id = arena
        .create_match(
            account("creator"),
            account("alpha"),
            account("beta"),
            account("verifier"),
            1,
            2,
            1_000,
        )
        .unwrap();
    arena.start_match(&account("creator"), id, 2).unwrap();
    let unauthorized = arena.settle_match(&account("alpha"), id, 4, 1_100, 990, "settle".into());
    assert_eq!(unauthorized, Err(ArenaError::Unauthorized));
    let winner = arena
        .settle_match(&account("verifier"), id, 4, 1_100, 990, "settle".into())
        .unwrap();
    assert_eq!(winner, Some(account("alpha")));
    assert_eq!(arena.get_winner(id), Some(&account("alpha")));
}

#[test]
fn tie_emits_no_winner() {
    let mut arena = ArenaContract::new();
    let id = arena
        .create_match(
            account("creator"),
            account("alpha"),
            account("beta"),
            account("verifier"),
            1,
            2,
            1_000,
        )
        .unwrap();
    arena.start_match(&account("creator"), id, 2).unwrap();
    let winner = arena
        .settle_match(&account("verifier"), id, 4, 1_000, 1_000, "settle".into())
        .unwrap();
    assert_eq!(winner, None);
}

#[test]
fn identifiers_start_at_one_and_grow() {
    let mut arena = ArenaContract::new();
    assert_eq!(open_match(&mut arena, 1, 5), 1);
    assert_eq!(open_match(&mut arena, 1, 5), 2);
    assert_eq!(open_match(&mut arena, 1, 5), 3);
    assert_eq!(arena.events().len(), 3);
}

#[test]
fn default_ledger_starts_at_zero() {
    let mut arena = ArenaContract::default();
    assert_eq!(open_match(&mut arena, 1, 5), 0);
    assert_eq!(open_match(&mut arena, 1, 5), 1);
}

#[test]
fn create_refusals_in_order() {
    let mut arena = ArenaContract::new();
    let r = arena.create_match(account("c"), account("a"), account("a"), account("v"), 1, 0, 0);
    assert_eq!(r, Err(ArenaError::InvalidDuration));
    let r = arena.create_match(account("c"), account("a"), account("a"), account("v"), 1, 3, 0);
    assert_eq!(r, Err(ArenaError::InvalidBudget));
    let r = arena.create_match(account("c"), account("a"), account("a"), account("v"), 1, 3, 5);
    assert_eq!(r, Err(ArenaError::DuplicateAgents));
    assert!(arena.events().is_empty());
    assert!(arena.get_match(1).is_none());
    // A refused request does not use up an identifier.
    assert_eq!(open_match(&mut arena, 1, 5), 1);
}

#[test]
fn created_match_holds_its_parameters() {
    let mut arena = ArenaContract::new();
    let id = open_match(&mut arena, 7, 3);
    let m = arena.get_match(id).unwrap();
    assert_eq!(m.id, id);
    assert_eq!(m.creator, "creator");
    assert_eq!(m.agent_a, "alpha");
    assert_eq!(m.agent_b, "beta");
    assert_eq!(m.verifier, "verifier");
    assert_eq!(m.start_block, 7);
    assert_eq!(m.end_block, 10);
    assert_eq!(m.start_budget, 1_000);
    assert_eq!(m.trade_count, 0);
    assert_eq!(m.winner, None);
    assert_eq!(m.settlement_hash, None);
    assert_eq!(
        arena.events()[0],
        ArenaEvent::MatchCreated {
            match_id: id,
            agent_a: account("alpha"),
            agent_b: account("beta"),
            verifier: account("verifier"),
            start_budget: 1_000,
            end_block: 10,
        }
    );
}

#[test]
fn start_keeps_duration_and_reports_window() {
    let mut arena = ArenaContract::new();
    let id = open_match(&mut arena, 10, 20);
    arena.start_match(&account("verifier"), id, 12).unwrap();
    let m = arena.get_match(id).unwrap();
    assert_eq!(m.status, MatchStatus::Active);
    assert_eq!(m.start_block, 12);
    assert_eq!(m.end_block, 32);
    assert_eq!(
        arena.events()[1],
        ArenaEvent::MatchStarted { match_id: id, start_block: 12, end_block: 32 }
    );
}

#[test]
fn start_refusals() {
    let mut arena = ArenaContract::new();
    assert_eq!(arena.start_match(&account("creator"), 9, 1), Err(ArenaError::MatchNotFound));
    let id = open_match(&mut arena, 1, 5);
    assert_eq!(arena.start_match(&account("alpha"), id, 2), Err(ArenaError::Unauthorized));
    arena.start_match(&account("creator"), id, 2).unwrap();
    assert_eq!(arena.start_match(&account("creator"), id, 3), Err(ArenaError::NotPending));
    assert_eq!(arena.events().len(), 2);
}

#[test]
fn record_trade_updates_the_agents_value() {
    let mut arena = ArenaContract::new();
    let id = open_match(&mut arena, 1, 10);
    arena.start_match(&account("creator"), id, 2).unwrap();
    arena.record_trade(account("alpha"), trade(id, "alpha", 1_200), 3).unwrap();
    arena.record_trade(account("beta"), trade(id, "beta", 800), 4).unwrap();
    arena.record_trade(account("alpha"), trade(id, "alpha", 1_300), 12).unwrap();
    let m = arena.get_match(id).unwrap();
    assert_eq!(m.value_a, 1_300);
    assert_eq!(m.value_b, 800);
    assert_eq!(m.trade_count, 3);
    assert_eq!(arena.get_trade_count(id), 3);
    assert_eq!(arena.get_trade_count(id + 1), 0);
    assert_eq!(arena.events()[4], ArenaEvent::TradeRecorded(trade(id, "alpha", 1_300)));
}

#[test]
fn record_refusals() {
    let mut arena = ArenaContract::new();
    let id = open_match(&mut arena, 1, 10);
    let mut t = trade(id, "alpha", 5);
    t.reasoning_hash = String::new();
    assert_eq!(arena.record_trade(account("alpha"), t, 2), Err(ArenaError::EmptyHash));
    let mut t = trade(id, "alpha", 5);
    t.evidence_hash = String::new();
    assert_eq!(arena.record_trade(account("alpha"), t, 2), Err(ArenaError::EmptyHash));
    assert_eq!(
        arena.record_trade(account("alpha"), trade(id + 1, "alpha", 5), 2),
        Err(ArenaError::MatchNotFound)
    );
    arena.start_match(&account("creator"), id, 2).unwrap();
    assert_eq!(
        arena.record_trade(account("alpha"), trade(id, "alpha", 5), 13),
        Err(ArenaError::NotActive)
    );
    assert_eq!(
        arena.record_trade(account("alpha"), trade(id, "beta", 5), 3),
        Err(ArenaError::Unauthorized)
    );
    assert_eq!(arena.get_trade_count(id), 0);
    assert_eq!(arena.events().len(), 2);
}

#[test]
fn settle_refusals_and_finality() {
    let mut arena = ArenaContract::new();
    let id = open_match(&mut arena, 1, 10);
    let v = account("verifier");
    assert_eq!(arena.settle_match(&v, id, 20, 1, 2, String::new()), Err(ArenaError::EmptyHash));
    assert_eq!(arena.settle_match(&v, id + 1, 20, 1, 2, "h".into()), Err(ArenaError::MatchNotFound));
    assert_eq!(arena.settle_match(&v, id, 20, 1, 2, "h".into()), Err(ArenaError::NotActive));
    arena.start_match(&account("creator"), id, 2).unwrap();
    assert_eq!(arena.settle_match(&v, id, 11, 1, 2, "h".into()), Err(ArenaError::TooEarly));
    assert_eq!(arena.settle_match(&v, id, 12, 1, 2, "h".into()), Ok(Some(account("beta"))));
    let m = arena.get_match(id).unwrap();
    assert_eq!(m.status, MatchStatus::Settled);
    assert_eq!(m.value_a, 1);
    assert_eq!(m.value_b, 2);
    assert_eq!(m.settlement_hash, Some("h".to_string()));
    assert_eq!(arena.get_winner(id), Some(&account("beta")));
    // A settled match is final.
    assert_eq!(arena.settle_match(&v, id, 13, 5, 2, "h".into()), Err(ArenaError::NotActive));
    assert_eq!(arena.start_match(&account("creator"), id, 13), Err(ArenaError::NotPending));
    assert_eq!(
        arena.record_trade(account("alpha"), trade(id, "alpha", 5), 12),
        Err(ArenaError::NotActive)
    );
    assert_eq!(
        arena.events()[2],
        ArenaEvent::MatchSettled {
            match_id: id,
            winner: Some(account("beta")),
            final_value_a: 1,
            final_value_b: 2,
            settlement_hash: "h".to_string(),
        }
    );
    assert_eq!(arena.events().len(), 3);
}

#[test]
fn winner_unknown_for_unsettled_or_missing_match() {
    let mut arena = ArenaContract::new();
    let id = open_match(&mut arena, 1, 10);
    assert_eq!(arena.get_winner(id), None);
    assert_eq!(arena.get_winner(id + 5), None);
}

#[test]
fn error_messages() {
    assert_eq!(ArenaError::MatchNotFound.message(), "match not found");
    assert_eq!(ArenaError::Unauthorized.message(), "caller is not authorized for this action");
    assert_eq!(ArenaError::NotPending.message(), "match is not pending");
    assert_eq!(ArenaError::NotActive.message(), "match is not active");
    assert_eq!(ArenaError::TooEarly.message(), "match has not reached its end block");
    assert_eq!(ArenaError::InvalidDuration.message(), "invalid match duration");
    assert_eq!(ArenaError::InvalidBudget.message(), "invalid start budget");
    assert_eq!(ArenaError::DuplicateAgents.message(), "agent accounts must be distinct");
    assert_eq!(ArenaError::EmptyHash.message(), "required hash is empty");
}

#[test]
fn clones_keep_values() {
    let t = trade(4, "alpha", 9);
    assert_eq!(t.clone(), t);
    let mut arena = ArenaContract::new();
    let id = open_match(&mut arena, 1, 10);
    let m = arena.get_match(id).unwrap();
    assert_eq!(&m.clone(), m);
    let e = arena.events()[0].clone();
    assert_eq!(e, arena.events()[0]);
}

#[test]
fn counter_and_range_checks() {
    let mut arena = ArenaContract::new();
    assert_eq!(arena.next_match_id(), 1);
    assert!(arena.can_create(10, 20));
    assert!(!arena.can_create(u64::MAX, 1));
    assert!(arena.can_create(u64::MAX - 1, 1));
    let id = open_match(&mut arena, 1, 10);
    assert_eq!(arena.next_match_id(), 2);
    assert!(arena.can_start(id, u64::MAX - 10));
    assert!(!arena.can_start(id, u64::MAX - 9));
    assert!(arena.can_start(id + 7, u64::MAX));
}

#[test]
fn trade_count_matches_trade_events() {
    let mut arena = ArenaContract::new();
    let first = open_match(&mut arena, 1, 10);
    let second = open_match(&mut arena, 1, 10);
    arena.start_match(&account("creator"), first, 2).unwrap();
    arena.start_match(&account("creator"), second, 2).unwrap();
    arena.record_trade(account("alpha"), trade(first, "alpha", 1), 3).unwrap();
    arena.record_trade(account("beta"), trade(second, "beta", 2), 3).unwrap();
    arena.record_trade(account("beta"), trade(first, "beta", 3), 4).unwrap();
    let _ = arena.record_trade(account("intruder"), trade(first, "intruder", 3), 4);
    for id in [first, second, second + 1] {
        let events = arena
            .events()
            .iter()
            .filter(|e| matches!(e, ArenaEvent::TradeRecorded(t) if t.match_id == id))
            .count() as u32;
        assert_eq!(arena.get_trade_count(id), events);
    }
    assert_eq!(arena.get_trade_count(first), 2);
}

#[test]
fn started_match_never_pending_again() {
    let mut arena = ArenaContract::new();
    let id = open_match(&mut arena, 1, 2);
    arena.start_match(&account("creator"), id, 2).unwrap();
    assert_eq!(arena.start_match(&account("verifier"), id, 3), Err(ArenaError::NotPending));
    arena.settle_match(&account("verifier"), id, 5, 7, 7, "s".into()).unwrap();
    assert_eq!(arena.start_match(&account("creator"), id, 6), Err(ArenaError::NotPending));
    assert_ne!(arena.get_match(id).unwrap().status, MatchStatus::Pending);
}
