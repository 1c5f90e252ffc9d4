use arena::decimal::append_decimal;
use arena::onchain::digest_trade;
use arena::{OdraMatchStatus, Revert, StoredMatch};

fn text(s: &str) -> String {
    s.to_string()
}

fn created(current_block: u64, duration: u64) -> StoredMatch {
    let (_, _, stored) = StoredMatch::create(
        1,
        text("creator"),
        text("alpha"),
        text("beta"),
        text("verifier"),
        current_block,
        duration,
        1_000,
    )
    .unwrap();
    stored
}

#[test]
fn creates_and_starts_match() {
    let (id, next, mut stored) = StoredMatch::create(
        1,
        "creator".to_string(),
        "alpha".to_string(),
        "beta".to_string(),
        "verifier".to_string(),
        10,
        20,
        1_000,
    )
    .unwrap();
    assert_eq!(id, 1);
    assert_eq!(next, 2);
    stored.start(&"creator".to_string(), 12).unwrap();
    assert_eq!(stored.status, Some(OdraMatchStatus::Active));
    assert_eq!(stored.start_block, 12);
    assert_eq!(stored.end_block, 32);
}

#[test]
fn records_trade_and_settles_winner() {
    let (_, _, mut stored) = StoredMatch::create(
        1,
        "creator".to_string(),
        "alpha".to_string(),
        "beta".to_string(),
        "verifier".to_string(),
        1,
        2,
        1_000,
    )
    .unwrap();
    stored.start(&"creator".to_string(), 2).unwrap();
    stored
        .record_trade(
            &"alpha".to_string(),
            &"BUY".to_string(),
            &"CSPR/USDT".to_string(),
            100,
            25_000,
            1_100,
            &"reason".to_string(),
            &"evidence".to_string(),
            3,
        )
        .unwrap();
    let winner = stored
        .settle(&"verifier".to_string(), 4, 1_100, 1_000, "settle".to_string())
        .unwrap();
    assert_eq!(winner, Some("alpha".to_string()));
    assert_eq!(stored.trade_count, 1);
}

#[test]
fn created_storage_holds_parameters() {
    let stored = created(5, 7);
    assert_eq!(stored.creator, "creator");
    assert_eq!(stored.agent_a, "alpha");
    assert_eq!(stored.agent_b, "beta");
    assert_eq!(stored.verifier, "verifier");
    assert_eq!(stored.start_block, 5);
    assert_eq!(stored.end_block, 12);
    assert_eq!(stored.start_budget, 1_000);
    assert_eq!(stored.status, Some(OdraMatchStatus::Pending));
    assert_eq!(stored.value_a, 1_000);
    assert_eq!(stored.value_b, 1_000);
    assert_eq!(stored.trade_count, 0);
    assert_eq!(stored.winner, None);
    assert_eq!(stored.settlement_hash, None);
}

#[test]
fn create_reverts() {
    let r = StoredMatch::create(1, text("c"), text("a"), text("a"), text("v"), 1, 0, 0);
    assert_eq!(r, Err(Revert::DurationNotPositive));
    let r = StoredMatch::create(1, text("c"), text("a"), text("a"), text("v"), 1, 1, 0);
    assert_eq!(r, Err(Revert::BudgetNotPositive));
    let r = StoredMatch::create(1, text("c"), text("a"), text("a"), text("v"), 1, 1, 1);
    assert_eq!(r, Err(Revert::DuplicateAgents));
}

#[test]
fn start_reverts_and_keeps_storage() {
    let mut stored = created(1, 4);
    assert_eq!(stored.start(&text("alpha"), 2), Err(Revert::UnauthorizedStart));
    assert_eq!(stored, created(1, 4));
    stored.start(&text("verifier"), 2).unwrap();
    assert_eq!(stored.end_block, 6);
    assert_eq!(stored.start(&text("creator"), 3), Err(Revert::NotPending));
    assert_eq!(stored.start_block, 2);
}

#[test]
fn absent_match_cannot_start() {
    // What the storage gives for an identifier that was never created.
    let mut absent = StoredMatch {
        creator: String::new(),
        agent_a: String::new(),
        agent_b: String::new(),
        verifier: String::new(),
        start_block: 0,
        end_block: 0,
        start_budget: 0,
        status: None,
        value_a: 0,
        value_b: 0,
        trade_count: 0,
        winner: None,
        settlement_hash: None,
    };
    assert_eq!(absent.start(&String::new(), 3), Err(Revert::NotPending));
    assert_eq!(absent.start(&text("x"), 3), Err(Revert::UnauthorizedStart));
}

#[test]
fn record_trade_reverts_in_order() {
    let mut stored = created(1, 4);
    let a = text("alpha");
    let e = String::new();
    let x = text("x");
    assert_eq!(stored.record_trade(&a, &e, &x, 1, 1, 1, &x, &x, 2), Err(Revert::ActionRequired));
    assert_eq!(stored.record_trade(&a, &x, &e, 1, 1, 1, &x, &x, 2), Err(Revert::PairRequired));
    assert_eq!(
        stored.record_trade(&a, &x, &x, 1, 1, 1, &e, &x, 2),
        Err(Revert::ReasoningHashRequired)
    );
    assert_eq!(
        stored.record_trade(&a, &x, &x, 1, 1, 1, &x, &e, 2),
        Err(Revert::EvidenceHashRequired)
    );
    assert_eq!(stored.record_trade(&a, &x, &x, 1, 1, 1, &x, &x, 2), Err(Revert::NotActive));
    stored.start(&text("creator"), 2).unwrap();
    assert_eq!(stored.record_trade(&a, &x, &x, 1, 1, 1, &x, &x, 7), Err(Revert::MatchEnded));
    assert_eq!(
        stored.record_trade(&text("verifier"), &x, &x, 1, 1, 1, &x, &x, 6),
        Err(Revert::UnauthorizedAgent)
    );
    assert_eq!(stored.trade_count, 0);
    stored.record_trade(&text("beta"), &text("SELL"), &text("P"), 0, 7, 42, &x, &x, 6).unwrap();
    assert_eq!(stored.value_b, 42);
    assert_eq!(stored.value_a, 1_000);
    assert_eq!(stored.trade_count, 1);
    assert_eq!(stored.settlement_hash, Some(text("SELL:P:0:7:42")));
}

#[test]
fn settle_reverts_and_tie() {
    let mut stored = created(1, 4);
    let v = text("verifier");
    assert_eq!(stored.settle(&v, 9, 1, 1, String::new()), Err(Revert::SettlementHashRequired));
    assert_eq!(stored.settle(&text("alpha"), 9, 1, 1, text("h")), Err(Revert::UnauthorizedVerifier));
    assert_eq!(stored.settle(&v, 9, 1, 1, text("h")), Err(Revert::NotActive));
    stored.start(&v, 2).unwrap();
    assert_eq!(stored.settle(&v, 5, 1, 1, text("h")), Err(Revert::TooEarly));
    assert_eq!(stored.settle(&v, 6, 1, 1, text("h")), Ok(None));
    assert_eq!(stored.status, Some(OdraMatchStatus::Settled));
    assert_eq!(stored.winner, None);
    assert_eq!(stored.settlement_hash, Some(text("h")));
    assert_eq!(stored.settle(&v, 7, 3, 1, text("h")), Err(Revert::NotActive));
}

#[test]
fn settle_names_agent_b_on_larger_value() {
    let mut stored = created(1, 4);
    stored.start(&text("creator"), 1).unwrap();
    let w = stored.settle(&text("verifier"), 5, 10, 11, text("h")).unwrap();
    assert_eq!(w, Some(text("beta")));
    assert_eq!(stored.winner, Some(text("beta")));
    assert_eq!(stored.value_a, 10);
    assert_eq!(stored.value_b, 11);
}

#[test]
fn digest_matches_the_format() {
    let d = digest_trade(&text("BUY"), &text("CSPR/USDT"), 100, 25_000, 1_100);
    assert_eq!(d, "BUY:CSPR/USDT:100:25000:1100");
    let d = digest_trade(&text("a"), &text("b"), 0, u64::MAX, 9);
    assert_eq!(d, format!("a:b:0:{}:9", u64::MAX));
}

#[test]
fn decimal_rendering_matches_display() {
    for n in [0u64, 1, 9, 10, 99, 100, 1234567890, u64::MAX - 1, u64::MAX] {
        let mut s = text("x");
        append_decimal(&mut s, n);
        assert_eq!(s, format!("x{}", n));
    }
}

#[test]
fn revert_messages() {
    assert_eq!(Revert::DurationNotPositive.message(), "duration must be positive");
    assert_eq!(Revert::BudgetNotPositive.message(), "start budget must be positive");
    assert_eq!(Revert::DuplicateAgents.message(), "agent accounts must be distinct");
    assert_eq!(Revert::UnauthorizedStart.message(), "unauthorized start caller");
    assert_eq!(Revert::NotPending.message(), "match is not pending");
    assert_eq!(Revert::ActionRequired.message(), "action is required");
    assert_eq!(Revert::PairRequired.message(), "pair is required");
    assert_eq!(Revert::ReasoningHashRequired.message(), "reasoning hash is required");
    assert_eq!(Revert::EvidenceHashRequired.message(), "evidence hash is required");
    assert_eq!(Revert::NotActive.message(), "match is not active");
    assert_eq!(Revert::MatchEnded.message(), "match already ended");
    assert_eq!(Revert::UnauthorizedAgent.message(), "unauthorized agent");
    assert_eq!(Revert::SettlementHashRequired.message(), "settlement hash is required");
    assert_eq!(Revert::UnauthorizedVerifier.message(), "unauthorized verifier");
    assert_eq!(Revert::TooEarly.message(), "too early to settle");
}
