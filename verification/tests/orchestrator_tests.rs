use pivx_promos::coins::get_supported_coins;
use pivx_promos::coins::CoinParams;
use pivx_promos::derivation::derive_key_from_code;
use pivx_promos::orchestrator::{FundingOutcome, Orchestrator, PromoBatch};

fn piv() -> CoinParams {
    get_supported_coins().remove(0)
}

const COIN: u64 = 100_000_000;

/// Drives one run to completion, accepting every funding call at once.
/// Returns the persisted lines and the funding requests that were made.
fn run_accepting(
    batches: Vec<PromoBatch>,
    prefix: &str,
    target: u64,
) -> (Orchestrator, Vec<String>, Vec<(String, u64)>) {
    let mut orch = Orchestrator::new(batches, String::from(prefix), piv(), target);
    let mut lines = Vec::new();
    let mut requests = Vec::new();
    while !orch.finished() {
        assert!(orch.derive_next());
        while let Some(req) = orch.funding_request() {
            requests.push(req);
            orch.on_funding(FundingOutcome::Accepted);
        }
        lines.push(orch.persist_line());
        orch.on_persisted();
    }
    (orch, lines, requests)
}

#[test]
fn batches_are_served_in_order_and_fully() {
    // two batches: three funded codes, then two zero-value codes
    let batches = vec![PromoBatch { value: COIN, qty: 3 }, PromoBatch { value: 0, qty: 2 }];
    let (orch, lines, requests) = run_accepting(batches, "x", 5);
    assert_eq!(orch.completed.len(), 5);
    assert_eq!(lines.len(), 5);
    // exactly the three codes of the first batch were funded
    assert_eq!(requests.len(), 3);
    let values: Vec<u64> = orch.completed.iter().map(|kp| kp.value).collect();
    assert_eq!(values, vec![COIN, COIN, COIN, 0, 0]);
    for (i, line) in lines.iter().enumerate() {
        let expected = format!("piv,{},{}", if i < 3 { "1" } else { "0" }, orch.completed[i].code);
        assert_eq!(*line, expected);
    }
}

#[test]
fn rejected_funding_is_retried_and_persisted_once() {
    // the gateway fails twice, then accepts: exactly one record is
    // written, carrying the successful transfer's value
    let batches = vec![PromoBatch { value: 50_000_000, qty: 1 }];
    let mut orch = Orchestrator::new(batches, String::new(), piv(), 5);
    let mut lines: Vec<String> = Vec::new();
    while !orch.finished() {
        assert!(orch.derive_next());
        let first = orch.funding_request().unwrap();
        orch.on_funding(FundingOutcome::Rejected);
        let second = orch.funding_request().unwrap();
        assert_eq!(first, second);
        orch.on_funding(FundingOutcome::Rejected);
        let third = orch.funding_request().unwrap();
        assert_eq!(first, third);
        orch.on_funding(FundingOutcome::Accepted);
        assert!(orch.funding_request().is_none());
        lines.push(orch.persist_line());
        orch.on_persisted();
    }
    assert_eq!(lines.len(), 1);
    assert_eq!(orch.completed.len(), 1);
    assert_eq!(orch.completed[0].value, 50_000_000);
    assert!(lines[0].starts_with("piv,0.5,"));
}

#[test]
fn funding_amount_includes_the_coin_fee() {
    let batches = vec![PromoBatch { value: 50_000_000, qty: 1 }];
    let mut orch = Orchestrator::new(batches, String::new(), piv(), 5);
    assert!(orch.derive_next());
    let (address, amount) = orch.funding_request().unwrap();
    // the PIVX promo fee is 10_000 units
    assert_eq!(amount, 50_010_000);
    assert_eq!(address, orch.pending.as_ref().unwrap().public);
    orch.on_funding(FundingOutcome::Accepted);
    orch.persist_line();
    orch.on_persisted();
    assert!(orch.finished());
}

#[test]
fn zero_value_codes_skip_funding() {
    let batches = vec![PromoBatch { value: 0, qty: 2 }];
    let (orch, lines, requests) = run_accepting(batches, "", 5);
    assert_eq!(requests.len(), 0);
    assert_eq!(lines.len(), 2);
    assert_eq!(orch.completed.len(), 2);
}

#[test]
fn empty_and_zero_quantity_batches_finish_at_once() {
    let orch = Orchestrator::new(Vec::new(), String::new(), piv(), 5);
    assert!(orch.finished());
    let batches = vec![PromoBatch { value: COIN, qty: 0 }, PromoBatch { value: 0, qty: 0 }];
    let orch2 = Orchestrator::new(batches, String::new(), piv(), 5);
    assert!(orch2.finished());
    assert_eq!(orch2.completed.len(), 0);
}

#[test]
fn zero_quantity_batches_are_skipped_between_others() {
    let batches = vec![
        PromoBatch { value: 0, qty: 1 },
        PromoBatch { value: COIN, qty: 0 },
        PromoBatch { value: 0, qty: 1 },
    ];
    let (orch, lines, requests) = run_accepting(batches, "", 5);
    assert_eq!(orch.completed.len(), 2);
    assert_eq!(lines.len(), 2);
    assert_eq!(requests.len(), 0);
}

#[test]
fn completed_keypairs_rederive_from_their_codes() {
    let batches = vec![PromoBatch { value: 0, qty: 1 }];
    let (orch, _, _) = run_accepting(batches, "promo", 7);
    let kp = &orch.completed[0];
    assert!(kp.code.starts_with("promo-"));
    assert_eq!(derive_key_from_code(&kp.code, 7), kp.private);
}
