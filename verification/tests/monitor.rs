use litebag::models::Transaction;
use litebag::monitor::{transactions_url, PollAction, SeenTransactions};

fn tx(hash: &str, confirmations: i32) -> Transaction {
    Transaction {
        hash: hash.to_string(),
        amount: 150_000_000,
        confirmations,
        received: "2025-03-19T22:24:22Z".to_string(),
        inputs: Vec::new(),
        outputs: Vec::new(),
    }
}

fn hashes(txs: &[Transaction]) -> Vec<&str> {
    txs.iter().map(|t| t.hash.as_str()).collect()
}

#[test]
fn confirmed_unseen_transactions_are_selected_in_order() {
    let mut seen = SeenTransactions::new();
    let fresh = seen.select_new(vec![tx("a", 1), tx("b", 0), tx("c", 6)]);
    assert_eq!(hashes(&fresh), vec!["a", "c"]);
    assert!(seen.contains(&"a".to_string()));
    assert!(!seen.contains(&"b".to_string()));
    assert!(seen.contains(&"c".to_string()));
}

#[test]
fn a_batch_processed_twice_reports_nothing_the_second_time() {
    let mut seen = SeenTransactions::new();
    let batch = vec![tx("a", 1), tx("b", 2)];
    assert_eq!(seen.select_new(batch.clone()).len(), 2);
    assert!(seen.select_new(batch).is_empty());
}

#[test]
fn duplicate_hash_in_one_batch_is_reported_once() {
    let mut seen = SeenTransactions::new();
    let fresh = seen.select_new(vec![tx("a", 1), tx("a", 3)]);
    assert_eq!(fresh.len(), 1);
    assert_eq!(fresh[0].confirmations, 1);
}

#[test]
fn unconfirmed_transaction_is_reported_once_confirmed() {
    let mut seen = SeenTransactions::new();
    assert!(seen.select_new(vec![tx("a", 0)]).is_empty());
    assert_eq!(hashes(&seen.select_new(vec![tx("a", 1)])), vec!["a"]);
    assert!(seen.select_new(vec![tx("a", 2)]).is_empty());
}

#[test]
fn poll_actions() {
    let mut seen = SeenTransactions::new();
    assert!(matches!(seen.on_poll(None), PollAction::ReportFetchError));
    assert!(matches!(seen.on_poll(Some(Vec::new())), PollAction::ReportNoTransactions));
    match seen.on_poll(Some(vec![tx("x", 1), tx("y", 0)])) {
        PollAction::Store(fresh) => assert_eq!(hashes(&fresh), vec!["x"]),
        other => panic!("unexpected {:?}", other),
    }
    match seen.on_poll(Some(vec![tx("x", 1)])) {
        PollAction::Store(fresh) => assert!(fresh.is_empty()),
        other => panic!("unexpected {:?}", other),
    }
}

#[test]
fn url_of_address() {
    assert_eq!(
        transactions_url("LbS5Vcaek3xbXmsyyh56MQfFWSBMJ1Vmsb"),
        "https://api.blockcypher.com/v1/ltc/main/addrs/LbS5Vcaek3xbXmsyyh56MQfFWSBMJ1Vmsb/full?limit=50&token=api de blockcypher"
    );
}
