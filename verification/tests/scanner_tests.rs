use sophon::mempool::count_inscribed;
use sophon::scanner::Scanner;
use sophon::teleburn::EthereumTeleburnAddress;
use sophon::teleburn::Output;
use sophon::teleburn::Teleburn;
use sophon::types::InscriptionId;
use sophon::types::Txid;

fn txid(n: u64) -> Txid {
    Txid { w0: n, w1: 0, w2: 0, w3: 0 }
}

#[test]
fn fresh_identifiers_are_fetched() {
    let scanner = Scanner::new();
    assert!(scanner.should_fetch(&txid(1)));
    assert!(scanner.should_fetch(&txid(2)));
}

#[test]
fn relisted_identifiers_are_not_fetched_again() {
    // First pass: the identifier is pending, gets fetched and marked.
    let mut scanner = Scanner::new();
    assert!(scanner.should_fetch(&txid(7)));
    scanner.mark_seen(txid(7));
    // Later pass: the same identifier appears in the pending list again;
    // no second fetch and no second inspection happen.
    assert!(!scanner.should_fetch(&txid(7)));
    // Other identifiers are unaffected, and marking more keeps it out.
    assert!(scanner.should_fetch(&txid(8)));
    scanner.mark_seen(txid(8));
    assert!(!scanner.should_fetch(&txid(7)));
    assert!(!scanner.should_fetch(&txid(8)));
}

#[test]
fn failed_fetches_stay_pending() {
    // A fetch that fails is not marked, so the identifier is retried on
    // the next cycle.
    let mut scanner = Scanner::new();
    assert!(scanner.should_fetch(&txid(9)));
    // The fetch failed: nothing is marked.
    assert!(scanner.should_fetch(&txid(9)));
    scanner.mark_seen(txid(9));
    assert!(!scanner.should_fetch(&txid(9)));
}

#[test]
fn inscribed_transactions_are_counted() {
    assert_eq!(count_inscribed(&vec![true, false, true, true]), 3);
    assert_eq!(count_inscribed(&vec![]), 0);
    assert_eq!(count_inscribed(&vec![false, false]), 0);
}

#[test]
fn teleburn_reports_both_lookups_in_order() {
    let request = Teleburn {
        reverse: Some(String::from("addr")),
        inscription_id: Some(InscriptionId { txid: txid(3), index: 0 }),
    };
    let resolved = InscriptionId { txid: txid(4), index: 1 };
    let derived = EthereumTeleburnAddress { octets: vec![0xAB; 20] };
    let out = request.run(Some(resolved), Some(derived.clone()));
    assert_eq!(out.len(), 2);
    assert!(matches!(&out[0], Output::Inscription(id) if *id == resolved));
    assert!(matches!(&out[1], Output::Ethereum(a) if *a == derived));
}

#[test]
fn teleburn_unresolved_reverse_reports_nothing() {
    let request = Teleburn { reverse: Some(String::from("addr")), inscription_id: None };
    let out = request.run(None, None);
    assert_eq!(out.len(), 0);
}

#[test]
fn teleburn_forward_only_reports_the_address() {
    let request = Teleburn {
        reverse: None,
        inscription_id: Some(InscriptionId { txid: txid(5), index: 2 }),
    };
    let derived = EthereumTeleburnAddress { octets: vec![0x01; 20] };
    let out = request.run(None, Some(derived.clone()));
    assert_eq!(out.len(), 1);
    assert!(matches!(&out[0], Output::Ethereum(a) if *a == derived));
}
