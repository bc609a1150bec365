use std::cell::Cell;

use address_actions::{
    Action, ActionKind, AddressLookup, Borrowed, Collateral, LookupFailure, Request, Response,
    borrowed_to_action, collateral_to_action, join_actions, resolve_actions, resolve_lookups,
};

fn collateral(ts: u64, pool: &str, amount: i128, delta: i128, source: &str) -> Collateral {
    Collateral {
        timestamp: ts,
        ledger: 5,
        pool: pool.to_string(),
        asset: "USDC".to_string(),
        clateral: amount,
        delta,
        source: source.to_string(),
    }
}

fn borrow(ts: u64, pool: &str, amount: i128, delta: i128, source: &str) -> Borrowed {
    Borrowed {
        timestamp: ts,
        ledger: 7,
        pool: pool.to_string(),
        asset: "XLM".to_string(),
        borrowed: amount,
        delta,
        source: source.to_string(),
    }
}

fn request(addresses: &[&str]) -> Request {
    Request { addresses: addresses.iter().map(|a| a.to_string()).collect() }
}

fn resolve_in(
    req: &Request,
    collaterals: &[Collateral],
    borrows: &[Borrowed],
) -> Result<Response, LookupFailure> {
    resolve_actions(
        req,
        |a: &String| -> Result<Vec<Collateral>, LookupFailure> {
            Ok(collaterals.iter().filter(|c| &c.source == a).cloned().collect())
        },
        |a: &String| -> Result<Vec<Borrowed>, LookupFailure> {
            Ok(borrows.iter().filter(|b| &b.source == a).cloned().collect())
        },
    )
}

#[test]
fn single_collateral_example() {
    let store = vec![Collateral {
        timestamp: 100,
        ledger: 5,
        pool: "P1".to_string(),
        asset: "USDC".to_string(),
        clateral: 1000,
        delta: 1000,
        source: "addr1".to_string(),
    }];
    let resp = resolve_in(&request(&["addr1"]), &store, &[]).unwrap();
    assert_eq!(resp.len(), 1);
    let expected = vec![Action {
        kind: ActionKind::Collateral,
        timestamp: 100,
        ledger: 5,
        pool: "P1".to_string(),
        asset: "USDC".to_string(),
        tvl: 1000,
        delta: 1000,
        source: "addr1".to_string(),
    }];
    assert_eq!(resp.get(&"addr1".to_string()), Some(&expected));
}

#[test]
fn empty_request_gives_empty_response() {
    let store = vec![collateral(1, "P", 10, 10, "a")];
    let resp = resolve_in(&request(&[]), &store, &[]).unwrap();
    assert_eq!(resp.len(), 0);
    assert_eq!(resp.into_entries().len(), 0);
}

#[test]
fn address_without_records_maps_to_empty_list() {
    let store = vec![collateral(1, "P", 10, 10, "other")];
    let borrows = vec![borrow(2, "P", 3, 3, "other")];
    let resp = resolve_in(&request(&["lonely"]), &store, &borrows).unwrap();
    assert_eq!(resp.len(), 1);
    assert_eq!(resp.get(&"lonely".to_string()).map(|v| v.len()), Some(0));
    assert_eq!(resp.get(&"other".to_string()), None);
}

#[test]
fn collaterals_come_before_borrows_in_store_order() {
    let store = vec![
        collateral(3, "P1", 30, 3, "a"),
        collateral(1, "P2", 10, 1, "b"),
        collateral(2, "P3", 20, 2, "a"),
    ];
    let borrows = vec![borrow(9, "Q1", 90, 9, "a"), borrow(8, "Q2", 80, 8, "a")];
    let resp = resolve_in(&request(&["a", "b"]), &store, &borrows).unwrap();
    assert_eq!(resp.len(), 2);
    let a = resp.get(&"a".to_string()).unwrap();
    let kinds: Vec<ActionKind> = a.iter().map(|x| x.kind).collect();
    assert_eq!(
        kinds,
        vec![ActionKind::Collateral, ActionKind::Collateral, ActionKind::Borrow, ActionKind::Borrow]
    );
    let stamps: Vec<u64> = a.iter().map(|x| x.timestamp).collect();
    assert_eq!(stamps, vec![3, 2, 9, 8]);
    let b = resp.get(&"b".to_string()).unwrap();
    assert_eq!(b.len(), 1);
    assert_eq!(b[0].pool, "P2");
}

#[test]
fn borrow_record_fields_are_carried_over() {
    let b = borrow(42, "Q", 1234, -56, "acct");
    let a = borrowed_to_action(&b);
    assert_eq!(
        a,
        Action {
            kind: ActionKind::Borrow,
            timestamp: 42,
            ledger: 7,
            pool: "Q".to_string(),
            asset: "XLM".to_string(),
            tvl: 1234,
            delta: -56,
            source: "acct".to_string(),
        }
    );
}

#[test]
fn amounts_beyond_64_bits_keep_their_low_bits() {
    let big = (1i128 << 64) + 5;
    let c = collateral(1, "P", big, (i64::MAX as i128) + 1, "a");
    let a = collateral_to_action(&c);
    assert_eq!(a.tvl, 5);
    assert_eq!(a.delta, i64::MIN);
    let b = borrow(1, "P", -1 - (1i128 << 64), i64::MIN as i128, "a");
    let a = borrowed_to_action(&b);
    assert_eq!(a.tvl, -1);
    assert_eq!(a.delta, i64::MIN);
}

#[test]
fn duplicate_address_gives_one_entry() {
    let store = vec![collateral(1, "P", 10, 10, "x"), collateral(2, "P", 20, 10, "y")];
    let borrows = vec![borrow(3, "P", 5, 5, "x")];
    let once = resolve_in(&request(&["x", "y"]), &store, &borrows).unwrap();
    let twice = resolve_in(&request(&["x", "y", "x"]), &store, &borrows).unwrap();
    assert_eq!(twice.len(), 2);
    assert_eq!(once.get(&"x".to_string()), twice.get(&"x".to_string()));
    assert_eq!(once.get(&"y".to_string()), twice.get(&"y".to_string()));
    assert_eq!(twice.get(&"x".to_string()).unwrap().len(), 2);
}

#[test]
fn later_duplicate_replaces_earlier_lookup() {
    let addresses = vec!["x".to_string(), "x".to_string()];
    let lookups = vec![
        AddressLookup { collaterals: Ok(vec![collateral(1, "P", 1, 1, "x")]), borrows: Ok(vec![]) },
        AddressLookup { collaterals: Ok(vec![]), borrows: Ok(vec![borrow(2, "P", 2, 2, "x")]) },
    ];
    let resp = resolve_lookups(&addresses, &lookups).unwrap();
    assert_eq!(resp.len(), 1);
    let x = resp.get(&"x".to_string()).unwrap();
    assert_eq!(x.len(), 1);
    assert_eq!(x[0].kind, ActionKind::Borrow);
}

#[test]
fn failed_borrow_lookup_fails_whole_request() {
    let store = vec![collateral(1, "P", 10, 10, "X")];
    let result = resolve_actions(
        &request(&["X", "Y"]),
        |a: &String| -> Result<Vec<Collateral>, LookupFailure> {
            Ok(store.iter().filter(|c| &c.source == a).cloned().collect())
        },
        |a: &String| -> Result<Vec<Borrowed>, LookupFailure> {
            if a == "Y" { Err(LookupFailure) } else { Ok(vec![]) }
        },
    );
    assert!(matches!(result, Err(LookupFailure)));
}

#[test]
fn failed_collateral_lookup_stops_further_lookups() {
    let calls = Cell::new(0u32);
    let result = resolve_actions(
        &request(&["A", "B", "C"]),
        |a: &String| -> Result<Vec<Collateral>, LookupFailure> {
            calls.set(calls.get() + 1);
            if a == "B" { Err(LookupFailure) } else { Ok(vec![]) }
        },
        |_a: &String| -> Result<Vec<Borrowed>, LookupFailure> {
            calls.set(calls.get() + 1);
            Ok(vec![])
        },
    );
    assert!(result.is_err());
    assert_eq!(calls.get(), 3);
}

#[test]
fn any_failed_lookup_fails_resolve_lookups() {
    let addresses = vec!["X".to_string(), "Y".to_string()];
    let lookups = vec![
        AddressLookup { collaterals: Ok(vec![collateral(1, "P", 1, 1, "X")]), borrows: Ok(vec![]) },
        AddressLookup { collaterals: Ok(vec![]), borrows: Err(LookupFailure) },
    ];
    assert_eq!(resolve_lookups(&addresses, &lookups).err(), Some(LookupFailure));
    let lookups = vec![
        AddressLookup { collaterals: Err(LookupFailure), borrows: Ok(vec![]) },
        AddressLookup { collaterals: Ok(vec![]), borrows: Ok(vec![]) },
    ];
    assert_eq!(resolve_lookups(&addresses, &lookups).err(), Some(LookupFailure));
}

#[test]
fn join_actions_orders_groups() {
    let cs = vec![collateral(1, "P", 10, 1, "a"), collateral(2, "P", 20, 2, "a")];
    let bs = vec![borrow(3, "Q", 30, 3, "a")];
    let joined = join_actions(&cs, &bs);
    let tvls: Vec<i64> = joined.iter().map(|x| x.tvl).collect();
    assert_eq!(tvls, vec![10, 20, 30]);
    assert_eq!(joined[2].kind, ActionKind::Borrow);
    assert_eq!(join_actions(&vec![], &vec![]).len(), 0);
}

#[test]
fn response_insert_replaces_and_get_misses() {
    let mut resp = Response::new();
    resp.insert("k".to_string(), vec![collateral_to_action(&collateral(1, "P", 1, 1, "k"))]);
    resp.insert("k".to_string(), vec![]);
    resp.insert("j".to_string(), vec![]);
    assert_eq!(resp.len(), 2);
    assert_eq!(resp.get(&"k".to_string()).map(|v| v.len()), Some(0));
    assert_eq!(resp.get(&"z".to_string()), None);
    let entries = resp.into_entries();
    assert_eq!(entries.len(), 2);
}
