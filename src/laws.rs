use vstd::prelude::*;
use crate::records::{
    Action, ActionKind, Borrowed, Collateral, LookupFailure, borrowed_action, collateral_action,
    joined,
};
use crate::resolve::{AddressLookup, Found, lookup_outcome, lookup_succeeded, response_of};

verus! {

/// The records of a store snapshot whose source is `address`, in store order.
pub open spec fn collaterals_of(store: Seq<Collateral>, address: Seq<char>) -> Seq<Collateral> {
    store.filter(|c: Collateral| c.source@ == address)
}

/// The borrow records of a store snapshot whose source is `address`.
pub open spec fn borrows_of(store: Seq<Borrowed>, address: Seq<char>) -> Seq<Borrowed> {
    store.filter(|b: Borrowed| b.source@ == address)
}

/// What the lookups of each address find in a store snapshot.
pub open spec fn found_in(
    collaterals: Seq<Collateral>,
    borrows: Seq<Borrowed>,
    addresses: Seq<Seq<char>>,
) -> Seq<Found> {
    addresses.map_values(|a: Seq<char>| (collaterals_of(collaterals, a), borrows_of(borrows, a)))
}

/// The actions of one address in a store snapshot.
pub open spec fn actions_in(
    collaterals: Seq<Collateral>,
    borrows: Seq<Borrowed>,
    address: Seq<char>,
) -> Seq<Action> {
    joined(collaterals_of(collaterals, address), borrows_of(borrows, address))
}

pub open spec fn fits_i64(x: i128) -> bool {
    i64::MIN <= x <= i64::MAX
}

/// Against a fixed store, the response maps exactly the addresses of the
/// request, each to the actions that the store holds for it.
pub proof fn lemma_response_in_store(
    collaterals: Seq<Collateral>,
    borrows: Seq<Borrowed>,
    addresses: Seq<Seq<char>>,
)
    ensures
        response_of(addresses, found_in(collaterals, borrows, addresses)) == Map::new(
            |a: Seq<char>| addresses.contains(a),
            |a: Seq<char>| actions_in(collaterals, borrows, a),
        ),
    decreases addresses.len(),
{
    let m = Map::new(
        |a: Seq<char>| addresses.contains(a),
        |a: Seq<char>| actions_in(collaterals, borrows, a),
    );
    if addresses.len() == 0 {
        assert(m =~= Map::empty());
    } else {
        let rest = addresses.drop_last();
        lemma_response_in_store(collaterals, borrows, rest);
        assert(found_in(collaterals, borrows, addresses).drop_last() =~= found_in(
            collaterals,
            borrows,
            rest,
        ));
        assert forall|a: Seq<char>| addresses.contains(a) <==> (rest.contains(a) || a
            == addresses.last()) by {
            if addresses.contains(a) && a != addresses.last() {
                let k = choose|k: int| 0 <= k < addresses.len() && addresses[k] == a;
                assert(rest[k] == a);
            }
            if rest.contains(a) {
                let k = choose|k: int| 0 <= k < rest.len() && rest[k] == a;
                assert(addresses[k] == a);
            }
        }
        assert(response_of(addresses, found_in(collaterals, borrows, addresses)) =~= m);
    }
}

/// A request without addresses succeeds with an empty response.
pub proof fn lemma_empty_request(addresses: Seq<Seq<char>>, lookups: Seq<AddressLookup>)
    requires
        addresses.len() == 0,
        lookups.len() == 0,
    ensures
        lookup_outcome(addresses, lookups) == Ok::<Map<Seq<char>, Seq<Action>>, LookupFailure>(
            Map::empty(),
        ),
{
}

/// An address of the request for which the store holds no record maps to an
/// empty list of actions.
pub proof fn lemma_no_records_no_actions(
    collaterals: Seq<Collateral>,
    borrows: Seq<Borrowed>,
    addresses: Seq<Seq<char>>,
    address: Seq<char>,
)
    requires
        addresses.contains(address),
        collaterals_of(collaterals, address).len() == 0,
        borrows_of(borrows, address).len() == 0,
    ensures
        response_of(addresses, found_in(collaterals, borrows, addresses)).contains_key(address),
        response_of(addresses, found_in(collaterals, borrows, addresses))[address].len() == 0,
{
    lemma_response_in_store(collaterals, borrows, addresses);
}

/// The entry of an address of the request holds one action per collateral
/// record of that address and one per borrow record, the collateral actions
/// first.
pub proof fn lemma_entry_counts(
    collaterals: Seq<Collateral>,
    borrows: Seq<Borrowed>,
    addresses: Seq<Seq<char>>,
    address: Seq<char>,
)
    requires
        addresses.contains(address),
    ensures
        ({
            let m = response_of(addresses, found_in(collaterals, borrows, addresses));
            let nc = collaterals_of(collaterals, address).len();
            let nb = borrows_of(borrows, address).len();
            &&& m.contains_key(address)
            &&& m[address].len() == nc + nb
            &&& forall|k: int| 0 <= k < nc ==> (#[trigger] m[address][k]).kind
                == ActionKind::Collateral
            &&& forall|k: int| nc <= k < nc + nb ==> (#[trigger] m[address][k]).kind
                == ActionKind::Borrow
        }),
{
    lemma_response_in_store(collaterals, borrows, addresses);
}

/// A collateral record becomes a collateral action with the same fields;
/// `tvl` is its total and `delta` its change wherever these fit in 64 bits.
pub proof fn lemma_collateral_fields(c: Collateral)
    ensures
        ({
            let a = collateral_action(c);
            &&& a.kind == ActionKind::Collateral
            &&& a.timestamp == c.timestamp && a.ledger == c.ledger
            &&& a.pool == c.pool && a.asset == c.asset && a.source == c.source
            &&& fits_i64(c.clateral) ==> a.tvl == c.clateral
            &&& fits_i64(c.delta) ==> a.delta == c.delta
        }),
{
}

/// A borrow record becomes a borrow action with the same fields; `tvl` is its
/// total and `delta` its change wherever these fit in 64 bits.
pub proof fn lemma_borrowed_fields(b: Borrowed)
    ensures
        ({
            let a = borrowed_action(b);
            &&& a.kind == ActionKind::Borrow
            &&& a.timestamp == b.timestamp && a.ledger == b.ledger
            &&& a.pool == b.pool && a.asset == b.asset && a.source == b.source
            &&& fits_i64(b.borrowed) ==> a.tvl == b.borrowed
            &&& fits_i64(b.delta) ==> a.delta == b.delta
        }),
{
}

/// Against a fixed store, asking again for an address already in the request
/// leaves the response as it was.
pub proof fn lemma_duplicate_address(
    collaterals: Seq<Collateral>,
    borrows: Seq<Borrowed>,
    addresses: Seq<Seq<char>>,
    address: Seq<char>,
)
    requires
        addresses.contains(address),
    ensures
        response_of(
            addresses.push(address),
            found_in(collaterals, borrows, addresses.push(address)),
        ) == response_of(addresses, found_in(collaterals, borrows, addresses)),
{
    let twice = addresses.push(address);
    lemma_response_in_store(collaterals, borrows, addresses);
    lemma_response_in_store(collaterals, borrows, twice);
    assert forall|a: Seq<char>| twice.contains(a) <==> addresses.contains(a) by {
        if twice.contains(a) && a != address {
            let k = choose|k: int| 0 <= k < twice.len() && twice[k] == a;
            assert(addresses[k] == a);
        }
        if addresses.contains(a) {
            let k = choose|k: int| 0 <= k < addresses.len() && addresses[k] == a;
            assert(twice[k] == a);
        }
    }
    assert(response_of(twice, found_in(collaterals, borrows, twice)) =~= response_of(
        addresses,
        found_in(collaterals, borrows, addresses),
    ));
}

/// One failed lookup, of any address, makes the whole request fail.
pub proof fn lemma_one_failure_fails_all(
    addresses: Seq<Seq<char>>,
    lookups: Seq<AddressLookup>,
    i: int,
)
    requires
        0 <= i < lookups.len(),
        lookups[i].collaterals is Err || lookups[i].borrows is Err,
    ensures
        lookup_outcome(addresses, lookups) == Err::<Map<Seq<char>, Seq<Action>>, LookupFailure>(
            LookupFailure,
        ),
{
    assert(!lookup_succeeded(lookups[i]));
}

} // verus!
