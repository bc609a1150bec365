use vstd::prelude::*;
use crate::records::{Borrowed, Collateral, LookupFailure, Request, joined, join_actions};
use crate::records::Action;
use crate::response::Response;

verus! {

/// The two lookups made for one address, each of which may have failed.
pub struct AddressLookup {
    pub collaterals: Result<Vec<Collateral>, LookupFailure>,
    pub borrows: Result<Vec<Borrowed>, LookupFailure>,
}

/// The records of one address as plain sequences.
pub type Found = (Seq<Collateral>, Seq<Borrowed>);

pub open spec fn address_views(addresses: Seq<String>) -> Seq<Seq<char>> {
    addresses.map_values(|a: String| a@)
}

/// The response to a request whose i-th address had `found[i]` in the store:
/// each address maps to its joined actions, a later duplicate replacing an
/// earlier one.
pub open spec fn response_of(addresses: Seq<Seq<char>>, found: Seq<Found>) -> Map<
    Seq<char>,
    Seq<Action>,
>
    decreases addresses.len(),
{
    if addresses.len() == 0 {
        Map::empty()
    } else {
        let f = found[addresses.len() - 1];
        response_of(addresses.drop_last(), found.drop_last()).insert(
            addresses.last(),
            joined(f.0, f.1),
        )
    }
}

pub open spec fn lookup_succeeded(l: AddressLookup) -> bool {
    l.collaterals is Ok && l.borrows is Ok
}

pub open spec fn lookup_found(l: AddressLookup) -> Found {
    (l.collaterals->Ok_0@, l.borrows->Ok_0@)
}

/// The outcome of a request whose i-th address had `lookups[i]`: a failure if
/// any lookup failed, else the response over all addresses.
pub open spec fn lookup_outcome(addresses: Seq<Seq<char>>, lookups: Seq<AddressLookup>) -> Result<
    Map<Seq<char>, Seq<Action>>,
    LookupFailure,
> {
    if forall|i: int| 0 <= i < lookups.len() ==> lookup_succeeded(#[trigger] lookups[i]) {
        Ok(response_of(addresses, lookups.map_values(|l: AddressLookup| lookup_found(l))))
    } else {
        Err(LookupFailure)
    }
}

/// The response to a request whose i-th address had `lookups[i]`, or a
/// failure, with no partial response, if any of those lookups failed.
pub fn resolve_lookups(addresses: &Vec<String>, lookups: &Vec<AddressLookup>) -> (r: Result<
    Response,
    LookupFailure,
>)
    requires
        addresses.len() == lookups.len(),
    ensures
        match r {
            Ok(resp) => resp.wf() && lookup_outcome(address_views(addresses@), lookups@) == Ok::<
                Map<Seq<char>, Seq<Action>>,
                LookupFailure,
            >(resp@),
            Err(e) => lookup_outcome(address_views(addresses@), lookups@) == Err::<
                Map<Seq<char>, Seq<Action>>,
                LookupFailure,
            >(e),
        },
{
    let ghost av = address_views(addresses@);
    let ghost found = lookups@.map_values(|l: AddressLookup| lookup_found(l));
    let mut r = Response::new();
    let mut i: usize = 0;
    while i < addresses.len()
        invariant
            addresses.len() == lookups.len(),
            av == address_views(addresses@),
            found == lookups@.map_values(|l: AddressLookup| lookup_found(l)),
            i <= addresses.len(),
            forall|j: int| 0 <= j < i ==> lookup_succeeded(#[trigger] lookups@[j]),
            r.wf(),
            r@ == response_of(av.take(i as int), found.take(i as int)),
        decreases addresses.len() - i,
    {
        let l = &lookups[i];
        match (&l.collaterals, &l.borrows) {
            (Ok(c), Ok(b)) => {
                let actions = join_actions(c, b);
                r.insert(addresses[i].clone(), actions);
                proof {
                    assert(av.take(i + 1).drop_last() =~= av.take(i as int));
                    assert(found.take(i + 1).drop_last() =~= found.take(i as int));
                }
            },
            _ => {
                assert(!lookup_succeeded(lookups@[i as int]));
                return Err(LookupFailure);
            },
        }
        i = i + 1;
    }
    assert(av.take(i as int) =~= av);
    assert(found.take(i as int) =~= found);
    Ok(r)
}

/// Resolves a request against a store: for each address in turn, looks up its
/// collateral records, then its borrow records, and stops at the first lookup
/// that fails.
///
/// On success the response is that of the records that the lookups returned;
/// on failure some lookup of some address of the request failed.
pub fn resolve_actions<FC, FB>(request: &Request, find_collaterals: FC, find_borrows: FB) -> (r:
    Result<Response, LookupFailure>) where
    FC: Fn(&String) -> Result<Vec<Collateral>, LookupFailure>,
    FB: Fn(&String) -> Result<Vec<Borrowed>, LookupFailure>,

    requires
        forall|a: &String| #[trigger] find_collaterals.requires((a,)),
        forall|a: &String| #[trigger] find_borrows.requires((a,)),
    ensures
        match r {
            Ok(resp) => resp.wf() && exists|ls: Seq<AddressLookup>|
                ls.len() == request.addresses.len() && (forall|i: int|
                    0 <= i < ls.len() ==> find_collaterals.ensures(
                        (&request.addresses@[i],),
                        (#[trigger] ls[i]).collaterals,
                    ) && find_borrows.ensures((&request.addresses@[i],), ls[i].borrows))
                    && lookup_outcome(address_views(request.addresses@), ls) == Ok::<
                    Map<Seq<char>, Seq<Action>>,
                    LookupFailure,
                >(resp@),
            Err(e) => exists|i: int|
                0 <= i < request.addresses.len() && (find_collaterals.ensures(
                    (&request.addresses@[i],),
                    Err::<Vec<Collateral>, LookupFailure>(e),
                ) || find_borrows.ensures(
                    (&request.addresses@[i],),
                    Err::<Vec<Borrowed>, LookupFailure>(e),
                )),
        },
{
    let addresses = &request.addresses;
    let mut lookups: Vec<AddressLookup> = Vec::new();
    let mut i: usize = 0;
    while i < addresses.len()
        invariant
            addresses == &request.addresses,
            forall|a: &String| #[trigger] find_collaterals.requires((a,)),
            forall|a: &String| #[trigger] find_borrows.requires((a,)),
            i <= addresses.len(),
            lookups.len() == i,
            forall|j: int|
                0 <= j < i ==> find_collaterals.ensures(
                    (&addresses@[j],),
                    (#[trigger] lookups@[j]).collaterals,
                ) && find_borrows.ensures((&addresses@[j],), lookups@[j].borrows),
            forall|j: int| 0 <= j < i ==> lookup_succeeded(#[trigger] lookups@[j]),
        decreases addresses.len() - i,
    {
        let collaterals = find_collaterals(&addresses[i]);
        if let Err(e) = collaterals {
            return Err(e);
        }
        let borrows = find_borrows(&addresses[i]);
        if let Err(e) = borrows {
            return Err(e);
        }
        lookups.push(AddressLookup { collaterals, borrows });
        i = i + 1;
    }
    let r = resolve_lookups(addresses, &lookups);
    assert(lookup_outcome(address_views(request.addresses@), lookups@) is Ok);
    r
}

} // verus!
