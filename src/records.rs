use vstd::prelude::*;

verus! {

/// A collateral event of one address in one pool: `clateral` is the total
/// collateral after the event, `delta` the change that the event made.
#[derive(Clone, Debug)]
pub struct Collateral {
    pub timestamp: u64,
    pub ledger: u32,
    pub pool: String,
    pub asset: String,
    pub clateral: i128,
    pub delta: i128,
    pub source: String,
}

/// A borrow event of one address in one pool: `borrowed` is the total debt
/// after the event, `delta` the change that the event made.
#[derive(Clone, Debug)]
pub struct Borrowed {
    pub timestamp: u64,
    pub ledger: u32,
    pub pool: String,
    pub asset: String,
    pub borrowed: i128,
    pub delta: i128,
    pub source: String,
}

/// The addresses whose actions are asked for; duplicates are allowed.
pub struct Request {
    pub addresses: Vec<String>,
}

#[derive(Clone, Copy, Debug, PartialEq, Eq, Structural)]
pub enum ActionKind {
    Borrow,
    Collateral,
}

/// A collateral or borrow event in one shape.
///
/// `tvl` and `delta` are the record's 128-bit amounts narrowed to 64 bits by
/// truncation, as an `as` cast does: a value that fits is kept, a larger one
/// keeps its low 64 bits.
#[derive(Debug, PartialEq, Eq)]
pub struct Action {
    pub kind: ActionKind,
    pub timestamp: u64,
    pub ledger: u32,
    pub pool: String,
    pub asset: String,
    pub tvl: i64,
    pub delta: i64,
    pub source: String,
}

/// A store lookup failed; the whole request fails with it.
#[derive(Clone, Copy, Debug, PartialEq, Eq, Structural)]
pub struct LookupFailure;

/// The action that a collateral record becomes.
pub open spec fn collateral_action(c: Collateral) -> Action {
    Action {
        kind: ActionKind::Collateral,
        timestamp: c.timestamp,
        ledger: c.ledger,
        pool: c.pool,
        asset: c.asset,
        tvl: c.clateral as i64,
        delta: c.delta as i64,
        source: c.source,
    }
}

/// The action that a borrow record becomes.
pub open spec fn borrowed_action(b: Borrowed) -> Action {
    Action {
        kind: ActionKind::Borrow,
        timestamp: b.timestamp,
        ledger: b.ledger,
        pool: b.pool,
        asset: b.asset,
        tvl: b.borrowed as i64,
        delta: b.delta as i64,
        source: b.source,
    }
}

/// The actions of one address: its collateral records, then its borrow
/// records, each group in the order given.
pub open spec fn joined(collaterals: Seq<Collateral>, borrows: Seq<Borrowed>) -> Seq<Action> {
    collaterals.map_values(|c: Collateral| collateral_action(c)) + borrows.map_values(
        |b: Borrowed| borrowed_action(b),
    )
}

/// The action of a collateral record; its total becomes `tvl`.
pub fn collateral_to_action(c: &Collateral) -> (a: Action)
    ensures
        a == collateral_action(*c),
{
    Action {
        kind: ActionKind::Collateral,
        timestamp: c.timestamp,
        ledger: c.ledger,
        pool: c.pool.clone(),
        asset: c.asset.clone(),
        tvl: #[verifier::truncate] (c.clateral as i64),
        delta: #[verifier::truncate] (c.delta as i64),
        source: c.source.clone(),
    }
}

/// The action of a borrow record; its total debt becomes `tvl`.
pub fn borrowed_to_action(b: &Borrowed) -> (a: Action)
    ensures
        a == borrowed_action(*b),
{
    Action {
        kind: ActionKind::Borrow,
        timestamp: b.timestamp,
        ledger: b.ledger,
        pool: b.pool.clone(),
        asset: b.asset.clone(),
        tvl: #[verifier::truncate] (b.borrowed as i64),
        delta: #[verifier::truncate] (b.delta as i64),
        source: b.source.clone(),
    }
}

/// Normalises the records of one address: collateral actions first, then
/// borrow actions, each group in the order of the records.
pub fn join_actions(collaterals: &Vec<Collateral>, borrows: &Vec<Borrowed>) -> (r: Vec<Action>)
    ensures
        r@ == joined(collaterals@, borrows@),
{
    let mut r: Vec<Action> = Vec::new();
    let mut i: usize = 0;
    while i < collaterals.len()
        invariant
            i <= collaterals.len(),
            r@ == collaterals@.take(i as int).map_values(|c: Collateral| collateral_action(c)),
        decreases collaterals.len() - i,
    {
        r.push(collateral_to_action(&collaterals[i]));
        proof {
            assert(collaterals@.take(i + 1) =~= collaterals@.take(i as int).push(collaterals@[i as int]));
        }
        i = i + 1;
        assert(r@ =~= collaterals@.take(i as int).map_values(|c: Collateral| collateral_action(c)));
    }
    assert(collaterals@.take(i as int) =~= collaterals@);
    let ghost front = r@;
    let mut j: usize = 0;
    while j < borrows.len()
        invariant
            j <= borrows.len(),
            r@ == front + borrows@.take(j as int).map_values(|b: Borrowed| borrowed_action(b)),
        decreases borrows.len() - j,
    {
        r.push(borrowed_to_action(&borrows[j]));
        proof {
            assert(borrows@.take(j + 1) =~= borrows@.take(j as int).push(borrows@[j as int]));
        }
        j = j + 1;
        assert(r@ =~= front + borrows@.take(j as int).map_values(|b: Borrowed| borrowed_action(b)));
    }
    assert(borrows@.take(j as int) =~= borrows@);
    r
}

} // verus!
