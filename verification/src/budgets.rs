//! Budget accounts and the reservations charged to them.
//!
//! An account may have a parent; what is charged to it is charged to every
//! account above it, or to none of them. A reservation charges its upper bound,
//! and settling it corrects the charge to what was measured.

use crate::columns::{
    i64_fault, i64_option, to_i64, to_u64, to_u64_option, u64_fault, u64_option, u64_option_fault,
};
use crate::error::{
    answers, fault, first, parsed_option, stored_fault, stored_option, stored_option_fault,
    stored_value, written_option, ErrorCode, Fault, Parsed, StoreError,
};
use crate::journal::{check_fence, fence_fault, HostFence};
use crate::states::BudgetReservationState;
use crate::text::{
    cat, cat3, decimal, decimal_text, has_text, opt_text, same_option, same_text,
    signed_decimal, signed_text, texts,
};
use vstd::prelude::*;

verus! {

/// A budget account.
#[derive(Clone, Debug, PartialEq, Eq)]
pub struct BudgetAccountRecord {
    pub budget_id: String,
    pub parent_budget_id: Option<String>,
    pub limit_tokens: u64,
    pub spent_tokens: u64,
    pub revision: u64,
}

/// A reservation of budget for one operation.
#[derive(Clone, Debug, PartialEq, Eq)]
pub struct BudgetReservationRecord {
    pub reservation_id: String,
    pub budget_id: String,
    pub operation_id: String,
    pub origin: String,
    pub upper_bound_tokens: u64,
    pub settled_tokens: Option<u64>,
    pub state: BudgetReservationState,
    pub revision: u64,
}

/// What an operation turned out to use, where that was measured.
#[derive(Clone, Debug, PartialEq, Eq)]
pub struct BudgetSettlement {
    pub reservation_id: String,
    pub measured_tokens: Option<u64>,
}

/// A budget account as its row is read.
#[derive(Debug)]
pub struct AccountRow {
    pub budget_id: String,
    pub parent_budget_id: Option<Parsed>,
    pub limit_tokens: i64,
    pub spent_tokens: i64,
    pub revision: i64,
}

// ---------------------------------------------------------------------------
// Charging an account and everything above it

/// No two accounts share an identity.
pub open spec fn distinct_accounts(accounts: Seq<AccountRow>) -> bool {
    forall|i: int, j: int|
        0 <= i < accounts.len() && 0 <= j < accounts.len() && #[trigger] accounts[i].budget_id@
            == #[trigger] accounts[j].budget_id@ ==> i == j
}

/// Where an account stands in the table.
pub open spec fn position(accounts: Seq<AccountRow>, id: Seq<char>) -> Option<int> {
    if exists|i: int| 0 <= i < accounts.len() && #[trigger] accounts[i].budget_id@ == id {
        Some(choose|i: int| 0 <= i < accounts.len() && #[trigger] accounts[i].budget_id@ == id)
    } else {
        None
    }
}

fn find_account(accounts: &Vec<AccountRow>, id: &str) -> (found: Option<usize>)
    requires
        distinct_accounts(accounts@),
    ensures
        found is Some <==> position(accounts@, id@) is Some,
        found is Some ==> position(accounts@, id@) == Some(found->Some_0 as int),
        found is Some ==> found->Some_0 < accounts.len() && accounts@[found->Some_0 as int].budget_id@
            == id@,
{
    let mut i: usize = 0;
    while i < accounts.len()
        invariant
            i <= accounts.len(),
            distinct_accounts(accounts@),
            forall|j: int| 0 <= j < i ==> #[trigger] accounts@[j].budget_id@ != id@,
        decreases accounts.len() - i,
    {
        if same_text(accounts[i].budget_id.as_str(), id) {
            assert(accounts@[i as int].budget_id@ == id@);
            return Some(i);
        }
        i += 1;
    }
    None
}

/// Why an account does not take a charge. A charge may not cross the limit, a
/// refund may not give back more than was spent, and there has to be a revision
/// left for either.
pub open spec fn account_fault(row: AccountRow, delta: i64) -> Option<Fault> {
    first(
        u64_fault(row.limit_tokens, "budget limit"@),
        first(
            u64_fault(row.spent_tokens, "budget spent"@),
            first(
                u64_fault(row.revision, "budget revision"@),
                if row.spent_tokens + delta < 0 {
                    fault(
                        ErrorCode::BudgetExhausted,
                        "budget settlement would release more than was reserved"@,
                    )
                } else if row.spent_tokens + delta > row.limit_tokens && delta > 0 {
                    fault(ErrorCode::BudgetExhausted, over_limit_message(row, delta))
                } else {
                    i64_fault((row.revision + 1) as u64, "budget revision"@)
                },
            ),
        ),
    )
}

/// What the caller is told about a limit in the way.
pub open spec fn over_limit_message(row: AccountRow, delta: i64) -> Seq<char> {
    "budget "@ + row.budget_id@ + " would exceed its limit: "@ + decimal(row.spent_tokens as nat)
        + " + "@ + signed_decimal(delta as int) + " > "@ + decimal(row.limit_tokens as nat)
}

/// What an account has spent after a charge that it took, and its next revision.
fn charge_account(row: &AccountRow, delta: i64) -> (result: Result<(i64, i64), StoreError>)
    ensures
        answers(result, account_fault(*row, delta)),
        result is Ok ==> result->Ok_0.0 == row.spent_tokens + delta,
        result is Ok ==> result->Ok_0.1 == row.revision + 1,
{
    let limit: u64 = to_u64(row.limit_tokens, "budget limit")?;
    let spent: u64 = to_u64(row.spent_tokens, "budget spent")?;
    let revision: u64 = to_u64(row.revision, "budget revision")?;
    let next: i128 = spent as i128 + delta as i128;
    if next < 0 {
        return Err(
            StoreError::new(
                ErrorCode::BudgetExhausted,
                "budget settlement would release more than was reserved",
            ),
        );
    }
    if next > limit as i128 && delta > 0 {
        let before: String = decimal_text(spent);
        let change: String = signed_text(delta);
        let bound: String = decimal_text(limit);
        let named: String = cat3("budget ", row.budget_id.as_str(), " would exceed its limit: ");
        let left: String = cat3(named.as_str(), before.as_str(), " + ");
        let sum: String = cat3(left.as_str(), change.as_str(), " > ");
        let message: String = cat(sum.as_str(), bound.as_str());
        return Err(StoreError::new(ErrorCode::BudgetExhausted, message.as_str()));
    }
    let moved: i64 = to_i64(revision + 1, "budget revision")?;
    Ok((next as i64, moved))
}

/// A walk up the accounts has met an account twice. One that has taken more
/// steps than there are accounts has done so at the latest.
pub open spec fn goes_round(
    accounts: Seq<AccountRow>,
    id: Seq<char>,
    seen: Seq<Seq<char>>,
) -> bool {
    seen.contains(id) || seen.len() > accounts.len()
}

/// Why a charge to an account, and to every account above it, is refused. `seen`
/// are the accounts below, which have taken the charge.
pub open spec fn charge_fault(
    accounts: Seq<AccountRow>,
    id: Seq<char>,
    delta: i64,
    seen: Seq<Seq<char>>,
) -> Option<Fault>
    decreases accounts.len() + 1 - seen.len(),
{
    if goes_round(accounts, id, seen) {
        fault(ErrorCode::StorageWriteFailed, "budget account hierarchy contains a cycle"@)
    } else {
        match position(accounts, id) {
            None => fault(ErrorCode::BudgetExhausted, "budget account does not exist"@),
            Some(p) => first(
                account_fault(accounts[p], delta),
                match accounts[p].parent_budget_id {
                    None => None,
                    Some(parent) => match parent {
                        Err(_) => fault(ErrorCode::StorageWriteFailed, "budget ID is invalid"@),
                        Ok(above) => charge_fault(accounts, above@, delta, seen.push(id)),
                    },
                },
            ),
        }
    }
}

/// The accounts that a charge reaches: the account itself and every account above
/// it, behind the ones that were `seen` before.
pub open spec fn lineage(accounts: Seq<AccountRow>, id: Seq<char>, seen: Seq<Seq<char>>) -> Seq<
    Seq<char>,
>
    decreases accounts.len() + 1 - seen.len(),
{
    if goes_round(accounts, id, seen) {
        seen
    } else {
        match position(accounts, id) {
            None => seen,
            Some(p) => match accounts[p].parent_budget_id {
                Some(Ok(above)) => lineage(accounts, above@, seen.push(id)),
                _ => seen.push(id),
            },
        }
    }
}

/// An account after it took a charge: it has spent that much more, at its next
/// revision.
pub open spec fn charged(row: AccountRow, delta: i64) -> AccountRow {
    AccountRow {
        spent_tokens: (row.spent_tokens + delta) as i64,
        revision: (row.revision + 1) as i64,
        ..row
    }
}

/// The table after the named accounts took a charge, and every other account is as
/// it was.
pub open spec fn charged_table(
    accounts: Seq<AccountRow>,
    reached: Seq<Seq<char>>,
    delta: i64,
) -> Seq<AccountRow> {
    Seq::new(
        accounts.len(),
        |i: int|
            if reached.contains(accounts[i].budget_id@) {
                charged(accounts[i], delta)
            } else {
                accounts[i]
            },
    )
}

/// A walk that has met no account twice is no longer than the table.
proof fn lemma_walk_is_bounded(accounts: Seq<AccountRow>, seen: Seq<Seq<char>>)
    requires
        seen.no_duplicates(),
        forall|i: int| 0 <= i < seen.len() ==> position(accounts, #[trigger] seen[i]) is Some,
    ensures
        seen.len() <= accounts.len(),
{
    let ids = accounts.map_values(|row: AccountRow| row.budget_id@);
    assert forall|id: Seq<char>| seen.to_set().contains(id) implies ids.to_set().contains(id) by {
        let i = choose|i: int| 0 <= i < seen.len() && seen[i] == id;
        assert(position(accounts, seen[i]) is Some);
        let p = choose|p: int| 0 <= p < accounts.len() && #[trigger] accounts[p].budget_id@ == id;
        assert(ids[p] == id);
    }
    seen.unique_seq_to_set();
    ids.lemma_cardinality_of_set();
    vstd::set_lib::lemma_len_subset(seen.to_set(), ids.to_set());
}

/// Charges an account and every account above it. Where one of them refuses, the
/// caller gets its reason and nothing has been charged.
pub fn charge_chain(accounts: Vec<AccountRow>, budget_id: &str, delta: i64) -> (result: Result<
    Vec<AccountRow>,
    StoreError,
>)
    requires
        distinct_accounts(accounts@),
    ensures
        answers(result, charge_fault(accounts@, budget_id@, delta, seq![])),
        result is Ok ==> result->Ok_0@ == charged_table(
            accounts@,
            lineage(accounts@, budget_id@, seq![]),
            delta,
        ),
{
    let ghost original = accounts@;
    let mut table: Vec<AccountRow> = accounts;
    let mut seen: Vec<String> = Vec::new();
    let mut current: String = budget_id.to_owned();
    proof {
        assert(texts(seen@) =~= Seq::<Seq<char>>::empty());
        assert(charged_table(original, texts(seen@), delta) =~= original);
    }
    loop
        invariant
            original == accounts@,
            distinct_accounts(original),
            table@ == charged_table(original, texts(seen@), delta),
            charge_fault(original, budget_id@, delta, seq![]) == charge_fault(
                original,
                current@,
                delta,
                texts(seen@),
            ),
            lineage(original, budget_id@, seq![]) == lineage(original, current@, texts(seen@)),
            texts(seen@).no_duplicates(),
            forall|i: int|
                0 <= i < texts(seen@).len() ==> position(
                    original,
                    #[trigger] texts(seen@)[i],
                ) is Some,
        decreases original.len() + 1 - seen@.len(),
    {
        let ghost before = texts(seen@);
        proof {
            lemma_walk_is_bounded(original, before);
            assert(before.len() == seen@.len());
        }
        if has_text(&seen, current.as_str()) {
            return Err(
                StoreError::new(
                    ErrorCode::StorageWriteFailed,
                    "budget account hierarchy contains a cycle",
                ),
            );
        }
        proof {
            assert(distinct_accounts(table@)) by {
                assert forall|i: int, j: int|
                    0 <= i < table@.len() && 0 <= j < table@.len() && #[trigger] table@[i].budget_id@
                        == #[trigger] table@[j].budget_id@ implies i == j by {
                    assert(original[i].budget_id@ == original[j].budget_id@);
                }
            }
            lemma_same_positions(original, table@, current@);
        }
        let found: usize = match find_account(&table, current.as_str()) {
            Some(index) => index,
            None => {
                return Err(
                    StoreError::new(ErrorCode::BudgetExhausted, "budget account does not exist"),
                );
            },
        };
        assert(original[found as int].budget_id@ == current@);
        assert(table@[found as int] == original[found as int]);
        let (spent, revision): (i64, i64) = charge_account(&table[found], delta)?;
        table[found].spent_tokens = spent;
        table[found].revision = revision;
        let parent: Option<String> = match &table[found].parent_budget_id {
            None => None,
            Some(parsed) => match parsed {
                Ok(above) => Some(above.clone()),
                Err(_) => {
                    return Err(
                        StoreError::new(ErrorCode::StorageWriteFailed, "budget ID is invalid"),
                    );
                },
            },
        };
        let ghost done = current@;
        seen.push(current);
        proof {
            assert(texts(seen@) =~= before.push(done));
            assert forall|i: int| 0 <= i < original.len() implies #[trigger] table@[i]
                == charged_table(original, before.push(done), delta)[i] by {
                crate::seqs::lemma_push_contains(before, done, original[i].budget_id@);
                if i != found {
                    assert(original[i].budget_id@ != original[found as int].budget_id@);
                }
            }
            assert(table@ =~= charged_table(original, texts(seen@), delta));
        }
        match parent {
            None => {
                return Ok(table);
            },
            Some(above) => {
                current = above;
            },
        }
    }
}

/// Charging an account moves none: every account is where it was.
proof fn lemma_same_positions(accounts: Seq<AccountRow>, table: Seq<AccountRow>, id: Seq<char>)
    requires
        distinct_accounts(accounts),
        table.len() == accounts.len(),
        forall|i: int|
            0 <= i < accounts.len() ==> #[trigger] table[i].budget_id@ == accounts[i].budget_id@,
    ensures
        position(table, id) == position(accounts, id),
{
    if position(accounts, id) is Some {
        let p = position(accounts, id)->Some_0;
        assert(table[p].budget_id@ == id);
        let q = position(table, id)->Some_0;
        assert(table[q].budget_id@ == accounts[q].budget_id@);
        assert(accounts[q].budget_id@ == accounts[p].budget_id@);
    }
    if position(table, id) is Some {
        let q = position(table, id)->Some_0;
        assert(table[q].budget_id@ == accounts[q].budget_id@);
        assert(accounts[q].budget_id@ == id);
    }
}

/// What was seen stays in the lineage, and the account itself is in it once it
/// has taken the charge.
proof fn lemma_lineage_contains(
    accounts: Seq<AccountRow>,
    id: Seq<char>,
    delta: i64,
    seen: Seq<Seq<char>>,
)
    requires
        charge_fault(accounts, id, delta, seen) is None,
    ensures
        lineage(accounts, id, seen).contains(id),
        forall|other: Seq<char>| seen.contains(other) ==> lineage(accounts, id, seen).contains(other),
    decreases accounts.len() + 1 - seen.len(),
{
    let p = position(accounts, id)->Some_0;
    let next = seen.push(id);
    assert forall|other: Seq<char>| next.contains(other) <==> (seen.contains(other) || other == id) by {
        crate::seqs::lemma_push_contains(seen, id, other);
    }
    match accounts[p].parent_budget_id {
        Some(Ok(above)) => {
            lemma_lineage_contains(accounts, above@, delta, next);
            assert(next.contains(id));
        },
        _ => {
            assert(next.contains(id));
        },
    }
}

proof fn lemma_every_account_accepts(
    accounts: Seq<AccountRow>,
    id: Seq<char>,
    delta: i64,
    seen: Seq<Seq<char>>,
    i: int,
)
    requires
        distinct_accounts(accounts),
        charge_fault(accounts, id, delta, seen) is None,
        0 <= i < accounts.len(),
        lineage(accounts, id, seen).contains(accounts[i].budget_id@),
        !seen.contains(accounts[i].budget_id@),
    ensures
        account_fault(accounts[i], delta) is None,
    decreases accounts.len() + 1 - seen.len(),
{
    let p = position(accounts, id)->Some_0;
    crate::seqs::lemma_push_contains(seen, id, accounts[i].budget_id@);
    if accounts[i].budget_id@ == id {
        assert(accounts[p].budget_id@ == id);
        assert(i == p);
    } else {
        match accounts[p].parent_budget_id {
            Some(Ok(above)) => {
                lemma_every_account_accepts(accounts, above@, delta, seen.push(id), i);
            },
            _ => {},
        }
    }
}

/// A charge that was taken crosses no limit: afterwards every account it reached
/// has spent no less than nothing and, where something was added, no more than
/// its limit.
pub proof fn law_charge_respects_limits(
    accounts: Seq<AccountRow>,
    id: Seq<char>,
    delta: i64,
    i: int,
)
    requires
        distinct_accounts(accounts),
        charge_fault(accounts, id, delta, seq![]) is None,
        0 <= i < accounts.len(),
        lineage(accounts, id, seq![]).contains(accounts[i].budget_id@),
    ensures
        ({
            let after = charged_table(accounts, lineage(accounts, id, seq![]), delta)[i];
            &&& after.spent_tokens == accounts[i].spent_tokens + delta
            &&& after.revision == accounts[i].revision + 1
            &&& 0 <= after.spent_tokens
            &&& delta > 0 ==> after.spent_tokens <= after.limit_tokens
        }),
{
    lemma_every_account_accepts(accounts, id, delta, seq![], i);
}

/// Accounts that stand above each other: the first is the named one, each names the next
/// as its parent, and the last has none. They are told by their places in the table.
pub open spec fn is_chain(accounts: Seq<AccountRow>, id: Seq<char>, chain: Seq<int>) -> bool {
    &&& chain.len() > 0
    &&& forall|k: int| 0 <= k < chain.len() ==> 0 <= #[trigger] chain[k] < accounts.len()
    &&& accounts[chain[0]].budget_id@ == id
    &&& forall|k: int|
        0 <= k < chain.len() - 1 ==> {
            &&& accounts[#[trigger] chain[k]].parent_budget_id is Some
            &&& accounts[chain[k]].parent_budget_id->Some_0 is Ok
            &&& accounts[chain[k]].parent_budget_id->Some_0->Ok_0@ == accounts[chain[k
                + 1]].budget_id@
        }
    &&& accounts[chain.last()].parent_budget_id is None
}

/// The identities of accounts that stand above each other.
spec fn chain_ids(accounts: Seq<AccountRow>, chain: Seq<int>) -> Seq<Seq<char>> {
    chain.map_values(|place: int| accounts[place].budget_id@)
}

/// No account stands above itself where there is a topmost one.
proof fn lemma_chain_ends(
    accounts: Seq<AccountRow>,
    id: Seq<char>,
    chain: Seq<int>,
    a: int,
    b: int,
)
    requires
        distinct_accounts(accounts),
        is_chain(accounts, id, chain),
        0 <= a < b < chain.len(),
    ensures
        chain[a] != chain[b],
    decreases chain.len() - b,
{
    if chain[a] == chain[b] {
        assert(accounts[chain[a]].parent_budget_id is Some);
        if b == chain.len() - 1 {
            assert(chain.last() == chain[b]);
        } else {
            assert(accounts[chain[b]].parent_budget_id is Some);
            assert(accounts[chain[a + 1]].budget_id@ == accounts[chain[b + 1]].budget_id@);
            assert(chain[a + 1] == chain[b + 1]);
            lemma_chain_ends(accounts, id, chain, a + 1, b + 1);
        }
    }
}

/// A charge walks up the accounts that stand above each other, and asks each of them.
proof fn lemma_chain_walk(
    accounts: Seq<AccountRow>,
    id: Seq<char>,
    delta: i64,
    chain: Seq<int>,
    at: int,
)
    requires
        distinct_accounts(accounts),
        is_chain(accounts, id, chain),
        0 <= at < chain.len(),
    ensures
        ({
            let ids = chain_ids(accounts, chain);
            let found = charge_fault(accounts, ids[at], delta, ids.take(at));
            &&& found is None <==> forall|k: int|
                at <= k < chain.len() ==> account_fault(
                    accounts[#[trigger] chain[k]],
                    delta,
                ) is None
            &&& found is Some ==> exists|k: int|
                at <= k < chain.len() && found == account_fault(
                    accounts[#[trigger] chain[k]],
                    delta,
                )
            &&& lineage(accounts, ids[at], ids.take(at)) == ids
        }),
    decreases chain.len() - at,
{
    let ids = chain_ids(accounts, chain);
    let seen = ids.take(at);
    assert forall|a: int, b: int| 0 <= a < b < chain.len() implies ids[a] != ids[b] by {
        lemma_chain_ends(accounts, id, chain, a, b);
        if ids[a] == ids[b] {
            assert(accounts[chain[a]].budget_id@ == accounts[chain[b]].budget_id@);
        }
    }
    assert(ids.no_duplicates());
    assert forall|k: int| 0 <= k < ids.len() implies position(accounts, #[trigger] ids[k]) is Some by {
        assert(accounts[chain[k]].budget_id@ == ids[k]);
    }
    lemma_walk_is_bounded(accounts, ids);
    assert(!seen.contains(ids[at]));
    let p = position(accounts, ids[at])->Some_0;
    assert(accounts[chain[at]].budget_id@ == ids[at]);
    assert(accounts[p].budget_id@ == accounts[chain[at]].budget_id@);
    assert(p == chain[at]);
    assert(seen.push(ids[at]) =~= ids.take(at + 1));
    let found = charge_fault(accounts, ids[at], delta, seen);
    if at < chain.len() - 1 {
        lemma_chain_walk(accounts, id, delta, chain, at + 1);
        assert(accounts[chain[at]].parent_budget_id->Some_0->Ok_0@ == ids[at + 1]);
        let above = charge_fault(accounts, ids[at + 1], delta, ids.take(at + 1));
        assert(found == first(account_fault(accounts[p], delta), above));
        if found is None {
            assert forall|k: int| at <= k < chain.len() implies account_fault(
                accounts[#[trigger] chain[k]],
                delta,
            ) is None by {}
        }
        if found is Some {
            if account_fault(accounts[chain[at]], delta) is None {
                let k = choose|k: int|
                    at + 1 <= k < chain.len() && above == account_fault(
                        accounts[#[trigger] chain[k]],
                        delta,
                    );
                assert(found == account_fault(accounts[chain[k]], delta));
            } else {
                assert(found == account_fault(accounts[chain[at]], delta));
            }
        }
    } else {
        assert(chain.last() == chain[at]);
        assert(ids.take(at + 1) =~= ids);
        assert(found == account_fault(accounts[chain[at]], delta));
        if found is None {
            assert forall|k: int| at <= k < chain.len() implies account_fault(
                accounts[#[trigger] chain[k]],
                delta,
            ) is None by {}
        }
    }
}

/// A charge is taken if and only if the account and every account above it takes it: none
/// ends below nothing and, where something is added, none ends above its limit. Then each
/// of them has spent that much more, one revision on, and every other account is as it
/// was. Where all of them can be read and have a revision left, a charge that is refused
/// says that the budget is exhausted.
pub proof fn law_charge_is_taken_by_the_whole_chain(
    accounts: Seq<AccountRow>,
    id: Seq<char>,
    delta: i64,
    chain: Seq<int>,
)
    requires
        distinct_accounts(accounts),
        is_chain(accounts, id, chain),
    ensures
        ({
            let found = charge_fault(accounts, id, delta, seq![]);
            let after = charged_table(accounts, lineage(accounts, id, seq![]), delta);
            &&& found is None <==> forall|k: int|
                0 <= k < chain.len() ==> {
                    let row = accounts[#[trigger] chain[k]];
                    &&& 0 <= row.limit_tokens
                    &&& 0 <= row.spent_tokens
                    &&& 0 <= row.revision < i64::MAX
                    &&& 0 <= row.spent_tokens + delta
                    &&& delta > 0 ==> row.spent_tokens + delta <= row.limit_tokens
                }
            &&& found is Some && (forall|k: int|
                0 <= k < chain.len() ==> {
                    let row = accounts[#[trigger] chain[k]];
                    &&& 0 <= row.limit_tokens
                    &&& 0 <= row.spent_tokens
                    &&& 0 <= row.revision < i64::MAX
                }) ==> found->Some_0.code == ErrorCode::BudgetExhausted
            &&& after.len() == accounts.len()
            &&& forall|i: int|
                0 <= i < accounts.len() ==> {
                    &&& (#[trigger] after[i]).budget_id == accounts[i].budget_id
                    &&& after[i].parent_budget_id == accounts[i].parent_budget_id
                    &&& after[i].limit_tokens == accounts[i].limit_tokens
                    &&& found is None && chain.contains(i) ==> after[i].spent_tokens
                        == accounts[i].spent_tokens + delta
                    &&& found is None && chain.contains(i) ==> after[i].revision
                        == accounts[i].revision + 1
                    &&& !chain.contains(i) ==> after[i] == accounts[i]
                }
        }),
{
    let ids = chain_ids(accounts, chain);
    let found = charge_fault(accounts, id, delta, seq![]);
    let after = charged_table(accounts, lineage(accounts, id, seq![]), delta);
    lemma_chain_walk(accounts, id, delta, chain, 0);
    assert(ids.take(0) =~= seq![]);
    assert(ids[0] == id);
    assert forall|k: int| 0 <= k < chain.len() implies account_fault(
        accounts[#[trigger] chain[k]],
        delta,
    ) is None == {
        let row = accounts[chain[k]];
        &&& 0 <= row.limit_tokens
        &&& 0 <= row.spent_tokens
        &&& 0 <= row.revision < i64::MAX
        &&& 0 <= row.spent_tokens + delta
        &&& delta > 0 ==> row.spent_tokens + delta <= row.limit_tokens
    } by {}
    assert forall|i: int| 0 <= i < accounts.len() implies ids.contains(
        #[trigger] accounts[i].budget_id@,
    ) == chain.contains(i) by {
        if chain.contains(i) {
            let k = choose|k: int| 0 <= k < chain.len() && chain[k] == i;
            assert(ids[k] == accounts[i].budget_id@);
        }
        if ids.contains(accounts[i].budget_id@) {
            let k = choose|k: int| 0 <= k < ids.len() && ids[k] == accounts[i].budget_id@;
            assert(accounts[chain[k]].budget_id@ == accounts[i].budget_id@);
            assert(chain[k] == i);
        }
    }
    assert forall|i: int| 0 <= i < accounts.len() && found is None && chain.contains(i) implies (
    #[trigger] after[i]).spent_tokens == accounts[i].spent_tokens + delta && after[i].revision
        == accounts[i].revision + 1 by {
        let k = choose|k: int| 0 <= k < chain.len() && chain[k] == i;
        assert(account_fault(accounts[chain[k]], delta) is None);
    }
}

/// What is charged to an account that is not there is refused.
pub proof fn law_charge_needs_an_account(accounts: Seq<AccountRow>, id: Seq<char>, delta: i64)
    requires
        forall|i: int| 0 <= i < accounts.len() ==> #[trigger] accounts[i].budget_id@ != id,
    ensures
        charge_fault(accounts, id, delta, seq![]) is Some,
        charge_fault(accounts, id, delta, seq![])->Some_0.code == ErrorCode::BudgetExhausted,
{
}

/// A charge takes the same way up as the one before it.
proof fn lemma_same_walk(
    accounts: Seq<AccountRow>,
    reached: Seq<Seq<char>>,
    id: Seq<char>,
    delta: i64,
    seen: Seq<Seq<char>>,
)
    requires
        distinct_accounts(accounts),
    ensures
        lineage(charged_table(accounts, reached, delta), id, seen) == lineage(accounts, id, seen),
    decreases accounts.len() + 1 - seen.len(),
{
    let after = charged_table(accounts, reached, delta);
    lemma_same_positions(accounts, after, id);
    if !goes_round(accounts, id, seen) && position(accounts, id) is Some {
        match accounts[position(accounts, id)->Some_0].parent_budget_id {
            Some(Ok(above)) => {
                lemma_same_walk(accounts, reached, above@, delta, seen.push(id));
            },
            _ => {},
        }
    }
}

/// Every account has two revisions left.
pub open spec fn can_move_twice(accounts: Seq<AccountRow>) -> bool {
    forall|i: int| 0 <= i < accounts.len() ==> #[trigger] accounts[i].revision < i64::MAX - 1
}

/// Every account that took a charge accepts its refund.
proof fn lemma_refund_walk(
    accounts: Seq<AccountRow>,
    reached: Seq<Seq<char>>,
    id: Seq<char>,
    delta: i64,
    seen: Seq<Seq<char>>,
)
    requires
        distinct_accounts(accounts),
        can_move_twice(accounts),
        0 <= delta,
        charge_fault(accounts, id, delta, seen) is None,
        lineage(accounts, id, seen) == reached,
    ensures
        charge_fault(charged_table(accounts, reached, delta), id, (-delta) as i64, seen) is None,
    decreases accounts.len() + 1 - seen.len(),
{
    let after = charged_table(accounts, reached, delta);
    lemma_same_positions(accounts, after, id);
    let p = position(accounts, id)->Some_0;
    lemma_lineage_contains(accounts, id, delta, seen);
    assert(reached.contains(accounts[p].budget_id@));
    assert(after[p] == charged(accounts[p], delta));
    assert(account_fault(after[p], (-delta) as i64) is None);
    match accounts[p].parent_budget_id {
        Some(Ok(above)) => {
            lemma_refund_walk(accounts, reached, above@, delta, seen.push(id));
        },
        _ => {},
    }
}

/// Giving a charge back undoes it: every account that took it takes the refund and
/// has spent what it had spent before, two revisions on, and every other account is
/// as it was. Each account needs two more revisions.
pub proof fn law_refund_undoes_charge(accounts: Seq<AccountRow>, id: Seq<char>, delta: i64)
    requires
        distinct_accounts(accounts),
        can_move_twice(accounts),
        0 <= delta,
        charge_fault(accounts, id, delta, seq![]) is None,
    ensures
        ({
            let reached = lineage(accounts, id, seq![]);
            let after = charged_table(accounts, reached, delta);
            let back = charged_table(after, lineage(after, id, seq![]), (-delta) as i64);
            &&& charge_fault(after, id, (-delta) as i64, seq![]) is None
            &&& back.len() == accounts.len()
            &&& forall|i: int|
                0 <= i < accounts.len() ==> #[trigger] back[i] == if reached.contains(
                    accounts[i].budget_id@,
                ) {
                    AccountRow { revision: (accounts[i].revision + 2) as i64, ..accounts[i] }
                } else {
                    accounts[i]
                }
        }),
{
    let reached = lineage(accounts, id, seq![]);
    let after = charged_table(accounts, reached, delta);
    lemma_refund_walk(accounts, reached, id, delta, seq![]);
    lemma_same_walk(accounts, reached, id, delta, seq![]);
    let back = charged_table(after, lineage(after, id, seq![]), (-delta) as i64);
    assert forall|i: int| 0 <= i < accounts.len() implies #[trigger] back[i]
        == if reached.contains(accounts[i].budget_id@) {
        AccountRow { revision: (accounts[i].revision + 2) as i64, ..accounts[i] }
    } else {
        accounts[i]
    } by {
        assert(after[i].budget_id == accounts[i].budget_id);
        if reached.contains(accounts[i].budget_id@) {
            lemma_every_account_accepts(accounts, id, delta, seq![], i);
        }
    }
}

// ---------------------------------------------------------------------------
// Opening an account

/// Why an account cannot stand below a parent. `seen` are the accounts that the
/// walk has met, the new account among them.
pub open spec fn parent_fault(
    accounts: Seq<AccountRow>,
    id: Seq<char>,
    seen: Seq<Seq<char>>,
) -> Option<Fault>
    decreases accounts.len() + 2 - seen.len(),
{
    if seen.contains(id) || seen.len() > accounts.len() + 1 {
        fault(ErrorCode::InvalidPayload, "budget account parent would create a cycle"@)
    } else {
        match position(accounts, id) {
            None => fault(ErrorCode::InvalidPayload, "budget parent account does not exist"@),
            Some(p) => match accounts[p].parent_budget_id {
                None => None,
                Some(parent) => match parent {
                    Err(_) => fault(ErrorCode::StorageWriteFailed, "budget ID is invalid"@),
                    Ok(above) => parent_fault(accounts, above@, seen.push(id)),
                },
            },
        }
    }
}

/// Refuses a parent that is missing, or that the new account is already above.
pub fn check_parent(accounts: &Vec<AccountRow>, budget_id: &String, parent_id: &String) -> (result:
    Result<(), StoreError>)
    requires
        distinct_accounts(accounts@),
    ensures
        answers(result, parent_fault(accounts@, parent_id@, seq![budget_id@])),
{
    let mut seen: Vec<String> = Vec::new();
    seen.push(budget_id.clone());
    let mut current: String = parent_id.clone();
    assert(texts(seen@) =~= seq![budget_id@]);
    loop
        invariant
            distinct_accounts(accounts@),
            parent_fault(accounts@, parent_id@, seq![budget_id@]) == parent_fault(
                accounts@,
                current@,
                texts(seen@),
            ),
            seen@.len() >= 1,
            texts(seen@).no_duplicates(),
            forall|i: int|
                1 <= i < texts(seen@).len() ==> position(
                    accounts@,
                    #[trigger] texts(seen@)[i],
                ) is Some,
        decreases accounts@.len() + 2 - seen@.len(),
    {
        let ghost before = texts(seen@);
        proof {
            let walked = before.subrange(1, before.len() as int);
            assert forall|i: int| 0 <= i < walked.len() implies position(
                accounts@,
                #[trigger] walked[i],
            ) is Some by {
                assert(walked[i] == before[i + 1]);
            }
            lemma_walk_is_bounded(accounts@, walked);
            assert(before.len() == seen@.len());
        }
        if has_text(&seen, current.as_str()) {
            return Err(
                StoreError::new(
                    ErrorCode::InvalidPayload,
                    "budget account parent would create a cycle",
                ),
            );
        }
        let found: usize = match find_account(accounts, current.as_str()) {
            Some(index) => index,
            None => {
                return Err(
                    StoreError::new(
                        ErrorCode::InvalidPayload,
                        "budget parent account does not exist",
                    ),
                );
            },
        };
        let ghost done = current@;
        let parent: Option<String> = match &accounts[found].parent_budget_id {
            None => None,
            Some(parsed) => match parsed {
                Ok(above) => Some(above.clone()),
                Err(_) => {
                    return Err(
                        StoreError::new(ErrorCode::StorageWriteFailed, "budget ID is invalid"),
                    );
                },
            },
        };
        seen.push(current);
        assert(texts(seen@) =~= before.push(done));
        match parent {
            None => {
                return Ok(());
            },
            Some(above) => {
                current = above;
            },
        }
    }
}

/// Why a stored account cannot be read. `identity` is its own identity, parsed.
pub open spec fn account_row_fault(identity: Parsed, row: AccountRow) -> Option<Fault> {
    first(
        stored_fault(identity, ErrorCode::StorageWriteFailed, "budget ID is invalid"@),
        first(
            stored_option_fault(
                row.parent_budget_id,
                ErrorCode::StorageWriteFailed,
                "budget ID is invalid"@,
            ),
            first(
                u64_fault(row.limit_tokens, "budget limit"@),
                first(
                    u64_fault(row.spent_tokens, "budget spent"@),
                    u64_fault(row.revision, "budget revision"@),
                ),
            ),
        ),
    )
}

/// The account that a row holds.
pub open spec fn account_of(identity: Parsed, row: AccountRow) -> BudgetAccountRecord {
    BudgetAccountRecord {
        budget_id: identity->Ok_0,
        parent_budget_id: parsed_option(row.parent_budget_id),
        limit_tokens: row.limit_tokens as u64,
        spent_tokens: row.spent_tokens as u64,
        revision: row.revision as u64,
    }
}

/// Reads an account back.
pub fn budget_account_from_row(identity: Parsed, row: AccountRow) -> (result: Result<
    BudgetAccountRecord,
    StoreError,
>)
    ensures
        answers(result, account_row_fault(identity, row)),
        result is Ok ==> result->Ok_0 == account_of(identity, row),
{
    let budget_id: String = stored_value(
        identity,
        ErrorCode::StorageWriteFailed,
        "budget ID is invalid",
    )?;
    let parent_budget_id: Option<String> = stored_option(
        row.parent_budget_id,
        ErrorCode::StorageWriteFailed,
        "budget ID is invalid",
    )?;
    let limit_tokens: u64 = to_u64(row.limit_tokens, "budget limit")?;
    let spent_tokens: u64 = to_u64(row.spent_tokens, "budget spent")?;
    let revision: u64 = to_u64(row.revision, "budget revision")?;
    Ok(BudgetAccountRecord { budget_id, parent_budget_id, limit_tokens, spent_tokens, revision })
}

/// A row holds an account as it is written: its identities and texts as they are, and
/// its numbers, which columns can hold.
pub open spec fn account_is_stored_in(record: BudgetAccountRecord, row: AccountRow) -> bool {
    &&& record.limit_tokens <= i64::MAX
    &&& record.spent_tokens <= i64::MAX
    &&& record.revision <= i64::MAX
    &&& row == (AccountRow {
        parent_budget_id: written_option(record.parent_budget_id),
        limit_tokens: record.limit_tokens as i64,
        spent_tokens: record.spent_tokens as i64,
        revision: record.revision as i64,
        budget_id: record.budget_id,
    })
}

/// What is written is read back: the row of an account reads without an error, and as
/// the record that it was written from.
pub proof fn law_stored_account_reads_back(record: BudgetAccountRecord, row: AccountRow, read: BudgetAccountRecord)
    requires
        account_is_stored_in(record, row),
        read == account_of(Ok(record.budget_id), row),
    ensures
        account_row_fault(Ok(record.budget_id), row) is None,
        read == record,
{
}

/// Why an account cannot be opened.
pub open spec fn open_account_fault(
    record: BudgetAccountRecord,
    fence: HostFence,
    held: Option<i64>,
    accounts: Seq<AccountRow>,
    existing: Option<(Parsed, AccountRow)>,
) -> Option<Fault> {
    first(
        fence_fault(held, fence),
        first(
            match record.parent_budget_id {
                None => None,
                Some(parent_id) => parent_fault(accounts, parent_id@, seq![record.budget_id@]),
            },
            first(
                i64_fault(record.limit_tokens, "budget limit"@),
                match existing {
                    None => None,
                    Some((identity, row)) => first(
                        account_row_fault(identity, row),
                        if row.limit_tokens != record.limit_tokens || opt_text(
                            parsed_option(row.parent_budget_id),
                        ) != opt_text(record.parent_budget_id) {
                            fault(
                                ErrorCode::IdempotencyConflict,
                                "budget account identity is immutable"@,
                            )
                        } else {
                            None
                        },
                    ),
                },
            ),
        ),
    )
}

/// The account after it was opened: a new one has spent nothing, and one that was
/// there is as it was.
pub open spec fn opened_account(
    record: BudgetAccountRecord,
    existing: Option<(Parsed, AccountRow)>,
) -> BudgetAccountRecord {
    match existing {
        Some((identity, row)) => account_of(identity, row),
        None => BudgetAccountRecord { spent_tokens: 0, revision: 1, ..record },
    }
}

/// Opens an account, or hands back the one with the same shape that is there.
pub fn ensure_budget_account(
    record: BudgetAccountRecord,
    fence: &HostFence,
    held: Option<i64>,
    accounts: &Vec<AccountRow>,
    existing: Option<(Parsed, AccountRow)>,
) -> (result: Result<BudgetAccountRecord, StoreError>)
    requires
        distinct_accounts(accounts@),
    ensures
        answers(result, open_account_fault(record, *fence, held, accounts@, existing)),
        result is Ok ==> result->Ok_0 == opened_account(record, existing),
{
    check_fence(held, fence)?;
    match &record.parent_budget_id {
        None => {},
        Some(parent_id) => {
            check_parent(accounts, &record.budget_id, parent_id)?;
        },
    }
    let limit: i64 = to_i64(record.limit_tokens, "budget limit")?;
    match existing {
        None => Ok(
            BudgetAccountRecord {
                budget_id: record.budget_id,
                parent_budget_id: record.parent_budget_id,
                limit_tokens: record.limit_tokens,
                spent_tokens: 0,
                revision: 1,
            },
        ),
        Some((identity, row)) => {
            let account: BudgetAccountRecord = budget_account_from_row(identity, row)?;
            if account.limit_tokens != record.limit_tokens || !same_option(
                &account.parent_budget_id,
                &record.parent_budget_id,
            ) {
                return Err(
                    StoreError::new(
                        ErrorCode::IdempotencyConflict,
                        "budget account identity is immutable",
                    ),
                );
            }
            Ok(account)
        },
    }
}

/// The walk above a new account asks each account that stands there whether it is the new
/// one.
proof fn lemma_parent_walk(
    accounts: Seq<AccountRow>,
    budget_id: Seq<char>,
    id: Seq<char>,
    chain: Seq<int>,
    at: int,
)
    requires
        distinct_accounts(accounts),
        is_chain(accounts, id, chain),
        0 <= at < chain.len(),
        forall|k: int| 0 <= k < at ==> accounts[#[trigger] chain[k]].budget_id@ != budget_id,
    ensures
        ({
            let ids = chain_ids(accounts, chain);
            let found = parent_fault(accounts, ids[at], seq![budget_id] + ids.take(at));
            &&& found is None <==> forall|k: int|
                at <= k < chain.len() ==> accounts[#[trigger] chain[k]].budget_id@ != budget_id
            &&& found is Some ==> found->Some_0.code == ErrorCode::InvalidPayload
        }),
    decreases chain.len() - at,
{
    let ids = chain_ids(accounts, chain);
    let seen = seq![budget_id] + ids.take(at);
    assert forall|a: int, b: int| 0 <= a < b < chain.len() implies ids[a] != ids[b] by {
        lemma_chain_ends(accounts, id, chain, a, b);
        if ids[a] == ids[b] {
            assert(accounts[chain[a]].budget_id@ == accounts[chain[b]].budget_id@);
        }
    }
    assert(ids.no_duplicates());
    assert forall|k: int| 0 <= k < ids.len() implies position(accounts, #[trigger] ids[k]) is Some by {
        assert(accounts[chain[k]].budget_id@ == ids[k]);
    }
    lemma_walk_is_bounded(accounts, ids);
    assert(ids[at] == accounts[chain[at]].budget_id@);
    if ids[at] == budget_id {
        assert(seen[0] == budget_id);
        assert(seen.contains(ids[at]));
    } else {
        assert(!seen.contains(ids[at])) by {
            if seen.contains(ids[at]) {
                let k = choose|k: int| 0 <= k < seen.len() && seen[k] == ids[at];
                assert(k > 0);
                assert(seen[k] == ids[k - 1]);
            }
        }
        let p = position(accounts, ids[at])->Some_0;
        assert(accounts[p].budget_id@ == accounts[chain[at]].budget_id@);
        assert(p == chain[at]);
        assert(seen.push(ids[at]) =~= seq![budget_id] + ids.take(at + 1));
        if at < chain.len() - 1 {
            lemma_parent_walk(accounts, budget_id, id, chain, at + 1);
            assert(accounts[chain[at]].parent_budget_id->Some_0->Ok_0@ == ids[at + 1]);
            assert forall|k: int| at <= k < chain.len() && parent_fault(
                accounts,
                ids[at],
                seen,
            ) is None implies accounts[#[trigger] chain[k]].budget_id@ != budget_id by {}
        } else {
            assert(chain.last() == chain[at]);
            assert forall|k: int| at <= k < chain.len() implies accounts[#[trigger] chain[k]].budget_id@
                != budget_id by {}
        }
    }
}

/// A new account without a parent is opened by any host that may write. One with a parent
/// is opened if and only if it does not stand above that parent itself, and nothing opens
/// below an account that is not there. A new account has spent nothing.
pub proof fn law_account_opens_below_a_parent_that_it_is_not_above(
    record: BudgetAccountRecord,
    fence: HostFence,
    held: Option<i64>,
    accounts: Seq<AccountRow>,
    chain: Seq<int>,
)
    requires
        distinct_accounts(accounts),
        held is Some && held->Some_0 == fence.generation as int,
        record.limit_tokens <= i64::MAX,
    ensures
        record.parent_budget_id is None ==> open_account_fault(
            record,
            fence,
            held,
            accounts,
            None,
        ) is None,
        record.parent_budget_id is Some && is_chain(
            accounts,
            record.parent_budget_id->Some_0@,
            chain,
        ) ==> (open_account_fault(record, fence, held, accounts, None) is None <==> forall|k: int|
            0 <= k < chain.len() ==> accounts[#[trigger] chain[k]].budget_id@
                != record.budget_id@),
        record.parent_budget_id is Some && (forall|i: int|
            0 <= i < accounts.len() ==> #[trigger] accounts[i].budget_id@
                != record.parent_budget_id->Some_0@) ==> {
            &&& open_account_fault(record, fence, held, accounts, None) is Some
            &&& open_account_fault(record, fence, held, accounts, None)->Some_0.code
                == ErrorCode::InvalidPayload
        },
        opened_account(record, None).spent_tokens == 0,
        opened_account(record, None).revision == 1,
        opened_account(record, None).limit_tokens == record.limit_tokens,
        opened_account(record, None).budget_id == record.budget_id,
        opened_account(record, None).parent_budget_id == record.parent_budget_id,
{
    if record.parent_budget_id is Some && is_chain(
        accounts,
        record.parent_budget_id->Some_0@,
        chain,
    ) {
        let ids = chain_ids(accounts, chain);
        lemma_parent_walk(
            accounts,
            record.budget_id@,
            record.parent_budget_id->Some_0@,
            chain,
            0,
        );
        assert(seq![record.budget_id@] + ids.take(0) =~= seq![record.budget_id@]);
        assert(ids[0] == record.parent_budget_id->Some_0@);
    }
}

/// An account that is there is handed back with what it has spent where its limit and its
/// parent are the ones asked for, and is in conflict with any other.
pub proof fn law_open_account_is_handed_back(
    record: BudgetAccountRecord,
    fence: HostFence,
    held: Option<i64>,
    accounts: Seq<AccountRow>,
    stored: BudgetAccountRecord,
    row: AccountRow,
)
    requires
        held is Some && held->Some_0 == fence.generation as int,
        record.limit_tokens <= i64::MAX,
        account_is_stored_in(stored, row),
        record.parent_budget_id is None,
    ensures
        open_account_fault(record, fence, held, accounts, Some((Ok(stored.budget_id), row))) is None
            <==> stored.limit_tokens == record.limit_tokens && stored.parent_budget_id is None,
        open_account_fault(record, fence, held, accounts, Some((Ok(stored.budget_id), row))) is Some
            ==> open_account_fault(
            record,
            fence,
            held,
            accounts,
            Some((Ok(stored.budget_id), row)),
        )->Some_0.code == ErrorCode::IdempotencyConflict,
        opened_account(record, Some((Ok(stored.budget_id), row))) == stored,
{
}

// ---------------------------------------------------------------------------
// Reservations

/// A reservation as its row is read.
#[derive(Debug)]
pub struct ReservationRow {
    pub reservation_id: Parsed,
    pub budget_id: Parsed,
    pub operation_id: String,
    pub origin: String,
    pub upper_bound_tokens: i64,
    pub settled_tokens: Option<i64>,
    pub state: String,
    pub revision: i64,
}

/// Why a stored reservation cannot be read.
pub open spec fn reservation_row_fault(row: ReservationRow) -> Option<Fault> {
    let write_failed = ErrorCode::StorageWriteFailed;
    first(
        if forall|state: BudgetReservationState| #[trigger] state.text() != row.state@ {
            fault(write_failed, "budget reservation state is invalid"@)
        } else {
            None
        },
        first(
            stored_fault(row.reservation_id, write_failed, "budget reservation ID is invalid"@),
            first(
                stored_fault(row.budget_id, write_failed, "budget ID is invalid"@),
                first(
                    u64_fault(row.upper_bound_tokens, "reservation bound"@),
                    first(
                        u64_option_fault(row.settled_tokens, "settled tokens"@),
                        u64_fault(row.revision, "reservation revision"@),
                    ),
                ),
            ),
        ),
    )
}

/// The reservation that a row holds, under the state that its text stands for.
pub open spec fn reservation_of(
    row: ReservationRow,
    state: BudgetReservationState,
) -> BudgetReservationRecord {
    BudgetReservationRecord {
        reservation_id: row.reservation_id->Ok_0,
        budget_id: row.budget_id->Ok_0,
        operation_id: row.operation_id,
        origin: row.origin,
        upper_bound_tokens: row.upper_bound_tokens as u64,
        settled_tokens: u64_option(row.settled_tokens),
        state,
        revision: row.revision as u64,
    }
}

/// A record is what a row holds.
pub open spec fn reads_as(row: ReservationRow, record: BudgetReservationRecord) -> bool {
    record.state.text() == row.state@ && record == reservation_of(row, record.state)
}

/// Reads a reservation back.
pub fn reservation_from_row(row: ReservationRow) -> (result: Result<
    BudgetReservationRecord,
    StoreError,
>)
    ensures
        answers(result, reservation_row_fault(row)),
        result is Ok ==> reads_as(row, result->Ok_0),
        result is Ok ==> result->Ok_0.upper_bound_tokens <= i64::MAX,
        result is Ok ==> result->Ok_0.revision <= i64::MAX,
{
    let state: BudgetReservationState = match BudgetReservationState::parse(row.state.as_str()) {
        Some(state) => state,
        None => {
            return Err(
                StoreError::new(
                    ErrorCode::StorageWriteFailed,
                    "budget reservation state is invalid",
                ),
            );
        },
    };
    assert(state.text() == row.state@);
    let reservation_id: String = stored_value(
        row.reservation_id,
        ErrorCode::StorageWriteFailed,
        "budget reservation ID is invalid",
    )?;
    let budget_id: String = stored_value(
        row.budget_id,
        ErrorCode::StorageWriteFailed,
        "budget ID is invalid",
    )?;
    let upper_bound_tokens: u64 = to_u64(row.upper_bound_tokens, "reservation bound")?;
    let settled_tokens: Option<u64> = to_u64_option(row.settled_tokens, "settled tokens")?;
    let revision: u64 = to_u64(row.revision, "reservation revision")?;
    Ok(
        BudgetReservationRecord {
            reservation_id,
            budget_id,
            operation_id: row.operation_id,
            origin: row.origin,
            upper_bound_tokens,
            settled_tokens,
            state,
            revision,
        },
    )
}

/// A row holds a reservation as it is written: its identities and texts as they are, and
/// its numbers, which columns can hold.
pub open spec fn reservation_is_stored_in(record: BudgetReservationRecord, row: ReservationRow) -> bool {
    &&& record.upper_bound_tokens <= i64::MAX
    &&& record.revision <= i64::MAX
    &&& record.settled_tokens is Some ==> record.settled_tokens->Some_0 <= i64::MAX
    &&& row.state@ == record.state.text()
    &&& row == (ReservationRow {
        reservation_id: Ok(record.reservation_id),
        budget_id: Ok(record.budget_id),
        upper_bound_tokens: record.upper_bound_tokens as i64,
        revision: record.revision as i64,
        settled_tokens: i64_option(record.settled_tokens),
        operation_id: record.operation_id,
        origin: record.origin,
        state: row.state,
    })
}

/// What is written is read back: the row of a reservation reads without an error, and as
/// the record that it was written from.
pub proof fn law_stored_reservation_reads_back(record: BudgetReservationRecord, row: ReservationRow, read: BudgetReservationRecord)
    requires
        reservation_is_stored_in(record, row),
        reads_as(row, read),
    ensures
        reservation_row_fault(row) is None,
        read == record,
{
    crate::states::law_budget_reservation_state_texts_differ(record.state, read.state);
}

/// What a change to a reservation leaves: the reservation, whether its row is
/// written, and the accounts with what they have spent by then.
#[derive(Debug)]
pub struct ReservationOutcome {
    pub record: BudgetReservationRecord,
    pub written: bool,
    pub accounts: Vec<AccountRow>,
}

/// A reservation as it is first written.
pub open spec fn new_reservation(reservation: BudgetReservationRecord) -> BudgetReservationRecord {
    BudgetReservationRecord {
        settled_tokens: None,
        state: BudgetReservationState::Reserved,
        revision: 1,
        ..reservation
    }
}

/// Why budget is not reserved for an operation. `existing` is the reservation
/// that the operation already has.
pub open spec fn reserve_fault(
    reservation: BudgetReservationRecord,
    fence: HostFence,
    held: Option<i64>,
    accounts: Seq<AccountRow>,
    existing: Option<ReservationRow>,
) -> Option<Fault> {
    first(
        fence_fault(held, fence),
        first(
            i64_fault(reservation.upper_bound_tokens, "reservation bound"@),
            match existing {
                None => charge_fault(
                    accounts,
                    reservation.budget_id@,
                    reservation.upper_bound_tokens as i64,
                    seq![],
                ),
                Some(row) => first(
                    reservation_row_fault(row),
                    if row.budget_id->Ok_0@ != reservation.budget_id@ || row.upper_bound_tokens
                        != reservation.upper_bound_tokens {
                        fault(
                            ErrorCode::IdempotencyConflict,
                            "budget reservation operation is immutable"@,
                        )
                    } else {
                        None
                    },
                ),
            },
        ),
    )
}

/// Reserves budget for an operation, or hands back the reservation that it has.
pub fn reserve_budget(
    reservation: BudgetReservationRecord,
    fence: &HostFence,
    held: Option<i64>,
    accounts: Vec<AccountRow>,
    existing: Option<ReservationRow>,
) -> (result: Result<ReservationOutcome, StoreError>)
    requires
        distinct_accounts(accounts@),
    ensures
        answers(result, reserve_fault(reservation, *fence, held, accounts@, existing)),
        result is Ok ==> result->Ok_0.written == (existing is None),
        result is Ok && existing is None ==> {
            &&& result->Ok_0.record == new_reservation(reservation)
            &&& result->Ok_0.accounts@ == charged_table(
                accounts@,
                lineage(accounts@, reservation.budget_id@, seq![]),
                reservation.upper_bound_tokens as i64,
            )
        },
        result is Ok && existing is Some ==> {
            &&& reads_as(existing->Some_0, result->Ok_0.record)
            &&& result->Ok_0.accounts@ == accounts@
        },
{
    check_fence(held, fence)?;
    let bound: i64 = to_i64(reservation.upper_bound_tokens, "reservation bound")?;
    match existing {
        None => {
            let accounts: Vec<AccountRow> = charge_chain(
                accounts,
                reservation.budget_id.as_str(),
                bound,
            )?;
            Ok(
                ReservationOutcome {
                    record: BudgetReservationRecord {
                        reservation_id: reservation.reservation_id,
                        budget_id: reservation.budget_id,
                        operation_id: reservation.operation_id,
                        origin: reservation.origin,
                        upper_bound_tokens: reservation.upper_bound_tokens,
                        settled_tokens: None,
                        state: BudgetReservationState::Reserved,
                        revision: 1,
                    },
                    written: true,
                    accounts,
                },
            )
        },
        Some(row) => {
            let record: BudgetReservationRecord = reservation_from_row(row)?;
            if !same_text(record.budget_id.as_str(), reservation.budget_id.as_str())
                || record.upper_bound_tokens != reservation.upper_bound_tokens {
                return Err(
                    StoreError::new(
                        ErrorCode::IdempotencyConflict,
                        "budget reservation operation is immutable",
                    ),
                );
            }
            Ok(ReservationOutcome { record, written: false, accounts })
        },
    }
}

/// Budget is reserved for a new operation if and only if the account and every account above
/// it has that much left under its limit and a revision to move to. Each of them has then
/// spent the whole bound, and the reservation is open and unmeasured.
pub proof fn law_reserving_charges_the_bound_to_the_whole_chain(
    reservation: BudgetReservationRecord,
    fence: HostFence,
    held: Option<i64>,
    accounts: Seq<AccountRow>,
    chain: Seq<int>,
)
    requires
        distinct_accounts(accounts),
        is_chain(accounts, reservation.budget_id@, chain),
        reservation.upper_bound_tokens <= i64::MAX,
    ensures
        reserve_fault(reservation, fence, held, accounts, None) is None <==> {
            &&& held is Some && held->Some_0 == fence.generation as int
            &&& forall|k: int|
                0 <= k < chain.len() ==> {
                    let account = accounts[#[trigger] chain[k]];
                    &&& 0 <= account.spent_tokens
                    &&& 0 <= account.revision < i64::MAX
                    &&& 0 <= account.limit_tokens
                    &&& reservation.upper_bound_tokens > 0 ==> account.spent_tokens
                        + reservation.upper_bound_tokens <= account.limit_tokens
                }
        },
        reserve_fault(reservation, fence, held, accounts, None) is None ==> {
            let after = charged_table(
                accounts,
                lineage(accounts, reservation.budget_id@, seq![]),
                reservation.upper_bound_tokens as i64,
            );
            &&& after.len() == accounts.len()
            &&& forall|i: int|
                0 <= i < accounts.len() ==> {
                    &&& (#[trigger] after[i]).limit_tokens == accounts[i].limit_tokens
                    &&& chain.contains(i) ==> after[i].spent_tokens == accounts[i].spent_tokens
                        + reservation.upper_bound_tokens
                    &&& chain.contains(i) ==> after[i].revision == accounts[i].revision + 1
                    &&& !chain.contains(i) ==> after[i] == accounts[i]
                }
        },
        new_reservation(reservation).state == BudgetReservationState::Reserved,
        new_reservation(reservation).settled_tokens is None,
        new_reservation(reservation).revision == 1,
        new_reservation(reservation).upper_bound_tokens == reservation.upper_bound_tokens,
        new_reservation(reservation).budget_id == reservation.budget_id,
        new_reservation(reservation).reservation_id == reservation.reservation_id,
        new_reservation(reservation).operation_id == reservation.operation_id,
        new_reservation(reservation).origin == reservation.origin,
{
    law_charge_is_taken_by_the_whole_chain(
        accounts,
        reservation.budget_id@,
        reservation.upper_bound_tokens as i64,
        chain,
    );
}

/// An operation that has its reservation gets it back, whatever its accounts have left, and
/// one that asks for another account or another bound is in conflict with it.
pub proof fn law_reserving_again_gives_the_reservation_back(
    reservation: BudgetReservationRecord,
    fence: HostFence,
    held: Option<i64>,
    accounts: Seq<AccountRow>,
    row: ReservationRow,
    state: BudgetReservationState,
)
    requires
        held is Some && held->Some_0 == fence.generation as int,
        reservation.upper_bound_tokens <= i64::MAX,
        row.state@ == state.text(),
        row.reservation_id is Ok,
        row.budget_id is Ok,
        0 <= row.upper_bound_tokens,
        0 <= row.revision,
        row.settled_tokens is Some ==> 0 <= row.settled_tokens->Some_0,
    ensures
        row.budget_id->Ok_0@ == reservation.budget_id@ && row.upper_bound_tokens
            == reservation.upper_bound_tokens <==> reserve_fault(
            reservation,
            fence,
            held,
            accounts,
            Some(row),
        ) is None,
        reserve_fault(reservation, fence, held, accounts, Some(row)) is Some ==> reserve_fault(
            reservation,
            fence,
            held,
            accounts,
            Some(row),
        )->Some_0.code == ErrorCode::IdempotencyConflict,
{
    assert(state.text() == row.state@);
}

/// Why a reservation cannot be released.
pub open spec fn release_fault(
    fence: HostFence,
    held: Option<i64>,
    row: Option<ReservationRow>,
    accounts: Seq<AccountRow>,
) -> Option<Fault> {
    first(
        fence_fault(held, fence),
        match row {
            None => fault(ErrorCode::InvalidPayload, "budget reservation does not exist"@),
            Some(current) => first(
                reservation_row_fault(current),
                if current.state@ != BudgetReservationState::Reserved.text() {
                    None
                } else {
                    charge_fault(
                        accounts,
                        current.budget_id->Ok_0@,
                        (-current.upper_bound_tokens) as i64,
                        seq![],
                    )
                },
            ),
        },
    )
}

/// What a release leaves: the reservation as released, and the accounts with its bound given
/// back. A reservation that has left the reserved state is as it was, and so are the accounts.
pub open spec fn is_release(
    outcome: ReservationOutcome,
    current: ReservationRow,
    accounts: Seq<AccountRow>,
) -> bool {
    &&& outcome.written == (current.state@ == BudgetReservationState::Reserved.text())
    &&& !outcome.written ==> reads_as(current, outcome.record) && outcome.accounts@ == accounts
    &&& outcome.written ==> outcome.record == (BudgetReservationRecord {
        revision: (current.revision + 1) as u64,
        ..reservation_of(current, BudgetReservationState::Released)
    })
    &&& outcome.written ==> outcome.accounts@ == charged_table(
        accounts,
        lineage(accounts, current.budget_id->Ok_0@, seq![]),
        (-current.upper_bound_tokens) as i64,
    )
}

/// Releases a reservation that was never used: its charge is given back. One that
/// has left the reserved state stays as it is.
pub fn release_reservation(
    fence: &HostFence,
    held: Option<i64>,
    row: Option<ReservationRow>,
    accounts: Vec<AccountRow>,
) -> (result: Result<ReservationOutcome, StoreError>)
    requires
        distinct_accounts(accounts@),
    ensures
        answers(result, release_fault(*fence, held, row, accounts@)),
        result is Ok ==> is_release(result->Ok_0, row->Some_0, accounts@),
{
    check_fence(held, fence)?;
    let row: ReservationRow = match row {
        Some(row) => row,
        None => {
            return Err(
                StoreError::new(ErrorCode::InvalidPayload, "budget reservation does not exist"),
            );
        },
    };
    let ghost stored = row;
    let current: BudgetReservationRecord = reservation_from_row(row)?;
    proof {
        crate::states::law_budget_reservation_state_texts_differ(
            current.state,
            BudgetReservationState::Reserved,
        );
    }
    if current.state != BudgetReservationState::Reserved {
        return Ok(ReservationOutcome { record: current, written: false, accounts });
    }
    let bound: i64 = current.upper_bound_tokens as i64;
    let accounts: Vec<AccountRow> = charge_chain(accounts, current.budget_id.as_str(), -bound)?;
    Ok(
        ReservationOutcome {
            record: BudgetReservationRecord {
                reservation_id: current.reservation_id,
                budget_id: current.budget_id,
                operation_id: current.operation_id,
                origin: current.origin,
                upper_bound_tokens: current.upper_bound_tokens,
                settled_tokens: current.settled_tokens,
                state: BudgetReservationState::Released,
                revision: current.revision + 1,
            },
            written: true,
            accounts,
        },
    )
}

/// A reservation that is still reserved is released if and only if the account and every
/// account above it has spent at least the bound and has a revision to move to, whatever
/// its limit. Each of them has then spent that much less. A reservation that has left the
/// reserved state is left as it is, whatever its accounts hold.
pub proof fn law_release_gives_the_bound_back(
    fence: HostFence,
    held: Option<i64>,
    row: ReservationRow,
    state: BudgetReservationState,
    accounts: Seq<AccountRow>,
    chain: Seq<int>,
)
    requires
        distinct_accounts(accounts),
        held is Some && held->Some_0 == fence.generation as int,
        row.state@ == state.text(),
        row.reservation_id is Ok,
        row.budget_id is Ok,
        0 <= row.upper_bound_tokens,
        0 <= row.revision,
        row.settled_tokens is Some ==> 0 <= row.settled_tokens->Some_0,
        is_chain(accounts, row.budget_id->Ok_0@, chain),
    ensures
        state != BudgetReservationState::Reserved ==> release_fault(
            fence,
            held,
            Some(row),
            accounts,
        ) is None,
        state == BudgetReservationState::Reserved ==> (release_fault(
            fence,
            held,
            Some(row),
            accounts,
        ) is None <==> forall|k: int|
            0 <= k < chain.len() ==> {
                let account = accounts[#[trigger] chain[k]];
                &&& row.upper_bound_tokens <= account.spent_tokens
                &&& 0 <= account.revision < i64::MAX
                &&& 0 <= account.limit_tokens
            }),
        state == BudgetReservationState::Reserved && release_fault(
            fence,
            held,
            Some(row),
            accounts,
        ) is None ==> {
            let after = charged_table(
                accounts,
                lineage(accounts, row.budget_id->Ok_0@, seq![]),
                (-row.upper_bound_tokens) as i64,
            );
            &&& after.len() == accounts.len()
            &&& forall|i: int|
                0 <= i < accounts.len() ==> {
                    &&& (#[trigger] after[i]).limit_tokens == accounts[i].limit_tokens
                    &&& chain.contains(i) ==> after[i].spent_tokens == accounts[i].spent_tokens
                        - row.upper_bound_tokens
                    &&& chain.contains(i) ==> after[i].revision == accounts[i].revision + 1
                    &&& !chain.contains(i) ==> after[i] == accounts[i]
                }
        },
{
    assert(state.text() == row.state@);
    crate::states::law_budget_reservation_state_texts_differ(
        state,
        BudgetReservationState::Reserved,
    );
    law_charge_is_taken_by_the_whole_chain(
        accounts,
        row.budget_id->Ok_0@,
        (-row.upper_bound_tokens) as i64,
        chain,
    );
}

/// A reservation that was released says so, one revision on, and is otherwise what it was. One
/// that had left the reserved state before is not written, and no account moves.
pub proof fn law_released_reservation_says_so(
    record: BudgetReservationRecord,
    row: ReservationRow,
    accounts: Seq<AccountRow>,
    outcome: ReservationOutcome,
)
    requires
        reservation_is_stored_in(record, row),
        is_release(outcome, row, accounts),
    ensures
        record.state == BudgetReservationState::Reserved ==> {
            &&& outcome.written
            &&& outcome.record.state == BudgetReservationState::Released
            &&& outcome.record.revision == record.revision + 1
            &&& outcome.record.reservation_id == record.reservation_id
            &&& outcome.record.budget_id == record.budget_id
            &&& outcome.record.operation_id == record.operation_id
            &&& outcome.record.origin == record.origin
            &&& outcome.record.upper_bound_tokens == record.upper_bound_tokens
            &&& outcome.record.settled_tokens == record.settled_tokens
        },
        record.state != BudgetReservationState::Reserved ==> {
            &&& !outcome.written
            &&& outcome.record == record
            &&& outcome.accounts@ == accounts
        },
{
    crate::states::law_budget_reservation_state_texts_differ(
        record.state,
        BudgetReservationState::Reserved,
    );
    crate::states::law_budget_reservation_state_texts_differ(record.state, outcome.record.state);
}

/// How far the charge of a reservation is from what was measured.
pub open spec fn settlement_delta(bound: i64, measured: Option<u64>) -> int {
    match measured {
        Some(tokens) => tokens - bound,
        None => 0,
    }
}

/// Why a reservation cannot be settled.
pub open spec fn settle_fault(
    row: Option<ReservationRow>,
    measured: Option<u64>,
    accounts: Seq<AccountRow>,
) -> Option<Fault> {
    match row {
        None => fault(ErrorCode::InvalidPayload, "budget reservation does not exist"@),
        Some(current) => {
            let delta = settlement_delta(current.upper_bound_tokens, measured);
            first(
                reservation_row_fault(current),
                if current.state@ != BudgetReservationState::Reserved.text() {
                    if u64_option(current.settled_tokens) != measured {
                        fault(
                            ErrorCode::IdempotencyConflict,
                            "budget reservation was already settled with different usage"@,
                        )
                    } else {
                        None
                    }
                } else {
                    first(
                        if delta == 0 {
                            None
                        } else if delta < i64::MIN || delta > i64::MAX {
                            fault(ErrorCode::BudgetExhausted, "budget delta overflow"@)
                        } else {
                            charge_fault(
                                accounts,
                                current.budget_id->Ok_0@,
                                delta as i64,
                                seq![],
                            )
                        },
                        crate::columns::i64_option_fault(measured, "settled tokens"@),
                    )
                },
            )
        },
    }
}

/// The state that a settlement leaves: unmeasured use stays charged in full.
pub open spec fn settled_state(measured: Option<u64>) -> BudgetReservationState {
    if measured is Some {
        BudgetReservationState::Settled
    } else {
        BudgetReservationState::Unknown
    }
}

/// The accounts after a difference was charged to one of them and to every account
/// above it. Where there is none, nothing moves.
pub open spec fn settled_table(accounts: Seq<AccountRow>, id: Seq<char>, delta: int) -> Seq<
    AccountRow,
> {
    if delta == 0 {
        accounts
    } else {
        charged_table(accounts, lineage(accounts, id, seq![]), delta as i64)
    }
}

/// What a settlement leaves: the reservation with what was measured, and the
/// accounts with the difference charged or given back. A reservation that has left
/// the reserved state is as it was, and so are the accounts.
pub open spec fn is_settlement(
    outcome: ReservationOutcome,
    current: ReservationRow,
    measured: Option<u64>,
    accounts: Seq<AccountRow>,
) -> bool {
    let delta = settlement_delta(current.upper_bound_tokens, measured);
    &&& outcome.written == (current.state@ == BudgetReservationState::Reserved.text())
    &&& !outcome.written ==> reads_as(current, outcome.record) && outcome.accounts@ == accounts
    &&& outcome.written ==> outcome.record == (BudgetReservationRecord {
        settled_tokens: measured,
        revision: (current.revision + 1) as u64,
        ..reservation_of(current, settled_state(measured))
    })
    &&& outcome.written ==> outcome.accounts@ == settled_table(
        accounts,
        current.budget_id->Ok_0@,
        delta,
    )
}

/// Settles a reservation: its charge becomes what was measured. One that has
/// left the reserved state stays as it is, and its usage has to be the same.
pub fn settle_reservation(
    settlement: &BudgetSettlement,
    row: Option<ReservationRow>,
    accounts: Vec<AccountRow>,
) -> (result: Result<ReservationOutcome, StoreError>)
    requires
        distinct_accounts(accounts@),
    ensures
        answers(result, settle_fault(row, settlement.measured_tokens, accounts@)),
        result is Ok ==> is_settlement(
            result->Ok_0,
            row->Some_0,
            settlement.measured_tokens,
            accounts@,
        ),
{
    let row: ReservationRow = match row {
        Some(row) => row,
        None => {
            return Err(
                StoreError::new(ErrorCode::InvalidPayload, "budget reservation does not exist"),
            );
        },
    };
    let ghost stored = row;
    let current: BudgetReservationRecord = reservation_from_row(row)?;
    proof {
        crate::states::law_budget_reservation_state_texts_differ(
            current.state,
            BudgetReservationState::Reserved,
        );
    }
    if current.state != BudgetReservationState::Reserved {
        let same: bool = match (current.settled_tokens, settlement.measured_tokens) {
            (None, None) => true,
            (Some(before), Some(now)) => before == now,
            _ => false,
        };
        if !same {
            return Err(
                StoreError::new(
                    ErrorCode::IdempotencyConflict,
                    "budget reservation was already settled with different usage",
                ),
            );
        }
        return Ok(ReservationOutcome { record: current, written: false, accounts });
    }
    let delta: i128 = match settlement.measured_tokens {
        Some(tokens) => tokens as i128 - current.upper_bound_tokens as i128,
        None => 0,
    };
    let accounts: Vec<AccountRow> = if delta == 0 {
        accounts
    } else {
        if delta < i64::MIN as i128 || delta > i64::MAX as i128 {
            return Err(StoreError::new(ErrorCode::BudgetExhausted, "budget delta overflow"));
        }
        charge_chain(accounts, current.budget_id.as_str(), delta as i64)?
    };
    let measured: Option<i64> = crate::columns::to_i64_option(
        settlement.measured_tokens,
        "settled tokens",
    )?;
    let state: BudgetReservationState = if settlement.measured_tokens.is_some() {
        BudgetReservationState::Settled
    } else {
        BudgetReservationState::Unknown
    };
    Ok(
        ReservationOutcome {
            record: BudgetReservationRecord {
                reservation_id: current.reservation_id,
                budget_id: current.budget_id,
                operation_id: current.operation_id,
                origin: current.origin,
                upper_bound_tokens: current.upper_bound_tokens,
                settled_tokens: settlement.measured_tokens,
                state,
                revision: current.revision + 1,
            },
            written: true,
            accounts,
        },
    )
}

/// Settles a reservation that stands by itself, for a host that may write.
pub fn settle_budget_reservation(
    settlement: &BudgetSettlement,
    fence: &HostFence,
    held: Option<i64>,
    row: Option<ReservationRow>,
    accounts: Vec<AccountRow>,
) -> (result: Result<ReservationOutcome, StoreError>)
    requires
        distinct_accounts(accounts@),
    ensures
        answers(
            result,
            first(
                fence_fault(held, *fence),
                settle_fault(row, settlement.measured_tokens, accounts@),
            ),
        ),
        result is Ok ==> is_settlement(
            result->Ok_0,
            row->Some_0,
            settlement.measured_tokens,
            accounts@,
        ),
{
    check_fence(held, fence)?;
    settle_reservation(settlement, row, accounts)
}

/// A reservation that can be read and is still reserved is settled if and only if the
/// measured use fits its column and the account and every account above it takes the
/// difference to the reserved bound: none ends below nothing, each has a revision left,
/// and where more was used than reserved, none ends above its limit. Use that equals the
/// bound, or that was not measured, moves no account. The reservation then says what was
/// measured, one revision on, and each of the accounts has spent the difference more.
pub proof fn law_reserved_is_settled_where_every_account_has_room(
    row: ReservationRow,
    measured: u64,
    accounts: Seq<AccountRow>,
    chain: Seq<int>,
)
    requires
        distinct_accounts(accounts),
        row.state@ == "reserved"@,
        row.reservation_id is Ok,
        row.budget_id is Ok,
        0 <= row.upper_bound_tokens,
        0 <= row.revision,
        row.settled_tokens is Some ==> 0 <= row.settled_tokens->Some_0,
        is_chain(accounts, row.budget_id->Ok_0@, chain),
    ensures
        settle_fault(Some(row), None, accounts) is None,
        settle_fault(Some(row), Some(measured), accounts) is None <==> {
            &&& measured <= i64::MAX
            &&& measured == row.upper_bound_tokens || forall|k: int|
                0 <= k < chain.len() ==> {
                    let account = accounts[#[trigger] chain[k]];
                    &&& 0 <= account.limit_tokens
                    &&& 0 <= account.spent_tokens
                    &&& 0 <= account.revision < i64::MAX
                    &&& 0 <= account.spent_tokens + (measured - row.upper_bound_tokens)
                    &&& measured > row.upper_bound_tokens ==> account.spent_tokens + (measured
                        - row.upper_bound_tokens) <= account.limit_tokens
                }
        },
        forall|outcome: ReservationOutcome| #[trigger]
            is_settlement(outcome, row, None, accounts) ==> {
                &&& outcome.written
                &&& outcome.record.state == BudgetReservationState::Unknown
                &&& outcome.record.settled_tokens is None
                &&& outcome.record.revision == row.revision + 1
                &&& outcome.record.reservation_id == row.reservation_id->Ok_0
                &&& outcome.record.budget_id == row.budget_id->Ok_0
                &&& outcome.record.operation_id == row.operation_id
                &&& outcome.record.origin == row.origin
                &&& outcome.record.upper_bound_tokens == row.upper_bound_tokens
                &&& outcome.accounts@ == accounts
            },
        settle_fault(Some(row), Some(measured), accounts) is None ==> forall|
            outcome: ReservationOutcome,
        | #[trigger]
            is_settlement(outcome, row, Some(measured), accounts) ==> {
                &&& outcome.written
                &&& outcome.record.state == BudgetReservationState::Settled
                &&& outcome.record.settled_tokens == Some(measured)
                &&& outcome.record.revision == row.revision + 1
                &&& outcome.record.reservation_id == row.reservation_id->Ok_0
                &&& outcome.record.budget_id == row.budget_id->Ok_0
                &&& outcome.record.operation_id == row.operation_id
                &&& outcome.record.origin == row.origin
                &&& outcome.record.upper_bound_tokens == row.upper_bound_tokens
                &&& outcome.accounts@.len() == accounts.len()
                &&& forall|i: int|
                    0 <= i < accounts.len() ==> {
                        let after = #[trigger] outcome.accounts@[i];
                        &&& after.budget_id == accounts[i].budget_id
                        &&& after.parent_budget_id == accounts[i].parent_budget_id
                        &&& after.limit_tokens == accounts[i].limit_tokens
                        &&& chain.contains(i) ==> after.spent_tokens == accounts[i].spent_tokens
                            + (measured - row.upper_bound_tokens)
                        &&& chain.contains(i) && measured != row.upper_bound_tokens
                            ==> after.revision == accounts[i].revision + 1
                        &&& !chain.contains(i) || measured == row.upper_bound_tokens ==> after
                            == accounts[i]
                    }
            },
{
    assert(BudgetReservationState::Reserved.text() == row.state@);
    let delta = measured - row.upper_bound_tokens;
    if measured <= i64::MAX {
        law_charge_is_taken_by_the_whole_chain(
            accounts,
            row.budget_id->Ok_0@,
            delta as i64,
            chain,
        );
    }
}

/// A settlement is made once: the same usage again changes nothing, and another
/// usage is refused. `after` is the row that the settlement left.
pub proof fn law_settlement_is_made_once(
    after: ReservationRow,
    measured: Option<u64>,
    other: Option<u64>,
    accounts: Seq<AccountRow>,
)
    requires
        reservation_row_fault(after) is None,
        after.state@ == settled_state(measured).text(),
        u64_option(after.settled_tokens) == measured,
        other != measured,
    ensures
        settle_fault(Some(after), measured, accounts) is None,
        settle_fault(Some(after), other, accounts) == fault(
            ErrorCode::IdempotencyConflict,
            "budget reservation was already settled with different usage"@,
        ),
{
    crate::states::law_budget_reservation_state_texts_differ(
        settled_state(measured),
        BudgetReservationState::Reserved,
    );
}

/// A reservation that is settled costs what was measured: on every account that
/// took the reservation, and on no other, the measured use is what has been added
/// once the reservation and its settlement are through.
pub proof fn law_settled_cost_is_what_was_measured(
    accounts: Seq<AccountRow>,
    id: Seq<char>,
    bound: i64,
    measured: u64,
    i: int,
)
    requires
        distinct_accounts(accounts),
        0 <= bound,
        measured <= i64::MAX,
        0 <= i < accounts.len(),
        charge_fault(accounts, id, bound, seq![]) is None,
        measured != bound ==> charge_fault(
            charged_table(accounts, lineage(accounts, id, seq![]), bound),
            id,
            (measured - bound) as i64,
            seq![],
        ) is None,
    ensures
        ({
            let reserved = charged_table(accounts, lineage(accounts, id, seq![]), bound);
            let settled = settled_table(
                reserved,
                id,
                settlement_delta(bound, Some(measured)),
            );
            settled[i].spent_tokens == if lineage(accounts, id, seq![]).contains(
                accounts[i].budget_id@,
            ) {
                accounts[i].spent_tokens + measured
            } else {
                accounts[i].spent_tokens as int
            }
        }),
{
    let reached = lineage(accounts, id, seq![]);
    let reserved = charged_table(accounts, reached, bound);
    lemma_same_walk(accounts, reached, id, bound, seq![]);
    assert(reserved[i].budget_id == accounts[i].budget_id);
    assert(distinct_accounts(reserved)) by {
        assert forall|a: int, b: int|
            0 <= a < reserved.len() && 0 <= b < reserved.len() && #[trigger] reserved[a].budget_id@
                == #[trigger] reserved[b].budget_id@ implies a == b by {
            assert(accounts[a].budget_id@ == accounts[b].budget_id@);
        }
    }
    if reached.contains(accounts[i].budget_id@) {
        lemma_every_account_accepts(accounts, id, bound, seq![], i);
        if measured != bound {
            lemma_every_account_accepts(reserved, id, (measured - bound) as i64, seq![], i);
        }
    }
}

} // verus!
