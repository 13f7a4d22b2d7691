use harness_store_sqlite::budgets::{
    charge_chain, ensure_budget_account, release_reservation, reserve_budget,
    settle_budget_reservation, settle_reservation,
    AccountRow, BudgetAccountRecord, BudgetReservationRecord, BudgetSettlement, ReservationRow,
};
use harness_store_sqlite::error::{ErrorCode, Refusal, StoreError};
use harness_store_sqlite::journal::HostFence;
use harness_store_sqlite::states::BudgetReservationState;

fn text(value: &str) -> String {
    value.to_owned()
}

fn fence() -> HostFence {
    HostFence { host_id: text("host"), generation: 3 }
}

fn fails<T>(result: Result<T, StoreError>, code: ErrorCode, message: &str) {
    match result {
        Ok(_) => panic!("expected {message}"),
        Err(error) => {
            assert_eq!(error.code(), code);
            assert_eq!(error.message(), message);
        }
    }
}

fn account(id: &str, parent: Option<&str>, limit: i64, spent: i64) -> AccountRow {
    AccountRow {
        budget_id: text(id),
        parent_budget_id: parent.map(|parent| Ok(text(parent))),
        limit_tokens: limit,
        spent_tokens: spent,
        revision: 1,
    }
}

fn tree() -> Vec<AccountRow> {
    vec![
        account("root", None, 100, 10),
        account("child", Some("root"), 50, 5),
        account("other", Some("root"), 50, 5),
    ]
}

fn spent(accounts: &[AccountRow]) -> Vec<i64> {
    accounts.iter().map(|account| account.spent_tokens).collect()
}

fn revisions(accounts: &[AccountRow]) -> Vec<i64> {
    accounts.iter().map(|account| account.revision).collect()
}

fn reservation(bound: u64) -> BudgetReservationRecord {
    BudgetReservationRecord {
        reservation_id: text("reservation"),
        budget_id: text("child"),
        operation_id: text("operation"),
        origin: text("step"),
        upper_bound_tokens: bound,
        settled_tokens: Some(9),
        state: BudgetReservationState::Unknown,
        revision: 8,
    }
}

fn stored(state: &str, bound: i64, settled: Option<i64>) -> ReservationRow {
    ReservationRow {
        reservation_id: Ok(text("reservation")),
        budget_id: Ok(text("child")),
        operation_id: text("operation"),
        origin: text("step"),
        upper_bound_tokens: bound,
        settled_tokens: settled,
        state: text(state),
        revision: 1,
    }
}

fn measured(tokens: Option<u64>) -> BudgetSettlement {
    BudgetSettlement { reservation_id: text("reservation"), measured_tokens: tokens }
}

#[test]
fn charges_reach_every_account_above() {
    let after = charge_chain(tree(), "child", 20).expect("charged");
    assert_eq!(spent(&after), vec![30, 25, 5]);
    assert_eq!(revisions(&after), vec![2, 2, 1]);
    let back = charge_chain(after, "child", -20).expect("refunded");
    assert_eq!(spent(&back), spent(&tree()));
    assert_eq!(revisions(&back), vec![3, 3, 1]);
    let last = vec![AccountRow { revision: i64::MAX, ..account("a", None, 9, 0) }];
    fails(
        charge_chain(last, "a", 1),
        ErrorCode::InvalidPayload,
        "budget revision exceeds SQLite integer range",
    );
}

#[test]
fn charges_respect_limits() {
    assert!(charge_chain(tree(), "child", 45).is_ok());
    fails(
        charge_chain(tree(), "child", 46),
        ErrorCode::BudgetExhausted,
        "budget child would exceed its limit: 5 + 46 > 50",
    );
    let tight = vec![account("root", None, 20, 10), account("child", Some("root"), 50, 5)];
    fails(
        charge_chain(tight, "child", 11),
        ErrorCode::BudgetExhausted,
        "budget root would exceed its limit: 10 + 11 > 20",
    );
    fails(
        charge_chain(tree(), "child", -6),
        ErrorCode::BudgetExhausted,
        "budget settlement would release more than was reserved",
    );
    fails(
        charge_chain(tree(), "nobody", 1),
        ErrorCode::BudgetExhausted,
        "budget account does not exist",
    );
}

#[test]
fn circles_of_accounts_are_refused() {
    let circle = vec![account("a", Some("b"), 9, 0), account("b", Some("a"), 9, 0)];
    fails(
        charge_chain(circle, "a", 1),
        ErrorCode::StorageWriteFailed,
        "budget account hierarchy contains a cycle",
    );
    let broken = vec![AccountRow {
        parent_budget_id: Some(Err(Refusal { code: ErrorCode::Other(1), text: text("bad") })),
        ..account("a", None, 9, 0)
    }];
    fails(charge_chain(broken, "a", 1), ErrorCode::StorageWriteFailed, "budget ID is invalid");
}

fn wanted(parent: Option<&str>) -> BudgetAccountRecord {
    BudgetAccountRecord {
        budget_id: text("new"),
        parent_budget_id: parent.map(text),
        limit_tokens: 40,
        spent_tokens: 7,
        revision: 7,
    }
}

#[test]
fn accounts_are_opened_once() {
    let opened = ensure_budget_account(wanted(Some("child")), &fence(), Some(3), &tree(), None)
        .expect("opened");
    assert_eq!((opened.spent_tokens, opened.revision), (0, 1));
    let row = || account("new", Some("child"), 40, 12);
    let again = ensure_budget_account(
        wanted(Some("child")),
        &fence(),
        Some(3),
        &tree(),
        Some((Ok(text("new")), row())),
    )
    .expect("there");
    assert_eq!(again.spent_tokens, 12);
    fails(
        ensure_budget_account(
            wanted(None),
            &fence(),
            Some(3),
            &tree(),
            Some((Ok(text("new")), row())),
        ),
        ErrorCode::IdempotencyConflict,
        "budget account identity is immutable",
    );
    fails(
        ensure_budget_account(wanted(Some("missing")), &fence(), Some(3), &tree(), None),
        ErrorCode::InvalidPayload,
        "budget parent account does not exist",
    );
    let mut looped = tree();
    looped.push(account("new", Some("child"), 40, 0));
    looped[0].parent_budget_id = Some(Ok(text("new")));
    fails(
        ensure_budget_account(wanted(Some("child")), &fence(), Some(3), &looped, None),
        ErrorCode::InvalidPayload,
        "budget account parent would create a cycle",
    );
}

#[test]
fn reservations_are_made_once() {
    let outcome = reserve_budget(reservation(20), &fence(), Some(3), tree(), None).expect("new");
    assert!(outcome.written);
    assert_eq!(outcome.record.state, BudgetReservationState::Reserved);
    assert_eq!(outcome.record.settled_tokens, None);
    assert_eq!(spent(&outcome.accounts), vec![30, 25, 5]);
    let again = reserve_budget(
        reservation(20),
        &fence(),
        Some(3),
        tree(),
        Some(stored("settled", 20, Some(3))),
    )
    .expect("there");
    assert!(!again.written);
    assert_eq!(again.record.settled_tokens, Some(3));
    assert_eq!(spent(&again.accounts), spent(&tree()));
    fails(
        reserve_budget(
            reservation(21),
            &fence(),
            Some(3),
            tree(),
            Some(stored("reserved", 20, None)),
        ),
        ErrorCode::IdempotencyConflict,
        "budget reservation operation is immutable",
    );
}

#[test]
fn a_release_undoes_the_reservation() {
    let reserved = reserve_budget(reservation(20), &fence(), Some(3), tree(), None).expect("new");
    let released = release_reservation(
        &fence(),
        Some(3),
        Some(stored("reserved", 20, None)),
        reserved.accounts,
    )
    .expect("released");
    assert!(released.written);
    assert_eq!(released.record.state, BudgetReservationState::Released);
    assert_eq!(released.record.revision, 2);
    assert_eq!(spent(&released.accounts), spent(&tree()));
    let again = release_reservation(
        &fence(),
        Some(3),
        Some(stored("released", 20, None)),
        tree(),
    )
    .expect("left");
    assert!(!again.written);
    fails(
        release_reservation(&fence(), Some(3), None, tree()),
        ErrorCode::InvalidPayload,
        "budget reservation does not exist",
    );
}

#[test]
fn a_settlement_costs_what_was_measured() {
    let reserved = reserve_budget(reservation(20), &fence(), Some(3), tree(), None).expect("new");
    let settled = settle_reservation(
        &measured(Some(12)),
        Some(stored("reserved", 20, None)),
        reserved.accounts,
    )
    .expect("settled");
    assert_eq!(spent(&settled.accounts), vec![22, 17, 5]);
    assert_eq!(revisions(&settled.accounts), vec![3, 3, 1]);
    assert_eq!(settled.record.state, BudgetReservationState::Settled);
    assert_eq!(settled.record.settled_tokens, Some(12));
    let unknown =
        settle_reservation(&measured(None), Some(stored("reserved", 20, None)), tree()).expect("unknown");
    assert_eq!(unknown.record.state, BudgetReservationState::Unknown);
    assert_eq!(spent(&unknown.accounts), spent(&tree()));
}

#[test]
fn a_settlement_is_made_once() {
    let again = settle_reservation(
        &measured(Some(12)),
        Some(stored("settled", 20, Some(12))),
        tree(),
    )
    .expect("same");
    assert!(!again.written);
    let fenced = |held: i64| {
        let row = Some(stored("reserved", 20, None));
        settle_budget_reservation(&measured(None), &fence(), Some(held), row, tree())
    };
    assert!(fenced(3).expect("settled").written);
    assert_eq!(fenced(4).err().map(|error| error.code()), Some(ErrorCode::StaleWriter));
    fails(
        settle_reservation(&measured(Some(13)), Some(stored("settled", 20, Some(12))), tree()),
        ErrorCode::IdempotencyConflict,
        "budget reservation was already settled with different usage",
    );
    fails(
        settle_reservation(&measured(Some(u64::MAX)), Some(stored("reserved", 20, None)), tree()),
        ErrorCode::BudgetExhausted,
        "budget delta overflow",
    );
    fails(
        settle_reservation(&measured(None), Some(stored("held", 20, None)), tree()),
        ErrorCode::StorageWriteFailed,
        "budget reservation state is invalid",
    );
}
