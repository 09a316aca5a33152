use pair_ledger::auth::Session;
use pair_ledger::date::Date;
use pair_ledger::queries::expense::Expense;
use pair_ledger::queries::summary::{resolvable_count, total_owed, ResolvableCount, TotalOwed};
use pair_ledger::queries::transfer::Transfer;
use pair_ledger::queries::{Db, Error, Label, Person, Split};
use pair_ledger::routes::summary::{get, GetResponse};
use pair_ledger::routes::StatusCode;

fn expense(id: i32, creator: Person, payer: Person, paid: i64, owed: i64) -> Expense {
    Expense {
        id,
        creator,
        payer,
        split: Split::Arbitrary,
        label: Label::Market,
        detail: None,
        date: Date::new(2024, 3, 5).unwrap(),
        paid,
        owed,
        confirmed_at: None,
        refused_at: None,
        created_at: 0,
    }
}

fn transfer(id: i32, sender: Person, amount: i64) -> Transfer {
    Transfer {
        id,
        sender,
        receiver: sender.other(),
        date: Date::new(2024, 3, 5).unwrap(),
        amount,
        confirmed_at: None,
        refused_at: None,
        created_at: 0,
    }
}

fn db(expenses: Vec<Expense>, transfers: Vec<Transfer>) -> Db {
    Db::load(Vec::new(), expenses, transfers).unwrap()
}

#[test]
fn a_confirmed_expense_is_owed_for_sure() {
    let e = Expense { confirmed_at: Some(1), ..expense(1, Person::Ale, Person::Ale, 100, 40) };
    let db = db(vec![e], Vec::new());
    assert_eq!(total_owed(&db, Person::Ale), Ok(TotalOwed { definitely: 40, maybe: 0 }));
    assert_eq!(total_owed(&db, Person::Lu), Ok(TotalOwed { definitely: -40, maybe: 0 }));
}

#[test]
fn an_open_expense_is_owed_perhaps() {
    let db = db(vec![expense(1, Person::Ale, Person::Ale, 100, 40)], Vec::new());
    assert_eq!(total_owed(&db, Person::Ale), Ok(TotalOwed { definitely: 0, maybe: 40 }));
    assert_eq!(total_owed(&db, Person::Lu), Ok(TotalOwed { definitely: 0, maybe: -40 }));
}

#[test]
fn a_refused_expense_is_not_owed() {
    let e = Expense { refused_at: Some(1), ..expense(1, Person::Ale, Person::Ale, 100, 40) };
    let db = db(vec![e], Vec::new());
    assert_eq!(total_owed(&db, Person::Ale), Ok(TotalOwed { definitely: 0, maybe: 0 }));
    assert_eq!(total_owed(&db, Person::Lu), Ok(TotalOwed { definitely: 0, maybe: 0 }));
}

#[test]
fn the_payer_counts_not_the_creator() {
    let e = Expense { confirmed_at: Some(1), ..expense(1, Person::Ale, Person::Lu, 100, 40) };
    let db = db(vec![e], Vec::new());
    assert_eq!(total_owed(&db, Person::Lu), Ok(TotalOwed { definitely: 40, maybe: 0 }));
    assert_eq!(total_owed(&db, Person::Ale), Ok(TotalOwed { definitely: -40, maybe: 0 }));
}

#[test]
fn transfers_count_in_favour_of_the_sender() {
    let sent = Transfer { confirmed_at: Some(1), ..transfer(1, Person::Lu, 25) };
    let db = db(Vec::new(), vec![sent, transfer(2, Person::Ale, 7)]);
    assert_eq!(total_owed(&db, Person::Lu), Ok(TotalOwed { definitely: 25, maybe: -7 }));
    assert_eq!(total_owed(&db, Person::Ale), Ok(TotalOwed { definitely: -25, maybe: 7 }));
}

#[test]
fn balances_add_up_over_both_tables() {
    let expenses = vec![
        Expense { confirmed_at: Some(1), ..expense(1, Person::Ale, Person::Ale, 100, 40) },
        Expense { confirmed_at: Some(1), ..expense(2, Person::Lu, Person::Lu, 90, 30) },
        expense(3, Person::Lu, Person::Ale, 10, 5),
        Expense { refused_at: Some(1), ..expense(4, Person::Lu, Person::Ale, 1000, 500) },
    ];
    let transfers = vec![
        Transfer { confirmed_at: Some(1), ..transfer(1, Person::Lu, 8) },
        transfer(2, Person::Lu, 3),
        Transfer { refused_at: Some(1), ..transfer(3, Person::Ale, 700) },
    ];
    let db = db(expenses, transfers);
    assert_eq!(total_owed(&db, Person::Ale), Ok(TotalOwed { definitely: 2, maybe: 2 }));
    assert_eq!(total_owed(&db, Person::Lu), Ok(TotalOwed { definitely: -2, maybe: -2 }));
}

#[test]
fn an_empty_ledger_owes_nothing() {
    let db = Db::new();
    assert_eq!(total_owed(&db, Person::Ale), Ok(TotalOwed { definitely: 0, maybe: 0 }));
    assert_eq!(resolvable_count(&db, Person::Ale), Ok(ResolvableCount { by_other: 0, by_you: 0 }));
}

#[test]
fn a_balance_beyond_the_column_fails() {
    let big = |id| Expense {
        confirmed_at: Some(1),
        ..expense(id, Person::Ale, Person::Ale, i64::MAX, i64::MAX)
    };
    let db1 = db(vec![big(1), big(2)], Vec::new());
    assert_eq!(total_owed(&db1, Person::Ale), Err(Error::OutOfRange));
    assert_eq!(total_owed(&db1, Person::Lu), Err(Error::OutOfRange));
    assert_eq!(
        get(&db1, Session { who: Person::Ale, id: 1 }),
        Err(StatusCode::InternalServerError)
    );
    let back = Transfer { confirmed_at: Some(1), ..transfer(1, Person::Lu, i64::MAX) };
    let db2 = db(vec![big(1), big(2)], vec![back]);
    assert_eq!(
        total_owed(&db2, Person::Ale),
        Ok(TotalOwed { definitely: i64::MAX, maybe: 0 })
    );
    let least = Expense {
        confirmed_at: Some(1),
        ..expense(1, Person::Ale, Person::Ale, 0, i64::MIN)
    };
    let db3 = db(vec![least], Vec::new());
    assert_eq!(
        total_owed(&db3, Person::Ale),
        Ok(TotalOwed { definitely: i64::MIN, maybe: 0 })
    );
    assert_eq!(total_owed(&db3, Person::Lu), Err(Error::OutOfRange));
}

#[test]
fn open_entries_are_counted_by_who_entered_them() {
    let expenses = vec![
        expense(1, Person::Ale, Person::Lu, 100, 40),
        expense(2, Person::Ale, Person::Ale, 100, 40),
        expense(3, Person::Lu, Person::Ale, 100, 40),
        Expense { confirmed_at: Some(1), ..expense(4, Person::Lu, Person::Lu, 90, 30) },
        Expense { refused_at: Some(1), ..expense(5, Person::Ale, Person::Lu, 90, 30) },
    ];
    let transfers = vec![
        transfer(1, Person::Lu, 8),
        transfer(2, Person::Lu, 8),
        Transfer { confirmed_at: Some(1), ..transfer(3, Person::Ale, 8) },
    ];
    let db = db(expenses, transfers);
    assert_eq!(resolvable_count(&db, Person::Ale), Ok(ResolvableCount { by_other: 2, by_you: 3 }));
    assert_eq!(resolvable_count(&db, Person::Lu), Ok(ResolvableCount { by_other: 3, by_you: 2 }));
}

#[test]
fn the_summary_puts_both_together() {
    let expenses = vec![
        Expense { confirmed_at: Some(1), ..expense(1, Person::Ale, Person::Ale, 100, 40) },
        expense(2, Person::Lu, Person::Lu, 50, 20),
    ];
    let db = db(expenses, vec![transfer(1, Person::Ale, 5)]);
    assert_eq!(
        get(&db, Session { who: Person::Ale, id: 9 }),
        Ok(GetResponse {
            me: Person::Ale,
            owed_maybe: -15,
            owed_definitely: 40,
            pending_you: 1,
            pending_other: 1,
        })
    );
    assert_eq!(
        get(&db, Session { who: Person::Lu, id: 9 }),
        Ok(GetResponse {
            me: Person::Lu,
            owed_maybe: 15,
            owed_definitely: -40,
            pending_you: 1,
            pending_other: 1,
        })
    );
}
