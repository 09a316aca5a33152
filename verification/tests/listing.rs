use pair_ledger::auth::Session;
use pair_ledger::date::Date;
use pair_ledger::queries::expense::Expense;
use pair_ledger::queries::transfer::Transfer;
use pair_ledger::queries::{Db, Label, Person, Split};
use pair_ledger::routes::list::{
    assemble, by_month, draw, generate, ExpenseItem, Filter, Item, Line, Month, Response,
    TransferItem,
};
use pair_ledger::routes::StatusCode;

fn ale() -> Session {
    Session { who: Person::Ale, id: 1 }
}

fn lu() -> Session {
    Session { who: Person::Lu, id: 2 }
}

fn day(year: i32, month: u8, day: u8) -> Date {
    Date::new(year, month, day).unwrap()
}

fn expense(id: i32, date: Date, created_at: i64, paid: i64, owed: i64) -> Expense {
    Expense {
        id,
        creator: Person::Ale,
        payer: Person::Ale,
        split: Split::Arbitrary,
        label: Label::Market,
        detail: None,
        date,
        paid,
        owed,
        confirmed_at: Some(1),
        refused_at: None,
        created_at,
    }
}

fn transfer(id: i32, date: Date, created_at: i64, amount: i64) -> Transfer {
    Transfer {
        id,
        sender: Person::Lu,
        receiver: Person::Ale,
        date,
        amount,
        confirmed_at: Some(1),
        refused_at: None,
        created_at,
    }
}

fn everything() -> Filter {
    Filter { labels: None }
}

fn ids(items: &[Item]) -> Vec<(char, i32)> {
    items
        .iter()
        .map(|item| match item {
            Item::Expense(e) => ('e', e.id),
            Item::Transfer(t) => ('t', t.id),
        })
        .collect()
}

#[test]
fn an_empty_ledger_lists_nothing() {
    let listing = generate(&Db::new(), ale(), &everything()).unwrap();
    assert_eq!(listing, Response { pendings: Vec::new(), months: Vec::new() });
}

#[test]
fn one_confirmed_expense_is_shown_to_both() {
    let e = Expense {
        detail: Some(String::from("bread")),
        ..expense(1, day(2024, 3, 5), 10, 100, 40)
    };
    let db = Db::load(Vec::new(), vec![e], Vec::new()).unwrap();
    let shown = |yours: bool, spent: i64| {
        Item::Expense(ExpenseItem {
            id: 1,
            yours,
            payer: Person::Ale,
            split: Split::Arbitrary,
            label: Label::Market,
            detail: Some(String::from("bread")),
            date: String::from("2024-03-05"),
            paid: 100,
            spent,
            confirmed: true,
            refused: false,
        })
    };
    assert_eq!(
        generate(&db, ale(), &everything()),
        Ok(Response {
            pendings: Vec::new(),
            months: vec![Month {
                n: 2024 * 12 + 2,
                spent_me: 60,
                spent_we: 100,
                items: vec![shown(true, 60)],
            }],
        })
    );
    assert_eq!(
        generate(&db, lu(), &everything()),
        Ok(Response {
            pendings: Vec::new(),
            months: vec![Month {
                n: 2024 * 12 + 2,
                spent_me: 40,
                spent_we: 100,
                items: vec![shown(false, 40)],
            }],
        })
    );
}

#[test]
fn a_transfer_is_shown_and_adds_nothing_to_the_sums() {
    let db = Db::load(Vec::new(), Vec::new(), vec![transfer(4, day(2023, 12, 31), 10, 55)])
        .unwrap();
    assert_eq!(
        generate(&db, ale(), &everything()),
        Ok(Response {
            pendings: Vec::new(),
            months: vec![Month {
                n: 2023 * 12 + 11,
                spent_me: 0,
                spent_we: 0,
                items: vec![Item::Transfer(TransferItem {
                    id: 4,
                    yours: false,
                    date: String::from("2023-12-31"),
                    amount: 55,
                    confirmed: true,
                    refused: false,
                })],
            }],
        })
    );
    let listing = generate(&db, lu(), &everything()).unwrap();
    match &listing.months[0].items[0] {
        Item::Transfer(t) => assert!(t.yours),
        Item::Expense(_) => panic!("a transfer was listed as an expense"),
    }
}

#[test]
fn entries_come_newest_first_month_by_month() {
    let expenses = vec![
        expense(1, day(2024, 3, 5), 10, 100, 40),
        expense(2, day(2024, 4, 1), 20, 10, 5),
        expense(3, day(2024, 3, 20), 30, 1, 0),
        expense(4, day(2023, 3, 20), 40, 7, 7),
    ];
    let transfers = vec![
        transfer(1, day(2024, 3, 5), 11, 9),
        transfer(2, day(2024, 3, 31), 5, 9),
    ];
    let db = Db::load(Vec::new(), expenses, transfers).unwrap();
    let listing = generate(&db, ale(), &everything()).unwrap();
    assert!(listing.pendings.is_empty());
    let months: Vec<(i32, Vec<(char, i32)>)> =
        listing.months.iter().map(|m| (m.n, ids(&m.items))).collect();
    assert_eq!(
        months,
        vec![
            (2024 * 12 + 3, vec![('e', 2)]),
            (2024 * 12 + 2, vec![('t', 2), ('e', 3), ('t', 1), ('e', 1)]),
            (2023 * 12 + 2, vec![('e', 4)]),
        ]
    );
    let sums: Vec<(u64, u64)> = listing.months.iter().map(|m| (m.spent_me, m.spent_we)).collect();
    assert_eq!(sums, vec![(5, 10), (61, 101), (0, 7)]);
}

#[test]
fn entries_of_one_instant_come_transfers_first_last_entered_first() {
    let expenses = vec![
        expense(1, day(2024, 3, 5), 10, 1, 0),
        expense(2, day(2024, 3, 5), 10, 1, 0),
    ];
    let transfers = vec![
        transfer(1, day(2024, 3, 5), 10, 9),
        transfer(2, day(2024, 3, 5), 10, 9),
    ];
    let db = Db::load(Vec::new(), expenses, transfers).unwrap();
    let listing = generate(&db, ale(), &everything()).unwrap();
    assert_eq!(ids(&listing.months[0].items), vec![('t', 2), ('t', 1), ('e', 2), ('e', 1)]);
}

#[test]
fn open_entries_are_listed_apart() {
    let open = |e: Expense| Expense { confirmed_at: None, ..e };
    let expenses = vec![
        expense(1, day(2024, 3, 5), 10, 100, 40),
        open(expense(2, day(2024, 3, 6), 20, 10, 5)),
        open(expense(3, day(2023, 1, 1), 30, 10, 5)),
        Expense {
            confirmed_at: None,
            refused_at: Some(3),
            ..expense(4, day(2024, 3, 7), 40, 1000, 500)
        },
    ];
    let transfers = vec![Transfer {
        confirmed_at: None,
        ..transfer(1, day(2024, 5, 5), 11, 9)
    }];
    let db = Db::load(Vec::new(), expenses, transfers).unwrap();
    let listing = generate(&db, ale(), &everything()).unwrap();
    assert_eq!(ids(&listing.pendings), vec![('t', 1), ('e', 2), ('e', 3)]);
    let months: Vec<(i32, Vec<(char, i32)>, u64, u64)> = listing
        .months
        .iter()
        .map(|m| (m.n, ids(&m.items), m.spent_me, m.spent_we))
        .collect();
    assert_eq!(
        months,
        vec![
            (2024 * 12 + 4, vec![], 0, 0),
            (2024 * 12 + 2, vec![('e', 4), ('e', 1)], 60, 100),
            (2023 * 12, vec![], 0, 0),
        ]
    );
    match &listing.months[1].items[0] {
        Item::Expense(e) => assert!(e.refused && !e.confirmed),
        Item::Transfer(_) => panic!("an expense was listed as a transfer"),
    }
}

#[test]
fn a_month_appears_again_after_another() {
    let lines = |month: i32| Line {
        month,
        spent: 1,
        paid: 2,
        pending: false,
        confirmed: true,
        item: Item::Transfer(TransferItem {
            id: month,
            yours: true,
            date: String::new(),
            amount: 0,
            confirmed: true,
            refused: false,
        }),
    };
    let key = (2024, 1, 1, 0);
    let listing = vec![(key, lines(5)), (key, lines(5)), (key, lines(4)), (key, lines(5))];
    let monthly = by_month(listing);
    assert_eq!(monthly.iter().map(|m| m.0).collect::<Vec<i32>>(), vec![5, 5, 4, 5]);
    let groups = vec![
        (5, vec![lines(5), lines(5)]),
        (4, vec![lines(4)]),
        (5, vec![lines(5)]),
    ];
    let listing = assemble(groups).unwrap();
    let months: Vec<(i32, u64, u64, usize)> = listing
        .months
        .iter()
        .map(|m| (m.n, m.spent_me, m.spent_we, m.items.len()))
        .collect();
    assert_eq!(months, vec![(5, 2, 4, 2), (4, 1, 2, 1), (5, 1, 2, 1)]);
}

#[test]
fn a_waiting_line_adds_nothing_to_the_sums() {
    let line = |pending: bool, confirmed: bool, id: i32| Line {
        month: 1,
        spent: 10,
        paid: 20,
        pending,
        confirmed,
        item: Item::Transfer(TransferItem {
            id,
            yours: true,
            date: String::new(),
            amount: 0,
            confirmed,
            refused: false,
        }),
    };
    let groups = vec![(
        1,
        vec![line(true, true, 1), line(false, true, 2), line(true, false, 3), line(false, false, 4)],
    )];
    let listing = assemble(groups).unwrap();
    assert_eq!(ids(&listing.pendings), vec![('t', 1), ('t', 3)]);
    assert_eq!(ids(&listing.months[0].items), vec![('t', 2), ('t', 4)]);
    assert_eq!((listing.months[0].spent_me, listing.months[0].spent_we), (10, 20));
}

#[test]
fn labels_pick_expenses_and_drop_transfers() {
    let labelled = |e: Expense, label: Label| Expense { label, ..e };
    let expenses = vec![
        labelled(expense(1, day(2024, 3, 5), 10, 100, 40), Label::Market),
        labelled(expense(2, day(2024, 3, 6), 20, 10, 5), Label::Gas),
        labelled(expense(3, day(2024, 3, 7), 30, 10, 5), Label::Water),
    ];
    let transfers = vec![transfer(1, day(2024, 3, 8), 11, 9)];
    let db = Db::load(Vec::new(), expenses, transfers).unwrap();
    let only = |labels: Vec<Label>| {
        let listing = generate(&db, ale(), &Filter { labels: Some(labels) }).unwrap();
        listing.months.iter().flat_map(|m| ids(&m.items)).collect::<Vec<(char, i32)>>()
    };
    assert_eq!(only(vec![Label::Gas, Label::Market]), vec![('e', 2), ('e', 1)]);
    assert_eq!(only(vec![Label::Water, Label::Water]), vec![('e', 3)]);
    assert_eq!(only(vec![Label::Housing]), vec![]);
    assert_eq!(only(Vec::new()), vec![]);
    let all = generate(&db, ale(), &everything()).unwrap();
    assert_eq!(
        ids(&all.months[0].items),
        vec![('t', 1), ('e', 3), ('e', 2), ('e', 1)]
    );
}

#[test]
fn only_confirmed_expenses_count_as_spent() {
    let expenses = vec![
        expense(1, day(2024, 3, 5), 10, 100, 40),
        Expense {
            confirmed_at: None,
            refused_at: Some(2),
            ..expense(2, day(2024, 3, 6), 20, 1000, 400)
        },
        Expense { payer: Person::Lu, ..expense(3, day(2024, 3, 7), 30, 50, 20) },
    ];
    let db = Db::load(Vec::new(), expenses, Vec::new()).unwrap();
    let for_ale = generate(&db, ale(), &everything()).unwrap();
    assert_eq!((for_ale.months[0].spent_me, for_ale.months[0].spent_we), (80, 150));
    let for_lu = generate(&db, lu(), &everything()).unwrap();
    assert_eq!((for_lu.months[0].spent_me, for_lu.months[0].spent_we), (70, 150));
}

#[test]
fn sums_that_cannot_be_told_fail() {
    let db = Db::load(Vec::new(), vec![expense(1, day(2024, 3, 5), 10, -100, -40)], Vec::new())
        .unwrap();
    assert_eq!(generate(&db, ale(), &everything()), Err(StatusCode::InternalServerError));
    let db = Db::load(Vec::new(), vec![expense(1, day(2024, 3, 5), 10, i64::MAX, -1)], Vec::new())
        .unwrap();
    assert_eq!(generate(&db, ale(), &everything()), Err(StatusCode::InternalServerError));
    assert_eq!(draw(&db, Person::Ale, &None).err(), Some(StatusCode::InternalServerError));
    assert!(draw(&db, Person::Lu, &None).is_ok());
    let open = Expense { confirmed_at: None, ..expense(1, day(2024, 3, 5), 10, -100, -40) };
    let db = Db::load(Vec::new(), vec![open], Vec::new()).unwrap();
    assert!(generate(&db, ale(), &everything()).is_ok());
}

#[test]
fn large_sums_are_told_in_full() {
    let expenses = vec![
        expense(1, day(2024, 3, 5), 10, i64::MAX, 0),
        expense(2, day(2024, 3, 6), 20, i64::MAX, 0),
    ];
    let db = Db::load(Vec::new(), expenses, Vec::new()).unwrap();
    let listing = generate(&db, ale(), &everything()).unwrap();
    assert_eq!(listing.months[0].spent_me, 2 * (i64::MAX as u64));
    assert_eq!(listing.months[0].spent_we, u64::MAX - 1);
}

#[test]
fn lines_are_drawn_in_the_order_of_the_tables() {
    let expenses = vec![
        expense(1, day(2024, 3, 5), 10, 100, 40),
        expense(2, day(2022, 3, 5), 20, 100, 40),
    ];
    let transfers = vec![transfer(1, day(2023, 3, 5), 30, 9)];
    let db = Db::load(Vec::new(), expenses, transfers).unwrap();
    let lines = draw(&db, Person::Lu, &None).unwrap();
    let keys: Vec<(i32, u8, u8, i64)> = lines.iter().map(|l| l.0).collect();
    assert_eq!(keys, vec![(2024, 3, 5, 10), (2022, 3, 5, 20), (2023, 3, 5, 30)]);
    assert_eq!(lines[0].1.spent, 40);
    assert_eq!(lines[0].1.month, 2024 * 12 + 2);
    assert_eq!(lines[2].1.spent, 0);
    assert_eq!(lines[2].1.paid, 0);
}

fn next(seed: &mut u64) -> u64 {
    *seed = seed.wrapping_mul(6364136223846793005).wrapping_add(1442695040888963407);
    *seed >> 33
}

#[test]
fn the_listing_agrees_with_a_plain_sort() {
    let mut seed = 7u64;
    let mut expenses = Vec::new();
    let mut transfers = Vec::new();
    for id in 1..=60 {
        let date = day(2023 + (next(&mut seed) % 2) as i32, 1 + (next(&mut seed) % 3) as u8, 1
            + (next(&mut seed) % 4) as u8);
        let created = (next(&mut seed) % 3) as i64;
        let state = next(&mut seed) % 3;
        let paid = (next(&mut seed) % 1000) as i64;
        let owed = (next(&mut seed) % (paid as u64 + 1)) as i64;
        let payer = if next(&mut seed) % 2 == 0 { Person::Ale } else { Person::Lu };
        let e = Expense {
            payer,
            confirmed_at: if state == 0 { Some(1) } else { None },
            refused_at: if state == 1 { Some(1) } else { None },
            ..expense(id, date, created, paid, owed)
        };
        expenses.push(e);
        if id % 3 == 0 {
            let date = day(2023, 1 + (next(&mut seed) % 3) as u8, 1 + (next(&mut seed) % 4) as u8);
            let t = Transfer {
                confirmed_at: if state == 0 { Some(1) } else { None },
                refused_at: if state == 1 { Some(1) } else { None },
                ..transfer(id / 3, date, created, paid)
            };
            transfers.push(t);
        }
    }
    let db = Db::load(Vec::new(), expenses.clone(), transfers.clone()).unwrap();
    let listing = generate(&db, ale(), &everything()).unwrap();

    // (key, month, kind, id, pending, confirmed, spent, paid)
    let mut lines: Vec<((i32, u8, u8, i64), i32, char, i32, bool, bool, i64, i64)> = Vec::new();
    for e in &expenses {
        let spent = if e.payer == Person::Ale { e.paid - e.owed } else { e.owed };
        lines.push((
            (e.date.year, e.date.month, e.date.day, e.created_at),
            e.date.year * 12 + e.date.month as i32 - 1,
            'e',
            e.id,
            e.confirmed_at.is_none() && e.refused_at.is_none(),
            e.confirmed_at.is_some(),
            spent,
            e.paid,
        ));
    }
    for t in &transfers {
        lines.push((
            (t.date.year, t.date.month, t.date.day, t.created_at),
            t.date.year * 12 + t.date.month as i32 - 1,
            't',
            t.id,
            t.confirmed_at.is_none() && t.refused_at.is_none(),
            t.confirmed_at.is_some(),
            0,
            0,
        ));
    }
    lines.sort_by_key(|line| line.0);
    lines.reverse();

    let mut pendings = Vec::new();
    let mut months: Vec<(i32, Vec<(char, i32)>, u64, u64)> = Vec::new();
    for line in &lines {
        if months.last().map(|m| m.0) != Some(line.1) {
            months.push((line.1, Vec::new(), 0, 0));
        }
        if line.4 {
            pendings.push((line.2, line.3));
            continue;
        }
        let month = months.last_mut().unwrap();
        month.1.push((line.2, line.3));
        if line.5 {
            month.2 += line.6 as u64;
            month.3 += line.7 as u64;
        }
    }
    assert_eq!(ids(&listing.pendings), pendings);
    let listed: Vec<(i32, Vec<(char, i32)>, u64, u64)> = listing
        .months
        .iter()
        .map(|m| (m.n, ids(&m.items), m.spent_me, m.spent_we))
        .collect();
    assert_eq!(listed, months);
    assert!(listed.len() > 3);
    assert!(!pendings.is_empty());
}
