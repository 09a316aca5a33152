//! Balances and counts over the whole ledger.

use super::expense::Expense;
use super::transfer::Transfer;
use super::{Db, Error, Person};
use vstd::prelude::*;

verus! {

/// What the other person owes `by`, in the smallest unit of the currency;
/// negative where `by` owes. `definitely` counts confirmed entries, `maybe`
/// those that are neither confirmed nor refused.
#[derive(Debug, Clone, Copy, PartialEq, Eq, Structural)]
pub struct TotalOwed {
    pub definitely: i64,
    pub maybe: i64,
}

/// How many entries wait for an answer: `by_other` those that you entered,
/// `by_you` those that the other person entered.
#[derive(Debug, Clone, Copy, PartialEq, Eq, Structural)]
pub struct ResolvableCount {
    pub by_other: i64,
    pub by_you: i64,
}

/// What one expense adds to the balance of `by`: the owed amount, in favour of
/// the one who paid. Nothing if it is refused, or not in the bucket asked for.
pub open spec fn expense_share(e: Expense, by: Person, confirmed: bool) -> int {
    if e.refused_at is Some || (e.confirmed_at is Some) != confirmed {
        0
    } else if e.payer == by {
        e.owed as int
    } else {
        -e.owed
    }
}

/// What one transfer adds to the balance of `by`: its amount, in favour of the sender.
pub open spec fn transfer_share(t: Transfer, by: Person, confirmed: bool) -> int {
    if t.refused_at is Some || (t.confirmed_at is Some) != confirmed {
        0
    } else if t.sender == by {
        t.amount as int
    } else {
        -t.amount
    }
}

/// The sum of the shares of all expenses.
pub open spec fn expense_balance(rows: Seq<Expense>, by: Person, confirmed: bool) -> int
    decreases rows.len(),
{
    if rows.len() == 0 {
        0
    } else {
        expense_balance(rows.drop_last(), by, confirmed) + expense_share(
            rows.last(),
            by,
            confirmed,
        )
    }
}

/// The sum of the shares of all transfers.
pub open spec fn transfer_balance(rows: Seq<Transfer>, by: Person, confirmed: bool) -> int
    decreases rows.len(),
{
    if rows.len() == 0 {
        0
    } else {
        transfer_balance(rows.drop_last(), by, confirmed) + transfer_share(
            rows.last(),
            by,
            confirmed,
        )
    }
}

/// The balance of `by` over both tables, confirmed entries or open ones.
pub open spec fn balance(
    expenses: Seq<Expense>,
    transfers: Seq<Transfer>,
    by: Person,
    confirmed: bool,
) -> int {
    expense_balance(expenses, by, confirmed) + transfer_balance(transfers, by, confirmed)
}

/// How many expenses are neither confirmed nor refused and were entered by
/// `who` (`mine`), or by the other person (`!mine`).
pub open spec fn open_expenses(rows: Seq<Expense>, who: Person, mine: bool) -> nat
    decreases rows.len(),
{
    if rows.len() == 0 {
        0
    } else {
        let e = rows.last();
        let hit: nat = if e.pending() && (e.creator == who) == mine {
            1
        } else {
            0
        };
        open_expenses(rows.drop_last(), who, mine) + hit
    }
}

/// How many transfers are neither confirmed nor refused and were sent by
/// `who` (`mine`), or by the other person (`!mine`).
pub open spec fn open_transfers(rows: Seq<Transfer>, who: Person, mine: bool) -> nat
    decreases rows.len(),
{
    if rows.len() == 0 {
        0
    } else {
        let t = rows.last();
        let hit: nat = if t.pending() && (t.sender == who) == mine {
            1
        } else {
            0
        };
        open_transfers(rows.drop_last(), who, mine) + hit
    }
}

/// How many entries of both tables are open, entered by `who` or by the other.
pub open spec fn open_entries(
    expenses: Seq<Expense>,
    transfers: Seq<Transfer>,
    who: Person,
    mine: bool,
) -> nat {
    open_expenses(expenses, who, mine) + open_transfers(transfers, who, mine)
}

/// No sum of as many amounts as a table can hold rows goes beyond this.
pub const BOUND: i128 = 0x7fff_ffff_ffff_ffff_8000_0000_0000_0000;

/// Whether `v` is an amount that a column can hold.
pub open spec fn fits(v: int) -> bool {
    i64::MIN <= v <= i64::MAX
}

/// An expense that nobody has answered adds to the open balance alone: what
/// is owed, in favour of the one who paid.
pub proof fn law_open_expense_counts_as_maybe(rows: Seq<Expense>, e: Expense, by: Person)
    requires
        e.pending(),
    ensures
        expense_balance(rows.push(e), by, true) == expense_balance(rows, by, true),
        expense_balance(rows.push(e), by, false) == expense_balance(rows, by, false) + if e.payer
            == by {
            e.owed as int
        } else {
            -e.owed
        },
{
    assert(rows.push(e).drop_last() =~= rows);
}

/// A confirmed expense adds to the sure balance alone: what is owed, in
/// favour of the one who paid.
pub proof fn law_confirmed_expense_counts_as_definite(rows: Seq<Expense>, e: Expense, by: Person)
    requires
        e.confirmed_at is Some,
        e.refused_at is None,
    ensures
        expense_balance(rows.push(e), by, false) == expense_balance(rows, by, false),
        expense_balance(rows.push(e), by, true) == expense_balance(rows, by, true) + if e.payer
            == by {
            e.owed as int
        } else {
            -e.owed
        },
{
    assert(rows.push(e).drop_last() =~= rows);
}

/// A refused entry adds nothing to either balance.
pub proof fn law_refused_expense_counts_for_nothing(
    rows: Seq<Expense>,
    e: Expense,
    by: Person,
    confirmed: bool,
)
    requires
        e.refused_at is Some,
    ensures
        expense_balance(rows.push(e), by, confirmed) == expense_balance(rows, by, confirmed),
{
    assert(rows.push(e).drop_last() =~= rows);
}

/// What one person is owed, the other owes.
pub proof fn law_balances_cancel(
    expenses: Seq<Expense>,
    transfers: Seq<Transfer>,
    by: Person,
    confirmed: bool,
)
    ensures
        balance(expenses, transfers, by.flip(), confirmed) == -balance(
            expenses,
            transfers,
            by,
            confirmed,
        ),
    decreases expenses.len() + transfers.len(),
{
    if expenses.len() > 0 {
        law_balances_cancel(expenses.drop_last(), transfers, by, confirmed);
    } else if transfers.len() > 0 {
        law_balances_cancel(expenses, transfers.drop_last(), by, confirmed);
    }
}

/// The balances of `by` over the expenses: confirmed ones and open ones.
fn expense_sums(rows: &Vec<Expense>, by: Person) -> (r: (i128, i128))
    ensures
        r.0 == expense_balance(rows@, by, true),
        r.1 == expense_balance(rows@, by, false),
        -BOUND <= r.0 <= BOUND,
        -BOUND <= r.1 <= BOUND,
{
    let mut sure: i128 = 0;
    let mut open: i128 = 0;
    let mut i: usize = 0;
    while i < rows.len()
        invariant
            i <= rows.len(),
            sure == expense_balance(rows@.subrange(0, i as int), by, true),
            open == expense_balance(rows@.subrange(0, i as int), by, false),
            -(i * 0x8000_0000_0000_0000) <= sure <= i * 0x8000_0000_0000_0000,
            -(i * 0x8000_0000_0000_0000) <= open <= i * 0x8000_0000_0000_0000,
        decreases rows.len() - i,
    {
        let e = &rows[i];
        assert(rows@.subrange(0, i + 1).drop_last() =~= rows@.subrange(0, i as int));
        if e.refused_at.is_none() {
            let signed: i128 = if e.payer == by {
                e.owed as i128
            } else {
                0 - (e.owed as i128)
            };
            if e.confirmed_at.is_some() {
                sure = sure + signed;
            } else {
                open = open + signed;
            }
        }
        i = i + 1;
    }
    assert(rows@.subrange(0, i as int) =~= rows@);
    (sure, open)
}

/// The balances of `by` over the transfers: confirmed ones and open ones.
fn transfer_sums(rows: &Vec<Transfer>, by: Person) -> (r: (i128, i128))
    ensures
        r.0 == transfer_balance(rows@, by, true),
        r.1 == transfer_balance(rows@, by, false),
        -BOUND <= r.0 <= BOUND,
        -BOUND <= r.1 <= BOUND,
{
    let mut sure: i128 = 0;
    let mut open: i128 = 0;
    let mut i: usize = 0;
    while i < rows.len()
        invariant
            i <= rows.len(),
            sure == transfer_balance(rows@.subrange(0, i as int), by, true),
            open == transfer_balance(rows@.subrange(0, i as int), by, false),
            -(i * 0x8000_0000_0000_0000) <= sure <= i * 0x8000_0000_0000_0000,
            -(i * 0x8000_0000_0000_0000) <= open <= i * 0x8000_0000_0000_0000,
        decreases rows.len() - i,
    {
        let t = &rows[i];
        assert(rows@.subrange(0, i + 1).drop_last() =~= rows@.subrange(0, i as int));
        if t.refused_at.is_none() {
            let signed: i128 = if t.sender == by {
                t.amount as i128
            } else {
                0 - (t.amount as i128)
            };
            if t.confirmed_at.is_some() {
                sure = sure + signed;
            } else {
                open = open + signed;
            }
        }
        i = i + 1;
    }
    assert(rows@.subrange(0, i as int) =~= rows@);
    (sure, open)
}

/// The sum of two partial balances as an amount, if it is one.
fn amount(a: i128, b: i128) -> (r: Option<i64>)
    ensures
        match r {
            Some(v) => v == a + b,
            None => !fits(a + b),
        },
{
    match a.checked_add(b) {
        Some(sum) => {
            if sum < -0x8000_0000_0000_0000 || sum > 0x7fff_ffff_ffff_ffff {
                None
            } else {
                Some(sum as i64)
            }
        },
        None => None,
    }
}

/// What the other person owes `by`. Fails where a balance is no amount.
pub fn total_owed(db: &Db, by: Person) -> (r: Result<TotalOwed, Error>)
    ensures
        match r {
            Ok(total) => {
                &&& total.definitely == balance(db.expenses@, db.transfers@, by, true)
                &&& total.maybe == balance(db.expenses@, db.transfers@, by, false)
            },
            Err(e) => {
                &&& e == Error::OutOfRange
                &&& !fits(balance(db.expenses@, db.transfers@, by, true)) || !fits(
                    balance(db.expenses@, db.transfers@, by, false),
                )
            },
        },
{
    let (e_sure, e_open) = expense_sums(&db.expenses, by);
    let (t_sure, t_open) = transfer_sums(&db.transfers, by);
    match (amount(e_sure, t_sure), amount(e_open, t_open)) {
        (Some(definitely), Some(maybe)) => Ok(TotalOwed { definitely, maybe }),
        _ => Err(Error::OutOfRange),
    }
}

/// The open expenses entered by `me` and by the other person.
fn expense_counts(rows: &Vec<Expense>, me: Person) -> (r: (usize, usize))
    ensures
        r.0 == open_expenses(rows@, me, true),
        r.1 == open_expenses(rows@, me, false),
{
    let mut mine: usize = 0;
    let mut theirs: usize = 0;
    let mut i: usize = 0;
    while i < rows.len()
        invariant
            i <= rows.len(),
            mine <= i && theirs <= i,
            mine == open_expenses(rows@.subrange(0, i as int), me, true),
            theirs == open_expenses(rows@.subrange(0, i as int), me, false),
        decreases rows.len() - i,
    {
        let e = &rows[i];
        assert(rows@.subrange(0, i + 1).drop_last() =~= rows@.subrange(0, i as int));
        if e.confirmed_at.is_none() && e.refused_at.is_none() {
            if e.creator == me {
                mine = mine + 1;
            } else {
                theirs = theirs + 1;
            }
        }
        i = i + 1;
    }
    assert(rows@.subrange(0, i as int) =~= rows@);
    (mine, theirs)
}

/// The open transfers sent by `me` and by the other person.
fn transfer_counts(rows: &Vec<Transfer>, me: Person) -> (r: (usize, usize))
    ensures
        r.0 == open_transfers(rows@, me, true),
        r.1 == open_transfers(rows@, me, false),
{
    let mut mine: usize = 0;
    let mut theirs: usize = 0;
    let mut i: usize = 0;
    while i < rows.len()
        invariant
            i <= rows.len(),
            mine <= i && theirs <= i,
            mine == open_transfers(rows@.subrange(0, i as int), me, true),
            theirs == open_transfers(rows@.subrange(0, i as int), me, false),
        decreases rows.len() - i,
    {
        let t = &rows[i];
        assert(rows@.subrange(0, i + 1).drop_last() =~= rows@.subrange(0, i as int));
        if t.confirmed_at.is_none() && t.refused_at.is_none() {
            if t.sender == me {
                mine = mine + 1;
            } else {
                theirs = theirs + 1;
            }
        }
        i = i + 1;
    }
    assert(rows@.subrange(0, i as int) =~= rows@);
    (mine, theirs)
}

/// How many entries wait for the other person and how many for `me`. Fails
/// where a count is no amount.
pub fn resolvable_count(db: &Db, me: Person) -> (r: Result<ResolvableCount, Error>)
    ensures
        match r {
            Ok(count) => {
                &&& count.by_other == open_entries(db.expenses@, db.transfers@, me, true)
                &&& count.by_you == open_entries(db.expenses@, db.transfers@, me, false)
            },
            Err(e) => {
                &&& e == Error::OutOfRange
                &&& !fits(open_entries(db.expenses@, db.transfers@, me, true) as int) || !fits(
                    open_entries(db.expenses@, db.transfers@, me, false) as int,
                )
            },
        },
{
    let (e_mine, e_theirs) = expense_counts(&db.expenses, me);
    let (t_mine, t_theirs) = transfer_counts(&db.transfers, me);
    match (amount(e_mine as i128, t_mine as i128), amount(e_theirs as i128, t_theirs as i128)) {
        (Some(by_other), Some(by_you)) => Ok(ResolvableCount { by_other, by_you }),
        _ => Err(Error::OutOfRange),
    }
}

} // verus!
