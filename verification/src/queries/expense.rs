//! Expenses that one person paid for both. Whoever did not enter an expense approves it.

use super::approval::{confirmed, refused, resolvable_by, Answerable};
use super::{fresh_id, lemma_ordered_push, next_id, ordered, Db, Error, Label, Person, Row, Split};
use crate::date::Date;
use crate::order::Key;
use vstd::prelude::*;

verus! {

/// One expense. The times are set once and never cleared.
#[derive(Debug, Clone, PartialEq, Eq)]
pub struct Expense {
    pub id: i32,
    pub creator: Person,
    pub payer: Person,
    pub split: Split,
    pub label: Label,
    pub detail: Option<String>,
    pub date: Date,
    pub paid: i64,
    pub owed: i64,
    pub confirmed_at: Option<i64>,
    pub refused_at: Option<i64>,
    pub created_at: i64,
}

impl Row for Expense {
    open spec fn ident(&self) -> i32 {
        self.id
    }

    fn id(&self) -> (id: i32) {
        self.id
    }
}

impl Answerable for Expense {
    type Caller = Person;

    open spec fn confirmation(&self) -> Option<i64> {
        self.confirmed_at
    }

    open spec fn refusal(&self) -> Option<i64> {
        self.refused_at
    }

    /// An expense takes the answer of whoever did not enter it.
    open spec fn asks(&self, by: Person) -> bool {
        self.creator != by
    }

    open spec fn once_confirmed(self, now: i64) -> Self {
        Expense { confirmed_at: Some(now), ..self }
    }

    open spec fn once_refused(self, now: i64) -> Self {
        Expense { refused_at: Some(now), ..self }
    }

    proof fn lemma_answers(self, now: i64) {
    }

    fn is_open(&self) -> (open: bool) {
        self.confirmed_at.is_none() && self.refused_at.is_none()
    }

    fn is_asked(&self, by: &Person) -> (asked: bool) {
        self.creator != *by
    }

    fn set_confirmed(&mut self, now: i64) {
        self.confirmed_at = Some(now);
    }

    fn set_refused(&mut self, now: i64) {
        self.refused_at = Some(now);
    }
}

impl Expense {
    /// Not both confirmed and refused, on a day of the calendar.
    pub open spec fn consistent(self) -> bool {
        &&& !(self.confirmed_at is Some && self.refused_at is Some)
        &&& self.date.valid()
    }

    /// Neither confirmed nor refused.
    pub open spec fn pending(self) -> bool {
        self.confirmed_at is None && self.refused_at is None
    }

    /// What the expense is ordered by.
    pub open spec fn key(self) -> Key {
        (self.date.year, self.date.month, self.date.day, self.created_at)
    }

    /// Whether this is the row `before` at a later time: the same expense,
    /// with every time that was set still as it was.
    pub open spec fn follows(self, before: Expense) -> bool {
        &&& self == Expense {
            confirmed_at: self.confirmed_at,
            refused_at: self.refused_at,
            ..before
        }
        &&& before.confirmed_at is Some ==> self.confirmed_at == before.confirmed_at
        &&& before.refused_at is Some ==> self.refused_at == before.refused_at
    }
}

/// Whether `after` is the table `before` at a later time: no row is gone, and
/// each row follows the one it was.
pub open spec fn keeps(before: Seq<Expense>, after: Seq<Expense>) -> bool {
    &&& before.len() <= after.len()
    &&& forall|i: int| 0 <= i < before.len() ==> (#[trigger] after[i]).follows(before[i])
}

/// Ids grow along the table and every row is consistent.
pub open spec fn well_formed(rows: Seq<Expense>) -> bool {
    &&& ordered(rows)
    &&& forall|i: int| 0 <= i < rows.len() ==> (#[trigger] rows[i]).consistent()
}

/// What is entered with an expense.
#[derive(Debug, Clone, PartialEq, Eq)]
pub struct Entry {
    pub creator: Person,
    pub payer: Person,
    pub split: Split,
    pub label: Label,
    pub detail: Option<String>,
    pub date: Date,
    pub paid: i64,
    pub owed: i64,
}

/// The row that `entry` becomes when it is entered at `now`.
pub open spec fn fresh(rows: Seq<Expense>, entry: Entry, now: i64) -> Expense {
    Expense {
        id: next_id(rows) as i32,
        creator: entry.creator,
        payer: entry.payer,
        split: entry.split,
        label: entry.label,
        detail: entry.detail,
        date: entry.date,
        paid: entry.paid,
        owed: entry.owed,
        confirmed_at: None,
        refused_at: None,
        created_at: now,
    }
}

/// The table after `entry` was entered at `now`.
pub open spec fn submitted(rows: Seq<Expense>, entry: Entry, now: i64) -> Seq<Expense> {
    rows.push(fresh(rows, entry, now))
}

/// How many confirmed expenses paid by `payer` under `label` were split as `split`.
pub open spec fn tally(rows: Seq<Expense>, payer: Person, label: Label, split: Split) -> nat
    decreases rows.len(),
{
    if rows.len() == 0 {
        0
    } else {
        let e = rows.last();
        let hit: nat = if e.confirmed_at is Some && e.payer == payer && e.label == label
            && e.split == split {
            1
        } else {
            0
        };
        tally(rows.drop_last(), payer, label, split) + hit
    }
}

/// The split used most often among the confirmed expenses paid by `payer`
/// under `label`; of several used equally often, the one declared first.
pub open spec fn recommended(rows: Seq<Expense>, payer: Person, label: Label) -> Option<Split> {
    let a = tally(rows, payer, label, Split::Proportional2to1);
    let b = tally(rows, payer, label, Split::Proportional3to2);
    let c = tally(rows, payer, label, Split::Arbitrary);
    let d = tally(rows, payer, label, Split::Evenly);
    if a == 0 && b == 0 && c == 0 && d == 0 {
        None
    } else if a >= b && a >= c && a >= d {
        Some(Split::Proportional2to1)
    } else if b >= c && b >= d {
        Some(Split::Proportional3to2)
    } else if c >= d {
        Some(Split::Arbitrary)
    } else {
        Some(Split::Evenly)
    }
}

/// Whether the rows are well formed.
pub fn check(rows: &Vec<Expense>) -> (ok: bool)
    ensures
        ok == well_formed(rows@),
{
    let mut i: usize = 0;
    while i < rows.len()
        invariant
            i <= rows.len(),
            forall|a: int, b: int| 0 <= a < b < i ==> rows@[a].id < rows@[b].id,
            forall|a: int| 0 <= a < i ==> (#[trigger] rows@[a]).consistent(),
        decreases rows.len() - i,
    {
        let e = &rows[i];
        if e.confirmed_at.is_some() && e.refused_at.is_some() {
            return false;
        }
        if Date::new(e.date.year, e.date.month, e.date.day).is_none() {
            return false;
        }
        if i > 0 && rows[i - 1].id >= e.id {
            return false;
        }
        assert forall|a: int, b: int| 0 <= a < b < i + 1 implies rows@[a].id < rows@[b].id by {
            if b == i && a < i - 1 {
                assert(rows@[a].id < rows@[i - 1].id);
            }
        }
        i = i + 1;
    }
    true
}

/// All expenses, in the order they were entered.
pub fn all(db: &Db) -> (r: &Vec<Expense>)
    ensures
        r@ == db.expenses@,
{
    &db.expenses
}

/// Whether `by` may confirm or refuse the expense `id`.
pub fn resolvable(db: &Db, id: i32, by: Person) -> (r: bool)
    requires
        db.wf(),
    ensures
        r == resolvable_by(db.expenses@, id, by),
{
    super::approval::resolvable(&db.expenses, id, &by)
}

/// Enters an expense.
pub fn submit(db: &mut Db, entry: Entry, now: i64) -> (r: Result<i32, Error>)
    requires
        old(db).wf(),
        entry.date.valid(),
    ensures
        final(db).wf(),
        keeps(old(db).expenses@, final(db).expenses@),
        final(db).sessions == old(db).sessions,
        final(db).transfers == old(db).transfers,
        match r {
            Ok(id) => {
                &&& next_id(old(db).expenses@) <= i32::MAX
                &&& id == next_id(old(db).expenses@)
                &&& final(db).expenses@ == submitted(old(db).expenses@, entry, now)
            },
            Err(e) => {
                &&& e == Error::OutOfRange
                &&& next_id(old(db).expenses@) > i32::MAX
                &&& final(db).expenses@ == old(db).expenses@
            },
        },
{
    let id = match fresh_id(&db.expenses) {
        Some(id) => id,
        None => {
            return Err(Error::OutOfRange);
        },
    };
    let row = Expense {
        id,
        creator: entry.creator,
        payer: entry.payer,
        split: entry.split,
        label: entry.label,
        detail: entry.detail,
        date: entry.date,
        paid: entry.paid,
        owed: entry.owed,
        confirmed_at: None,
        refused_at: None,
        created_at: now,
    };
    proof {
        lemma_ordered_push(db.expenses@, row);
    }
    db.expenses.push(row);
    assert(db.expenses@ =~= submitted(old(db).expenses@, entry, now));
    Ok(id)
}

/// Confirms the expense `id` if `by` did not enter it and it is neither
/// confirmed nor refused.
pub fn confirm(db: &mut Db, id: i32, by: Person, now: i64) -> (r: Result<(), Error>)
    requires
        old(db).wf(),
    ensures
        final(db).wf(),
        keeps(old(db).expenses@, final(db).expenses@),
        final(db).sessions == old(db).sessions,
        final(db).transfers == old(db).transfers,
        r is Ok <==> resolvable_by(old(db).expenses@, id, by),
        r is Ok ==> final(db).expenses@ == confirmed(old(db).expenses@, id, now),
        r is Err ==> r == Err::<(), Error>(Error::RowNotFound) && final(db).expenses@ == old(
            db,
        ).expenses@,
{
    super::approval::confirm(&mut db.expenses, id, &by, now)
}

/// Refuses the expense `id` if `by` did not enter it and it is neither
/// confirmed nor refused.
pub fn refuse(db: &mut Db, id: i32, by: Person, now: i64) -> (r: Result<(), Error>)
    requires
        old(db).wf(),
    ensures
        final(db).wf(),
        keeps(old(db).expenses@, final(db).expenses@),
        final(db).sessions == old(db).sessions,
        final(db).transfers == old(db).transfers,
        r is Ok <==> resolvable_by(old(db).expenses@, id, by),
        r is Ok ==> final(db).expenses@ == refused(old(db).expenses@, id, now),
        r is Err ==> r == Err::<(), Error>(Error::RowNotFound) && final(db).expenses@ == old(
            db,
        ).expenses@,
{
    super::approval::refuse(&mut db.expenses, id, &by, now)
}

/// The split to suggest for an expense paid by `payer` under `label`: the one
/// used most often among the confirmed expenses of that kind, if there is any.
pub fn splitrecc(db: &Db, payer: Person, label: Label) -> (r: Option<Split>)
    ensures
        r == recommended(db.expenses@, payer, label),
{
    let mut a: usize = 0;
    let mut b: usize = 0;
    let mut c: usize = 0;
    let mut d: usize = 0;
    let mut i: usize = 0;
    while i < db.expenses.len()
        invariant
            i <= db.expenses.len(),
            a <= i && b <= i && c <= i && d <= i,
            a == tally(db.expenses@.subrange(0, i as int), payer, label, Split::Proportional2to1),
            b == tally(db.expenses@.subrange(0, i as int), payer, label, Split::Proportional3to2),
            c == tally(db.expenses@.subrange(0, i as int), payer, label, Split::Arbitrary),
            d == tally(db.expenses@.subrange(0, i as int), payer, label, Split::Evenly),
        decreases db.expenses.len() - i,
    {
        let e = &db.expenses[i];
        assert(db.expenses@.subrange(0, i + 1).drop_last() =~= db.expenses@.subrange(0, i as int));
        if e.confirmed_at.is_some() && e.payer == payer && e.label == label {
            match e.split {
                Split::Proportional2to1 => {
                    a = a + 1;
                },
                Split::Proportional3to2 => {
                    b = b + 1;
                },
                Split::Arbitrary => {
                    c = c + 1;
                },
                Split::Evenly => {
                    d = d + 1;
                },
            }
        }
        i = i + 1;
    }
    assert(db.expenses@.subrange(0, i as int) =~= db.expenses@);
    if a == 0 && b == 0 && c == 0 && d == 0 {
        None
    } else if a >= b && a >= c && a >= d {
        Some(Split::Proportional2to1)
    } else if b >= c && b >= d {
        Some(Split::Proportional3to2)
    } else if c >= d {
        Some(Split::Arbitrary)
    } else {
        Some(Split::Evenly)
    }
}

} // verus!
