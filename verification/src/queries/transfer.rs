//! Transfers of money from one person to the other. The receiver approves.

use super::approval::{confirmed, refused, resolvable_by, Answerable};
use super::{fresh_id, lemma_ordered_push, next_id, ordered, Db, Error, Person, Row};
use crate::date::Date;
use crate::order::{newest_first, newest_first_sorted, Key};
use vstd::prelude::*;

verus! {

/// One transfer. The times are set once and never cleared.
#[derive(Debug, Clone, Copy, PartialEq, Eq, Structural)]
pub struct Transfer {
    pub id: i32,
    pub sender: Person,
    pub receiver: Person,
    pub date: Date,
    pub amount: i64,
    pub confirmed_at: Option<i64>,
    pub refused_at: Option<i64>,
    pub created_at: i64,
}

impl Row for Transfer {
    open spec fn ident(&self) -> i32 {
        self.id
    }

    fn id(&self) -> (id: i32) {
        self.id
    }
}

impl Answerable for Transfer {
    type Caller = Person;

    open spec fn confirmation(&self) -> Option<i64> {
        self.confirmed_at
    }

    open spec fn refusal(&self) -> Option<i64> {
        self.refused_at
    }

    /// A transfer takes the answer of its receiver.
    open spec fn asks(&self, by: Person) -> bool {
        self.receiver == by
    }

    open spec fn once_confirmed(self, now: i64) -> Self {
        Transfer { confirmed_at: Some(now), ..self }
    }

    open spec fn once_refused(self, now: i64) -> Self {
        Transfer { refused_at: Some(now), ..self }
    }

    proof fn lemma_answers(self, now: i64) {
    }

    fn is_open(&self) -> (open: bool) {
        self.confirmed_at.is_none() && self.refused_at.is_none()
    }

    fn is_asked(&self, by: &Person) -> (asked: bool) {
        self.receiver == *by
    }

    fn set_confirmed(&mut self, now: i64) {
        self.confirmed_at = Some(now);
    }

    fn set_refused(&mut self, now: i64) {
        self.refused_at = Some(now);
    }
}

impl Transfer {
    /// Not both confirmed and refused, between two people, on a day of the calendar.
    pub open spec fn consistent(self) -> bool {
        &&& !(self.confirmed_at is Some && self.refused_at is Some)
        &&& self.receiver == self.sender.flip()
        &&& self.date.valid()
    }

    /// Neither confirmed nor refused.
    pub open spec fn pending(self) -> bool {
        self.confirmed_at is None && self.refused_at is None
    }

    /// What the transfer is ordered by.
    pub open spec fn key(self) -> Key {
        (self.date.year, self.date.month, self.date.day, self.created_at)
    }

    /// Whether this is the row `before` at a later time: the same transfer,
    /// with every time that was set still as it was.
    pub open spec fn follows(self, before: Transfer) -> bool {
        &&& self == Transfer {
            confirmed_at: self.confirmed_at,
            refused_at: self.refused_at,
            ..before
        }
        &&& before.confirmed_at is Some ==> self.confirmed_at == before.confirmed_at
        &&& before.refused_at is Some ==> self.refused_at == before.refused_at
    }
}

/// Whether `after` is the table `before` at a later time: no row is gone, and
/// each row follows the one it was.
pub open spec fn keeps(before: Seq<Transfer>, after: Seq<Transfer>) -> bool {
    &&& before.len() <= after.len()
    &&& forall|i: int| 0 <= i < before.len() ==> (#[trigger] after[i]).follows(before[i])
}

/// Ids grow along the table and every row is consistent.
pub open spec fn well_formed(rows: Seq<Transfer>) -> bool {
    &&& ordered(rows)
    &&& forall|i: int| 0 <= i < rows.len() ==> (#[trigger] rows[i]).consistent()
}

/// The table after a transfer was submitted at `now`.
pub open spec fn submitted(
    rows: Seq<Transfer>,
    sender: Person,
    receiver: Person,
    date: Date,
    amount: i64,
    now: i64,
) -> Seq<Transfer> {
    rows.push(
        Transfer {
            id: next_id(rows) as i32,
            sender,
            receiver,
            date,
            amount,
            confirmed_at: None,
            refused_at: None,
            created_at: now,
        },
    )
}

/// The rows, each with its key.
pub open spec fn keyed(rows: Seq<Transfer>) -> Seq<(Key, Transfer)> {
    rows.map_values(|t: Transfer| (t.key(), t))
}

/// Whether the rows are well formed.
pub fn check(rows: &Vec<Transfer>) -> (ok: bool)
    ensures
        ok == well_formed(rows@),
{
    let mut i: usize = 0;
    while i < rows.len()
        invariant
            i <= rows.len(),
            forall|a: int, b: int| 0 <= a < b < i ==> rows@[a].id < rows@[b].id,
            forall|a: int| 0 <= a < i ==> (#[trigger] rows@[a]).consistent(),
        decreases rows.len() - i,
    {
        let t = &rows[i];
        if t.confirmed_at.is_some() && t.refused_at.is_some() {
            return false;
        }
        if t.receiver != t.sender.other() {
            return false;
        }
        if Date::new(t.date.year, t.date.month, t.date.day).is_none() {
            return false;
        }
        if i > 0 && rows[i - 1].id >= t.id {
            return false;
        }
        assert forall|a: int, b: int| 0 <= a < b < i + 1 implies rows@[a].id < rows@[b].id by {
            if b == i && a < i - 1 {
                assert(rows@[a].id < rows@[i - 1].id);
            }
        }
        i = i + 1;
    }
    true
}

/// All transfers, newest first: by date, then by time of creation.
pub fn all(db: &Db) -> (r: Vec<Transfer>)
    ensures
        newest_first(keyed(r@), keyed(db.transfers@)),
{
    let mut pairs: Vec<(Key, Transfer)> = Vec::new();
    let mut i: usize = 0;
    while i < db.transfers.len()
        invariant
            i <= db.transfers.len(),
            pairs@ == keyed(db.transfers@.subrange(0, i as int)),
        decreases db.transfers.len() - i,
    {
        let t = db.transfers[i];
        pairs.push(((t.date.year, t.date.month, t.date.day, t.created_at), t));
        assert(pairs@ =~= keyed(db.transfers@.subrange(0, i + 1)));
        i = i + 1;
    }
    assert(db.transfers@.subrange(0, i as int) =~= db.transfers@);
    let listed = newest_first_sorted(pairs);
    let mut r: Vec<Transfer> = Vec::new();
    let mut j: usize = 0;
    while j < listed.len()
        invariant
            j <= listed.len(),
            r@ == listed@.subrange(0, j as int).map_values(|p: (Key, Transfer)| p.1),
        decreases listed.len() - j,
    {
        r.push(listed[j].1);
        assert(r@ =~= listed@.subrange(0, j + 1).map_values(|p: (Key, Transfer)| p.1));
        j = j + 1;
    }
    assert(listed@.subrange(0, j as int) =~= listed@);
    proof {
        lemma_keyed_back(listed@, db.transfers@);
        assert(keyed(r@) =~= listed@);
    }
    r
}

/// Items sorted from keyed rows are themselves rows with their keys.
proof fn lemma_keyed_back(listed: Seq<(Key, Transfer)>, rows: Seq<Transfer>)
    requires
        newest_first(listed, keyed(rows)),
    ensures
        forall|i: int| 0 <= i < listed.len() ==> (#[trigger] listed[i]).0 == listed[i].1.key(),
{
    crate::order::lemma_listed_items(listed, keyed(rows));
    assert forall|i: int| 0 <= i < listed.len() implies (#[trigger] listed[i]).0
        == listed[i].1.key() by {
        let item = listed[i];
        assert(keyed(rows).contains(item));
        let at = choose|at: int| 0 <= at < keyed(rows).len() && keyed(rows)[at] == item;
        assert(keyed(rows)[at] == (rows[at].key(), rows[at]));
    }
}

/// Whether `by` may confirm or refuse the transfer `id`.
pub fn resolvable(db: &Db, id: i32, by: Person) -> (r: bool)
    requires
        db.wf(),
    ensures
        r == resolvable_by(db.transfers@, id, by),
{
    super::approval::resolvable(&db.transfers, id, &by)
}

/// Adds a transfer from `sender` to `receiver`.
pub fn submit(
    db: &mut Db,
    sender: Person,
    receiver: Person,
    date: Date,
    amount: i64,
    now: i64,
) -> (r: Result<i32, Error>)
    requires
        old(db).wf(),
        date.valid(),
        receiver == sender.flip(),
    ensures
        final(db).wf(),
        keeps(old(db).transfers@, final(db).transfers@),
        final(db).sessions == old(db).sessions,
        final(db).expenses == old(db).expenses,
        match r {
            Ok(id) => {
                &&& next_id(old(db).transfers@) <= i32::MAX
                &&& id == next_id(old(db).transfers@)
                &&& final(db).transfers@ == submitted(
                    old(db).transfers@,
                    sender,
                    receiver,
                    date,
                    amount,
                    now,
                )
            },
            Err(e) => {
                &&& e == Error::OutOfRange
                &&& next_id(old(db).transfers@) > i32::MAX
                &&& final(db).transfers@ == old(db).transfers@
            },
        },
{
    let id = match fresh_id(&db.transfers) {
        Some(id) => id,
        None => {
            return Err(Error::OutOfRange);
        },
    };
    let row = Transfer {
        id,
        sender,
        receiver,
        date,
        amount,
        confirmed_at: None,
        refused_at: None,
        created_at: now,
    };
    proof {
        lemma_ordered_push(db.transfers@, row);
    }
    db.transfers.push(row);
    assert(db.transfers@ =~= submitted(old(db).transfers@, sender, receiver, date, amount, now));
    Ok(id)
}

/// Confirms the transfer `id` if `by` is its receiver and it is neither
/// confirmed nor refused.
pub fn confirm(db: &mut Db, id: i32, by: Person, now: i64) -> (r: Result<(), Error>)
    requires
        old(db).wf(),
    ensures
        final(db).wf(),
        keeps(old(db).transfers@, final(db).transfers@),
        final(db).sessions == old(db).sessions,
        final(db).expenses == old(db).expenses,
        r is Ok <==> resolvable_by(old(db).transfers@, id, by),
        r is Ok ==> final(db).transfers@ == confirmed(old(db).transfers@, id, now),
        r is Err ==> r == Err::<(), Error>(Error::RowNotFound) && final(db).transfers@ == old(
            db,
        ).transfers@,
{
    super::approval::confirm(&mut db.transfers, id, &by, now)
}

/// Refuses the transfer `id` if `by` is its receiver and it is neither
/// confirmed nor refused.
pub fn refuse(db: &mut Db, id: i32, by: Person, now: i64) -> (r: Result<(), Error>)
    requires
        old(db).wf(),
    ensures
        final(db).wf(),
        keeps(old(db).transfers@, final(db).transfers@),
        final(db).sessions == old(db).sessions,
        final(db).expenses == old(db).expenses,
        r is Ok <==> resolvable_by(old(db).transfers@, id, by),
        r is Ok ==> final(db).transfers@ == refused(old(db).transfers@, id, now),
        r is Err ==> r == Err::<(), Error>(Error::RowNotFound) && final(db).transfers@ == old(
            db,
        ).transfers@,
{
    super::approval::refuse(&mut db.transfers, id, &by, now)
}

} // verus!
