//! Entering an expense and answering one.

use super::StatusCode;
use crate::auth::Session;
use crate::date::{date_of, iso8601_date, Date};
use crate::queries::approval::{confirmed, law_answered_once, refused, resolvable_by};
use crate::queries::expense::{recommended, submitted, well_formed, Entry, Expense};
use crate::queries::{has_id, index_of, next_id, Db, Label, Person, Split};
use vstd::prelude::*;

verus! {

/// What is sent to enter an expense. `owed` is given for an arbitrary split
/// and for no other.
#[derive(Debug, Clone, PartialEq, Eq)]
pub struct SubmitRequest {
    pub payer: Person,
    pub split: Split,
    pub label: Label,
    pub detail: Option<String>,
    pub date: String,
    pub paid: i64,
    pub owed: Option<i64>,
}

/// `a` divided by `b`, rounded towards zero.
pub open spec fn quotient(a: int, b: int) -> int {
    if a >= 0 {
        a / b
    } else {
        -((-a) / b)
    }
}

/// What the other person owes for an expense of `paid`: for an arbitrary
/// split the amount sent, if it is at most `paid`; for every other split the
/// fixed share of the one who did not pay, and no amount may be sent.
pub open spec fn owed_for(split: Split, payer: Person, paid: i64, owed: Option<i64>) -> Option<
    int,
> {
    match (split, owed) {
        (Split::Arbitrary, Some(amount)) => if amount <= paid {
            Some(amount as int)
        } else {
            None
        },
        (Split::Proportional2to1, None) => Some(
            match payer {
                Person::Ale => quotient(paid as int, 3),
                Person::Lu => quotient(paid * 2, 3),
            },
        ),
        (Split::Proportional3to2, None) => Some(
            match payer {
                Person::Ale => quotient(paid * 2, 5),
                Person::Lu => quotient(paid * 3, 5),
            },
        ),
        (Split::Evenly, None) => Some(quotient(paid as int, 2)),
        _ => None,
    }
}

/// `paid * times / parts`, rounded towards zero.
fn share(paid: i64, times: i128, parts: i128) -> (r: i64)
    requires
        1 <= times <= parts <= 5,
    ensures
        r == quotient(paid * times, parts as int),
{
    assert(-0x8000_0000_0000_0000 * 5 <= paid * times <= 0x7fff_ffff_ffff_ffff * 5)
        by (nonlinear_arith)
        requires
            -0x8000_0000_0000_0000 <= paid <= 0x7fff_ffff_ffff_ffff,
            1 <= times <= 5,
    ;
    let wide: i128 = (paid as i128) * times;
    let part: i128 = wide / parts;
    assert(-0x8000_0000_0000_0000 <= part <= 0x7fff_ffff_ffff_ffff) by (nonlinear_arith)
        requires
            -0x8000_0000_0000_0000 <= paid <= 0x7fff_ffff_ffff_ffff,
            1 <= times <= parts <= 5,
            wide == paid * times,
            part == quotient(wide as int, parts as int),
    ;
    part as i64
}

/// See [`owed_for`].
pub fn owed(split: Split, payer: Person, paid: i64, sent: Option<i64>) -> (r: Option<i64>)
    ensures
        match r {
            Some(amount) => owed_for(split, payer, paid, sent) == Some(amount as int),
            None => owed_for(split, payer, paid, sent) is None,
        },
{
    match (split, sent) {
        (Split::Arbitrary, Some(amount)) => if amount <= paid {
            Some(amount)
        } else {
            None
        },
        (Split::Proportional2to1, None) => Some(
            match payer {
                Person::Ale => share(paid, 1, 3),
                Person::Lu => share(paid, 2, 3),
            },
        ),
        (Split::Proportional3to2, None) => Some(
            match payer {
                Person::Ale => share(paid, 2, 5),
                Person::Lu => share(paid, 3, 5),
            },
        ),
        (Split::Evenly, None) => Some(share(paid, 1, 2)),
        _ => None,
    }
}

/// The expense that a request enters on `date`, if the request is valid.
pub open spec fn entry_of(who: Person, r: SubmitRequest, date: Option<Date>) -> Option<Entry> {
    match (date, owed_for(r.split, r.payer, r.paid, r.owed)) {
        (Some(date), Some(owed)) => Some(
            Entry {
                creator: who,
                payer: r.payer,
                split: r.split,
                label: r.label,
                detail: r.detail,
                date,
                paid: r.paid,
                owed: owed as i64,
            },
        ),
        _ => None,
    }
}

/// What entering an expense does: the answer and the table afterwards. A
/// request without a valid date or with a wrong amount changes nothing.
pub open spec fn submit_outcome(
    rows: Seq<Expense>,
    who: Person,
    r: SubmitRequest,
    date: Option<Date>,
    now: i64,
) -> (StatusCode, Seq<Expense>) {
    match entry_of(who, r, date) {
        Some(entry) => if next_id(rows) <= i32::MAX {
            (StatusCode::Success, submitted(rows, entry, now))
        } else {
            (StatusCode::InternalServerError, rows)
        },
        None => (StatusCode::BadRequest, rows),
    }
}

/// What confirming does: the answer and the table afterwards.
pub open spec fn confirm_outcome(rows: Seq<Expense>, id: i32, by: Person, now: i64) -> (
    StatusCode,
    Seq<Expense>,
) {
    if resolvable_by(rows, id, by) {
        (StatusCode::Success, confirmed(rows, id, now))
    } else {
        (StatusCode::BadRequest, rows)
    }
}

/// What refusing does: the answer and the table afterwards.
pub open spec fn refuse_outcome(rows: Seq<Expense>, id: i32, by: Person, now: i64) -> (
    StatusCode,
    Seq<Expense>,
) {
    if resolvable_by(rows, id, by) {
        (StatusCode::Success, refused(rows, id, now))
    } else {
        (StatusCode::BadRequest, rows)
    }
}

/// Enters the expense of a request whose date has been read.
pub fn submit_dated(
    db: &mut Db,
    s: Session,
    r: SubmitRequest,
    date: Option<Date>,
    now: i64,
) -> (status: StatusCode)
    requires
        old(db).wf(),
        date matches Some(d) ==> d.valid(),
    ensures
        final(db).wf(),
        crate::queries::expense::keeps(old(db).expenses@, final(db).expenses@),
        final(db).sessions == old(db).sessions,
        final(db).transfers == old(db).transfers,
        (status, final(db).expenses@) == submit_outcome(old(db).expenses@, s.who, r, date, now),
{
    let date = match date {
        Some(date) => date,
        None => {
            return StatusCode::BadRequest;
        },
    };
    let amount = match owed(r.split, r.payer, r.paid, r.owed) {
        Some(amount) => amount,
        None => {
            return StatusCode::BadRequest;
        },
    };
    let entry = Entry {
        creator: s.who,
        payer: r.payer,
        split: r.split,
        label: r.label,
        detail: r.detail,
        date,
        paid: r.paid,
        owed: amount,
    };
    match crate::queries::expense::submit(db, entry, now) {
        Ok(_) => StatusCode::Success,
        Err(_) => StatusCode::InternalServerError,
    }
}

/// Enters an expense. The date is read as ISO 8601.
pub fn submit(db: &mut Db, s: Session, r: SubmitRequest, now: i64) -> (status: StatusCode)
    requires
        old(db).wf(),
    ensures
        final(db).wf(),
        crate::queries::expense::keeps(old(db).expenses@, final(db).expenses@),
        final(db).sessions == old(db).sessions,
        final(db).transfers == old(db).transfers,
        (status, final(db).expenses@) == submit_outcome(
            old(db).expenses@,
            s.who,
            r,
            date_of(iso8601_date(r.date@)),
            now,
        ),
{
    let date = Date::parse(r.date.as_str());
    submit_dated(db, s, r, date, now)
}

/// Confirms the expense `id` on behalf of the session `s`.
pub fn confirm(db: &mut Db, s: Session, id: i32, now: i64) -> (status: StatusCode)
    requires
        old(db).wf(),
    ensures
        final(db).wf(),
        crate::queries::expense::keeps(old(db).expenses@, final(db).expenses@),
        final(db).sessions == old(db).sessions,
        final(db).transfers == old(db).transfers,
        (status, final(db).expenses@) == confirm_outcome(old(db).expenses@, id, s.who, now),
{
    if !crate::queries::expense::resolvable(db, id, s.who) {
        return StatusCode::BadRequest;
    }
    match crate::queries::expense::confirm(db, id, s.who, now) {
        Ok(()) => StatusCode::Success,
        Err(_) => StatusCode::BadRequest,
    }
}

/// Refuses the expense `id` on behalf of the session `s`.
pub fn refuse(db: &mut Db, s: Session, id: i32, now: i64) -> (status: StatusCode)
    requires
        old(db).wf(),
    ensures
        final(db).wf(),
        crate::queries::expense::keeps(old(db).expenses@, final(db).expenses@),
        final(db).sessions == old(db).sessions,
        final(db).transfers == old(db).transfers,
        (status, final(db).expenses@) == refuse_outcome(old(db).expenses@, id, s.who, now),
{
    if !crate::queries::expense::resolvable(db, id, s.who) {
        return StatusCode::BadRequest;
    }
    match crate::queries::expense::refuse(db, id, s.who, now) {
        Ok(()) => StatusCode::Success,
        Err(_) => StatusCode::BadRequest,
    }
}

/// The split to suggest for an expense paid by `payer` under `label`.
pub fn splitrecc(db: &Db, s: Session, payer: Person, label: Label) -> (r: Option<Split>)
    ensures
        r == recommended(db.expenses@, payer, label),
{
    crate::queries::expense::splitrecc(db, payer, label)
}

/// A request that sends an amount larger than what was paid is turned away
/// and leaves the table as it was.
pub proof fn law_owed_beyond_paid_is_rejected(
    rows: Seq<Expense>,
    who: Person,
    r: SubmitRequest,
    date: Option<Date>,
    now: i64,
)
    requires
        r.split == Split::Arbitrary,
        r.owed matches Some(amount) && amount > r.paid,
    ensures
        submit_outcome(rows, who, r, date, now) == (StatusCode::BadRequest, rows),
{
}

/// With a fixed split the amount is computed, and a request that sends one
/// is turned away.
pub proof fn law_fixed_split_takes_no_amount(
    rows: Seq<Expense>,
    who: Person,
    r: SubmitRequest,
    date: Option<Date>,
    now: i64,
)
    requires
        r.split != Split::Arbitrary,
        r.owed is Some,
    ensures
        submit_outcome(rows, who, r, date, now) == (StatusCode::BadRequest, rows),
{
}

/// Nobody confirms or refuses an expense that they entered, whatever state it
/// is in.
pub proof fn law_own_expense_cannot_be_answered(rows: Seq<Expense>, id: i32, by: Person, now: i64)
    requires
        well_formed(rows),
        has_id(rows, id),
        rows[index_of(rows, id)].creator == by,
    ensures
        confirm_outcome(rows, id, by, now) == (StatusCode::BadRequest, rows),
        refuse_outcome(rows, id, by, now) == (StatusCode::BadRequest, rows),
{
}

/// Of a confirmation and a refusal of one open expense, whichever comes
/// first succeeds and the other fails.
pub proof fn law_first_answer_wins(
    rows: Seq<Expense>,
    id: i32,
    first: Person,
    second: Person,
    now: i64,
    later: i64,
)
    requires
        well_formed(rows),
        resolvable_by(rows, id, first),
    ensures
        confirm_outcome(rows, id, first, now).0 == StatusCode::Success,
        refuse_outcome(confirm_outcome(rows, id, first, now).1, id, second, later).0
            == StatusCode::BadRequest,
        confirm_outcome(confirm_outcome(rows, id, first, now).1, id, second, later).0
            == StatusCode::BadRequest,
        refuse_outcome(rows, id, first, now).0 == StatusCode::Success,
        confirm_outcome(refuse_outcome(rows, id, first, now).1, id, second, later).0
            == StatusCode::BadRequest,
        refuse_outcome(refuse_outcome(rows, id, first, now).1, id, second, later).0
            == StatusCode::BadRequest,
{
    law_answered_once(rows, id, first, second, now);
}

} // verus!
