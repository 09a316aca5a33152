//! Entering a transfer and answering one.

use super::StatusCode;
use crate::auth::Session;
use crate::date::{date_of, iso8601_date, Date};
use crate::queries::approval::{confirmed, law_answered_once, refused, resolvable_by};
use crate::queries::transfer::{submitted, well_formed, Transfer};
use crate::queries::{has_id, index_of, next_id, Db, Person};
use vstd::prelude::*;

verus! {

/// What is sent to enter a transfer: the sender is the one who asks, the
/// receiver the other person.
#[derive(Debug, Clone, PartialEq, Eq)]
pub struct SubmitRequest {
    pub date: String,
    pub amount: i64,
}

/// What entering a transfer does: the answer and the table afterwards. A
/// request without a valid date changes nothing.
pub open spec fn submit_outcome(
    rows: Seq<Transfer>,
    who: Person,
    amount: i64,
    date: Option<Date>,
    now: i64,
) -> (StatusCode, Seq<Transfer>) {
    match date {
        Some(date) => if next_id(rows) <= i32::MAX {
            (StatusCode::Success, submitted(rows, who, who.flip(), date, amount, now))
        } else {
            (StatusCode::InternalServerError, rows)
        },
        None => (StatusCode::BadRequest, rows),
    }
}

/// What confirming does: the answer and the table afterwards.
pub open spec fn confirm_outcome(rows: Seq<Transfer>, id: i32, by: Person, now: i64) -> (
    StatusCode,
    Seq<Transfer>,
) {
    if resolvable_by(rows, id, by) {
        (StatusCode::Success, confirmed(rows, id, now))
    } else {
        (StatusCode::BadRequest, rows)
    }
}

/// What refusing does: the answer and the table afterwards.
pub open spec fn refuse_outcome(rows: Seq<Transfer>, id: i32, by: Person, now: i64) -> (
    StatusCode,
    Seq<Transfer>,
) {
    if resolvable_by(rows, id, by) {
        (StatusCode::Success, refused(rows, id, now))
    } else {
        (StatusCode::BadRequest, rows)
    }
}

/// Enters the transfer of a request whose date has been read.
pub fn submit_dated(
    db: &mut Db,
    s: Session,
    amount: i64,
    date: Option<Date>,
    now: i64,
) -> (status: StatusCode)
    requires
        old(db).wf(),
        date matches Some(d) ==> d.valid(),
    ensures
        final(db).wf(),
        crate::queries::transfer::keeps(old(db).transfers@, final(db).transfers@),
        final(db).sessions == old(db).sessions,
        final(db).expenses == old(db).expenses,
        (status, final(db).transfers@) == submit_outcome(
            old(db).transfers@,
            s.who,
            amount,
            date,
            now,
        ),
{
    let date = match date {
        Some(date) => date,
        None => {
            return StatusCode::BadRequest;
        },
    };
    let receiver = s.who.other();
    match crate::queries::transfer::submit(db, s.who, receiver, date, amount, now) {
        Ok(_) => StatusCode::Success,
        Err(_) => StatusCode::InternalServerError,
    }
}

/// Enters a transfer. The date is read as ISO 8601.
pub fn submit(db: &mut Db, s: Session, r: SubmitRequest, now: i64) -> (status: StatusCode)
    requires
        old(db).wf(),
    ensures
        final(db).wf(),
        crate::queries::transfer::keeps(old(db).transfers@, final(db).transfers@),
        final(db).sessions == old(db).sessions,
        final(db).expenses == old(db).expenses,
        (status, final(db).transfers@) == submit_outcome(
            old(db).transfers@,
            s.who,
            r.amount,
            date_of(iso8601_date(r.date@)),
            now,
        ),
{
    let date = Date::parse(r.date.as_str());
    submit_dated(db, s, r.amount, date, now)
}

/// Confirms the transfer `id` on behalf of the session `s`.
pub fn confirm(db: &mut Db, s: Session, id: i32, now: i64) -> (status: StatusCode)
    requires
        old(db).wf(),
    ensures
        final(db).wf(),
        crate::queries::transfer::keeps(old(db).transfers@, final(db).transfers@),
        final(db).sessions == old(db).sessions,
        final(db).expenses == old(db).expenses,
        (status, final(db).transfers@) == confirm_outcome(old(db).transfers@, id, s.who, now),
{
    if !crate::queries::transfer::resolvable(db, id, s.who) {
        return StatusCode::BadRequest;
    }
    match crate::queries::transfer::confirm(db, id, s.who, now) {
        Ok(()) => StatusCode::Success,
        Err(_) => StatusCode::BadRequest,
    }
}

/// Refuses the transfer `id` on behalf of the session `s`.
pub fn refuse(db: &mut Db, s: Session, id: i32, now: i64) -> (status: StatusCode)
    requires
        old(db).wf(),
    ensures
        final(db).wf(),
        crate::queries::transfer::keeps(old(db).transfers@, final(db).transfers@),
        final(db).sessions == old(db).sessions,
        final(db).expenses == old(db).expenses,
        (status, final(db).transfers@) == refuse_outcome(old(db).transfers@, id, s.who, now),
{
    if !crate::queries::transfer::resolvable(db, id, s.who) {
        return StatusCode::BadRequest;
    }
    match crate::queries::transfer::refuse(db, id, s.who, now) {
        Ok(()) => StatusCode::Success,
        Err(_) => StatusCode::BadRequest,
    }
}

/// Nobody confirms or refuses a transfer that they sent, whatever state it is in.
pub proof fn law_own_transfer_cannot_be_answered(rows: Seq<Transfer>, id: i32, by: Person, now: i64)
    requires
        well_formed(rows),
        has_id(rows, id),
        rows[index_of(rows, id)].sender == by,
    ensures
        confirm_outcome(rows, id, by, now) == (StatusCode::BadRequest, rows),
        refuse_outcome(rows, id, by, now) == (StatusCode::BadRequest, rows),
{
    let i = index_of(rows, id);
    assert(rows[i].consistent());
}

/// Of a confirmation and a refusal of one open transfer, whichever comes
/// first succeeds and the other fails.
pub proof fn law_first_answer_wins(
    rows: Seq<Transfer>,
    id: i32,
    first: Person,
    second: Person,
    now: i64,
    later: i64,
)
    requires
        well_formed(rows),
        resolvable_by(rows, id, first),
    ensures
        confirm_outcome(rows, id, first, now).0 == StatusCode::Success,
        refuse_outcome(confirm_outcome(rows, id, first, now).1, id, second, later).0
            == StatusCode::BadRequest,
        confirm_outcome(confirm_outcome(rows, id, first, now).1, id, second, later).0
            == StatusCode::BadRequest,
        refuse_outcome(rows, id, first, now).0 == StatusCode::Success,
        confirm_outcome(refuse_outcome(rows, id, first, now).1, id, second, later).0
            == StatusCode::BadRequest,
        refuse_outcome(refuse_outcome(rows, id, first, now).1, id, second, later).0
            == StatusCode::BadRequest,
{
    law_answered_once(rows, id, first, second, now);
}

} // verus!
