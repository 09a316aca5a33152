//! The balance of the one who asks and the entries that wait for an answer.

use super::StatusCode;
use crate::auth::Session;
use crate::queries::summary::{balance, fits, open_entries};
use crate::queries::{Db, Person};
use vstd::prelude::*;

verus! {

/// What the summary tells: who asks, what the other person owes them for
/// sure and perhaps, and how many entries wait for them and for the other.
#[derive(Debug, Clone, Copy, PartialEq, Eq, Structural)]
pub struct GetResponse {
    pub me: Person,
    pub owed_maybe: i64,
    pub owed_definitely: i64,
    pub pending_you: i64,
    pub pending_other: i64,
}

/// Whether every number of the summary of `me` is an amount.
pub open spec fn summable(db: Db, me: Person) -> bool {
    &&& fits(balance(db.expenses@, db.transfers@, me, true))
    &&& fits(balance(db.expenses@, db.transfers@, me, false))
    &&& fits(open_entries(db.expenses@, db.transfers@, me, true) as int)
    &&& fits(open_entries(db.expenses@, db.transfers@, me, false) as int)
}

/// The summary for the holder of `s`.
pub fn get(db: &Db, s: Session) -> (r: Result<GetResponse, StatusCode>)
    ensures
        match r {
            Ok(summary) => {
                &&& summary.me == s.who
                &&& summary.owed_definitely == balance(db.expenses@, db.transfers@, s.who, true)
                &&& summary.owed_maybe == balance(db.expenses@, db.transfers@, s.who, false)
                &&& summary.pending_other == open_entries(
                    db.expenses@,
                    db.transfers@,
                    s.who,
                    true,
                )
                &&& summary.pending_you == open_entries(
                    db.expenses@,
                    db.transfers@,
                    s.who,
                    false,
                )
            },
            Err(status) => status == StatusCode::InternalServerError && !summable(*db, s.who),
        },
{
    let owed = match crate::queries::summary::total_owed(db, s.who) {
        Ok(owed) => owed,
        Err(_) => {
            return Err(StatusCode::InternalServerError);
        },
    };
    let resolvable = match crate::queries::summary::resolvable_count(db, s.who) {
        Ok(resolvable) => resolvable,
        Err(_) => {
            return Err(StatusCode::InternalServerError);
        },
    };
    Ok(
        GetResponse {
            me: s.who,
            owed_maybe: owed.maybe,
            owed_definitely: owed.definitely,
            pending_you: resolvable.by_you,
            pending_other: resolvable.by_other,
        },
    )
}

} // verus!
