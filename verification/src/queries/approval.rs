//! The approval that every row of the ledger goes through: it waits for one
//! answer, a confirmation or a refusal, and takes none after that.
//!
//! The answer is recorded by a guarded update: the row is changed only if it
//! is still open and the one who answers is the one it asks. Of two updates
//! that try to answer one row, the second finds the row settled and fails.

use super::{has_id, index_of, lemma_index_of, lemma_same_ids, ordered, position, Error, Row};
use vstd::prelude::*;

verus! {

/// A row that waits for an answer.
pub trait Answerable: Row {
    /// Who may be named as the one that answers.
    type Caller;

    /// When the row was confirmed, if it was.
    spec fn confirmation(&self) -> Option<i64>;

    /// When the row was refused, if it was.
    spec fn refusal(&self) -> Option<i64>;

    /// Whether `by` is one whose answer the row takes.
    spec fn asks(&self, by: Self::Caller) -> bool;

    /// The row, confirmed at `now`.
    spec fn once_confirmed(self, now: i64) -> Self;

    /// The row, refused at `now`.
    spec fn once_refused(self, now: i64) -> Self;

    /// An answer is recorded as it was given, and leaves the id, the other
    /// answer and whom the row asks as they were.
    proof fn lemma_answers(self, now: i64)
        ensures
            self.once_confirmed(now).confirmation() == Some(now),
            self.once_confirmed(now).refusal() == self.refusal(),
            self.once_confirmed(now).ident() == self.ident(),
            self.once_refused(now).refusal() == Some(now),
            self.once_refused(now).confirmation() == self.confirmation(),
            self.once_refused(now).ident() == self.ident(),
    ;

    /// Whether the row is neither confirmed nor refused.
    fn is_open(&self) -> (open: bool)
        ensures
            open == (self.confirmation() is None && self.refusal() is None),
    ;

    /// Whether `by` is one whose answer the row takes.
    fn is_asked(&self, by: &Self::Caller) -> (asked: bool)
        ensures
            asked == self.asks(*by),
    ;

    /// Records a confirmation.
    fn set_confirmed(&mut self, now: i64)
        ensures
            *final(self) == old(self).once_confirmed(now),
    ;

    /// Records a refusal.
    fn set_refused(&mut self, now: i64)
        ensures
            *final(self) == old(self).once_refused(now),
    ;
}

/// Whether the row is neither confirmed nor refused.
pub open spec fn open<A: Answerable>(row: A) -> bool {
    row.confirmation() is None && row.refusal() is None
}

/// Whether `by` may confirm or refuse the row `id`: the row exists, takes the
/// answer of `by`, and is neither confirmed nor refused.
pub open spec fn resolvable_by<A: Answerable>(rows: Seq<A>, id: i32, by: A::Caller) -> bool {
    has_id(rows, id) && rows[index_of(rows, id)].asks(by) && open(rows[index_of(rows, id)])
}

/// The table after `id` was confirmed at `now`.
pub open spec fn confirmed<A: Answerable>(rows: Seq<A>, id: i32, now: i64) -> Seq<A> {
    let i = index_of(rows, id);
    rows.update(i, rows[i].once_confirmed(now))
}

/// The table after `id` was refused at `now`.
pub open spec fn refused<A: Answerable>(rows: Seq<A>, id: i32, now: i64) -> Seq<A> {
    let i = index_of(rows, id);
    rows.update(i, rows[i].once_refused(now))
}

/// Whether `by` may confirm or refuse the row `id`.
pub fn resolvable<A: Answerable>(rows: &Vec<A>, id: i32, by: &A::Caller) -> (r: bool)
    requires
        ordered(rows@),
    ensures
        r == resolvable_by(rows@, id, *by),
{
    match position(rows, id) {
        Some(i) => {
            proof {
                lemma_index_of(rows@, i as int);
            }
            rows[i].is_asked(by) && rows[i].is_open()
        },
        None => false,
    }
}

/// Confirms the row `id` if it takes the answer of `by` and is neither
/// confirmed nor refused; changes nothing otherwise.
pub fn confirm<A: Answerable>(rows: &mut Vec<A>, id: i32, by: &A::Caller, now: i64) -> (r: Result<
    (),
    Error,
>)
    requires
        ordered(old(rows)@),
    ensures
        ordered(final(rows)@),
        r is Ok <==> resolvable_by(old(rows)@, id, *by),
        r is Ok ==> final(rows)@ == confirmed(old(rows)@, id, now),
        r is Err ==> r == Err::<(), Error>(Error::RowNotFound) && final(rows)@ == old(rows)@,
{
    match position(rows, id) {
        Some(i) => {
            proof {
                lemma_index_of(rows@, i as int);
                rows@[i as int].lemma_answers(now);
            }
            if rows[i].is_asked(by) && rows[i].is_open() {
                rows[i].set_confirmed(now);
                proof {
                    lemma_same_ids(old(rows)@, rows@, i as int);
                }
                Ok(())
            } else {
                Err(Error::RowNotFound)
            }
        },
        None => Err(Error::RowNotFound),
    }
}

/// Refuses the row `id` if it takes the answer of `by` and is neither
/// confirmed nor refused; changes nothing otherwise.
pub fn refuse<A: Answerable>(rows: &mut Vec<A>, id: i32, by: &A::Caller, now: i64) -> (r: Result<
    (),
    Error,
>)
    requires
        ordered(old(rows)@),
    ensures
        ordered(final(rows)@),
        r is Ok <==> resolvable_by(old(rows)@, id, *by),
        r is Ok ==> final(rows)@ == refused(old(rows)@, id, now),
        r is Err ==> r == Err::<(), Error>(Error::RowNotFound) && final(rows)@ == old(rows)@,
{
    match position(rows, id) {
        Some(i) => {
            proof {
                lemma_index_of(rows@, i as int);
                rows@[i as int].lemma_answers(now);
            }
            if rows[i].is_asked(by) && rows[i].is_open() {
                rows[i].set_refused(now);
                proof {
                    lemma_same_ids(old(rows)@, rows@, i as int);
                }
                Ok(())
            } else {
                Err(Error::RowNotFound)
            }
        },
        None => Err(Error::RowNotFound),
    }
}

/// A row that was confirmed or refused takes no further answer, from anyone.
pub proof fn law_answered_once<A: Answerable>(
    rows: Seq<A>,
    id: i32,
    first: A::Caller,
    second: A::Caller,
    now: i64,
)
    requires
        ordered(rows),
        resolvable_by(rows, id, first),
    ensures
        !resolvable_by(confirmed(rows, id, now), id, second),
        !resolvable_by(refused(rows, id, now), id, second),
{
    let i = index_of(rows, id);
    rows[i].lemma_answers(now);
    lemma_same_ids(rows, confirmed(rows, id, now), i);
    lemma_same_ids(rows, refused(rows, id, now), i);
}

} // verus!
