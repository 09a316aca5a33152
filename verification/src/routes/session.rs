//! Pairing: asking for a session, answering a proposal, and turning a
//! confirmed proposal into a session.

use super::StatusCode;
use crate::auth::{Cookie, Key, Kind, Session, SessionAsk};
use crate::queries::approval::{confirmed, refused};
use crate::queries::session::{
    asked, converted, open_for, stale, state_of, well_formed, Proposal, SessionState,
};
use crate::queries::{
    has_id, index_of, lemma_index_of, lemma_ordered_push, lemma_same_ids, next_id, Db, Person,
};
use vstd::prelude::*;

verus! {

/// Whether `by` may confirm or refuse the proposal `id`: it is confirmable and
/// names the other person.
pub open spec fn may_answer(rows: Seq<Proposal>, id: i32, by: Person) -> bool {
    state_of(rows, id) matches Some((who, state)) && state == SessionState::Confirmable && who
        != by
}

/// Whether the proposal `id` can be turned into a session.
pub open spec fn may_convert(rows: Seq<Proposal>, id: i32) -> bool {
    state_of(rows, id) matches Some((who, state)) && state == SessionState::Convertable
}

/// What confirming does: the answer and the table afterwards.
pub open spec fn confirm_outcome(rows: Seq<Proposal>, id: i32, by: Person, now: i64) -> (
    StatusCode,
    Seq<Proposal>,
) {
    if may_answer(rows, id, by) {
        (StatusCode::Success, confirmed(rows, id, now))
    } else {
        (StatusCode::BadRequest, rows)
    }
}

/// What refusing does: the answer and the table afterwards.
pub open spec fn refuse_outcome(rows: Seq<Proposal>, id: i32, by: Person, now: i64) -> (
    StatusCode,
    Seq<Proposal>,
) {
    if may_answer(rows, id, by) {
        (StatusCode::Success, refused(rows, id, now))
    } else {
        (StatusCode::BadRequest, rows)
    }
}

/// Makes a proposal that names `who` and hands out its token.
pub fn ask(db: &mut Db, key: &Key, who: Person, now: i64) -> (r: Result<Cookie, StatusCode>)
    requires
        old(db).wf(),
    ensures
        final(db).wf(),
        crate::queries::session::keeps(old(db).sessions@, final(db).sessions@),
        final(db).expenses == old(db).expenses,
        final(db).transfers == old(db).transfers,
        match r {
            Ok(cookie) => {
                &&& next_id(old(db).sessions@) <= i32::MAX
                &&& final(db).sessions@ == asked(old(db).sessions@, who, now)
                &&& cookie.hands_ask(key@, SessionAsk(next_id(old(db).sessions@) as i32))
            },
            Err(status) => {
                &&& status == StatusCode::InternalServerError
                &&& next_id(old(db).sessions@) > i32::MAX
                &&& final(db).sessions@ == old(db).sessions@
            },
        },
{
    match crate::queries::session::ask(db, who, now) {
        Ok(id) => Ok(Cookie::from_ask(key, SessionAsk(id))),
        Err(_) => Err(StatusCode::InternalServerError),
    }
}

/// Gives up a proposal: the kind of token that the client is to discard. The
/// row stays.
pub fn cancel(ask: SessionAsk) -> (kind: Kind)
    ensures
        kind == Kind::Pending,
{
    Kind::Pending
}

/// Where the proposal of the one who asks stands; `None` for an unknown id.
pub fn state(db: &Db, ask: SessionAsk) -> (r: Option<SessionState>)
    requires
        db.wf(),
    ensures
        r == match state_of(db.sessions@, ask.0) {
            Some((who, state)) => Some(state),
            None => None::<SessionState>,
        },
{
    match crate::queries::session::state(db, ask.0) {
        Some((_, state)) => Some(state),
        None => None,
    }
}

/// Confirms the proposal `id` on behalf of the session `s`.
pub fn confirm(db: &mut Db, s: Session, id: i32, now: i64) -> (r: StatusCode)
    requires
        old(db).wf(),
    ensures
        final(db).wf(),
        crate::queries::session::keeps(old(db).sessions@, final(db).sessions@),
        final(db).expenses == old(db).expenses,
        final(db).transfers == old(db).transfers,
        (r, final(db).sessions@) == confirm_outcome(old(db).sessions@, id, s.who, now),
{
    match crate::queries::session::state(db, id) {
        Some((who, SessionState::Confirmable)) => {
            if who == s.who {
                return StatusCode::BadRequest;
            }
        },
        _ => {
            return StatusCode::BadRequest;
        },
    }
    match crate::queries::session::confirm(db, id, now) {
        Ok(()) => StatusCode::Success,
        Err(_) => StatusCode::BadRequest,
    }
}

/// Refuses the proposal `id` on behalf of the session `s`.
pub fn refuse(db: &mut Db, s: Session, id: i32, now: i64) -> (r: StatusCode)
    requires
        old(db).wf(),
    ensures
        final(db).wf(),
        crate::queries::session::keeps(old(db).sessions@, final(db).sessions@),
        final(db).expenses == old(db).expenses,
        final(db).transfers == old(db).transfers,
        (r, final(db).sessions@) == refuse_outcome(old(db).sessions@, id, s.who, now),
{
    match crate::queries::session::state(db, id) {
        Some((who, SessionState::Confirmable)) => {
            if who == s.who {
                return StatusCode::BadRequest;
            }
        },
        _ => {
            return StatusCode::BadRequest;
        },
    }
    match crate::queries::session::refuse(db, id, now) {
        Ok(()) => StatusCode::Success,
        Err(_) => StatusCode::BadRequest,
    }
}

/// Turns the proposal of the one who asks into a session, if it is confirmed,
/// not superseded, and not yet converted. On success the client discards the
/// token of the first kind and keeps the cookie; otherwise no token is issued.
pub fn convert(db: &mut Db, key: &Key, ask: SessionAsk, now: i64) -> (r: Result<
    (Kind, Cookie),
    StatusCode,
>)
    requires
        old(db).wf(),
    ensures
        final(db).wf(),
        crate::queries::session::keeps(old(db).sessions@, final(db).sessions@),
        final(db).expenses == old(db).expenses,
        final(db).transfers == old(db).transfers,
        match r {
            Ok((discard, cookie)) => {
                &&& may_convert(old(db).sessions@, ask.0)
                &&& final(db).sessions@ == converted(old(db).sessions@, ask.0, now)
                &&& discard == Kind::Pending
                &&& cookie.hands_session(
                    key@,
                    Session { who: state_of(old(db).sessions@, ask.0).unwrap().0, id: ask.0 },
                )
            },
            Err(status) => {
                &&& status == StatusCode::BadRequest
                &&& !may_convert(old(db).sessions@, ask.0)
                &&& final(db).sessions@ == old(db).sessions@
            },
        },
{
    let who = match crate::queries::session::state(db, ask.0) {
        Some((who, SessionState::Convertable)) => who,
        _ => {
            return Err(StatusCode::BadRequest);
        },
    };
    match crate::queries::session::convert(db, ask.0, now) {
        Ok(()) => Ok((Kind::Pending, Cookie::from_session(key, Session { who, id: ask.0 }))),
        Err(_) => Err(StatusCode::BadRequest),
    }
}

/// The id of the oldest proposal that the holder of `s` may confirm, if any.
pub fn confirmable(db: &Db, s: Session) -> (r: Option<i32>)
    ensures
        match r {
            Some(id) => exists|i: int|
                0 <= i < db.sessions@.len() && #[trigger] open_for(db.sessions@, i, s.who)
                    && db.sessions@[i].id == id && forall|k: int|
                    0 <= k < i ==> !#[trigger] open_for(db.sessions@, k, s.who),
            None => forall|k: int|
                0 <= k < db.sessions@.len() ==> !#[trigger] open_for(db.sessions@, k, s.who),
        },
{
    crate::queries::session::confirmable(db, s.who)
}

/// Ends a session: the kind of token that the client is to discard.
pub fn drop(s: Session) -> (kind: Kind)
    ensures
        kind == Kind::Session,
{
    Kind::Session
}

/// The very first proposal is confirmed as it is made, with nobody's consent:
/// it can be converted at once.
pub proof fn law_first_proposal_is_confirmed(who: Person, now: i64)
    ensures
        state_of(asked(Seq::empty(), who, now), 1) == Some((who, SessionState::Convertable)),
{
    let rows = asked(Seq::<Proposal>::empty(), who, now);
    assert(rows[0].id == 1);
    assert(has_id(rows, 1));
    let i = index_of(rows, 1);
    assert(i == 0);
    assert(!stale(rows, 0));
}

/// Every later proposal starts confirmable, provided that the clock has not
/// gone back behind an earlier proposal that names the same person.
pub proof fn law_later_proposal_is_confirmable(rows: Seq<Proposal>, who: Person, now: i64)
    requires
        well_formed(rows),
        rows.len() > 0,
        next_id(rows) <= i32::MAX,
        forall|i: int| 0 <= i < rows.len() && (#[trigger] rows[i]).who == who ==> rows[i].created_at
            <= now,
    ensures
        state_of(asked(rows, who, now), next_id(rows) as i32) == Some(
            (who, SessionState::Confirmable),
        ),
{
    let after = asked(rows, who, now);
    let n = rows.len() as int;
    lemma_ordered_push(rows, after[n]);
    lemma_index_of(after, n);
    assert(!stale(after, n)) by {
        if stale(after, n) {
            let j = choose|j: int|
                0 <= j < after.len() && (#[trigger] after[j]).who == after[n].who
                    && after[j].created_at > after[n].created_at;
            assert(after[j] == rows[j]);
        }
    }
}

/// Of two proposals that name the same person, the older one is stale unless
/// it was refused.
pub proof fn law_older_is_stale(rows: Seq<Proposal>, older: int, newer: int)
    requires
        well_formed(rows),
        0 <= older < rows.len(),
        0 <= newer < rows.len(),
        rows[older].who == rows[newer].who,
        rows[older].created_at < rows[newer].created_at,
        rows[older].refused_at is None,
    ensures
        state_of(rows, rows[older].id) == Some((rows[older].who, SessionState::Stale)),
{
    lemma_index_of(rows, older);
    assert(rows[newer].who == rows[older].who && rows[newer].created_at > rows[older].created_at);
}

/// The newest proposal that names a person is confirmable as long as nobody
/// has answered it.
pub proof fn law_newest_is_confirmable(rows: Seq<Proposal>, newest: int)
    requires
        well_formed(rows),
        0 <= newest < rows.len(),
        rows[newest].pending(),
        forall|j: int|
            0 <= j < rows.len() && (#[trigger] rows[j]).who == rows[newest].who
                ==> rows[j].created_at <= rows[newest].created_at,
    ensures
        state_of(rows, rows[newest].id) == Some((rows[newest].who, SessionState::Confirmable)),
{
    lemma_index_of(rows, newest);
}

/// A stale proposal stays stale whatever is done to the table later, so that
/// it can never be confirmed, refused or converted.
pub proof fn law_stale_is_permanent(before: Seq<Proposal>, after: Seq<Proposal>, i: int, by: Person)
    requires
        well_formed(before),
        well_formed(after),
        crate::queries::session::keeps(before, after),
        0 <= i < before.len(),
        stale(before, i),
    ensures
        stale(after, i),
        !may_answer(after, before[i].id, by),
        !may_convert(after, before[i].id),
{
    let j = choose|j: int|
        0 <= j < before.len() && (#[trigger] before[j]).who == before[i].who
            && before[j].created_at > before[i].created_at;
    assert(after[j].follows(before[j]));
    assert(after[i].follows(before[i]));
    assert(after[j].who == after[i].who && after[j].created_at > after[i].created_at);
    lemma_index_of(after, i);
}

/// The proposals that one person may confirm were all made at the same
/// instant, so that the first of them is the oldest.
pub proof fn law_open_proposals_are_of_one_instant(
    rows: Seq<Proposal>,
    i: int,
    j: int,
    by: Person,
)
    requires
        0 <= i < rows.len(),
        0 <= j < rows.len(),
        open_for(rows, i, by),
        open_for(rows, j, by),
    ensures
        rows[i].created_at == rows[j].created_at,
{
    assert(rows[i].who == by.flip() && rows[j].who == by.flip());
    if rows[i].created_at < rows[j].created_at {
        assert(rows[j].who == rows[i].who && rows[j].created_at > rows[i].created_at);
    } else if rows[j].created_at < rows[i].created_at {
        assert(rows[i].who == rows[j].who && rows[i].created_at > rows[j].created_at);
    }
}

/// A proposal that nobody has confirmed cannot be turned into a session.
pub proof fn law_unconfirmed_cannot_convert(rows: Seq<Proposal>, id: i32)
    requires
        well_formed(rows),
        has_id(rows, id),
        rows[index_of(rows, id)].confirmed_at is None,
    ensures
        !may_convert(rows, id),
{
}

/// Nobody confirms or refuses a proposal that names themselves, whatever
/// state it is in.
pub proof fn law_own_proposal_cannot_be_answered(rows: Seq<Proposal>, id: i32, by: Person, now: i64)
    requires
        well_formed(rows),
        has_id(rows, id),
        rows[index_of(rows, id)].who == by,
    ensures
        confirm_outcome(rows, id, by, now) == (StatusCode::BadRequest, rows),
        refuse_outcome(rows, id, by, now) == (StatusCode::BadRequest, rows),
{
}

/// Of a confirmation and a refusal of one open proposal, whichever comes
/// first succeeds and the other fails.
pub proof fn law_first_answer_wins(
    rows: Seq<Proposal>,
    id: i32,
    first: Person,
    second: Person,
    now: i64,
    later: i64,
)
    requires
        well_formed(rows),
        may_answer(rows, id, first),
    ensures
        confirm_outcome(rows, id, first, now).0 == StatusCode::Success,
        refuse_outcome(confirm_outcome(rows, id, first, now).1, id, second, later).0
            == StatusCode::BadRequest,
        confirm_outcome(confirm_outcome(rows, id, first, now).1, id, second, later).0
            == StatusCode::BadRequest,
        refuse_outcome(rows, id, first, now).0 == StatusCode::Success,
        confirm_outcome(refuse_outcome(rows, id, first, now).1, id, second, later).0
            == StatusCode::BadRequest,
        refuse_outcome(refuse_outcome(rows, id, first, now).1, id, second, later).0
            == StatusCode::BadRequest,
{
    let i = index_of(rows, id);
    let yes = confirmed(rows, id, now);
    let no = refused(rows, id, now);
    assert(yes[i].id == id);
    assert(no[i].id == id);
    lemma_same_ids(rows, yes, i);
    lemma_same_ids(rows, no, i);
}

} // verus!
