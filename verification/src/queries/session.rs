//! Pairing proposals: a person asks to be taken for one of the two, the other
//! confirms or refuses, and a confirmed proposal is converted into a session.

use super::approval::{confirmed, refused, resolvable_by, Answerable};
use super::{
    fresh_id, has_id, index_of, lemma_index_of, lemma_ordered_push, next_id, ordered, position, Db,
    Error, Person, Row,
};
use vstd::prelude::*;

verus! {

/// One attempt at pairing. The times are set once and never cleared.
#[derive(Debug, Clone, Copy, PartialEq, Eq, Structural)]
pub struct Proposal {
    pub id: i32,
    pub who: Person,
    pub created_at: i64,
    pub confirmed_at: Option<i64>,
    pub refused_at: Option<i64>,
    pub converted_at: Option<i64>,
}

/// Where a proposal stands.
#[derive(Debug, Clone, Copy, PartialEq, Eq, Structural)]
pub enum SessionState {
    Confirmable,
    Convertable,
    Converted,
    Refused,
    Stale,
}

impl Row for Proposal {
    open spec fn ident(&self) -> i32 {
        self.id
    }

    fn id(&self) -> (id: i32) {
        self.id
    }
}

impl Answerable for Proposal {
    type Caller = ();

    open spec fn confirmation(&self) -> Option<i64> {
        self.confirmed_at
    }

    open spec fn refusal(&self) -> Option<i64> {
        self.refused_at
    }

    /// The update that answers a proposal names nobody: who may answer is
    /// decided from where the proposal stands, before the update.
    open spec fn asks(&self, by: ()) -> bool {
        true
    }

    open spec fn once_confirmed(self, now: i64) -> Self {
        Proposal { confirmed_at: Some(now), ..self }
    }

    open spec fn once_refused(self, now: i64) -> Self {
        Proposal { refused_at: Some(now), ..self }
    }

    proof fn lemma_answers(self, now: i64) {
    }

    fn is_open(&self) -> (open: bool) {
        self.confirmed_at.is_none() && self.refused_at.is_none()
    }

    fn is_asked(&self, by: &()) -> (asked: bool) {
        true
    }

    fn set_confirmed(&mut self, now: i64) {
        self.confirmed_at = Some(now);
    }

    fn set_refused(&mut self, now: i64) {
        self.refused_at = Some(now);
    }
}

/// Whether the guarded update that confirms or refuses `id` finds its row:
/// the row exists and is neither confirmed nor refused.
pub open spec fn settles(rows: Seq<Proposal>, id: i32) -> bool {
    resolvable_by(rows, id, ())
}

impl Proposal {
    /// Not both confirmed and refused, and converted only if confirmed.
    pub open spec fn consistent(self) -> bool {
        &&& !(self.confirmed_at is Some && self.refused_at is Some)
        &&& self.converted_at is Some ==> self.confirmed_at is Some
    }

    /// Neither confirmed nor refused.
    pub open spec fn pending(self) -> bool {
        self.confirmed_at is None && self.refused_at is None
    }

    /// Whether this is the row `before` at a later time: the same proposal,
    /// with every time that was set still as it was.
    pub open spec fn follows(self, before: Proposal) -> bool {
        &&& self.id == before.id
        &&& self.who == before.who
        &&& self.created_at == before.created_at
        &&& before.confirmed_at is Some ==> self.confirmed_at == before.confirmed_at
        &&& before.refused_at is Some ==> self.refused_at == before.refused_at
        &&& before.converted_at is Some ==> self.converted_at == before.converted_at
    }
}

/// Whether `after` is the table `before` at a later time: no row is gone, and
/// each row follows the one it was.
pub open spec fn keeps(before: Seq<Proposal>, after: Seq<Proposal>) -> bool {
    &&& before.len() <= after.len()
    &&& forall|i: int| 0 <= i < before.len() ==> (#[trigger] after[i]).follows(before[i])
}

/// Ids grow along the table and every row is consistent.
pub open spec fn well_formed(rows: Seq<Proposal>) -> bool {
    &&& ordered(rows)
    &&& forall|i: int| 0 <= i < rows.len() ==> (#[trigger] rows[i]).consistent()
}

/// Whether a strictly newer proposal names the same person as row `i`.
pub open spec fn stale(rows: Seq<Proposal>, i: int) -> bool {
    exists|j: int|
        0 <= j < rows.len() && (#[trigger] rows[j]).who == rows[i].who && rows[j].created_at
            > rows[i].created_at
}

/// Where a proposal stands, given whether a newer one has superseded it.
pub open spec fn classify(p: Proposal, superseded: bool) -> SessionState {
    if p.refused_at is Some {
        SessionState::Refused
    } else if superseded {
        SessionState::Stale
    } else if p.confirmed_at is None {
        SessionState::Confirmable
    } else if p.converted_at is None {
        SessionState::Convertable
    } else {
        SessionState::Converted
    }
}

/// Who the proposal with this id names and where it stands; `None` for an unknown id.
pub open spec fn state_of(rows: Seq<Proposal>, id: i32) -> Option<(Person, SessionState)> {
    if has_id(rows, id) {
        let i = index_of(rows, id);
        Some((rows[i].who, classify(rows[i], stale(rows, i))))
    } else {
        None
    }
}

/// The row that a new proposal adds: the very first one is confirmed as it is made.
pub open spec fn fresh(rows: Seq<Proposal>, who: Person, now: i64) -> Proposal {
    Proposal {
        id: next_id(rows) as i32,
        who,
        created_at: now,
        confirmed_at: if rows.len() == 0 {
            Some(now)
        } else {
            None
        },
        refused_at: None,
        converted_at: None,
    }
}

/// The table after a proposal by `who` at `now`.
pub open spec fn asked(rows: Seq<Proposal>, who: Person, now: i64) -> Seq<Proposal> {
    rows.push(fresh(rows, who, now))
}

/// Whether the guarded update that converts `id` finds its row.
pub open spec fn converts(rows: Seq<Proposal>, id: i32) -> bool {
    has_id(rows, id) && rows[index_of(rows, id)].confirmed_at is Some && rows[index_of(
        rows,
        id,
    )].converted_at is None
}

/// The table after `id` was converted at `now`.
pub open spec fn converted(rows: Seq<Proposal>, id: i32, now: i64) -> Seq<Proposal> {
    let i = index_of(rows, id);
    rows.update(i, Proposal { converted_at: Some(now), ..rows[i] })
}

/// Whether row `i` is one that `by` may confirm: it names the other person, is
/// neither confirmed nor refused, and no newer proposal has superseded it.
pub open spec fn open_for(rows: Seq<Proposal>, i: int, by: Person) -> bool {
    rows[i].who != by && rows[i].pending() && !stale(rows, i)
}

/// Whether the rows are well formed.
pub fn check(rows: &Vec<Proposal>) -> (ok: bool)
    ensures
        ok == well_formed(rows@),
{
    let mut i: usize = 0;
    while i < rows.len()
        invariant
            i <= rows.len(),
            forall|a: int, b: int| 0 <= a < b < i ==> rows@[a].id < rows@[b].id,
            forall|a: int| 0 <= a < i ==> (#[trigger] rows@[a]).consistent(),
        decreases rows.len() - i,
    {
        let p = &rows[i];
        if p.confirmed_at.is_some() && p.refused_at.is_some() {
            return false;
        }
        if p.converted_at.is_some() && p.confirmed_at.is_none() {
            return false;
        }
        if i > 0 && rows[i - 1].id >= p.id {
            return false;
        }
        assert forall|a: int, b: int| 0 <= a < b < i + 1 implies rows@[a].id < rows@[b].id by {
            if b == i && a < i - 1 {
                assert(rows@[a].id < rows@[i - 1].id);
            }
        }
        i = i + 1;
    }
    true
}

/// Whether a strictly newer proposal names the same person as row `i`.
pub fn superseded(rows: &Vec<Proposal>, i: usize) -> (r: bool)
    requires
        i < rows.len(),
    ensures
        r == stale(rows@, i as int),
{
    let who = rows[i].who;
    let at: i64 = rows[i].created_at;
    let mut j: usize = 0;
    while j < rows.len()
        invariant
            j <= rows.len(),
            i < rows.len(),
            who == rows@[i as int].who,
            at == rows@[i as int].created_at,
            forall|k: int|
                0 <= k < j ==> !((#[trigger] rows@[k]).who == who && rows@[k].created_at > at),
        decreases rows.len() - j,
    {
        if rows[j].who == who && rows[j].created_at > at {
            return true;
        }
        j = j + 1;
    }
    false
}

/// Adds a proposal that names `person`. The first proposal ever made is
/// confirmed at once; every later one waits for the other person.
pub fn ask(db: &mut Db, person: Person, now: i64) -> (r: Result<i32, Error>)
    requires
        old(db).wf(),
    ensures
        final(db).wf(),
        keeps(old(db).sessions@, final(db).sessions@),
        final(db).expenses == old(db).expenses,
        final(db).transfers == old(db).transfers,
        match r {
            Ok(id) => {
                &&& next_id(old(db).sessions@) <= i32::MAX
                &&& id == next_id(old(db).sessions@)
                &&& final(db).sessions@ == asked(old(db).sessions@, person, now)
            },
            Err(e) => {
                &&& e == Error::OutOfRange
                &&& next_id(old(db).sessions@) > i32::MAX
                &&& final(db).sessions@ == old(db).sessions@
            },
        },
{
    let id = match fresh_id(&db.sessions) {
        Some(id) => id,
        None => {
            return Err(Error::OutOfRange);
        },
    };
    let confirmed_at: Option<i64> = if db.sessions.len() == 0 {
        Some(now)
    } else {
        None
    };
    let row = Proposal {
        id,
        who: person,
        created_at: now,
        confirmed_at,
        refused_at: None,
        converted_at: None,
    };
    proof {
        lemma_ordered_push(db.sessions@, row);
    }
    db.sessions.push(row);
    assert(db.sessions@ =~= asked(old(db).sessions@, person, now));
    Ok(id)
}

/// Confirms the proposal `id` if it is neither confirmed nor refused.
pub fn confirm(db: &mut Db, id: i32, now: i64) -> (r: Result<(), Error>)
    requires
        old(db).wf(),
    ensures
        final(db).wf(),
        keeps(old(db).sessions@, final(db).sessions@),
        final(db).expenses == old(db).expenses,
        final(db).transfers == old(db).transfers,
        r is Ok <==> settles(old(db).sessions@, id),
        r is Ok ==> final(db).sessions@ == confirmed(old(db).sessions@, id, now),
        r is Err ==> r == Err::<(), Error>(Error::RowNotFound) && final(db).sessions@ == old(
            db,
        ).sessions@,
{
    super::approval::confirm(&mut db.sessions, id, &(), now)
}

/// Refuses the proposal `id` if it is neither confirmed nor refused.
pub fn refuse(db: &mut Db, id: i32, now: i64) -> (r: Result<(), Error>)
    requires
        old(db).wf(),
    ensures
        final(db).wf(),
        keeps(old(db).sessions@, final(db).sessions@),
        final(db).expenses == old(db).expenses,
        final(db).transfers == old(db).transfers,
        r is Ok <==> settles(old(db).sessions@, id),
        r is Ok ==> final(db).sessions@ == refused(old(db).sessions@, id, now),
        r is Err ==> r == Err::<(), Error>(Error::RowNotFound) && final(db).sessions@ == old(
            db,
        ).sessions@,
{
    super::approval::refuse(&mut db.sessions, id, &(), now)
}

/// Marks the proposal `id` as converted if it is confirmed and not yet converted.
pub fn convert(db: &mut Db, id: i32, now: i64) -> (r: Result<(), Error>)
    requires
        old(db).wf(),
    ensures
        final(db).wf(),
        keeps(old(db).sessions@, final(db).sessions@),
        final(db).expenses == old(db).expenses,
        final(db).transfers == old(db).transfers,
        r is Ok <==> converts(old(db).sessions@, id),
        r is Ok ==> final(db).sessions@ == converted(old(db).sessions@, id, now),
        r is Err ==> r == Err::<(), Error>(Error::RowNotFound) && final(db).sessions@ == old(
            db,
        ).sessions@,
{
    match position(&db.sessions, id) {
        Some(i) => {
            proof {
                lemma_index_of(db.sessions@, i as int);
            }
            let p = db.sessions[i];
            if p.confirmed_at.is_some() && p.converted_at.is_none() {
                db.sessions.set(i, Proposal { converted_at: Some(now), ..p });
                Ok(())
            } else {
                Err(Error::RowNotFound)
            }
        },
        None => Err(Error::RowNotFound),
    }
}

/// Who the proposal `id` names and where it stands; `None` for an unknown id.
pub fn state(db: &Db, id: i32) -> (r: Option<(Person, SessionState)>)
    requires
        db.wf(),
    ensures
        r == state_of(db.sessions@, id),
{
    match position(&db.sessions, id) {
        Some(i) => {
            proof {
                lemma_index_of(db.sessions@, i as int);
            }
            let p = db.sessions[i];
            let s = if p.refused_at.is_some() {
                SessionState::Refused
            } else if superseded(&db.sessions, i) {
                SessionState::Stale
            } else if p.confirmed_at.is_none() {
                SessionState::Confirmable
            } else if p.converted_at.is_none() {
                SessionState::Convertable
            } else {
                SessionState::Converted
            };
            Some((p.who, s))
        },
        None => None,
    }
}

/// The id of the oldest proposal that `by` may confirm, if there is one.
pub fn confirmable(db: &Db, by: Person) -> (r: Option<i32>)
    ensures
        match r {
            Some(id) => exists|i: int|
                0 <= i < db.sessions@.len() && #[trigger] open_for(db.sessions@, i, by)
                    && db.sessions@[i].id == id && forall|k: int|
                    0 <= k < i ==> !#[trigger] open_for(db.sessions@, k, by),
            None => forall|k: int|
                0 <= k < db.sessions@.len() ==> !#[trigger] open_for(db.sessions@, k, by),
        },
{
    let mut i: usize = 0;
    while i < db.sessions.len()
        invariant
            i <= db.sessions.len(),
            forall|k: int| 0 <= k < i ==> !#[trigger] open_for(db.sessions@, k, by),
        decreases db.sessions.len() - i,
    {
        let p = db.sessions[i];
        if p.who != by && p.confirmed_at.is_none() && p.refused_at.is_none() && !superseded(
            &db.sessions,
            i,
        ) {
            assert(open_for(db.sessions@, i as int, by));
            return Some(p.id);
        }
        i = i + 1;
    }
    None
}

} // verus!
