//! The tables of the ledger, held in memory, and what can be asked of them.
//!
//! Every change to a row is one guarded update: it is made where the row still
//! meets the guard and reported as [`Error::RowNotFound`] where it does not, so
//! that of two calls that try to settle one row the second always fails. The
//! update that confirms or refuses is the same for all three tables, see
//! [`approval`].

pub mod approval;
pub mod expense;
pub mod session;
pub mod summary;
pub mod transfer;

use vstd::prelude::*;
use vstd::string::StringExecFns;

verus! {

/// One of the two people who keep the ledger.
#[derive(Debug, Clone, Copy, PartialEq, Eq, Structural)]
pub enum Person {
    Ale,
    Lu,
}

/// How an expense is divided between the one who paid and the other.
#[derive(Debug, Clone, Copy, PartialEq, Eq, Structural)]
pub enum Split {
    Proportional2to1,
    Proportional3to2,
    Arbitrary,
    Evenly,
}

/// What an expense was for.
#[derive(Debug, Clone, Copy, PartialEq, Eq, Hash, Structural)]
pub enum Label {
    Market,
    Delivery,
    Transport,
    Leisure,
    Water,
    Internet,
    Gas,
    Housing,
    Electricity,
    Furnitance,
}

/// Why a query did not do what was asked.
#[derive(Debug, Clone, Copy, PartialEq, Eq, Structural)]
pub enum Error {
    /// No row met the guard of the update.
    RowNotFound,
    /// A number left the range of its column.
    OutOfRange,
}

impl Person {
    /// The other of the two people.
    pub open spec fn flip(self) -> Person {
        match self {
            Person::Ale => Person::Lu,
            Person::Lu => Person::Ale,
        }
    }

    /// The other of the two people.
    pub fn other(self) -> (r: Person)
        ensures
            r == self.flip(),
            r != self,
            r.flip() == self,
    {
        match self {
            Person::Ale => Person::Lu,
            Person::Lu => Person::Ale,
        }
    }
}

/// A row of a table, known by its id.
pub trait Row: Sized {
    /// The id of the row.
    spec fn ident(&self) -> i32;

    /// The id of the row.
    fn id(&self) -> (id: i32)
        ensures
            id == self.ident(),
    ;
}

/// Whether ids grow along the table, so that no two rows share one.
pub open spec fn ordered<R: Row>(rows: Seq<R>) -> bool {
    forall|i: int, j: int| 0 <= i < j < rows.len() ==> rows[i].ident() < rows[j].ident()
}

/// Whether a row has this id.
pub open spec fn has_id<R: Row>(rows: Seq<R>, id: i32) -> bool {
    exists|i: int| 0 <= i < rows.len() && (#[trigger] rows[i]).ident() == id
}

/// The place of the row with this id.
pub open spec fn index_of<R: Row>(rows: Seq<R>, id: i32) -> int {
    choose|i: int| 0 <= i < rows.len() && (#[trigger] rows[i]).ident() == id
}

/// The id that the next row gets: one more than the last, and 1 in an empty table.
pub open spec fn next_id<R: Row>(rows: Seq<R>) -> int {
    if rows.len() == 0 {
        1
    } else {
        rows.last().ident() + 1
    }
}

/// In an ordered table the row with a given id is the only one.
pub proof fn lemma_index_of<R: Row>(rows: Seq<R>, i: int)
    requires
        ordered(rows),
        0 <= i < rows.len(),
    ensures
        has_id(rows, rows[i].ident()),
        index_of(rows, rows[i].ident()) == i,
{
    let k = index_of(rows, rows[i].ident());
    assert(0 <= k < rows.len() && rows[k].ident() == rows[i].ident());
    if k < i {
        assert(rows[k].ident() < rows[i].ident());
    } else if i < k {
        assert(rows[i].ident() < rows[k].ident());
    }
}

/// A table with the ids of an ordered table is ordered, and has each row at
/// the same place.
pub proof fn lemma_same_ids<R: Row>(rows: Seq<R>, after: Seq<R>, i: int)
    requires
        ordered(rows),
        0 <= i < rows.len(),
        after.len() == rows.len(),
        forall|k: int| 0 <= k < rows.len() ==> (#[trigger] after[k]).ident() == rows[k].ident(),
    ensures
        ordered(after),
        has_id(after, rows[i].ident()),
        index_of(after, rows[i].ident()) == i,
{
    assert forall|a: int, b: int| 0 <= a < b < after.len() implies after[a].ident()
        < after[b].ident() by {
        assert(rows[a].ident() < rows[b].ident());
    }
    assert(after[i].ident() == rows[i].ident());
    lemma_index_of(after, i);
}

/// A row with the next id keeps the table ordered.
pub proof fn lemma_ordered_push<R: Row>(rows: Seq<R>, row: R)
    requires
        ordered(rows),
        row.ident() == next_id(rows),
    ensures
        ordered(rows.push(row)),
{
    let after = rows.push(row);
    let n = rows.len() as int;
    assert forall|a: int, b: int| 0 <= a < b < after.len() implies after[a].ident()
        < after[b].ident() by {
        if b == n {
            if a < n - 1 {
                assert(rows[a].ident() < rows[n - 1].ident());
            }
        } else {
            assert(rows[a].ident() < rows[b].ident());
        }
    }
}

/// The place of the row with this id, if there is one.
pub fn position<R: Row>(rows: &Vec<R>, id: i32) -> (r: Option<usize>)
    ensures
        match r {
            Some(i) => i < rows.len() && rows@[i as int].ident() == id,
            None => !has_id(rows@, id),
        },
{
    let mut i: usize = 0;
    while i < rows.len()
        invariant
            i <= rows.len(),
            forall|k: int| 0 <= k < i ==> (#[trigger] rows@[k]).ident() != id,
        decreases rows.len() - i,
    {
        if rows[i].id() == id {
            return Some(i);
        }
        i = i + 1;
    }
    None
}

/// The id for the next row, if there is one left.
pub fn fresh_id<R: Row>(rows: &Vec<R>) -> (r: Option<i32>)
    ensures
        match r {
            Some(id) => id == next_id(rows@),
            None => next_id(rows@) > i32::MAX,
        },
{
    let n: usize = rows.len();
    if n == 0 {
        Some(1)
    } else {
        let last: i32 = rows[n - 1].id();
        if last == i32::MAX {
            None
        } else {
            Some(last + 1)
        }
    }
}

/// Whether two texts are the same.
fn same_text(a: &str, b: &str) -> (r: bool)
    ensures
        r == (a@ == b@),
{
    String::from_str(a) == String::from_str(b)
}

impl Person {
    /// How the person is written where rows are stored.
    pub open spec fn code_text(self) -> Seq<char> {
        match self {
            Person::Ale => "Ale"@,
            Person::Lu => "Lu"@,
        }
    }

    /// The person that a stored text names, if it names one.
    pub open spec fn decoded(code: Seq<char>) -> Option<Person> {
        if code == "Ale"@ {
            Some(Person::Ale)
        } else if code == "Lu"@ {
            Some(Person::Lu)
        } else {
            None
        }
    }

    /// How the person is written where rows are stored.
    pub fn code(self) -> (r: &'static str)
        ensures
            r@ == self.code_text(),
            Person::decoded(r@) == Some(self),
    {
        proof {
            reveal_strlit("Ale");
            reveal_strlit("Lu");
            assert("Ale"@.len() == 3 && "Lu"@.len() == 2);
        }
        match self {
            Person::Ale => "Ale",
            Person::Lu => "Lu",
        }
    }

    /// The person that a stored text names. An unknown text names nobody.
    pub fn from_code(code: &str) -> (r: Option<Person>)
        ensures
            r == Person::decoded(code@),
    {
        if same_text(code, "Ale") {
            Some(Person::Ale)
        } else if same_text(code, "Lu") {
            Some(Person::Lu)
        } else {
            None
        }
    }
}

impl Split {
    /// How the split is written where rows are stored.
    pub open spec fn code_text(self) -> Seq<char> {
        match self {
            Split::Proportional2to1 => "Proportional2to1"@,
            Split::Proportional3to2 => "Proportional3to2"@,
            Split::Arbitrary => "Arbitrary"@,
            Split::Evenly => "Evenly"@,
        }
    }

    /// The split that a stored text names, if it names one.
    pub open spec fn decoded(code: Seq<char>) -> Option<Split> {
        if code == "Proportional2to1"@ {
            Some(Split::Proportional2to1)
        } else if code == "Proportional3to2"@ {
            Some(Split::Proportional3to2)
        } else if code == "Arbitrary"@ {
            Some(Split::Arbitrary)
        } else if code == "Evenly"@ {
            Some(Split::Evenly)
        } else {
            None
        }
    }

    /// How the split is written where rows are stored.
    pub fn code(self) -> (r: &'static str)
        ensures
            r@ == self.code_text(),
            Split::decoded(r@) == Some(self),
    {
        proof {
            reveal_strlit("Proportional2to1");
            reveal_strlit("Proportional3to2");
            reveal_strlit("Arbitrary");
            reveal_strlit("Evenly");
            assert("Proportional2to1"@[12] != "Proportional3to2"@[12]);
            assert("Proportional2to1"@[0] == 'P' && "Arbitrary"@[0] == 'A' && "Evenly"@[0] == 'E');
        }
        match self {
            Split::Proportional2to1 => "Proportional2to1",
            Split::Proportional3to2 => "Proportional3to2",
            Split::Arbitrary => "Arbitrary",
            Split::Evenly => "Evenly",
        }
    }

    /// The split that a stored text names. An unknown text names none.
    pub fn from_code(code: &str) -> (r: Option<Split>)
        ensures
            r == Split::decoded(code@),
    {
        if same_text(code, "Proportional2to1") {
            Some(Split::Proportional2to1)
        } else if same_text(code, "Proportional3to2") {
            Some(Split::Proportional3to2)
        } else if same_text(code, "Arbitrary") {
            Some(Split::Arbitrary)
        } else if same_text(code, "Evenly") {
            Some(Split::Evenly)
        } else {
            None
        }
    }
}

impl Label {
    /// How the label is written where rows are stored.
    pub open spec fn code_text(self) -> Seq<char> {
        match self {
            Label::Market => "Market"@,
            Label::Delivery => "Delivery"@,
            Label::Transport => "Transport"@,
            Label::Leisure => "Leisure"@,
            Label::Water => "Water"@,
            Label::Internet => "Internet"@,
            Label::Gas => "Gas"@,
            Label::Housing => "Housing"@,
            Label::Electricity => "Electricity"@,
            Label::Furnitance => "Furnitance"@,
        }
    }

    /// The label that a stored text names, if it names one.
    pub open spec fn decoded(code: Seq<char>) -> Option<Label> {
        if code == "Market"@ {
            Some(Label::Market)
        } else if code == "Delivery"@ {
            Some(Label::Delivery)
        } else if code == "Transport"@ {
            Some(Label::Transport)
        } else if code == "Leisure"@ {
            Some(Label::Leisure)
        } else if code == "Water"@ {
            Some(Label::Water)
        } else if code == "Internet"@ {
            Some(Label::Internet)
        } else if code == "Gas"@ {
            Some(Label::Gas)
        } else if code == "Housing"@ {
            Some(Label::Housing)
        } else if code == "Electricity"@ {
            Some(Label::Electricity)
        } else if code == "Furnitance"@ {
            Some(Label::Furnitance)
        } else {
            None
        }
    }

    /// How the label is written where rows are stored.
    pub fn code(self) -> (r: &'static str)
        ensures
            r@ == self.code_text(),
            Label::decoded(r@) == Some(self),
    {
        proof {
            reveal_strlit("Market");
            reveal_strlit("Delivery");
            reveal_strlit("Transport");
            reveal_strlit("Leisure");
            reveal_strlit("Water");
            reveal_strlit("Internet");
            reveal_strlit("Gas");
            reveal_strlit("Housing");
            reveal_strlit("Electricity");
            reveal_strlit("Furnitance");
            assert("Market"@[0] == 'M' && "Delivery"@[0] == 'D' && "Transport"@[0] == 'T');
            assert("Leisure"@[0] == 'L' && "Water"@[0] == 'W' && "Internet"@[0] == 'I');
            assert("Gas"@[0] == 'G' && "Housing"@[0] == 'H' && "Electricity"@[0] == 'E');
            assert("Furnitance"@[0] == 'F');
        }
        match self {
            Label::Market => "Market",
            Label::Delivery => "Delivery",
            Label::Transport => "Transport",
            Label::Leisure => "Leisure",
            Label::Water => "Water",
            Label::Internet => "Internet",
            Label::Gas => "Gas",
            Label::Housing => "Housing",
            Label::Electricity => "Electricity",
            Label::Furnitance => "Furnitance",
        }
    }

    /// The label that a stored text names. An unknown text names none.
    pub fn from_code(code: &str) -> (r: Option<Label>)
        ensures
            r == Label::decoded(code@),
    {
        if same_text(code, "Market") {
            Some(Label::Market)
        } else if same_text(code, "Delivery") {
            Some(Label::Delivery)
        } else if same_text(code, "Transport") {
            Some(Label::Transport)
        } else if same_text(code, "Leisure") {
            Some(Label::Leisure)
        } else if same_text(code, "Water") {
            Some(Label::Water)
        } else if same_text(code, "Internet") {
            Some(Label::Internet)
        } else if same_text(code, "Gas") {
            Some(Label::Gas)
        } else if same_text(code, "Housing") {
            Some(Label::Housing)
        } else if same_text(code, "Electricity") {
            Some(Label::Electricity)
        } else if same_text(code, "Furnitance") {
            Some(Label::Furnitance)
        } else {
            None
        }
    }
}

/// The three tables. Rows are only ever added or settled, never removed.
#[derive(Debug, Clone, PartialEq, Eq)]
pub struct Db {
    pub sessions: Vec<session::Proposal>,
    pub expenses: Vec<expense::Expense>,
    pub transfers: Vec<transfer::Transfer>,
}

impl Db {
    /// Whether each table is well formed.
    pub open spec fn wf(&self) -> bool {
        &&& session::well_formed(self.sessions@)
        &&& expense::well_formed(self.expenses@)
        &&& transfer::well_formed(self.transfers@)
    }

    /// The empty ledger.
    pub fn new() -> (db: Db)
        ensures
            db.wf(),
            db.sessions@.len() == 0,
            db.expenses@.len() == 0,
            db.transfers@.len() == 0,
    {
        Db { sessions: Vec::new(), expenses: Vec::new(), transfers: Vec::new() }
    }

    /// The ledger with these rows, if they are well formed.
    pub fn load(
        sessions: Vec<session::Proposal>,
        expenses: Vec<expense::Expense>,
        transfers: Vec<transfer::Transfer>,
    ) -> (r: Option<Db>)
        ensures
            match r {
                Some(db) => db.wf() && db.sessions == sessions && db.expenses == expenses
                    && db.transfers == transfers,
                None => !(session::well_formed(sessions@) && expense::well_formed(expenses@)
                    && transfer::well_formed(transfers@)),
            },
    {
        if session::check(&sessions) && expense::check(&expenses) && transfer::check(&transfers) {
            Some(Db { sessions, expenses, transfers })
        } else {
            None
        }
    }
}

} // verus!
