//! The listing of all entries: those that wait for an answer, and the others
//! month by month, newest first.

use super::StatusCode;
use crate::auth::Session;
use crate::date::Date;
use crate::decimal::{decimal, lemma_decimal_shape, push_decimal, zero_padded};
use crate::order::{group_by, newest_first, newest_first_sorted, runs_of, Key};
use crate::queries::expense::Expense;
use crate::queries::transfer::Transfer;
use crate::queries::{Db, Label, Person, Split};
use vstd::prelude::*;
use vstd::string::StringExecFns;

verus! {

/// An expense as the listing shows it to one person.
#[derive(Debug, Clone, PartialEq, Eq)]
pub struct ExpenseItem {
    pub id: i32,
    pub yours: bool,
    pub payer: Person,
    pub split: Split,
    pub label: Label,
    pub detail: Option<String>,
    pub date: String,
    pub paid: i64,
    pub spent: i64,
    pub confirmed: bool,
    pub refused: bool,
}

/// A transfer as the listing shows it to one person.
#[derive(Debug, Clone, PartialEq, Eq)]
pub struct TransferItem {
    pub id: i32,
    pub yours: bool,
    pub date: String,
    pub amount: i64,
    pub confirmed: bool,
    pub refused: bool,
}

/// An entry of the listing.
#[derive(Debug, Clone, PartialEq, Eq)]
pub enum Item {
    Transfer(TransferItem),
    Expense(ExpenseItem),
}

/// The answered entries of one month and what was spent in it: `spent_me` by
/// the one who asks, `spent_we` by both, counting confirmed expenses.
#[derive(Debug, Clone, PartialEq, Eq)]
pub struct Month {
    pub n: i32,
    pub spent_me: u64,
    pub spent_we: u64,
    pub items: Vec<Item>,
}

/// The listing.
#[derive(Debug, Clone, PartialEq, Eq)]
pub struct Response {
    pub pendings: Vec<Item>,
    pub months: Vec<Month>,
}

/// Which expenses to list: those under one of the labels. With labels given,
/// no transfer is listed.
#[derive(Debug, Clone, PartialEq, Eq)]
pub struct Filter {
    pub labels: Option<Vec<Label>>,
}

/// The text of a byte sequence, byte for byte.
pub open spec fn text(bytes: Seq<u8>) -> Seq<char> {
    bytes.map_values(|b: u8| b as char)
}

/// A date as the listing writes it: year, month and day, each padded with
/// zeros to four, two and two places, with `-` between them.
pub open spec fn date_text(date: Date) -> Seq<char> {
    text(
        zero_padded(decimal(date.year as int), 4) + seq![45u8] + zero_padded(
            decimal(date.month as int),
            2,
        ) + seq![45u8] + zero_padded(decimal(date.day as int), 2),
    )
}

/// Appends a digit or a minus sign.
fn push_char(s: &mut String, b: u8)
    requires
        48 <= b <= 57 || b == 45,
    ensures
        final(s)@ == old(s)@.push(b as char),
{
    let piece: &str = match b {
        48 => "0",
        49 => "1",
        50 => "2",
        51 => "3",
        52 => "4",
        53 => "5",
        54 => "6",
        55 => "7",
        56 => "8",
        57 => "9",
        _ => "-",
    };
    proof {
        reveal_strlit("0");
        reveal_strlit("1");
        reveal_strlit("2");
        reveal_strlit("3");
        reveal_strlit("4");
        reveal_strlit("5");
        reveal_strlit("6");
        reveal_strlit("7");
        reveal_strlit("8");
        reveal_strlit("9");
        reveal_strlit("-");
        assert(piece@ =~= seq![b as char]);
    }
    s.append(piece);
    assert(s@ =~= old(s)@.push(b as char));
}

/// Appends `v` in decimal, padded with zeros to `width` places.
fn push_padded(out: &mut Vec<u8>, v: i32, width: usize)
    requires
        width <= 4,
    ensures
        final(out)@ == old(out)@ + zero_padded(decimal(v as int), width as nat),
{
    let mut digits: Vec<u8> = Vec::new();
    push_decimal(&mut digits, v);
    assert(digits@ =~= decimal(v as int));
    let ghost before = out@;
    let mut k: usize = digits.len();
    while k < width
        invariant
            digits.len() <= k <= width || (k == digits.len() && k >= width),
            width <= 4,
            out@ == before + Seq::new((k - digits.len()) as nat, |i: int| 48u8),
        decreases width - k,
    {
        out.push(48);
        k = k + 1;
        assert(out@ =~= before + Seq::new((k - digits.len()) as nat, |i: int| 48u8));
    }
    let ghost padded = out@;
    let mut i: usize = 0;
    while i < digits.len()
        invariant
            i <= digits.len(),
            out@ == padded + digits@.subrange(0, i as int),
        decreases digits.len() - i,
    {
        out.push(digits[i]);
        assert(out@ =~= padded + digits@.subrange(0, i + 1));
        i = i + 1;
    }
    assert(digits@.subrange(0, i as int) =~= digits@);
    assert(out@ =~= before + zero_padded(decimal(v as int), width as nat));
}

/// Writes a date as `yyyy-mm-dd`.
pub fn date_to_string(date: Date) -> (s: String)
    ensures
        s@ == date_text(date),
{
    let mut bytes: Vec<u8> = Vec::new();
    push_padded(&mut bytes, date.year, 4);
    bytes.push(45);
    push_padded(&mut bytes, date.month as i32, 2);
    bytes.push(45);
    push_padded(&mut bytes, date.day as i32, 2);
    proof {
        lemma_decimal_shape(date.year as int);
        lemma_decimal_shape(date.month as int);
        lemma_decimal_shape(date.day as int);
    }
    assert(bytes@ =~= zero_padded(decimal(date.year as int), 4) + seq![45u8] + zero_padded(
        decimal(date.month as int),
        2,
    ) + seq![45u8] + zero_padded(decimal(date.day as int), 2));
    assert(forall|i: int| 0 <= i < bytes@.len() ==> 48 <= #[trigger] bytes@[i] <= 57 || bytes@[i]
        == 45);
    let mut s = String::new();
    let mut i: usize = 0;
    while i < bytes.len()
        invariant
            i <= bytes.len(),
            forall|k: int|
                0 <= k < bytes@.len() ==> 48 <= #[trigger] bytes@[k] <= 57 || bytes@[k] == 45,
            s@ == text(bytes@.subrange(0, i as int)),
        decreases bytes.len() - i,
    {
        push_char(&mut s, bytes[i]);
        assert(s@ =~= text(bytes@.subrange(0, i + 1)));
        i = i + 1;
    }
    assert(bytes@.subrange(0, i as int) =~= bytes@);
    s
}

/// One entry on its way into the listing: its month, what it adds to the
/// sums of that month, and how it is shown.
#[derive(Debug, Clone, PartialEq, Eq)]
pub struct Line {
    pub month: i32,
    pub spent: i64,
    pub paid: i64,
    pub pending: bool,
    pub confirmed: bool,
    pub item: Item,
}

/// What `who` spent on an expense: what they paid less what they are owed,
/// or what they owe.
pub open spec fn spent_of(e: Expense, who: Person) -> int {
    if e.payer == who {
        e.paid - e.owed
    } else {
        e.owed as int
    }
}

/// Whether `item` shows the expense `e` to `who`.
pub open spec fn shows_expense(item: Item, e: Expense, who: Person) -> bool {
    &&& item matches Item::Expense(shown)
    &&& shown.id == e.id
    &&& shown.yours == (e.creator == who)
    &&& shown.payer == e.payer
    &&& shown.split == e.split
    &&& shown.label == e.label
    &&& shown.detail == e.detail
    &&& shown.date@ == date_text(e.date)
    &&& shown.paid == e.paid
    &&& shown.spent == spent_of(e, who)
    &&& shown.confirmed == (e.confirmed_at is Some)
    &&& shown.refused == (e.refused_at is Some)
}

/// Whether `item` shows the transfer `t` to `who`.
pub open spec fn shows_transfer(item: Item, t: Transfer, who: Person) -> bool {
    &&& item matches Item::Transfer(shown)
    &&& shown.id == t.id
    &&& shown.yours == (t.sender == who)
    &&& shown.date@ == date_text(t.date)
    &&& shown.amount == t.amount
    &&& shown.confirmed == (t.confirmed_at is Some)
    &&& shown.refused == (t.refused_at is Some)
}

/// Whether `line` stands for the expense `e` in the listing for `who`.
pub open spec fn expense_line(line: Line, e: Expense, who: Person) -> bool {
    &&& line.month == e.date.month_number()
    &&& line.spent == spent_of(e, who)
    &&& line.paid == e.paid
    &&& line.pending == e.pending()
    &&& line.confirmed == (e.confirmed_at is Some)
    &&& shows_expense(line.item, e, who)
}

/// Whether `line` stands for the transfer `t` in the listing for `who`. A
/// transfer adds nothing to what was spent.
pub open spec fn transfer_line(line: Line, t: Transfer, who: Person) -> bool {
    &&& line.month == t.date.month_number()
    &&& line.spent == 0
    &&& line.paid == 0
    &&& line.pending == t.pending()
    &&& line.confirmed == (t.confirmed_at is Some)
    &&& shows_transfer(line.item, t, who)
}

/// The test for the expenses that a filter lets through.
pub open spec fn picks(labels: Option<Vec<Label>>) -> spec_fn(Expense) -> bool {
    |e: Expense| labels matches Some(wanted) ==> wanted@.contains(e.label)
}

/// Whether what `who` spent on each expense to be listed is an amount.
pub open spec fn drawable(expenses: Seq<Expense>, who: Person, labels: Option<Vec<Label>>) -> bool {
    forall|i: int|
        0 <= i < expenses.len() && picks(labels)(#[trigger] expenses[i]) ==> i64::MIN <= spent_of(
            expenses[i],
            who,
        ) <= i64::MAX
}

/// Whether `lines` are the entries to be listed, each under its key: the
/// expenses that the filter lets through, then, if no labels are asked for,
/// the transfers, both in the order of their tables.
pub open spec fn drawn(
    lines: Seq<(Key, Line)>,
    expenses: Seq<Expense>,
    transfers: Seq<Transfer>,
    who: Person,
    labels: Option<Vec<Label>>,
) -> bool {
    let chosen = expenses.filter(picks(labels));
    let sent = if labels is None {
        transfers
    } else {
        Seq::empty()
    };
    &&& lines.len() == chosen.len() + sent.len()
    &&& forall|i: int|
        0 <= i < chosen.len() ==> (#[trigger] lines[i]).0 == chosen[i].key() && expense_line(
            lines[i].1,
            chosen[i],
            who,
        )
    &&& forall|j: int|
        0 <= j < sent.len() ==> (#[trigger] lines[chosen.len() + j]).0 == sent[j].key()
            && transfer_line(lines[chosen.len() + j].1, sent[j], who)
}

/// The lines of a listing, each with the number of its month.
pub open spec fn monthly(listing: Seq<(Key, Line)>) -> Seq<(i32, Line)> {
    listing.map_values(|entry: (Key, Line)| (entry.1.month, entry.1))
}

/// The items of the lines that wait for an answer, in their order.
pub open spec fn waiting(lines: Seq<Line>) -> Seq<Item> {
    lines.filter(|line: Line| line.pending).map_values(|line: Line| line.item)
}

/// The items of the lines that have been answered, in their order.
pub open spec fn answered(lines: Seq<Line>) -> Seq<Item> {
    lines.filter(|line: Line| !line.pending).map_values(|line: Line| line.item)
}

/// What the one who asks spent over the answered lines that are confirmed.
pub open spec fn spent_me(lines: Seq<Line>) -> int
    decreases lines.len(),
{
    if lines.len() == 0 {
        0
    } else {
        spent_me(lines.drop_last()) + if !lines.last().pending && lines.last().confirmed {
            lines.last().spent as int
        } else {
            0
        }
    }
}

/// What both spent over the answered lines that are confirmed.
pub open spec fn spent_we(lines: Seq<Line>) -> int
    decreases lines.len(),
{
    if lines.len() == 0 {
        0
    } else {
        spent_we(lines.drop_last()) + if !lines.last().pending && lines.last().confirmed {
            lines.last().paid as int
        } else {
            0
        }
    }
}

/// Whether the sums of a month can be told.
pub open spec fn countable(lines: Seq<Line>) -> bool {
    0 <= spent_me(lines) <= u64::MAX && 0 <= spent_we(lines) <= u64::MAX
}

/// Whether the sums of every month can be told.
pub open spec fn all_countable(groups: Seq<(i32, Vec<Line>)>) -> bool {
    forall|g: int| 0 <= g < groups.len() ==> countable((#[trigger] groups[g]).1@)
}

/// The waiting items of all groups, group after group.
pub open spec fn waiting_in(groups: Seq<(i32, Vec<Line>)>) -> Seq<Item>
    decreases groups.len(),
{
    if groups.len() == 0 {
        Seq::empty()
    } else {
        waiting_in(groups.drop_last()) + waiting(groups.last().1@)
    }
}

/// Whether `month` tells the group: its number, its answered items, its sums.
pub open spec fn month_of(month: Month, group: (i32, Vec<Line>)) -> bool {
    &&& month.n == group.0
    &&& month.items@ == answered(group.1@)
    &&& month.spent_me == spent_me(group.1@)
    &&& month.spent_we == spent_we(group.1@)
}

/// Whether `response` is the listing made of the groups: one month for each
/// group, and the waiting items of all of them apart.
pub open spec fn assembled(response: Response, groups: Seq<(i32, Vec<Line>)>) -> bool {
    &&& response.pendings@ == waiting_in(groups)
    &&& response.months@.len() == groups.len()
    &&& forall|g: int|
        0 <= g < groups.len() ==> month_of(#[trigger] response.months@[g], groups[g])
}

/// Whether `r` is what the groups give: the listing, or a failure where the
/// sums of some month cannot be told.
pub open spec fn assembles(r: Result<Response, StatusCode>, groups: Seq<(i32, Vec<Line>)>) -> bool {
    match r {
        Ok(response) => all_countable(groups) && assembled(response, groups),
        Err(status) => status == StatusCode::InternalServerError && !all_countable(groups),
    }
}

/// Whether `label` is one of `labels`.
fn has_label(labels: &Vec<Label>, label: Label) -> (r: bool)
    ensures
        r == labels@.contains(label),
{
    let mut i: usize = 0;
    while i < labels.len()
        invariant
            i <= labels.len(),
            forall|k: int| 0 <= k < i ==> labels@[k] != label,
        decreases labels.len() - i,
    {
        if labels[i] == label {
            return true;
        }
        i = i + 1;
    }
    false
}

/// The line of an expense, if what `who` spent on it is an amount.
fn line_of_expense(e: &Expense, who: Person) -> (r: Option<(Key, Line)>)
    requires
        e.date.valid(),
    ensures
        match r {
            Some(entry) => entry.0 == e.key() && expense_line(entry.1, *e, who),
            None => !(i64::MIN <= spent_of(*e, who) <= i64::MAX),
        },
{
    let spent: i64 = if e.payer == who {
        match e.paid.checked_sub(e.owed) {
            Some(spent) => spent,
            None => {
                return None;
            },
        }
    } else {
        e.owed
    };
    let item = Item::Expense(
        ExpenseItem {
            id: e.id,
            yours: e.creator == who,
            payer: e.payer,
            split: e.split,
            label: e.label,
            detail: e.detail.clone(),
            date: date_to_string(e.date),
            paid: e.paid,
            spent,
            confirmed: e.confirmed_at.is_some(),
            refused: e.refused_at.is_some(),
        },
    );
    Some(
        (
            (e.date.year, e.date.month, e.date.day, e.created_at),
            Line {
                month: e.date.month_index(),
                spent,
                paid: e.paid,
                pending: e.confirmed_at.is_none() && e.refused_at.is_none(),
                confirmed: e.confirmed_at.is_some(),
                item,
            },
        ),
    )
}

/// The line of a transfer.
fn line_of_transfer(t: &Transfer, who: Person) -> (entry: (Key, Line))
    requires
        t.date.valid(),
    ensures
        entry.0 == t.key(),
        transfer_line(entry.1, *t, who),
{
    let item = Item::Transfer(
        TransferItem {
            id: t.id,
            yours: t.sender == who,
            date: date_to_string(t.date),
            amount: t.amount,
            confirmed: t.confirmed_at.is_some(),
            refused: t.refused_at.is_some(),
        },
    );
    (
        (t.date.year, t.date.month, t.date.day, t.created_at),
        Line {
            month: t.date.month_index(),
            spent: 0,
            paid: 0,
            pending: t.confirmed_at.is_none() && t.refused_at.is_none(),
            confirmed: t.confirmed_at.is_some(),
            item,
        },
    )
}

/// The entries to be listed for `who`, each under its key. Fails where what
/// `who` spent on an expense is no amount.
pub fn draw(db: &Db, who: Person, labels: &Option<Vec<Label>>) -> (r: Result<
    Vec<(Key, Line)>,
    StatusCode,
>)
    requires
        db.wf(),
    ensures
        match r {
            Ok(lines) => drawable(db.expenses@, who, *labels) && drawn(
                lines@,
                db.expenses@,
                db.transfers@,
                who,
                *labels,
            ),
            Err(status) => status == StatusCode::InternalServerError && !drawable(
                db.expenses@,
                who,
                *labels,
            ),
        },
{
    let mut lines: Vec<(Key, Line)> = Vec::new();
    let ghost test = picks(*labels);
    let mut i: usize = 0;
    assert(db.expenses@.subrange(0, 0).filter(test) =~= Seq::empty()) by {
        broadcast use vstd::seq_lib::group_filter_ensures;

    }
    while i < db.expenses.len()
        invariant
            i <= db.expenses.len(),
            db.wf(),
            test == picks(*labels),
            lines@.len() == db.expenses@.subrange(0, i as int).filter(test).len(),
            forall|k: int|
                0 <= k < lines@.len() ==> (#[trigger] lines@[k]).0 == db.expenses@.subrange(
                    0,
                    i as int,
                ).filter(test)[k].key() && expense_line(
                    lines@[k].1,
                    db.expenses@.subrange(0, i as int).filter(test)[k],
                    who,
                ),
            forall|k: int|
                0 <= k < i && test(#[trigger] db.expenses@[k]) ==> i64::MIN <= spent_of(
                    db.expenses@[k],
                    who,
                ) <= i64::MAX,
        decreases db.expenses.len() - i,
    {
        let e = &db.expenses[i];
        let wanted: bool = match labels {
            Some(wanted) => has_label(wanted, e.label),
            None => true,
        };
        proof {
            let before = db.expenses@.subrange(0, i as int);
            assert(db.expenses@.subrange(0, i + 1) =~= before.push(*e));
            before.lemma_filter_push(*e, test);
            assert(wanted == test(*e));
            assert(db.expenses@[i as int].consistent());
        }
        if wanted {
            match line_of_expense(e, who) {
                Some(entry) => {
                    lines.push(entry);
                },
                None => {
                    return Err(StatusCode::InternalServerError);
                },
            }
        }
        i = i + 1;
    }
    assert(db.expenses@.subrange(0, i as int) =~= db.expenses@);
    let ghost chosen = db.expenses@.filter(test);
    if labels.is_none() {
        let mut j: usize = 0;
        while j < db.transfers.len()
            invariant
                j <= db.transfers.len(),
                db.wf(),
                chosen == db.expenses@.filter(picks(*labels)),
                lines@.len() == chosen.len() + j,
                forall|k: int|
                    0 <= k < chosen.len() ==> (#[trigger] lines@[k]).0 == chosen[k].key()
                        && expense_line(lines@[k].1, chosen[k], who),
                forall|k: int|
                    0 <= k < j ==> (#[trigger] lines@[chosen.len() + k]).0
                        == db.transfers@[k].key() && transfer_line(
                        lines@[chosen.len() + k].1,
                        db.transfers@[k],
                        who,
                    ),
            decreases db.transfers.len() - j,
        {
            let t = &db.transfers[j];
            assert(db.transfers@[j as int].consistent());
            let entry = line_of_transfer(t, who);
            lines.push(entry);
            j = j + 1;
        }
    }
    Ok(lines)
}

/// The lines of a listing, each with the number of its month.
pub fn by_month(listing: Vec<(Key, Line)>) -> (r: Vec<(i32, Line)>)
    ensures
        r@ == monthly(listing@),
{
    let mut r: Vec<(i32, Line)> = Vec::new();
    let ghost all = listing@;
    for entry in it: listing
        invariant
            it.seq() == all,
            r@ == monthly(all.subrange(0, it.index() as int)),
    {
        let (_, line) = entry;
        r.push((line.month, line));
        assert(r@ =~= monthly(all.subrange(0, it.index() + 1)));
    }
    assert(all.subrange(0, all.len() as int) =~= all);
    r
}

/// Adding a line to the end adds its item to the waiting ones or to the answered ones.
proof fn lemma_sorted_out(lines: Seq<Line>, line: Line)
    ensures
        waiting(lines.push(line)) == if line.pending {
            waiting(lines).push(line.item)
        } else {
            waiting(lines)
        },
        answered(lines.push(line)) == if line.pending {
            answered(lines)
        } else {
            answered(lines).push(line.item)
        },
{
    lines.lemma_filter_push(line, |line: Line| line.pending);
    lines.lemma_filter_push(line, |line: Line| !line.pending);
    assert(waiting(lines.push(line)) =~= if line.pending {
        waiting(lines).push(line.item)
    } else {
        waiting(lines)
    });
    assert(answered(lines.push(line)) =~= if line.pending {
        answered(lines)
    } else {
        answered(lines).push(line.item)
    });
}

/// Makes the listing of the groups: see [`assembles`].
pub fn assemble(groups: Vec<(i32, Vec<Line>)>) -> (r: Result<Response, StatusCode>)
    ensures
        assembles(r, groups@),
{
    let mut pendings: Vec<Item> = Vec::new();
    let mut months: Vec<Month> = Vec::new();
    let ghost all = groups@;
    for group in it: groups
        invariant
            it.seq() == all,
            pendings@ == waiting_in(all.subrange(0, it.index() as int)),
            months@.len() == it.index(),
            forall|g: int| 0 <= g < it.index() ==> month_of(#[trigger] months@[g], all[g]),
            forall|g: int| 0 <= g < it.index() ==> countable((#[trigger] all[g]).1@),
    {
        let ghost seen = pendings@;
        let ghost here = group;
        let (n, lines) = group;
        let ghost these = lines@;
        assert(these.len() == lines.len());
        let mut items: Vec<Item> = Vec::new();
        let mut mine: i128 = 0;
        let mut ours: i128 = 0;
        assert(waiting(these.subrange(0, 0)) =~= Seq::empty() && answered(these.subrange(0, 0))
            =~= Seq::empty()) by {
            broadcast use vstd::seq_lib::group_filter_ensures;

        }
        for line in at: lines
            invariant
                at.seq() == these,
                these.len() <= usize::MAX,
                pendings@ == seen + waiting(these.subrange(0, at.index() as int)),
                items@ == answered(these.subrange(0, at.index() as int)),
                mine == spent_me(these.subrange(0, at.index() as int)),
                ours == spent_we(these.subrange(0, at.index() as int)),
                -(at.index() * 0x8000_0000_0000_0000) <= mine <= at.index()
                    * 0x8000_0000_0000_0000,
                -(at.index() * 0x8000_0000_0000_0000) <= ours <= at.index()
                    * 0x8000_0000_0000_0000,
        {
            proof {
                let before = these.subrange(0, at.index() as int);
                assert(these.subrange(0, at.index() + 1) =~= before.push(line));
                assert(before.push(line).drop_last() =~= before);
                lemma_sorted_out(before, line);
            }
            if line.pending {
                pendings.push(line.item);
            } else {
                if line.confirmed {
                    mine = mine + line.spent as i128;
                    ours = ours + line.paid as i128;
                }
                items.push(line.item);
            }
            assert(pendings@ =~= seen + waiting(these.subrange(0, at.index() + 1)));
        }
        assert(these.subrange(0, these.len() as int) =~= these);
        proof {
            let upto = all.subrange(0, it.index() + 1);
            assert(upto.drop_last() =~= all.subrange(0, it.index() as int));
            assert(upto.last() == here);
        }
        if mine < 0 || mine > 0xffff_ffff_ffff_ffff || ours < 0 || ours > 0xffff_ffff_ffff_ffff {
            assert(!countable(all[it.index() as int].1@));
            return Err(StatusCode::InternalServerError);
        }
        months.push(Month { n, spent_me: mine as u64, spent_we: ours as u64, items });
    }
    assert(all.subrange(0, all.len() as int) =~= all);
    Ok(Response { pendings, months })
}

/// The listing for the holder of `s`: every entry that the filter lets
/// through, newest first by date and time of creation; those that wait for
/// an answer apart, the others month by month with what was spent. Fails
/// where an amount spent or the sum of a month cannot be told.
pub fn generate(db: &Db, s: Session, f: &Filter) -> (r: Result<Response, StatusCode>)
    requires
        db.wf(),
    ensures
        !drawable(db.expenses@, s.who, f.labels) ==> (r matches Err(status) && status
            == StatusCode::InternalServerError),
        drawable(db.expenses@, s.who, f.labels) ==> exists|
            lines: Seq<(Key, Line)>,
            listing: Seq<(Key, Line)>,
            groups: Seq<(i32, Vec<Line>)>,
        |
            #![trigger newest_first(listing, lines), runs_of(groups, monthly(listing))]
            {
                &&& drawn(lines, db.expenses@, db.transfers@, s.who, f.labels)
                &&& newest_first(listing, lines)
                &&& runs_of(groups, monthly(listing))
                &&& assembles(r, groups)
            },
{
    let lines = match draw(db, s.who, &f.labels) {
        Ok(lines) => lines,
        Err(status) => {
            return Err(status);
        },
    };
    let ghost drawn_lines = lines@;
    let listing = newest_first_sorted(lines);
    let ghost listed = listing@;
    let groups = group_by(by_month(listing));
    let ghost grouped = groups@;
    let r = assemble(groups);
    assert(newest_first(listed, drawn_lines) && runs_of(grouped, monthly(listed)));
    r
}

} // verus!
