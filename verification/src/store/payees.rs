//! Payees and what they are labels of.

use crate::parse::merchant::{merchant_stem_display, stem};
use crate::store::rows::{check_row, integer_of, list_of, list_outcome, list_views, read_rows,
    row_error, take_integer, take_text, text_of, Column, FromRow};
use crate::store::value::{outcome, row_views, value_views, SqlValue, SqlView, StoreError,
    StoreErrorView};
use crate::text::same_str;
use vstd::prelude::*;

verus! {

/// A merchant that a payee is the label of.
#[derive(Debug, Clone)]
pub struct PayeeSource {
    pub display: String,
    pub merchant_norm: String,
    pub count: i64,
}

#[verifier::ext_equal]
pub ghost struct PayeeSourceView {
    pub display: Seq<char>,
    pub merchant_norm: Seq<char>,
    pub count: i64,
}

impl View for PayeeSource {
    type V = PayeeSourceView;

    open spec fn view(&self) -> PayeeSourceView {
        PayeeSourceView {
            display: self.display@,
            merchant_norm: self.merchant_norm@,
            count: self.count,
        }
    }
}

pub open spec fn source_views(sources: Seq<PayeeSource>) -> Seq<PayeeSourceView> {
    Seq::new(sources.len(), |i: int| sources[i]@)
}

/// A payee with its merchants.
#[derive(Debug, Clone)]
pub struct PayeeRow {
    pub id: String,
    pub name: String,
    pub category_id: String,
    pub created_at: String,
    pub sources: Vec<PayeeSource>,
}

#[verifier::ext_equal]
pub ghost struct PayeeRowView {
    pub id: Seq<char>,
    pub name: Seq<char>,
    pub category_id: Seq<char>,
    pub created_at: Seq<char>,
    pub sources: Seq<PayeeSourceView>,
}

impl View for PayeeRow {
    type V = PayeeRowView;

    open spec fn view(&self) -> PayeeRowView {
        PayeeRowView {
            id: self.id@,
            name: self.name@,
            category_id: self.category_id@,
            created_at: self.created_at@,
            sources: source_views(self.sources@),
        }
    }
}

/// The columns of a payee.
pub open spec fn payee_columns() -> Seq<Column> {
    seq![
        Column::Text,
        Column::Text,
        Column::Text,
        Column::Text,
    ]
}

/// The payee that a row holds, without its merchants.
pub open spec fn payee_of(row: Seq<SqlView>) -> Result<PayeeRowView, StoreErrorView> {
    match row_error(row, payee_columns(), 0) {
        Some(e) => Err(e),
        None => Ok(
            PayeeRowView {
                id: text_of(row[0]),
                name: text_of(row[1]),
                category_id: text_of(row[2]),
                created_at: text_of(row[3]),
                sources: Seq::empty(),
            },
        ),
    }
}

fn payee_from(row: &[SqlValue]) -> (r: Result<PayeeRow, StoreError>)
    ensures
        outcome(r) == payee_of(value_views(row@)),
{
    let columns = vec![
        Column::Text,
        Column::Text,
        Column::Text,
        Column::Text,
    ];
    proof {
        assert(columns@ =~= payee_columns());
        assert(value_views(row@).len() == row@.len());
    }
    if let Some(e) = check_row(row, &columns) {
        return Err(e);
    }
    Ok(
        PayeeRow {
            id: take_text(&row[0]),
            name: take_text(&row[1]),
            category_id: take_text(&row[2]),
            created_at: take_text(&row[3]),
            sources: no_sources(),
        },
    )
}

fn no_sources() -> (r: Vec<PayeeSource>)
    ensures
        source_views(r@) == Seq::<PayeeSourceView>::empty(),
{
    let none: Vec<PayeeSource> = Vec::new();
    proof {
        assert(source_views(none@) =~= Seq::<PayeeSourceView>::empty());
    }
    none
}

impl FromRow for PayeeRow {
    open spec fn of_row(row: Seq<SqlView>) -> Result<PayeeRowView, StoreErrorView> {
        payee_of(row)
    }

    fn from_row(row: &[SqlValue]) -> (r: Result<PayeeRow, StoreError>) {
        payee_from(row)
    }
}

/// The payees that rows hold, in order and without their merchants.
pub open spec fn payees_of(rows: Seq<Seq<SqlView>>) -> Result<Seq<PayeeRowView>, StoreErrorView> {
    list_of::<PayeeRow>(rows)
}

pub open spec fn payee_views(list: Seq<PayeeRow>) -> Seq<PayeeRowView> {
    list_views(list)
}

/// Reads rows until one cannot be read.
pub fn payee_rows(rows: &[Vec<SqlValue>]) -> (r: Result<Vec<PayeeRow>, StoreError>)
    ensures
        list_outcome(r) == payees_of(row_views(rows@)),
{
    read_rows(rows)
}

/// The columns of a payee's merchant.
pub open spec fn source_columns() -> Seq<Column> {
    seq![
        Column::Text,
        Column::Text,
        Column::Integer,
        Column::Text,
    ]
}

/// The payee's id and the merchant that a row holds.
pub open spec fn source_of(row: Seq<SqlView>) -> Result<(Seq<char>, PayeeSourceView), StoreErrorView> {
    match row_error(row, source_columns(), 0) {
        Some(e) => Err(e),
        None => Ok(
            (
                text_of(row[0]),
                PayeeSourceView {
                    display: stem(text_of(row[3])),
                    merchant_norm: text_of(row[1]),
                    count: integer_of(row[2]),
                },
            ),
        ),
    }
}

fn source_from(row: &[SqlValue]) -> (r: Result<(String, PayeeSource), StoreError>)
    ensures
        outcome(r) == source_of(value_views(row@)),
{
    let columns = vec![
        Column::Text,
        Column::Text,
        Column::Integer,
        Column::Text,
    ];
    proof {
        assert(columns@ =~= source_columns());
        assert(value_views(row@).len() == row@.len());
    }
    if let Some(e) = check_row(row, &columns) {
        return Err(e);
    }
    Ok(
        (
            take_text(&row[0]),
            PayeeSource {
                display: merchant_stem_display(take_text(&row[3]).as_str()),
                merchant_norm: take_text(&row[1]),
                count: take_integer(&row[2]),
            },
        ),
    )
}

impl FromRow for (String, PayeeSource) {
    open spec fn of_row(row: Seq<SqlView>) -> Result<(Seq<char>, PayeeSourceView), StoreErrorView> {
        source_of(row)
    }

    fn from_row(row: &[SqlValue]) -> (r: Result<(String, PayeeSource), StoreError>) {
        source_from(row)
    }
}

/// The merchants that rows hold, in order, each with its payee's id.
pub open spec fn sources_of(rows: Seq<Seq<SqlView>>) -> Result<
    Seq<(Seq<char>, PayeeSourceView)>,
    StoreErrorView,
> {
    list_of::<(String, PayeeSource)>(rows)
}

pub open spec fn source_pair_views(list: Seq<(String, PayeeSource)>) -> Seq<
    (Seq<char>, PayeeSourceView),
> {
    list_views(list)
}

/// Reads rows until one cannot be read.
fn source_rows(rows: &[Vec<SqlValue>]) -> (r: Result<Vec<(String, PayeeSource)>, StoreError>)
    ensures
        list_outcome(r) == sources_of(row_views(rows@)),
{
    read_rows(rows)
}

/// The merchants of one payee, in order.
pub open spec fn sources_for(pairs: Seq<(Seq<char>, PayeeSourceView)>, id: Seq<char>) -> Seq<
    PayeeSourceView,
>
    decreases pairs.len(),
{
    if pairs.len() == 0 {
        Seq::empty()
    } else if pairs.last().0 == id {
        sources_for(pairs.drop_last(), id).push(pairs.last().1)
    } else {
        sources_for(pairs.drop_last(), id)
    }
}

/// Payees with their merchants: each id's go to the first payee of that id.
pub open spec fn with_sources(
    payees: Seq<PayeeRowView>,
    pairs: Seq<(Seq<char>, PayeeSourceView)>,
) -> Seq<PayeeRowView> {
    Seq::new(
        payees.len(),
        |i: int|
            if first_of_id(payees, i) {
                PayeeRowView { sources: sources_for(pairs, payees[i].id), ..payees[i] }
            } else {
                payees[i]
            },
    )
}

pub open spec fn first_of_id(payees: Seq<PayeeRowView>, i: int) -> bool {
    forall|j: int| 0 <= j < i ==> (#[trigger] payees[j]).id != payees[i].id
}

/// Takes a payee's merchants out of the list.
fn take_sources(pairs: &Vec<(String, PayeeSource)>, id: &str) -> (r: Vec<PayeeSource>)
    ensures
        source_views(r@) == sources_for(source_pair_views(pairs@), id@),
{
    let ghost all = source_pair_views(pairs@);
    let mut out: Vec<PayeeSource> = Vec::new();
    let mut i: usize = 0;
    proof {
        assert(source_views(out@) =~= Seq::<PayeeSourceView>::empty());
    }
    while i < pairs.len()
        invariant
            i <= pairs.len(),
            all == source_pair_views(pairs@),
            source_views(out@) == sources_for(all.take(i as int), id@),
        decreases pairs.len() - i,
    {
        let ghost done = source_views(out@);
        proof {
            assert(all.take(i as int + 1).drop_last() =~= all.take(i as int));
            assert(all.take(i as int + 1).last() == pairs@[i as int]@);
        }
        if same_str(pairs[i].0.as_str(), id) {
            let source = &pairs[i].1;
            let copy = PayeeSource {
                display: source.display.as_str().to_owned(),
                merchant_norm: source.merchant_norm.as_str().to_owned(),
                count: source.count,
            };
            proof {
                assert(copy@ =~= source@);
            }
            out.push(copy);
            proof {
                assert(source_views(out@) =~= done.push(source@));
            }
        }
        i += 1;
    }
    proof {
        assert(all.take(all.len() as int) =~= all);
    }
    out
}

fn id_seen(payees: &[PayeeRow], n: usize, id: &str) -> (r: bool)
    requires
        n <= payees.len(),
    ensures
        r == exists|j: int| 0 <= j < n && (#[trigger] payees@[j]).id@ == id@,
{
    let mut i: usize = 0;
    while i < n
        invariant
            i <= n <= payees.len(),
            forall|j: int| 0 <= j < i ==> (#[trigger] payees@[j]).id@ != id@,
        decreases n - i,
    {
        if same_str(payees[i].id.as_str(), id) {
            return true;
        }
        i += 1;
    }
    false
}

/// Gives payees the merchants that rows hold.
pub fn payees(list: Vec<PayeeRow>, rows: &[Vec<SqlValue>]) -> (r: Result<
    Vec<PayeeRow>,
    StoreError,
>)
    ensures
        match r {
            Ok(full) => sources_of(row_views(rows@)) is Ok && payee_views(full@) == with_sources(
                payee_views(list@),
                sources_of(row_views(rows@))->Ok_0,
            ),
            Err(e) => sources_of(row_views(rows@)) == Err::<
                Seq<(Seq<char>, PayeeSourceView)>,
                StoreErrorView,
            >(e@),
        },
{
    let pairs = match source_rows(rows) {
        Ok(pairs) => pairs,
        Err(e) => {
            return Err(e);
        },
    };
    let ghost all = payee_views(list@);
    let ghost sources = source_pair_views(pairs@);
    let mut left = list;
    let mut out: Vec<PayeeRow> = Vec::new();
    let n = left.len();
    let mut i: usize = 0;
    while i < n
        invariant
            i <= n,
            n == all.len(),
            left@.len() == n - i,
            all == payee_views(list@),
            sources == source_pair_views(pairs@),
            forall|k: int| 0 <= k < left@.len() ==> (#[trigger] left@[k]) == list@[i + k],
            payee_views(out@) == with_sources(all, sources).take(i as int),
        decreases n - i,
    {
        let ghost done = payee_views(out@);
        proof {
            assert(left@[0] == list@[i as int]);
            assert(all[i as int] == list@[i as int]@);
        }
        let mut payee = left.remove(0);
        let seen = id_seen(&out, out.len(), payee.id.as_str());
        proof {
            assert(with_sources(all, sources).len() == all.len());
            assert(payee_views(out@).len() == out@.len());
            assert(out@.len() == i);
            assert forall|j: int| 0 <= j < i implies (#[trigger] out@[j]).id@ == all[j].id by {
                assert(done[j] == with_sources(all, sources)[j]);
                assert(done[j] == out@[j]@);
            }
            if seen {
                let j = choose|j: int| 0 <= j < i && (#[trigger] out@[j]).id@ == payee.id@;
                assert(all[j].id == all[i as int].id);
                assert(!first_of_id(all, i as int));
            } else {
                assert forall|j: int| 0 <= j < i implies (#[trigger] all[j]).id
                    != all[i as int].id by {
                    assert(out@[j].id@ == all[j].id);
                }
                assert(first_of_id(all, i as int));
            }
        }
        if !seen {
            payee.sources = take_sources(&pairs, payee.id.as_str());
        }
        proof {
            assert(payee@ =~= with_sources(all, sources)[i as int]);
        }
        out.push(payee);
        proof {
            assert(payee_views(out@) =~= done.push(payee@));
            assert(payee_views(out@) =~= with_sources(all, sources).take(i as int + 1));
        }
        i += 1;
    }
    proof {
        assert(with_sources(all, sources).take(all.len() as int) =~= with_sources(all, sources));
    }
    Ok(out)
}

} // verus!
