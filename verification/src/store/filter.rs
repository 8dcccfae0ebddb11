//! Which transactions a query is about.

use crate::parse::opt_text;
use crate::store::action::{IN_CATEGORY, IN_STATEMENT, MATCHING, UNLABELED_ONLY};
use crate::store::value::{text_val, value_views, SqlValue, SqlView};
use vstd::prelude::*;
use vstd::string::StringExecFns;

verus! {

/// Which transactions to list. What is not given filters nothing; what is
/// given holds together.
#[derive(Debug, Clone)]
pub struct TxnFilter {
    pub statement_id: Option<String>,
    pub category_id: Option<String>,
    pub unlabeled_only: bool,
    /// A text that the merchant holds.
    pub q: Option<String>,
}

pub ghost struct TxnFilterView {
    pub statement_id: Option<Seq<char>>,
    pub category_id: Option<Seq<char>>,
    pub unlabeled_only: bool,
    pub q: Option<Seq<char>>,
}

impl View for TxnFilter {
    type V = TxnFilterView;

    open spec fn view(&self) -> TxnFilterView {
        TxnFilterView {
            statement_id: opt_text(self.statement_id),
            category_id: opt_text(self.category_id),
            unlabeled_only: self.unlabeled_only,
            q: opt_text(self.q),
        }
    }
}

impl Default for TxnFilter {
    /// All transactions.
    fn default() -> (r: TxnFilter)
        ensures
            r@ == (TxnFilterView {
                statement_id: None,
                category_id: None,
                unlabeled_only: false,
                q: None,
            }),
    {
        TxnFilter { statement_id: None, category_id: None, unlabeled_only: false, q: None }
    }
}

/// The condition that keeps a query to one statement, or none.
pub open spec fn scope(statement_id: Option<Seq<char>>) -> Seq<char> {
    match statement_id {
        Some(_) => IN_STATEMENT@,
        None => Seq::empty(),
    }
}

/// The parameters of that condition.
pub open spec fn scope_params(statement_id: Option<Seq<char>>) -> Seq<SqlView> {
    match statement_id {
        Some(id) => seq![SqlView::Text(id)],
        None => Seq::empty(),
    }
}

/// The conditions of a filter, each behind an `AND`.
pub open spec fn where_text(f: TxnFilterView) -> Seq<char> {
    scope(f.statement_id) + (if f.category_id is Some {
        IN_CATEGORY@
    } else {
        Seq::empty()
    }) + (if f.unlabeled_only {
        UNLABELED_ONLY@
    } else {
        Seq::empty()
    }) + (if f.q is Some {
        MATCHING@
    } else {
        Seq::empty()
    })
}

/// The pattern of the texts that hold `q`.
pub open spec fn pattern(q: Seq<char>) -> Seq<char> {
    "%"@ + q + "%"@
}

/// The parameters of a filter's conditions.
pub open spec fn where_params(f: TxnFilterView) -> Seq<SqlView> {
    scope_params(f.statement_id) + scope_params(f.category_id) + (match f.q {
        Some(q) => seq![SqlView::Text(pattern(q)), SqlView::Text(pattern(q))],
        None => Seq::empty(),
    })
}

impl TxnFilter {
    /// The conditions as SQL text.
    pub fn where_sql(&self) -> (r: String)
        ensures
            r@ == where_text(self@),
    {
        let mut text = String::new();
        if self.statement_id.is_some() {
            text.append(IN_STATEMENT);
        }
        if self.category_id.is_some() {
            text.append(IN_CATEGORY);
        }
        if self.unlabeled_only {
            text.append(UNLABELED_ONLY);
        }
        if self.q.is_some() {
            text.append(MATCHING);
        }
        proof {
            assert(text@ =~= where_text(self@));
        }
        text
    }
}

/// Appends the parameters of a filter's conditions.
pub fn push_filter_params(filter: &TxnFilter, vals: &mut Vec<SqlValue>)
    ensures
        value_views(final(vals)@) == value_views(old(vals)@) + where_params(filter@),
{
    let ghost start = value_views(vals@);
    if let Some(id) = &filter.statement_id {
        vals.push(text_val(id.as_str()));
    }
    proof {
        assert(value_views(vals@) =~= start + scope_params(filter@.statement_id));
    }
    let ghost second = value_views(vals@);
    if let Some(cat) = &filter.category_id {
        vals.push(text_val(cat.as_str()));
    }
    proof {
        assert(value_views(vals@) =~= second + scope_params(filter@.category_id));
    }
    let ghost third = value_views(vals@);
    if let Some(q) = &filter.q {
        let mut needle = String::new();
        needle.append("%");
        needle.append(q.as_str());
        needle.append("%");
        proof {
            assert(needle@ =~= pattern(q@));
        }
        vals.push(text_val(needle.as_str()));
        vals.push(text_val(needle.as_str()));
        proof {
            assert(value_views(vals@) =~= third + seq![
                SqlView::Text(pattern(q@)),
                SqlView::Text(pattern(q@)),
            ]);
        }
    }
    proof {
        assert(value_views(vals@) =~= start + where_params(filter@));
    }
}

} // verus!
