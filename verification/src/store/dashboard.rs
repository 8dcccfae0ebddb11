//! The dashboard: what was spent, on what, with whom and when.

use crate::parse::opt_text;
use crate::store::action::{Action, ActionView};
use crate::store::rows::{check_row, integer_of, list_of, list_outcome, list_views, read_rows,
    row_error, statement_from, statement_of, take_integer, take_text, text_of, Category,
    CategoryView, Column, FromRow, StatementRow, StatementRowView};
use crate::store::step::{not_found, step_view, Step, StepView};
use crate::store::value::{outcome, row_views, value_views, Reply, ReplyView, SqlValue, SqlView,
    StoreError, StoreErrorView};
use crate::text::copy;
use vstd::prelude::*;

verus! {

/// What was spent.
#[derive(Debug, Clone)]
pub struct Dashboard {
    pub statement: Option<StatementRow>,
    /// The debits of each spending category. What has no label is in no
    /// category: see `unlabeled_debit_minor`.
    pub spend_by_category: Vec<(Category, i64)>,
    pub unlabeled_debit_minor: i64,
    pub unlabeled_count: i64,
    pub top_payees: Vec<(String, i64)>,
    /// Month, debits and credits, by month.
    pub monthly: Vec<(String, i64, i64)>,
}

#[verifier::ext_equal]
pub ghost struct DashboardView {
    pub statement: Option<StatementRowView>,
    pub spend_by_category: Seq<(CategoryView, i64)>,
    pub unlabeled_debit_minor: i64,
    pub unlabeled_count: i64,
    pub top_payees: Seq<(Seq<char>, i64)>,
    pub monthly: Seq<(Seq<char>, i64, i64)>,
}

pub open spec fn opt_statement(s: Option<StatementRow>) -> Option<StatementRowView> {
    match s {
        Some(s) => Some(s@),
        None => None,
    }
}

impl View for Dashboard {
    type V = DashboardView;

    open spec fn view(&self) -> DashboardView {
        DashboardView {
            statement: opt_statement(self.statement),
            spend_by_category: spend_views(self.spend_by_category@),
            unlabeled_debit_minor: self.unlabeled_debit_minor,
            unlabeled_count: self.unlabeled_count,
            top_payees: top_views(self.top_payees@),
            monthly: month_views(self.monthly@),
        }
    }
}

/// The columns of a category's spending.
pub open spec fn spend_columns() -> Seq<Column> {
    seq![
        Column::Text,
        Column::Text,
        Column::Text,
        Column::Text,
        Column::Integer,
        Column::Integer,
    ]
}

/// A category and its spending, as a row holds them.
pub open spec fn spend_of(row: Seq<SqlView>) -> Result<(CategoryView, i64), StoreErrorView> {
    match row_error(row, spend_columns(), 0) {
        Some(e) => Err(e),
        None => Ok(
            (
                CategoryView {
                    id: text_of(row[0]),
                    name: text_of(row[1]),
                    kind: text_of(row[2]),
                    color: text_of(row[3]),
                    sort: integer_of(row[4]),
                },
                integer_of(row[5]),
            ),
        ),
    }
}

fn spend_from(row: &[SqlValue]) -> (r: Result<(Category, i64), StoreError>)
    ensures
        outcome(r) == spend_of(value_views(row@)),
{
    let columns = vec![
        Column::Text,
        Column::Text,
        Column::Text,
        Column::Text,
        Column::Integer,
        Column::Integer,
    ];
    proof {
        assert(columns@ =~= spend_columns());
        assert(value_views(row@).len() == row@.len());
    }
    if let Some(e) = check_row(row, &columns) {
        return Err(e);
    }
    Ok(
        (
            Category {
                id: take_text(&row[0]),
                name: take_text(&row[1]),
                kind: take_text(&row[2]),
                color: take_text(&row[3]),
                sort: take_integer(&row[4]),
            },
            take_integer(&row[5]),
        ),
    )
}

impl FromRow for (Category, i64) {
    open spec fn of_row(row: Seq<SqlView>) -> Result<(CategoryView, i64), StoreErrorView> {
        spend_of(row)
    }

    fn from_row(row: &[SqlValue]) -> (r: Result<(Category, i64), StoreError>) {
        spend_from(row)
    }
}

/// The categories and their spending that rows hold, in order.
pub open spec fn spends_of(rows: Seq<Seq<SqlView>>) -> Result<
    Seq<(CategoryView, i64)>,
    StoreErrorView,
> {
    list_of::<(Category, i64)>(rows)
}

pub open spec fn spend_views(list: Seq<(Category, i64)>) -> Seq<(CategoryView, i64)> {
    list_views(list)
}

/// Reads rows until one cannot be read.
fn spend_rows(rows: &[Vec<SqlValue>]) -> (r: Result<Vec<(Category, i64)>, StoreError>)
    ensures
        list_outcome(r) == spends_of(row_views(rows@)),
{
    read_rows(rows)
}

/// The columns of a payee's spending.
pub open spec fn top_columns() -> Seq<Column> {
    seq![
        Column::Text,
        Column::Integer,
    ]
}

/// A payee and its spending, as a row holds them.
pub open spec fn top_of(row: Seq<SqlView>) -> Result<(Seq<char>, i64), StoreErrorView> {
    match row_error(row, top_columns(), 0) {
        Some(e) => Err(e),
        None => Ok((text_of(row[0]), integer_of(row[1]))),
    }
}

fn top_from(row: &[SqlValue]) -> (r: Result<(String, i64), StoreError>)
    ensures
        outcome(r) == top_of(value_views(row@)),
{
    let columns = vec![
        Column::Text,
        Column::Integer,
    ];
    proof {
        assert(columns@ =~= top_columns());
        assert(value_views(row@).len() == row@.len());
    }
    if let Some(e) = check_row(row, &columns) {
        return Err(e);
    }
    Ok((take_text(&row[0]), take_integer(&row[1])))
}

impl FromRow for (String, i64) {
    open spec fn of_row(row: Seq<SqlView>) -> Result<(Seq<char>, i64), StoreErrorView> {
        top_of(row)
    }

    fn from_row(row: &[SqlValue]) -> (r: Result<(String, i64), StoreError>) {
        top_from(row)
    }
}

/// The payees and their spending that rows hold, in order.
pub open spec fn tops_of(rows: Seq<Seq<SqlView>>) -> Result<Seq<(Seq<char>, i64)>, StoreErrorView> {
    list_of::<(String, i64)>(rows)
}

pub open spec fn top_views(list: Seq<(String, i64)>) -> Seq<(Seq<char>, i64)> {
    list_views(list)
}

/// Reads rows until one cannot be read.
fn top_rows(rows: &[Vec<SqlValue>]) -> (r: Result<Vec<(String, i64)>, StoreError>)
    ensures
        list_outcome(r) == tops_of(row_views(rows@)),
{
    read_rows(rows)
}

/// The columns of a month.
pub open spec fn month_columns() -> Seq<Column> {
    seq![
        Column::Text,
        Column::Integer,
        Column::Integer,
    ]
}

/// A month, its debits and its credits, as a row holds them.
pub open spec fn month_of(row: Seq<SqlView>) -> Result<(Seq<char>, i64, i64), StoreErrorView> {
    match row_error(row, month_columns(), 0) {
        Some(e) => Err(e),
        None => Ok((text_of(row[0]), integer_of(row[1]), integer_of(row[2]))),
    }
}

fn month_from(row: &[SqlValue]) -> (r: Result<(String, i64, i64), StoreError>)
    ensures
        outcome(r) == month_of(value_views(row@)),
{
    let columns = vec![
        Column::Text,
        Column::Integer,
        Column::Integer,
    ];
    proof {
        assert(columns@ =~= month_columns());
        assert(value_views(row@).len() == row@.len());
    }
    if let Some(e) = check_row(row, &columns) {
        return Err(e);
    }
    Ok((take_text(&row[0]), take_integer(&row[1]), take_integer(&row[2])))
}

impl FromRow for (String, i64, i64) {
    open spec fn of_row(row: Seq<SqlView>) -> Result<(Seq<char>, i64, i64), StoreErrorView> {
        month_of(row)
    }

    fn from_row(row: &[SqlValue]) -> (r: Result<(String, i64, i64), StoreError>) {
        month_from(row)
    }
}

/// The months that rows hold, in order.
pub open spec fn months_of(rows: Seq<Seq<SqlView>>) -> Result<
    Seq<(Seq<char>, i64, i64)>,
    StoreErrorView,
> {
    list_of::<(String, i64, i64)>(rows)
}

pub open spec fn month_views(list: Seq<(String, i64, i64)>) -> Seq<(Seq<char>, i64, i64)> {
    list_views(list)
}

/// Reads rows until one cannot be read.
fn month_rows(rows: &[Vec<SqlValue>]) -> (r: Result<Vec<(String, i64, i64)>, StoreError>)
    ensures
        list_outcome(r) == months_of(row_views(rows@)),
{
    read_rows(rows)
}

/// The columns of what has no label.
pub open spec fn totals_columns() -> Seq<Column> {
    seq![
        Column::Integer,
        Column::Integer,
    ]
}

/// The sum and the count that a row holds.
pub open spec fn totals_of(row: Seq<SqlView>) -> Result<(i64, i64), StoreErrorView> {
    match row_error(row, totals_columns(), 0) {
        Some(e) => Err(e),
        None => Ok((integer_of(row[0]), integer_of(row[1]))),
    }
}

fn totals_from(row: &[SqlValue]) -> (r: Result<(i64, i64), StoreError>)
    ensures
        outcome(r) == totals_of(value_views(row@)),
{
    let columns = vec![
        Column::Integer,
        Column::Integer,
    ];
    proof {
        assert(columns@ =~= totals_columns());
        assert(value_views(row@).len() == row@.len());
    }
    if let Some(e) = check_row(row, &columns) {
        return Err(e);
    }
    Ok((take_integer(&row[0]), take_integer(&row[1])))
}

/// Which reply a dashboard waits for.
#[derive(Debug, Clone, Copy, PartialEq, Eq, Structural)]
pub enum DashboardAt {
    Statement,
    Spend,
    Unlabeled,
    Top,
    Monthly,
}

/// A dashboard that is being read: as far as it has been, and what it is of.
#[derive(Debug)]
pub struct ReadDashboard {
    pub statement_id: Option<String>,
    pub read: Dashboard,
    pub at: DashboardAt,
}

#[verifier::ext_equal]
pub ghost struct ReadDashboardView {
    pub statement_id: Option<Seq<char>>,
    pub read: DashboardView,
    pub at: DashboardAt,
}

impl View for ReadDashboard {
    type V = ReadDashboardView;

    open spec fn view(&self) -> ReadDashboardView {
        ReadDashboardView {
            statement_id: opt_text(self.statement_id),
            read: self.read@,
            at: self.at,
        }
    }
}

pub type DashboardStep = StepView<ReadDashboardView, DashboardView>;

/// A dashboard of which nothing has been read.
pub open spec fn blank() -> DashboardView {
    DashboardView {
        statement: None,
        spend_by_category: Seq::empty(),
        unlabeled_debit_minor: 0,
        unlabeled_count: 0,
        top_payees: Seq::empty(),
        monthly: Seq::empty(),
    }
}

/// A dashboard starts with its statement: the one that it is of, or the
/// latest.
pub open spec fn dashboard_start(statement_id: Option<Seq<char>>) -> DashboardStep {
    StepView::Run(
        match statement_id {
            Some(id) => ActionView::StatementById { id },
            None => ActionView::LatestStatement,
        },
        ReadDashboardView { statement_id, read: blank(), at: DashboardAt::Statement },
    )
}

/// How the reading goes on: the categories, what has no label, the payees, the
/// months; each over the statement that the dashboard is of, or over all.
pub open spec fn dashboard_next(s: ReadDashboardView, reply: ReplyView) -> DashboardStep {
    match reply {
        ReplyView::Failed(what) => StepView::Finish(Err(StoreErrorView::Backend(what))),
        ReplyView::Done { rows, changed } => match s.at {
            DashboardAt::Statement => {
                let found = if rows.len() > 0 {
                    match statement_of(rows[0]) {
                        Err(e) => Err(e),
                        Ok(statement) => Ok(Some(statement)),
                    }
                } else {
                    match s.statement_id {
                        Some(id) => Err(StoreErrorView::NotFound("ekstre "@ + id)),
                        None => Ok(None),
                    }
                };
                match found {
                    Err(e) => StepView::Finish(Err(e)),
                    Ok(statement) => StepView::Run(
                        ActionView::SpendByCategory { statement_id: s.statement_id },
                        ReadDashboardView {
                            read: DashboardView { statement, ..s.read },
                            at: DashboardAt::Spend,
                            ..s
                        },
                    ),
                }
            },
            DashboardAt::Spend => match spends_of(rows) {
                Err(e) => StepView::Finish(Err(e)),
                Ok(spend_by_category) => StepView::Run(
                    ActionView::UnlabeledTotals { statement_id: s.statement_id },
                    ReadDashboardView {
                        read: DashboardView { spend_by_category, ..s.read },
                        at: DashboardAt::Unlabeled,
                        ..s
                    },
                ),
            },
            DashboardAt::Unlabeled => {
                let totals = if rows.len() == 0 {
                    Ok((0i64, 0i64))
                } else {
                    totals_of(rows[0])
                };
                match totals {
                    Err(e) => StepView::Finish(Err(e)),
                    Ok((unlabeled_debit_minor, unlabeled_count)) => StepView::Run(
                        ActionView::TopPayees { statement_id: s.statement_id },
                        ReadDashboardView {
                            read: DashboardView {
                                unlabeled_debit_minor,
                                unlabeled_count,
                                ..s.read
                            },
                            at: DashboardAt::Top,
                            ..s
                        },
                    ),
                }
            },
            DashboardAt::Top => match tops_of(rows) {
                Err(e) => StepView::Finish(Err(e)),
                Ok(top_payees) => StepView::Run(
                    ActionView::MonthlyTotals { statement_id: s.statement_id },
                    ReadDashboardView {
                        read: DashboardView { top_payees, ..s.read },
                        at: DashboardAt::Monthly,
                        ..s
                    },
                ),
            },
            DashboardAt::Monthly => match months_of(rows) {
                Err(e) => StepView::Finish(Err(e)),
                Ok(monthly) => StepView::Finish(Ok(DashboardView { monthly, ..s.read })),
            },
        },
    }
}

fn copy_id(id: &Option<String>) -> (r: Option<String>)
    ensures
        opt_text(r) == opt_text(*id),
{
    match id {
        Some(id) => Some(copy(id.as_str())),
        None => None,
    }
}

/// Starts a dashboard of one statement, or of all.
pub fn dashboard(statement_id: Option<&str>) -> (r: Step<ReadDashboard, Dashboard>)
    ensures
        step_view(r) == dashboard_start(
            match statement_id {
                Some(id) => Some(id@),
                None => None,
            },
        ),
{
    let action = match statement_id {
        Some(id) => Action::StatementById { id: copy(id) },
        None => Action::LatestStatement,
    };
    let state = ReadDashboard {
        statement_id: match statement_id {
            Some(id) => Some(copy(id)),
            None => None,
        },
        read: Dashboard {
            statement: None,
            spend_by_category: Vec::new(),
            unlabeled_debit_minor: 0,
            unlabeled_count: 0,
            top_payees: Vec::new(),
            monthly: Vec::new(),
        },
        at: DashboardAt::Statement,
    };
    proof {
        assert(state.read@ =~= blank());
    }
    Step::Run(action, state)
}

impl ReadDashboard {
    /// Goes on with a reply.
    pub fn resume(self, reply: Reply) -> (r: Step<ReadDashboard, Dashboard>)
        ensures
            step_view(r) == dashboard_next(self@, reply@),
    {
        let rows = match reply {
            Reply::Failed(what) => {
                return Step::Finish(Err(StoreError::Backend(what)));
            },
            Reply::Done { rows, changed } => rows,
        };
        let ReadDashboard { statement_id, read, at } = self;
        let mut read = read;
        match at {
            DashboardAt::Statement => {
                if rows.len() > 0 {
                    match statement_from(&rows[0]) {
                        Err(e) => {
                            return Step::Finish(Err(e));
                        },
                        Ok(statement) => {
                            read.statement = Some(statement);
                        },
                    }
                } else {
                    if let Some(id) = &statement_id {
                        return Step::Finish(Err(not_found("ekstre ", id.as_str())));
                    }
                    read.statement = None;
                }
                let action = Action::SpendByCategory { statement_id: copy_id(&statement_id) };
                Step::Run(action, ReadDashboard { statement_id, read, at: DashboardAt::Spend })
            },
            DashboardAt::Spend => match spend_rows(&rows) {
                Err(e) => Step::Finish(Err(e)),
                Ok(spend) => {
                    read.spend_by_category = spend;
                    let action = Action::UnlabeledTotals { statement_id: copy_id(&statement_id) };
                    Step::Run(
                        action,
                        ReadDashboard { statement_id, read, at: DashboardAt::Unlabeled },
                    )
                },
            },
            DashboardAt::Unlabeled => {
                let totals: (i64, i64) = if rows.len() == 0 {
                    (0, 0)
                } else {
                    match totals_from(&rows[0]) {
                        Ok(totals) => totals,
                        Err(e) => {
                            return Step::Finish(Err(e));
                        },
                    }
                };
                read.unlabeled_debit_minor = totals.0;
                read.unlabeled_count = totals.1;
                let action = Action::TopPayees { statement_id: copy_id(&statement_id) };
                Step::Run(action, ReadDashboard { statement_id, read, at: DashboardAt::Top })
            },
            DashboardAt::Top => match top_rows(&rows) {
                Err(e) => Step::Finish(Err(e)),
                Ok(top) => {
                    read.top_payees = top;
                    let action = Action::MonthlyTotals { statement_id: copy_id(&statement_id) };
                    Step::Run(
                        action,
                        ReadDashboard { statement_id, read, at: DashboardAt::Monthly },
                    )
                },
            },
            DashboardAt::Monthly => match month_rows(&rows) {
                Err(e) => Step::Finish(Err(e)),
                Ok(monthly) => {
                    read.monthly = monthly;
                    Step::Finish(Ok(read))
                },
            },
        }
    }
}

} // verus!
