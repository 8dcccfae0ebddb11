//! What is read of the store: lists, and the dashboard.

use crate::parse::merchant::stem;
use crate::parse::{direction_reads_back, Direction, ParseResultView, ParsedTxnView};
use crate::store::action::ActionView;
use crate::store::dashboard::{dashboard_next, dashboard_start, month_columns, spend_columns,
    top_columns, totals_columns, DashboardAt, DashboardStep, DashboardView, ReadDashboardView};
use crate::store::filter::{pattern, TxnFilterView};
use crate::store::groups::{unlabeled_columns, unlabeled_in, unlabeled_of, MerchantHitView,
    UnlabeledView};
use crate::store::import::{import_start, ImportReportView};
use crate::store::laws::import::{import_runs, is_known, is_sound, stores,
    unknown_statement_is_no_duplicate};
use crate::store::laws::rows::{fitting_row, stored_statement_reads_back,
    stored_transaction_reads_back};
use crate::store::model::{does, labels, runs, Db, Event, Tables, TxnRec};
use crate::store::payees::{first_of_id, payee_columns, payees_of, source_columns, sources_for,
    sources_of, with_sources, PayeeRow, PayeeRowView, PayeeSource, PayeeSourceView};
use crate::store::query::{by_name, by_sort, by_text, category_color, category_name, category_of,
    category_row, first_name, in_month, is_category, is_i64, is_match, is_month, is_paid, is_payee,
    is_picked, is_source, is_spent_on, is_statement, is_unlabeled, last_first, latest_first, like,
    lists, lists_by, lists_first, month_row, most_paid_first, most_spent_first, most_used_first,
    paid_row, paid_to, payee_name, payee_row, source_row, spend_row, spent_on, statement_row,
    sum_over, to_nul, total, txn_row, unlabeled_count, unlabeled_debit, unlabeled_row, uses_of};
use crate::store::rows::{categories_of, category_columns, list_of, list_reads, statements_of,
    txns_of, Category, CategoryView, FromRow, StatementRow, StatementRowView, TxnRow, TxnRowView};
use crate::store::step::{StampView, StepView};
use crate::store::value::{ReplyView, SqlView, StoreErrorView};
use crate::text::{ascii_lower, before_bound, lower_text};
use vstd::prelude::*;

verus! {

/// Rows that list records are read as a list of those records.
proof fn rows_are_read<K, T: FromRow>(
    rows: Seq<Seq<SqlView>>,
    which: spec_fn(K) -> bool,
    row: spec_fn(K) -> Seq<SqlView>,
    value: spec_fn(K) -> T::V,
    upto: spec_fn(K, K) -> bool,
)
    requires
        lists(rows, which, row, upto),
        forall|k: K| #[trigger] which(k) ==> T::of_row(row(k)) == Ok::<T::V, StoreErrorView>(
            value(k),
        ),
    ensures
        list_of::<T>(rows) is Ok,
        lists(list_of::<T>(rows)->Ok_0, which, value, upto),
{
    let keys = choose|keys: Seq<K>| #[trigger] lists_by(rows, keys, which, row, upto);
    assert forall|i: int| 0 <= i < rows.len() implies T::of_row(#[trigger] rows[i]) == Ok::<
        T::V,
        StoreErrorView,
    >(value(keys[i])) by {
        assert(keys.contains(keys[i]));
        assert(which(keys[i]));
    }
    list_reads::<T>(rows);
    let list = list_of::<T>(rows)->Ok_0;
    assert forall|i: int| 0 <= i < keys.len() implies #[trigger] list[i] == value(keys[i]) by {
        assert(T::of_row(rows[i]) == Ok::<T::V, StoreErrorView>(list[i]));
    }
    assert(lists_by(list, keys, which, value, upto));
}

/// The first rows of such a list, too.
proof fn first_rows_are_read<K, T: FromRow>(
    rows: Seq<Seq<SqlView>>,
    most: nat,
    which: spec_fn(K) -> bool,
    row: spec_fn(K) -> Seq<SqlView>,
    value: spec_fn(K) -> T::V,
    upto: spec_fn(K, K) -> bool,
)
    requires
        lists_first(rows, most, which, row, upto),
        forall|k: K| #[trigger] which(k) ==> T::of_row(row(k)) == Ok::<T::V, StoreErrorView>(
            value(k),
        ),
    ensures
        list_of::<T>(rows) is Ok,
        lists_first(list_of::<T>(rows)->Ok_0, most, which, value, upto),
{
    let all = choose|all: Seq<Seq<SqlView>>| #[trigger]
        lists(all, which, row, upto) && rows == if all.len() <= most {
            all
        } else {
            all.take(most as int)
        };
    rows_are_read::<K, T>(all, which, row, value, upto);
    let list = list_of::<T>(all)->Ok_0;
    let keys = choose|keys: Seq<K>| #[trigger] lists_by(all, keys, which, row, upto);
    assert forall|i: int| 0 <= i < all.len() implies T::of_row(#[trigger] all[i]) is Ok by {
        assert(keys.contains(keys[i]));
        assert(which(keys[i]));
    }
    list_reads::<T>(all);
    assert forall|i: int| 0 <= i < rows.len() implies T::of_row(#[trigger] rows[i]) is Ok by {
        assert(rows[i] == all[i]);
    }
    list_reads::<T>(rows);
    let first = list_of::<T>(rows)->Ok_0;
    assert forall|i: int| 0 <= i < rows.len() implies #[trigger] first[i] == list[i] by {
        assert(rows[i] == all[i]);
        assert(T::of_row(all[i]) == Ok::<T::V, StoreErrorView>(list[i]));
    }
    if all.len() <= most {
        assert(first =~= list);
    } else {
        assert(first =~= list.take(most as int));
    }
}

/// A stored statement as it is read.
pub open spec fn statement_value(t: Tables) -> spec_fn(Seq<char>) -> StatementRowView {
    |id: Seq<char>|
        {
            let head = t.statements[id].head;
            StatementRowView {
                id,
                source_sha256: head.source_sha256,
                period_end: head.period_end,
                next_period_end: head.next_period_end,
                due_date: head.due_date,
                next_due_date: head.next_due_date,
                previous_balance_minor: head.previous_balance_minor,
                spend_minor: head.spend_minor,
                fees_minor: head.fees_minor,
                payments_minor: head.payments_minor,
                period_debt_minor: head.period_debt_minor,
                period_debt_usd_minor: head.period_debt_usd_minor,
                min_pay_minor: head.min_pay_minor,
                card_limit_minor: head.card_limit_minor,
                available_limit_minor: head.available_limit_minor,
                imported_at: t.statements[id].imported_at,
            }
        }
}

/// A stored transaction as it is read.
pub open spec fn txn_value(t: Tables) -> spec_fn(Seq<char>) -> TxnRowView {
    |id: Seq<char>|
        {
            let x = t.txns[id];
            TxnRowView {
                id,
                statement_id: x.statement_id,
                row_index: x.txn.row_index,
                date: x.txn.date,
                merchant_raw: x.txn.merchant_raw,
                merchant_norm: x.txn.merchant_norm,
                extra: x.txn.extra,
                amount_minor: x.txn.amount_minor,
                direction: x.txn.direction,
                usd_minor: x.txn.usd_minor,
                bankkart_lira_minor: x.txn.bankkart_lira_minor,
                card_last4: x.txn.card_last4,
                kind: x.txn.kind,
                payee_id: x.payee_id,
                payee_name: payee_name(t, x),
                category_id: category_of(t, x),
                category_name: category_name(t, x),
                category_color: category_color(t, x),
            }
        }
}

/// A stored category as it is read.
pub open spec fn category_value(t: Tables) -> spec_fn(Seq<char>) -> CategoryView {
    |id: Seq<char>|
        CategoryView {
            id,
            name: t.categories[id].name,
            kind: t.categories[id].kind,
            color: t.categories[id].color,
            sort: t.categories[id].sort,
        }
}

/// A stored payee as it is read, without its merchants.
pub open spec fn payee_value(t: Tables) -> spec_fn(Seq<char>) -> PayeeRowView {
    |id: Seq<char>|
        PayeeRowView {
            id,
            name: t.payees[id].name,
            category_id: t.payees[id].category_id,
            created_at: t.payees[id].created_at,
            sources: Seq::empty(),
        }
}

/// A payee's merchant as it is read.
pub open spec fn source_value(t: Tables) -> spec_fn((Seq<char>, Seq<char>)) -> (
    Seq<char>,
    PayeeSourceView,
) {
    |k: (Seq<char>, Seq<char>)|
        (
            k.0,
            PayeeSourceView {
                display: stem(first_name(t, k.0, k.1)),
                merchant_norm: k.1,
                count: uses_of(t, k.0, k.1) as i64,
            },
        )
}

/// A category and what was spent on it, as they are read.
pub open spec fn spend_value(t: Tables, statement_id: Option<Seq<char>>) -> spec_fn(Seq<char>) -> (
    CategoryView,
    i64,
) {
    |c: Seq<char>| (category_value(t)(c), spent_on(t, statement_id, c) as i64)
}

/// A payee's name and what was paid to it, as they are read.
pub open spec fn paid_value(t: Tables, statement_id: Option<Seq<char>>) -> spec_fn(Seq<char>) -> (
    Seq<char>,
    i64,
) {
    |p: Seq<char>| (t.payees[p].name, paid_to(t, statement_id, p) as i64)
}

/// A month with its debits and its credits, as they are read.
pub open spec fn month_value(t: Tables, statement_id: Option<Seq<char>>) -> spec_fn(Seq<char>) -> (
    Seq<char>,
    i64,
    i64,
) {
    |m: Seq<char>|
        (
            m,
            in_month(t, statement_id, m, Direction::Debit) as i64,
            in_month(t, statement_id, m, Direction::Credit) as i64,
        )
}

/// The list of transactions has each that the filter picks, once, as it is
/// stored and with the names of its payee and category, the latest first.
pub proof fn list_of_transactions_is_what_the_filter_picks(
    t: Tables,
    filter: TxnFilterView,
    rows: Seq<Seq<SqlView>>,
    changed: u64,
    after: Tables,
)
    requires
        does(t, ActionView::ListTxns { filter }, rows, changed, after),
    ensures
        after == t,
        txns_of(rows) is Ok,
        lists(txns_of(rows)->Ok_0, is_picked(t, filter), txn_value(t), last_first(t)),
{
    assert forall|id: Seq<char>| #[trigger] is_picked(t, filter)(id) implies TxnRow::of_row(
        txn_row(t)(id),
    ) == Ok::<TxnRowView, StoreErrorView>(txn_value(t)(id)) by {
        let x = t.txns[id];
        stored_transaction_reads_back(
            id,
            x.statement_id,
            x.txn,
            x.payee_id,
            payee_name(t, x),
            category_of(t, x),
            category_name(t, x),
            category_color(t, x),
        );
    }
    rows_are_read::<Seq<char>, TxnRow>(
        rows,
        is_picked(t, filter),
        txn_row(t),
        txn_value(t),
        last_first(t),
    );
}

proof fn statements_read(t: Tables)
    ensures
        forall|id: Seq<char>| #[trigger]
            is_statement(t)(id) ==> StatementRow::of_row(statement_row(t)(id)) == Ok::<
                StatementRowView,
                StoreErrorView,
            >(statement_value(t)(id)),
{
    assert forall|id: Seq<char>| #[trigger] is_statement(t)(id) implies StatementRow::of_row(
        statement_row(t)(id),
    ) == Ok::<StatementRowView, StoreErrorView>(statement_value(t)(id)) by {
        stored_statement_reads_back(id, t.statements[id].head, t.statements[id].imported_at);
    }
}

/// The list of statements has each, once, as it is stored, the latest first.
pub proof fn list_of_statements_is_what_is_stored(
    t: Tables,
    rows: Seq<Seq<SqlView>>,
    changed: u64,
    after: Tables,
)
    requires
        does(t, ActionView::ListStatements, rows, changed, after),
    ensures
        after == t,
        statements_of(rows) is Ok,
        lists(statements_of(rows)->Ok_0, is_statement(t), statement_value(t), latest_first(t)),
{
    statements_read(t);
    rows_are_read::<Seq<char>, StatementRow>(
        rows,
        is_statement(t),
        statement_row(t),
        statement_value(t),
        latest_first(t),
    );
}

/// The list of categories has each, once, as it is stored, in their order.
pub proof fn list_of_categories_is_what_is_stored(
    t: Tables,
    rows: Seq<Seq<SqlView>>,
    changed: u64,
    after: Tables,
)
    requires
        does(t, ActionView::ListCategories, rows, changed, after),
    ensures
        after == t,
        categories_of(rows) is Ok,
        lists(categories_of(rows)->Ok_0, is_category(t), category_value(t), by_sort(t)),
{
    assert forall|id: Seq<char>| #[trigger] is_category(t)(id) implies Category::of_row(
        category_row(t)(id),
    ) == Ok::<CategoryView, StoreErrorView>(category_value(t)(id)) by {
        fitting_row(category_row(t)(id), category_columns(), 0);
    }
    rows_are_read::<Seq<char>, Category>(
        rows,
        is_category(t),
        category_row(t),
        category_value(t),
        by_sort(t),
    );
}

/// The list of payees has each, once, as it is stored, by name.
pub proof fn list_of_payees_is_what_is_stored(
    t: Tables,
    rows: Seq<Seq<SqlView>>,
    changed: u64,
    after: Tables,
)
    requires
        does(t, ActionView::ListPayees, rows, changed, after),
    ensures
        after == t,
        payees_of(rows) is Ok,
        lists(payees_of(rows)->Ok_0, is_payee(t), payee_value(t), by_name(t)),
{
    assert forall|id: Seq<char>| #[trigger] is_payee(t)(id) implies PayeeRow::of_row(
        payee_row(t)(id),
    ) == Ok::<PayeeRowView, StoreErrorView>(payee_value(t)(id)) by {
        fitting_row(payee_row(t)(id), payee_columns(), 0);
    }
    rows_are_read::<Seq<char>, PayeeRow>(
        rows,
        is_payee(t),
        payee_row(t),
        payee_value(t),
        by_name(t),
    );
}

/// The list of payees' merchants has each merchant that a payee is the label
/// of, once, with the number of its transactions.
pub proof fn list_of_sources_is_what_is_labeled(
    t: Tables,
    rows: Seq<Seq<SqlView>>,
    changed: u64,
    after: Tables,
)
    requires
        does(t, ActionView::PayeeSources, rows, changed, after),
    ensures
        after == t,
        sources_of(rows) is Ok,
        lists(sources_of(rows)->Ok_0, is_source(t), source_value(t), most_used_first(t)),
        forall|p: Seq<char>, norm: Seq<char>| is_i64(#[trigger] uses_of(t, p, norm) as int),
{
    assert forall|k: (Seq<char>, Seq<char>)| #[trigger] is_source(t)(k) implies <(
        String,
        PayeeSource,
    )>::of_row(source_row(t)(k)) == Ok::<(Seq<char>, PayeeSourceView), StoreErrorView>(
        source_value(t)(k),
    ) by {
        fitting_row(source_row(t)(k), source_columns(), 0);
    }
    rows_are_read::<(Seq<char>, Seq<char>), (String, PayeeSource)>(
        rows,
        is_source(t),
        source_row(t),
        source_value(t),
        most_used_first(t),
    );
}

/// An unlabeled transaction as it is read.
pub open spec fn unlabeled_value(t: Tables) -> spec_fn(Seq<char>) -> UnlabeledView {
    |id: Seq<char>|
        {
            let x = t.txns[id].txn;
            UnlabeledView {
                norm: x.merchant_norm,
                raw: x.merchant_raw,
                hit: MerchantHitView {
                    date: x.date,
                    amount_minor: x.amount_minor,
                    direction: x.direction,
                    extra: x.extra,
                },
            }
        }
}

proof fn unlabeled_rows_read(rows: Seq<Seq<SqlView>>)
    requires
        unlabeled_in(rows) is Ok,
    ensures
        unlabeled_in(rows)->Ok_0.len() == rows.len(),
        forall|i: int|
            0 <= i < rows.len() ==> unlabeled_of(rows[i]) == Ok::<UnlabeledView, StoreErrorView>(
                #[trigger] unlabeled_in(rows)->Ok_0[i],
            ),
    decreases rows.len(),
{
    if rows.len() > 0 {
        let before = rows.drop_last();
        unlabeled_rows_read(before);
        let list = unlabeled_in(rows)->Ok_0;
        let fewer = unlabeled_in(before)->Ok_0;
        assert forall|i: int| 0 <= i < rows.len() implies unlabeled_of(rows[i]) == Ok::<
            UnlabeledView,
            StoreErrorView,
        >(#[trigger] list[i]) by {
            if i < before.len() {
                assert(list[i] == fewer[i]);
                assert(before[i] == rows[i]);
            }
        }
    }
}

/// The transactions that the inbox groups are those without a label, each
/// once, the latest first.
pub proof fn inbox_has_what_has_no_label(
    t: Tables,
    rows: Seq<Seq<SqlView>>,
    changed: u64,
    after: Tables,
)
    requires
        does(t, ActionView::UnlabeledTxns, rows, changed, after),
        unlabeled_in(rows) is Ok,
    ensures
        after == t,
        lists(unlabeled_in(rows)->Ok_0, is_unlabeled(t), unlabeled_value(t), last_first(t)),
{
    unlabeled_rows_read(rows);
    let keys = choose|keys: Seq<Seq<char>>| #[trigger]
        lists_by(rows, keys, is_unlabeled(t), unlabeled_row(t), last_first(t));
    let list = unlabeled_in(rows)->Ok_0;
    assert forall|i: int| 0 <= i < keys.len() implies #[trigger] list[i] == unlabeled_value(t)(
        keys[i],
    ) by {
        let row = unlabeled_row(t)(keys[i]);
        assert(rows[i] == row);
        direction_reads_back(t.txns[keys[i]].txn.direction);
        fitting_row(row, unlabeled_columns(), 0);
        assert(unlabeled_of(row) == Ok::<UnlabeledView, StoreErrorView>(
            unlabeled_value(t)(keys[i]),
        ));
    }
    assert(lists_by(list, keys, is_unlabeled(t), unlabeled_value(t), last_first(t)));
}

/// A dashboard is read from a step through events to an end.
pub open spec fn dashboard_runs(
    step: DashboardStep,
    db: Db,
    events: Seq<Event>,
    end: Db,
    out: Result<DashboardView, StoreErrorView>,
) -> bool {
    runs(
        |s: ReadDashboardView, reply: ReplyView, stamp: StampView| dashboard_next(s, reply),
        step,
        db,
        events,
        end,
        out,
    )
}

/// The statement that a dashboard is of: the one that was asked for, or the
/// latest where there is one.
pub open spec fn shows_statement(
    t: Tables,
    statement_id: Option<Seq<char>>,
    statement: Option<StatementRowView>,
) -> bool {
    match statement_id {
        Some(id) => t.statements.contains_key(id) && statement == Some(statement_value(t)(id)),
        None => match statement {
            Some(latest) => lists_first(
                seq![latest],
                1,
                is_statement(t),
                statement_value(t),
                latest_first(t),
            ),
            None => forall|id: Seq<char>| !#[trigger] t.statements.contains_key(id),
        },
    }
}

/// What each category of spending was spent on comes to, the most first.
pub open spec fn shows_spending(
    t: Tables,
    statement_id: Option<Seq<char>>,
    d: DashboardView,
) -> bool {
    lists(
        d.spend_by_category,
        is_spent_on(t, statement_id),
        spend_value(t, statement_id),
        most_spent_first(t, statement_id),
    ) && forall|c: Seq<char>|
        t.categories.contains_key(c) ==> is_i64(#[trigger] spent_on(t, statement_id, c))
}

/// What has no label comes to, and how much it is.
pub open spec fn shows_unlabeled(
    t: Tables,
    statement_id: Option<Seq<char>>,
    d: DashboardView,
) -> bool {
    d.unlabeled_debit_minor == unlabeled_debit(t, statement_id) && d.unlabeled_count
        == unlabeled_count(t, statement_id)
}

/// The eight payees that most was paid to.
pub open spec fn shows_payees(
    t: Tables,
    statement_id: Option<Seq<char>>,
    d: DashboardView,
) -> bool {
    lists_first(
        d.top_payees,
        8,
        is_paid(t, statement_id),
        paid_value(t, statement_id),
        most_paid_first(t, statement_id),
    ) && forall|p: Seq<char>|
        t.payees.contains_key(p) ==> is_i64(#[trigger] paid_to(t, statement_id, p))
}

/// The months that have transactions, in order, with what they come to.
pub open spec fn shows_months(
    t: Tables,
    statement_id: Option<Seq<char>>,
    d: DashboardView,
) -> bool {
    lists(
        d.monthly,
        is_month(t, statement_id),
        month_value(t, statement_id),
        by_text(),
    ) && forall|m: Seq<char>, direction: Direction|
        is_i64(#[trigger] in_month(t, statement_id, m, direction))
}

/// What a dashboard shows, as far as it has been read.
spec fn shows_so_far(t: Tables, s: ReadDashboardView, action: ActionView) -> bool {
    let statement_id = s.statement_id;
    match s.at {
        DashboardAt::Statement => action == match statement_id {
            Some(id) => ActionView::StatementById { id },
            None => ActionView::LatestStatement,
        },
        DashboardAt::Spend => shows_statement(t, statement_id, s.read.statement) && action
            == (ActionView::SpendByCategory { statement_id }),
        DashboardAt::Unlabeled => shows_statement(t, statement_id, s.read.statement)
            && shows_spending(t, statement_id, s.read) && action == (ActionView::UnlabeledTotals {
            statement_id,
        }),
        DashboardAt::Top => shows_statement(t, statement_id, s.read.statement) && shows_spending(
            t,
            statement_id,
            s.read,
        ) && shows_unlabeled(t, statement_id, s.read) && action == (ActionView::TopPayees {
            statement_id,
        }),
        DashboardAt::Monthly => shows_statement(t, statement_id, s.read.statement)
            && shows_spending(t, statement_id, s.read) && shows_unlabeled(t, statement_id, s.read)
            && shows_payees(t, statement_id, s.read) && action == (ActionView::MonthlyTotals {
            statement_id,
        }),
    }
}

/// A finished dashboard shows what the tables hold.
pub open spec fn shows(t: Tables, statement_id: Option<Seq<char>>, d: DashboardView) -> bool {
    &&& shows_statement(t, statement_id, d.statement)
    &&& shows_spending(t, statement_id, d)
    &&& shows_unlabeled(t, statement_id, d)
    &&& shows_payees(t, statement_id, d)
    &&& shows_months(t, statement_id, d)
}

proof fn statement_is_shown(
    t: Tables,
    statement_id: Option<Seq<char>>,
    rows: Seq<Seq<SqlView>>,
    changed: u64,
)
    requires
        does(
            t,
            match statement_id {
                Some(id) => ActionView::StatementById { id },
                None => ActionView::LatestStatement,
            },
            rows,
            changed,
            t,
        ),
    ensures
        rows.len() > 0 ==> StatementRow::of_row(rows[0]) is Ok && shows_statement(
            t,
            statement_id,
            Some(StatementRow::of_row(rows[0])->Ok_0),
        ),
        rows.len() == 0 ==> match statement_id {
            Some(id) => !t.statements.contains_key(id),
            None => shows_statement(t, None, None),
        },
{
    statements_read(t);
    match statement_id {
        Some(id) => {
            assert(is_statement(t)(id) <==> t.statements.contains_key(id));
        },
        None => {
            let all = choose|all: Seq<Seq<SqlView>>| #[trigger]
                lists(all, is_statement(t), statement_row(t), latest_first(t)) && rows == if all.len()
                    <= 1 {
                    all
                } else {
                    all.take(1)
                };
            let keys = choose|keys: Seq<Seq<char>>| #[trigger]
                lists_by(all, keys, is_statement(t), statement_row(t), latest_first(t));
            first_rows_are_read::<Seq<char>, StatementRow>(
                rows,
                1,
                is_statement(t),
                statement_row(t),
                statement_value(t),
                latest_first(t),
            );
            if rows.len() > 0 {
                assert(rows[0] == all[0]);
                assert(keys.contains(keys[0]));
                assert(is_statement(t)(keys[0]));
                assert forall|i: int| 0 <= i < rows.len() implies StatementRow::of_row(
                    #[trigger] rows[i],
                ) is Ok by {
                    assert(i == 0);
                }
                list_reads::<StatementRow>(rows);
                let list = list_of::<StatementRow>(rows)->Ok_0;
                assert(list =~= seq![StatementRow::of_row(rows[0])->Ok_0]);
            } else {
                assert forall|id: Seq<char>| !#[trigger] t.statements.contains_key(id) by {
                    assert(is_statement(t)(id) <==> keys.contains(id));
                }
            }
        },
    }
}

proof fn spending_is_shown(
    t: Tables,
    statement_id: Option<Seq<char>>,
    rows: Seq<Seq<SqlView>>,
    changed: u64,
)
    requires
        does(t, ActionView::SpendByCategory { statement_id }, rows, changed, t),
    ensures
        list_of::<(Category, i64)>(rows) is Ok,
        lists(
            list_of::<(Category, i64)>(rows)->Ok_0,
            is_spent_on(t, statement_id),
            spend_value(t, statement_id),
            most_spent_first(t, statement_id),
        ),
{
    assert forall|c: Seq<char>| #[trigger] is_spent_on(t, statement_id)(c) implies <(
        Category,
        i64,
    )>::of_row(spend_row(t, statement_id)(c)) == Ok::<(CategoryView, i64), StoreErrorView>(
        spend_value(t, statement_id)(c),
    ) by {
        fitting_row(spend_row(t, statement_id)(c), spend_columns(), 0);
    }
    rows_are_read::<Seq<char>, (Category, i64)>(
        rows,
        is_spent_on(t, statement_id),
        spend_row(t, statement_id),
        spend_value(t, statement_id),
        most_spent_first(t, statement_id),
    );
}

proof fn payees_are_shown(
    t: Tables,
    statement_id: Option<Seq<char>>,
    rows: Seq<Seq<SqlView>>,
    changed: u64,
)
    requires
        does(t, ActionView::TopPayees { statement_id }, rows, changed, t),
    ensures
        list_of::<(String, i64)>(rows) is Ok,
        lists_first(
            list_of::<(String, i64)>(rows)->Ok_0,
            8,
            is_paid(t, statement_id),
            paid_value(t, statement_id),
            most_paid_first(t, statement_id),
        ),
{
    assert forall|p: Seq<char>| #[trigger] is_paid(t, statement_id)(p) implies <(
        String,
        i64,
    )>::of_row(paid_row(t, statement_id)(p)) == Ok::<(Seq<char>, i64), StoreErrorView>(
        paid_value(t, statement_id)(p),
    ) by {
        fitting_row(paid_row(t, statement_id)(p), top_columns(), 0);
    }
    first_rows_are_read::<Seq<char>, (String, i64)>(
        rows,
        8,
        is_paid(t, statement_id),
        paid_row(t, statement_id),
        paid_value(t, statement_id),
        most_paid_first(t, statement_id),
    );
}

proof fn months_are_shown(
    t: Tables,
    statement_id: Option<Seq<char>>,
    rows: Seq<Seq<SqlView>>,
    changed: u64,
)
    requires
        does(t, ActionView::MonthlyTotals { statement_id }, rows, changed, t),
    ensures
        list_of::<(String, i64, i64)>(rows) is Ok,
        lists(
            list_of::<(String, i64, i64)>(rows)->Ok_0,
            is_month(t, statement_id),
            month_value(t, statement_id),
            by_text(),
        ),
{
    assert forall|m: Seq<char>| #[trigger] is_month(t, statement_id)(m) implies <(
        String,
        i64,
        i64,
    )>::of_row(month_row(t, statement_id)(m)) == Ok::<(Seq<char>, i64, i64), StoreErrorView>(
        month_value(t, statement_id)(m),
    ) by {
        fitting_row(month_row(t, statement_id)(m), month_columns(), 0);
    }
    rows_are_read::<Seq<char>, (String, i64, i64)>(
        rows,
        is_month(t, statement_id),
        month_row(t, statement_id),
        month_value(t, statement_id),
        by_text(),
    );
}

proof fn dashboard_run(
    s: ReadDashboardView,
    action: ActionView,
    db: Db,
    events: Seq<Event>,
    end: Db,
    out: Result<DashboardView, StoreErrorView>,
)
    requires
        shows_so_far(db.tables, s, action),
        dashboard_runs(StepView::Run(action, s), db, events, end, out),
    ensures
        end == db,
        out matches Ok(d) ==> shows(db.tables, s.statement_id, d),
        out matches Err(e) ==> e is Backend || (s.statement_id matches Some(id)
            && !db.tables.statements.contains_key(id) && e == StoreErrorView::NotFound(
            "ekstre "@ + id,
        )),
    decreases events.len(),
{
    let event = events[0];
    let step = dashboard_next(s, event.reply);
    let t = db.tables;
    let statement_id = s.statement_id;
    assert(dashboard_runs(step, event.after, events.skip(1), end, out));
    if let ReplyView::Done { rows, changed } = event.reply {
        assert(event.after.tables == t);
        match s.at {
            DashboardAt::Statement => {
                statement_is_shown(t, statement_id, rows, changed);
            },
            DashboardAt::Spend => {
                spending_is_shown(t, statement_id, rows, changed);
            },
            DashboardAt::Unlabeled => {
                fitting_row(rows[0], totals_columns(), 0);
            },
            DashboardAt::Top => {
                payees_are_shown(t, statement_id, rows, changed);
            },
            DashboardAt::Monthly => {
                months_are_shown(t, statement_id, rows, changed);
            },
        }
        if let StepView::Run(next_action, next) = step {
            assert(shows_so_far(t, next, next_action));
            dashboard_run(next, next_action, event.after, events.skip(1), end, out);
        }
    }
}

/// Reading a dashboard changes nothing. One that is finished shows what the
/// tables hold: its statement, what was spent by category, what has no label,
/// the payees and the months. One that is not failed in the database, or was
/// asked of a statement that is not stored.
pub proof fn dashboard_shows_what_the_tables_hold(
    db: Db,
    statement_id: Option<Seq<char>>,
    events: Seq<Event>,
    end: Db,
    out: Result<DashboardView, StoreErrorView>,
)
    requires
        dashboard_runs(dashboard_start(statement_id), db, events, end, out),
    ensures
        end == db,
        out matches Ok(d) ==> shows(db.tables, statement_id, d),
        out matches Err(e) ==> e is Backend || (statement_id matches Some(id)
            && !db.tables.statements.contains_key(id) && e == StoreErrorView::NotFound(
            "ekstre "@ + id,
        )),
{
    if let StepView::Run(action, s) = dashboard_start(statement_id) {
        dashboard_run(s, action, db, events, end, out);
    }
}

/// The merchants' keys among pairs of a payee, in order.
spec fn norms_for(keys: Seq<(Seq<char>, Seq<char>)>, id: Seq<char>) -> Seq<Seq<char>>
    decreases keys.len(),
{
    if keys.len() == 0 {
        Seq::empty()
    } else if keys.last().0 == id {
        norms_for(keys.drop_last(), id).push(keys.last().1)
    } else {
        norms_for(keys.drop_last(), id)
    }
}

proof fn norms_are_those_of_the_payee(
    keys: Seq<(Seq<char>, Seq<char>)>,
    id: Seq<char>,
    upto: spec_fn((Seq<char>, Seq<char>), (Seq<char>, Seq<char>)) -> bool,
)
    requires
        keys.no_duplicates(),
        forall|i: int, j: int|
            0 <= i < j < keys.len() ==> upto(#[trigger] keys[i], #[trigger] keys[j]),
    ensures
        norms_for(keys, id).no_duplicates(),
        forall|norm: Seq<char>|
            #![trigger norms_for(keys, id).contains(norm)]
            #![trigger keys.contains((id, norm))]
            norms_for(keys, id).contains(norm) <==> keys.contains((id, norm)),
        forall|i: int, j: int|
            0 <= i < j < norms_for(keys, id).len() ==> upto(
                (id, #[trigger] norms_for(keys, id)[i]),
                (id, #[trigger] norms_for(keys, id)[j]),
            ),
    decreases keys.len(),
{
    if keys.len() > 0 {
        let fewer = keys.drop_last();
        let last = keys.last();
        assert forall|i: int, j: int| 0 <= i < j < fewer.len() implies upto(
            #[trigger] fewer[i],
            #[trigger] fewer[j],
        ) by {
            assert(upto(keys[i], keys[j]));
        }
        norms_are_those_of_the_payee(fewer, id, upto);
        let before = norms_for(fewer, id);
        let norms = norms_for(keys, id);
        assert(keys[keys.len() - 1] == last);
        assert forall|norm: Seq<char>| keys.contains((id, norm)) <==> fewer.contains((id, norm))
            || (id, norm) == last by {
            if fewer.contains((id, norm)) {
                let i = choose|i: int| 0 <= i < fewer.len() && fewer[i] == (id, norm);
                assert(keys[i] == (id, norm));
            }
            if keys.contains((id, norm)) && (id, norm) != last {
                let i = choose|i: int| 0 <= i < keys.len() && keys[i] == (id, norm);
                assert(fewer[i] == (id, norm));
            }
        }
        if last.0 == id {
            assert(!fewer.contains(last)) by {
                if fewer.contains(last) {
                    let i = choose|i: int| 0 <= i < fewer.len() && fewer[i] == last;
                    assert(keys[i] == keys[keys.len() - 1]);
                }
            }
            assert(!before.contains(last.1));
            assert(norms[norms.len() - 1] == last.1);
            assert forall|norm: Seq<char>| norms.contains(norm) <==> before.contains(norm) || norm
                == last.1 by {
                if before.contains(norm) {
                    let i = choose|i: int| 0 <= i < before.len() && before[i] == norm;
                    assert(norms[i] == norm);
                }
                if norms.contains(norm) && norm != last.1 {
                    let i = choose|i: int| 0 <= i < norms.len() && norms[i] == norm;
                    assert(before[i] == norm);
                }
            }
            assert forall|i: int, j: int| 0 <= i < j < norms.len() implies upto(
                (id, #[trigger] norms[i]),
                (id, #[trigger] norms[j]),
            ) && norms[i] != norms[j] by {
                assert(norms[i] == before[i]);
                assert(before.contains(before[i]));
                if j == norms.len() - 1 {
                    assert(fewer.contains((id, before[i])));
                    let k = choose|k: int| 0 <= k < fewer.len() && fewer[k] == (id, before[i]);
                    assert(upto(keys[k], keys[keys.len() - 1]));
                } else {
                    assert(norms[j] == before[j]);
                }
            }
            assert(norms.no_duplicates());
        }
    }
}

proof fn sources_are_those_of_the_payee(
    pairs: Seq<(Seq<char>, PayeeSourceView)>,
    keys: Seq<(Seq<char>, Seq<char>)>,
    value: spec_fn((Seq<char>, Seq<char>)) -> (Seq<char>, PayeeSourceView),
    id: Seq<char>,
)
    requires
        pairs.len() == keys.len(),
        forall|i: int|
            0 <= i < keys.len() ==> #[trigger] pairs[i] == value(keys[i]) && pairs[i].0
                == keys[i].0,
    ensures
        sources_for(pairs, id).len() == norms_for(keys, id).len(),
        forall|i: int|
            0 <= i < norms_for(keys, id).len() ==> #[trigger] sources_for(pairs, id)[i] == value(
                (id, norms_for(keys, id)[i]),
            ).1,
    decreases keys.len(),
{
    if keys.len() > 0 {
        let fewer_pairs = pairs.drop_last();
        let fewer = keys.drop_last();
        assert forall|i: int| 0 <= i < fewer.len() implies #[trigger] fewer_pairs[i] == value(
            fewer[i],
        ) && fewer_pairs[i].0 == fewer[i].0 by {
            assert(pairs[i] == fewer_pairs[i]);
        }
        sources_are_those_of_the_payee(fewer_pairs, fewer, value, id);
        assert(pairs[pairs.len() - 1] == pairs.last());
        let sources = sources_for(pairs, id);
        let norms = norms_for(keys, id);
        assert forall|i: int| 0 <= i < norms.len() implies #[trigger] sources[i] == value(
            (id, norms[i]),
        ).1 by {
            let before = sources_for(fewer_pairs, id);
            if i < before.len() {
                assert(sources[i] == before[i]);
                assert(norms[i] == norms_for(fewer, id)[i]);
            } else {
                assert(keys.last() == (id, norms[i]));
            }
        }
    }
}

/// A merchant that a payee is the label of.
pub open spec fn is_source_of(t: Tables, id: Seq<char>) -> spec_fn(Seq<char>) -> bool {
    |norm: Seq<char>| labels(t.txns, norm, id)
}

/// A payee's merchant as the payee has it.
pub open spec fn source_of_value(t: Tables, id: Seq<char>) -> spec_fn(
    Seq<char>,
) -> PayeeSourceView {
    |norm: Seq<char>| source_value(t)((id, norm)).1
}

/// The payee's merchant with more transactions first, then by key.
pub open spec fn most_used_of_first(t: Tables, id: Seq<char>) -> spec_fn(
    Seq<char>,
    Seq<char>,
) -> bool {
    |a: Seq<char>, b: Seq<char>| most_used_first(t)((id, a), (id, b))
}

/// Each payee that is listed has the merchants that it is the label of, each
/// once, with the number of their transactions.
pub proof fn payees_have_their_merchants(
    t: Tables,
    payee_rows: Seq<Seq<SqlView>>,
    source_rows: Seq<Seq<SqlView>>,
    changed: u64,
    i: int,
)
    requires
        does(t, ActionView::ListPayees, payee_rows, changed, t),
        does(t, ActionView::PayeeSources, source_rows, changed, t),
        0 <= i < payees_of(payee_rows)->Ok_0.len(),
    ensures
        ({
            let plain = payees_of(payee_rows)->Ok_0;
            let full = with_sources(plain, sources_of(source_rows)->Ok_0);
            let id = plain[i].id;
            &&& full.len() == plain.len()
            &&& full[i] == (PayeeRowView { sources: full[i].sources, ..plain[i] })
            &&& lists(
                full[i].sources,
                is_source_of(t, id),
                source_of_value(t, id),
                most_used_of_first(t, id),
            )
        }),
{
    list_of_payees_is_what_is_stored(t, payee_rows, changed, t);
    list_of_sources_is_what_is_labeled(t, source_rows, changed, t);
    let plain = payees_of(payee_rows)->Ok_0;
    let pairs = sources_of(source_rows)->Ok_0;
    let full = with_sources(plain, pairs);
    let id = plain[i].id;
    let ids = choose|ids: Seq<Seq<char>>| #[trigger]
        lists_by(plain, ids, is_payee(t), payee_value(t), by_name(t));
    assert(first_of_id(plain, i)) by {
        assert forall|j: int| 0 <= j < i implies (#[trigger] plain[j]).id != plain[i].id by {
            assert(plain[j] == payee_value(t)(ids[j]));
            assert(plain[i] == payee_value(t)(ids[i]));
            assert(ids[j] != ids[i]);
        }
    }
    let keys = choose|keys: Seq<(Seq<char>, Seq<char>)>| #[trigger]
        lists_by(pairs, keys, is_source(t), source_value(t), most_used_first(t));
    norms_are_those_of_the_payee(keys, id, most_used_first(t));
    sources_are_those_of_the_payee(pairs, keys, source_value(t), id);
    let norms = norms_for(keys, id);
    assert forall|norm: Seq<char>|
        #![trigger is_source_of(t, id)(norm)]
        #![trigger norms.contains(norm)]
        is_source_of(t, id)(norm) <==> norms.contains(norm) by {
        assert(is_source(t)((id, norm)) <==> keys.contains((id, norm)));
    }
    assert forall|a: int, b: int| 0 <= a < b < norms.len() implies most_used_of_first(t, id)(
        #[trigger] norms[a],
        #[trigger] norms[b],
    ) by {
        assert(most_used_first(t)((id, norms[a]), (id, norms[b])));
    }
    assert(lists_by(
        full[i].sources,
        norms,
        is_source_of(t, id),
        source_of_value(t, id),
        most_used_of_first(t, id),
    ));
}

/// A row of a list tells a transaction of a statement.
pub open spec fn tells(row: TxnRowView, statement_id: Seq<char>, txn: ParsedTxnView) -> bool {
    &&& row.statement_id == statement_id
    &&& row.row_index == txn.row_index
    &&& row.date == txn.date
    &&& row.merchant_raw == txn.merchant_raw
    &&& row.merchant_norm == txn.merchant_norm
    &&& row.extra == txn.extra
    &&& row.amount_minor == txn.amount_minor
    &&& row.direction == txn.direction
    &&& row.usd_minor == txn.usd_minor
    &&& row.bankkart_lira_minor == txn.bankkart_lira_minor
    &&& row.card_last4 == txn.card_last4
    &&& row.kind == txn.kind
}

/// The list of an imported statement has its transactions as they were parsed,
/// and no others.
pub proof fn imported_transactions_are_listed(
    db: Db,
    parsed: ParseResultView,
    events: Seq<Event>,
    end: Db,
    report: ImportReportView,
    rows: Seq<Seq<SqlView>>,
    changed: u64,
)
    requires
        is_sound(db.tables),
        db.saved is None,
        !is_known(db.tables, parsed.statement.source_sha256),
        import_runs(import_start(parsed), db, events, end, Ok(report)),
        does(
            end.tables,
            ActionView::ListTxns {
                filter: TxnFilterView {
                    statement_id: Some(report.statement_id),
                    category_id: None,
                    unlabeled_only: false,
                    q: None,
                },
            },
            rows,
            changed,
            end.tables,
        ),
    ensures
        txns_of(rows) is Ok,
        txns_of(rows)->Ok_0.len() == parsed.txns.len(),
        forall|i: int|
            0 <= i < parsed.txns.len() ==> exists|j: int|
                0 <= j < rows.len() && tells(
                    #[trigger] txns_of(rows)->Ok_0[j],
                    report.statement_id,
                    #[trigger] parsed.txns[i],
                ),
{
    let t = end.tables;
    let statement_id = report.statement_id;
    let filter = TxnFilterView {
        statement_id: Some(statement_id),
        category_id: None,
        unlabeled_only: false,
        q: None,
    };
    unknown_statement_is_no_duplicate(db, parsed, events, end, report);
    list_of_transactions_is_what_the_filter_picks(t, filter, rows, changed, t);
    let list = txns_of(rows)->Ok_0;
    let ids = choose|ids: Seq<Seq<char>>| stores(db.tables, t, parsed, statement_id, ids);
    let keys = choose|keys: Seq<Seq<char>>| #[trigger]
        lists_by(list, keys, is_picked(t, filter), txn_value(t), last_first(t));
    assert forall|id: Seq<char>| keys.contains(id) <==> ids.contains(id) by {
        assert(is_picked(t, filter)(id) <==> keys.contains(id));
        if ids.contains(id) {
            let i = choose|i: int| 0 <= i < ids.len() && ids[i] == id;
            assert(t.txns[ids[i]].statement_id == statement_id);
            assert(t.txns.contains_key(id));
        } else if t.txns.contains_key(id) {
            assert(db.tables.txns.contains_key(id));
            assert(t.txns[id] == db.tables.txns[id]);
            assert(db.tables.statements.contains_key(db.tables.txns[id].statement_id));
        }
    }
    assert(keys.to_set() =~= ids.to_set());
    keys.unique_seq_to_set();
    ids.unique_seq_to_set();
    list_rows_len(rows);
    assert forall|i: int| 0 <= i < parsed.txns.len() implies exists|j: int|
        0 <= j < rows.len() && tells(
            #[trigger] list[j],
            statement_id,
            #[trigger] parsed.txns[i],
        ) by {
        assert(ids.contains(ids[i]));
        assert(keys.contains(ids[i]));
        let j = choose|j: int| 0 <= j < keys.len() && keys[j] == ids[i];
        assert(list[j] == txn_value(t)(keys[j]));
        assert(t.txns[ids[i]].txn == parsed.txns[i]);
        assert(tells(list[j], statement_id, parsed.txns[i]));
    }
}

proof fn list_rows_len(rows: Seq<Seq<SqlView>>)
    requires
        txns_of(rows) is Ok,
    ensures
        txns_of(rows)->Ok_0.len() == rows.len(),
    decreases rows.len(),
{
    if rows.len() > 0 {
        list_rows_len(rows.drop_last());
    }
}

proof fn any_text_is_like_percent(s: Seq<char>)
    ensures
        like(s, "%"@),
    decreases s.len(),
{
    reveal_strlit("%");
    assert("%"@.skip(1) =~= Seq::<char>::empty());
    if s.len() > 0 {
        any_text_is_like_percent(s.skip(1));
    } else {
        assert(like(s, Seq::empty()));
    }
}

/// No character of a search stands for others.
pub open spec fn is_literal(q: Seq<char>) -> bool {
    !q.contains('%') && !q.contains('_') && !q.contains('\0')
}

/// A text starts with another, but for the case of ASCII letters.
pub open spec fn starts_like(s: Seq<char>, q: Seq<char>) -> bool {
    q.len() <= s.len() && lower_text(s.take(q.len() as int)) == lower_text(q)
}

proof fn like_start(s: Seq<char>, q: Seq<char>)
    requires
        forall|i: int| 0 <= i < q.len() ==> #[trigger] q[i] != '%' && q[i] != '_',
    ensures
        like(s, q + "%"@) <==> starts_like(s, q),
    decreases q.len(),
{
    reveal_strlit("%");
    let mask = q + "%"@;
    if q.len() == 0 {
        assert(mask =~= "%"@);
        any_text_is_like_percent(s);
        assert(lower_text(s.take(0)) =~= lower_text(q));
    } else {
        assert(q[0] != '%' && q[0] != '_');
        assert(mask.skip(1) =~= q.skip(1) + "%"@);
        if s.len() > 0 {
            let n = q.len() as int;
            assert forall|i: int| 0 <= i < q.skip(1).len() implies #[trigger] q.skip(1)[i] != '%'
                && q.skip(1)[i] != '_' by {
                assert(q.skip(1)[i] == q[i + 1]);
            }
            like_start(s.skip(1), q.skip(1));
            if q.len() <= s.len() {
                let a = lower_text(s.take(n));
                let b = lower_text(q);
                let a1 = lower_text(s.skip(1).take(n - 1));
                let b1 = lower_text(q.skip(1));
                assert(a =~= seq![ascii_lower(s[0])] + a1);
                assert(b =~= seq![ascii_lower(q[0])] + b1);
                if a == b {
                    assert(a[0] == b[0]);
                    assert(a.skip(1) =~= a1);
                    assert(b.skip(1) =~= b1);
                }
            }
        }
    }
}

proof fn like_within(s: Seq<char>, q: Seq<char>)
    requires
        forall|i: int| 0 <= i < q.len() ==> #[trigger] q[i] != '%' && q[i] != '_',
    ensures
        like(s, pattern(q)) <==> exists|i: int|
            0 <= i <= s.len() && starts_like(#[trigger] s.skip(i), q),
    decreases s.len(),
{
    reveal_strlit("%");
    let mask = pattern(q);
    assert(mask.skip(1) =~= q + "%"@);
    like_start(s, q);
    assert(s.skip(0) =~= s);
    if s.len() > 0 {
        let rest = s.skip(1);
        like_within(rest, q);
        if like(rest, mask) {
            let i = choose|i: int| 0 <= i <= rest.len() && starts_like(#[trigger] rest.skip(i), q);
            assert(s.skip(i + 1) =~= rest.skip(i));
        }
        if exists|i: int| 0 <= i <= s.len() && starts_like(#[trigger] s.skip(i), q) {
            let i = choose|i: int| 0 <= i <= s.len() && starts_like(#[trigger] s.skip(i), q);
            if i > 0 {
                assert(rest.skip(i - 1) =~= s.skip(i));
            }
        }
    } else {
        assert forall|i: int| 0 <= i <= s.len() && starts_like(#[trigger] s.skip(i), q) implies
            starts_like(s, q) by {
            assert(i == 0);
        }
    }
}

/// A search that holds no mask finds the texts that hold it, but for the case
/// of ASCII letters.
pub proof fn search_finds_what_holds_the_text(s: Seq<char>, q: Seq<char>)
    requires
        is_literal(q),
        !s.contains('\0'),
    ensures
        is_match(s, q) <==> exists|i: int|
            0 <= i <= s.len() && starts_like(#[trigger] s.skip(i), q),
{
    reveal_strlit("%");
    let mask = pattern(q);
    before_bound(s, '\0');
    before_bound(mask, '\0');
    assert(!mask.contains('\0')) by {
        if mask.contains('\0') {
            let i = choose|i: int| 0 <= i < mask.len() && mask[i] == '\0';
            assert(q[i - 1] == '\0');
        }
    }
    assert(to_nul(s) =~= s);
    assert(to_nul(mask) =~= mask);
    assert forall|i: int| 0 <= i < q.len() implies #[trigger] q[i] != '%' && q[i] != '_' by {
        assert(q.contains(q[i]));
    }
    like_within(s, q);
}

proof fn sum_without(txns: Map<Seq<char>, TxnRec>, ids: Seq<Seq<char>>, at: int)
    requires
        0 <= at < ids.len(),
    ensures
        sum_over(txns, ids) == sum_over(txns, ids.remove(at)) + txns[ids[at]].txn.amount_minor,
    decreases ids.len(),
{
    if at < ids.len() - 1 {
        sum_without(txns, ids.drop_last(), at);
        assert(ids.remove(at).drop_last() =~= ids.drop_last().remove(at));
        assert(ids.remove(at).last() == ids.last());
    } else {
        assert(ids.remove(at) =~= ids.drop_last());
    }
}

/// What transactions come to does not depend on the order in which they are
/// taken.
pub proof fn sums_do_not_depend_on_order(
    txns: Map<Seq<char>, TxnRec>,
    a: Seq<Seq<char>>,
    b: Seq<Seq<char>>,
)
    requires
        a.no_duplicates(),
        b.no_duplicates(),
        forall|id: Seq<char>| #[trigger] a.contains(id) <==> #[trigger] b.contains(id),
    ensures
        sum_over(txns, a) == sum_over(txns, b),
    decreases a.len(),
{
    if a.len() == 0 {
        if b.len() > 0 {
            assert(b.contains(b[0]));
            assert(a.contains(b[0]));
        }
    } else {
        let last = a.last();
        assert(a[a.len() - 1] == last);
        assert(a.contains(last));
        assert(b.contains(last));
        let at = choose|at: int| 0 <= at < b.len() && b[at] == last;
        let fewer = a.drop_last();
        let other = b.remove(at);
        assert forall|id: Seq<char>| #[trigger] fewer.contains(id) <==> #[trigger] other.contains(
            id,
        ) by {
            if fewer.contains(id) {
                let i = choose|i: int| 0 <= i < fewer.len() && fewer[i] == id;
                assert(a[i] == id);
                assert(a.contains(id));
                assert(b.contains(id));
                let j = choose|j: int| 0 <= j < b.len() && b[j] == id;
                if j < at {
                    assert(other[j] == id);
                } else {
                    assert(j != at);
                    assert(other[j - 1] == id);
                }
            }
            if other.contains(id) {
                let j = choose|j: int| 0 <= j < other.len() && other[j] == id;
                let k = if j < at {
                    j
                } else {
                    j + 1
                };
                assert(b[k] == id);
                assert(b.contains(id));
                assert(a.contains(id));
                let i = choose|i: int| 0 <= i < a.len() && a[i] == id;
                assert(i != a.len() - 1);
                assert(fewer[i] == id);
            }
        }
        assert(other.no_duplicates());
        sums_do_not_depend_on_order(txns, fewer, other);
        sum_without(txns, b, at);
    }
}

proof fn set_is_listed_once(set: Set<Seq<char>>)
    requires
        set.finite(),
    ensures
        set.to_seq().no_duplicates(),
        forall|id: Seq<char>| #[trigger] set.to_seq().contains(id) <==> set.contains(id),
    decreases set.len(),
{
    set.lemma_to_seq_to_set_id();
    assert forall|id: Seq<char>| #[trigger] set.to_seq().contains(id) <==> set.contains(id) by {
        assert(set.to_seq().to_set().contains(id) <==> set.to_seq().contains(id));
    }
    if set.len() > 0 {
        let first = set.choose();
        let rest = set.remove(first);
        set_is_listed_once(rest);
        let list = set.to_seq();
        assert(list == Seq::<Seq<char>>::empty().push(first) + rest.to_seq());
        assert forall|i: int, j: int| 0 <= i < j < list.len() implies list[i] != list[j] by {
            assert(list[j] == rest.to_seq()[j - 1]);
            assert(rest.to_seq().contains(list[j]));
            if i > 0 {
                assert(list[i] == rest.to_seq()[i - 1]);
            }
        }
    }
}

/// A total is the sum of the amounts, in whatever order they are taken.
pub proof fn total_is_the_sum(
    txns: Map<Seq<char>, TxnRec>,
    which: spec_fn(TxnRec) -> bool,
    ids: Seq<Seq<char>>,
)
    requires
        txns.dom().finite(),
        ids.no_duplicates(),
        forall|id: Seq<char>| #[trigger]
            ids.contains(id) <==> txns.contains_key(id) && which(txns[id]),
    ensures
        total(txns, which) == sum_over(txns, ids),
{
    let set = txns.dom().filter(|id: Seq<char>| which(txns[id]));
    set_is_listed_once(set);
    sums_do_not_depend_on_order(txns, set.to_seq(), ids);
}

} // verus!
