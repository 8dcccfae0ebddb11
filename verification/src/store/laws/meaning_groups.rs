//! What the statements that group rows mean is what the model says that they
//! answer.

use crate::parse::Direction;
use crate::store::action::ActionView;
use crate::store::lang::{all_hold, amounts, are_values, cell, cell_in, group_rows, group_upto,
    has_enough, is_group, is_least, is_value, keys, lists_rows, of_direction, row_value, row_values,
    sql_does, tells_groups, Col, Expr, From, Having, Side, Sql, Table};
use crate::store::laws::meaning_reads::{directions_are_told, joins_are_told, listed_rows,
    scopes_are_told};
use crate::store::laws::spoken::{out1, out2, own, spoken};
use crate::store::model::{does, is_first_label, is_first_named, is_shared, labels, names_all,
    one_text, shared_are_told, told_are_shared, two_texts, Tables, TxnRec};
use crate::store::query::{by_text, category_of, first_name, in_month, in_scope, is_i64, is_month,
    is_name_of, is_paid, is_payment, is_source, is_spending, is_spent_on, lists_by, month_of,
    month_row, most_paid_first, most_spent_first, most_used_first, paid_row, paid_to, payee_of,
    source_row, spend_row, spent_on, total, uses_of};
use crate::store::value::SqlView;
use crate::text::{text_less, text_less_total};
use vstd::prelude::*;

verus! {

/// Groups that are told list the keys that they stand for.
proof fn groups_are_listed<K>(
    t: Tables,
    rows: Seq<Seq<SqlView>>,
    sql: Sql,
    which: spec_fn(K) -> bool,
    item: spec_fn(K) -> Seq<SqlView>,
    upto: spec_fn(K, K) -> bool,
    group: spec_fn(K) -> Seq<SqlView>,
    key: spec_fn(Seq<SqlView>) -> K,
)
    requires
        sql is Group,
        exists|groups: Seq<Seq<SqlView>>| #[trigger]
            tells_groups(
                t,
                rows,
                sql->Group_out,
                sql->Group_from,
                sql->Group_conds,
                sql->Group_key,
                sql->Group_having,
                sql->Group_order,
                sql->Group_limit,
                groups,
            ),
        forall|k: K| #[trigger]
            which(k) ==> is_group(t, sql->Group_from, sql->Group_conds, sql->Group_key, sql->Group_having, group(k)) && key(
                group(k),
            ) == k,
        forall|g: Seq<SqlView>| #[trigger]
            is_group(t, sql->Group_from, sql->Group_conds, sql->Group_key, sql->Group_having, g) ==> which(key(g)) && group(
                key(g),
            ) == g,
        forall|k: K, row: Seq<SqlView>|
            #![trigger which(k), are_values(
                t,
                sql->Group_from,
                group_rows(t, sql->Group_from, sql->Group_conds, sql->Group_key, group(k)),
                sql->Group_out,
                row,
            )]
            which(k) && are_values(
                t,
                sql->Group_from,
                group_rows(t, sql->Group_from, sql->Group_conds, sql->Group_key, group(k)),
                sql->Group_out,
                row,
            ) ==> row == item(k),
        forall|a: K, b: K|
            #![trigger which(a), which(b)]
            which(a) && which(b) && a != b && group_upto(
                t,
                sql->Group_from,
                sql->Group_order,
                group_rows(t, sql->Group_from, sql->Group_conds, sql->Group_key, group(a)),
                group_rows(t, sql->Group_from, sql->Group_conds, sql->Group_key, group(b)),
            ) ==> upto(a, b),
    ensures
        lists_rows(rows, sql->Group_limit, which, item, upto),
{
    let groups = choose|groups: Seq<Seq<SqlView>>| #[trigger]
        tells_groups(
            t,
            rows,
            sql->Group_out,
            sql->Group_from,
            sql->Group_conds,
            sql->Group_key,
            sql->Group_having,
            sql->Group_order,
            sql->Group_limit,
            groups,
        );
    let keys = Seq::new(groups.len(), |i: int| key(groups[i]));
    let all = Seq::new(groups.len(), |i: int| item(keys[i]));
    assert forall|i: int| 0 <= i < groups.len() implies which(#[trigger] keys[i]) && group(keys[i])
        == groups[i] by {
        assert(groups.contains(groups[i]));
        assert(is_group(t, sql->Group_from, sql->Group_conds, sql->Group_key, sql->Group_having, groups[i]));
    }
    assert(keys.no_duplicates()) by {
        assert forall|i: int, j: int| 0 <= i < keys.len() && 0 <= j < keys.len() && i
            != j implies keys[i] != keys[j] by {
            assert(group(keys[i]) == groups[i] && group(keys[j]) == groups[j]);
        }
    }
    assert forall|k: K| #![trigger which(k)] #![trigger keys.contains(k)] which(k)
        <==> keys.contains(k) by {
        if which(k) {
            assert(is_group(t, sql->Group_from, sql->Group_conds, sql->Group_key, sql->Group_having, group(k)));
            assert(groups.contains(group(k)));
            let i = choose|i: int| 0 <= i < groups.len() && groups[i] == group(k);
            assert(keys[i] == k);
        }
        if keys.contains(k) {
            let i = choose|i: int| 0 <= i < keys.len() && keys[i] == k;
            assert(which(keys[i]));
        }
    }
    assert forall|i: int, j: int| 0 <= i < j < keys.len() implies upto(
        #[trigger] keys[i],
        #[trigger] keys[j],
    ) by {
        assert(which(keys[i]) && which(keys[j]));
        assert(group(keys[i]) == groups[i] && group(keys[j]) == groups[j]);
        assert(keys[i] != keys[j]);
        assert(group_upto(
            t,
            sql->Group_from,
            sql->Group_order,
            group_rows(t, sql->Group_from, sql->Group_conds, sql->Group_key, groups[i]),
            group_rows(t, sql->Group_from, sql->Group_conds, sql->Group_key, groups[j]),
        ));
    }
    assert forall|i: int| 0 <= i < keys.len() implies #[trigger] all[i] == item(keys[i]) by {}
    assert(lists_by(all, keys, which, item, upto));
    assert forall|i: int| 0 <= i < rows.len() implies #[trigger] rows[i] == all[i] by {
        assert(which(keys[i]));
        assert(group(keys[i]) == groups[i]);
        assert(are_values(
            t,
            sql->Group_from,
            group_rows(t, sql->Group_from, sql->Group_conds, sql->Group_key, group(keys[i])),
            sql->Group_out,
            rows[i],
        ));
    }
    match sql->Group_limit {
        None => {
            assert(rows =~= all);
        },
        Some(n) => {
            if groups.len() <= n {
                assert(rows =~= all);
            } else {
                assert(rows =~= all.take(n as int));
            }
            assert(crate::store::query::lists(all, which, item, upto));
        },
    }
}

/// A key of one column.
proof fn one_key(t: Tables, from: From, k: Seq<char>, expr: Expr)
    ensures
        row_values(t, from, k, out1(expr)) == seq![row_value(t, from, k, expr)],
{
    reveal_with_fuel(row_values, 2);
    assert(row_values(t, from, k, out1(expr)) =~= seq![row_value(t, from, k, expr)]);
}

/// The rows of the group of a category are its spending.
proof fn spending_is_grouped(t: Tables, statement_id: Option<Seq<char>>, c: Seq<char>)
    requires
        t.categories.contains_key(c),
        t.categories[c].kind == "spend"@,
    ensures
        ({
            let sql = spoken(ActionView::SpendByCategory { statement_id })->0;
            group_rows(t, sql->Group_from, sql->Group_conds, sql->Group_key, seq![SqlView::Text(c)])
                == t.txns.dom().filter(
                |id: Seq<char>| is_spending(t, statement_id, c)(t.txns[id]),
            )
        }),
{
    let sql = spoken(ActionView::SpendByCategory { statement_id })->0;
    let from = From::WithCategory;
    let g = seq![SqlView::Text(c)];
    let ids = group_rows(t, from, sql->Group_conds, sql->Group_key, g);
    let wanted = t.txns.dom().filter(|id: Seq<char>| is_spending(t, statement_id, c)(t.txns[id]));
    assert forall|k: Seq<char>| ids.contains(k) <==> wanted.contains(k) by {
        reveal_with_fuel(all_hold, 3);
        scopes_are_told(t, from, k, statement_id);
        directions_are_told(t, k);
        joins_are_told(t, k);
        one_key(t, from, k, Expr::Col(Side::C, Col::Id));
        let v = row_value(t, from, k, Expr::Col(Side::C, Col::Id));
        assert(seq![v] == g <==> v == SqlView::Text(c)) by {
            assert(seq![v][0] == v);
            assert(g[0] == SqlView::Text(c));
        }
    }
    assert(ids =~= wanted);
}

/// A row of the statement that sums up spending has a category that is spent
/// on.
proof fn spending_group_is_a_category(
    t: Tables,
    statement_id: Option<Seq<char>>,
    g: Seq<SqlView>,
)
    requires
        ({
            let sql = spoken(ActionView::SpendByCategory { statement_id })->0;
            is_group(t, sql->Group_from, sql->Group_conds, sql->Group_key, sql->Group_having, g)
        }),
    ensures
        g.len() == 1,
        g[0] is Text,
        g == seq![SqlView::Text(g[0]->Text_0)],
        is_spent_on(t, statement_id)(g[0]->Text_0),
{
    let sql = spoken(ActionView::SpendByCategory { statement_id })->0;
    let from = From::WithCategory;
    let ids = group_rows(t, from, sql->Group_conds, sql->Group_key, g);
    let k = choose|k: Seq<char>| #[trigger] ids.contains(k);
    reveal_with_fuel(all_hold, 3);
    scopes_are_told(t, from, k, statement_id);
    directions_are_told(t, k);
    joins_are_told(t, k);
    one_key(t, from, k, Expr::Col(Side::C, Col::Id));
    let c = category_of(t, t.txns[k])->0;
    assert(g == seq![SqlView::Text(c)]);
    assert(g[0] == SqlView::Text(c));
    assert(t.txns.contains_key(k) && is_spending(t, statement_id, c)(t.txns[k]));
}

/// The spending of each category is answered as the model says, where 64 bits
/// hold it.
pub proof fn spending_means_what_it_says(
    t: Tables,
    statement_id: Option<Seq<char>>,
    rows: Seq<Seq<SqlView>>,
    changed: u64,
    after: Tables,
)
    requires
        sql_does(t, spoken(ActionView::SpendByCategory { statement_id })->0, rows, changed, after),
        forall|c: Seq<char>|
            t.categories.contains_key(c) ==> is_i64(#[trigger] spent_on(t, statement_id, c)),
    ensures
        does(t, ActionView::SpendByCategory { statement_id }, rows, changed, after),
{
    let sql = spoken(ActionView::SpendByCategory { statement_id })->0;
    let from = From::WithCategory;
    let group = |c: Seq<char>| seq![SqlView::Text(c)];
    let key = |g: Seq<SqlView>| g[0]->Text_0;
    let which = is_spent_on(t, statement_id);
    let item = spend_row(t, statement_id);
    let upto = most_spent_first(t, statement_id);
    assert forall|c: Seq<char>| #[trigger] which(c) implies is_group(
        t,
        sql->Group_from,
        sql->Group_conds,
        sql->Group_key,
        sql->Group_having,
        group(c),
    ) && key(group(c)) == c by {
        spending_is_grouped(t, statement_id, c);
        let id = choose|id: Seq<char>| #[trigger]
            t.txns.contains_key(id) && is_spending(t, statement_id, c)(t.txns[id]);
        assert(group_rows(t, sql->Group_from, sql->Group_conds, sql->Group_key, group(c)).contains(id));
        assert(group(c)[0] == SqlView::Text(c));
    }
    assert forall|g: Seq<SqlView>| #[trigger]
        is_group(t, sql->Group_from, sql->Group_conds, sql->Group_key, sql->Group_having, g) implies which(key(g)) && group(
        key(g),
    ) == g by {
        spending_group_is_a_category(t, statement_id, g);
    }
    assert forall|c: Seq<char>, row: Seq<SqlView>|
        #![trigger which(c), are_values(
            t,
            sql->Group_from,
            group_rows(t, sql->Group_from, sql->Group_conds, sql->Group_key, group(c)),
            sql->Group_out,
            row,
        )]
        which(c) && are_values(
            t,
            sql->Group_from,
            group_rows(t, sql->Group_from, sql->Group_conds, sql->Group_key, group(c)),
            sql->Group_out,
            row,
        ) implies row == item(c) by {
        let ids = group_rows(t, sql->Group_from, sql->Group_conds, sql->Group_key, group(c));
        spending_is_grouped(t, statement_id, c);
        assert forall|k: Seq<char>| #[trigger] ids.contains(k) implies category_of(t, t.txns[k])
            == Some(c) by {}
        assert forall|k: Seq<char>, col: Col| ids.contains(k) implies #[trigger] cell_in(
            t,
            from,
            k,
            Side::C,
            col,
        ) == cell(t, Table::Category, c, col) by {
            joins_are_told(t, k);
        }
        reveal_with_fuel(are_values, 7);
        assert(row.skip(1)[0] == row[1]);
        assert(row.skip(1).skip(1)[0] == row[2]);
        assert(row.skip(1).skip(1).skip(1)[0] == row[3]);
        assert(row.skip(1).skip(1).skip(1).skip(1)[0] == row[4]);
        assert(row.skip(1).skip(1).skip(1).skip(1).skip(1)[0] == row[5]);
        assert(row.skip(1).skip(1).skip(1).skip(1).skip(1).skip(1).len() == 0);
        assert(row.len() == 6);
        assert(amounts(t, ids) == spent_on(t, statement_id, c));
        assert(row =~= item(c));
    }
    assert forall|a: Seq<char>, b: Seq<char>|
        #![trigger which(a), which(b)]
        which(a) && which(b) && a != b && group_upto(
            t,
            sql->Group_from,
            sql->Group_order,
            group_rows(t, sql->Group_from, sql->Group_conds, sql->Group_key, group(a)),
            group_rows(t, sql->Group_from, sql->Group_conds, sql->Group_key, group(b)),
        ) implies upto(a, b) by {
        spending_is_grouped(t, statement_id, a);
        spending_is_grouped(t, statement_id, b);
        let ids_a = group_rows(t, sql->Group_from, sql->Group_conds, sql->Group_key, group(a));
        let ids_b = group_rows(t, sql->Group_from, sql->Group_conds, sql->Group_key, group(b));
        assert(amounts(t, ids_a) == spent_on(t, statement_id, a));
        assert(amounts(t, ids_b) == spent_on(t, statement_id, b));
        let x = SqlView::Integer(spent_on(t, statement_id, a) as i64);
        let y = SqlView::Integer(spent_on(t, statement_id, b) as i64);
        assert(is_value(t, from, ids_a, Expr::Sum(Side::T), x));
        assert(is_value(t, from, ids_b, Expr::Sum(Side::T), y));
    }
    groups_are_listed(t, rows, sql, which, item, upto, group, key);
}

/// The rows of the group of a payee are what was paid.
proof fn payments_are_grouped(t: Tables, statement_id: Option<Seq<char>>, p: Seq<char>)
    requires
        t.payees.contains_key(p),
    ensures
        ({
            let sql = spoken(ActionView::TopPayees { statement_id })->0;
            group_rows(t, sql->Group_from, sql->Group_conds, sql->Group_key, seq![SqlView::Text(p)])
                == t.txns.dom().filter(|id: Seq<char>| is_payment(statement_id, p)(t.txns[id]))
        }),
{
    let sql = spoken(ActionView::TopPayees { statement_id })->0;
    let from = From::WithPayee;
    let g = seq![SqlView::Text(p)];
    let ids = group_rows(t, from, sql->Group_conds, sql->Group_key, g);
    let wanted = t.txns.dom().filter(|id: Seq<char>| is_payment(statement_id, p)(t.txns[id]));
    assert forall|k: Seq<char>| ids.contains(k) <==> wanted.contains(k) by {
        reveal_with_fuel(all_hold, 3);
        scopes_are_told(t, from, k, statement_id);
        directions_are_told(t, k);
        joins_are_told(t, k);
        one_key(t, from, k, Expr::Col(Side::P, Col::Id));
        let v = row_value(t, from, k, Expr::Col(Side::P, Col::Id));
        assert(seq![v] == g <==> v == SqlView::Text(p)) by {
            assert(seq![v][0] == v);
            assert(g[0] == SqlView::Text(p));
        }
    }
    assert(ids =~= wanted);
}

proof fn payment_group_is_a_payee(t: Tables, statement_id: Option<Seq<char>>, g: Seq<SqlView>)
    requires
        ({
            let sql = spoken(ActionView::TopPayees { statement_id })->0;
            is_group(
                t,
                sql->Group_from,
                sql->Group_conds,
                sql->Group_key,
                sql->Group_having,
                g,
            )
        }),
    ensures
        g.len() == 1,
        g[0] is Text,
        g == seq![SqlView::Text(g[0]->Text_0)],
        is_paid(t, statement_id)(g[0]->Text_0),
{
    let sql = spoken(ActionView::TopPayees { statement_id })->0;
    let from = From::WithPayee;
    let ids = group_rows(t, from, sql->Group_conds, sql->Group_key, g);
    let k = choose|k: Seq<char>| #[trigger] ids.contains(k);
    reveal_with_fuel(all_hold, 3);
    scopes_are_told(t, from, k, statement_id);
    directions_are_told(t, k);
    joins_are_told(t, k);
    one_key(t, from, k, Expr::Col(Side::P, Col::Id));
    let p = payee_of(t, t.txns[k])->0;
    assert(g == seq![SqlView::Text(p)]);
    assert(g[0] == SqlView::Text(p));
    assert(t.txns.contains_key(k) && is_payment(statement_id, p)(t.txns[k]));
}

/// The payees that most was paid to are answered as the model says, where 64
/// bits hold what was paid.
pub proof fn payments_mean_what_they_say(
    t: Tables,
    statement_id: Option<Seq<char>>,
    rows: Seq<Seq<SqlView>>,
    changed: u64,
    after: Tables,
)
    requires
        sql_does(t, spoken(ActionView::TopPayees { statement_id })->0, rows, changed, after),
        forall|p: Seq<char>|
            t.payees.contains_key(p) ==> is_i64(#[trigger] paid_to(t, statement_id, p)),
    ensures
        does(t, ActionView::TopPayees { statement_id }, rows, changed, after),
{
    let sql = spoken(ActionView::TopPayees { statement_id })->0;
    let from = From::WithPayee;
    let conds = sql->Group_conds;
    let by = sql->Group_key;
    let group = |p: Seq<char>| seq![SqlView::Text(p)];
    let key = |g: Seq<SqlView>| g[0]->Text_0;
    let which = is_paid(t, statement_id);
    let item = paid_row(t, statement_id);
    let upto = most_paid_first(t, statement_id);
    assert forall|p: Seq<char>| #[trigger] which(p) implies is_group(
        t,
        sql->Group_from,
        sql->Group_conds,
        sql->Group_key,
        sql->Group_having,
        group(p),
    ) && key(group(p)) == p by {
        payments_are_grouped(t, statement_id, p);
        let id = choose|id: Seq<char>| #[trigger]
            t.txns.contains_key(id) && is_payment(statement_id, p)(t.txns[id]);
        assert(group_rows(t, from, conds, by, group(p)).contains(id));
        assert(group(p)[0] == SqlView::Text(p));
    }
    assert forall|g: Seq<SqlView>| #[trigger]
        is_group(
            t,
            sql->Group_from,
            sql->Group_conds,
            sql->Group_key,
            sql->Group_having,
            g,
        ) implies which(key(g)) && group(key(g)) == g by {
        payment_group_is_a_payee(t, statement_id, g);
    }
    assert forall|p: Seq<char>, row: Seq<SqlView>|
        #![trigger which(p), are_values(
            t,
            sql->Group_from,
            group_rows(t, sql->Group_from, sql->Group_conds, sql->Group_key, group(p)),
            sql->Group_out,
            row,
        )]
        which(p) && are_values(
            t,
            sql->Group_from,
            group_rows(t, sql->Group_from, sql->Group_conds, sql->Group_key, group(p)),
            sql->Group_out,
            row,
        ) implies row == item(p) by {
        let ids = group_rows(t, from, conds, by, group(p));
        payments_are_grouped(t, statement_id, p);
        assert forall|k: Seq<char>, col: Col| ids.contains(k) implies #[trigger] cell_in(
            t,
            from,
            k,
            Side::P,
            col,
        ) == cell(t, Table::Payee, p, col) by {
            joins_are_told(t, k);
        }
        reveal_with_fuel(are_values, 3);
        assert(row.skip(1)[0] == row[1]);
        assert(row.skip(1).skip(1).len() == 0);
        assert(row.len() == 2);
        assert(amounts(t, ids) == paid_to(t, statement_id, p));
        assert(row =~= item(p));
    }
    assert forall|a: Seq<char>, b: Seq<char>|
        #![trigger which(a), which(b)]
        which(a) && which(b) && a != b && group_upto(
            t,
            sql->Group_from,
            sql->Group_order,
            group_rows(t, sql->Group_from, sql->Group_conds, sql->Group_key, group(a)),
            group_rows(t, sql->Group_from, sql->Group_conds, sql->Group_key, group(b)),
        ) implies upto(a, b) by {
        payments_are_grouped(t, statement_id, a);
        payments_are_grouped(t, statement_id, b);
        let ids_a = group_rows(t, from, conds, by, group(a));
        let ids_b = group_rows(t, from, conds, by, group(b));
        assert(amounts(t, ids_a) == paid_to(t, statement_id, a));
        assert(amounts(t, ids_b) == paid_to(t, statement_id, b));
        let x = SqlView::Integer(paid_to(t, statement_id, a) as i64);
        let y = SqlView::Integer(paid_to(t, statement_id, b) as i64);
        assert(is_value(t, from, ids_a, Expr::Sum(Side::T), x));
        assert(is_value(t, from, ids_b, Expr::Sum(Side::T), y));
    }
    groups_are_listed(t, rows, sql, which, item, upto, group, key);
}

/// The rows of the group of a month are its transactions.
proof fn months_are_grouped(t: Tables, statement_id: Option<Seq<char>>, m: Seq<char>)
    ensures
        ({
            let sql = spoken(ActionView::MonthlyTotals { statement_id })->0;
            group_rows(t, sql->Group_from, sql->Group_conds, sql->Group_key, seq![SqlView::Text(m)])
                == t.txns.dom().filter(
                |id: Seq<char>|
                    in_scope(t.txns[id], statement_id) && month_of(t.txns[id]) == m,
            )
        }),
{
    let sql = spoken(ActionView::MonthlyTotals { statement_id })->0;
    let from = From::Short;
    let g = seq![SqlView::Text(m)];
    let ids = group_rows(t, from, sql->Group_conds, sql->Group_key, g);
    let wanted = t.txns.dom().filter(
        |id: Seq<char>| in_scope(t.txns[id], statement_id) && month_of(t.txns[id]) == m,
    );
    assert forall|k: Seq<char>| ids.contains(k) <==> wanted.contains(k) by {
        reveal_with_fuel(all_hold, 3);
        scopes_are_told(t, from, k, statement_id);
        one_key(t, from, k, Expr::Month);
        let v = row_value(t, from, k, Expr::Month);
        assert(v == SqlView::Text(month_of(t.txns[k])));
        assert(seq![v] == g <==> v == SqlView::Text(m)) by {
            assert(seq![v][0] == v);
            assert(g[0] == SqlView::Text(m));
        }
    }
    assert(ids =~= wanted);
}

proof fn month_group_is_a_month(t: Tables, statement_id: Option<Seq<char>>, g: Seq<SqlView>)
    requires
        ({
            let sql = spoken(ActionView::MonthlyTotals { statement_id })->0;
            is_group(
                t,
                sql->Group_from,
                sql->Group_conds,
                sql->Group_key,
                sql->Group_having,
                g,
            )
        }),
    ensures
        g.len() == 1,
        g[0] is Text,
        g == seq![SqlView::Text(g[0]->Text_0)],
        is_month(t, statement_id)(g[0]->Text_0),
{
    let sql = spoken(ActionView::MonthlyTotals { statement_id })->0;
    let from = From::Short;
    let ids = group_rows(t, from, sql->Group_conds, sql->Group_key, g);
    let k = choose|k: Seq<char>| #[trigger] ids.contains(k);
    reveal_with_fuel(all_hold, 3);
    scopes_are_told(t, from, k, statement_id);
    one_key(t, from, k, Expr::Month);
    let m = month_of(t.txns[k]);
    assert(g == seq![SqlView::Text(m)]);
    assert(g[0] == SqlView::Text(m));
    assert(t.txns.contains_key(k) && in_scope(t.txns[k], statement_id));
}

/// What the transactions of a month come to in one direction.
proof fn month_sums_are_told(
    t: Tables,
    statement_id: Option<Seq<char>>,
    m: Seq<char>,
    ids: Set<Seq<char>>,
)
    requires
        ids == t.txns.dom().filter(
            |id: Seq<char>| in_scope(t.txns[id], statement_id) && month_of(t.txns[id]) == m,
        ),
    ensures
        amounts(t, of_direction(t, ids, "debit"@)) == in_month(
            t,
            statement_id,
            m,
            Direction::Debit,
        ),
        amounts(t, of_direction(t, ids, "credit"@)) == in_month(
            t,
            statement_id,
            m,
            Direction::Credit,
        ),
{
    assert forall|k: Seq<char>|
        (#[trigger] cell(t, Table::Txn, k, Col::Direction) == SqlView::Text("debit"@)
            <==> t.txns[k].txn.direction == Direction::Debit) && (cell(
            t,
            Table::Txn,
            k,
            Col::Direction,
        ) == SqlView::Text("credit"@) <==> t.txns[k].txn.direction == Direction::Credit) by {
        directions_are_told(t, k);
    }
    let debit = |x: TxnRec|
        in_scope(x, statement_id) && month_of(x) == m && x.txn.direction == Direction::Debit;
    let credit = |x: TxnRec|
        in_scope(x, statement_id) && month_of(x) == m && x.txn.direction == Direction::Credit;
    assert(of_direction(t, ids, "debit"@) =~= t.txns.dom().filter(
        |id: Seq<char>| debit(t.txns[id]),
    ));
    assert(of_direction(t, ids, "credit"@) =~= t.txns.dom().filter(
        |id: Seq<char>| credit(t.txns[id]),
    ));
    assert(in_month(t, statement_id, m, Direction::Debit) == total(t.txns, debit));
    assert(in_month(t, statement_id, m, Direction::Credit) == total(t.txns, credit));
}

/// What each month comes to is answered as the model says, where 64 bits hold
/// it.
pub proof fn months_mean_what_they_say(
    t: Tables,
    statement_id: Option<Seq<char>>,
    rows: Seq<Seq<SqlView>>,
    changed: u64,
    after: Tables,
)
    requires
        sql_does(t, spoken(ActionView::MonthlyTotals { statement_id })->0, rows, changed, after),
        forall|m: Seq<char>, direction: Direction|
            is_i64(#[trigger] in_month(t, statement_id, m, direction)),
    ensures
        does(t, ActionView::MonthlyTotals { statement_id }, rows, changed, after),
{
    let sql = spoken(ActionView::MonthlyTotals { statement_id })->0;
    let from = From::Short;
    let conds = sql->Group_conds;
    let by = sql->Group_key;
    let group = |m: Seq<char>| seq![SqlView::Text(m)];
    let key = |g: Seq<SqlView>| g[0]->Text_0;
    let which = is_month(t, statement_id);
    let item = month_row(t, statement_id);
    let upto = by_text();
    assert forall|m: Seq<char>| #[trigger] which(m) implies is_group(
        t,
        sql->Group_from,
        sql->Group_conds,
        sql->Group_key,
        sql->Group_having,
        group(m),
    ) && key(group(m)) == m by {
        months_are_grouped(t, statement_id, m);
        let id = choose|id: Seq<char>| #[trigger]
            t.txns.contains_key(id) && in_scope(t.txns[id], statement_id) && month_of(t.txns[id])
                == m;
        assert(group_rows(t, from, conds, by, group(m)).contains(id));
        assert(group(m)[0] == SqlView::Text(m));
    }
    assert forall|g: Seq<SqlView>| #[trigger]
        is_group(
            t,
            sql->Group_from,
            sql->Group_conds,
            sql->Group_key,
            sql->Group_having,
            g,
        ) implies which(key(g)) && group(key(g)) == g by {
        month_group_is_a_month(t, statement_id, g);
    }
    assert forall|m: Seq<char>, row: Seq<SqlView>|
        #![trigger which(m), are_values(
            t,
            sql->Group_from,
            group_rows(t, sql->Group_from, sql->Group_conds, sql->Group_key, group(m)),
            sql->Group_out,
            row,
        )]
        which(m) && are_values(
            t,
            sql->Group_from,
            group_rows(t, sql->Group_from, sql->Group_conds, sql->Group_key, group(m)),
            sql->Group_out,
            row,
        ) implies row == item(m) by {
        let ids = group_rows(t, from, conds, by, group(m));
        months_are_grouped(t, statement_id, m);
        month_sums_are_told(t, statement_id, m, ids);
        reveal_with_fuel(are_values, 4);
        assert(row.skip(1)[0] == row[1]);
        assert(row.skip(1).skip(1)[0] == row[2]);
        assert(row.skip(1).skip(1).skip(1).len() == 0);
        assert(row.len() == 3);
        assert(row =~= item(m));
    }
    assert forall|a: Seq<char>, b: Seq<char>|
        #![trigger which(a), which(b)]
        which(a) && which(b) && a != b && group_upto(
            t,
            sql->Group_from,
            sql->Group_order,
            group_rows(t, sql->Group_from, sql->Group_conds, sql->Group_key, group(a)),
            group_rows(t, sql->Group_from, sql->Group_conds, sql->Group_key, group(b)),
        ) implies upto(a, b) by {
        months_are_grouped(t, statement_id, a);
        months_are_grouped(t, statement_id, b);
        let ids_a = group_rows(t, from, conds, by, group(a));
        let ids_b = group_rows(t, from, conds, by, group(b));
        let x = choose|id: Seq<char>| #[trigger]
            t.txns.contains_key(id) && in_scope(t.txns[id], statement_id) && month_of(t.txns[id])
                == a;
        let y = choose|id: Seq<char>| #[trigger]
            t.txns.contains_key(id) && in_scope(t.txns[id], statement_id) && month_of(t.txns[id])
                == b;
        assert(ids_a.contains(x) && ids_b.contains(y));
        assert(is_value(t, from, ids_a, Expr::Month, SqlView::Text(a)));
        assert(is_value(t, from, ids_b, Expr::Month, SqlView::Text(b)));
    }
    groups_are_listed(t, rows, sql, which, item, upto, group, key);
}

/// The rows of the group of a payee and a merchant are those with that label.
proof fn sources_are_grouped(t: Tables, p: Seq<char>, norm: Seq<char>)
    ensures
        ({
            let sql = spoken(ActionView::PayeeSources)->0;
            group_rows(
                t,
                sql->Group_from,
                sql->Group_conds,
                sql->Group_key,
                seq![SqlView::Text(p), SqlView::Text(norm)],
            ) == t.txns.dom().filter(
                |id: Seq<char>|
                    t.txns[id].payee_id == Some(p) && t.txns[id].txn.merchant_norm == norm,
            )
        }),
{
    let sql = spoken(ActionView::PayeeSources)->0;
    let from = From::One(Table::Txn);
    let g = seq![SqlView::Text(p), SqlView::Text(norm)];
    let ids = group_rows(t, from, sql->Group_conds, sql->Group_key, g);
    let wanted = t.txns.dom().filter(
        |id: Seq<char>| t.txns[id].payee_id == Some(p) && t.txns[id].txn.merchant_norm == norm,
    );
    assert forall|k: Seq<char>| ids.contains(k) <==> wanted.contains(k) by {
        source_key(t, k);
        reveal_with_fuel(all_hold, 2);
        let a = cell(t, Table::Txn, k, Col::PayeeId);
        let b = cell(t, Table::Txn, k, Col::MerchantNorm);
        assert(seq![a, b] == g <==> a == SqlView::Text(p) && b == SqlView::Text(norm)) by {
            assert(seq![a, b][0] == a && seq![a, b][1] == b);
            assert(g[0] == SqlView::Text(p) && g[1] == SqlView::Text(norm));
        }
    }
    assert(ids =~= wanted);
}

proof fn source_key(t: Tables, k: Seq<char>)
    ensures
        row_values(
            t,
            From::One(Table::Txn),
            k,
            out2(own(Col::PayeeId), own(Col::MerchantNorm)),
        ) == seq![cell(t, Table::Txn, k, Col::PayeeId), cell(t, Table::Txn, k, Col::MerchantNorm)],
{
    reveal_with_fuel(row_values, 3);
    assert(row_values(
        t,
        From::One(Table::Txn),
        k,
        out2(own(Col::PayeeId), own(Col::MerchantNorm)),
    ) =~= seq![cell(t, Table::Txn, k, Col::PayeeId), cell(t, Table::Txn, k, Col::MerchantNorm)]);
}

proof fn source_group_is_a_source(t: Tables, g: Seq<SqlView>)
    requires
        ({
            let sql = spoken(ActionView::PayeeSources)->0;
            is_group(
                t,
                sql->Group_from,
                sql->Group_conds,
                sql->Group_key,
                sql->Group_having,
                g,
            )
        }),
    ensures
        g.len() == 2,
        g[0] is Text,
        g[1] is Text,
        g == seq![SqlView::Text(g[0]->Text_0), SqlView::Text(g[1]->Text_0)],
        labels(t.txns, g[1]->Text_0, g[0]->Text_0),
{
    let sql = spoken(ActionView::PayeeSources)->0;
    let from = From::One(Table::Txn);
    let ids = group_rows(t, from, sql->Group_conds, sql->Group_key, g);
    let k = choose|k: Seq<char>| #[trigger] ids.contains(k);
    reveal_with_fuel(all_hold, 2);
    source_key(t, k);
    assert(g[0] == cell(t, Table::Txn, k, Col::PayeeId));
    assert(g[1] == cell(t, Table::Txn, k, Col::MerchantNorm));
    assert(g =~= seq![SqlView::Text(g[0]->Text_0), SqlView::Text(g[1]->Text_0)]);
    assert(t.txns.contains_key(k));
}

/// The least name in the group of a payee and a merchant is the first one.
proof fn least_name_is_the_first(
    t: Tables,
    p: Seq<char>,
    norm: Seq<char>,
    ids: Set<Seq<char>>,
    v: SqlView,
)
    requires
        ids == t.txns.dom().filter(
            |id: Seq<char>|
                t.txns[id].payee_id == Some(p) && t.txns[id].txn.merchant_norm == norm,
        ),
        is_least(t, From::One(Table::Txn), ids, Col::MerchantRaw, v),
    ensures
        v == SqlView::Text(first_name(t, p, norm)),
{
    let from = From::One(Table::Txn);
    let k = choose|k: Seq<char>| #[trigger]
        ids.contains(k) && cell_in(t, from, k, Side::Own, Col::MerchantRaw) == v;
    let raw = t.txns[k].txn.merchant_raw;
    assert(t.txns.contains_key(k));
    assert(is_name_of(t, p, norm, raw));
    assert forall|other: Seq<char>| #[trigger] is_name_of(t, p, norm, other) implies !text_less(
        other,
        raw,
    ) by {
        let x = choose|x: Seq<char>| #[trigger]
            t.txns.contains_key(x) && t.txns[x].payee_id == Some(p) && t.txns[x].txn.merchant_norm
                == norm && t.txns[x].txn.merchant_raw == other;
        assert(ids.contains(x));
        assert(cell_in(t, from, x, Side::Own, Col::MerchantRaw) == SqlView::Text(other));
    }
    let first = first_name(t, p, norm);
    assert(is_name_of(t, p, norm, first) && !text_less(raw, first) && !text_less(first, raw));
    text_less_total(raw, first);
}

/// The merchants of each payee are answered as the model says, where 64 bits
/// hold how often.
pub proof fn sources_mean_what_they_say(
    t: Tables,
    rows: Seq<Seq<SqlView>>,
    changed: u64,
    after: Tables,
)
    requires
        sql_does(t, spoken(ActionView::PayeeSources)->0, rows, changed, after),
        forall|p: Seq<char>, norm: Seq<char>| is_i64(#[trigger] uses_of(t, p, norm) as int),
    ensures
        does(t, ActionView::PayeeSources, rows, changed, after),
{
    let sql = spoken(ActionView::PayeeSources)->0;
    let from = From::One(Table::Txn);
    let conds = sql->Group_conds;
    let by = sql->Group_key;
    let group = |k: (Seq<char>, Seq<char>)| seq![SqlView::Text(k.0), SqlView::Text(k.1)];
    let key = |g: Seq<SqlView>| (g[0]->Text_0, g[1]->Text_0);
    let which = is_source(t);
    let item = source_row(t);
    let upto = most_used_first(t);
    assert forall|k: (Seq<char>, Seq<char>)| #[trigger] which(k) implies is_group(
        t,
        sql->Group_from,
        sql->Group_conds,
        sql->Group_key,
        sql->Group_having,
        group(k),
    ) && key(group(k)) == k by {
        sources_are_grouped(t, k.0, k.1);
        let id = choose|id: Seq<char>| #[trigger]
            t.txns.contains_key(id) && t.txns[id].txn.merchant_norm == k.1 && t.txns[id].payee_id
                == Some(k.0);
        assert(group_rows(t, from, conds, by, group(k)).contains(id));
        assert(group(k)[0] == SqlView::Text(k.0) && group(k)[1] == SqlView::Text(k.1));
    }
    assert forall|g: Seq<SqlView>| #[trigger]
        is_group(
            t,
            sql->Group_from,
            sql->Group_conds,
            sql->Group_key,
            sql->Group_having,
            g,
        ) implies which(key(g)) && group(key(g)) == g by {
        source_group_is_a_source(t, g);
    }
    assert forall|k: (Seq<char>, Seq<char>)|
        which(k) implies #[trigger] group_rows(t, from, conds, by, group(k)).len() == uses_of(
        t,
        k.0,
        k.1,
    ) by {
        sources_are_grouped(t, k.0, k.1);
        let used = |x: TxnRec| x.payee_id == Some(k.0) && x.txn.merchant_norm == k.1;
        assert(group_rows(t, from, conds, by, group(k)) =~= t.txns.dom().filter(
            |id: Seq<char>| used(t.txns[id]),
        ));
    }
    assert forall|k: (Seq<char>, Seq<char>), row: Seq<SqlView>|
        #![trigger which(k), are_values(
            t,
            sql->Group_from,
            group_rows(t, sql->Group_from, sql->Group_conds, sql->Group_key, group(k)),
            sql->Group_out,
            row,
        )]
        which(k) && are_values(
            t,
            sql->Group_from,
            group_rows(t, sql->Group_from, sql->Group_conds, sql->Group_key, group(k)),
            sql->Group_out,
            row,
        ) implies row == item(k) by {
        let ids = group_rows(t, from, conds, by, group(k));
        sources_are_grouped(t, k.0, k.1);
        reveal_with_fuel(are_values, 5);
        assert(row.skip(1)[0] == row[1]);
        assert(row.skip(1).skip(1)[0] == row[2]);
        assert(row.skip(1).skip(1).skip(1)[0] == row[3]);
        assert(row.skip(1).skip(1).skip(1).skip(1).len() == 0);
        assert(row.len() == 4);
        assert(ids.len() == uses_of(t, k.0, k.1));
        least_name_is_the_first(t, k.0, k.1, ids, row[3]);
        assert(row =~= item(k));
    }
    assert forall|a: (Seq<char>, Seq<char>), b: (Seq<char>, Seq<char>)|
        #![trigger which(a), which(b)]
        which(a) && which(b) && a != b && group_upto(
            t,
            sql->Group_from,
            sql->Group_order,
            group_rows(t, sql->Group_from, sql->Group_conds, sql->Group_key, group(a)),
            group_rows(t, sql->Group_from, sql->Group_conds, sql->Group_key, group(b)),
        ) implies upto(a, b) by {
        sources_are_grouped(t, a.0, a.1);
        sources_are_grouped(t, b.0, b.1);
        let ids_a = group_rows(t, from, conds, by, group(a));
        let ids_b = group_rows(t, from, conds, by, group(b));
        let x = SqlView::Integer(uses_of(t, a.0, a.1) as i64);
        let y = SqlView::Integer(uses_of(t, b.0, b.1) as i64);
        assert(is_value(t, from, ids_a, Expr::Count, x));
        assert(is_value(t, from, ids_b, Expr::Count, y));
        reveal_with_fuel(group_upto, 3);
        let ka = choose|id: Seq<char>| #[trigger]
            t.txns.contains_key(id) && t.txns[id].txn.merchant_norm == a.1 && t.txns[id].payee_id
                == Some(a.0);
        let kb = choose|id: Seq<char>| #[trigger]
            t.txns.contains_key(id) && t.txns[id].txn.merchant_norm == b.1 && t.txns[id].payee_id
                == Some(b.0);
        assert(ids_a.contains(ka) && ids_b.contains(kb));
        assert(is_value(t, from, ids_a, own(Col::MerchantNorm), SqlView::Text(a.1)));
        assert(is_value(t, from, ids_b, own(Col::MerchantNorm), SqlView::Text(b.1)));
        text_less_total(a.1, b.1);
    }
    groups_are_listed(t, rows, sql, which, item, upto, group, key);
}

/// The name under which a merchant is written is answered as the model says.
pub proof fn merchants_mean_what_they_say(
    t: Tables,
    rows: Seq<Seq<SqlView>>,
    changed: u64,
    after: Tables,
)
    requires
        sql_does(t, spoken(ActionView::RawMerchants)->0, rows, changed, after),
    ensures
        does(t, ActionView::RawMerchants, rows, changed, after),
{
    let sql = spoken(ActionView::RawMerchants)->0;
    let from = From::One(Table::Txn);
    let conds = sql->Group_conds;
    let by = sql->Group_key;
    let group = |raw: Seq<char>| one_text(raw);
    let key = |g: Seq<SqlView>| g[0]->Text_0;
    let which = |raw: Seq<char>|
        exists|x: Seq<char>| #[trigger]
            t.txns.contains_key(x) && t.txns[x].txn.merchant_raw == raw;
    let item = |raw: Seq<char>| one_text(raw);
    let upto = |a: Seq<char>, b: Seq<char>| true;
    reveal_with_fuel(all_hold, 1);
    assert forall|raw: Seq<char>, k: Seq<char>| #[trigger]
        group_rows(t, from, conds, by, group(raw)).contains(k) <==> t.txns.contains_key(k)
            && t.txns[k].txn.merchant_raw == raw by {
        one_key(t, from, k, own(Col::MerchantRaw));
        let v = row_value(t, from, k, own(Col::MerchantRaw));
        assert(seq![v] == group(raw) <==> v == SqlView::Text(raw)) by {
            assert(seq![v][0] == v);
            assert(group(raw)[0] == SqlView::Text(raw));
        }
    }
    assert forall|raw: Seq<char>| #[trigger] which(raw) implies is_group(
        t,
        sql->Group_from,
        sql->Group_conds,
        sql->Group_key,
        sql->Group_having,
        group(raw),
    ) && key(group(raw)) == raw by {
        let x = choose|x: Seq<char>| #[trigger]
            t.txns.contains_key(x) && t.txns[x].txn.merchant_raw == raw;
        assert(group_rows(t, from, conds, by, group(raw)).contains(x));
        assert(group(raw)[0] == SqlView::Text(raw));
    }
    assert forall|g: Seq<SqlView>| #[trigger]
        is_group(
            t,
            sql->Group_from,
            sql->Group_conds,
            sql->Group_key,
            sql->Group_having,
            g,
        ) implies which(key(g)) && group(key(g)) == g by {
        let ids = group_rows(t, from, conds, by, g);
        let k = choose|k: Seq<char>| #[trigger] ids.contains(k);
        one_key(t, from, k, own(Col::MerchantRaw));
        let raw = t.txns[k].txn.merchant_raw;
        assert(g =~= one_text(raw));
        assert(g[0] == SqlView::Text(raw));
        assert(t.txns.contains_key(k));
    }
    assert forall|raw: Seq<char>, row: Seq<SqlView>|
        #![trigger which(raw), are_values(
            t,
            sql->Group_from,
            group_rows(t, sql->Group_from, sql->Group_conds, sql->Group_key, group(raw)),
            sql->Group_out,
            row,
        )]
        which(raw) && are_values(
            t,
            sql->Group_from,
            group_rows(t, sql->Group_from, sql->Group_conds, sql->Group_key, group(raw)),
            sql->Group_out,
            row,
        ) implies row == item(raw) by {
        reveal_with_fuel(are_values, 2);
        assert(row.skip(1).len() == 0);
        assert(row =~= one_text(raw));
    }
    groups_are_listed(t, rows, sql, which, item, upto, group, key);
    listed_rows(rows, which, item, upto);
    assert forall|i: int| 0 <= i < rows.len() implies exists|id: Seq<char>| #[trigger]
        which(id) && (#[trigger] rows[i]) == one_text(id) by {
        let id = choose|id: Seq<char>| #[trigger] which(id) && rows[i] == item(id);
        assert(which(id) && rows[i] == one_text(id));
    }
    assert forall|id: Seq<char>| #[trigger] which(id) implies rows.contains(one_text(id)) by {
        assert(rows.contains(item(id)));
    }
    if rows.len() > 0 {
        let id = choose|id: Seq<char>| #[trigger] which(id) && rows[0] == one_text(id);
        assert(which(id));
    }
    assert(names_all(rows, which));
}

/// The first label of a merchant.
pub open spec fn first_label(txns: Map<Seq<char>, TxnRec>, norm: Seq<char>) -> Seq<char> {
    choose|payee_id: Seq<char>| is_first_label(txns, norm, payee_id)
}

/// The rows of the group of a merchant are those of its transactions that have
/// a label.
proof fn norms_are_grouped(t: Tables, norm: Seq<char>, k: Seq<char>)
    ensures
        ({
            let sql = spoken(ActionView::SharedNorms)->0;
            group_rows(
                t,
                sql->Group_from,
                sql->Group_conds,
                sql->Group_key,
                one_text(norm),
            ).contains(k) <==> t.txns.contains_key(k) && t.txns[k].txn.merchant_norm == norm
                && t.txns[k].payee_id is Some
        }),
{
    let from = From::One(Table::Txn);
    reveal_with_fuel(all_hold, 2);
    one_key(t, from, k, own(Col::MerchantNorm));
    let v = row_value(t, from, k, own(Col::MerchantNorm));
    assert(seq![v] == one_text(norm) <==> v == SqlView::Text(norm)) by {
        assert(seq![v][0] == v);
        assert(one_text(norm)[0] == SqlView::Text(norm));
    }
}

/// The least payee in the group of a merchant is its first label.
proof fn least_label_is_the_first(t: Tables, norm: Seq<char>, ids: Set<Seq<char>>, v: SqlView)
    requires
        forall|k: Seq<char>| #[trigger]
            ids.contains(k) <==> t.txns.contains_key(k) && t.txns[k].txn.merchant_norm == norm
                && t.txns[k].payee_id is Some,
        is_least(t, From::One(Table::Txn), ids, Col::PayeeId, v),
    ensures
        v == SqlView::Text(first_label(t.txns, norm)),
        is_first_label(t.txns, norm, first_label(t.txns, norm)),
{
    let from = From::One(Table::Txn);
    let k = choose|k: Seq<char>| #[trigger]
        ids.contains(k) && cell_in(t, from, k, Side::Own, Col::PayeeId) == v;
    let p = t.txns[k].payee_id->0;
    assert(t.txns.contains_key(k));
    assert(labels(t.txns, norm, p));
    assert forall|other: Seq<char>| #[trigger] labels(t.txns, norm, other) implies !text_less(
        other,
        p,
    ) by {
        let x = choose|x: Seq<char>| #[trigger]
            t.txns.contains_key(x) && t.txns[x].txn.merchant_norm == norm && t.txns[x].payee_id
                == Some(other);
        assert(ids.contains(x));
        assert(cell_in(t, from, x, Side::Own, Col::PayeeId) == SqlView::Text(other));
    }
    assert(is_first_label(t.txns, norm, p));
    let first = first_label(t.txns, norm);
    assert(is_first_label(t.txns, norm, first));
    text_less_total(p, first);
}

/// A merchant with more than one label has its group.
proof fn shared_norm_has_a_group(t: Tables, norm: Seq<char>)
    requires
        is_shared(t.txns, norm),
    ensures
        ({
            let sql = spoken(ActionView::SharedNorms)->0;
            is_group(
                t,
                sql->Group_from,
                sql->Group_conds,
                sql->Group_key,
                sql->Group_having,
                one_text(norm),
            )
        }),
{
    let sql = spoken(ActionView::SharedNorms)->0;
    let from = From::One(Table::Txn);
    let ids = group_rows(t, from, sql->Group_conds, sql->Group_key, one_text(norm));
    let (a, b) = choose|a: Seq<char>, b: Seq<char>|
        a != b && #[trigger] labels(t.txns, norm, a) && #[trigger] labels(t.txns, norm, b);
    let x = choose|x: Seq<char>| #[trigger]
        t.txns.contains_key(x) && t.txns[x].txn.merchant_norm == norm && t.txns[x].payee_id == Some(
            a,
        );
    let y = choose|y: Seq<char>| #[trigger]
        t.txns.contains_key(y) && t.txns[y].txn.merchant_norm == norm && t.txns[y].payee_id == Some(
            b,
        );
    norms_are_grouped(t, norm, x);
    norms_are_grouped(t, norm, y);
    assert(ids.contains(x) && ids.contains(y));
    assert(has_enough(t, from, ids, Having::ManyPayees));
}

/// A group of labels that differ is that of a merchant with more than one.
proof fn norm_group_is_shared(t: Tables, g: Seq<SqlView>)
    requires
        ({
            let sql = spoken(ActionView::SharedNorms)->0;
            is_group(
                t,
                sql->Group_from,
                sql->Group_conds,
                sql->Group_key,
                sql->Group_having,
                g,
            )
        }),
    ensures
        g.len() == 1,
        g[0] is Text,
        g == one_text(g[0]->Text_0),
        is_shared(t.txns, g[0]->Text_0),
{
    let sql = spoken(ActionView::SharedNorms)->0;
    let from = From::One(Table::Txn);
    let ids = group_rows(t, from, sql->Group_conds, sql->Group_key, g);
    let k = choose|k: Seq<char>| #[trigger] ids.contains(k);
    one_key(t, from, k, own(Col::MerchantNorm));
    let norm = t.txns[k].txn.merchant_norm;
    assert(g =~= one_text(norm));
    assert(g[0] == SqlView::Text(norm));
    let (x, y) = choose|x: Seq<char>, y: Seq<char>|
        cell_in(t, from, x, Side::Own, Col::PayeeId) != cell_in(
            t,
            from,
            y,
            Side::Own,
            Col::PayeeId,
        ) && #[trigger] ids.contains(x) && #[trigger] ids.contains(y);
    norms_are_grouped(t, norm, x);
    norms_are_grouped(t, norm, y);
    assert(t.txns.contains_key(x) && t.txns.contains_key(y));
    let a = t.txns[x].payee_id->0;
    let b = t.txns[y].payee_id->0;
    assert(a != b && labels(t.txns, norm, a) && labels(t.txns, norm, b));
}

/// The row of a merchant with more than one label names its first one.
proof fn shared_norm_row(t: Tables, norm: Seq<char>, row: Seq<SqlView>)
    requires
        ({
            let sql = spoken(ActionView::SharedNorms)->0;
            are_values(
                t,
                sql->Group_from,
                group_rows(t, sql->Group_from, sql->Group_conds, sql->Group_key, one_text(norm)),
                sql->Group_out,
                row,
            )
        }),
    ensures
        row == two_texts(norm, first_label(t.txns, norm)),
        is_first_label(t.txns, norm, first_label(t.txns, norm)),
{
    let sql = spoken(ActionView::SharedNorms)->0;
    let from = From::One(Table::Txn);
    let ids = group_rows(t, from, sql->Group_conds, sql->Group_key, one_text(norm));
    assert forall|k: Seq<char>| #[trigger]
        ids.contains(k) <==> t.txns.contains_key(k) && t.txns[k].txn.merchant_norm == norm
            && t.txns[k].payee_id is Some by {
        norms_are_grouped(t, norm, k);
    }
    reveal_with_fuel(are_values, 3);
    assert(row.skip(1)[0] == row[1]);
    assert(row.skip(1).skip(1).len() == 0);
    assert(is_least(t, from, ids, Col::PayeeId, row[1]));
    least_label_is_the_first(t, norm, ids, row[1]);
    assert(row =~= two_texts(norm, first_label(t.txns, norm)));
}

/// A list of the merchants with more than one label, each with its first, has
/// all of them.
proof fn shared_norms_are_told(
    t: Tables,
    rows: Seq<Seq<SqlView>>,
    which: spec_fn(Seq<char>) -> bool,
    item: spec_fn(Seq<char>) -> Seq<SqlView>,
)
    requires
        forall|norm: Seq<char>| #[trigger] which(norm) <==> is_shared(t.txns, norm),
        forall|norm: Seq<char>| #[trigger]
            item(norm) == two_texts(norm, first_label(t.txns, norm)),
        forall|norm: Seq<char>| #[trigger]
            which(norm) ==> is_first_label(t.txns, norm, first_label(t.txns, norm)),
        forall|k: Seq<char>| #[trigger] which(k) ==> rows.contains(item(k)),
    ensures
        shared_are_told(t.txns, rows),
{
    assert forall|norm: Seq<char>| #[trigger] is_shared(t.txns, norm) implies exists|
        keeper: Seq<char>,
    |
        is_first_label(t.txns, norm, keeper) && #[trigger] rows.contains(
            two_texts(norm, keeper),
        ) by {
        assert(which(norm));
        let keeper = first_label(t.txns, norm);
        assert(rows.contains(item(norm)));
        assert(is_first_label(t.txns, norm, keeper) && rows.contains(two_texts(norm, keeper)));
    }
}

/// And it has no others.
proof fn told_norms_are_shared(
    t: Tables,
    rows: Seq<Seq<SqlView>>,
    which: spec_fn(Seq<char>) -> bool,
    item: spec_fn(Seq<char>) -> Seq<SqlView>,
)
    requires
        forall|norm: Seq<char>| #[trigger] which(norm) <==> is_shared(t.txns, norm),
        forall|norm: Seq<char>| #[trigger]
            item(norm) == two_texts(norm, first_label(t.txns, norm)),
        forall|norm: Seq<char>| #[trigger]
            which(norm) ==> is_first_label(t.txns, norm, first_label(t.txns, norm)),
        forall|i: int|
            0 <= i < rows.len() ==> exists|k: Seq<char>| #[trigger]
                which(k) && (#[trigger] rows[i]) == item(k),
    ensures
        told_are_shared(t.txns, rows),
{
    assert forall|i: int| 0 <= i < rows.len() implies exists|norm: Seq<char>, keeper: Seq<char>|
        #[trigger]
        labels(t.txns, norm, keeper) && is_first_label(t.txns, norm, keeper) && is_shared(
            t.txns,
            norm,
        ) && (#[trigger] rows[i]) == two_texts(norm, keeper) by {
        let norm = choose|norm: Seq<char>| #[trigger] which(norm) && rows[i] == item(norm);
        let keeper = first_label(t.txns, norm);
        assert(is_shared(t.txns, norm));
        assert(labels(t.txns, norm, keeper) && is_first_label(t.txns, norm, keeper));
    }
    if rows.len() > 0 {
        let norm = choose|norm: Seq<char>| #[trigger] which(norm) && rows[0] == item(norm);
        assert(labels(t.txns, norm, first_label(t.txns, norm)));
    }
}

/// Merchants with more than one label are answered as the model says.
pub proof fn shared_norms_mean_what_they_say(
    t: Tables,
    rows: Seq<Seq<SqlView>>,
    changed: u64,
    after: Tables,
)
    requires
        sql_does(t, spoken(ActionView::SharedNorms)->0, rows, changed, after),
    ensures
        does(t, ActionView::SharedNorms, rows, changed, after),
{
    let sql = spoken(ActionView::SharedNorms)->0;
    let group = |norm: Seq<char>| one_text(norm);
    let key = |g: Seq<SqlView>| g[0]->Text_0;
    let which = shared_norm(t);
    let item = |norm: Seq<char>| two_texts(norm, first_label(t.txns, norm));
    let upto = |a: Seq<char>, b: Seq<char>| true;
    assert forall|norm: Seq<char>| #[trigger] which(norm) implies is_group(
        t,
        sql->Group_from,
        sql->Group_conds,
        sql->Group_key,
        sql->Group_having,
        group(norm),
    ) && key(group(norm)) == norm by {
        shared_norm_has_a_group(t, norm);
        assert(group(norm)[0] == SqlView::Text(norm));
    }
    assert forall|g: Seq<SqlView>| #[trigger]
        is_group(
            t,
            sql->Group_from,
            sql->Group_conds,
            sql->Group_key,
            sql->Group_having,
            g,
        ) implies which(key(g)) && group(key(g)) == g by {
        norm_group_is_shared(t, g);
    }
    assert forall|norm: Seq<char>, row: Seq<SqlView>|
        #![trigger which(norm), are_values(
            t,
            sql->Group_from,
            group_rows(t, sql->Group_from, sql->Group_conds, sql->Group_key, group(norm)),
            sql->Group_out,
            row,
        )]
        which(norm) && are_values(
            t,
            sql->Group_from,
            group_rows(t, sql->Group_from, sql->Group_conds, sql->Group_key, group(norm)),
            sql->Group_out,
            row,
        ) implies row == item(norm) by {
        shared_norm_row(t, norm, row);
    }
    groups_are_listed(t, rows, sql, which, item, upto, group, key);
    listed_rows(rows, which, item, upto);
    assert forall|norm: Seq<char>| #[trigger] which(norm) implies is_first_label(
        t.txns,
        norm,
        first_label(t.txns, norm),
    ) by {
        shared_norm_has_its_first_label(t, rows, changed, after, norm);
    }
    shared_norms_are_told(t, rows, which, item);
    told_norms_are_shared(t, rows, which, item);
}

/// A merchant has more than one label.
pub open spec fn shared_norm(t: Tables) -> spec_fn(Seq<char>) -> bool {
    |norm: Seq<char>| is_shared(t.txns, norm)
}

proof fn shared_norm_has_its_first_label(
    t: Tables,
    rows: Seq<Seq<SqlView>>,
    changed: u64,
    after: Tables,
    norm: Seq<char>,
)
    requires
        sql_does(t, spoken(ActionView::SharedNorms)->0, rows, changed, after),
        is_shared(t.txns, norm),
    ensures
        is_first_label(t.txns, norm, first_label(t.txns, norm)),
{
    let sql = spoken(ActionView::SharedNorms)->0;
    let groups = choose|groups: Seq<Seq<SqlView>>| #[trigger]
        tells_groups(
            t,
            rows,
            sql->Group_out,
            sql->Group_from,
            sql->Group_conds,
            sql->Group_key,
            sql->Group_having,
            sql->Group_order,
            sql->Group_limit,
            groups,
        );
    shared_norm_has_a_group(t, norm);
    assert(groups.contains(one_text(norm)));
    let i = choose|i: int| 0 <= i < groups.len() && groups[i] == one_text(norm);
    assert(are_values(
        t,
        sql->Group_from,
        group_rows(t, sql->Group_from, sql->Group_conds, sql->Group_key, groups[i]),
        sql->Group_out,
        rows[i],
    ));
    shared_norm_row(t, norm, rows[i]);
}

/// Two payees have a name.
pub open spec fn is_shared_name(t: Tables, name: Seq<char>) -> bool {
    exists|a: Seq<char>, b: Seq<char>|
        a != b && #[trigger] t.payees.contains_key(a) && #[trigger] t.payees.contains_key(b)
            && t.payees[a].name == name && t.payees[b].name == name
}

/// Of the payees with a name, the first by its id.
pub open spec fn first_named(t: Tables, name: Seq<char>) -> Seq<char> {
    choose|id: Seq<char>| is_first_named(t.payees, name, id)
}

/// The names that payees share are answered as the model says.
pub proof fn shared_names_mean_what_they_say(
    t: Tables,
    rows: Seq<Seq<SqlView>>,
    changed: u64,
    after: Tables,
)
    requires
        sql_does(t, spoken(ActionView::SharedNames)->0, rows, changed, after),
    ensures
        does(t, ActionView::SharedNames, rows, changed, after),
{
    let sql = spoken(ActionView::SharedNames)->0;
    let from = From::One(Table::Payee);
    let conds = sql->Group_conds;
    let by = sql->Group_key;
    let group = |name: Seq<char>| one_text(name);
    let key = |g: Seq<SqlView>| g[0]->Text_0;
    let which = |name: Seq<char>| is_shared_name(t, name);
    let item = |name: Seq<char>| two_texts(name, first_named(t, name));
    let upto = |a: Seq<char>, b: Seq<char>| true;
    reveal_with_fuel(all_hold, 1);
    assert forall|name: Seq<char>, k: Seq<char>| #[trigger]
        group_rows(t, from, conds, by, group(name)).contains(k) <==> t.payees.contains_key(k)
            && t.payees[k].name == name by {
        one_key(t, from, k, own(Col::Name));
        let v = row_value(t, from, k, own(Col::Name));
        assert(seq![v] == group(name) <==> v == SqlView::Text(name)) by {
            assert(seq![v][0] == v);
            assert(group(name)[0] == SqlView::Text(name));
        }
    }
    assert forall|name: Seq<char>| #[trigger] which(name) implies is_group(
        t,
        sql->Group_from,
        sql->Group_conds,
        sql->Group_key,
        sql->Group_having,
        group(name),
    ) && key(group(name)) == name by {
        let ids = group_rows(t, from, conds, by, group(name));
        let (a, b) = choose|a: Seq<char>, b: Seq<char>|
            a != b && #[trigger] t.payees.contains_key(a) && #[trigger] t.payees.contains_key(b)
                && t.payees[a].name == name && t.payees[b].name == name;
        assert(ids.contains(a) && ids.contains(b));
        assert(has_enough(t, from, ids, Having::Many));
        assert(group(name)[0] == SqlView::Text(name));
    }
    assert forall|g: Seq<SqlView>| #[trigger]
        is_group(
            t,
            sql->Group_from,
            sql->Group_conds,
            sql->Group_key,
            sql->Group_having,
            g,
        ) implies which(key(g)) && group(key(g)) == g by {
        let ids = group_rows(t, from, conds, by, g);
        let k = choose|k: Seq<char>| #[trigger] ids.contains(k);
        one_key(t, from, k, own(Col::Name));
        let name = t.payees[k].name;
        assert(g =~= one_text(name));
        assert(g[0] == SqlView::Text(name));
        let (x, y) = choose|x: Seq<char>, y: Seq<char>|
            x != y && #[trigger] ids.contains(x) && #[trigger] ids.contains(y);
        assert(group_rows(t, from, conds, by, group(name)).contains(x));
        assert(group_rows(t, from, conds, by, group(name)).contains(y));
        assert(t.payees.contains_key(x) && t.payees.contains_key(y));
    }
    assert forall|name: Seq<char>, row: Seq<SqlView>|
        #![trigger which(name), are_values(
            t,
            sql->Group_from,
            group_rows(t, sql->Group_from, sql->Group_conds, sql->Group_key, group(name)),
            sql->Group_out,
            row,
        )]
        which(name) && are_values(
            t,
            sql->Group_from,
            group_rows(t, sql->Group_from, sql->Group_conds, sql->Group_key, group(name)),
            sql->Group_out,
            row,
        ) implies row == item(name) && is_first_named(t.payees, name, first_named(t, name)) by {
        let ids = group_rows(t, from, conds, by, group(name));
        reveal_with_fuel(are_values, 3);
        assert(row.skip(1)[0] == row[1]);
        assert(row.skip(1).skip(1).len() == 0);
        assert(is_least(t, from, ids, Col::Id, row[1]));
        let k = choose|k: Seq<char>| #[trigger]
            ids.contains(k) && cell_in(t, from, k, Side::Own, Col::Id) == row[1];
        reveal(is_first_named);
        assert forall|other: Seq<char>| #[trigger]
            t.payees.contains_key(other) && t.payees[other].name == name implies !text_less(
            other,
            k,
        ) by {
            assert(ids.contains(other));
            assert(cell_in(t, from, other, Side::Own, Col::Id) == SqlView::Text(other));
        }
        let (a, b) = choose|a: Seq<char>, b: Seq<char>|
            a != b && #[trigger] t.payees.contains_key(a) && #[trigger] t.payees.contains_key(b)
                && t.payees[a].name == name && t.payees[b].name == name;
        let other = if a != k {
            a
        } else {
            b
        };
        assert(t.payees.contains_key(other) && t.payees[other].name == name && other != k);
        assert(is_first_named(t.payees, name, k));
        let first = first_named(t, name);
        assert(is_first_named(t.payees, name, first));
        assert(t.payees.contains_key(k) && t.payees.contains_key(first));
        text_less_total(k, first);
        assert(row =~= item(name));
    }
    groups_are_listed(t, rows, sql, which, item, upto, group, key);
    let groups = choose|groups: Seq<Seq<SqlView>>| #[trigger]
        tells_groups(
            t,
            rows,
            sql->Group_out,
            sql->Group_from,
            sql->Group_conds,
            sql->Group_key,
            sql->Group_having,
            sql->Group_order,
            sql->Group_limit,
            groups,
        );
    let names = choose|names: Seq<Seq<char>>| #[trigger] lists_by(rows, names, which, item, upto);
    assert forall|name: Seq<char>| #[trigger] which(name) implies is_first_named(
        t.payees,
        name,
        first_named(t, name),
    ) by {
        assert(groups.contains(group(name)));
        let i = choose|i: int| 0 <= i < groups.len() && groups[i] == group(name);
        assert(are_values(
            t,
            sql->Group_from,
            group_rows(t, sql->Group_from, sql->Group_conds, sql->Group_key, group(name)),
            sql->Group_out,
            rows[i],
        ));
    }
    let payees = t.payees;
    assert forall|a: Seq<char>, b: Seq<char>|
        #![trigger payees.contains_key(a), payees.contains_key(b)]
        payees.contains_key(a) && payees.contains_key(b) && a != b && payees[a].name
            == payees[b].name implies exists|keeper: Seq<char>| #[trigger]
        rows.contains(two_texts(payees[a].name, keeper)) by {
        let name = payees[a].name;
        assert(which(name));
        assert(names.contains(name));
        let i = choose|i: int| 0 <= i < names.len() && names[i] == name;
        assert(rows[i] == item(names[i]));
        assert(rows.contains(two_texts(name, first_named(t, name))));
    }
    assert forall|i: int| 0 <= i < rows.len() implies exists|name: Seq<char>, keeper: Seq<char>|
        payees.contains_key(keeper) && payees[keeper].name == name && is_first_named(
            payees,
            name,
            keeper,
        ) && (#[trigger] rows[i]) == #[trigger] two_texts(name, keeper) by {
        let name = names[i];
        assert(names.contains(names[i]));
        assert(which(name));
        let keeper = first_named(t, name);
        assert(payees.contains_key(keeper) && payees[keeper].name == name) by {
            reveal(is_first_named);
        }
        assert(rows[i] == two_texts(name, keeper));
    }
    assert forall|i: int, j: int| 0 <= i < rows.len() && 0 <= j < rows.len() && i != j implies (
    #[trigger] rows[i])[0] != (#[trigger] rows[j])[0] by {
        assert(rows[i] == item(names[i]) && rows[j] == item(names[j]));
        assert(rows[i][0] == SqlView::Text(names[i]));
        assert(rows[j][0] == SqlView::Text(names[j]));
    }
    if rows.len() > 0 {
        assert(rows[0] == item(names[0]));
        let dummy = two_texts(names[0], first_named(t, names[0]));
        assert(rows[0] == dummy);
    }
}

} // verus!
