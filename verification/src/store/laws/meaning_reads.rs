//! What the statements that read rows mean is what the model says that they
//! answer.

use crate::parse::{direction_reads_back, Direction};
use crate::store::action::{action_mode, ActionView, Mode};
use crate::store::filter::TxnFilterView;
use crate::store::lang::{all_hold, amounts, are_values, base, category_row_of, cell, cell_in, holds,
    is_hit, keys, of_direction, payee_row_of, row_upto, row_value, row_values, sql_does, Col, Cond,
    Conds, Exprs, From, Side, Sql, Table};
use crate::store::laws::spoken::{filter_conds, latest_order, of_statement, own, spoken,
    statement_cols, text_param, txn_cols};
use crate::store::model::{does, how_many, names_all, names_one, one_number, one_text, two_numbers,
    Tables, TxnRec};
use crate::store::query::{by_name, by_sort, category_of, category_row, in_scope, is_category,
    is_payee, is_picked, is_statement, is_unlabeled, last_first, latest_first, lists, lists_by,
    lists_first, payee_of, payee_row, statement_row, txn_row, unlabeled_count, unlabeled_debit,
    unlabeled_row};
use crate::store::value::SqlView;
use crate::text::text_less_total;
use vstd::prelude::*;

verus! {

/// The rows that a caller gets of those that a statement has.
pub open spec fn gets(action: ActionView, all: Seq<Seq<SqlView>>, rows: Seq<Seq<SqlView>>) -> bool {
    match action_mode(action) {
        Mode::FirstRow => rows == if all.len() <= 1 {
            all
        } else {
            all.take(1)
        },
        _ => rows == all,
    }
}

/// A list told by other words is the same list.
pub proof fn lists_told_otherwise<K, R>(
    rows: Seq<R>,
    which: spec_fn(K) -> bool,
    item: spec_fn(K) -> R,
    upto: spec_fn(K, K) -> bool,
    which2: spec_fn(K) -> bool,
    item2: spec_fn(K) -> R,
    upto2: spec_fn(K, K) -> bool,
)
    requires
        lists(rows, which, item, upto),
        forall|k: K| which(k) <==> #[trigger] which2(k),
        forall|k: K| #[trigger] which2(k) ==> item(k) == item2(k),
        forall|a: K, b: K|
            #![trigger which2(a), which2(b)]
            which2(a) && which2(b) && upto(a, b) ==> upto2(a, b),
    ensures
        lists(rows, which2, item2, upto2),
{
    let keys = choose|keys: Seq<K>| #[trigger] lists_by(rows, keys, which, item, upto);
    assert forall|i: int| 0 <= i < keys.len() implies which2(#[trigger] keys[i]) by {
        assert(keys.contains(keys[i]));
        assert(which(keys[i]));
    }
    assert forall|k: K| #![trigger which2(k)] #![trigger keys.contains(k)] which2(k)
        <==> keys.contains(k) by {
        assert(which(k) <==> which2(k));
    }
    assert forall|i: int| 0 <= i < keys.len() implies #[trigger] rows[i] == item2(keys[i]) by {
        assert(which2(keys[i]));
    }
    assert forall|i: int, j: int| 0 <= i < j < keys.len() implies upto2(
        #[trigger] keys[i],
        #[trigger] keys[j],
    ) by {
        assert(upto(keys[i], keys[j]));
        assert(which2(keys[i]) && which2(keys[j]));
    }
    assert(lists_by(rows, keys, which2, item2, upto2));
}

/// The key of a list's row, and of each key a row.
pub proof fn listed_rows<K, R>(
    rows: Seq<R>,
    which: spec_fn(K) -> bool,
    item: spec_fn(K) -> R,
    upto: spec_fn(K, K) -> bool,
)
    requires
        lists(rows, which, item, upto),
    ensures
        forall|i: int|
            0 <= i < rows.len() ==> exists|k: K| #[trigger] which(k) && (#[trigger] rows[i])
                == item(k),
        forall|k: K| #[trigger] which(k) ==> rows.contains(item(k)),
{
    let keys = choose|keys: Seq<K>| #[trigger] lists_by(rows, keys, which, item, upto);
    assert forall|i: int| 0 <= i < rows.len() implies exists|k: K| #[trigger]
        which(k) && (#[trigger] rows[i]) == item(k) by {
        assert(keys.contains(keys[i]));
        assert(which(keys[i]));
    }
    assert forall|k: K| #[trigger] which(k) implies rows.contains(item(k)) by {
        assert(keys.contains(k));
        let i = choose|i: int| 0 <= i < keys.len() && keys[i] == k;
        assert(rows[i] == item(keys[i]));
    }
    if rows.len() > 0 {
        assert(keys.contains(keys[0]));
        assert(which(keys[0]));
    }
}

/// Statements that look a record up answer as the model says.
pub proof fn lookups_mean_what_they_say(
    t: Tables,
    action: ActionView,
    all: Seq<Seq<SqlView>>,
    rows: Seq<Seq<SqlView>>,
    changed: u64,
    after: Tables,
)
    requires
        action is FindCategory || action is FindPayee || action is OtherNamed || action
            is OthersNamed || action is FindStatement || action is AliasOf,
        sql_does(t, spoken(action)->0, all, changed, after),
        gets(action, all, rows),
    ensures
        does(t, action, rows, changed, after),
{
    reveal_with_fuel(all_hold, 3);
    reveal_with_fuel(row_values, 2);
    let sql = spoken(action)->0;
    if !(action is FindCategory) {
        let from = sql->List_from;
        let conds = sql->List_conds;
        let out = sql->List_out;
        let order = sql->List_order;
        let hit = |k: Seq<char>| is_hit(t, from, conds, k);
        let item = |k: Seq<char>| row_values(t, from, k, out);
        listed_rows(
            all,
            hit,
            item,
            |a: Seq<char>, b: Seq<char>| row_upto(t, from, order, a, b),
        );
        assert forall|k: Seq<char>| #[trigger] is_hit(t, from, conds, k) implies all.contains(
            row_values(t, from, k, out),
        ) by {
            assert(hit(k) && all.contains(item(k)));
        }
        assert forall|i: int| 0 <= i < all.len() implies exists|k: Seq<char>| #[trigger]
            is_hit(t, from, conds, k) && (#[trigger] all[i]) == row_values(t, from, k, out) by {
            let k = choose|k: Seq<char>| #[trigger] hit(k) && all[i] == item(k);
            assert(is_hit(t, from, conds, k) && all[i] == row_values(t, from, k, out));
        }
        assert forall|k: Seq<char>| #[trigger] is_hit(t, from, conds, k) implies row_values(
            t,
            from,
            k,
            out,
        ) == seq![row_value(t, from, k, out->Next_0)] by {
            assert(row_values(t, from, k, out) =~= seq![row_value(t, from, k, out->Next_0)]);
        }
        if all.len() > 0 {
            let k = choose|k: Seq<char>| #[trigger]
                is_hit(t, from, conds, k) && all[0] == row_values(t, from, k, out);
            assert(is_hit(t, from, conds, k) && all[0] == row_values(t, from, k, out));
            assert(rows[0] == all[0]);
        }
    }
    match action {
        ActionView::FindCategory { id } => {
            if t.categories.contains_key(id) {
                assert(is_hit(t, From::One(Table::Category), sql->Any_conds, id));
            }
        },
        ActionView::FindPayee { name } => {
            let which = |id: Seq<char>| t.payees.contains_key(id) && t.payees[id].name == name;
            assert forall|k: Seq<char>| is_hit(t, sql->List_from, sql->List_conds, k) <==>
                #[trigger] which(k) by {}
            answer_one(t, sql, all, rows, which);
        },
        ActionView::OtherNamed { name, id } => {
            let which = |other: Seq<char>|
                t.payees.contains_key(other) && t.payees[other].name == name && other != id;
            assert forall|k: Seq<char>| is_hit(t, sql->List_from, sql->List_conds, k) <==>
                #[trigger] which(k) by {}
            answer_one(t, sql, all, rows, which);
        },
        ActionView::OthersNamed { name, id } => {
            let which = |other: Seq<char>|
                t.payees.contains_key(other) && t.payees[other].name == name && other != id;
            assert forall|k: Seq<char>| is_hit(t, sql->List_from, sql->List_conds, k) <==>
                #[trigger] which(k) by {}
            answer_all(t, sql, all, which);
        },
        ActionView::FindStatement { source_sha256 } => {
            let which = |id: Seq<char>|
                t.statements.contains_key(id) && t.statements[id].head.source_sha256
                    == source_sha256;
            assert forall|k: Seq<char>| is_hit(t, sql->List_from, sql->List_conds, k) <==>
                #[trigger] which(k) by {}
            answer_one(t, sql, all, rows, which);
        },
        ActionView::AliasOf { norm } => {
            if t.aliases.contains_key(norm) {
                assert(is_hit(t, sql->List_from, sql->List_conds, norm));
                assert(all.contains(row_values(t, sql->List_from, norm, sql->List_out)));
                assert(all.len() > 0);
                let k = choose|k: Seq<char>| #[trigger]
                    is_hit(t, sql->List_from, sql->List_conds, k) && all[0] == row_values(
                        t,
                        sql->List_from,
                        k,
                        sql->List_out,
                    );
                assert(k == norm);
                assert(rows[0] =~= one_text(t.aliases[norm].payee_id));
            }
        },
        _ => {},
    }
}

/// A statement that lists ids answers with those of the rows that it is about.
proof fn answer_all(
    t: Tables,
    sql: Sql,
    all: Seq<Seq<SqlView>>,
    which: spec_fn(Seq<char>) -> bool,
)
    requires
        sql is List,
        sql->List_out == Exprs::Next(own(Col::Id), Box::new(Exprs::End)),
        sql->List_from == From::One(Table::Payee) || sql->List_from == From::One(Table::Statement),
        forall|k: Seq<char>| is_hit(t, sql->List_from, sql->List_conds, k) <==> #[trigger] which(k),
        forall|i: int|
            0 <= i < all.len() ==> exists|k: Seq<char>| #[trigger]
                is_hit(t, sql->List_from, sql->List_conds, k) && (#[trigger] all[i]) == row_values(
                    t,
                    sql->List_from,
                    k,
                    sql->List_out,
                ),
        forall|k: Seq<char>| #[trigger]
            is_hit(t, sql->List_from, sql->List_conds, k) ==> all.contains(
                row_values(t, sql->List_from, k, sql->List_out),
            ),
    ensures
        names_all(all, which),
{
    reveal_with_fuel(row_values, 2);
    let from = sql->List_from;
    let conds = sql->List_conds;
    let out = sql->List_out;
    assert forall|k: Seq<char>| #[trigger] row_values(t, from, k, out) == one_text(k) by {
        assert(row_values(t, from, k, out) =~= one_text(k));
    }
    assert forall|i: int| 0 <= i < all.len() implies exists|id: Seq<char>| #[trigger]
        which(id) && (#[trigger] all[i]) == one_text(id) by {
        let k = choose|k: Seq<char>| #[trigger]
            is_hit(t, from, conds, k) && all[i] == row_values(t, from, k, out);
        assert(which(k) && all[i] == one_text(k));
    }
    assert forall|id: Seq<char>| #[trigger] which(id) implies all.contains(one_text(id)) by {
        assert(is_hit(t, from, conds, id));
        assert(row_values(t, from, id, out) == one_text(id));
    }
    if all.len() > 0 {
        let id = choose|id: Seq<char>| #[trigger] which(id) && all[0] == one_text(id);
        assert(which(id));
    }
}

proof fn answer_one(
    t: Tables,
    sql: Sql,
    all: Seq<Seq<SqlView>>,
    rows: Seq<Seq<SqlView>>,
    which: spec_fn(Seq<char>) -> bool,
)
    requires
        sql is List,
        sql->List_out == Exprs::Next(own(Col::Id), Box::new(Exprs::End)),
        sql->List_from == From::One(Table::Payee) || sql->List_from == From::One(Table::Statement),
        forall|k: Seq<char>| is_hit(t, sql->List_from, sql->List_conds, k) <==> #[trigger] which(k),
        forall|i: int|
            0 <= i < all.len() ==> exists|k: Seq<char>| #[trigger]
                is_hit(t, sql->List_from, sql->List_conds, k) && (#[trigger] all[i]) == row_values(
                    t,
                    sql->List_from,
                    k,
                    sql->List_out,
                ),
        forall|k: Seq<char>| #[trigger]
            is_hit(t, sql->List_from, sql->List_conds, k) ==> all.contains(
                row_values(t, sql->List_from, k, sql->List_out),
            ),
        rows == if all.len() <= 1 {
            all
        } else {
            all.take(1)
        },
    ensures
        names_one(rows, which),
{
    answer_all(t, sql, all, which);
    if all.len() > 0 {
        let id = choose|id: Seq<char>| #[trigger] which(id) && all[0] == one_text(id);
        assert(which(id) && rows[0] == one_text(id));
    } else {
        assert forall|id: Seq<char>| !#[trigger] which(id) by {
            if which(id) {
                assert(all.contains(one_text(id)));
            }
        }
    }
}

/// The row of a statement.
proof fn statement_row_is_told(t: Tables, id: Seq<char>)
    ensures
        row_values(t, From::One(Table::Statement), id, statement_cols()) == statement_row(t)(id),
{
    let from = From::One(Table::Statement);
    reveal_with_fuel(row_values, 17);
    assert(row_values(t, from, id, statement_cols()) =~= statement_row(t)(id));
}

proof fn latest_order_is_told(t: Tables, a: Seq<char>, b: Seq<char>)
    requires
        row_upto(t, From::One(Table::Statement), latest_order(), a, b),
    ensures
        latest_first(t)(a, b),
{
    reveal_with_fuel(row_upto, 3);
    text_less_total(t.statements[a].imported_at, t.statements[b].imported_at);
    text_less_total(t.statements[a].head.period_end, t.statements[b].head.period_end);
}

/// Statements that list the statements of the card answer as the model says.
pub proof fn statement_lists_mean_what_they_say(
    t: Tables,
    action: ActionView,
    all: Seq<Seq<SqlView>>,
    rows: Seq<Seq<SqlView>>,
    changed: u64,
    after: Tables,
)
    requires
        action is ListStatements || action is LatestStatement || action is StatementById,
        sql_does(t, spoken(action)->0, all, changed, after),
        gets(action, all, rows),
    ensures
        does(t, action, rows, changed, after),
{
    let sql = spoken(action)->0;
    let from = From::One(Table::Statement);
    let conds = sql->List_conds;
    let order = sql->List_order;
    let which = |k: Seq<char>| is_hit(t, from, conds, k);
    let item = |k: Seq<char>| row_values(t, from, k, statement_cols());
    let upto = |a: Seq<char>, b: Seq<char>| row_upto(t, from, order, a, b);
    assert forall|k: Seq<char>| #[trigger] item(k) == statement_row(t)(k) by {
        statement_row_is_told(t, k);
    }
    reveal_with_fuel(all_hold, 2);
    match action {
        ActionView::StatementById { id } => {
            assert(lists(all, which, item, upto));
            listed_rows(all, which, item, upto);
            if all.len() > 0 {
                let k = choose|k: Seq<char>| #[trigger] which(k) && all[0] == item(k);
                assert(k == id);
                assert(rows[0] == all[0]);
            }
            if t.statements.contains_key(id) {
                assert(which(id));
                assert(all.contains(item(id)));
            }
        },
        ActionView::LatestStatement => {
            let full = choose|full: Seq<Seq<SqlView>>| #[trigger]
                lists(full, which, item, upto) && all == if full.len() <= 1 {
                    full
                } else {
                    full.take(1)
                };
            assert forall|k: Seq<char>| which(k) <==> #[trigger] is_statement(t)(k) by {}
            assert forall|a: Seq<char>, b: Seq<char>| #[trigger] upto(a, b) implies latest_first(
                t,
            )(a, b) by {
                latest_order_is_told(t, a, b);
            }
            lists_told_otherwise(
                full,
                which,
                item,
                upto,
                is_statement(t),
                statement_row(t),
                latest_first(t),
            );
            assert(rows == all);
            assert(lists_first(
                rows,
                1,
                is_statement(t),
                statement_row(t),
                latest_first(t),
            ));
        },
        ActionView::ListStatements => {
            assert(lists(all, which, item, upto));
            assert forall|k: Seq<char>| which(k) <==> #[trigger] is_statement(t)(k) by {}
            assert forall|a: Seq<char>, b: Seq<char>| #[trigger] upto(a, b) implies latest_first(
                t,
            )(a, b) by {
                latest_order_is_told(t, a, b);
            }
            lists_told_otherwise(
                all,
                which,
                item,
                upto,
                is_statement(t),
                statement_row(t),
                latest_first(t),
            );
        },
        _ => {},
    }
}

/// Statements that list categories, payees and transactions without a label
/// answer as the model says.
pub proof fn plain_lists_mean_what_they_say(
    t: Tables,
    action: ActionView,
    rows: Seq<Seq<SqlView>>,
    changed: u64,
    after: Tables,
)
    requires
        action is ListCategories || action is ListPayees || action is UnlabeledTxns,
        sql_does(t, spoken(action)->0, rows, changed, after),
    ensures
        does(t, action, rows, changed, after),
{
    let sql = spoken(action)->0;
    let from = sql->List_from;
    let conds = sql->List_conds;
    let out = sql->List_out;
    let order = sql->List_order;
    let which = |k: Seq<char>| is_hit(t, from, conds, k);
    let item = |k: Seq<char>| row_values(t, from, k, out);
    let upto = |a: Seq<char>, b: Seq<char>| row_upto(t, from, order, a, b);
    assert(lists(rows, which, item, upto));
    reveal_with_fuel(all_hold, 2);
    reveal_with_fuel(row_values, 7);
    reveal_with_fuel(row_upto, 3);
    match action {
        ActionView::ListCategories => {
            assert forall|k: Seq<char>| #[trigger] item(k) == category_row(t)(k) by {
                assert(item(k) =~= category_row(t)(k));
            }
            lists_told_otherwise(
                rows,
                which,
                item,
                upto,
                is_category(t),
                category_row(t),
                by_sort(t),
            );
        },
        ActionView::ListPayees => {
            assert forall|k: Seq<char>| #[trigger] item(k) == payee_row(t)(k) by {
                assert(item(k) =~= payee_row(t)(k));
            }
            assert forall|a: Seq<char>, b: Seq<char>| #[trigger] upto(a, b) implies by_name(t)(
                a,
                b,
            ) by {
                text_less_total(t.payees[a].name, t.payees[b].name);
            }
            lists_told_otherwise(
                rows,
                which,
                item,
                upto,
                is_payee(t),
                payee_row(t),
                by_name(t),
            );
        },
        ActionView::UnlabeledTxns => {
            assert forall|k: Seq<char>| #[trigger] item(k) == unlabeled_row(t)(k) by {
                assert(item(k) =~= unlabeled_row(t)(k));
            }
            lists_told_otherwise(
                rows,
                which,
                item,
                upto,
                is_unlabeled(t),
                unlabeled_row(t),
                last_first(t),
            );
        },
        _ => {},
    }
}

/// The payee and the category that are joined to a transaction are those that
/// it has.
pub proof fn joins_are_told(t: Tables, k: Seq<char>)
    ensures
        payee_row_of(t, k) == payee_of(t, t.txns[k]),
        category_row_of(t, k) == category_of(t, t.txns[k]),
{
}

/// The conditions of a filter hold of the transactions that it picks.
pub proof fn filters_pick_what_they_say(t: Tables, filter: TxnFilterView, id: Seq<char>)
    ensures
        is_hit(
            t,
            From::WithAny,
            Conds::And(Cond::Always, Box::new(filter_conds(filter))),
            id,
        ) <==> is_picked(t, filter)(id),
{
    reveal_with_fuel(all_hold, 6);
    let x = t.txns[id];
    let from = From::WithAny;
    joins_are_told(t, id);
    if filter.category_id is Some {
        let c = filter.category_id->0;
        let cond = Cond::OfCategory(text_param(c));
        if holds(t, from, id, cond) {
            let p = choose|p: Seq<char>| #[trigger]
                keys(t, Table::Payee).contains(p) && cell(t, Table::Payee, p, Col::CategoryId)
                    == SqlView::Text(c) && cell_in(t, from, id, Side::T, Col::PayeeId)
                    == SqlView::Text(p);
            assert(payee_of(t, x) == Some(p));
        }
        if payee_of(t, x) is Some && t.payees[payee_of(t, x)->0].category_id == c {
            let p = payee_of(t, x)->0;
            assert(keys(t, Table::Payee).contains(p));
            assert(holds(t, from, id, cond));
        }
        assert(holds(t, from, id, cond) <==> (payee_of(t, x) matches Some(p)
            && t.payees[p].category_id == c));
    }
}

/// The statement that lists transactions answers with those that its filter
/// picks, as the model says.
pub proof fn transaction_list_means_what_it_says(
    t: Tables,
    filter: TxnFilterView,
    rows: Seq<Seq<SqlView>>,
    changed: u64,
    after: Tables,
)
    requires
        sql_does(t, spoken(ActionView::ListTxns { filter })->0, rows, changed, after),
    ensures
        does(t, ActionView::ListTxns { filter }, rows, changed, after),
{
    let sql = spoken(ActionView::ListTxns { filter })->0;
    let from = sql->List_from;
    let conds = sql->List_conds;
    let order = sql->List_order;
    let which = |k: Seq<char>| is_hit(t, from, conds, k);
    let item = |k: Seq<char>| row_values(t, from, k, txn_cols());
    let upto = |a: Seq<char>, b: Seq<char>| row_upto(t, from, order, a, b);
    assert(lists(rows, which, item, upto));
    assert forall|k: Seq<char>| which(k) <==> #[trigger] is_picked(t, filter)(k) by {
        filters_pick_what_they_say(t, filter, k);
    }
    assert forall|k: Seq<char>| #[trigger] item(k) == txn_row(t)(k) by {
        joins_are_told(t, k);
        reveal_with_fuel(row_values, 19);
        assert(item(k) =~= txn_row(t)(k));
    }
    assert forall|a: Seq<char>, b: Seq<char>| #[trigger] upto(a, b) implies last_first(t)(a, b) by {
        reveal_with_fuel(row_upto, 3);
    }
    lists_told_otherwise(
        rows,
        which,
        item,
        upto,
        is_picked(t, filter),
        txn_row(t),
        last_first(t),
    );
}

/// Statements that count transactions answer as the model says.
pub proof fn counts_mean_what_they_say(
    t: Tables,
    action: ActionView,
    all: Seq<Seq<SqlView>>,
    rows: Seq<Seq<SqlView>>,
    changed: u64,
    after: Tables,
)
    requires
        action is CountLabeled || action is CountTxnsOf,
        sql_does(t, spoken(action)->0, all, changed, after),
        gets(action, all, rows),
    ensures
        does(t, action, rows, changed, after),
{
    reveal_with_fuel(all_hold, 2);
    reveal_with_fuel(are_values, 2);
    match action {
        ActionView::CountLabeled { statement_id } => {
            let of_statement = |x: TxnRec| x.statement_id == statement_id;
            let labeled = |x: TxnRec| x.statement_id == statement_id && x.payee_id is Some;
            assert(keys(t, Table::Txn).filter(
                |k: Seq<char>|
                    cell(t, Table::Txn, k, Col::StatementId) == SqlView::Text(statement_id),
            ) =~= t.txns.dom().filter(|id: Seq<char>| of_statement(t.txns[id])));
            assert(keys(t, Table::Txn).filter(
                |k: Seq<char>|
                    cell(t, Table::Txn, k, Col::StatementId) == SqlView::Text(statement_id)
                        && !(cell(t, Table::Txn, k, Col::PayeeId) is Null),
            ) =~= t.txns.dom().filter(|id: Seq<char>| labeled(t.txns[id])));
            let n = all[0][0]->Integer_0;
            let m = all[0][1]->Integer_0;
            assert(rows[0] =~= two_numbers(n, m));
            assert(n == how_many(t.txns, of_statement) && m == how_many(t.txns, labeled));
        },
        ActionView::CountTxnsOf { payee_id } => {
            let sql = spoken(action)->0;
            let of_payee = |x: TxnRec| x.payee_id == Some(payee_id);
            let ids = keys(t, Table::Txn).filter(
                |k: Seq<char>| is_hit(t, From::One(Table::Txn), sql->Totals_conds, k),
            );
            assert(ids =~= t.txns.dom().filter(|id: Seq<char>| of_payee(t.txns[id])));
            let n = all[0][0]->Integer_0;
            assert(all[0].skip(1).len() == 0);
            assert(rows[0] =~= one_number(n));
            assert(n == how_many(t.txns, of_payee));
        },
        _ => {},
    }
}

/// A transaction's statement is asked for, or any is.
pub proof fn scopes_are_told(
    t: Tables,
    from: From,
    k: Seq<char>,
    statement_id: Option<Seq<char>>,
)
    requires
        base(from) is Txn,
    ensures
        all_hold(t, from, k, of_statement(statement_id, Conds::End)) <==> in_scope(
            t.txns[k],
            statement_id,
        ),
{
    reveal_with_fuel(all_hold, 2);
}

/// The direction of a transaction is told by its word.
pub proof fn directions_are_told(t: Tables, k: Seq<char>)
    ensures
        cell(t, Table::Txn, k, Col::Direction) == SqlView::Text("debit"@) <==> t.txns[k].txn.direction
            is Debit,
        cell(t, Table::Txn, k, Col::Direction) == SqlView::Text("credit"@)
            <==> t.txns[k].txn.direction is Credit,
{
    direction_reads_back(t.txns[k].txn.direction);
    direction_reads_back(Direction::Debit);
    direction_reads_back(Direction::Credit);
}

/// The statement that sums up what has no label answers as the model says.
pub proof fn unlabeled_totals_mean_what_they_say(
    t: Tables,
    statement_id: Option<Seq<char>>,
    all: Seq<Seq<SqlView>>,
    rows: Seq<Seq<SqlView>>,
    changed: u64,
    after: Tables,
)
    requires
        sql_does(t, spoken(ActionView::UnlabeledTotals { statement_id })->0, all, changed, after),
        gets(ActionView::UnlabeledTotals { statement_id }, all, rows),
    ensures
        does(t, ActionView::UnlabeledTotals { statement_id }, rows, changed, after),
{
    reveal_with_fuel(all_hold, 2);
    reveal_with_fuel(are_values, 3);
    let sql = spoken(ActionView::UnlabeledTotals { statement_id })->0;
    let from = From::Short;
    let conds = sql->Totals_conds;
    let ids = keys(t, Table::Txn).filter(|k: Seq<char>| is_hit(t, from, conds, k));
    let open = |x: TxnRec| in_scope(x, statement_id) && x.payee_id is None;
    let open_debit = |x: TxnRec|
        in_scope(x, statement_id) && x.payee_id is None && x.txn.direction is Debit;
    assert forall|k: Seq<char>| t.txns.contains_key(k) implies (#[trigger] is_hit(
        t,
        from,
        conds,
        k,
    ) <==> open(t.txns[k])) by {
        scopes_are_told(t, from, k, statement_id);
    }
    assert(ids =~= t.txns.dom().filter(|id: Seq<char>| open(t.txns[id])));
    assert forall|k: Seq<char>| #[trigger] cell(t, Table::Txn, k, Col::Direction) == SqlView::Text(
        "debit"@,
    ) <==> t.txns[k].txn.direction is Debit by {
        directions_are_told(t, k);
    }
    assert(of_direction(t, ids, "debit"@) =~= t.txns.dom().filter(
        |id: Seq<char>| open_debit(t.txns[id]),
    ));
    assert(amounts(t, of_direction(t, ids, "debit"@)) == unlabeled_debit(t, statement_id));
    let row = all[0];
    assert(row.skip(1)[0] == row[1]);
    assert(row.skip(1).skip(1).len() == 0);
    assert(rows[0] =~= two_numbers(
        unlabeled_debit(t, statement_id) as i64,
        unlabeled_count(t, statement_id) as i64,
    ));
}

} // verus!
