//! What the pages show.

use crate::parse::opt_text;
use crate::store::dashboard::{Dashboard, DashboardView};
use crate::store::filter::{TxnFilter, TxnFilterView};
use crate::store::groups::{group_views, MerchantGroup, MerchantGroupView};
use crate::store::rows::{statement_views, Category, CategoryView, StatementRow, StatementRowView};
use crate::text::{chars_of, copy, same_str, string_of, trim, trimmed};
use crate::web::markup::{bar_views, Bar, BarView};
use crate::web::money::{money, tr_money};
use crate::web::url::{query_value, value_in};
use vstd::prelude::*;
use vstd::string::StringExecFns;

verus! {

/// The pages of the menu.
#[derive(Debug, Clone, Copy, PartialEq, Eq, Structural)]
pub enum Nav {
    Home,
    Import,
    Inbox,
    Txns,
    Payees,
}

/// The class of a page's entry in the menu: the page that is shown stands out.
pub fn nav_class(mine: Nav, active: Nav) -> (r: Option<&'static str>)
    ensures
        match r {
            Some(class) => mine == active && class@ == "active"@,
            None => mine != active,
        },
{
    if mine == active {
        Some("active")
    } else {
        None
    }
}

/// The transactions in groups, as their counts say.
pub open spec fn count_total(groups: Seq<MerchantGroupView>) -> int
    decreases groups.len(),
{
    if groups.len() == 0 {
        0
    } else {
        count_total(groups.drop_last()) + groups.last().count
    }
}

/// 64 bits hold every partial sum of the counts.
pub open spec fn counts_fit(groups: Seq<MerchantGroupView>) -> bool {
    forall|n: int|
        0 <= n <= groups.len() ==> i64::MIN <= count_total(#[trigger] groups.take(n)) <= i64::MAX
}

/// The number on the inbox's entry in the menu; `None` where 64 bits do not
/// hold it.
pub fn unlabeled_total(groups: &[MerchantGroup]) -> (r: Option<i64>)
    ensures
        match r {
            Some(n) => counts_fit(group_views(groups@)) && n == count_total(group_views(groups@)),
            None => !counts_fit(group_views(groups@)),
        },
{
    let ghost all = group_views(groups@);
    let mut n: i64 = 0;
    let mut i: usize = 0;
    while i < groups.len()
        invariant
            i <= groups.len(),
            all == group_views(groups@),
            n == count_total(all.take(i as int)),
            forall|k: int|
                0 <= k <= i ==> i64::MIN <= count_total(#[trigger] all.take(k)) <= i64::MAX,
        decreases groups.len() - i,
    {
        proof {
            assert(all.take(i as int + 1).drop_last() =~= all.take(i as int));
            assert(all.take(i as int + 1).last() == groups@[i as int]@);
        }
        match n.checked_add(groups[i].count) {
            Some(next) => {
                n = next;
            },
            None => {
                proof {
                    assert(!(i64::MIN <= count_total(all.take(i as int + 1)) <= i64::MAX));
                }
                return None;
            },
        }
        i += 1;
    }
    proof {
        assert(all.take(all.len() as int) =~= all);
    }
    Some(n)
}

/// One of the statements has this id.
pub open spec fn has_statement(statements: Seq<StatementRowView>, id: Seq<char>) -> bool {
    exists|i: int| 0 <= i < statements.len() && (#[trigger] statements[i]).id == id
}

/// The statement that a query picks: the one it names, or the first, which is
/// the latest. The empty name picks none, for the whole history.
pub open spec fn picked(statements: Seq<StatementRowView>, query: Seq<char>) -> Option<Seq<char>> {
    match value_in(query, "d"@) {
        Some(id) => if id.len() == 0 {
            None
        } else if has_statement(statements, id) {
            Some(id)
        } else {
            first_id(statements)
        },
        None => first_id(statements),
    }
}

pub open spec fn first_id(statements: Seq<StatementRowView>) -> Option<Seq<char>> {
    if statements.len() == 0 {
        None
    } else {
        Some(statements[0].id)
    }
}

/// Picks the statement that a query names, or the first; the empty name picks
/// none.
pub fn pick_statement(statements: &[StatementRow], query: &str) -> (r: Option<String>)
    ensures
        opt_text(r) == picked(statement_views(statements@), query@),
{
    let ghost all = statement_views(statements@);
    if let Some(id) = query_value(query, "d") {
        if id.as_str().is_empty() {
            return None;
        }
        let mut i: usize = 0;
        while i < statements.len()
            invariant
                i <= statements.len(),
                all == statement_views(statements@),
                value_in(query@, "d"@) == Some(id@),
                id@.len() > 0,
                forall|j: int| 0 <= j < i ==> (#[trigger] all[j]).id != id@,
            decreases statements.len() - i,
        {
            proof {
                assert(all[i as int] == statements@[i as int]@);
            }
            if same_str(statements[i].id.as_str(), id.as_str()) {
                proof {
                    assert(has_statement(all, id@));
                }
                return Some(id);
            }
            i += 1;
        }
    }
    if statements.len() == 0 {
        None
    } else {
        proof {
            assert(all[0] == statements@[0]@);
        }
        Some(copy(statements[0].id.as_str()))
    }
}

/// A bar with an amount: the amount is its value, its text and the end of its
/// tip.
pub open spec fn amount_bar(label: Seq<char>, minor: i64, color: Seq<char>) -> BarView {
    BarView {
        label,
        minor,
        text: money(minor as int),
        title: label + " · "@ + money(minor as int),
        color,
    }
}

fn bar_of(label: &str, minor: i64, color: &str) -> (r: Bar)
    ensures
        r@ == amount_bar(label@, minor, color@),
{
    let text = tr_money(minor);
    let mut title = copy(label);
    title.append(" · ");
    title.append(text.as_str());
    Bar { label: copy(label), minor, text, title, color: copy(color) }
}

/// The bars of the categories that something was spent in, in their colours.
pub open spec fn spend_bars(spend: Seq<(CategoryView, i64)>) -> Seq<BarView>
    decreases spend.len(),
{
    if spend.len() == 0 {
        Seq::empty()
    } else if spend.last().1 > 0 {
        spend_bars(spend.drop_last()).push(
            amount_bar(spend.last().0.name, spend.last().1, spend.last().0.color),
        )
    } else {
        spend_bars(spend.drop_last())
    }
}

/// The bars of the categories, with one for what has no label.
pub open spec fn category_bars_of(dash: DashboardView) -> Seq<BarView> {
    if dash.unlabeled_debit_minor > 0 {
        spend_bars(dash.spend_by_category).push(
            amount_bar("Etiketsiz"@, dash.unlabeled_debit_minor, "#64748b"@),
        )
    } else {
        spend_bars(dash.spend_by_category)
    }
}

/// The bars of the categories on a dashboard.
pub fn category_bars(dash: &Dashboard) -> (r: Vec<Bar>)
    ensures
        bar_views(r@) == category_bars_of(dash@),
{
    let ghost all = dash@.spend_by_category;
    let mut bars: Vec<Bar> = Vec::new();
    let mut i: usize = 0;
    proof {
        assert(bar_views(bars@) =~= Seq::<BarView>::empty());
    }
    while i < dash.spend_by_category.len()
        invariant
            i <= dash.spend_by_category.len(),
            all == dash@.spend_by_category,
            bar_views(bars@) == spend_bars(all.take(i as int)),
        decreases dash.spend_by_category.len() - i,
    {
        let ghost done = bar_views(bars@);
        let category = &dash.spend_by_category[i].0;
        let minor = dash.spend_by_category[i].1;
        proof {
            assert(all.take(i as int + 1).drop_last() =~= all.take(i as int));
            assert(all.take(i as int + 1).last() == (category@, minor));
        }
        if minor > 0 {
            let bar = bar_of(category.name.as_str(), minor, category.color.as_str());
            bars.push(bar);
            proof {
                assert(bar_views(bars@) =~= done.push(bar@));
            }
        }
        i += 1;
    }
    proof {
        assert(all.take(all.len() as int) =~= all);
    }
    if dash.unlabeled_debit_minor > 0 {
        let ghost done = bar_views(bars@);
        let bar = bar_of("Etiketsiz", dash.unlabeled_debit_minor, "#64748b");
        bars.push(bar);
        proof {
            assert(bar_views(bars@) =~= done.push(bar@));
        }
    }
    bars
}

/// The bar of a month: what was spent, with what was paid in its tip.
pub open spec fn month_bar(month: (Seq<char>, i64, i64)) -> BarView {
    BarView {
        label: month.0,
        minor: month.1,
        text: money(month.1 as int),
        title: month.0 + " · harcama "@ + money(month.1 as int) + " · ödeme "@ + money(
            month.2 as int,
        ),
        color: "#5eead4"@,
    }
}

/// The bars of the months on a dashboard.
pub fn month_bars(dash: &Dashboard) -> (r: Vec<Bar>)
    ensures
        r@.len() == dash@.monthly.len(),
        forall|i: int| 0 <= i < r@.len() ==> (#[trigger] r@[i])@ == month_bar(dash@.monthly[i]),
{
    let mut bars: Vec<Bar> = Vec::new();
    let mut i: usize = 0;
    while i < dash.monthly.len()
        invariant
            i <= dash.monthly.len(),
            bars@.len() == i,
            forall|j: int|
                0 <= j < bars@.len() ==> (#[trigger] bars@[j])@ == month_bar(dash@.monthly[j]),
        decreases dash.monthly.len() - i,
    {
        let month = &dash.monthly[i];
        let text = tr_money(month.1);
        let mut title = copy(month.0.as_str());
        title.append(" · harcama ");
        title.append(text.as_str());
        title.append(" · ödeme ");
        title.append(tr_money(month.2).as_str());
        bars.push(
            Bar {
                label: copy(month.0.as_str()),
                minor: month.1,
                text,
                title,
                color: copy("#5eead4"),
            },
        );
        i += 1;
    }
    bars
}

/// The bars of the payees on a dashboard.
pub fn payee_bars(dash: &Dashboard) -> (r: Vec<Bar>)
    ensures
        r@.len() == dash@.top_payees.len(),
        forall|i: int|
            0 <= i < r@.len() ==> (#[trigger] r@[i])@ == amount_bar(
                dash@.top_payees[i].0,
                dash@.top_payees[i].1,
                "#38bdf8"@,
            ),
{
    let mut bars: Vec<Bar> = Vec::new();
    let mut i: usize = 0;
    while i < dash.top_payees.len()
        invariant
            i <= dash.top_payees.len(),
            bars@.len() == i,
            forall|j: int|
                0 <= j < bars@.len() ==> (#[trigger] bars@[j])@ == amount_bar(
                    dash@.top_payees[j].0,
                    dash@.top_payees[j].1,
                    "#38bdf8"@,
                ),
        decreases dash.top_payees.len() - i,
    {
        let payee = &dash.top_payees[i];
        bars.push(bar_of(payee.0.as_str(), payee.1, "#38bdf8"));
        i += 1;
    }
    bars
}

/// One choice of a list: its value, its text, and whether it is chosen.
#[derive(Debug)]
pub struct Choice {
    pub value: String,
    pub text: String,
    pub selected: bool,
}

#[verifier::ext_equal]
pub ghost struct ChoiceView {
    pub value: Seq<char>,
    pub text: Seq<char>,
    pub selected: bool,
}

impl View for Choice {
    type V = ChoiceView;

    open spec fn view(&self) -> ChoiceView {
        ChoiceView { value: self.value@, text: self.text@, selected: self.selected }
    }
}

pub open spec fn choice_views(choices: Seq<Choice>) -> Seq<ChoiceView> {
    Seq::new(choices.len(), |i: int| choices[i]@)
}

/// The choice of a period: the statement's closing date and debt.
pub open spec fn period_choice(s: StatementRowView, picked: Option<Seq<char>>) -> ChoiceView {
    ChoiceView {
        value: s.id,
        text: "Dönem "@ + s.period_end + " · borç "@ + money(s.period_debt_minor as int),
        selected: picked == Some(s.id),
    }
}

/// The choices of the dashboard: all periods, then each statement.
pub open spec fn period_choices(
    statements: Seq<StatementRowView>,
    picked: Option<Seq<char>>,
) -> Seq<ChoiceView> {
    Seq::new(
        statements.len() + 1,
        |i: int|
            if i == 0 {
                ChoiceView {
                    value: Seq::empty(),
                    text: "Tüm dönemler (tüm geçmiş)"@,
                    selected: picked is None,
                }
            } else {
                period_choice(statements[i - 1], picked)
            },
    )
}

fn is_picked(picked: &Option<String>, id: &str) -> (r: bool)
    ensures
        r == (opt_text(*picked) == Some(id@)),
{
    match picked {
        Some(wanted) => same_str(wanted.as_str(), id),
        None => false,
    }
}

/// The choices of the dashboard.
pub fn period_options(statements: &[StatementRow], picked: &Option<String>) -> (r: Vec<Choice>)
    ensures
        choice_views(r@) == period_choices(statement_views(statements@), opt_text(*picked)),
{
    let ghost all = period_choices(statement_views(statements@), opt_text(*picked));
    let mut options: Vec<Choice> = Vec::new();
    options.push(
        Choice {
            value: String::new(),
            text: copy("Tüm dönemler (tüm geçmiş)"),
            selected: picked.is_none(),
        },
    );
    proof {
        assert(options@[0]@ =~= all[0]);
        assert(choice_views(options@) =~= all.take(1));
    }
    let mut i: usize = 0;
    while i < statements.len()
        invariant
            i <= statements.len(),
            all == period_choices(statement_views(statements@), opt_text(*picked)),
            choice_views(options@) == all.take(i as int + 1),
        decreases statements.len() - i,
    {
        let s = &statements[i];
        let ghost done = choice_views(options@);
        let mut text = copy("Dönem ");
        text.append(s.period_end.as_str());
        text.append(" · borç ");
        text.append(tr_money(s.period_debt_minor).as_str());
        let choice = Choice {
            value: copy(s.id.as_str()),
            text,
            selected: is_picked(picked, s.id.as_str()),
        };
        options.push(choice);
        proof {
            assert(choice@ == period_choice(s@, opt_text(*picked)));
            assert(statement_views(statements@)[i as int] == s@);
            assert(choice_views(options@) =~= done.push(choice@));
            assert(choice_views(options@) =~= all.take(i as int + 2));
        }
        i += 1;
    }
    proof {
        assert(all.take(all.len() as int) =~= all);
    }
    options
}

/// A value that filters: none where it is empty.
pub open spec fn unless_empty(value: Option<Seq<char>>) -> Option<Seq<char>> {
    match value {
        Some(s) => if s.len() == 0 {
            None
        } else {
            Some(s)
        },
        None => None,
    }
}

/// The filter that a query gives: statement, category, search text and whether
/// only what has no label is wanted. What is empty filters nothing.
pub open spec fn filter_in(query: Seq<char>) -> TxnFilterView {
    TxnFilterView {
        statement_id: unless_empty(value_in(query, "d"@)),
        category_id: unless_empty(value_in(query, "k"@)),
        unlabeled_only: value_in(query, "u"@) is Some,
        q: match value_in(query, "q"@) {
            Some(q) => unless_empty(Some(trim(q))),
            None => None,
        },
    }
}

fn given(value: Option<String>) -> (r: Option<String>)
    ensures
        opt_text(r) == unless_empty(opt_text(value)),
{
    match value {
        Some(s) => if s.as_str().is_empty() {
            None
        } else {
            Some(s)
        },
        None => None,
    }
}

/// Reads the filter that a query gives.
pub fn txn_filter(query: &str) -> (r: TxnFilter)
    ensures
        r@ == filter_in(query@),
{
    let q = match query_value(query, "q") {
        Some(q) => {
            let chars = chars_of(q.as_str());
            Some(string_of(trimmed(&chars)))
        },
        None => None,
    };
    TxnFilter {
        statement_id: given(query_value(query, "d")),
        category_id: given(query_value(query, "k")),
        unlabeled_only: query_value(query, "u").is_some(),
        q: given(q),
    }
}

/// The choices of statements on the list of transactions.
pub fn statement_options(statements: &[StatementRow], picked: &Option<String>) -> (r: Vec<Choice>)
    ensures
        r@.len() == statements@.len(),
        forall|i: int|
            0 <= i < r@.len() ==> (#[trigger] r@[i])@ == (ChoiceView {
                value: statements@[i]@.id,
                text: "Dönem "@ + statements@[i]@.period_end,
                selected: opt_text(*picked) == Some(statements@[i]@.id),
            }),
{
    let mut options: Vec<Choice> = Vec::new();
    let mut i: usize = 0;
    while i < statements.len()
        invariant
            i <= statements.len(),
            options@.len() == i,
            forall|j: int|
                0 <= j < options@.len() ==> (#[trigger] options@[j])@ == (ChoiceView {
                    value: statements@[j]@.id,
                    text: "Dönem "@ + statements@[j]@.period_end,
                    selected: opt_text(*picked) == Some(statements@[j]@.id),
                }),
        decreases statements.len() - i,
    {
        let s = &statements[i];
        let mut text = copy("Dönem ");
        text.append(s.period_end.as_str());
        options.push(
            Choice {
                value: copy(s.id.as_str()),
                text,
                selected: is_picked(picked, s.id.as_str()),
            },
        );
        i += 1;
    }
    options
}

/// The choices of categories on the list of transactions.
pub fn category_options(categories: &[Category], picked: &Option<String>) -> (r: Vec<Choice>)
    ensures
        r@.len() == categories@.len(),
        forall|i: int|
            0 <= i < r@.len() ==> (#[trigger] r@[i])@ == (ChoiceView {
                value: categories@[i]@.id,
                text: categories@[i]@.name,
                selected: opt_text(*picked) == Some(categories@[i]@.id),
            }),
{
    let mut options: Vec<Choice> = Vec::new();
    let mut i: usize = 0;
    while i < categories.len()
        invariant
            i <= categories.len(),
            options@.len() == i,
            forall|j: int|
                0 <= j < options@.len() ==> (#[trigger] options@[j])@ == (ChoiceView {
                    value: categories@[j]@.id,
                    text: categories@[j]@.name,
                    selected: opt_text(*picked) == Some(categories@[j]@.id),
                }),
        decreases categories.len() - i,
    {
        let c = &categories[i];
        options.push(
            Choice {
                value: copy(c.id.as_str()),
                text: copy(c.name.as_str()),
                selected: is_picked(picked, c.id.as_str()),
            },
        );
        i += 1;
    }
    options
}

/// Writes the line on what was spent and given back in a group.
pub fn group_amounts(group: &MerchantGroup) -> (r: String)
    ensures
        r@ == "harcama "@ + money(group@.debit_minor as int) + " · iade "@ + money(
            group@.credit_minor as int,
        ),
{
    let mut line = copy("harcama ");
    line.append(tr_money(group.debit_minor).as_str());
    line.append(" · iade ");
    line.append(tr_money(group.credit_minor).as_str());
    line
}

} // verus!
