//! Opening the store: its schema, and the keys of its merchants.

use crate::parse::merchant::{merchant_norm, norm};
use crate::store::action::{Action, ActionView};
use crate::store::rows::{check_row, list_of, list_outcome, list_views, read_rows, row_error,
    take_text, text_of, Column, FromRow};
use crate::store::schema::{diff_report, difference, fingerprint, fingerprint_of};
use crate::store::step::{step_view, Stamp, StampView, Step, StepView};
use crate::store::value::{int_at, int_of, outcome, row_views, value_views, Reply, ReplyView,
    SqlValue, SqlView, StoreError, StoreErrorView};
use crate::text::{copy, same_str, views};
use vstd::prelude::*;

verus! {

/// The settings that a connection starts with.
pub fn pragmas() -> (r: Vec<Action>)
    ensures
        r@.len() == 2,
        r@[0]@ == ActionView::ForeignKeysOn,
        r@[1]@ == ActionView::BusyTimeout,
{
    vec![Action::ForeignKeysOn, Action::BusyTimeout]
}

/// The check of the schema, on its way: which reply it waits for.
#[derive(Debug)]
pub enum Migrate {
    Count,
    Begin,
    Install,
    Commit,
    Undo { error: StoreError },
    Have,
    Want { have: String },
}

pub ghost enum MigrateView {
    Count,
    Begin,
    Install,
    Commit,
    Undo { error: StoreErrorView },
    Have,
    Want { have: Seq<char> },
}

impl View for Migrate {
    type V = MigrateView;

    open spec fn view(&self) -> MigrateView {
        match *self {
            Migrate::Count => MigrateView::Count,
            Migrate::Begin => MigrateView::Begin,
            Migrate::Install => MigrateView::Install,
            Migrate::Commit => MigrateView::Commit,
            Migrate::Undo { error } => MigrateView::Undo {
                error: error@,
            },
            Migrate::Have => MigrateView::Have,
            Migrate::Want { have } => MigrateView::Want {
                have: have@,
            },
        }
    }
}

/// The check of the schema starts by counting the tables.
pub open spec fn migrate_start() -> StepView<MigrateView, ()> {
    StepView::Run(ActionView::CountTables, MigrateView::Count)
}

/// How the check goes on. A database without tables gets the declared schema,
/// in one transaction. Another has to carry it already: its fingerprint is the
/// declared one, or it is refused with the difference.
pub open spec fn migrate_next(s: MigrateView, reply: ReplyView) -> StepView<MigrateView, ()> {
    match reply {
        ReplyView::Failed(what) => match s {
            MigrateView::Install => StepView::Run(
                ActionView::Rollback,
                MigrateView::Undo { error: StoreErrorView::Backend(what) },
            ),
            MigrateView::Undo { error } => StepView::Finish(Err(error)),
            _ => StepView::Finish(Err(StoreErrorView::Backend(what))),
        },
        ReplyView::Done { rows, changed } => match s {
            MigrateView::Count => {
                let tables = if rows.len() == 0 {
                    Ok(0i64)
                } else {
                    int_at(rows[0], 0)
                };
                match tables {
                    Err(e) => StepView::Finish(Err(e)),
                    Ok(n) => if n == 0 {
                        StepView::Run(ActionView::Begin, MigrateView::Begin)
                    } else {
                        StepView::Run(ActionView::ReadSchema, MigrateView::Have)
                    },
                }
            },
            MigrateView::Begin => StepView::Run(ActionView::InstallSchema, MigrateView::Install),
            MigrateView::Install => StepView::Run(ActionView::Commit, MigrateView::Commit),
            MigrateView::Commit => StepView::Finish(Ok(())),
            MigrateView::Undo { error } => StepView::Finish(Err(error)),
            MigrateView::Have => match fingerprint_of(rows) {
                Err(e) => StepView::Finish(Err(e)),
                Ok(have) => StepView::Run(
                    ActionView::ReadDeclaredSchema,
                    MigrateView::Want { have },
                ),
            },
            MigrateView::Want { have } => match fingerprint_of(rows) {
                Err(e) => StepView::Finish(Err(e)),
                Ok(want) => if have == want {
                    StepView::Finish(Ok(()))
                } else {
                    StepView::Finish(Err(StoreErrorView::SchemaDiff(difference(have, want))))
                },
            },
        },
    }
}

/// Starts the check of the schema.
pub fn migrate() -> (r: Step<Migrate, ()>)
    ensures
        step_view(r) == migrate_start(),
{
    Step::Run(Action::CountTables, Migrate::Count)
}

impl Migrate {
    /// Goes on with a reply.
    pub fn resume(self, reply: Reply) -> (r: Step<Migrate, ()>)
        ensures
            step_view(r) == migrate_next(self@, reply@),
    {
        let rows = match reply {
            Reply::Failed(what) => {
                return match self {
                    Migrate::Install => Step::Run(
                        Action::Rollback,
                        Migrate::Undo { error: StoreError::Backend(what) },
                    ),
                    Migrate::Undo { error } => Step::Finish(Err(error)),
                    _ => Step::Finish(Err(StoreError::Backend(what))),
                };
            },
            Reply::Done { rows, changed } => rows,
        };
        match self {
            Migrate::Count => {
                let tables: i64 = if rows.len() == 0 {
                    0
                } else {
                    match int_of(&rows[0], 0) {
                        Ok(n) => n,
                        Err(e) => {
                            return Step::Finish(Err(e));
                        },
                    }
                };
                if tables == 0 {
                    Step::Run(Action::Begin, Migrate::Begin)
                } else {
                    Step::Run(Action::ReadSchema, Migrate::Have)
                }
            },
            Migrate::Begin => Step::Run(Action::InstallSchema, Migrate::Install),
            Migrate::Install => Step::Run(Action::Commit, Migrate::Commit),
            Migrate::Commit => Step::Finish(Ok(())),
            Migrate::Undo { error } => Step::Finish(Err(error)),
            Migrate::Have => match fingerprint(&rows) {
                Err(e) => Step::Finish(Err(e)),
                Ok(have) => Step::Run(Action::ReadDeclaredSchema, Migrate::Want { have }),
            },
            Migrate::Want { have } => match fingerprint(&rows) {
                Err(e) => Step::Finish(Err(e)),
                Ok(want) => if same_str(have.as_str(), want.as_str()) {
                    Step::Finish(Ok(()))
                } else {
                    Step::Finish(
                        Err(StoreError::SchemaDiff(diff_report(have.as_str(), want.as_str()))),
                    )
                },
            },
        }
    }
}

/// The column of a row that holds a text.
pub open spec fn text_columns() -> Seq<Column> {
    seq![
        Column::Text,
    ]
}

/// The text that a row holds.
pub open spec fn text_in_row(row: Seq<SqlView>) -> Result<Seq<char>, StoreErrorView> {
    match row_error(row, text_columns(), 0) {
        Some(e) => Err(e),
        None => Ok(text_of(row[0])),
    }
}

fn text_row(row: &[SqlValue]) -> (r: Result<String, StoreError>)
    ensures
        outcome(r) == text_in_row(value_views(row@)),
{
    let columns = vec![
        Column::Text,
    ];
    proof {
        assert(columns@ =~= text_columns());
        assert(value_views(row@).len() == row@.len());
    }
    if let Some(e) = check_row(row, &columns) {
        return Err(e);
    }
    Ok(take_text(&row[0]))
}

impl FromRow for String {
    open spec fn of_row(row: Seq<SqlView>) -> Result<Seq<char>, StoreErrorView> {
        text_in_row(row)
    }

    fn from_row(row: &[SqlValue]) -> (r: Result<String, StoreError>) {
        text_row(row)
    }
}

/// The texts that rows hold, in order.
pub open spec fn texts_of(rows: Seq<Seq<SqlView>>) -> Result<Seq<Seq<char>>, StoreErrorView> {
    list_of::<String>(rows)
}

/// Reads rows until one cannot be read.
fn text_rows(rows: &[Vec<SqlValue>]) -> (r: Result<Vec<String>, StoreError>)
    ensures
        match r {
            Ok(list) => texts_of(row_views(rows@)) == Ok::<Seq<Seq<char>>, StoreErrorView>(
                views(list@),
            ),
            Err(e) => texts_of(row_views(rows@)) == Err::<Seq<Seq<char>>, StoreErrorView>(e@),
        },
{
    let r = read_rows::<String>(rows);
    proof {
        if r is Ok {
            assert(views(r->Ok_0@) =~= list_views(r->Ok_0@));
        }
    }
    r
}

/// The columns of a row that holds two texts.
pub open spec fn pair_columns() -> Seq<Column> {
    seq![
        Column::Text,
        Column::Text,
    ]
}

/// The texts that a row holds.
pub open spec fn pair_in_row(row: Seq<SqlView>) -> Result<(Seq<char>, Seq<char>), StoreErrorView> {
    match row_error(row, pair_columns(), 0) {
        Some(e) => Err(e),
        None => Ok((text_of(row[0]), text_of(row[1]))),
    }
}

fn pair_row(row: &[SqlValue]) -> (r: Result<(String, String), StoreError>)
    ensures
        outcome(r) == pair_in_row(value_views(row@)),
{
    let columns = vec![
        Column::Text,
        Column::Text,
    ];
    proof {
        assert(columns@ =~= pair_columns());
        assert(value_views(row@).len() == row@.len());
    }
    if let Some(e) = check_row(row, &columns) {
        return Err(e);
    }
    Ok((take_text(&row[0]), take_text(&row[1])))
}

impl FromRow for (String, String) {
    open spec fn of_row(row: Seq<SqlView>) -> Result<(Seq<char>, Seq<char>), StoreErrorView> {
        pair_in_row(row)
    }

    fn from_row(row: &[SqlValue]) -> (r: Result<(String, String), StoreError>) {
        pair_row(row)
    }
}

/// The pairs of texts that rows hold, in order.
pub open spec fn pairs_of(rows: Seq<Seq<SqlView>>) -> Result<
    Seq<(Seq<char>, Seq<char>)>,
    StoreErrorView,
> {
    list_of::<(String, String)>(rows)
}

pub open spec fn pair_views(list: Seq<(String, String)>) -> Seq<(Seq<char>, Seq<char>)> {
    list_views(list)
}

/// Reads rows until one cannot be read.
fn pair_rows(rows: &[Vec<SqlValue>]) -> (r: Result<Vec<(String, String)>, StoreError>)
    ensures
        list_outcome(r) == pairs_of(row_views(rows@)),
{
    read_rows(rows)
}

/// The renewal of the merchants' keys, on its way: which reply it waits for.
#[derive(Debug)]
pub enum Rekey {
    Raws,
    Norm { raws: Vec<String>, raw: usize },
    Shared,
    Unify { pairs: Vec<(String, String)>, pair: usize },
    Clear,
    Rebuild,
    Names,
    Others { dups: Vec<(String, String)>, dup: usize },
    MoveTxns { dups: Vec<(String, String)>, dup: usize, extras: Vec<String>, extra: usize },
    DropAliases { dups: Vec<(String, String)>, dup: usize, extras: Vec<String>, extra: usize },
    DropPayee { dups: Vec<(String, String)>, dup: usize, extras: Vec<String>, extra: usize },
    Adopt { dups: Vec<(String, String)>, dup: usize, extras: Vec<String>, extra: usize },
    DropUnused,
}

pub ghost enum RekeyView {
    Raws,
    Norm { raws: Seq<Seq<char>>, raw: nat },
    Shared,
    Unify { pairs: Seq<(Seq<char>, Seq<char>)>, pair: nat },
    Clear,
    Rebuild,
    Names,
    Others { dups: Seq<(Seq<char>, Seq<char>)>, dup: nat },
    MoveTxns { dups: Seq<(Seq<char>, Seq<char>)>, dup: nat, extras: Seq<Seq<char>>, extra: nat },
    DropAliases { dups: Seq<(Seq<char>, Seq<char>)>, dup: nat, extras: Seq<Seq<char>>, extra: nat },
    DropPayee { dups: Seq<(Seq<char>, Seq<char>)>, dup: nat, extras: Seq<Seq<char>>, extra: nat },
    Adopt { dups: Seq<(Seq<char>, Seq<char>)>, dup: nat, extras: Seq<Seq<char>>, extra: nat },
    DropUnused,
}

impl View for Rekey {
    type V = RekeyView;

    open spec fn view(&self) -> RekeyView {
        match *self {
            Rekey::Raws => RekeyView::Raws,
            Rekey::Norm { raws, raw } => RekeyView::Norm {
                raws: views(raws@),
                raw: raw as nat,
            },
            Rekey::Shared => RekeyView::Shared,
            Rekey::Unify { pairs, pair } => RekeyView::Unify {
                pairs: pair_views(pairs@),
                pair: pair as nat,
            },
            Rekey::Clear => RekeyView::Clear,
            Rekey::Rebuild => RekeyView::Rebuild,
            Rekey::Names => RekeyView::Names,
            Rekey::Others { dups, dup } => RekeyView::Others {
                dups: pair_views(dups@),
                dup: dup as nat,
            },
            Rekey::MoveTxns { dups, dup, extras, extra } => RekeyView::MoveTxns {
                dups: pair_views(dups@),
                dup: dup as nat,
                extras: views(extras@),
                extra: extra as nat,
            },
            Rekey::DropAliases { dups, dup, extras, extra } => RekeyView::DropAliases {
                dups: pair_views(dups@),
                dup: dup as nat,
                extras: views(extras@),
                extra: extra as nat,
            },
            Rekey::DropPayee { dups, dup, extras, extra } => RekeyView::DropPayee {
                dups: pair_views(dups@),
                dup: dup as nat,
                extras: views(extras@),
                extra: extra as nat,
            },
            Rekey::Adopt { dups, dup, extras, extra } => RekeyView::Adopt {
                dups: pair_views(dups@),
                dup: dup as nat,
                extras: views(extras@),
                extra: extra as nat,
            },
            Rekey::DropUnused => RekeyView::DropUnused,
        }
    }
}

pub type RekeyStep = StepView<RekeyView, ()>;

/// The renewal starts by asking for the merchants' names.
pub open spec fn rekey_start() -> RekeyStep {
    StepView::Run(ActionView::RawMerchants, RekeyView::Raws)
}

/// The renewal goes on to a merchant's key; past the last, to the keys that
/// payees share.
pub open spec fn rekey_norm(raws: Seq<Seq<char>>, raw: nat) -> RekeyStep {
    if raw < raws.len() {
        StepView::Run(
            ActionView::SetNorm { norm: norm(raws[raw as int]), raw: raws[raw as int] },
            RekeyView::Norm { raws, raw },
        )
    } else {
        StepView::Run(ActionView::SharedNorms, RekeyView::Shared)
    }
}

/// The renewal goes on to a key that payees share, whose transactions all go
/// to one of them; past the last, to the aliases.
pub open spec fn rekey_unify(pairs: Seq<(Seq<char>, Seq<char>)>, pair: nat) -> RekeyStep {
    if pair < pairs.len() {
        StepView::Run(
            ActionView::UnifyNorm { keeper: pairs[pair as int].1, norm: pairs[pair as int].0 },
            RekeyView::Unify { pairs, pair },
        )
    } else {
        StepView::Run(ActionView::ClearAliases, RekeyView::Clear)
    }
}

/// The renewal goes on to a name that payees share; past the last, to the
/// payees without transactions.
pub open spec fn rekey_dup(dups: Seq<(Seq<char>, Seq<char>)>, dup: nat) -> RekeyStep {
    if dup < dups.len() {
        StepView::Run(
            ActionView::OthersNamed { name: dups[dup as int].0, id: dups[dup as int].1 },
            RekeyView::Others { dups, dup },
        )
    } else {
        StepView::Run(ActionView::DropUnusedPayees, RekeyView::DropUnused)
    }
}

/// The renewal goes on to a payee that shares its name with the one kept, and
/// that this one takes over; past the last, to the next name.
pub open spec fn rekey_extra(
    dups: Seq<(Seq<char>, Seq<char>)>,
    dup: nat,
    extras: Seq<Seq<char>>,
    extra: nat,
) -> RekeyStep {
    if extra < extras.len() {
        StepView::Run(
            ActionView::MoveTxns { keeper: dups[dup as int].1, extra: extras[extra as int] },
            RekeyView::MoveTxns { dups, dup, extras, extra },
        )
    } else {
        rekey_dup(dups, dup + 1)
    }
}

/// How the renewal goes on.
pub open spec fn rekey_next(s: RekeyView, reply: ReplyView, stamp: StampView) -> RekeyStep {
    match reply {
        ReplyView::Failed(what) => StepView::Finish(Err(StoreErrorView::Backend(what))),
        ReplyView::Done { rows, changed } => match s {
            RekeyView::Raws => match texts_of(rows) {
                Err(e) => StepView::Finish(Err(e)),
                Ok(raws) => rekey_norm(raws, 0),
            },
            RekeyView::Norm { raws, raw } => rekey_norm(raws, raw + 1),
            RekeyView::Shared => match pairs_of(rows) {
                Err(e) => StepView::Finish(Err(e)),
                Ok(pairs) => rekey_unify(pairs, 0),
            },
            RekeyView::Unify { pairs, pair } => rekey_unify(pairs, pair + 1),
            RekeyView::Clear => StepView::Run(
                ActionView::RebuildAliases { now: stamp.now },
                RekeyView::Rebuild,
            ),
            RekeyView::Rebuild => StepView::Run(ActionView::SharedNames, RekeyView::Names),
            RekeyView::Names => match pairs_of(rows) {
                Err(e) => StepView::Finish(Err(e)),
                Ok(dups) => rekey_dup(dups, 0),
            },
            RekeyView::Others { dups, dup } => match texts_of(rows) {
                Err(e) => StepView::Finish(Err(e)),
                Ok(extras) => rekey_extra(dups, dup, extras, 0),
            },
            RekeyView::MoveTxns { dups, dup, extras, extra } => StepView::Run(
                ActionView::DropAliasesOf { payee_id: extras[extra as int] },
                RekeyView::DropAliases { dups, dup, extras, extra },
            ),
            RekeyView::DropAliases { dups, dup, extras, extra } => StepView::Run(
                ActionView::DropPayee { payee_id: extras[extra as int] },
                RekeyView::DropPayee { dups, dup, extras, extra },
            ),
            RekeyView::DropPayee { dups, dup, extras, extra } => StepView::Run(
                ActionView::AdoptAliases { keeper: dups[dup as int].1, now: stamp.now },
                RekeyView::Adopt { dups, dup, extras, extra },
            ),
            RekeyView::Adopt { dups, dup, extras, extra } => rekey_extra(
                dups,
                dup,
                extras,
                extra + 1,
            ),
            RekeyView::DropUnused => StepView::Finish(Ok(())),
        },
    }
}

/// The places that the renewal is at stand within its lists.
pub open spec fn rekey_valid(s: RekeyView) -> bool {
    match s {
        RekeyView::Norm { raws, raw } => raw < raws.len(),
        RekeyView::Unify { pairs, pair } => pair < pairs.len(),
        RekeyView::Others { dups, dup } => dup < dups.len(),
        RekeyView::MoveTxns { dups, dup, extras, extra } => dup < dups.len() && extra
            < extras.len(),
        RekeyView::DropAliases { dups, dup, extras, extra } => dup < dups.len() && extra
            < extras.len(),
        RekeyView::DropPayee { dups, dup, extras, extra } => dup < dups.len() && extra
            < extras.len(),
        RekeyView::Adopt { dups, dup, extras, extra } => dup < dups.len() && extra < extras.len(),
        _ => true,
    }
}

fn go_norm(raws: Vec<String>, raw: usize) -> (r: Step<Rekey, ()>)
    ensures
        step_view(r) == rekey_norm(views(raws@), raw as nat),
        r matches Step::Run(_, s) ==> rekey_valid(s@),
{
    if raw < raws.len() {
        let action = Action::SetNorm {
            norm: merchant_norm(raws[raw].as_str()),
            raw: copy(raws[raw].as_str()),
        };
        Step::Run(action, Rekey::Norm { raws, raw })
    } else {
        Step::Run(Action::SharedNorms, Rekey::Shared)
    }
}

fn go_unify(pairs: Vec<(String, String)>, pair: usize) -> (r: Step<Rekey, ()>)
    ensures
        step_view(r) == rekey_unify(pair_views(pairs@), pair as nat),
        r matches Step::Run(_, s) ==> rekey_valid(s@),
{
    if pair < pairs.len() {
        let action = Action::UnifyNorm {
            keeper: copy(pairs[pair].1.as_str()),
            norm: copy(pairs[pair].0.as_str()),
        };
        Step::Run(action, Rekey::Unify { pairs, pair })
    } else {
        Step::Run(Action::ClearAliases, Rekey::Clear)
    }
}

fn go_dup(dups: Vec<(String, String)>, dup: usize) -> (r: Step<Rekey, ()>)
    ensures
        step_view(r) == rekey_dup(pair_views(dups@), dup as nat),
        r matches Step::Run(_, s) ==> rekey_valid(s@),
{
    if dup < dups.len() {
        let action = Action::OthersNamed {
            name: copy(dups[dup].0.as_str()),
            id: copy(dups[dup].1.as_str()),
        };
        Step::Run(action, Rekey::Others { dups, dup })
    } else {
        Step::Run(Action::DropUnusedPayees, Rekey::DropUnused)
    }
}

fn go_extra(dups: Vec<(String, String)>, dup: usize, extras: Vec<String>, extra: usize) -> (r: Step<
    Rekey,
    (),
>)
    requires
        dup < dups@.len(),
    ensures
        step_view(r) == rekey_extra(
            pair_views(dups@),
            dup as nat,
            views(extras@),
            extra as nat,
        ),
        r matches Step::Run(_, s) ==> rekey_valid(s@),
{
    if extra < extras.len() {
        let action = Action::MoveTxns {
            keeper: copy(dups[dup].1.as_str()),
            extra: copy(extras[extra].as_str()),
        };
        Step::Run(action, Rekey::MoveTxns { dups, dup, extras, extra })
    } else {
        proof {
            assert(dup < dups.len());
        }
        go_dup(dups, dup + 1)
    }
}

/// Starts the renewal of the merchants' keys: each transaction's key is made
/// anew from its merchant's name, and payees that now share a key or a name
/// become one.
pub fn rekey_merchants() -> (r: Step<Rekey, ()>)
    ensures
        step_view(r) == rekey_start(),
        r matches Step::Run(_, s) ==> rekey_valid(s@),
{
    Step::Run(Action::RawMerchants, Rekey::Raws)
}

impl Rekey {
    /// Goes on with a reply.
    pub fn resume(self, reply: Reply, stamp: Stamp) -> (r: Step<Rekey, ()>)
        requires
            rekey_valid(self@),
        ensures
            step_view(r) == rekey_next(self@, reply@, stamp@),
            r matches Step::Run(_, s) ==> rekey_valid(s@),
    {
        let rows = match reply {
            Reply::Failed(what) => {
                return Step::Finish(Err(StoreError::Backend(what)));
            },
            Reply::Done { rows, changed } => rows,
        };
        match self {
            Rekey::Raws => match text_rows(&rows) {
                Err(e) => Step::Finish(Err(e)),
                Ok(raws) => go_norm(raws, 0),
            },
            Rekey::Norm { raws, raw } => {
                proof {
                    assert(raw < raws.len());
                }
                go_norm(raws, raw + 1)
            },
            Rekey::Shared => match pair_rows(&rows) {
                Err(e) => Step::Finish(Err(e)),
                Ok(pairs) => go_unify(pairs, 0),
            },
            Rekey::Unify { pairs, pair } => {
                proof {
                    assert(pair < pairs.len());
                }
                go_unify(pairs, pair + 1)
            },
            Rekey::Clear => Step::Run(Action::RebuildAliases { now: stamp.now }, Rekey::Rebuild),
            Rekey::Rebuild => Step::Run(Action::SharedNames, Rekey::Names),
            Rekey::Names => match pair_rows(&rows) {
                Err(e) => Step::Finish(Err(e)),
                Ok(dups) => go_dup(dups, 0),
            },
            Rekey::Others { dups, dup } => match text_rows(&rows) {
                Err(e) => Step::Finish(Err(e)),
                Ok(extras) => go_extra(dups, dup, extras, 0),
            },
            Rekey::MoveTxns { dups, dup, extras, extra } => {
                let payee_id = copy(extras[extra].as_str());
                Step::Run(
                    Action::DropAliasesOf { payee_id },
                    Rekey::DropAliases { dups, dup, extras, extra },
                )
            },
            Rekey::DropAliases { dups, dup, extras, extra } => {
                let payee_id = copy(extras[extra].as_str());
                Step::Run(
                    Action::DropPayee { payee_id },
                    Rekey::DropPayee { dups, dup, extras, extra },
                )
            },
            Rekey::DropPayee { dups, dup, extras, extra } => {
                let keeper = copy(dups[dup].1.as_str());
                Step::Run(
                    Action::AdoptAliases { keeper, now: stamp.now },
                    Rekey::Adopt { dups, dup, extras, extra },
                )
            },
            Rekey::Adopt { dups, dup, extras, extra } => {
                proof {
                    assert(extra < extras.len());
                }
                go_extra(dups, dup, extras, extra + 1)
            },
            Rekey::DropUnused => Step::Finish(Ok(())),
        }
    }
}

} // verus!
