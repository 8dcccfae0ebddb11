//! Operations as steps: each runs a statement and goes on with the reply.
//!
//! An operation of the store is a value that names the next statement to run.
//! Whoever holds the connection runs it and hands the reply back to `resume`,
//! with a fresh [`Stamp`] for what the step may write.

use crate::store::action::{Action, ActionView};
use crate::store::value::{StoreError, StoreErrorView};
use vstd::prelude::*;
use vstd::string::StringExecFns;

verus! {

/// What an operation does next.
#[derive(Debug)]
pub enum Step<S, R> {
    /// It runs a statement and goes on from a state.
    Run(Action, S),
    /// It is over.
    Finish(Result<R, StoreError>),
}

pub ghost enum StepView<S, R> {
    Run(ActionView, S),
    Finish(Result<R, StoreErrorView>),
}

pub open spec fn step_view<S: View, R: View>(step: Step<S, R>) -> StepView<S::V, R::V> {
    match step {
        Step::Run(action, state) => StepView::Run(action@, state@),
        Step::Finish(Ok(r)) => StepView::Finish(Ok(r@)),
        Step::Finish(Err(e)) => StepView::Finish(Err(e@)),
    }
}

/// A new id and the time, for one step.
#[derive(Debug)]
pub struct Stamp {
    pub id: String,
    pub now: String,
}

pub ghost struct StampView {
    pub id: Seq<char>,
    pub now: Seq<char>,
}

impl View for Stamp {
    type V = StampView;

    open spec fn view(&self) -> StampView {
        StampView { id: self.id@, now: self.now@ }
    }
}

/// A digit of Crockford's base 32: no `I`, `L`, `O` or `U`.
pub open spec fn is_base32(c: char) -> bool {
    '0' <= c <= '9' || ('A' <= c <= 'Z' && c != 'I' && c != 'L' && c != 'O' && c != 'U')
}

/// The text of a ULID.
pub open spec fn is_ulid(s: Seq<char>) -> bool {
    s.len() == 26 && forall|i: int| 0 <= i < s.len() ==> is_base32(#[trigger] s[i])
}

/// A character of a time in RFC 3339 fits its place: the marks between date,
/// time and fraction, and digits.
pub open spec fn is_time_char(i: int, c: char) -> bool {
    if i == 4 || i == 7 {
        c == '-'
    } else if i == 10 {
        c == 'T'
    } else if i == 13 || i == 16 {
        c == ':'
    } else if i == 19 {
        c == '.'
    } else {
        '0' <= c <= '9'
    }
}

/// The text of a UTC time in RFC 3339: `YYYY-MM-DDThh:mm:ssZ`, with up to nine
/// digits of a fraction behind the seconds.
pub open spec fn is_utc_time(s: Seq<char>) -> bool {
    &&& s.len() == 20 || 22 <= s.len() <= 30
    &&& s.last() == 'Z'
    &&& forall|i: int| 0 <= i < s.len() - 1 ==> is_time_char(i, #[trigger] s[i])
}

/// `ulid::Ulid::generate` and its `to_string`: the text of a ULID. Which one is
/// up to the clock and to chance.
#[verifier::external_body]
fn new_id() -> (r: String)
    ensures
        is_ulid(r@),
{
    ulid::Ulid::generate().to_string()
}

/// `time::OffsetDateTime::now_utc` in the format `Rfc3339`: a UTC time. Which
/// one is up to the clock: before the year 0 it gives none, and past the year
/// 9999 it panics.
#[verifier::external_body]
fn utc_now() -> (r: Option<String>)
    ensures
        r matches Some(now) ==> is_utc_time(now@),
{
    time::OffsetDateTime::now_utc()
        .format(&time::format_description::well_known::Rfc3339)
        .ok()
}

/// The stamp of a time and an id; none without a time.
pub fn stamp_of(now: Option<String>, id: String) -> (r: Option<Stamp>)
    ensures
        match now {
            Some(now) => r matches Some(s) && s@ == (StampView { id: id@, now: now@ }),
            None => r is None,
        },
{
    match now {
        Some(now) => Some(Stamp { id, now }),
        None => None,
    }
}

/// A new id and the time. Whether there is a time is up to the clock alone:
/// there is none before the year 0.
pub fn stamp() -> (r: Option<Stamp>)
    ensures
        r matches Some(s) ==> is_ulid(s@.id) && is_utc_time(s@.now),
{
    stamp_of(utc_now(), new_id())
}

/// The error on something that is not there.
pub fn not_found(what: &str, id: &str) -> (r: StoreError)
    ensures
        r@ == StoreErrorView::NotFound(what@ + id@),
{
    let mut text = String::new();
    text.append(what);
    text.append(id);
    proof {
        assert(text@ =~= what@ + id@);
    }
    StoreError::NotFound(text)
}

} // verus!
