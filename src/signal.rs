//! Signals: the additive parts of a document's score, how their
//! coefficients are chosen, and the order in which they are computed.
use vstd::prelude::*;

use crate::bangs::{join_spaced, join_with_spaces, views};

verus! {

/// How many fetch times, in milliseconds, the fetch-time cache covers.
pub const FETCH_TIME_CACHE_LEN: usize = 1000;

/// How many hours since an update the freshness cache covers: three years.
pub const UPDATE_TIME_CACHE_LEN: usize = 3 * 365 * 24;

/// Seconds in an hour.
pub const SECONDS_PER_HOUR: u64 = 3600;

/// A text field that a textual signal scores.
#[derive(Clone, Copy, Debug, PartialEq, Eq)]
pub enum TextField {
    Title,
    Body,
    Url,
    Anchor,
}

/// Where a signal's value comes from.
#[derive(Clone, Copy, Debug, PartialEq, Eq)]
pub enum SignalKind {
    /// Text relevance of the query against one field of the document.
    Textual,
    /// A property of the document alone, known at indexing time.
    Precomputable,
    /// Depends on the query, the document and the environment.
    Dynamic,
}

/// The closed set of signals.
#[derive(Clone, Copy, Debug, PartialEq, Eq)]
pub enum Signal {
    Bm25(TextField),
    HostCentrality,
    PageRank,
    QueryCentrality,
    InboundSimilarity,
    RegionMatch,
    UpdateTimestamp,
    FetchTimeMs,
}

/// The kind of each signal.
pub open spec fn kind_of(s: Signal) -> SignalKind {
    match s {
        Signal::Bm25(_) => SignalKind::Textual,
        Signal::HostCentrality | Signal::PageRank => SignalKind::Precomputable,
        _ => SignalKind::Dynamic,
    }
}

impl Signal {
    /// Where this signal's value comes from.
    pub fn kind(&self) -> (r: SignalKind)
        ensures
            r == kind_of(*self),
    {
        match self {
            Signal::Bm25(_) => SignalKind::Textual,
            Signal::HostCentrality | Signal::PageRank => SignalKind::Precomputable,
            _ => SignalKind::Dynamic,
        }
    }

    /// The text field a textual signal scores.
    pub fn as_textfield(&self) -> (r: Option<TextField>)
        ensures
            match *self {
                Signal::Bm25(f) => r == Some(f),
                _ => r is None,
            },
    {
        match self {
            Signal::Bm25(f) => Some(*f),
            _ => None,
        }
    }

    /// Every signal, in registry order.
    pub fn all() -> (r: Vec<Signal>)
        ensures
            r@ == all_signals(),
    {
        vec![
            Signal::Bm25(TextField::Title),
            Signal::Bm25(TextField::Body),
            Signal::Bm25(TextField::Url),
            Signal::Bm25(TextField::Anchor),
            Signal::HostCentrality,
            Signal::PageRank,
            Signal::QueryCentrality,
            Signal::InboundSimilarity,
            Signal::RegionMatch,
            Signal::UpdateTimestamp,
            Signal::FetchTimeMs,
        ]
    }
}

/// Every signal, in registry order.
pub open spec fn all_signals() -> Seq<Signal> {
    seq![
        Signal::Bm25(TextField::Title),
        Signal::Bm25(TextField::Body),
        Signal::Bm25(TextField::Url),
        Signal::Bm25(TextField::Anchor),
        Signal::HostCentrality,
        Signal::PageRank,
        Signal::QueryCentrality,
        Signal::InboundSimilarity,
        Signal::RegionMatch,
        Signal::UpdateTimestamp,
        Signal::FetchTimeMs,
    ]
}

/// The coefficient of a signal: the query's own value if it gives one, else
/// the linear model's weight if there is one, else the signal's default.
pub open spec fn resolved<T>(query: Option<T>, model: Option<T>, default: T) -> T {
    match query {
        Some(q) => q,
        None => match model {
            Some(m) => m,
            None => default,
        },
    }
}

/// Chooses a coefficient: a query override wins over a linear model's
/// weight, which wins over the signal's default.
pub fn resolve_coefficient<T>(query: Option<T>, model: Option<T>, default: T) -> (r: T)
    ensures
        r == resolved(query, model, default),
        query matches Some(q) ==> r == q,
        query is None ==> (model matches Some(m) ==> r == m),
        query is None && model is None ==> r == default,
{
    match query {
        Some(q) => q,
        None => match model {
            Some(m) => m,
            None => default,
        },
    }
}

/// The slot of the fetch-time cache for a fetch that took `ms` milliseconds:
/// fetch times clamp to the last slot.
pub fn fetch_time_index(ms: u64) -> (r: usize)
    ensures
        r < FETCH_TIME_CACHE_LEN,
        ms < FETCH_TIME_CACHE_LEN ==> r == ms,
        ms >= FETCH_TIME_CACHE_LEN ==> r == FETCH_TIME_CACHE_LEN - 1,
{
    if ms < FETCH_TIME_CACHE_LEN as u64 {
        ms as usize
    } else {
        FETCH_TIME_CACHE_LEN - 1
    }
}

/// The fetch-time signal's value is `1 / r` for the `r` returned here: one
/// more than the clamped fetch time.
pub fn fetch_time_reciprocal(ms: u64) -> (r: u64)
    ensures
        ms < FETCH_TIME_CACHE_LEN ==> r == ms + 1,
        ms >= FETCH_TIME_CACHE_LEN ==> r == FETCH_TIME_CACHE_LEN,
{
    fetch_time_index(ms) as u64 + 1
}

/// Whole hours from `updated` to `now`, both in seconds; zero when the
/// update lies in the future.
pub open spec fn hours_between(now: int, updated: int) -> int {
    if now > updated {
        (now - updated) / (SECONDS_PER_HOUR as int)
    } else {
        0
    }
}

/// The slot of the freshness cache for a page updated at `updated` when the
/// time is `now`: the whole hours since the update, clamped to the last slot.
pub fn update_time_index(now: u64, updated: u64) -> (r: usize)
    ensures
        r < UPDATE_TIME_CACHE_LEN,
        hours_between(now as int, updated as int) < UPDATE_TIME_CACHE_LEN ==> r == hours_between(
            now as int,
            updated as int,
        ),
        hours_between(now as int, updated as int) >= UPDATE_TIME_CACHE_LEN ==> r
            == UPDATE_TIME_CACHE_LEN - 1,
{
    let hours: u64 = if now > updated {
        (now - updated) / SECONDS_PER_HOUR
    } else {
        0
    };
    if hours < UPDATE_TIME_CACHE_LEN as u64 {
        hours as usize
    } else {
        UPDATE_TIME_CACHE_LEN - 1
    }
}

/// The query text that textual signals tokenize: the simple terms joined by
/// single spaces.
pub fn simple_query(simple_terms: &Vec<String>) -> (r: String)
    ensures
        r@ == join_spaced(views(simple_terms@)),
{
    join_with_spaces(simple_terms)
}

/// The signals of `signals` whose flag in `zero` is unset and whose kind is
/// (when `textual`) or is not (otherwise) textual, in order.
pub open spec fn active(signals: Seq<Signal>, zero: Seq<bool>, textual: bool) -> Seq<Signal>
    decreases signals.len(),
{
    if signals.len() == 0 || zero.len() == 0 {
        Seq::empty()
    } else {
        let rest = active(signals.drop_last(), zero.drop_last(), textual);
        let s = signals.last();
        if !zero.last() && ((kind_of(s) == SignalKind::Textual) == textual) {
            rest.push(s)
        } else {
            rest
        }
    }
}

/// The signals of `signals` of kind `kind`, in order.
pub open spec fn of_kind(signals: Seq<Signal>, kind: SignalKind) -> Seq<Signal>
    decreases signals.len(),
{
    if signals.len() == 0 {
        Seq::empty()
    } else {
        let rest = of_kind(signals.drop_last(), kind);
        if kind_of(signals.last()) == kind {
            rest.push(signals.last())
        } else {
            rest
        }
    }
}

/// The signals that the precompute path sums: those that depend on the
/// document alone, in order.
pub fn precomputable(signals: &Vec<Signal>) -> (r: Vec<Signal>)
    ensures
        r@ == of_kind(signals@, SignalKind::Precomputable),
{
    let mut r: Vec<Signal> = Vec::new();
    let mut i: usize = 0;
    while i < signals.len()
        invariant
            i <= signals@.len(),
            r@ == of_kind(signals@.take(i as int), SignalKind::Precomputable),
        decreases signals@.len() - i,
    {
        assert(signals@.take(i + 1).drop_last() =~= signals@.take(i as int));
        let s = signals[i];
        match s.kind() {
            SignalKind::Precomputable => r.push(s),
            _ => {},
        }
        i = i + 1;
    }
    assert(signals@.take(i as int) =~= signals@);
    r
}

/// The order in which a document's signals are computed: the textual
/// signals together, so that each field's postings advance once per
/// document, then the others. Signals with a zero coefficient are left out.
#[derive(Clone, Debug)]
pub struct SignalComputeOrder {
    pub text_signals: Vec<Signal>,
    pub other_signals: Vec<Signal>,
}

impl SignalComputeOrder {
    /// An order with no signals.
    pub fn empty() -> (r: SignalComputeOrder)
        ensures
            r.text_signals@.len() == 0,
            r.other_signals@.len() == 0,
    {
        SignalComputeOrder { text_signals: Vec::new(), other_signals: Vec::new() }
    }

    /// The order for `signals`, where `zero[i]` tells that the coefficient
    /// of `signals[i]` resolved to zero.
    pub fn new(signals: &Vec<Signal>, zero: &Vec<bool>) -> (r: SignalComputeOrder)
        requires
            zero@.len() == signals@.len(),
        ensures
            r.text_signals@ == active(signals@, zero@, true),
            r.other_signals@ == active(signals@, zero@, false),
    {
        let mut text_signals: Vec<Signal> = Vec::new();
        let mut other_signals: Vec<Signal> = Vec::new();
        let mut i: usize = 0;
        while i < signals.len()
            invariant
                zero@.len() == signals@.len(),
                i <= signals@.len(),
                text_signals@ == active(signals@.take(i as int), zero@.take(i as int), true),
                other_signals@ == active(signals@.take(i as int), zero@.take(i as int), false),
            decreases signals@.len() - i,
        {
            assert(signals@.take(i + 1).drop_last() =~= signals@.take(i as int));
            assert(zero@.take(i + 1).drop_last() =~= zero@.take(i as int));
            let s = signals[i];
            if !zero[i] {
                match s.kind() {
                    SignalKind::Textual => text_signals.push(s),
                    _ => other_signals.push(s),
                }
            }
            i = i + 1;
        }
        assert(signals@.take(i as int) =~= signals@);
        assert(zero@.take(i as int) =~= zero@);
        SignalComputeOrder { text_signals, other_signals }
    }

    /// The signals in the order they are computed.
    pub fn signals(&self) -> (r: Vec<Signal>)
        ensures
            r@ == self.text_signals@ + self.other_signals@,
    {
        let mut r: Vec<Signal> = Vec::new();
        let mut i: usize = 0;
        while i < self.text_signals.len()
            invariant
                i <= self.text_signals@.len(),
                r@ == self.text_signals@.take(i as int),
            decreases self.text_signals@.len() - i,
        {
            r.push(self.text_signals[i]);
            assert(r@ =~= self.text_signals@.take(i + 1));
            i = i + 1;
        }
        let mut j: usize = 0;
        while j < self.other_signals.len()
            invariant
                i == self.text_signals@.len(),
                j <= self.other_signals@.len(),
                r@ == self.text_signals@ + self.other_signals@.take(j as int),
            decreases self.other_signals@.len() - j,
        {
            r.push(self.other_signals[j]);
            assert(r@ =~= self.text_signals@ + self.other_signals@.take(j + 1));
            j = j + 1;
        }
        assert(self.text_signals@.take(i as int) =~= self.text_signals@);
        assert(self.other_signals@.take(j as int) =~= self.other_signals@);
        r
    }
}

} // verus!
