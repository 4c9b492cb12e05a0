//! The per-query signal computer: query-scoped state, the segment it is
//! bound to, and the optic boost of each document.
use vstd::prelude::*;

use crate::boost::{
    bound_rules, down_sum, factor_of, signed_boost, up_sum, Action, BoostFactor, OpticBoosts,
    RuleBoost,
};
use crate::bangs::views;
use crate::signal::{
    active, all_signals, hours_between, update_time_index, Signal, SignalComputeOrder, TextField,
    UPDATE_TIME_CACHE_LEN,
};

verus! {

/// The parts of a query that ranking reads.
pub struct QueryData {
    pub simple_terms: Vec<String>,
    pub optic_rules: Vec<Action>,
    pub selected_region: Option<u32>,
}

impl QueryData {
    /// The region the query asks for, if any.
    pub fn selected_region(&self) -> (r: Option<u32>)
        ensures
            r == self.selected_region,
    {
        self.selected_region
    }
}

/// The actions of `actions` that take part in boosting, in order.
pub open spec fn boosting_actions(actions: Seq<Action>) -> Seq<Action>
    decreases actions.len(),
{
    if actions.len() == 0 {
        Seq::empty()
    } else {
        let rest = boosting_actions(actions.drop_last());
        if signed_boost(actions.last()) is Some {
            rest.push(actions.last())
        } else {
            rest
        }
    }
}

/// Keeps the actions that boost or downrank by a non-zero amount.
fn keep_boosting(actions: Vec<Action>) -> (r: Vec<Action>)
    ensures
        r@ == boosting_actions(actions@),
{
    let mut kept: Vec<Action> = Vec::new();
    let mut i: usize = 0;
    while i < actions.len()
        invariant
            i <= actions@.len(),
            kept@ == boosting_actions(actions@.take(i as int)),
        decreases actions@.len() - i,
    {
        assert(actions@.take(i + 1).drop_last() =~= actions@.take(i as int));
        let a = actions[i];
        let keep = match a {
            Action::Discard => false,
            Action::Boost(b) => b != 0,
            Action::Downrank(b) => b != 0,
        };
        if keep {
            kept.push(a);
        }
        i = i + 1;
    }
    assert(actions@.take(i as int) =~= actions@);
    kept
}

/// The actions whose flag in `compiled` is set, in order.
pub open spec fn compiled_only(actions: Seq<Action>, compiled: Seq<bool>) -> Seq<Action>
    decreases actions.len(),
{
    if actions.len() == 0 || compiled.len() == 0 {
        Seq::empty()
    } else {
        let rest = compiled_only(actions.drop_last(), compiled.drop_last());
        if compiled.last() {
            rest.push(actions.last())
        } else {
            rest
        }
    }
}

/// Keeps the actions whose rule compiled against the segment's schema.
fn keep_compiled(actions: &Vec<Action>, compiled: &Vec<bool>) -> (r: Vec<Action>)
    requires
        compiled@.len() == actions@.len(),
    ensures
        r@ == compiled_only(actions@, compiled@),
{
    let mut kept: Vec<Action> = Vec::new();
    let mut i: usize = 0;
    while i < actions.len()
        invariant
            compiled@.len() == actions@.len(),
            i <= actions@.len(),
            kept@ == compiled_only(actions@.take(i as int), compiled@.take(i as int)),
        decreases actions@.len() - i,
    {
        assert(actions@.take(i + 1).drop_last() =~= actions@.take(i as int));
        assert(compiled@.take(i + 1).drop_last() =~= compiled@.take(i as int));
        if compiled[i] {
            kept.push(actions[i]);
        }
        i = i + 1;
    }
    assert(actions@.take(i as int) =~= actions@);
    assert(compiled@.take(i as int) =~= compiled@);
    kept
}

/// The indices of the flags that are set, in order.
pub open spec fn indices_with_postings(has_postings: Seq<bool>) -> Seq<usize>
    decreases has_postings.len(),
{
    if has_postings.len() == 0 {
        Seq::empty()
    } else {
        let rest = indices_with_postings(has_postings.drop_last());
        if has_postings.last() {
            rest.push((has_postings.len() - 1) as usize)
        } else {
            rest
        }
    }
}

/// How one text field binds to a segment: `None` when the query gave it no
/// tokens, else the indices of the tokens that have postings in the segment.
/// `has_postings` holds one flag per token of the field's tokenizer.
pub fn bind_field(has_postings: &Vec<bool>) -> (r: Option<Vec<usize>>)
    ensures
        (has_postings@.len() == 0) == (r is None),
        r matches Some(v) ==> v@ == indices_with_postings(has_postings@),
{
    if has_postings.len() == 0 {
        return None;
    }
    let mut kept: Vec<usize> = Vec::new();
    let mut i: usize = 0;
    while i < has_postings.len()
        invariant
            i <= has_postings@.len(),
            kept@ == indices_with_postings(has_postings@.take(i as int)),
        decreases has_postings@.len() - i,
    {
        assert(has_postings@.take(i + 1).drop_last() =~= has_postings@.take(i as int));
        if has_postings[i] {
            kept.push(i);
        }
        i = i + 1;
    }
    assert(has_postings@.take(i as int) =~= has_postings@);
    Some(kept)
}

/// The tokens of the query in one text field: one flag per token, set when
/// the token's term has postings in the segment.
pub struct FieldTokens {
    pub field: TextField,
    pub has_postings: Vec<bool>,
}

/// A text field bound to a segment and the query tokens with postings there.
pub struct FieldBinding {
    pub field: TextField,
    pub terms: Vec<usize>,
}

/// The fields and their token indices, as plain values.
pub open spec fn binding_views(b: Seq<FieldBinding>) -> Seq<(TextField, Seq<usize>)> {
    b.map_values(|f: FieldBinding| (f.field, f.terms@))
}

/// The bindings for `fields`: a field with no tokens is skipped, and a
/// field keeps the tokens that have postings, in order.
pub open spec fn bound_fields(fields: Seq<FieldTokens>) -> Seq<(TextField, Seq<usize>)>
    decreases fields.len(),
{
    if fields.len() == 0 {
        Seq::empty()
    } else {
        let rest = bound_fields(fields.drop_last());
        let f = fields.last();
        if f.has_postings@.len() == 0 {
            rest
        } else {
            rest.push((f.field, indices_with_postings(f.has_postings@)))
        }
    }
}

/// Binds each field that has tokens.
fn bind_fields(fields: &Vec<FieldTokens>) -> (r: Vec<FieldBinding>)
    ensures
        binding_views(r@) == bound_fields(fields@),
{
    let mut bound: Vec<FieldBinding> = Vec::new();
    let mut i: usize = 0;
    while i < fields.len()
        invariant
            i <= fields@.len(),
            binding_views(bound@) == bound_fields(fields@.take(i as int)),
        decreases fields@.len() - i,
    {
        assert(fields@.take(i + 1).drop_last() =~= fields@.take(i as int));
        let f = &fields[i];
        match bind_field(&f.has_postings) {
            Some(terms) => {
                bound.push(FieldBinding { field: f.field, terms });
            },
            None => {},
        }
        assert(binding_views(bound@) =~= bound_fields(fields@.take(i + 1)));
        i = i + 1;
    }
    assert(fields@.take(i as int) =~= fields@);
    bound
}

/// A copy of each item.
fn copy_vec<T: Copy>(v: &Vec<T>) -> (r: Vec<T>)
    ensures
        r@ == v@,
{
    let mut r: Vec<T> = Vec::new();
    let mut i: usize = 0;
    while i < v.len()
        invariant
            i <= v@.len(),
            r@ == v@.take(i as int),
        decreases v@.len() - i,
    {
        r.push(v[i]);
        assert(r@ =~= v@.take(i + 1));
        i = i + 1;
    }
    assert(v@.take(i as int) =~= v@);
    r
}

/// A copy of each string.
fn clone_strings(v: &Vec<String>) -> (r: Vec<String>)
    ensures
        r@ == v@,
{
    let mut r: Vec<String> = Vec::new();
    let mut i: usize = 0;
    while i < v.len()
        invariant
            i <= v@.len(),
            r@ == v@.take(i as int),
        decreases v@.len() - i,
    {
        r.push(v[i].clone());
        assert(r@ =~= v@.take(i + 1));
        i = i + 1;
    }
    assert(v@.take(i as int) =~= v@);
    r
}

/// What a computer holds for the segment it is bound to.
pub struct SegmentReader {
    text_fields: Vec<FieldBinding>,
    optic_boosts: OpticBoosts,
}

impl SegmentReader {
    /// The text fields bound to the segment.
    pub closed spec fn fields(&self) -> Seq<(TextField, Seq<usize>)> {
        binding_views(self.text_fields@)
    }

    /// The text fields bound to the segment.
    pub fn text_fields(&self) -> (r: &Vec<FieldBinding>)
        ensures
            binding_views(r@) == self.fields(),
    {
        &self.text_fields
    }

    /// The optic rules bound to the segment.
    pub closed spec fn rules(&self) -> Seq<RuleBoost> {
        self.optic_boosts.rules@
    }

    /// The bound rules are each within an optic action's range.
    pub closed spec fn wf(&self) -> bool {
        self.optic_boosts.wf()
    }

    /// The optic rules bound to the segment.
    pub fn optic_boosts(&self) -> (r: &OpticBoosts)
        requires
            self.wf(),
        ensures
            r.rules@ == self.rules(),
            r.wf(),
    {
        &self.optic_boosts
    }
}

/// Query-scoped state for scoring documents, and at most one bound segment.
pub struct SignalComputer {
    query_data: Option<QueryData>,
    segment_reader: Option<SegmentReader>,
    current_timestamp: Option<u64>,
    order: SignalComputeOrder,
}

impl SignalComputer {
    /// The bound segment's rules are each within an optic action's range.
    pub closed spec fn wf(&self) -> bool {
        self.segment_reader matches Some(s) ==> s.optic_boosts.wf()
    }

    /// The optic rules of the query, or `None` without a query.
    pub closed spec fn query_rules(&self) -> Option<Seq<Action>> {
        match self.query_data {
            Some(q) => Some(q.optic_rules@),
            None => None,
        }
    }

    /// The rules of the bound segment, or `None` when no segment is bound.
    pub closed spec fn segment_rules(&self) -> Option<Seq<RuleBoost>> {
        match self.segment_reader {
            Some(s) => Some(s.optic_boosts.rules@),
            None => None,
        }
    }

    /// The text fields of the bound segment, or `None` when no segment is bound.
    pub closed spec fn segment_fields(&self) -> Option<Seq<(TextField, Seq<usize>)>> {
        match self.segment_reader {
            Some(s) => Some(binding_views(s.text_fields@)),
            None => None,
        }
    }

    /// The simple terms of the query, or `None` without a query.
    pub closed spec fn query_terms(&self) -> Option<Seq<Seq<char>>> {
        match self.query_data {
            Some(q) => Some(views(q.simple_terms@)),
            None => None,
        }
    }

    /// The region the query asks for, or `None` without a query.
    pub closed spec fn query_region(&self) -> Option<Option<u32>> {
        match self.query_data {
            Some(q) => Some(q.selected_region),
            None => None,
        }
    }

    /// The time the computer scores at, in seconds.
    pub closed spec fn timestamp(&self) -> Option<u64> {
        self.current_timestamp
    }

    /// The textual and the other signals, in compute order.
    pub closed spec fn signal_order(&self) -> (Seq<Signal>, Seq<Signal>) {
        (self.order.text_signals@, self.order.other_signals@)
    }

    /// A computer for `query` at time `now`; `zero_coefficient[i]` tells
    /// that the coefficient of the `i`th signal of the registry resolved to
    /// zero. Only optic rules that boost or downrank by a non-zero amount are
    /// kept, and no segment is bound.
    pub fn new(query: Option<QueryData>, zero_coefficient: &Vec<bool>, now: u64) -> (r: SignalComputer)
        requires
            zero_coefficient@.len() == all_signals().len(),
        ensures
            r.wf(),
            r.query_rules() == match query {
                Some(q) => Some(boosting_actions(q.optic_rules@)),
                None => None::<Seq<Action>>,
            },
            r.query_terms() == match query {
                Some(q) => Some(views(q.simple_terms@)),
                None => None::<Seq<Seq<char>>>,
            },
            r.query_region() == match query {
                Some(q) => Some(q.selected_region),
                None => None::<Option<u32>>,
            },
            r.segment_rules() is None,
            r.timestamp() == Some(now),
            r.signal_order() == (
                active(all_signals(), zero_coefficient@, true),
                active(all_signals(), zero_coefficient@, false),
            ),
    {
        let query_data = match query {
            Some(q) => Some(
                QueryData {
                    simple_terms: q.simple_terms,
                    optic_rules: keep_boosting(q.optic_rules),
                    selected_region: q.selected_region,
                },
            ),
            None => None,
        };
        let signals = Signal::all();
        let order = SignalComputeOrder::new(&signals, zero_coefficient);
        SignalComputer { query_data, segment_reader: None, current_timestamp: Some(now), order }
    }

    /// Binds a segment, replacing any earlier binding. Each optic rule of
    /// the query whose flag in `compiled` is set (it compiled against the
    /// segment's schema) gets its boost, negative for a downrank, in the
    /// order of the query's rules; the others are dropped. Each text field of
    /// `fields` with tokens is bound to the tokens that have postings; a
    /// query without simple terms binds no field. Without a query nothing is
    /// bound. The rules' docsets stay with the caller, which tells `boosts`
    /// which rules match each document.
    pub fn register_segment(&mut self, fields: &Vec<FieldTokens>, compiled: &Vec<bool>)
        requires
            old(self).query_rules() matches Some(a) ==> compiled@.len() == a.len(),
        ensures
            final(self).wf(),
            final(self).segment_rules() == Some(
                match old(self).query_rules() {
                    Some(actions) => bound_rules(compiled_only(actions, compiled@)),
                    None => Seq::<RuleBoost>::empty(),
                },
            ),
            final(self).segment_fields() == Some(
                if old(self).query_terms() matches Some(t) && t.len() > 0 {
                    bound_fields(fields@)
                } else {
                    Seq::<(TextField, Seq<usize>)>::empty()
                },
            ),
            final(self).query_rules() == old(self).query_rules(),
            final(self).query_terms() == old(self).query_terms(),
            final(self).query_region() == old(self).query_region(),
            final(self).timestamp() == old(self).timestamp(),
            final(self).signal_order() == old(self).signal_order(),
    {
        let (optic_boosts, text_fields) = match &self.query_data {
            Some(q) => {
                let rules = keep_compiled(&q.optic_rules, compiled);
                let text_fields = if q.simple_terms.len() > 0 {
                    bind_fields(fields)
                } else {
                    Vec::new()
                };
                proof {
                    assert(views(q.simple_terms@).len() == q.simple_terms@.len());
                }
                (OpticBoosts::from_actions(&rules), text_fields)
            },
            None => (OpticBoosts { rules: Vec::new() }, Vec::new()),
        };
        self.segment_reader = Some(SegmentReader { text_fields, optic_boosts });
    }

    /// A computer with the same query, time and signal order and no bound
    /// segment, for scoring another segment in parallel.
    pub fn clone_unbound(&self) -> (r: SignalComputer)
        ensures
            r.wf(),
            r.segment_rules() is None,
            r.segment_fields() is None,
            r.query_rules() == self.query_rules(),
            r.query_terms() == self.query_terms(),
            r.query_region() == self.query_region(),
            r.timestamp() == self.timestamp(),
            r.signal_order() == self.signal_order(),
    {
        let query_data = match &self.query_data {
            Some(q) => Some(
                QueryData {
                    simple_terms: clone_strings(&q.simple_terms),
                    optic_rules: copy_vec(&q.optic_rules),
                    selected_region: q.selected_region,
                },
            ),
            None => None,
        };
        let order = SignalComputeOrder {
            text_signals: copy_vec(&self.order.text_signals),
            other_signals: copy_vec(&self.order.other_signals),
        };
        SignalComputer {
            query_data,
            segment_reader: None,
            current_timestamp: self.current_timestamp,
            order,
        }
    }

    /// Sets the time the computer scores at.
    pub fn set_current_timestamp(&mut self, current_timestamp: u64)
        ensures
            final(self).wf() == old(self).wf(),
            final(self).timestamp() == Some(current_timestamp),
            final(self).query_rules() == old(self).query_rules(),
            final(self).query_terms() == old(self).query_terms(),
            final(self).query_region() == old(self).query_region(),
            final(self).segment_rules() == old(self).segment_rules(),
            final(self).segment_fields() == old(self).segment_fields(),
            final(self).signal_order() == old(self).signal_order(),
    {
        self.current_timestamp = Some(current_timestamp);
    }

    /// The time the computer scores at.
    pub fn current_timestamp(&self) -> (r: Option<u64>)
        ensures
            r == self.timestamp(),
    {
        self.current_timestamp
    }

    /// The slot of the freshness cache for a page updated at `updated`,
    /// measured from the computer's time; `None` when it has no time.
    pub fn freshness_index(&self, updated: u64) -> (r: Option<usize>)
        ensures
            match self.timestamp() {
                None => r is None,
                Some(now) => r matches Some(i) && i < UPDATE_TIME_CACHE_LEN && (hours_between(
                    now as int,
                    updated as int,
                ) < UPDATE_TIME_CACHE_LEN ==> i == hours_between(now as int, updated as int)) && (
                hours_between(now as int, updated as int) >= UPDATE_TIME_CACHE_LEN ==> i
                    == UPDATE_TIME_CACHE_LEN - 1),
            },
    {
        match self.current_timestamp {
            Some(now) => Some(update_time_index(now, updated)),
            None => None,
        }
    }

    /// The query the computer was made for.
    pub fn query_data(&self) -> (r: Option<&QueryData>)
        ensures
            match r {
                Some(q) => self.query_rules() == Some(q.optic_rules@) && self.query_terms() == Some(
                    views(q.simple_terms@),
                ) && self.query_region() == Some(q.selected_region),
                None => self.query_rules() is None,
            },
    {
        self.query_data.as_ref()
    }

    /// The bound segment, if any.
    pub fn segment_reader(&self) -> (r: Option<&SegmentReader>)
        ensures
            match r {
                Some(s) => self.segment_rules() == Some(s.rules()) && self.segment_fields() == Some(
                    s.fields(),
                ) && (self.wf() ==> s.wf()),
                None => self.segment_rules() is None,
            },
    {
        self.segment_reader.as_ref()
    }

    /// The order in which signals are computed.
    pub fn order(&self) -> (r: &SignalComputeOrder)
        ensures
            self.signal_order() == (r.text_signals@, r.other_signals@),
    {
        &self.order
    }

    /// The boost multiplier of a document that the bound rules flagged in
    /// `matched` match; `None` when no segment is bound.
    pub fn boosts(&self, matched: &Vec<bool>) -> (r: Option<BoostFactor>)
        requires
            self.wf(),
            self.segment_rules() matches Some(rules) ==> matched@.len() == rules.len(),
        ensures
            match self.segment_rules() {
                None => r is None,
                Some(rules) => r == Some(
                    factor_of(up_sum(rules, matched@), down_sum(rules, matched@)),
                ),
            },
    {
        match &self.segment_reader {
            Some(s) => Some(s.optic_boosts.boosts(matched)),
            None => None,
        }
    }
}

} // verus!
