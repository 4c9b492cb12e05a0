use ranking_core::boost::{Action, BoostFactor, RuleBoost};
use ranking_core::computer::{bind_field, FieldTokens, QueryData, SignalComputer};
use ranking_core::signal::{precomputable, Signal, TextField};

fn query(rules: Vec<Action>) -> QueryData {
    QueryData {
        simple_terms: vec!["rust".to_string()],
        optic_rules: rules,
        selected_region: Some(3),
    }
}

fn no_zero() -> Vec<bool> {
    vec![false; Signal::all().len()]
}

#[test]
fn new_keeps_only_boosting_rules() {
    let c = SignalComputer::new(
        Some(query(vec![Action::Discard, Action::Boost(0), Action::Boost(2), Action::Downrank(5)])),
        &no_zero(),
        42,
    );
    let q = c.query_data().unwrap();
    assert_eq!(q.optic_rules, vec![Action::Boost(2), Action::Downrank(5)]);
    assert_eq!(q.simple_terms, vec!["rust".to_string()]);
    assert_eq!(q.selected_region(), Some(3));
    assert_eq!(c.current_timestamp(), Some(42));
    assert!(c.segment_reader().is_none());
}

#[test]
fn boosts_need_a_bound_segment() {
    let mut c = SignalComputer::new(Some(query(vec![Action::Boost(2)])), &no_zero(), 0);
    assert_eq!(c.boosts(&vec![true]), None);
    c.register_segment(&vec![], &vec![true]);
    assert_eq!(c.boosts(&vec![true]), Some(BoostFactor::Multiply(3)));
    assert_eq!(c.boosts(&vec![false]), Some(BoostFactor::Multiply(1)));
}

#[test]
fn computer_combines_boost_and_downrank() {
    let mut c = SignalComputer::new(
        Some(query(vec![Action::Boost(2), Action::Downrank(5)])),
        &no_zero(),
        0,
    );
    c.register_segment(&vec![], &vec![true, true]);
    let rules = &c.segment_reader().unwrap().optic_boosts().rules;
    assert_eq!(rules, &vec![RuleBoost { boost: 2 }, RuleBoost { boost: -5 }]);
    assert_eq!(c.boosts(&vec![true, true]), Some(BoostFactor::Divide(4)));
}

#[test]
fn computer_without_query_binds_no_rules() {
    let mut c = SignalComputer::new(None, &no_zero(), 7);
    assert!(c.query_data().is_none());
    c.register_segment(&vec![], &vec![]);
    assert_eq!(c.boosts(&vec![]), Some(BoostFactor::Multiply(1)));
    c.set_current_timestamp(9);
    assert_eq!(c.current_timestamp(), Some(9));
}

#[test]
fn computer_order_leaves_out_zero_coefficients() {
    let mut zero = vec![true; Signal::all().len()];
    zero[0] = false;
    let c = SignalComputer::new(None, &zero, 0);
    assert_eq!(c.order().text_signals, vec![Signal::Bm25(TextField::Title)]);
    assert!(c.order().other_signals.is_empty());
}

#[test]
fn freshness_counts_hours_from_computer_time() {
    let mut c = SignalComputer::new(None, &no_zero(), 10 * 3600 + 59);
    assert_eq!(c.freshness_index(0), Some(10));
    assert_eq!(c.freshness_index(20 * 3600), Some(0));
    c.set_current_timestamp(u64::MAX);
    assert_eq!(c.freshness_index(0), Some(3 * 365 * 24 - 1));
}

#[test]
fn rules_that_fail_to_compile_are_dropped() {
    let mut c = SignalComputer::new(
        Some(query(vec![Action::Boost(2), Action::Downrank(5), Action::Boost(1)])),
        &no_zero(),
        0,
    );
    c.register_segment(&vec![], &vec![true, false, true]);
    let rules = &c.segment_reader().unwrap().optic_boosts().rules;
    assert_eq!(rules, &vec![RuleBoost { boost: 2 }, RuleBoost { boost: 1 }]);
    assert_eq!(c.boosts(&vec![true, true]), Some(BoostFactor::Multiply(4)));
}

#[test]
fn text_fields_bind_tokens_with_postings() {
    let mut c = SignalComputer::new(Some(query(vec![])), &no_zero(), 0);
    c.register_segment(
        &vec![
            FieldTokens { field: TextField::Title, has_postings: vec![true, false, true] },
            FieldTokens { field: TextField::Url, has_postings: vec![] },
            FieldTokens { field: TextField::Body, has_postings: vec![false] },
        ],
        &vec![],
    );
    let fields = c.segment_reader().unwrap().text_fields();
    assert_eq!(fields.len(), 2);
    assert_eq!(fields[0].field, TextField::Title);
    assert_eq!(fields[0].terms, vec![0, 2]);
    assert_eq!(fields[1].field, TextField::Body);
    assert!(fields[1].terms.is_empty());
}

#[test]
fn query_without_terms_binds_no_field() {
    let q = QueryData { simple_terms: vec![], optic_rules: vec![], selected_region: None };
    let mut c = SignalComputer::new(Some(q), &no_zero(), 0);
    c.register_segment(
        &vec![FieldTokens { field: TextField::Title, has_postings: vec![true] }],
        &vec![],
    );
    assert!(c.segment_reader().unwrap().text_fields().is_empty());
}

#[test]
fn bind_field_cases() {
    assert_eq!(bind_field(&vec![]), None);
    assert_eq!(bind_field(&vec![false, false]), Some(vec![]));
    assert_eq!(bind_field(&vec![false, true, true]), Some(vec![1, 2]));
}

#[test]
fn clone_keeps_query_and_drops_segment() {
    let mut c = SignalComputer::new(Some(query(vec![Action::Boost(2)])), &no_zero(), 5);
    c.register_segment(&vec![], &vec![true]);
    let d = c.clone_unbound();
    assert!(d.segment_reader().is_none());
    assert_eq!(d.boosts(&vec![true]), None);
    let q = d.query_data().unwrap();
    assert_eq!(q.simple_terms, vec!["rust".to_string()]);
    assert_eq!(q.optic_rules, vec![Action::Boost(2)]);
    assert_eq!(q.selected_region(), Some(3));
    assert_eq!(d.current_timestamp(), Some(5));
    assert_eq!(d.order().text_signals, c.order().text_signals);
    assert_eq!(d.order().other_signals, c.order().other_signals);
    assert!(c.segment_reader().is_some());
}

#[test]
fn precomputable_signals_only() {
    assert_eq!(
        precomputable(&Signal::all()),
        vec![Signal::HostCentrality, Signal::PageRank]
    );
}
