//! Optic boosts: rules that raise or lower the score of the documents they match.
use vstd::prelude::*;

verus! {

/// What an optic rule does to the documents it matches.
#[derive(Clone, Copy, Debug, PartialEq, Eq)]
pub enum Action {
    /// Removes the documents; enforced where candidates are chosen.
    Discard,
    /// Raises the score by the given amount.
    Boost(u64),
    /// Lowers the score by the given amount.
    Downrank(u64),
}

/// The signed boost that a rule with `action` contributes, if it takes part
/// in boosting at all.
pub open spec fn signed_boost(action: Action) -> Option<int> {
    match action {
        Action::Discard => None,
        Action::Boost(b) => if b == 0 { None } else { Some(b as int) },
        Action::Downrank(b) => if b == 0 { None } else { Some(-(b as int)) },
    }
}

/// A bound optic rule: its boost, negative for a downrank.
#[derive(Clone, Copy, Debug, PartialEq, Eq)]
pub struct RuleBoost {
    pub boost: i128,
}

impl RuleBoost {
    /// The boost of a rule with this action; `None` for a discard or a zero
    /// boost, which take no part in boosting.
    pub fn from_action(action: Action) -> (r: Option<RuleBoost>)
        ensures
            match signed_boost(action) {
                None => r is None,
                Some(b) => r == Some(RuleBoost { boost: b as i128 }),
            },
    {
        match action {
            Action::Discard => None,
            Action::Boost(b) => if b == 0 { None } else { Some(RuleBoost { boost: b as i128 }) },
            Action::Downrank(b) => if b == 0 { None } else { Some(RuleBoost { boost: -(b as i128) }) },
        }
    }
}

/// Where a rule's docset stands with respect to the document being scored.
#[derive(Clone, Copy, Debug, PartialEq, Eq)]
pub enum DocsetStep {
    /// The docset is already past the document: the rule does not match it.
    Past,
    /// The docset is on the document: the rule matches it.
    On,
    /// The docset is before the document: seek to it, and the rule matches
    /// when the seek lands on it.
    Seek,
}

/// What to do with a docset whose cursor is at `current` to score `doc`.
pub fn docset_step(current: u32, doc: u32) -> (r: DocsetStep)
    ensures
        current > doc <==> r == DocsetStep::Past,
        current == doc <==> r == DocsetStep::On,
        current < doc <==> r == DocsetStep::Seek,
{
    if current > doc {
        DocsetStep::Past
    } else if current == doc {
        DocsetStep::On
    } else {
        DocsetStep::Seek
    }
}

/// A score multiplier: `Multiply(n)` is `n`, `Divide(n)` is `1 / n`.
#[derive(Clone, Copy, Debug, PartialEq, Eq)]
pub enum BoostFactor {
    Multiply(u128),
    Divide(u128),
}

impl BoostFactor {
    /// The numerator of the multiplier as a fraction.
    pub open spec fn numer(self) -> int {
        match self {
            BoostFactor::Multiply(n) => n as int,
            BoostFactor::Divide(_) => 1,
        }
    }

    /// The denominator of the multiplier as a fraction.
    pub open spec fn denom(self) -> int {
        match self {
            BoostFactor::Multiply(_) => 1,
            BoostFactor::Divide(n) => n as int,
        }
    }

    /// `self` is at most `other` as a multiplier.
    pub open spec fn at_most(self, other: BoostFactor) -> bool {
        self.numer() * other.denom() <= other.numer() * self.denom()
    }
}

/// The multiplier for a total boost `up` and a total downrank `down`:
/// `1 / (1 + (down - up))` when the downrank is larger, else `(up - down) + 1`.
pub open spec fn factor_of(up: int, down: int) -> BoostFactor {
    if down > up {
        BoostFactor::Divide((1 + (down - up)) as u128)
    } else {
        BoostFactor::Multiply((up - down + 1) as u128)
    }
}

/// The sum of the positive boosts of the rules that match.
pub open spec fn up_sum(rules: Seq<RuleBoost>, matched: Seq<bool>) -> int
    decreases rules.len(),
{
    if rules.len() == 0 || matched.len() == 0 {
        0
    } else {
        let rest = up_sum(rules.drop_last(), matched.drop_last());
        if matched.last() && rules.last().boost >= 0 {
            rest + rules.last().boost
        } else {
            rest
        }
    }
}

/// The sum of the magnitudes of the negative boosts of the rules that match.
pub open spec fn down_sum(rules: Seq<RuleBoost>, matched: Seq<bool>) -> int
    decreases rules.len(),
{
    if rules.len() == 0 || matched.len() == 0 {
        0
    } else {
        let rest = down_sum(rules.drop_last(), matched.drop_last());
        if matched.last() && rules.last().boost < 0 {
            rest - rules.last().boost
        } else {
            rest
        }
    }
}

/// The rules bound for `actions`: one for each action with a non-zero
/// boost or downrank, in order.
pub open spec fn bound_rules(actions: Seq<Action>) -> Seq<RuleBoost>
    decreases actions.len(),
{
    if actions.len() == 0 {
        Seq::empty()
    } else {
        let rest = bound_rules(actions.drop_last());
        match signed_boost(actions.last()) {
            Some(b) => rest.push(RuleBoost { boost: b as i128 }),
            None => rest,
        }
    }
}

/// The rules of a query that are bound to a segment.
pub struct OpticBoosts {
    pub rules: Vec<RuleBoost>,
}

impl OpticBoosts {
    /// Every rule's boost fits the range of an optic action.
    pub open spec fn wf(&self) -> bool {
        forall|i: int|
            0 <= i < self.rules@.len() ==> -(u64::MAX as int) <= #[trigger] self.rules@[i].boost
                <= u64::MAX as int
    }

    /// The rules that take part in boosting, in the order of `actions`.
    pub fn from_actions(actions: &Vec<Action>) -> (r: OpticBoosts)
        ensures
            r.wf(),
            r.rules@ == bound_rules(actions@),
    {
        let mut rules: Vec<RuleBoost> = Vec::new();
        let mut i: usize = 0;
        while i < actions.len()
            invariant
                i <= actions@.len(),
                rules@ == bound_rules(actions@.take(i as int)),
                forall|k: int|
                    0 <= k < rules@.len() ==> -(u64::MAX as int) <= #[trigger] rules@[k].boost
                        <= u64::MAX as int,
            decreases actions@.len() - i,
        {
            assert(actions@.take(i + 1).drop_last() =~= actions@.take(i as int));
            if let Some(rule) = RuleBoost::from_action(actions[i]) {
                rules.push(rule);
            }
            i = i + 1;
        }
        assert(actions@.take(i as int) =~= actions@);
        OpticBoosts { rules }
    }

    /// The multiplier for a document that the rules flagged in `matched`
    /// match: boosts and downranks are summed apart, and the larger total
    /// decides whether the score is multiplied or divided.
    pub fn boosts(&self, matched: &Vec<bool>) -> (r: BoostFactor)
        requires
            self.wf(),
            matched@.len() == self.rules@.len(),
        ensures
            r == factor_of(up_sum(self.rules@, matched@), down_sum(self.rules@, matched@)),
    {
        let mut up: u128 = 0;
        let mut down: u128 = 0;
        let mut i: usize = 0;
        while i < self.rules.len()
            invariant
                self.wf(),
                matched@.len() == self.rules@.len(),
                i <= self.rules@.len(),
                up as int == up_sum(self.rules@.take(i as int), matched@.take(i as int)),
                down as int == down_sum(self.rules@.take(i as int), matched@.take(i as int)),
                up as int + down as int <= i * (u64::MAX as int),
            decreases self.rules@.len() - i,
        {
            assert(self.rules@.take(i + 1).drop_last() =~= self.rules@.take(i as int));
            assert(matched@.take(i + 1).drop_last() =~= matched@.take(i as int));
            assert((i + 1) * (u64::MAX as int) == i * (u64::MAX as int) + u64::MAX as int)
                by (nonlinear_arith);
            assert(i < usize::MAX);
            assert(i * (u64::MAX as int) <= (usize::MAX as int) * (u64::MAX as int))
                by (nonlinear_arith)
                requires
                    i < usize::MAX,
            ;
            let b = self.rules[i].boost;
            if matched[i] {
                if b < 0 {
                    down = down + ((0 - b) as u128);
                } else {
                    up = up + (b as u128);
                }
            }
            i = i + 1;
        }
        assert(self.rules@.take(i as int) =~= self.rules@);
        assert(matched@.take(i as int) =~= matched@);
        if down > up {
            BoostFactor::Divide(1 + (down - up))
        } else {
            BoostFactor::Multiply(up - down + 1)
        }
    }
}

/// The boost and downrank totals are never negative, together at most the
/// largest action size per rule, and both zero when no rule matches.
proof fn lemma_sums_bounded(rules: Seq<RuleBoost>, matched: Seq<bool>)
    requires
        matched.len() == rules.len(),
        forall|i: int|
            0 <= i < rules.len() ==> -(u64::MAX as int) <= #[trigger] rules[i].boost
                <= u64::MAX as int,
    ensures
        0 <= up_sum(rules, matched),
        0 <= down_sum(rules, matched),
        up_sum(rules, matched) + down_sum(rules, matched) <= rules.len() * (u64::MAX as int),
        (forall|i: int| 0 <= i < matched.len() ==> !#[trigger] matched[i]) ==> up_sum(rules, matched)
            == 0 && down_sum(rules, matched) == 0,
    decreases rules.len(),
{
    if rules.len() > 0 {
        let n = rules.len() - 1;
        assert(rules.last() == rules[n]);
        lemma_sums_bounded(rules.drop_last(), matched.drop_last());
        assert(rules.len() * (u64::MAX as int) == n * (u64::MAX as int) + u64::MAX as int)
            by (nonlinear_arith)
            requires
                n == rules.len() - 1,
        ;
        if forall|i: int| 0 <= i < matched.len() ==> !#[trigger] matched[i] {
            assert(!matched[n]);
            assert forall|i: int| 0 <= i < matched.drop_last().len() implies !#[trigger] matched.drop_last()[i] by {
                assert(!matched[i]);
            }
        }
    }
}

/// For every document the multiplier is a positive fraction, and it is
/// exactly one when no rule matches the document.
pub proof fn law_boost_positive(optics: OpticBoosts, matched: Seq<bool>)
    requires
        optics.wf(),
        optics.rules@.len() <= usize::MAX,
        matched.len() == optics.rules@.len(),
    ensures
        factor_of(up_sum(optics.rules@, matched), down_sum(optics.rules@, matched)).numer() > 0,
        factor_of(up_sum(optics.rules@, matched), down_sum(optics.rules@, matched)).denom() > 0,
        (forall|i: int| 0 <= i < matched.len() ==> !#[trigger] matched[i]) ==> factor_of(
            up_sum(optics.rules@, matched),
            down_sum(optics.rules@, matched),
        ) == BoostFactor::Multiply(1),
{
    let rules = optics.rules@;
    lemma_sums_bounded(rules, matched);
    assert(rules.len() * (u64::MAX as int) <= (usize::MAX as int) * (u64::MAX as int))
        by (nonlinear_arith)
        requires
            rules.len() <= usize::MAX,
    ;
}

/// With the boost total fixed and the downrank total above it, a larger
/// downrank never gives a larger multiplier.
pub proof fn law_boost_monotone_in_downrank(up: int, down1: int, down2: int)
    requires
        0 <= up,
        up < down1 <= down2 < u128::MAX,
    ensures
        factor_of(up, down2).at_most(factor_of(up, down1)),
{
}

} // verus!
