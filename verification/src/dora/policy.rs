//! Pinned DORA derivation policy: the rules a snapshot is judged by.
//!
//! Every threshold is compared in integers: the change-failure-rate ceiling
//! is carried in basis points and cross-multiplied against the deploy
//! count, never compared as a fraction.
use vstd::prelude::*;

use crate::text::{concat, push_char, str_eq};

verus! {

/// The only `percentile_method` value the derivation implements.
pub const SUPPORTED_PERCENTILE_METHOD: &'static str = "nearest-rank";

/// Seconds in one day.
pub const SECONDS_PER_DAY: i64 = 86_400;

/// Seconds in one hour.
pub const SECONDS_PER_HOUR: i64 = 3_600;

/// The integer thresholds of a pinned policy.
pub struct PolicyLimits {
    /// Minimum deploys in the window before deployment frequency counts as
    /// measured.
    pub min_deploys: i64,
    /// Ceiling for the 90th percentile lead time, in days.
    pub max_lead_p90_days: i64,
    /// Ceiling for the change failure rate, in basis points.
    pub max_change_failure_rate_bp: i64,
    /// Ceiling for the median time to restore, in hours.
    pub max_mttr_hours: i64,
    /// Maximum incidents left unrestored.
    pub max_unrestored: i64,
}

/// Why a policy was rejected.
#[derive(Debug, Clone, Copy, PartialEq, Eq, Structural)]
pub enum PolicyError {
    /// `revert_pattern` is not the single supported form.
    UnsupportedRevertPattern,
    /// `percentile_method` is not the single supported method.
    UnsupportedPercentileMethod,
    /// `window_days` is zero or negative.
    NonPositiveWindow,
    /// `max_change_failure_rate` is outside `0.0..=1.0`.
    RateNotAFraction,
    /// `min_deploys` is negative.
    NegativeMinDeploys,
    /// `max_lead_p90_days` is zero or negative.
    NonPositiveLeadCeiling,
    /// `max_mttr_hours` is zero or negative.
    NonPositiveMttrCeiling,
    /// `max_unrestored` is negative.
    NegativeMaxUnrestored,
}

/// The first rule a policy breaks, in the order they are checked.
pub open spec fn policy_error(
    revert_pattern: Seq<char>,
    percentile_method: Seq<char>,
    window_days: int,
    rate_is_fraction: bool,
    limits: PolicyLimits,
) -> Option<PolicyError> {
    if revert_pattern != crate::dora::git::SUPPORTED_REVERT_PATTERN@ {
        Some(PolicyError::UnsupportedRevertPattern)
    } else if percentile_method != SUPPORTED_PERCENTILE_METHOD@ {
        Some(PolicyError::UnsupportedPercentileMethod)
    } else if window_days <= 0 {
        Some(PolicyError::NonPositiveWindow)
    } else if !rate_is_fraction {
        Some(PolicyError::RateNotAFraction)
    } else if limits.min_deploys < 0 {
        Some(PolicyError::NegativeMinDeploys)
    } else if limits.max_lead_p90_days <= 0 {
        Some(PolicyError::NonPositiveLeadCeiling)
    } else if limits.max_mttr_hours <= 0 {
        Some(PolicyError::NonPositiveMttrCeiling)
    } else if limits.max_unrestored < 0 {
        Some(PolicyError::NegativeMaxUnrestored)
    } else {
        None
    }
}

/// Rejects policy values the derivation does not implement.
///
/// `rate_is_fraction` says whether `max_change_failure_rate` lies in
/// `0.0..=1.0`. Every remaining threshold is only meaningful as a positive
/// quantity (or non-negative count): a negative value would invert its rule.
pub fn validate_policy(
    revert_pattern: &str,
    percentile_method: &str,
    window_days: i64,
    rate_is_fraction: bool,
    limits: &PolicyLimits,
) -> (r: Result<(), PolicyError>)
    ensures
        match policy_error(revert_pattern@, percentile_method@, window_days as int, rate_is_fraction, *limits) {
            Some(e) => r == Err::<(), PolicyError>(e),
            None => r is Ok,
        },
{
    if !str_eq(revert_pattern, crate::dora::git::SUPPORTED_REVERT_PATTERN) {
        return Err(PolicyError::UnsupportedRevertPattern);
    }
    if !str_eq(percentile_method, SUPPORTED_PERCENTILE_METHOD) {
        return Err(PolicyError::UnsupportedPercentileMethod);
    }
    if window_days <= 0 {
        return Err(PolicyError::NonPositiveWindow);
    }
    if !rate_is_fraction {
        return Err(PolicyError::RateNotAFraction);
    }
    if limits.min_deploys < 0 {
        return Err(PolicyError::NegativeMinDeploys);
    }
    if limits.max_lead_p90_days <= 0 {
        return Err(PolicyError::NonPositiveLeadCeiling);
    }
    if limits.max_mttr_hours <= 0 {
        return Err(PolicyError::NonPositiveMttrCeiling);
    }
    if limits.max_unrestored < 0 {
        return Err(PolicyError::NegativeMaxUnrestored);
    }
    Ok(())
}

/// Which way a threshold rule points.
#[derive(Debug, Clone, Copy, PartialEq, Eq, Structural)]
pub enum Direction {
    /// The observed value must not exceed the limit (`observed > limit` broke it).
    Ceiling,
    /// The observed value must reach the limit (`observed < limit` broke it).
    Floor,
}

impl Direction {
    /// The comparison operator that expresses the violation.
    pub fn operator(self) -> (c: char)
        ensures
            c == (if self == Direction::Ceiling {
                '>'
            } else {
                '<'
            }),
    {
        match self {
            Direction::Ceiling => '>',
            Direction::Floor => '<',
        }
    }
}

/// One threshold breach: what was measured against the pinned limit.
pub struct Breach {
    /// Stable rule name (`lead_p90`, `change_failure_rate`, ...).
    pub name: String,
    /// Observed value, formatted for stable JSON.
    pub observed: String,
    /// Direction the limit is enforced in.
    pub direction: Direction,
    /// Pinned limit the observation broke.
    pub limit: String,
}

impl Breach {
    /// The violation as one comparable phrase (`1/2 > 0.150`).
    pub fn comparison(&self) -> (s: String)
        ensures
            s@ == self.observed@ + seq![' ', (if self.direction == Direction::Ceiling {
                '>'
            } else {
                '<'
            }), ' '] + self.limit@,
    {
        let mut s = crate::text::owned(self.observed.as_str());
        push_char(&mut s, ' ');
        let op = self.direction.operator();
        push_char(&mut s, op);
        push_char(&mut s, ' ');
        let out = concat(s.as_str(), self.limit.as_str());
        proof {
            assert(out@ =~= self.observed@ + seq![' ', op, ' '] + self.limit@);
        }
        out
    }
}

/// The threshold rules, in report order.
#[derive(Debug, Clone, Copy, PartialEq, Eq, Structural)]
pub enum BreachRule {
    /// Fewer deploys than the policy's minimum.
    DeploysBelowMin,
    /// 90th percentile lead time above its ceiling, or unmeasured.
    LeadP90,
    /// Failed deploys per deploy above the rate ceiling.
    ChangeFailureRate,
    /// Median restore time above its ceiling, or unmeasured.
    Mttr,
    /// More unrestored incidents than allowed.
    UnrestoredDeploys,
}

impl BreachRule {
    /// Stable rule name, as reported.
    pub fn name(self) -> (s: &'static str)
        ensures
            self == BreachRule::DeploysBelowMin ==> s@ == "deploys_below_min"@,
            self == BreachRule::LeadP90 ==> s@ == "lead_p90"@,
            self == BreachRule::ChangeFailureRate ==> s@ == "change_failure_rate"@,
            self == BreachRule::Mttr ==> s@ == "mttr"@,
            self == BreachRule::UnrestoredDeploys ==> s@ == "unrestored_deploys"@,
    {
        match self {
            BreachRule::DeploysBelowMin => "deploys_below_min",
            BreachRule::LeadP90 => "lead_p90",
            BreachRule::ChangeFailureRate => "change_failure_rate",
            BreachRule::Mttr => "mttr",
            BreachRule::UnrestoredDeploys => "unrestored_deploys",
        }
    }
}

/// A measured quantity as a breach reports it.
#[derive(Debug, Clone, Copy, PartialEq, Eq, Structural)]
pub enum Measure {
    /// A plain count.
    Count(i64),
    /// A duration in seconds.
    Seconds(i64),
    /// An exact `failed/total` pair.
    Ratio(i64, i64),
    /// The policy's change-failure-rate ceiling.
    RateCeiling,
    /// No measurement exists.
    Missing,
}

/// One breached rule with its observation and limit.
#[derive(Debug, Clone, Copy, PartialEq, Eq, Structural)]
pub struct BreachFinding {
    pub rule: BreachRule,
    pub observed: Measure,
    pub direction: Direction,
    pub limit: Measure,
}

/// The numbers of a snapshot that the threshold rules read.
#[derive(Debug, Clone, Copy, PartialEq, Eq, Structural)]
pub struct RuleInputs {
    pub deploy_count: i64,
    pub deploys_failed: i64,
    pub lead_p90_seconds: Option<i64>,
    pub mttr_seconds: Option<i64>,
    pub mttr_restored: i64,
    pub mttr_unrestored: i64,
}

/// Inputs on which the rule arithmetic stays inside `i64`.
pub open spec fn rules_fit(deploy_count: int, deploys_failed: int, p: PolicyLimits) -> bool {
    &&& i64::MIN <= p.max_lead_p90_days * 86_400 <= i64::MAX
    &&& i64::MIN <= p.max_mttr_hours * 3_600 <= i64::MAX
    &&& (deploy_count > 0 ==> i64::MIN <= deploys_failed * 10_000 <= i64::MAX && i64::MIN
        <= p.max_change_failure_rate_bp * deploy_count <= i64::MAX)
}

/// The rules `m` breaks under `p`, in rule order.
///
/// The rules do not overlap: zero incidents report nothing, an
/// only-unrestored window reports `unrestored_deploys` alone, and a window
/// with a recovery reports `mttr`. A missing percentile is a breach: no
/// samples is not evidence of health.
pub open spec fn breach_list(m: RuleInputs, p: PolicyLimits) -> Seq<BreachFinding> {
    let lead_limit = p.max_lead_p90_days * 86_400;
    let mttr_limit = p.max_mttr_hours * 3_600;
    let a = if m.deploy_count < p.min_deploys {
        seq![BreachFinding { rule: BreachRule::DeploysBelowMin, observed: Measure::Count(m.deploy_count), direction: Direction::Floor, limit: Measure::Count(p.min_deploys) }]
    } else {
        seq![]
    };
    let b = match m.lead_p90_seconds {
        Some(p90) => if p90 <= lead_limit {
            seq![]
        } else {
            seq![BreachFinding { rule: BreachRule::LeadP90, observed: Measure::Seconds(p90), direction: Direction::Ceiling, limit: Measure::Seconds(lead_limit as i64) }]
        },
        None => seq![BreachFinding { rule: BreachRule::LeadP90, observed: Measure::Missing, direction: Direction::Ceiling, limit: Measure::Seconds(lead_limit as i64) }],
    };
    let c = if m.deploy_count > 0 && m.deploys_failed * 10_000 > p.max_change_failure_rate_bp
        * m.deploy_count {
        seq![BreachFinding { rule: BreachRule::ChangeFailureRate, observed: Measure::Ratio(m.deploys_failed, m.deploy_count), direction: Direction::Ceiling, limit: Measure::RateCeiling }]
    } else {
        seq![]
    };
    let d = if m.mttr_restored > 0 {
        match m.mttr_seconds {
            Some(mttr) => if mttr <= mttr_limit {
                seq![]
            } else {
                seq![BreachFinding { rule: BreachRule::Mttr, observed: Measure::Seconds(mttr), direction: Direction::Ceiling, limit: Measure::Seconds(mttr_limit as i64) }]
            },
            None => seq![BreachFinding { rule: BreachRule::Mttr, observed: Measure::Missing, direction: Direction::Ceiling, limit: Measure::Seconds(mttr_limit as i64) }],
        }
    } else {
        seq![]
    };
    let e = if m.mttr_unrestored > p.max_unrestored {
        seq![BreachFinding { rule: BreachRule::UnrestoredDeploys, observed: Measure::Count(m.mttr_unrestored), direction: Direction::Ceiling, limit: Measure::Count(p.max_unrestored) }]
    } else {
        seq![]
    };
    a + b + c + d + e
}

/// Evaluates every threshold rule against a snapshot's numbers.
pub fn breaches(m: &RuleInputs, p: &PolicyLimits) -> (found: Vec<BreachFinding>)
    requires
        rules_fit(m.deploy_count as int, m.deploys_failed as int, *p),
    ensures
        found@ == breach_list(*m, *p),
{
    let mut found: Vec<BreachFinding> = Vec::new();
    let ghost m0 = *m;
    let ghost p0 = *p;
    if m.deploy_count < p.min_deploys {
        found.push(BreachFinding { rule: BreachRule::DeploysBelowMin, observed: Measure::Count(m.deploy_count), direction: Direction::Floor, limit: Measure::Count(p.min_deploys) });
    }
    let ghost a = found@;
    let lead_limit = p.max_lead_p90_days * SECONDS_PER_DAY;
    match m.lead_p90_seconds {
        Some(p90) => {
            if p90 > lead_limit {
                found.push(BreachFinding { rule: BreachRule::LeadP90, observed: Measure::Seconds(p90), direction: Direction::Ceiling, limit: Measure::Seconds(lead_limit) });
            }
        },
        None => {
            found.push(BreachFinding { rule: BreachRule::LeadP90, observed: Measure::Missing, direction: Direction::Ceiling, limit: Measure::Seconds(lead_limit) });
        },
    }
    let ghost b = found@;
    if m.deploy_count > 0 && m.deploys_failed * 10_000 > p.max_change_failure_rate_bp * m.deploy_count {
        found.push(BreachFinding { rule: BreachRule::ChangeFailureRate, observed: Measure::Ratio(m.deploys_failed, m.deploy_count), direction: Direction::Ceiling, limit: Measure::RateCeiling });
    }
    let ghost c = found@;
    if m.mttr_restored > 0 {
        let mttr_limit = p.max_mttr_hours * SECONDS_PER_HOUR;
        match m.mttr_seconds {
            Some(mttr) => {
                if mttr > mttr_limit {
                    found.push(BreachFinding { rule: BreachRule::Mttr, observed: Measure::Seconds(mttr), direction: Direction::Ceiling, limit: Measure::Seconds(mttr_limit) });
                }
            },
            None => {
                found.push(BreachFinding { rule: BreachRule::Mttr, observed: Measure::Missing, direction: Direction::Ceiling, limit: Measure::Seconds(mttr_limit) });
            },
        }
    }
    let ghost d = found@;
    if m.mttr_unrestored > p.max_unrestored {
        found.push(BreachFinding { rule: BreachRule::UnrestoredDeploys, observed: Measure::Count(m.mttr_unrestored), direction: Direction::Ceiling, limit: Measure::Count(p.max_unrestored) });
    }
    proof {
        let l = breach_list(m0, p0);
        assert(found@ =~= l);
    }
    found
}

/// The report position of a rule.
spec fn rule_rank(r: BreachRule) -> int {
    match r {
        BreachRule::DeploysBelowMin => 0,
        BreachRule::LeadP90 => 1,
        BreachRule::ChangeFailureRate => 2,
        BreachRule::Mttr => 3,
        BreachRule::UnrestoredDeploys => 4,
    }
}

/// Findings in strictly increasing report position.
spec fn ranks_increase(s: Seq<BreachFinding>) -> bool {
    forall|i: int, j: int| 0 <= i < j < s.len() ==> rule_rank(#[trigger] s[i].rule) < rule_rank(#[trigger] s[j].rule)
}

/// Every finding of `s` has a report position in `lo..hi`.
spec fn ranks_within(s: Seq<BreachFinding>, lo: int, hi: int) -> bool {
    forall|k: int| 0 <= k < s.len() ==> lo <= rule_rank(#[trigger] s[k].rule) < hi
}

proof fn lemma_ranks_concat(s1: Seq<BreachFinding>, s2: Seq<BreachFinding>, lo: int, mid: int, hi: int)
    requires
        ranks_increase(s1),
        ranks_increase(s2),
        ranks_within(s1, lo, mid),
        ranks_within(s2, mid, hi),
        lo <= mid <= hi,
    ensures
        ranks_increase(s1 + s2),
        ranks_within(s1 + s2, lo, hi),
{
    let t = s1 + s2;
    assert forall|i: int, j: int| 0 <= i < j < t.len() implies rule_rank(#[trigger] t[i].rule) < rule_rank(#[trigger] t[j].rule) by {
        if j < s1.len() {
            assert(t[i] == s1[i] && t[j] == s1[j]);
        } else if i >= s1.len() {
            assert(t[i] == s2[i - s1.len()] && t[j] == s2[j - s1.len()]);
        } else {
            assert(t[i] == s1[i] && t[j] == s2[j - s1.len()]);
        }
    }
    assert forall|k: int| 0 <= k < t.len() implies lo <= rule_rank(#[trigger] t[k].rule) < hi by {
        if k < s1.len() {
            assert(t[k] == s1[k]);
        } else {
            assert(t[k] == s2[k - s1.len()]);
        }
    }
}

/// The threshold rules never overlap: each rule reports at most once; a
/// window without a recovery never reports `mttr` (an unrestored incident is
/// reported once, as `unrestored_deploys`); no deploys never reports a
/// change failure rate; and a missing 90th percentile is always reported.
pub proof fn breach_rules_do_not_overlap(m: RuleInputs, p: PolicyLimits)
    ensures
        forall|i: int, j: int|
            0 <= i < j < breach_list(m, p).len() ==> #[trigger] breach_list(m, p)[i].rule != #[trigger] breach_list(m, p)[j].rule,
        m.mttr_restored <= 0 ==> forall|k: int| 0 <= k < breach_list(m, p).len() ==> #[trigger] breach_list(m, p)[k].rule != BreachRule::Mttr,
        m.mttr_unrestored <= p.max_unrestored ==> forall|k: int|
            0 <= k < breach_list(m, p).len() ==> #[trigger] breach_list(m, p)[k].rule != BreachRule::UnrestoredDeploys,
        m.deploy_count <= 0 ==> forall|k: int|
            0 <= k < breach_list(m, p).len() ==> #[trigger] breach_list(m, p)[k].rule != BreachRule::ChangeFailureRate,
        m.lead_p90_seconds is None ==> exists|k: int|
            0 <= k < breach_list(m, p).len() && #[trigger] breach_list(m, p)[k] == (BreachFinding {
                rule: BreachRule::LeadP90,
                observed: Measure::Missing,
                direction: Direction::Ceiling,
                limit: Measure::Seconds((p.max_lead_p90_days * 86_400) as i64),
            }),
{
    let lead_limit = p.max_lead_p90_days * 86_400;
    let mttr_limit = p.max_mttr_hours * 3_600;
    let a = if m.deploy_count < p.min_deploys {
        seq![BreachFinding { rule: BreachRule::DeploysBelowMin, observed: Measure::Count(m.deploy_count), direction: Direction::Floor, limit: Measure::Count(p.min_deploys) }]
    } else {
        seq![]
    };
    let b = match m.lead_p90_seconds {
        Some(p90) => if p90 <= lead_limit {
            seq![]
        } else {
            seq![BreachFinding { rule: BreachRule::LeadP90, observed: Measure::Seconds(p90), direction: Direction::Ceiling, limit: Measure::Seconds(lead_limit as i64) }]
        },
        None => seq![BreachFinding { rule: BreachRule::LeadP90, observed: Measure::Missing, direction: Direction::Ceiling, limit: Measure::Seconds(lead_limit as i64) }],
    };
    let c = if m.deploy_count > 0 && m.deploys_failed * 10_000 > p.max_change_failure_rate_bp * m.deploy_count {
        seq![BreachFinding { rule: BreachRule::ChangeFailureRate, observed: Measure::Ratio(m.deploys_failed, m.deploy_count), direction: Direction::Ceiling, limit: Measure::RateCeiling }]
    } else {
        seq![]
    };
    let d = if m.mttr_restored > 0 {
        match m.mttr_seconds {
            Some(mttr) => if mttr <= mttr_limit {
                seq![]
            } else {
                seq![BreachFinding { rule: BreachRule::Mttr, observed: Measure::Seconds(mttr), direction: Direction::Ceiling, limit: Measure::Seconds(mttr_limit as i64) }]
            },
            None => seq![BreachFinding { rule: BreachRule::Mttr, observed: Measure::Missing, direction: Direction::Ceiling, limit: Measure::Seconds(mttr_limit as i64) }],
        }
    } else {
        seq![]
    };
    let e = if m.mttr_unrestored > p.max_unrestored {
        seq![BreachFinding { rule: BreachRule::UnrestoredDeploys, observed: Measure::Count(m.mttr_unrestored), direction: Direction::Ceiling, limit: Measure::Count(p.max_unrestored) }]
    } else {
        seq![]
    };
    let l = breach_list(m, p);
    assert(l == a + b + c + d + e);
    assert(ranks_increase(a) && ranks_within(a, 0, 1));
    assert(ranks_increase(b) && ranks_within(b, 1, 2));
    assert(ranks_increase(c) && ranks_within(c, 2, 3));
    assert(ranks_increase(d) && ranks_within(d, 3, 4));
    assert(ranks_increase(e) && ranks_within(e, 4, 5));
    lemma_ranks_concat(a, b, 0, 1, 2);
    lemma_ranks_concat(a + b, c, 0, 2, 3);
    lemma_ranks_concat(a + b + c, d, 0, 3, 4);
    lemma_ranks_concat(a + b + c + d, e, 0, 4, 5);
    assert forall|i: int, j: int| 0 <= i < j < l.len() implies #[trigger] l[i].rule != #[trigger] l[j].rule by {
        assert(rule_rank(l[i].rule) < rule_rank(l[j].rule));
    }
    let abc = a + b + c;
    assert forall|k: int| 0 <= k < l.len() implies {
        &&& (m.mttr_restored <= 0 ==> #[trigger] l[k].rule != BreachRule::Mttr)
        &&& (m.mttr_unrestored <= p.max_unrestored ==> l[k].rule != BreachRule::UnrestoredDeploys)
        &&& (m.deploy_count <= 0 ==> l[k].rule != BreachRule::ChangeFailureRate)
    } by {
        let t = a + b + c + d;
        if k < a.len() {
            assert(l[k] == a[k]);
        } else if k < (a + b).len() {
            assert(l[k] == b[k - a.len()]);
        } else if k < abc.len() {
            assert(l[k] == c[k - (a + b).len()]);
        } else if k < t.len() {
            assert(l[k] == d[k - abc.len()]);
        } else {
            assert(l[k] == e[k - t.len()]);
        }
    }
    if m.lead_p90_seconds is None {
        assert(l[a.len() as int] == b[0]);
    }
}

} // verus!
