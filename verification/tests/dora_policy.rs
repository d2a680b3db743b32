use do_harness::dora::git::SUPPORTED_REVERT_PATTERN;
use do_harness::dora::policy::{
    breaches, validate_policy, Breach, BreachRule, Direction, Measure, PolicyError, PolicyLimits,
    RuleInputs, SECONDS_PER_DAY, SUPPORTED_PERCENTILE_METHOD,
};

fn policy() -> PolicyLimits {
    PolicyLimits {
        min_deploys: 1,
        max_lead_p90_days: 30,
        max_change_failure_rate_bp: 1500,
        max_mttr_hours: 24,
        max_unrestored: 0,
    }
}

fn snapshot() -> RuleInputs {
    RuleInputs {
        deploy_count: 2,
        deploys_failed: 1,
        lead_p90_seconds: Some(2_335_088),
        mttr_seconds: None,
        mttr_restored: 0,
        mttr_unrestored: 1,
    }
}

fn names(snap: &RuleInputs, p: &PolicyLimits) -> Vec<&'static str> {
    breaches(snap, p).iter().map(|b| b.rule.name()).collect()
}

fn valid(pattern: &str, method: &str) -> bool {
    validate_policy(pattern, method, 30, true, &policy()).is_ok()
}

#[test]
fn policy_rate_breach_is_exact_integer_cross_multiplication() {
    // 1/7 = 0.142857... is below a 0.15 ceiling; 1/6 is above it.
    let mut snap = snapshot();
    snap.deploy_count = 7;
    snap.deploys_failed = 1;
    snap.lead_p90_seconds = Some(0);
    snap.mttr_unrestored = 0;
    assert!(breaches(&snap, &policy()).is_empty());
    snap.deploy_count = 6;
    assert_eq!(names(&snap, &policy()), vec!["change_failure_rate"]);
}

#[test]
fn policy_unrestored_incidents_report_once_and_not_as_mttr() {
    assert_eq!(
        names(&snapshot(), &policy()),
        vec!["change_failure_rate", "unrestored_deploys"]
    );
}

#[test]
fn policy_zero_incidents_report_no_restore_failure() {
    let mut snap = snapshot();
    snap.deploy_count = 1;
    snap.deploys_failed = 0;
    snap.lead_p90_seconds = Some(0);
    snap.mttr_unrestored = 0;
    assert!(breaches(&snap, &policy()).is_empty());
}

#[test]
fn policy_restored_incidents_report_mttr() {
    let mut snap = snapshot();
    snap.deploy_count = 1;
    snap.deploys_failed = 0;
    snap.lead_p90_seconds = Some(0);
    snap.mttr_unrestored = 0;
    snap.mttr_restored = 1;
    snap.mttr_seconds = Some(2 * SECONDS_PER_DAY);
    assert_eq!(names(&snap, &policy()), vec!["mttr"]);
}

#[test]
fn policy_missing_lead_p90_is_a_breach() {
    let mut snap = snapshot();
    snap.deploy_count = 1;
    snap.deploys_failed = 0;
    snap.lead_p90_seconds = None;
    snap.mttr_unrestored = 0;
    assert_eq!(names(&snap, &policy()), vec!["lead_p90"]);
}

#[test]
fn policy_unsupported_policy_values_are_rejected() {
    assert!(!valid("^revert", SUPPORTED_PERCENTILE_METHOD));
    assert!(!valid(SUPPORTED_REVERT_PATTERN, "linear"));
    assert!(valid(SUPPORTED_REVERT_PATTERN, SUPPORTED_PERCENTILE_METHOD));
}

#[test]
fn policy_tests_rate_breach_is_exact_integer_cross_multiplication() {
    // 1/7 = 0.142857... is below a 0.15 ceiling; 1/6 is above it.
    let mut snap = snapshot();
    snap.deploy_count = 7;
    snap.deploys_failed = 1;
    snap.lead_p90_seconds = Some(0);
    snap.mttr_unrestored = 0;
    assert!(breaches(&snap, &policy()).is_empty());
    snap.deploy_count = 6;
    assert_eq!(names(&snap, &policy()), vec!["change_failure_rate"]);
}

#[test]
fn policy_tests_unrestored_incidents_report_once_and_not_as_mttr() {
    assert_eq!(
        names(&snapshot(), &policy()),
        vec!["change_failure_rate", "unrestored_deploys"]
    );
}

#[test]
fn policy_tests_zero_incidents_report_no_restore_failure() {
    let mut snap = snapshot();
    snap.deploy_count = 1;
    snap.deploys_failed = 0;
    snap.lead_p90_seconds = Some(0);
    snap.mttr_unrestored = 0;
    assert!(breaches(&snap, &policy()).is_empty());
}

#[test]
fn policy_tests_restored_incidents_report_mttr() {
    let mut snap = snapshot();
    snap.deploy_count = 1;
    snap.deploys_failed = 0;
    snap.lead_p90_seconds = Some(0);
    snap.mttr_unrestored = 0;
    snap.mttr_restored = 1;
    snap.mttr_seconds = Some(2 * SECONDS_PER_DAY);
    assert_eq!(names(&snap, &policy()), vec!["mttr"]);
}

#[test]
fn policy_tests_missing_lead_p90_is_a_breach() {
    let mut snap = snapshot();
    snap.deploy_count = 1;
    snap.deploys_failed = 0;
    snap.lead_p90_seconds = None;
    snap.mttr_unrestored = 0;
    assert_eq!(names(&snap, &policy()), vec!["lead_p90"]);
}

#[test]
fn policy_tests_unsupported_policy_values_are_rejected() {
    assert!(!valid("^revert", SUPPORTED_PERCENTILE_METHOD));
    assert!(!valid(SUPPORTED_REVERT_PATTERN, "linear"));
    assert!(valid(SUPPORTED_REVERT_PATTERN, SUPPORTED_PERCENTILE_METHOD));
}

#[test]
fn each_policy_error_names_its_first_broken_rule() {
    let p = policy();
    let ok_pattern = SUPPORTED_REVERT_PATTERN;
    let ok_method = SUPPORTED_PERCENTILE_METHOD;
    assert_eq!(
        validate_policy("^revert", "linear", 0, false, &p),
        Err(PolicyError::UnsupportedRevertPattern)
    );
    assert_eq!(
        validate_policy(ok_pattern, "linear", 30, true, &p),
        Err(PolicyError::UnsupportedPercentileMethod)
    );
    assert_eq!(
        validate_policy(ok_pattern, ok_method, 0, true, &p),
        Err(PolicyError::NonPositiveWindow)
    );
    assert_eq!(
        validate_policy(ok_pattern, ok_method, 30, false, &p),
        Err(PolicyError::RateNotAFraction)
    );
    let mut q = policy();
    q.min_deploys = -1;
    assert_eq!(
        validate_policy(ok_pattern, ok_method, 30, true, &q),
        Err(PolicyError::NegativeMinDeploys)
    );
    let mut q = policy();
    q.max_lead_p90_days = 0;
    assert_eq!(
        validate_policy(ok_pattern, ok_method, 30, true, &q),
        Err(PolicyError::NonPositiveLeadCeiling)
    );
    let mut q = policy();
    q.max_mttr_hours = 0;
    assert_eq!(
        validate_policy(ok_pattern, ok_method, 30, true, &q),
        Err(PolicyError::NonPositiveMttrCeiling)
    );
    let mut q = policy();
    q.max_unrestored = -1;
    assert_eq!(
        validate_policy(ok_pattern, ok_method, 30, true, &q),
        Err(PolicyError::NegativeMaxUnrestored)
    );
    assert_eq!(validate_policy(ok_pattern, ok_method, 30, true, &p), Ok(()));
}

#[test]
fn too_few_deploys_breach_the_floor() {
    let mut snap = snapshot();
    snap.deploy_count = 0;
    snap.deploys_failed = 0;
    snap.lead_p90_seconds = Some(0);
    snap.mttr_unrestored = 0;
    let found = breaches(&snap, &policy());
    assert_eq!(found.len(), 1);
    assert_eq!(found[0].rule, BreachRule::DeploysBelowMin);
    assert_eq!(found[0].observed, Measure::Count(0));
    assert_eq!(found[0].direction, Direction::Floor);
    assert_eq!(found[0].limit, Measure::Count(1));
}

#[test]
fn lead_ceiling_is_compared_in_seconds() {
    let mut snap = snapshot();
    snap.deploy_count = 1;
    snap.deploys_failed = 0;
    snap.mttr_unrestored = 0;
    snap.lead_p90_seconds = Some(30 * SECONDS_PER_DAY);
    assert!(breaches(&snap, &policy()).is_empty());
    snap.lead_p90_seconds = Some(30 * SECONDS_PER_DAY + 1);
    let found = breaches(&snap, &policy());
    assert_eq!(found.len(), 1);
    assert_eq!(found[0].observed, Measure::Seconds(30 * SECONDS_PER_DAY + 1));
    assert_eq!(found[0].limit, Measure::Seconds(30 * SECONDS_PER_DAY));
}

#[test]
fn rate_breach_reports_the_exact_ratio() {
    let found = breaches(&snapshot(), &policy());
    assert_eq!(found[0].observed, Measure::Ratio(1, 2));
    assert_eq!(found[0].limit, Measure::RateCeiling);
}

#[test]
fn breach_comparison_reads_as_one_phrase() {
    let b = Breach {
        name: "change_failure_rate".to_string(),
        observed: "1/2".to_string(),
        direction: Direction::Ceiling,
        limit: "0.150".to_string(),
    };
    assert_eq!(b.comparison(), "1/2 > 0.150");
    let b = Breach {
        name: "deploys_below_min".to_string(),
        observed: "0".to_string(),
        direction: Direction::Floor,
        limit: "1".to_string(),
    };
    assert_eq!(b.comparison(), "0 < 1");
}

#[test]
fn rule_names_are_stable() {
    assert_eq!(BreachRule::DeploysBelowMin.name(), "deploys_below_min");
    assert_eq!(BreachRule::LeadP90.name(), "lead_p90");
    assert_eq!(BreachRule::ChangeFailureRate.name(), "change_failure_rate");
    assert_eq!(BreachRule::Mttr.name(), "mttr");
    assert_eq!(BreachRule::UnrestoredDeploys.name(), "unrestored_deploys");
}
