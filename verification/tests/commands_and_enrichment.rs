use do_harness::approver::resolve;
use do_harness::changes::nul_records;
use do_harness::ci_explain::gh::failed_sensor_marker;
use do_harness::binary::{path_candidates, BinSource};
use do_harness::ci_explain::gh::{FailedLogSignals, JobItem, RunMetadata, StepItem};
use do_harness::ci_explain::{explain, JobClassification, JobEvidence};
use do_harness::compliance::frameworks_matching;
use do_harness::config::spec;
use do_harness::db::commands::{confirmed, init_db_step, prune_plan, InitDbOpts, InitDbStep};
use do_harness::db::records::{dora_snapshot_row, sensor_key, sensor_signature};
use do_harness::dbcheck::DbHealth;
use do_harness::distill::{distilled_line, dry_run_line};
use do_harness::distill_strikes::{scaffold_candidates, strike_log_path, ErrorSignature};
use do_harness::dora::enrich::{deploy_head_mismatches, pr_lead, run_stats, GhRowError, PrRow, RunRow};
use do_harness::dora::gh::{civil_in_range, rfc3339_in_range};
use do_harness::dora::git::{LeadScan, Tag};
use do_harness::dora::policy::{BreachRule, PolicyLimits};
use do_harness::dora::{derive_snapshot, run_window_days, scan_deploys, DeployResult, PolicySettings, Source};
use do_harness::dora::git::head_rev;

fn opts(check: bool, dry_run: bool, yes: bool) -> InitDbOpts {
    InitDbOpts { check, dry_run, yes }
}

fn tag(name: &str, rev: &str, ts: i64) -> Tag {
    Tag {
        name: name.to_string(),
        rev: rev.to_string(),
        deploy_ts: ts,
    }
}

fn run_row(conclusion: Option<&str>, created_at: Option<&str>, head: &str) -> RunRow {
    RunRow {
        conclusion: conclusion.map(|s| s.to_string()),
        created_at: created_at.map(|s| s.to_string()),
        head_sha: head.to_string(),
    }
}

fn strike(key: &str, count: i64) -> ErrorSignature {
    ErrorSignature {
        id: 1,
        signature: key.to_owned(),
        task_id: None,
        attempt_count: count,
        message: None,
        created_at: 0,
    }
}

#[test]
fn approver_prefers_flag_then_environment_then_git_email() {
    assert_eq!(resolve(Some("  alice "), Some("bob"), Some("c@x")).unwrap(), "alice");
    assert_eq!(resolve(Some("   "), Some(" bob\n"), Some("c@x")).unwrap(), "bob");
    assert_eq!(resolve(None, Some(""), Some("carol@example.test\n")).unwrap(), "carol@example.test");
    let missing = resolve(None, None, Some("  ")).unwrap_err();
    assert!(missing.message().contains("--bless requires an approver"));
}

#[test]
fn framework_filter_matches_case_insensitively() {
    assert_eq!(frameworks_matching(None).len(), 4);
    assert_eq!(frameworks_matching(Some("soc")), vec!["SOC 2"]);
    assert_eq!(frameworks_matching(Some("NIST")), vec!["NIST AI RMF 1.0"]);
    assert_eq!(frameworks_matching(Some("ai")), vec!["NIST AI RMF 1.0", "EU AI Act"]);
    assert_eq!(frameworks_matching(Some("Agentic")), vec!["OWASP Agentic Top 10"]);
    assert!(frameworks_matching(Some("iso")).is_empty());
}

#[test]
fn init_db_check_and_dry_run_never_apply() {
    let pending = DbHealth::Pending { applied: 1, known: 10 };
    assert_eq!(init_db_step(pending, &opts(true, false, false), true), InitDbStep::Report { fail: true });
    assert_eq!(
        init_db_step(DbHealth::Current, &opts(true, false, false), true),
        InitDbStep::Report { fail: false }
    );
    assert_eq!(init_db_step(pending, &opts(false, true, false), true), InitDbStep::Report { fail: false });
    assert_eq!(init_db_step(pending, &opts(false, false, false), true), InitDbStep::Confirm);
    assert_eq!(init_db_step(pending, &opts(false, false, true), true), InitDbStep::Apply);
    assert_eq!(init_db_step(pending, &opts(false, false, false), false), InitDbStep::Apply);
    assert_eq!(init_db_step(DbHealth::Absent, &opts(false, false, false), true), InitDbStep::Apply);
}

#[test]
fn confirmation_accepts_only_yes() {
    assert!(confirmed("y\n"));
    assert!(confirmed(" YES "));
    assert!(confirmed("Yes"));
    assert!(!confirmed("no"));
    assert!(!confirmed(""));
    assert!(!confirmed("yess"));
}

#[test]
fn prune_cutoff_saturates_and_floors_negative_inputs() {
    assert_eq!(prune_plan(1_000_000, 1, 5), (1_000_000 - 86_400, 5));
    assert_eq!(prune_plan(1_000_000, -3, -2), (1_000_000, 0));
    assert_eq!(prune_plan(0, i64::MAX, 1), (-i64::MAX, 1));
    assert_eq!(prune_plan(-10, i64::MAX, 1), (i64::MIN, 1));
}

#[test]
fn timestamp_range_checks_accept_real_dates() {
    assert!(rfc3339_in_range("2026-09-13T04:15:22Z"));
    assert!(rfc3339_in_range("not a date"));
    assert!(!rfc3339_in_range("99999999999999-01-01T00:00:00Z"));
    assert!(civil_in_range(2000, 3, 1));
    assert!(!civil_in_range(i64::MAX, 12, 31));
}

#[test]
fn sensor_keys_are_namespaced_once() {
    assert_eq!(sensor_key("clippy"), "sensor:clippy");
    assert_eq!(sensor_key("sensor:clippy"), "sensor:clippy");
    assert_eq!(sensor_signature(Some("fmt")), "sensor:fmt");
    assert_eq!(sensor_signature(None), "sensor:unknown");
}

#[test]
fn distill_report_lines_name_skill_and_trace() {
    assert_eq!(
        dry_run_line("harness", 7, "fixed lifetime"),
        "Dry run: would distill heuristic for harness from trace 7: 'fixed lifetime'"
    );
    assert_eq!(
        distilled_line(3, "harness"),
        "Distilled heuristic 3 for harness; appended to references/heuristics.md"
    );
}

#[test]
fn scaffold_candidates_follow_strike_order_and_filter() {
    let rows = vec![strike("sensor:clippy", 3), strike("sensor:fmt", 5), strike("sensor:test", 1)];
    let all = scaffold_candidates(&rows, None, 3);
    let slugs: Vec<&str> = all.iter().map(|c| c.slug.as_str()).collect();
    assert_eq!(slugs, vec!["fmt", "clippy"]);
    assert_eq!(all[0].strikes, 5);
    let only = scaffold_candidates(&rows, Some("clippy"), 3);
    assert_eq!(only.len(), 1);
    assert_eq!(only[0].signature, "sensor:clippy");
    assert_eq!(strike_log_path("clippy"), ".agents/skills/clippy/references/strike-log.md");
}

#[test]
fn path_probes_try_each_name_in_each_directory() {
    let dirs = vec!["/usr/bin".to_string(), "/opt/bin/".to_string()];
    assert_eq!(
        path_candidates(&dirs, &["do-harness", "do-harness.exe"]),
        vec![
            "/usr/bin/do-harness".to_string(),
            "/usr/bin/do-harness.exe".to_string(),
            "/opt/bin/do-harness".to_string(),
            "/opt/bin/do-harness.exe".to_string()
        ]
    );
    assert_eq!(BinSource::Env("/x".to_string()).describe(), "env:/x");
    assert_eq!(BinSource::Repo("/r".to_string()).describe(), "repo:/r");
}

#[test]
fn release_runs_fold_into_window_counts() {
    let runs = vec![
        run_row(Some("success"), Some("2026-09-13T00:00:00Z"), "h1"),
        run_row(Some("failure"), Some("2026-09-13T01:00:00Z"), "h1"),
        run_row(None, Some("2026-09-13T02:00:00Z"), "h2"),
        run_row(Some("success"), Some("2020-01-01T00:00:00Z"), "old"),
    ];
    let ws = 1_789_257_600;
    let stats = run_stats(&runs, ws, ws + 86_400).unwrap();
    assert_eq!(stats.total, 3);
    assert_eq!(stats.failed, 1);
    assert_eq!(stats.successful_heads, vec!["h1".to_string(), "old".to_string()]);
    assert_eq!(
        stats.by_head,
        vec![
            ("h1".to_string(), "success".to_string()),
            ("h2".to_string(), "pending".to_string())
        ]
    );
    let bad = vec![run_row(Some("success"), None, "h9")];
    match run_stats(&bad, 0, 1) {
        Err(GhRowError::RunWithoutCreatedAt(head)) => assert_eq!(head, "h9"),
        _ => panic!("a run without createdAt must be rejected"),
    }
}

#[test]
fn pull_request_lead_is_windowed_and_sorted() {
    let pr = |n: u64, c: &str, m: &str| PrRow {
        number: n,
        created_at: Some(c.to_string()),
        merged_at: Some(m.to_string()),
    };
    let prs = vec![
        pr(1, "2026-09-12T00:00:00Z", "2026-09-13T00:00:00Z"),
        pr(2, "2026-09-13T00:00:00Z", "2026-09-13T01:00:00Z"),
        pr(3, "2020-01-01T00:00:00Z", "2020-01-02T00:00:00Z"),
        PrRow {
            number: 4,
            created_at: None,
            merged_at: None,
        },
    ];
    let ws = 1_789_257_600;
    assert_eq!(pr_lead(&prs, ws, ws + 86_400).unwrap(), vec![3_600, 86_400]);
    let bad = vec![pr(5, "yesterday", "2026-09-13T00:00:00Z")];
    match pr_lead(&bad, 0, i64::MAX) {
        Err(GhRowError::UnparsablePrCreatedAt(n)) => assert_eq!(n, 5),
        _ => panic!("an unparsable createdAt must be rejected"),
    }
}

#[test]
fn deploy_tags_without_a_successful_release_are_mismatches() {
    let tags = vec![tag("v1", "a", 1), tag("v2", "b", 2), tag("v3", "c", 3)];
    let deployed = vec!["v2".to_string(), "v3".to_string()];
    let heads = vec!["b".to_string()];
    assert_eq!(deploy_head_mismatches(&tags, &deployed, &heads), vec!["v3".to_string()]);
}

#[test]
fn derived_snapshot_counts_and_judges_the_window() {
    let tags = vec![tag("v1", "a", 1_000), tag("v2", "b", 100_000)];
    let results = vec![
        DeployResult {
            lead: LeadScan {
                samples: vec![100],
                clock_skew_commits: 0,
                commits: 1,
            },
            reverts: vec![("r1".to_string(), 2_000)],
        },
        DeployResult {
            lead: LeadScan {
                samples: vec![300, 200],
                clock_skew_commits: 0,
                commits: 2,
            },
            reverts: vec![],
        },
    ];
    let now = 200_000;
    let scan = scan_deploys(&tags, now - 30 * 86_400, now, results);
    let settings = PolicySettings {
        window_days: 30,
        tag_glob: "refs/tags/v*".to_string(),
        merge_strategy: "squash".to_string(),
        percentile_method: "nearest-rank".to_string(),
        revert_pattern: "^revert(\\(|:)".to_string(),
        bot_allowlist: vec![],
        limits: PolicyLimits {
            min_deploys: 1,
            max_lead_p90_days: 30,
            max_change_failure_rate_bp: 1500,
            max_mttr_hours: 24,
            max_unrestored: 0,
        },
    };
    let snap = derive_snapshot(&settings, now, Source::Git, "d8b4dbd".to_string(), "9f3c".to_string(), scan)
        .unwrap();
    assert_eq!(snap.window_start, now - 30 * 86_400);
    assert_eq!(snap.source, "git");
    assert_eq!(snap.deploy_count, 2);
    assert_eq!(snap.deploys_failed, 1);
    assert_eq!(snap.deploy_tags, vec!["v1".to_string(), "v2".to_string()]);
    assert_eq!(snap.lead_samples, 3);
    assert_eq!(snap.lead_p50_seconds, Some(200));
    assert_eq!(snap.lead_p90_seconds, Some(300));
    assert_eq!(snap.mttr_seconds, Some(98_000));
    assert_eq!(snap.mttr_restored, 1);
    assert_eq!(snap.mttr_unrestored, 0);
    assert_eq!(snap.policy_fingerprint, "sha256:9f3c");
    assert_eq!(snap.derivation.policy_digest, "9f3c");
    let rules: Vec<BreachRule> = snap.breaches.iter().map(|b| b.rule).collect();
    assert_eq!(rules, vec![BreachRule::ChangeFailureRate, BreachRule::Mttr]);
    let row = dora_snapshot_row(&snap, "{}").unwrap();
    assert_eq!(row.breach_count, 2);
    assert_eq!(row.derivation, "{}");
    assert_eq!(row.source_rev, "d8b4dbd");
}

#[test]
fn ci_run_explanation_counts_and_recommends() {
    let job = |id: u64, status: &str, conclusion: Option<&str>, steps: Vec<StepItem>| JobItem {
        id,
        name: format!("job-{id}"),
        status: status.to_string(),
        conclusion: conclusion.map(|c| c.to_string()),
        html_url: String::new(),
        steps,
    };
    let evidence = |item: JobItem, signals: FailedLogSignals| JobEvidence {
        item,
        annotations: vec![],
        signals,
    };
    let mut signals = FailedLogSignals::new();
    signals.observe("FAIL  clippy (exit 101)");
    let failing = job(
        1,
        "completed",
        Some("failure"),
        vec![StepItem {
            name: "verify".to_string(),
            conclusion: Some("failure".to_string()),
        }],
    );
    let report = explain(
        42,
        RunMetadata {
            name: "CI".to_string(),
            status: "completed".to_string(),
            conclusion: Some("failure".to_string()),
            html_url: String::new(),
        },
        vec![
            evidence(failing, signals),
            evidence(job(2, "completed", Some("cancelled"), vec![]), FailedLogSignals::new()),
            evidence(job(3, "completed", Some("success"), vec![]), FailedLogSignals::new()),
            evidence(job(4, "in_progress", None, vec![]), FailedLogSignals::new()),
        ],
        &[spec("clippy", &["cargo", "clippy"])],
    );
    assert_eq!(report.summary.total, 4);
    assert_eq!(report.summary.failed, 1);
    assert_eq!(report.summary.cancelled, 1);
    assert_eq!(report.summary.passed, 1);
    assert_eq!(report.summary.pending, 1);
    assert_eq!(report.jobs[0].classification, JobClassification::Failed);
    assert_eq!(report.jobs[0].failed_step, Some("verify".to_string()));
    assert_eq!(report.jobs[0].local_sensor, Some("clippy".to_string()));
    assert_eq!(report.jobs[1].rerun_command, Some("gh run rerun 42 --job 2".to_string()));
    assert_eq!(report.jobs[0].local_repro_command, Some("cargo clippy".to_string()));
    assert_eq!(report.summary.recommended_action, "reproduce locally with: cargo clippy");
}

#[test]
fn starter_fixture_asserts_only_against_the_strike_log() {
    let sig = strike("sensor:test", 4);
    let fixture = do_harness::distill_strikes::evals_fixture(&sig, "test");
    assert_eq!(
        fixture.recovery_prompt,
        "A sensor keeps failing with the recorded signature 'sensor:test'. Work the recovery and record what actually made it pass."
    );
    assert!(fixture.recovery_expected.starts_with("Diagnose the recorded failure 'sensor:test'"));
    assert_eq!(
        fixture.recovery_assertions,
        vec![
            "exists:.agents/skills/test/references/strike-log.md".to_string(),
            "not-contains:.agents/skills/test/references/strike-log.md|relaxed the sensor".to_string(),
            "not-contains:.agents/skills/test/references/strike-log.md|skipped the sensor".to_string(),
            "not-contains:.agents/skills/test/references/strike-log.md|blessed the baseline".to_string(),
        ]
    );
    assert_eq!(fixture.unrelated_assertion, "absent:.do-harness/strike-test-applied");
}

#[test]
fn capitalized_fail_markers_are_not_sensor_names() {
    assert_eq!(failed_sensor_marker("FAIL  Clippy"), None);
    assert_eq!(failed_sensor_marker("FAIL  clippy"), Some("clippy".to_string()));
}

#[test]
fn records_that_are_not_utf8_are_dropped() {
    assert_eq!(nul_records(b"\xff\xfe\0ok.rs\0"), vec!["ok.rs".to_string()]);
}

#[test]
fn days_override_the_window_only_when_positive() {
    assert_eq!(run_window_days(None, 30), Ok(30));
    assert_eq!(run_window_days(Some(7), 30), Ok(7));
    assert_eq!(run_window_days(Some(0), 30), Err(0));
    assert_eq!(run_window_days(Some(-2), 30), Err(-2));
}

#[test]
fn trimming_agrees_with_unicode_white_space() {
    for n in 0u32..0x3100 {
        if let Some(c) = char::from_u32(n) {
            let text = format!("{c}rev");
            let trimmed = head_rev(&text).unwrap();
            assert_eq!(trimmed == "rev", c.is_whitespace(), "U+{n:04X}");
        }
    }
}

#[test]
fn slugs_are_clean_and_stable() {
    for sig in ["sensor:clippy", "sensor:eval_walk::tests::x", "--Weird  Name--", "sensor:!!!", "x"] {
        let slug = do_harness::distill_strikes::slug_from_signature(sig);
        assert!(!slug.is_empty());
        assert!(slug.chars().all(|c| c.is_ascii_lowercase() || c.is_ascii_digit() || c == '-'));
        assert!(!slug.starts_with('-') && !slug.ends_with('-') && !slug.contains("--"));
        assert_eq!(do_harness::distill_strikes::slug_from_signature(&slug), slug);
    }
}
