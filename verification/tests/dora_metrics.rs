use do_harness::dora::gh::{days_from_civil, days_in_month, is_leap_year, parse_rfc3339_utc};
use do_harness::dora::git::{
    check_revert_pattern, commit_time, first_parent_rows, head_rev, is_revert_subject, is_work_tree,
    lead_scan, matching_tags, parse_tag_rows, reverts, GitErrorKind, LeadScan, Tag,
    SUPPORTED_REVERT_PATTERN,
};
use do_harness::dora::{
    incident_from, now_from_clock, percentile, plan_deploys, resolve_now, scan_deploys, DeployResult,
    Source,
};

fn tag(name: &str, rev: &str, ts: i64) -> Tag {
    Tag {
        name: name.to_string(),
        rev: rev.to_string(),
        deploy_ts: ts,
    }
}

#[test]
fn parses_gh_style_timestamps_exactly() {
    assert_eq!(parse_rfc3339_utc("1970-01-01T00:00:00Z"), Some(0));
    assert_eq!(parse_rfc3339_utc("2026-09-13T00:00:00Z"), Some(1_789_257_600));
    assert_eq!(
        parse_rfc3339_utc("2026-09-13T04:15:22Z"),
        Some(1_789_257_600 + 4 * 3_600 + 15 * 60 + 22)
    );
    assert_eq!(
        parse_rfc3339_utc("2026-09-13T04:15:22.123Z"),
        Some(1_789_257_600 + 4 * 3_600 + 15 * 60 + 22)
    );
}

#[test]
fn rejects_timestamps_it_would_mis_parse() {
    assert_eq!(parse_rfc3339_utc("2026-09-13T04:15:22+02:00"), None);
    assert_eq!(parse_rfc3339_utc("2026-09-13"), None);
    assert_eq!(parse_rfc3339_utc("2026-13-01T00:00:00Z"), None);
    assert_eq!(parse_rfc3339_utc("2026-09-13T25:00:00Z"), None);
    assert_eq!(parse_rfc3339_utc("not a date"), None);
}

#[test]
fn civil_day_arithmetic_matches_known_epochs() {
    assert_eq!(days_from_civil(1970, 1, 1), 0);
    assert_eq!(days_from_civil(1969, 12, 31), -1);
    assert_eq!(days_from_civil(2000, 3, 1), 11_017);
}

#[test]
fn leap_years_and_month_lengths_follow_the_gregorian_rules() {
    assert!(is_leap_year(2000));
    assert!(is_leap_year(2024));
    assert!(!is_leap_year(1900));
    assert!(!is_leap_year(2023));
    assert_eq!(days_in_month(2024, 2), 29);
    assert_eq!(days_in_month(2023, 2), 28);
    assert_eq!(days_in_month(2023, 4), 30);
    assert_eq!(days_in_month(2023, 12), 31);
}

#[test]
fn february_29_parses_only_in_leap_years() {
    assert_eq!(parse_rfc3339_utc("2024-02-29T00:00:00Z"), Some(1_709_164_800));
    assert_eq!(parse_rfc3339_utc("2023-02-29T00:00:00Z"), None);
    assert_eq!(parse_rfc3339_utc("2023-02-28T23:59:59Z"), Some(1_677_628_799));
}

#[test]
fn consecutive_days_are_one_day_apart() {
    assert_eq!(days_from_civil(2024, 3, 1) - days_from_civil(2024, 2, 29), 1);
    assert_eq!(days_from_civil(2023, 1, 1) - days_from_civil(2022, 12, 31), 1);
}

#[test]
fn revert_subject_predicate_is_anchored_on_the_conventional_type() {
    assert!(is_revert_subject("revert(mcp): drop the epic edit"));
    assert!(is_revert_subject("revert: drop the change"));
    assert!(!is_revert_subject("docs: explain the revert workflow"));
    assert!(!is_revert_subject("fix(mcp): follow up on the earlier revert"));
    assert!(!is_revert_subject("reverted: nope"));
}

#[test]
fn unsupported_revert_pattern_is_rejected_at_the_derivation_boundary() {
    let err = match reverts("^revert", "") {
        Ok(_) => panic!("an unsupported pattern must be rejected"),
        Err(e) => e,
    };
    assert!(err.message().contains("unsupported revert_pattern"));
}

#[test]
fn non_work_tree_is_not_a_work_tree() {
    assert!(!is_work_tree(false, ""));
    assert!(!is_work_tree(true, "false\n"));
    assert!(is_work_tree(true, "true\n"));
}

#[test]
fn supported_revert_pattern_passes_the_check() {
    assert!(check_revert_pattern(SUPPORTED_REVERT_PATTERN).is_ok());
    let err = check_revert_pattern("revert").unwrap_err();
    assert_eq!(err.kind, GitErrorKind::UnsupportedRevertPattern);
}

#[test]
fn reverts_keeps_only_anchored_subjects() {
    let out = "aaa\t100\trevert: drop it\nbbb\t200\tfix: not a revert\nccc\t300\trevert(x): again\n";
    let found = reverts(SUPPORTED_REVERT_PATTERN, out).unwrap();
    assert_eq!(
        found,
        vec![("aaa".to_string(), 100), ("ccc".to_string(), 300)]
    );
}

#[test]
fn head_rev_trims_and_rejects_empty_output() {
    assert_eq!(head_rev("  d8b4dbd\n").unwrap(), "d8b4dbd");
    assert_eq!(head_rev("\n").unwrap_err().kind, GitErrorKind::NoRevision);
}

#[test]
fn commit_time_requires_an_integer() {
    assert_eq!(commit_time("1700000000\n").unwrap(), 1_700_000_000);
    let err = commit_time("soon").unwrap_err();
    assert_eq!(err.kind, GitErrorKind::BadTimestamp);
    assert!(err.message().contains("non-numeric timestamp"));
}

#[test]
fn tag_rows_split_name_and_revision() {
    let rows = parse_tag_rows("100\tv0.1.0\t\tabc\n200\tv0.1.1\tpeeled\tdef\n").unwrap();
    assert_eq!(
        rows,
        vec![
            ("v0.1.0".to_string(), "abc".to_string()),
            ("v0.1.1".to_string(), "peeled".to_string())
        ]
    );
    let err = parse_tag_rows("100\tv0.1.0\tabc\n").unwrap_err();
    assert_eq!(err.kind, GitErrorKind::UnexpectedRow);
}

#[test]
fn first_parent_rows_parse_timestamp_and_author() {
    let rows = first_parent_rows("100\tdev@example.test\n200\tbot@example.test\n").unwrap();
    assert_eq!(
        rows,
        vec![
            (100, "dev@example.test".to_string()),
            (200, "bot@example.test".to_string())
        ]
    );
    assert!(first_parent_rows("x\ty\n").is_err());
}

#[test]
fn lead_scan_skips_bots_and_clamps_skew() {
    let rows = vec![
        (100, "dev@example.test".to_string()),
        (200, "bot@example.test".to_string()),
        (500, "dev@example.test".to_string()),
    ];
    let bots = vec!["bot@example.test".to_string()];
    let scan: LeadScan = lead_scan(&rows, 400, &bots);
    assert_eq!(scan.samples, vec![300, 0]);
    assert_eq!(scan.clock_skew_commits, 1);
    assert_eq!(scan.commits, 3);
}

#[test]
fn matching_tags_orders_by_deploy_time() {
    let tags = vec![tag("v2", "b", 200), tag("v1", "a", 100), tag("v3", "c", 300)];
    let ordered = matching_tags(tags);
    let names: Vec<&str> = ordered.iter().map(|t| t.name.as_str()).collect();
    assert_eq!(names, vec!["v1", "v2", "v3"]);
}

#[test]
fn percentile_is_nearest_rank() {
    let samples: Vec<i64> = (0..165).collect();
    assert_eq!(percentile(&samples, 50), Some(82));
    assert_eq!(percentile(&samples, 90), Some(148));
    assert_eq!(percentile(&[], 50), None);
    assert_eq!(percentile(&[7], 50), Some(7));
    assert_eq!(percentile(&[7], 90), Some(7));
}

#[test]
fn percentile_rank_uses_ceiling_division() {
    assert_eq!(percentile(&[0, 100, 200], 50), Some(100));
    assert_eq!(percentile(&[0, 100, 200], 90), Some(200));
}

#[test]
fn percentile_is_monotone_in_the_rank() {
    let samples: Vec<i64> = vec![1, 4, 9, 16, 25];
    assert!(percentile(&samples, 50).unwrap() <= percentile(&samples, 90).unwrap());
    assert_eq!(percentile(&samples, 0), Some(1));
    assert_eq!(percentile(&samples, 100), Some(25));
    assert_eq!(percentile(&samples, 101), None);
}

#[test]
fn resolve_now_prefers_the_explicit_clock() {
    assert_eq!(resolve_now(Some(42)), 42);
    assert!(resolve_now(None) > 1_700_000_000);
}

#[test]
fn clock_readings_saturate_and_floor() {
    assert_eq!(now_from_clock(Some(5)), 5);
    assert_eq!(now_from_clock(Some(u64::MAX)), i64::MAX);
    assert_eq!(now_from_clock(None), 0);
}

#[test]
fn source_labels_are_stable() {
    assert_eq!(Source::Git.label(), "git");
    assert_eq!(Source::Gh.label(), "gh");
}

#[test]
fn incident_without_a_following_tag_is_unrestored() {
    let tags = vec![tag("v0.1.0", "a", 100)];
    let incident = incident_from(&tags, "f".to_string(), 200);
    assert_eq!(incident.restored_by, None);
    assert_eq!(incident.restore_ts, None);
}

#[test]
fn incident_is_restored_by_the_first_later_tag() {
    let tags = vec![tag("v1", "a", 100), tag("v2", "b", 300), tag("v3", "c", 400)];
    let incident = incident_from(&tags, "f".to_string(), 200);
    assert_eq!(incident.restored_by, Some("v2".to_string()));
    assert_eq!(incident.restore_ts, Some(300));
    // A tag at exactly the revert time does not restore it.
    let incident = incident_from(&tags, "g".to_string(), 300);
    assert_eq!(incident.restored_by, Some("v3".to_string()));
}

#[test]
fn plans_cover_only_in_window_deploys() {
    let tags = vec![tag("v1", "a", 100), tag("v2", "b", 200), tag("v3", "c", 300)];
    let plans = plan_deploys(&tags, 150, 300);
    assert_eq!(plans.len(), 2);
    assert_eq!(plans[0].index, 1);
    assert_eq!(plans[0].previous, Some("v1".to_string()));
    assert_eq!(plans[0].range, "v1..v2");
    assert_eq!(plans[0].failure_range, "v2..v3");
    assert_eq!(plans[1].index, 2);
    assert_eq!(plans[1].failure_range, "v3..HEAD");
}

#[test]
fn scan_counts_failed_deploys_and_dedups_incidents() {
    let tags = vec![tag("v1", "a", 100), tag("v2", "b", 200)];
    let results = vec![
        DeployResult {
            lead: LeadScan {
                samples: vec![10, 20],
                clock_skew_commits: 0,
                commits: 2,
            },
            reverts: vec![("r1".to_string(), 150)],
        },
        DeployResult {
            lead: LeadScan {
                samples: vec![5],
                clock_skew_commits: 1,
                commits: 1,
            },
            reverts: vec![],
        },
    ];
    let scan = scan_deploys(&tags, 0, 300, results);
    assert_eq!(scan.ranges.len(), 2);
    assert_eq!(scan.samples, vec![10, 20, 5]);
    assert_eq!(scan.clock_skew_commits, 1);
    assert_eq!(scan.deploys_failed, 1);
    assert_eq!(scan.incidents.len(), 1);
    assert_eq!(scan.incidents[0].restored_by, Some("v2".to_string()));
}
