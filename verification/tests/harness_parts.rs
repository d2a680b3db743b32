use sha2::Digest;
use do_harness::artifacts::{
    is_under_git_dir, literal_prefix, resolve, walk_descends, walk_keeps_entry, walk_plan, WalkedFile,
};
use do_harness::audit::{audit_chain, ChainLink, ChainReport};
use do_harness::baselines::{BlessOutcome, Baselines};
use do_harness::binary::{binary_names, is_target_dir_path, resolve_binary_with_names, BinSource};
use do_harness::ci_explain::gh::{failed_sensor_marker, is_error_line, FailedLogSignals};
use do_harness::ci_explain::map::{parse_run_id, RunIdError};
use do_harness::compliance::{filter_catalog, Catalog, Control, Framework, Mapping};
use do_harness::db::error::{after_failure, is_busy_code, is_constraint_code, RetryStep, SQLITE_BUSY, SQLITE_CONSTRAINT};
use do_harness::db::migrate::{
    inspect_skew, known_max_version, migrations, plan_migrations, MigrateError, MigrationSkew,
};
use do_harness::db::root::{db_path, find_harness_root, RootMarkers, RootProbe};
use do_harness::dbcheck::{classify, DbHealth};
use do_harness::digest::content_digest;
use do_harness::distill::{distill_step, DistillFacts, DistillRefusal, DistillStep};
use do_harness::distill_strikes::{
    outcome_line, render_skill_md, scaffold_outcome, slug_from_signature, striking_signatures,
    ErrorSignature, ScaffoldAction,
};
use do_harness::doctor::{doctor_failures, doctor_verdict, DbProbe, DoctorFacts};

fn signature(key: &str, count: i64) -> ErrorSignature {
    ErrorSignature {
        id: 1,
        signature: key.to_owned(),
        task_id: None,
        attempt_count: count,
        message: Some("boom".to_owned()),
        created_at: 1_789_430_400,
    }
}

fn markers(config: bool, agents: bool, state_dir: bool, invariants: bool) -> RootMarkers {
    RootMarkers {
        config,
        agents,
        state_dir,
        invariants,
    }
}

fn probe(dir: &str, m: RootMarkers) -> RootProbe {
    RootProbe {
        dir: dir.to_string(),
        markers: m,
    }
}

fn sha256_hex(bytes: &[u8]) -> String {
    hex::encode(sha2::Sha256::digest(bytes))
}

#[test]
fn binary_names_include_cargo_exe_on_windows() {
    assert_eq!(binary_names(true), ["do-harness", "do-harness.exe"]);
}

#[test]
fn binary_names_are_extensionless_off_windows() {
    assert_eq!(binary_names(false), ["do-harness"]);
}

#[test]
fn is_target_dir_path_detects_target_component() {
    assert!(is_target_dir_path("/home/user/project/target/release/do-harness"));
    assert!(is_target_dir_path("target/release/do-harness"));
    assert!(!is_target_dir_path("/usr/local/bin/do-harness"));
    assert!(!is_target_dir_path("/home/user/.cargo/bin/do-harness"));
}

#[test]
fn bin_source_is_in_target_dir() {
    let bin = "/repo/target/release/do-harness".to_string();
    assert!(BinSource::Repo(bin.clone()).is_in_target_dir());
    assert!(BinSource::Env(bin.clone()).is_in_target_dir());
    assert!(BinSource::Path(bin).is_in_target_dir());

    let cargo_bin = "/home/user/.cargo/bin/do-harness".to_string();
    assert!(!BinSource::Path(cargo_bin).is_in_target_dir());
}

#[test]
fn resolve_prefers_env_bin() {
    let names = binary_names(false);
    let source = resolve_binary_with_names(
        "/repo",
        Some("/tmp/envbin".to_string()),
        true,
        Some("/usr/bin/do-harness".to_string()),
        &names,
    );
    assert_eq!(source, BinSource::Env("/tmp/envbin".to_string()));
}

#[test]
fn resolution_falls_back_to_path_then_repo() {
    let names = binary_names(true);
    let source = resolve_binary_with_names(
        "/repo",
        Some("/tmp/envbin".to_string()),
        false,
        Some("/usr/bin/do-harness".to_string()),
        &names,
    );
    assert_eq!(source, BinSource::Path("/usr/bin/do-harness".to_string()));
    let source = resolve_binary_with_names("/repo", None, false, None, &names);
    assert_eq!(
        source,
        BinSource::Repo("/repo/target/release/do-harness.exe".to_string())
    );
    assert!(source.present(true));
    assert!(!source.present(false));
}

#[test]
fn bless_initializes_and_only_lowers() {
    let mut baselines = Baselines::default();
    assert_eq!(baselines.bless("ux", 12), BlessOutcome::Initialized(12));
    assert_eq!(baselines.get("ux"), Some(12));
    assert_eq!(baselines.bless("ux", 12), BlessOutcome::Unchanged(12));
    assert_eq!(
        baselines.bless("ux", 20),
        BlessOutcome::Refused {
            baseline: 12,
            observed: 20
        }
    );
    assert_eq!(baselines.get("ux"), Some(12), "a raise must be refused");
    assert_eq!(
        baselines.bless("ux", 3),
        BlessOutcome::Lowered { from: 12, to: 3 }
    );
    assert_eq!(baselines.get("ux"), Some(3));
}

#[test]
fn baselines_keep_names_sorted() {
    let mut baselines = Baselines::new();
    baselines.set("zeta".to_string(), 1);
    baselines.set("alpha".to_string(), 2);
    baselines.set("zeta".to_string(), 5);
    assert_eq!(baselines.len(), 2);
    assert_eq!(baselines.entry(0).0, "alpha");
    assert_eq!(baselines.entry(1), (&"zeta".to_string(), 5));
    assert_eq!(baselines.get("missing"), None);
}

#[test]
fn test_filter_catalog_by_framework() {
    let control = |id: &str, fws: &[&str]| Control {
        id: id.to_string(),
        name: id.to_string(),
        mechanism: "sensor".to_string(),
        frameworks: fws
            .iter()
            .map(|f| Mapping {
                framework: f.to_string(),
                category: "c".to_string(),
            })
            .collect(),
    };
    let catalog = || Catalog {
        catalog_version: 1,
        controls: vec![
            control("a", &["owasp-agentic-top10", "soc2"]),
            control("b", &["nist-ai-rmf"]),
            control("c", &["eu-ai-act", "nist-ai-rmf"]),
        ],
    };
    for fw in [
        Framework::OwaspAgenticTop10,
        Framework::NistAiRmf,
        Framework::EuAiAct,
        Framework::Soc2,
    ] {
        let filtered = filter_catalog(catalog(), Some(fw));
        assert_eq!(filtered.catalog_version, 1);
        assert!(!filtered.controls.is_empty(), "framework {:?} had no controls", fw);
        for control in &filtered.controls {
            assert!(control.frameworks.iter().any(|m| m.framework == fw.slug()));
        }
    }
    let nist = filter_catalog(catalog(), Some(Framework::NistAiRmf));
    let ids: Vec<&str> = nist.controls.iter().map(|c| c.id.as_str()).collect();
    assert_eq!(ids, vec!["b", "c"]);
    assert_eq!(filter_catalog(catalog(), None).controls.len(), 3);
}

#[test]
fn striking_filters_and_sorts_by_strikes() {
    let rows = vec![
        signature("sensor:clippy", 1),
        signature("sensor:test", 3),
        signature("sensor:fmt", 5),
    ];
    let striking = striking_signatures(&rows, 3);
    assert_eq!(striking.len(), 2);
    assert_eq!(striking[0].signature, "sensor:fmt");
    assert_eq!(striking[1].signature, "sensor:test");
}

#[test]
fn slug_strips_sensor_namespace_and_unsafe_chars() {
    assert_eq!(slug_from_signature("sensor:clippy"), "clippy");
    assert_eq!(
        slug_from_signature("sensor:eval_walk::tests::x"),
        "eval-walk-tests-x"
    );
    assert!(!slug_from_signature("!!!").is_empty());
    assert_eq!(slug_from_signature("sensor:!!!"), "sensor-strike");
}

#[test]
fn rendered_skill_md_carries_the_recorded_evidence() {
    let sig = signature("sensor:test", 4);
    let md = render_skill_md(&sig, "test");
    assert!(md.contains("name: test"));
    assert!(md.contains("`sensor:test`"));
    assert!(md.contains("Consecutive strikes: 4"));
    assert!(md.contains("boom"));
}

#[test]
fn scaffold_skips_existing_skills_and_dry_runs_write_nothing() {
    let existing = scaffold_outcome("/repo", "clippy".to_string(), 3, true, false);
    assert_eq!(existing.action, ScaffoldAction::ExistingSkill);
    assert!(existing.files.is_empty());
    assert!(!existing.written());
    let dry = scaffold_outcome("/repo", "shell".to_string(), 4, false, true);
    assert_eq!(dry.action, ScaffoldAction::WouldWrite);
    assert_eq!(
        dry.files,
        vec![
            "/repo/.agents/skills/shell/SKILL.md".to_string(),
            "/repo/.agents/skills/shell/evals/evals.json".to_string()
        ]
    );
    assert_eq!(outcome_line(&dry), "would scaffold shell (4 strike(s))");
    let wrote = scaffold_outcome("/repo", "shell".to_string(), 4, false, false);
    assert!(wrote.written());
    assert_eq!(ScaffoldAction::Wrote.label(), "wrote");
}

#[test]
fn migration_catalog_is_strictly_ascending() {
    let catalog = migrations();
    assert!(!catalog.is_empty());
    for pair in catalog.windows(2) {
        assert!(
            pair[0].version < pair[1].version,
            "catalog out of order: {} ({}) then {} ({})",
            pair[0].version,
            pair[0].name,
            pair[1].version,
            pair[1].name
        );
    }
    assert_eq!(known_max_version(), catalog[catalog.len() - 1].version);
}

#[test]
fn migration_plan_applies_only_missing_versions() {
    let plan = plan_migrations(&[1, 2, 3]).unwrap();
    assert_eq!(plan.len(), migrations().len() - 3);
    assert_eq!(plan[0].version, 4);
    assert!(plan_migrations(&[]).unwrap().len() == migrations().len());
    match plan_migrations(&[9999]) {
        Err(MigrateError::FutureDatabase { applied, known_max }) => {
            assert_eq!(applied, 9999);
            assert_eq!(known_max, known_max_version());
        }
        _ => panic!("a database from a newer binary must be refused"),
    }
}

#[test]
fn skew_classifies_database_health() {
    let known = known_max_version();
    assert_eq!(classify(false, &inspect_skew(false, &[])), DbHealth::Absent);
    assert_eq!(classify(true, &inspect_skew(false, &[])), DbHealth::Uninitialized);
    let pending = inspect_skew(true, &[1]);
    assert!(pending.is_pending());
    assert_eq!(
        classify(true, &pending),
        DbHealth::Pending {
            applied: 1,
            known
        }
    );
    let future = MigrationSkew {
        applied_max: Some(9999),
        known_max: known,
        missing: true,
    };
    assert!(future.is_future());
    assert!(!future.is_pending());
    assert!(classify(true, &future).is_blocking());
    let every: Vec<i64> = (1..=known).collect();
    let current = inspect_skew(true, &every);
    assert_eq!(classify(true, &current), DbHealth::Current);
    assert!(!DbHealth::Current.is_blocking());
    assert_eq!(DbHealth::Current.render().0, "OK");
    assert_eq!(classify(true, &future).render().0, "FAIL");
}

#[test]
fn a_missing_lower_migration_is_pending_not_current() {
    let applied: Vec<i64> = vec![1, 2, 3, 4, 5, 6, 7, 8, 10];
    let skew = inspect_skew(true, &applied);
    assert_eq!(skew.applied_max, Some(10));
    assert!(skew.missing);
    assert!(skew.is_pending());
    assert_eq!(
        classify(true, &skew),
        DbHealth::Pending {
            applied: 10,
            known: 10
        }
    );
    let all: Vec<i64> = (1..=10).collect();
    assert!(!inspect_skew(true, &all).missing);
    assert_eq!(classify(true, &inspect_skew(true, &all)), DbHealth::Current);
}

#[test]
fn libsql_errors_map_by_constraint_code() {
    assert!(is_constraint_code(SQLITE_CONSTRAINT));
    // An extended constraint code still maps after masking to the primary code.
    assert!(is_constraint_code(SQLITE_CONSTRAINT | (1 << 8)));
    assert!(!is_constraint_code(1));
}

#[test]
fn busy_is_transient_and_other_errors_are_not() {
    assert!(is_busy_code(SQLITE_BUSY));
    assert!(is_busy_code(SQLITE_BUSY | (2 << 8)));
    assert!(!is_busy_code(SQLITE_CONSTRAINT));
}

#[test]
fn busy_failures_retry_with_progressive_backoff() {
    assert_eq!(after_failure(0, 3, true), RetryStep::RetryAfterMillis(10));
    assert_eq!(after_failure(1, 3, true), RetryStep::RetryAfterMillis(20));
    assert_eq!(after_failure(2, 3, true), RetryStep::Fail);
    assert_eq!(after_failure(0, 3, false), RetryStep::Fail);
}

#[test]
fn find_harness_root_detects_config_marker() {
    let ancestors = vec![
        probe("/w/a/b", markers(false, false, false, false)),
        probe("/w/a", markers(false, false, false, false)),
        probe("/w", markers(true, false, false, false)),
    ];
    assert_eq!(find_harness_root(&ancestors).unwrap(), "/w");
}

#[test]
fn find_harness_root_requires_agents_with_state_or_plans() {
    let agents_only = vec![
        probe("/w/sub", markers(false, false, false, false)),
        probe("/w", markers(false, true, false, false)),
    ];
    assert!(find_harness_root(&agents_only).is_err());
    let with_plans = vec![
        probe("/w/sub", markers(false, false, false, false)),
        probe("/w", markers(false, true, false, true)),
    ];
    assert_eq!(find_harness_root(&with_plans).unwrap(), "/w");
}

#[test]
fn find_harness_root_rejects_plain_directory() {
    let plain = vec![probe("/tmp/x", markers(false, false, false, false))];
    assert!(find_harness_root(&plain).is_err());
    assert_eq!(db_path("/w"), "/w/.do-harness/agent_state.db");
}

#[test]
fn resolves_globs_to_sorted_digests() {
    let walked = vec![
        walked_file("out", "out/nested/a.png", true, Some(b"ay")),
        walked_file("out", "out/b.png", true, Some(b"bee")),
        walked_file("out", "out/keep.txt", true, Some(b"no")),
    ];
    let artifacts = resolve(&["out/**/*.png".to_owned()], walked);
    let paths: Vec<&str> = artifacts.iter().map(|a| a.path.as_str()).collect();
    assert_eq!(paths, vec!["out/b.png", "out/nested/a.png"]);
    assert_eq!(artifacts[0].sha256, sha256_hex(b"bee"), "digest must hash file bytes");
}

#[test]
fn invalid_glob_is_ignored() {
    let walked = vec![walked_file("", "a", true, None)];
    assert!(resolve(&["[unclosed".to_owned()], walked).is_empty());
    assert_eq!(walk_plan(&["[unclosed".to_owned()]), None);
}

fn walked_file(start: &str, path: &str, regular: bool, contents: Option<&[u8]>) -> WalkedFile {
    WalkedFile {
        start: start.to_string(),
        path: path.to_string(),
        regular,
        contents: contents.map(|b| b.to_vec()),
    }
}

#[test]
fn git_directories_and_non_regular_entries_are_left_out() {
    let walked = vec![
        walked_file("", ".git/objects/a.png", true, Some(b"obj")),
        walked_file("", "sub/.git/b.png", true, Some(b"obj")),
        walked_file("", "link.png", false, None),
        walked_file("", "c.png", true, Some(b"see")),
        walked_file("", "sub/.git", true, Some(b"gitfile")),
    ];
    let artifacts = resolve(&["**/*.png".to_owned(), "**/.git".to_owned()], walked);
    let paths: Vec<&str> = artifacts.iter().map(|a| a.path.as_str()).collect();
    assert_eq!(paths, vec!["c.png", "sub/.git"]);
    assert_eq!(artifacts[0].sha256, sha256_hex(b"see"));
}

#[test]
fn the_walk_skips_only_git_directories() {
    assert!(!walk_descends(".git"));
    assert!(walk_descends("src"));
    assert!(walk_descends(".github"));
    assert!(is_under_git_dir("a/.git/x"));
    assert!(is_under_git_dir(".git/HEAD"));
    assert!(!is_under_git_dir(".git"));
    assert!(!is_under_git_dir("a/.gitignore"));
}

#[test]
fn a_walk_started_inside_git_keeps_what_lies_below_its_start() {
    assert!(walk_keeps_entry(&walked_file(".git/hooks", ".git/hooks/pre-commit", true, None)));
    assert!(walk_keeps_entry(&walked_file(".git", ".git/objects/x", true, None)));
    assert!(!walk_keeps_entry(&walked_file("a", "a/.git/objects/x", true, None)));
    assert!(!walk_keeps_entry(&walked_file("out", "other/x", true, None)));
    assert!(!walk_keeps_entry(&walked_file("out", "outside", true, None)));
    assert!(walk_keeps_entry(&walked_file("out", "out/x", true, None)));
    assert!(!walk_keeps_entry(&walked_file("out", "out/x", false, None)));
}

#[test]
fn walk_plans_start_at_the_literal_prefix() {
    assert_eq!(literal_prefix("out/**/*.png"), "out");
    assert_eq!(literal_prefix("**/*.json"), "");
    assert!(walk_plan(&["out/**/*.png".to_owned()]).is_some());
}

#[test]
fn content_digest_is_hex_sha256_or_absent() {
    assert_eq!(
        content_digest(Some(b"abc")),
        "ba7816bf8f01cfea414140de5dae2223b00361a396177a9cb410ff61f20015ad"
    );
    assert_eq!(content_digest(None), "absent");
}

#[test]
fn audit_reports_first_broken_link() {
    let link = |seq: i64, stored: Option<&str>, expected: &str| ChainLink {
        seq,
        stored_hash: stored.map(|s| s.to_string()),
        expected_hash: expected.to_string(),
    };
    assert_eq!(audit_chain(&[]), ChainReport::Intact { count: 0 });
    let good = vec![link(1, Some("h1"), "h1"), link(2, Some("h2"), "h2")];
    assert_eq!(audit_chain(&good), ChainReport::Intact { count: 2 });
    let tampered = vec![link(1, Some("h1"), "h1"), link(2, Some("xx"), "h2")];
    assert_eq!(audit_chain(&tampered), ChainReport::Tampered { seq: 2 });
    let deleted = vec![link(1, Some("h1"), "h1"), link(3, Some("h3"), "h3")];
    assert_eq!(audit_chain(&deleted), ChainReport::Tampered { seq: 3 });
    let unchained = vec![link(1, None, "h1")];
    assert!(!audit_chain(&unchained).is_intact());
}

#[test]
fn distill_gate_asks_in_order_and_refuses_without_evidence() {
    let facts = |from_trace, skill_exists, trace, ok_beat| DistillFacts {
        from_trace,
        skill_exists,
        trace,
        ok_beat,
    };
    assert_eq!(
        distill_step(&facts(None, None, None, None)),
        DistillStep::Refused(DistillRefusal::NoTrace)
    );
    assert_eq!(distill_step(&facts(Some(7), None, None, None)), DistillStep::NeedSkill);
    assert_eq!(
        distill_step(&facts(Some(7), Some(false), None, None)),
        DistillStep::Refused(DistillRefusal::UnknownSkill)
    );
    assert_eq!(distill_step(&facts(Some(7), Some(true), None, None)), DistillStep::NeedTrace(7));
    assert_eq!(
        distill_step(&facts(Some(7), Some(true), Some(None), None)),
        DistillStep::Refused(DistillRefusal::TraceNotFound)
    );
    assert_eq!(
        distill_step(&facts(Some(7), Some(true), Some(Some(Some(String::new()))), None)),
        DistillStep::Refused(DistillRefusal::NoResolutionSteps)
    );
    assert_eq!(
        distill_step(&facts(Some(7), Some(true), Some(Some(Some("fix".to_string()))), None)),
        DistillStep::NeedBeats
    );
    assert_eq!(
        distill_step(&facts(Some(7), Some(true), Some(Some(Some("fix".to_string()))), Some(false))),
        DistillStep::Refused(DistillRefusal::NoOkBeat)
    );
    assert_eq!(
        distill_step(&facts(Some(7), Some(true), Some(Some(Some("fix".to_string()))), Some(true))),
        DistillStep::Proceed(7)
    );
    assert_eq!(
        DistillRefusal::UnknownSkill.message("nope", 0),
        "unknown skill 'nope': no SKILL.md under .agents/skills"
    );
    assert_eq!(DistillRefusal::TraceNotFound.message("x", 999), "trace 999 not found");
}

#[test]
fn doctor_fails_on_missing_binary_and_future_database() {
    let facts = DoctorFacts {
        bin_path: "/repo/target/release/do-harness".to_string(),
        bin_present: false,
        bin_in_target: true,
        pre_commit: true,
        pre_push: true,
        commit_msg: true,
        database: DbProbe::Health(DbHealth::Future {
            applied: 11,
            known: 10,
        }),
        orphan_tasks: 0,
    };
    let failures = doctor_failures(&facts, false);
    assert_eq!(failures.len(), 2);
    assert!(failures[0].contains("binary missing"));
    assert!(failures[1].contains("rebuild"));
    let verdict = doctor_verdict(&failures).unwrap_err();
    assert!(verdict.starts_with("doctor check failed"));
    assert_eq!(doctor_failures(&facts, true).len(), 3);
}

#[test]
fn doctor_passes_with_binary_present_and_database_absent() {
    let facts = DoctorFacts {
        bin_path: "/usr/bin/do-harness".to_string(),
        bin_present: true,
        bin_in_target: false,
        pre_commit: false,
        pre_push: false,
        commit_msg: false,
        database: DbProbe::Health(DbHealth::Absent),
        orphan_tasks: 0,
    };
    let failures = doctor_failures(&facts, false);
    assert!(failures.is_empty());
    assert!(doctor_verdict(&failures).is_ok());
    let orphan = DoctorFacts {
        orphan_tasks: 2,
        ..facts
    };
    let failures = doctor_failures(&orphan, false);
    assert_eq!(
        failures,
        vec!["2 task(s) have no TaskAdded event (out-of-band write)".to_string()]
    );
}

#[test]
fn run_ids_parse_from_numbers_and_urls() {
    assert_eq!(parse_run_id(" 123 "), Ok(123));
    assert_eq!(
        parse_run_id("https://github.com/o/r/actions/runs/456/job/7"),
        Ok(456)
    );
    assert_eq!(
        parse_run_id("https://github.com/o/r/actions/runs/abc"),
        Err(RunIdError::InvalidUrl)
    );
    assert_eq!(parse_run_id("abc"), Err(RunIdError::InvalidId));
}

#[test]
fn failed_sensor_lines_name_the_sensor() {
    assert_eq!(failed_sensor_marker("  FAIL  clippy (exit 1)"), Some("clippy".to_string()));
    assert_eq!(failed_sensor_marker("FAIL: Something"), None);
    assert_eq!(failed_sensor_marker("ok clippy"), None);
    assert!(is_error_line("error[E0308]: mismatched types"));
    assert!(is_error_line("thread 'x' panicked at src/lib.rs:1:1"));
    assert!(!is_error_line("warning: unused variable"));
}

#[test]
fn failed_log_signals_stay_bounded() {
    let mut signals = FailedLogSignals::new();
    for i in 0..20 {
        signals.observe(&format!("error: failure {i}"));
    }
    assert_eq!(signals.error_lines.len(), 5);
    assert_eq!(signals.error_lines[0], "error: failure 15");
    assert_eq!(signals.error_lines[4], "error: failure 19");
}
