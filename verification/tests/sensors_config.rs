use do_harness::applicability::{select, FAIL_CLOSED_REASON, NO_MATCH_REASON, UNCONSTRAINED_REASON};
use do_harness::changes::{
    discover, normalize, nul_records, tracked_changes, untracked_files, ChangeKind, ChangedFile,
    ChangedFiles,
};
use do_harness::config::{
    is_valid_set_name, rust_default, rust_pack, spec, Config, ConfigError, HooksConfig, SensorSpec,
    SignalSets,
};

fn gated(name: &str, patterns: &[&str]) -> SensorSpec {
    let mut s = spec(name, &["true"]);
    s.when_changed = patterns.iter().map(|p| p.to_string()).collect();
    s
}

fn changed(paths: &[&str]) -> ChangedFiles {
    ChangedFiles {
        files: paths
            .iter()
            .map(|p| ChangedFile {
                path: p.to_string(),
                kind: ChangeKind::Modified,
            })
            .collect(),
        discovery_failed: false,
    }
}

fn config(sensors: Vec<SensorSpec>, sets: SignalSets) -> Config {
    Config {
        language: None,
        hooks: HooksConfig {
            pre_commit: vec![],
            pre_push: vec![],
        },
        signal_sets: sets,
        sensors,
    }
}

#[test]
fn rust_default_ships_signal_sets() {
    let cfg = rust_default();
    assert_eq!(
        cfg.signal_sets.get("feedback"),
        Some(&vec!["fmt".to_owned(), "check".to_owned(), "clippy".to_owned()])
    );
    assert_eq!(cfg.signal_sets.get("verification").unwrap().len(), 8);
    assert_eq!(cfg.signal_sets.get("release").unwrap().len(), 8);
    cfg.validate().expect("built-in default must validate");
}

#[test]
fn rust_pack_is_the_default_sensor_list() {
    let pack = rust_pack();
    assert_eq!(pack.len(), 8);
    assert_eq!(pack[0].name, "fmt");
    let cfg = config(vec![], SignalSets::new());
    assert_eq!(cfg.sensor_names().len(), 8);
}

#[test]
fn generic_language_yields_no_effective_sensors() {
    let mut cfg = config(vec![], SignalSets::new());
    cfg.language = Some("generic".to_string());
    assert!(cfg.effective_sensors().is_empty());
    cfg.validate().expect("generic is supported");
}

#[test]
fn configured_sensors_replace_the_pack() {
    let cfg = config(vec![spec("lint", &["make", "lint"])], SignalSets::new());
    assert_eq!(cfg.sensor_names(), vec!["lint".to_string()]);
    assert_eq!(cfg.effective_sensors()[0].argv, vec!["make".to_string(), "lint".to_string()]);
}

#[test]
fn unknown_language_is_rejected() {
    let mut cfg = config(vec![], SignalSets::new());
    cfg.language = Some("cobol".to_string());
    match cfg.validate() {
        Err(ConfigError::UnsupportedLanguage(l)) => assert_eq!(l, "cobol"),
        other => panic!("expected UnsupportedLanguage, got {other:?}"),
    }
}

#[test]
fn invalid_when_changed_glob_is_rejected() {
    let cfg = config(vec![gated("lint", &["[unclosed"])], SignalSets::new());
    match cfg.validate() {
        Err(ConfigError::InvalidPattern(sensor, pattern)) => {
            assert_eq!(sensor, "lint");
            assert_eq!(pattern, "[unclosed");
        }
        other => panic!("expected InvalidPattern, got {other:?}"),
    }
}

#[test]
fn unknown_sensor_in_signal_set_is_rejected() {
    let mut sets = SignalSets::new();
    sets.insert("feedback".to_string(), vec!["fmt".to_string(), "ghost".to_string()]);
    let cfg = config(vec![spec("fmt", &["cargo", "fmt"])], sets);
    match cfg.validate() {
        Err(ConfigError::UnknownSensor(set, sensor)) => {
            assert_eq!(set, "feedback");
            assert_eq!(sensor, "ghost");
        }
        other => panic!("expected UnknownSensor, got {other:?}"),
    }
}

#[test]
fn duplicate_sensor_in_signal_set_is_rejected() {
    let mut sets = SignalSets::new();
    sets.insert("feedback".to_string(), vec!["fmt".to_string(), "fmt".to_string()]);
    let cfg = config(vec![spec("fmt", &["cargo", "fmt"])], sets);
    match cfg.validate() {
        Err(ConfigError::DuplicateSensor(set, sensor)) => {
            assert_eq!(set, "feedback");
            assert_eq!(sensor, "fmt");
        }
        other => panic!("expected DuplicateSensor, got {other:?}"),
    }
}

#[test]
fn invalid_signal_set_name_is_rejected() {
    assert!(is_valid_set_name("feedback"));
    assert!(is_valid_set_name("pre-merge_2"));
    assert!(!is_valid_set_name(""));
    assert!(!is_valid_set_name("Bad Name"));
    let mut sets = SignalSets::new();
    sets.insert("Bad Name".to_string(), vec![]);
    let cfg = config(vec![spec("fmt", &["cargo", "fmt"])], sets);
    match cfg.validate() {
        Err(ConfigError::InvalidSetName(set)) => assert_eq!(set, "Bad Name"),
        other => panic!("expected InvalidSetName, got {other:?}"),
    }
}

#[test]
fn signal_sets_stay_sorted_and_replace_on_reinsert() {
    let mut sets = SignalSets::new();
    sets.insert("b".to_string(), vec!["x".to_string()]);
    sets.insert("a".to_string(), vec![]);
    sets.insert("b".to_string(), vec!["y".to_string()]);
    assert_eq!(sets.len(), 2);
    assert_eq!(sets.entry(0).0, "a");
    assert_eq!(sets.entry(1).0, "b");
    assert_eq!(sets.get("b"), Some(&vec!["y".to_string()]));
    assert_eq!(sets.get("c"), None);
}

#[test]
fn select_splits_by_first_matching_pattern() {
    let rs = gated("rs-check", &["**/*.rs", "Cargo.toml"]);
    let docs = gated("docs", &["**/*.md"]);
    let candidates = vec![&rs, &docs];

    let selection = select(&candidates, &changed(&["src/lib.rs"]));
    assert_eq!(selection.selected_names(), vec!["rs-check".to_owned()]);
    assert_eq!(selection.selected[0].reason, "matched `**/*.rs`");
    assert_eq!(selection.skipped.len(), 1);
    assert_eq!(selection.skipped[0].name, "docs");
    assert!(!selection.skipped[0].reason.is_empty());
}

#[test]
fn unconstrained_sensors_always_apply() {
    let audit = gated("audit", &[]);
    let candidates = vec![&audit];

    let selection = select(&candidates, &changed(&["README.md"]));
    assert_eq!(selection.selected_names(), vec!["audit".to_owned()]);
    assert_eq!(selection.selected[0].reason, UNCONSTRAINED_REASON);

    let empty = ChangedFiles::default();
    let selection = select(&candidates, &empty);
    assert_eq!(selection.selected_names(), vec!["audit".to_owned()]);
}

#[test]
fn deleted_paths_still_match() {
    let rs = gated("rs-check", &["**/*.rs"]);
    let candidates = vec![&rs];
    let gone = ChangedFiles {
        files: vec![ChangedFile {
            path: "old.rs".to_owned(),
            kind: ChangeKind::Deleted,
        }],
        discovery_failed: false,
    };

    let selection = select(&candidates, &gone);
    assert_eq!(selection.selected_names(), vec!["rs-check".to_owned()]);
}

#[test]
fn discovery_failure_selects_everything() {
    let rs = gated("rs-check", &["**/*.rs"]);
    let docs = gated("docs", &["**/*.md"]);
    let candidates = vec![&rs, &docs];
    let failed = ChangedFiles {
        files: Vec::new(),
        discovery_failed: true,
    };

    let selection = select(&candidates, &failed);
    assert_eq!(
        selection.selected_names(),
        vec!["rs-check".to_owned(), "docs".to_owned()]
    );
    assert!(selection.selected.iter().all(|s| s.reason == FAIL_CLOSED_REASON));
    assert!(selection.skipped.is_empty());
}

#[test]
fn separator_semantics_are_platform_independent() {
    let shallow = gated("shallow", &["*.rs"]);
    let deep = gated("deep", &["src/**"]);
    let candidates = vec![&shallow, &deep];

    let selection = select(&candidates, &changed(&["src/lib.rs"]));
    assert_eq!(selection.selected_names(), vec!["deep".to_owned()]);
    assert_eq!(selection.skipped[0].name, "shallow");

    let selection = select(&candidates, &changed(&["top.rs"]));
    assert_eq!(selection.selected_names(), vec!["shallow".to_owned()]);
}

#[test]
fn matching_is_case_sensitive() {
    let rs = gated("rs-check", &["**/*.RS"]);
    let candidates = vec![&rs];

    let selection = select(&candidates, &changed(&["src/lib.rs"]));
    assert!(selection.selected.is_empty());
    assert_eq!(selection.skipped.len(), 1);
    assert_eq!(selection.skipped[0].reason, NO_MATCH_REASON);
}

#[test]
fn selection_partitions_the_candidates() {
    let a = gated("a", &["**/*.rs"]);
    let b = gated("b", &["**/*.md"]);
    let c = gated("c", &[]);
    let candidates = vec![&a, &b, &c];
    let selection = select(&candidates, &changed(&["x.md"]));
    assert_eq!(selection.selected.len() + selection.skipped.len(), 3);
    assert_eq!(selection.selected_names(), vec!["b".to_owned(), "c".to_owned()]);
}

#[test]
fn normalize_unifies_separators() {
    assert_eq!(normalize("a/b"), "a/b");
    assert_eq!(normalize("a\\b"), "a/b");
    assert_eq!(normalize("./a/b"), "a/b");
}

#[test]
fn discover_fails_closed_outside_git() {
    let changed = discover(false, None, None);
    assert!(changed.discovery_failed);
    assert!(changed.files.is_empty());
    // Inside a work tree a failed command only contributes no files.
    let quiet = discover(true, None, Some(b""));
    assert!(!quiet.discovery_failed);
    assert!(quiet.files.is_empty());
}

#[test]
fn nul_records_split_normalize_and_drop_empty_chunks() {
    assert_eq!(
        nul_records(b"A\0./a\\b.rs\0\0"),
        vec!["A".to_string(), "a/b.rs".to_string()]
    );
    assert!(nul_records(b"").is_empty());
}

#[test]
fn discover_reports_change_kinds_in_path_order() {
    let status_output = b"M\0src/z.rs\0A\0new.rs\0D\0gone.rs\0R100\0from.rs\0to.rs\0";
    let untracked = b"notes.txt\0new.rs\0";
    let found = discover(true, Some(status_output), Some(untracked));
    assert!(!found.discovery_failed);
    assert_eq!(
        found.paths(),
        vec!["gone.rs", "new.rs", "notes.txt", "src/z.rs", "to.rs"]
    );
    let renamed = found.files.iter().find(|f| f.path == "to.rs").unwrap();
    assert_eq!(
        renamed.kind,
        ChangeKind::Renamed {
            from: "from.rs".to_string()
        }
    );
    // The diff record wins over a later ls-files duplicate.
    let added = found.files.iter().find(|f| f.path == "new.rs").unwrap();
    assert_eq!(added.kind, ChangeKind::Added);
    let gone = found.files.iter().find(|f| f.path == "gone.rs").unwrap();
    assert_eq!(gone.kind, ChangeKind::Deleted);
}

#[test]
fn untracked_files_keep_their_records() {
    let files = untracked_files(vec!["a/b.txt".to_string()]);
    assert_eq!(files.len(), 1);
    assert_eq!(files[0].path, "a/b.txt");
    assert_eq!(files[0].kind, ChangeKind::Untracked);
}

#[test]
fn tracked_changes_classify_status_codes() {
    let records: Vec<String> = ["A", "x.rs", "T", "y.rs", "U", "z.rs"]
        .iter()
        .map(|s| s.to_string())
        .collect();
    let files = tracked_changes(&records);
    assert_eq!(files.len(), 3);
    assert_eq!(files[0].kind, ChangeKind::Added);
    assert_eq!(files[1].kind, ChangeKind::Modified);
    assert_eq!(files[2].kind, ChangeKind::Modified);
}

#[test]
fn a_glob_too_deep_to_match_selects_fail_closed() {
    let deep = format!("{}a{}", "{".repeat(300), "}".repeat(300));
    let s = gated("deep", &[deep.as_str()]);
    let candidates = vec![&s];
    let selection = select(&candidates, &changed(&["a"]));
    assert_eq!(selection.selected_names(), vec!["deep".to_owned()]);
    assert_eq!(selection.selected[0].reason, FAIL_CLOSED_REASON);
    let cfg = config(vec![s.copied()], SignalSets::new());
    assert!(matches!(cfg.validate(), Err(ConfigError::UnusablePatterns(_)) | Err(ConfigError::InvalidPattern(_, _))));
}
