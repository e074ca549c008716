use ns_rules::ClojureSourceFile;
use ns_rules::NamespaceMatcher;
use ns_rules::Report;
use ns_rules::Rule;
use ns_rules::apply_rules;
use ns_rules::select_rule;
use ns_rules::Violation;

fn rule(guard: &str, allow: &[&str]) -> Rule {
    Rule {
        namespace: NamespaceMatcher::from_str(guard).unwrap(),
        allow: allow.iter().map(|p| NamespaceMatcher::from_str(p).unwrap()).collect(),
    }
}

fn corpus(units: &[(&str, &str)]) -> Vec<ClojureSourceFile> {
    units.iter().map(|(ns, path)| ClojureSourceFile::new(ns, path)).collect()
}

#[test]
fn resolver_forbids_what_no_pattern_allows() {
    let files = corpus(&[("app.api.handler", "f1"), ("app.db.core", "f2")]);
    let compiled = rule("app.api.*", &["app.api.*"]).compile(&files);

    assert_eq!(compiled.forbidden, vec![b"app.db.core".to_vec()]);
}

#[test]
fn resolver_never_forbids_the_guarded_hierarchy() {
    let files = corpus(&[("app.api.handler", "f1"), ("app.api.auth", "f2")]);
    let compiled = rule("app.api.*", &["other.*"]).compile(&files);

    assert!(compiled.forbidden.is_empty());
}

#[test]
fn resolver_with_catch_all_allow_list_forbids_nothing() {
    let files = corpus(&[("app.api.handler", "f1"), ("app.db.core", "f2"), ("app.ui", "f3")]);
    let compiled = rule("app.api.*", &["app.*", "*"]).compile(&files);

    assert!(compiled.forbidden.is_empty());
}

#[test]
fn resolver_collapses_duplicate_namespaces() {
    let files = corpus(&[("app.db.core", "roots/a/f"), ("app.db.core", "roots/b/f"), ("app.x", "g")]);
    let compiled = rule("app.api.*", &["app.api.*"]).compile(&files);

    assert_eq!(compiled.forbidden, vec![b"app.db.core".to_vec(), b"app.x".to_vec()]);
}

#[test]
fn resolver_of_empty_corpus_forbids_nothing() {
    let compiled = rule("app.api.*", &["app.api.*"]).compile(&corpus(&[]));

    assert!(compiled.forbidden.is_empty());
}

#[test]
fn compiled_rule_still_answers_its_guard() {
    let compiled = rule("app.api.*", &["app.api.*"]).compile(&corpus(&[]));

    assert!(compiled.matches("app.api.handler"));
    assert!(!compiled.matches("app.db.core"));
}

#[test]
fn first_declared_rule_wins() {
    let files = corpus(&[("app.api.handler", "f1")]);
    let rules = vec![
        rule("app.api.*", &["app.*"]).compile(&files),
        rule("app.api.handler", &["app.api.*"]).compile(&files),
    ];

    assert_eq!(select_rule(&rules, &b"app.api.handler".to_vec()), Some(0));
    assert_eq!(select_rule(&rules, &b"app.db.core".to_vec()), None);
}

#[test]
fn run_reports_a_disallowed_reference() {
    let files = corpus(&[("app.api.handler", "f1"), ("app.db.core", "f2")]);
    let rules = vec![rule("app.api.*", &["app.api.*"]).compile(&files)];
    let texts = vec![
        Ok(b"(ns app.api.handler)\n(app.db.core/query)\n".to_vec()),
        Ok(b"(ns app.db.core)\n".to_vec()),
    ];
    let mut report = Report::new();
    report.candidate_files(&files);
    apply_rules(&rules, &files, &texts, &mut report);

    assert_eq!(report.violations.len(), 1);
    assert_eq!(report.violations[0].src_ns, b"app.api.handler".to_vec());
    assert_eq!(report.violations[0].ref_ns, b"app.db.core".to_vec());
    assert_eq!(report.violations[0].path, b"f1".to_vec());
    assert_eq!(report.rules_matched, 1);
    assert_eq!(report.files_checked, 2);
    assert_eq!(report.files_skipped, 0);
    assert!(report.warnings.is_empty());
    assert_ne!(report.exit_status(), 0);
}

#[test]
fn run_with_widened_allow_list_reports_nothing() {
    let files = corpus(&[("app.api.handler", "f1"), ("app.db.core", "f2")]);
    let rules = vec![rule("app.api.*", &["app.api.*", "app.db.*"]).compile(&files)];
    let texts = vec![
        Ok(b"(ns app.api.handler)\n(app.db.core/query)\n".to_vec()),
        Ok(b"(ns app.db.core)\n".to_vec()),
    ];
    let mut report = Report::new();
    report.candidate_files(&files);
    apply_rules(&rules, &files, &texts, &mut report);

    assert!(report.violations.is_empty());
    assert_eq!(report.exit_status(), 0);
}

#[test]
fn only_the_first_matching_rule_governs_a_unit() {
    let files = corpus(&[("app.api.handler", "f1"), ("app.db.core", "f2")]);
    let rules = vec![
        rule("app.api.*", &["app.*"]).compile(&files),
        rule("app.api.handler", &["app.api.*"]).compile(&files),
    ];
    let texts = vec![
        Ok(b"(ns app.api.handler)\n(app.db.core/query)\n".to_vec()),
        Ok(b"(ns app.db.core)\n".to_vec()),
    ];
    let mut report = Report::new();
    report.candidate_files(&files);
    apply_rules(&rules, &files, &texts, &mut report);

    // The first-declared rule permits everything, so the stricter
    // second rule never runs, however much more specific its guard is.
    assert!(report.violations.is_empty());
    assert_eq!(report.rules_matched, 1);
    assert_eq!(report.exit_status(), 0);
}

#[test]
fn unreadable_governed_unit_warns_and_skips() {
    let files = corpus(&[("app.api.handler", "f1")]);
    let rules = vec![rule("app.api.*", &["app.api.*"]).compile(&files)];
    let texts: Vec<Result<Vec<u8>, String>> =
        vec![Err("failed to read file f1: permission denied".to_string())];
    let mut report = Report::new();
    report.candidate_files(&files);
    apply_rules(&rules, &files, &texts, &mut report);

    assert!(report.violations.is_empty());
    assert_eq!(report.files_skipped, 1);
    assert_eq!(report.rules_matched, 1);
    assert_eq!(report.warnings, vec!["failed to read file f1: permission denied".to_string()]);
    assert_eq!(report.exit_status(), 0);
}

#[test]
fn ungoverned_units_are_left_alone() {
    let files = corpus(&[("lib.util", "f1")]);
    let rules = vec![rule("app.api.*", &["app.api.*"]).compile(&files)];
    let texts = vec![Ok(b"anything".to_vec())];
    let mut report = Report::new();
    report.candidate_files(&files);
    apply_rules(&rules, &files, &texts, &mut report);

    assert!(report.violations.is_empty());
    assert_eq!(report.rules_matched, 0);
    assert_eq!(report.files_skipped, 0);
    assert_eq!(report.exit_status(), 0);
}

#[test]
fn report_counters_and_exit_status() {
    let mut report = Report::new();
    assert_eq!(report.exit_status(), 0);

    report.warn("rule for 'x' has no effect".to_string());
    assert_eq!(report.warnings.len(), 1);
    assert_eq!(report.files_skipped, 0);

    report.file_skipped("not a source file".to_string());
    assert_eq!(report.warnings.len(), 2);
    assert_eq!(report.files_skipped, 1);

    report.rule_matched();
    assert_eq!(report.rules_matched, 1);
    assert_eq!(report.exit_status(), 0);
}

#[test]
fn source_unit_getters_return_its_parts() {
    let file = ClojureSourceFile::new("com.my-org.core", "src/com/my_org/core.clj");

    assert_eq!(file.namespace(), &b"com.my-org.core".to_vec());
    assert_eq!(file.path(), &b"src/com/my_org/core.clj".to_vec());
}

#[test]
fn appending_a_violation_flips_the_exit_status() {
    let mut report = Report::new();
    report.violation(Violation {
        src_ns: b"app.api.handler".to_vec(),
        path: b"f1".to_vec(),
        ref_ns: b"app.db.core".to_vec(),
        start: 0,
        end: 11,
        snippet_start: 0,
        snippet_end: 11,
    });

    assert_eq!(report.violations.len(), 1);
    assert_eq!(report.exit_status(), 1);
}
