use checkrs::checksum::Checksum;
use checkrs::config::Config;
use checkrs::report::{Report, VerificationOutcome};
use checkrs::verify::{judge, verify_checksum, Verifier};

const HELLO_SUM: &str = "2cf24dba5fb0a30e26e83b2ac5b9e29e1b161e5c1fa7425e73043362938b9824";
const WORLD_SUM: &str = "486ea46224d1bb4fb680f34f7c9ad96a8f24ec88be73ea8e5a6c65260e9cb8a7";

fn checking() -> Config {
    Config {
        check: true,
        ignore_missing: false,
        quiet: false,
        strict: false,
        warn: false,
        input_files: vec!["sums.txt".to_string()],
    }
}

fn entry(hash: &str, path: &str) -> Checksum {
    Checksum { hash: hash.to_string(), path: path.to_string() }
}

fn bytes(content: &[u8]) -> Result<Vec<u8>, String> {
    Ok(content.to_vec())
}

fn missing() -> Result<Vec<u8>, String> {
    Err("No such file or directory (os error 2)".to_string())
}

fn strings(lines: &[&str]) -> Vec<String> {
    lines.iter().map(|l| l.to_string()).collect()
}

#[test]
fn judging_compares_the_recorded_digest_with_the_computed_one() {
    let record = entry(HELLO_SUM, "a.txt");
    assert_eq!(judge(&record, &Ok(HELLO_SUM.to_string())), VerificationOutcome::Matched);
    assert_eq!(judge(&record, &Ok(WORLD_SUM.to_string())), VerificationOutcome::Mismatched);
    assert_eq!(
        judge(&record, &Err("gone".to_string())),
        VerificationOutcome::TargetUnreadable("gone".to_string())
    );
    let upper = entry(&HELLO_SUM.to_uppercase(), "a.txt");
    assert_eq!(judge(&upper, &Ok(HELLO_SUM.to_string())), VerificationOutcome::Matched);
}

#[test]
fn a_record_is_checked_against_the_bytes_of_its_file() {
    let record = entry(HELLO_SUM, "a.txt");
    assert_eq!(verify_checksum(&record, &bytes(b"hello")), VerificationOutcome::Matched);
    assert_eq!(verify_checksum(&record, &bytes(b"hello\n")), VerificationOutcome::Mismatched);
    assert_eq!(verify_checksum(&record, &bytes(b"")), VerificationOutcome::Mismatched);
    assert_eq!(
        verify_checksum(&record, &missing()),
        VerificationOutcome::TargetUnreadable("No such file or directory (os error 2)".to_string())
    );
}

#[test]
fn a_new_verifier_has_seen_nothing() {
    let verifier = Verifier::new(checking());
    assert_eq!(verifier.config(), &checking());
    assert_eq!(verifier.report(), &Report { output: Vec::new(), errors: Vec::new() });
    assert!(verifier.failures().is_empty());
    assert_eq!(verifier.mismatches(), 0);
    assert_eq!(verifier.malformed_lines(), 0);
    assert_eq!(verifier.status_code(), 0);
}

#[test]
fn the_default_verifier_has_the_default_configuration() {
    let verifier = Verifier::default();
    assert_eq!(verifier.config(), &Config::default());
    assert_eq!(verifier.mismatches(), 0);
    assert_eq!(verifier.malformed_lines(), 0);
    assert_eq!(verifier.status_code(), 0);
    assert!(verifier.report().output.is_empty());
    assert!(verifier.report().errors.is_empty());
}

#[test]
fn a_true_digest_is_reported_ok_and_counts_for_nothing() {
    let mut verifier = Verifier::new(checking());
    let line = format!("{}  a.txt", HELLO_SUM);
    let record = verifier.read_line("sums.txt", &line).expect("the line holds a record");
    assert_eq!(record, entry(HELLO_SUM, "a.txt"));
    let outcome = verifier.verify_checksum(&record, &bytes(b"hello"));
    assert_eq!(outcome, VerificationOutcome::Matched);
    verifier.finish();
    assert_eq!(verifier.report().output, strings(&["OK: a.txt"]));
    assert!(verifier.report().errors.is_empty());
    assert_eq!(verifier.mismatches(), 0);
    assert_eq!(verifier.status_code(), 0);
}

#[test]
fn a_digest_altered_by_one_character_is_reported_failed() {
    let altered = format!("3{}", &HELLO_SUM[1..]);
    for quiet in [false, true] {
        let mut config = checking();
        config.quiet = quiet;
        let mut verifier = Verifier::new(config);
        let line = format!("{}  a.txt", altered);
        let record = verifier.read_line("sums.txt", &line).expect("the line holds a record");
        let outcome = verifier.verify_checksum(&record, &bytes(b"hello"));
        assert_eq!(outcome, VerificationOutcome::Mismatched);
        assert_eq!(verifier.mismatches(), 1);
        assert_eq!(verifier.failures(), &vec![entry(&altered, "a.txt")]);
        assert_eq!(verifier.report().errors, strings(&["FAILED: a.txt"]));
        assert!(verifier.report().output.is_empty());
        assert_eq!(verifier.status_code(), 1);
    }
}

#[test]
fn the_case_of_a_recorded_digest_does_not_matter() {
    let mut verifier = Verifier::new(checking());
    let line = format!("{}  a.txt", HELLO_SUM.to_uppercase());
    let record = verifier.read_line("sums.txt", &line).expect("the line holds a record");
    assert_eq!(verifier.verify_checksum(&record, &bytes(b"hello")), VerificationOutcome::Matched);
    assert_eq!(verifier.mismatches(), 0);
}

#[test]
fn a_malformed_line_is_silent_without_warn() {
    let mut verifier = Verifier::new(checking());
    assert_eq!(verifier.read_line("sums.txt", "no separator"), None);
    verifier.finish();
    assert!(verifier.report().output.is_empty());
    assert!(verifier.report().errors.is_empty());
    assert_eq!(verifier.mismatches(), 0);
    assert_eq!(verifier.malformed_lines(), 1);
    assert_eq!(verifier.status_code(), 0);
}

#[test]
fn a_malformed_line_gives_one_diagnostic_line_with_warn() {
    let mut config = checking();
    config.warn = true;
    let mut verifier = Verifier::new(config);
    assert_eq!(verifier.read_line("sums.txt", "no separator"), None);
    verifier.finish();
    assert!(verifier.report().output.is_empty());
    assert_eq!(
        verifier.report().errors,
        strings(&["sums.txt: Invalid checksum format. Affected line had: no separator"])
    );
    assert_eq!(verifier.mismatches(), 0);
    assert_eq!(verifier.malformed_lines(), 1);
    assert_eq!(verifier.status_code(), 0);
}

#[test]
fn a_line_with_a_bad_digest_is_malformed_too() {
    let mut config = checking();
    config.warn = true;
    let mut verifier = Verifier::new(config);
    assert_eq!(verifier.read_line("sums.txt", "abc  a.txt"), None);
    assert_eq!(
        verifier.report().errors,
        strings(&["sums.txt: Invalid checksum format. Affected line had: abc  a.txt"])
    );
    assert_eq!(verifier.malformed_lines(), 1);
    assert_eq!(verifier.mismatches(), 0);
}

#[test]
fn strict_turns_a_malformed_line_into_a_failure_of_the_run() {
    for warn in [false, true] {
        let mut config = checking();
        config.strict = true;
        config.warn = warn;
        let mut verifier = Verifier::new(config);
        assert_eq!(verifier.status_code(), 0);
        assert_eq!(verifier.read_line("sums.txt", "no separator"), None);
        verifier.finish();
        assert_eq!(verifier.status_code(), 1);
        assert_eq!(verifier.mismatches(), 0);
        assert!(verifier.report().output.is_empty());
        assert_eq!(verifier.report().errors.len(), if warn { 1 } else { 0 });
    }
}

#[test]
fn blank_lines_are_passed_over() {
    let mut config = checking();
    config.warn = true;
    config.strict = true;
    let mut verifier = Verifier::new(config);
    for line in ["", "   ", "\t", "\r"] {
        assert_eq!(verifier.read_line("sums.txt", line), None);
    }
    verifier.finish();
    assert!(verifier.report().output.is_empty());
    assert!(verifier.report().errors.is_empty());
    assert_eq!(verifier.malformed_lines(), 0);
    assert_eq!(verifier.status_code(), 0);
}

#[test]
fn an_unreadable_manifest_is_reported_with_its_cause() {
    let mut verifier = Verifier::new(checking());
    let lines = verifier.open_manifest("sums.txt", &Err("Permission denied (os error 13)".to_string()));
    assert!(lines.is_empty());
    verifier.finish();
    assert!(verifier.report().output.is_empty());
    assert_eq!(verifier.report().errors, strings(&["sums.txt: Permission denied (os error 13)"]));
    assert_eq!(verifier.mismatches(), 0);
    assert_eq!(verifier.status_code(), 0);
}

#[test]
fn an_unreadable_manifest_is_silent_where_missing_files_are_ignored() {
    let mut config = checking();
    config.ignore_missing = true;
    let mut verifier = Verifier::new(config);
    let lines = verifier.open_manifest("sums.txt", &Err("Permission denied (os error 13)".to_string()));
    assert!(lines.is_empty());
    verifier.finish();
    assert!(verifier.report().output.is_empty());
    assert!(verifier.report().errors.is_empty());
}

#[test]
fn a_readable_manifest_gives_its_records_in_order() {
    let mut verifier = Verifier::new(checking());
    let text = format!("{}  a.txt\n\n  {}  b.txt \r\n", HELLO_SUM, WORLD_SUM);
    let found = verifier.open_manifest("sums.txt", &Ok(text));
    assert_eq!(found, vec![entry(HELLO_SUM, "a.txt"), entry(WORLD_SUM, "b.txt")]);
    assert!(verifier.report().output.is_empty());
    assert!(verifier.report().errors.is_empty());
    assert_eq!(verifier.malformed_lines(), 0);
}

#[test]
fn a_manifest_reports_its_malformed_lines_in_order() {
    let mut config = checking();
    config.warn = true;
    let mut verifier = Verifier::new(config);
    let text = format!("first bad line\n{}  a.txt\n   \nsecond  bad  line\n{}  b.txt", HELLO_SUM, WORLD_SUM);
    let found = verifier.open_manifest("sums.txt", &Ok(text));
    assert_eq!(found, vec![entry(HELLO_SUM, "a.txt"), entry(WORLD_SUM, "b.txt")]);
    assert!(verifier.report().output.is_empty());
    assert_eq!(
        verifier.report().errors,
        strings(&[
            "sums.txt: Invalid checksum format. Affected line had: first bad line",
            "sums.txt: Invalid checksum format. Affected line had: second  bad  line",
        ])
    );
    assert_eq!(verifier.malformed_lines(), 2);
    assert_eq!(verifier.mismatches(), 0);
    assert_eq!(verifier.status_code(), 0);
}

#[test]
fn an_empty_manifest_gives_nothing() {
    let mut config = checking();
    config.warn = true;
    config.strict = true;
    let mut verifier = Verifier::new(config);
    assert!(verifier.open_manifest("sums.txt", &Ok(String::new())).is_empty());
    assert!(verifier.open_manifest("sums.txt", &Ok("\n\n \n".to_string())).is_empty());
    verifier.finish();
    assert!(verifier.report().output.is_empty());
    assert!(verifier.report().errors.is_empty());
    assert_eq!(verifier.status_code(), 0);
}

#[test]
fn an_unreadable_target_is_reported_with_its_cause_and_is_no_mismatch() {
    let mut verifier = Verifier::new(checking());
    let outcome = verifier.verify_checksum(&entry(HELLO_SUM, "gone.txt"), &missing());
    assert_eq!(
        outcome,
        VerificationOutcome::TargetUnreadable("No such file or directory (os error 2)".to_string())
    );
    verifier.finish();
    assert!(verifier.report().output.is_empty());
    assert_eq!(
        verifier.report().errors,
        strings(&["gone.txt: No such file or directory (os error 2)"])
    );
    assert_eq!(verifier.mismatches(), 0);
    assert_eq!(verifier.status_code(), 0);
}

#[test]
fn an_unreadable_target_is_silent_where_missing_files_are_ignored() {
    let mut config = checking();
    config.ignore_missing = true;
    let mut verifier = Verifier::new(config);
    verifier.verify_checksum(&entry(HELLO_SUM, "gone.txt"), &missing());
    verifier.finish();
    assert!(verifier.report().output.is_empty());
    assert!(verifier.report().errors.is_empty());
    assert_eq!(verifier.mismatches(), 0);
}

#[test]
fn quiet_silences_ok_lines_and_nothing_else() {
    let mut config = checking();
    config.quiet = true;
    let mut verifier = Verifier::new(config);
    verifier.verify_checksum(&entry(HELLO_SUM, "a.txt"), &bytes(b"hello"));
    verifier.verify_checksum(&entry(WORLD_SUM, "b.txt"), &bytes(b"worlds"));
    verifier.verify_checksum(&entry(WORLD_SUM, "c.txt"), &missing());
    verifier.finish();
    assert_eq!(verifier.report().output, strings(&["WARNING: 1 computed checksum did NOT match"]));
    assert_eq!(
        verifier.report().errors,
        strings(&["FAILED: b.txt", "c.txt: No such file or directory (os error 2)"])
    );
}

#[test]
fn the_summary_gives_the_exact_number_of_mismatches() {
    let mut verifier = Verifier::new(checking());
    for n in 0..12 {
        let path = format!("f{}", n);
        verifier.verify_checksum(&entry(HELLO_SUM, &path), &bytes(b"not hello"));
    }
    verifier.verify_checksum(&entry(HELLO_SUM, "good"), &bytes(b"hello"));
    verifier.finish();
    assert_eq!(verifier.mismatches(), 12);
    assert_eq!(
        verifier.report().output,
        strings(&["OK: good", "WARNING: 12 computed checksums did NOT match"])
    );
    assert_eq!(verifier.report().errors.len(), 12);
    assert_eq!(verifier.report().errors[0], "FAILED: f0");
    assert_eq!(verifier.report().errors[11], "FAILED: f11");
}

#[test]
fn without_mismatch_there_is_no_summary() {
    let mut verifier = Verifier::new(checking());
    verifier.verify_checksum(&entry(HELLO_SUM, "a.txt"), &bytes(b"hello"));
    verifier.read_line("sums.txt", "junk");
    verifier.verify_checksum(&entry(HELLO_SUM, "gone"), &missing());
    verifier.finish();
    assert_eq!(verifier.report().output, strings(&["OK: a.txt"]));
}

#[test]
fn settling_an_outcome_reports_and_counts_it() {
    let mut verifier = Verifier::new(checking());
    let record = entry(HELLO_SUM, "a.txt");
    verifier.settle(&record, &VerificationOutcome::Mismatched);
    verifier.settle(&record, &VerificationOutcome::Matched);
    verifier.settle(&record, &VerificationOutcome::TargetUnreadable("gone".to_string()));
    assert_eq!(verifier.failures(), &vec![record]);
    assert_eq!(verifier.report().output, strings(&["OK: a.txt"]));
    assert_eq!(verifier.report().errors, strings(&["FAILED: a.txt", "a.txt: gone"]));
}

#[test]
fn draining_hands_out_the_lines_and_keeps_the_count() {
    let mut verifier = Verifier::new(checking());
    verifier.verify_checksum(&entry(HELLO_SUM, "a.txt"), &bytes(b"hello"));
    verifier.verify_checksum(&entry(HELLO_SUM, "b.txt"), &bytes(b"other"));
    let first = verifier.drain();
    assert_eq!(first.output, strings(&["OK: a.txt"]));
    assert_eq!(first.errors, strings(&["FAILED: b.txt"]));
    assert!(verifier.report().output.is_empty());
    assert!(verifier.report().errors.is_empty());
    assert_eq!(verifier.mismatches(), 1);
    verifier.finish();
    let second = verifier.drain();
    assert_eq!(second.output, strings(&["WARNING: 1 computed checksum did NOT match"]));
    assert!(second.errors.is_empty());
    assert_eq!(verifier.status_code(), 1);
}
