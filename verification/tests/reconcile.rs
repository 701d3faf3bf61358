//! The marker-delimited format and the reconciliation driver: parsing,
//! change detection, diffing, splicing, idempotence, and a cross-check of
//! the file handling against hakari's own implementation.

use fixture_manager::adapter::Fixture;
use fixture_manager::adapter::HakariTomlContext;
use fixture_manager::adapter::HakariTomlItem;
use fixture_manager::driver::Mode;
use fixture_manager::driver::Outcome;
use fixture_manager::driver::no_drift;
use fixture_manager::driver::process_item;
use fixture_manager::driver::run_fixture;
use fixture_manager::driver::summarize;
use fixture_manager::section::ExistingArtifact;
use fixture_manager::section::ParseError;
use fixture_manager::strategy::SeedSummaryStrategy;

const EXISTING: &str = "# hand-written header\n\
                        [package]\nname = \"demo-hack\"\n\
                        \n### BEGIN HAKARI SECTION\n\
                        [dependencies]\nold = \"1\"\n\
                        ### END HAKARI SECTION\n\
                        \n# hand-written trailer\n";

fn demo_fixture() -> Fixture {
    Fixture { name: String::from("demo"), abs_path: String::from("demo/fixture.json") }
}

fn item(toml: &str) -> HakariTomlItem {
    HakariTomlItem { toml: toml.as_bytes().to_vec() }
}

#[test]
fn parse_finds_the_generated_section() {
    let artifact = ExistingArtifact::parse(EXISTING.as_bytes().to_vec()).unwrap();
    let generated = artifact.generated_contents();
    assert_eq!(
        String::from_utf8(generated).unwrap(),
        "[dependencies]\nold = \"1\"\n"
    );
}

#[test]
fn parse_fails_without_begin_marker() {
    let r = ExistingArtifact::parse(b"[package]\nname = \"x\"\n".to_vec());
    assert!(matches!(r, Err(ParseError::GeneratedSectionNotFound)));
}

#[test]
fn parse_fails_without_end_marker() {
    let r = ExistingArtifact::parse(b"x\n\n### BEGIN HAKARI SECTION\nstuff\n".to_vec());
    assert!(matches!(r, Err(ParseError::GeneratedSectionNotFound)));
}

#[test]
fn parse_accepts_an_empty_section() {
    let contents = b"head\n\n### BEGIN HAKARI SECTION\n### END HAKARI SECTION\ntail\n";
    let artifact = ExistingArtifact::parse(contents.to_vec()).unwrap();
    assert_eq!(artifact.generated_contents(), b"".to_vec());
}

#[test]
fn is_changed_compares_the_section_only() {
    let artifact = ExistingArtifact::parse(EXISTING.as_bytes().to_vec()).unwrap();
    let same = item("[dependencies]\nold = \"1\"\n");
    let other = item("[dependencies]\nnew = \"2\"\n");
    assert!(!HakariTomlContext::is_changed(&same, &artifact));
    assert!(HakariTomlContext::is_changed(&other, &artifact));
}

#[test]
fn write_preserves_hand_written_content() {
    let artifact = ExistingArtifact::parse(EXISTING.as_bytes().to_vec()).unwrap();
    let new = item("[dependencies]\nnew = \"2\"\n");
    let mut out: Vec<u8> = Vec::new();
    artifact.write_to(&new.toml, &mut out);
    let text = String::from_utf8(out).unwrap();
    assert!(text.starts_with("# hand-written header\n[package]\nname = \"demo-hack\"\n\n### BEGIN HAKARI SECTION\n"));
    assert!(text.ends_with("### END HAKARI SECTION\n\n# hand-written trailer\n"));
    assert!(text.contains("[dependencies]\nnew = \"2\"\n"));
    assert!(!text.contains("old = \"1\""));
}

#[test]
fn write_matches_hakari_exactly() {
    // hakari's own file handling is the reference for this format.
    let ours = ExistingArtifact::parse(EXISTING.as_bytes().to_vec()).unwrap();
    let theirs = hakari::HakariCargoToml::new_in_memory("demo", EXISTING.to_string()).unwrap();
    assert_eq!(
        ours.generated_contents(),
        theirs.generated_contents().as_bytes().to_vec()
    );
    let new_toml = "[dependencies]\nnew = \"2\"\n";
    let mut ours_out: Vec<u8> = Vec::new();
    ours.write_to(&new_toml.as_bytes().to_vec(), &mut ours_out);
    let mut theirs_out: Vec<u8> = Vec::new();
    theirs.write(new_toml, &mut theirs_out).unwrap();
    assert_eq!(ours_out, theirs_out);
    assert_eq!(
        HakariTomlContext::is_changed(&item(new_toml), &ours),
        theirs.is_changed(new_toml)
    );
}

#[test]
fn absent_file_diff_shows_the_whole_section_as_added() {
    let fixture = demo_fixture();
    let new = item("[dependencies]\nnew = \"2\"\n");
    let diff = HakariTomlContext::diff(&fixture, &new, None);
    let text = String::from_utf8(diff).unwrap();
    assert!(text.contains("+[dependencies]"));
    assert!(text.contains("+new = \"2\""));
    assert!(!text.is_empty());
    // The diff is rendered against the empty template's section, exactly as
    // hakari + diffy would render it.
    let empty = hakari::HakariCargoToml::new_in_memory(
        "default",
        format!(
            "{}{}",
            hakari::HakariCargoToml::BEGIN_SECTION,
            hakari::HakariCargoToml::END_SECTION
        ),
    )
    .unwrap();
    let patch = empty.diff_toml("[dependencies]\nnew = \"2\"\n");
    let expected = format!("{}", hakari::diffy::PatchFormatter::new().fmt_patch(&patch));
    assert_eq!(text, expected);
}

#[test]
fn equal_section_diff_is_just_the_header() {
    let artifact = ExistingArtifact::parse(EXISTING.as_bytes().to_vec()).unwrap();
    let fixture = demo_fixture();
    let same = item("[dependencies]\nold = \"1\"\n");
    let diff = HakariTomlContext::diff(&fixture, &same, Some(&artifact));
    let text = String::from_utf8(diff).unwrap();
    assert!(!text.contains('+') || !text.contains("+["));
    assert!(!text.contains("@@"));
}

#[test]
fn write_to_string_builds_a_fresh_template() {
    let fixture = demo_fixture();
    let new = item("[dependencies]\nnew = \"2\"\n");
    let mut out: Vec<u8> = Vec::new();
    HakariTomlContext::write_to_string(&fixture, &new, &mut out).unwrap();
    let text = String::from_utf8(out).unwrap();
    assert_eq!(
        text,
        "# This file is @generated. To regenerate, run:\n\
         #    cargo run -p fixture-manager -- generate-hakari --fixture demo\n\
         \n### BEGIN HAKARI SECTION\n\
         [dependencies]\nnew = \"2\"\n\
         ### END HAKARI SECTION\n\
         \n# This part of the file should be preserved at the end.\n"
    );
}

#[test]
fn check_mode_reports_drift_and_write_mode_fixes_it() {
    let fixture = demo_fixture();
    let new = item("[dependencies]\nnew = \"2\"\n");
    let existing: Vec<u8> = EXISTING.as_bytes().to_vec();

    let checked = process_item(&fixture, 0, &new, Some(&existing), Mode::Check);
    assert!(matches!(checked.outcome, Outcome::Changed(_)));
    assert!(!checked.malformed);

    let written = process_item(&fixture, 0, &new, Some(&existing), Mode::Write);
    let reconciled = match written.outcome {
        Outcome::Wrote(contents) => contents,
        _ => panic!("write mode must produce contents"),
    };

    // Idempotence: checking the reconciled file reports no difference.
    let rechecked = process_item(&fixture, 0, &new, Some(&reconciled), Mode::Check);
    assert!(matches!(rechecked.outcome, Outcome::Unchanged));
}

#[test]
fn write_then_check_over_a_whole_fixture_reports_no_drift() {
    let fixture = demo_fixture();
    let strategy = SeedSummaryStrategy;
    let count = 3;
    let absent: Vec<Option<Vec<u8>>> = vec![None, None, None];

    let written = run_fixture(&fixture, &strategy, count, &absent, Mode::Write);
    let on_disk: Vec<Option<Vec<u8>>> = written
        .into_iter()
        .map(|r| match r.outcome {
            Outcome::Wrote(contents) => Some(contents),
            _ => panic!("write mode must produce contents"),
        })
        .collect();

    let checked = run_fixture(&fixture, &strategy, count, &on_disk, Mode::Check);
    let summary = summarize(&checked);
    assert_eq!(summary.items, 3);
    assert_eq!(summary.changed, 0);
    assert!(no_drift(&summary));
}

#[test]
fn malformed_existing_files_are_flagged_and_treated_as_additions() {
    let fixture = demo_fixture();
    let new = item("[dependencies]\nnew = \"2\"\n");
    let garbled: Vec<u8> = b"[package]\nno markers here\n".to_vec();
    let report = process_item(&fixture, 0, &new, Some(&garbled), Mode::Check);
    assert!(report.malformed);
    // Treated as an addition: the diff is against the empty template.
    let against_absent = process_item(&fixture, 0, &new, None, Mode::Check);
    match (&report.outcome, &against_absent.outcome) {
        (Outcome::Changed(a), Outcome::Changed(b)) => assert_eq!(a, b),
        _ => panic!("both must report a diff"),
    }
}

#[test]
fn check_mode_on_absent_files_reports_drift() {
    let fixture = demo_fixture();
    let strategy = SeedSummaryStrategy;
    let absent: Vec<Option<Vec<u8>>> = vec![None, None];
    let reports = run_fixture(&fixture, &strategy, 2, &absent, Mode::Check);
    let summary = summarize(&reports);
    assert_eq!(summary.items, 2);
    assert_eq!(summary.changed, 2);
    assert_eq!(summary.malformed, 0);
    assert!(!no_drift(&summary));
}

#[test]
fn check_failures_are_counted_but_do_not_stop_the_run() {
    let fixture = demo_fixture();
    let strategy = SeedSummaryStrategy;
    let garbled: Vec<Option<Vec<u8>>> = vec![Some(b"no markers\n".to_vec()), None];
    let reports = run_fixture(&fixture, &strategy, 2, &garbled, Mode::Check);
    assert_eq!(reports.len(), 2);
    let summary = summarize(&reports);
    assert_eq!(summary.items, 2);
    assert_eq!(summary.malformed, 1);
    assert!(!no_drift(&summary));
}
