//! The reconciliation driver: for each generated item it loads nothing
//! itself — the caller hands it the bytes found at the item's target path,
//! or `None` when no file exists — and decides what check mode or write
//! mode does with that item.  An existing file whose markers cannot be
//! located is treated as no existing artifact (a full addition) and flagged
//! so the caller can surface a warning; errors are collected per item and
//! never stop the remaining items from being processed.

use vstd::prelude::*;
use crate::adapter::Fixture;
use crate::adapter::HakariTomlContext;
use crate::adapter::HakariTomlItem;
use crate::adapter::patch_text_of;
use crate::adapter::template_spec;
use crate::byteseq::bytes_eq;
use crate::byteseq::push_bytes;
use crate::section::ExistingArtifact;
use crate::section::ParseError;
use crate::section::empty_template_section;
use crate::section::lemma_no_end_marker_splices_clean;
use crate::section::lemma_splice_then_parse;
use crate::section::no_end_marker_within;
use crate::section::parse_markers;
use crate::section::section_of;
use crate::section::spliced;
use crate::strategy::SeedSummaryStrategy;
use crate::strategy::Strategy;
use crate::strategy::lemma_seed_summary_output_is_clean;
use crate::strategy::item_output;

verus! {

/// The two modes of a reconciliation run.
#[derive(Clone, Copy, Debug, PartialEq, Eq, Structural)]
pub enum Mode {
    /// Report diffs; touch nothing.
    Check,
    /// Produce reconciled file contents for the caller to write out.
    Write,
}

/// What the driver decided for one item.
pub enum Outcome {
    /// Check mode: the generated section already matches the item.
    Unchanged,
    /// Check mode: the item differs; the rendered diff is attached.
    Changed(Vec<u8>),
    /// Write mode: the reconciled file contents to be written.
    Wrote(Vec<u8>),
    /// Write mode: no reconciled contents could be produced.
    Failed(ParseError),
}

/// The driver's decision for one (fixture, index) pair.
pub struct ItemReport {
    /// The item's index in the fixture's generated sequence.
    pub index: usize,
    /// An existing file was present but its markers could not be located;
    /// the item was treated as a full addition and should be warned about.
    pub malformed: bool,
    /// What check or write mode decided.
    pub outcome: Outcome,
}

/// The bytes found on disk, viewed as a sequence.
pub open spec fn existing_view(e: Option<&Vec<u8>>) -> Option<Seq<u8>> {
    match e {
        Some(v) => Some(v@),
        None => None,
    }
}

/// The bytes found on disk, viewed as a sequence, for an owned slot.
pub open spec fn existing_slot_view(e: Option<Vec<u8>>) -> Option<Seq<u8>> {
    match e {
        Some(v) => Some(v@),
        None => None,
    }
}

/// A file was present but its markers could not be located.
pub open spec fn is_malformed(e: Option<Seq<u8>>) -> bool {
    e matches Some(c) && parse_markers(c) is None
}

/// What the item is compared against: the generated section of the existing
/// file, or the empty template's section when the file is absent or its
/// markers cannot be located.
pub open spec fn base_section(e: Option<Seq<u8>>) -> Seq<u8> {
    match e {
        Some(c) => match parse_markers(c) {
            Some(se) => section_of(c, se.0, se.1),
            None => empty_template_section(),
        },
        None => empty_template_section(),
    }
}

/// What write mode produces for an item whose target file is absent or
/// malformed: the fresh template with the item spliced in, or a failure
/// when the fixture name itself disrupts the template's markers.
pub open spec fn fresh_write_matches(name: Seq<char>, toml: Seq<u8>, r: ItemReport) -> bool {
    match parse_markers(template_spec(name)) {
        Some(se) => r.outcome matches Outcome::Wrote(w) && w@ == spliced(
            template_spec(name),
            se.0,
            se.1,
            toml,
        ),
        None => r.outcome matches Outcome::Failed(e) && e
            == ParseError::GeneratedSectionNotFound,
    }
}

/// The driver's contract for one item: what report each mode produces from
/// the fixture name, the bytes found on disk, and the item's serialization.
pub open spec fn report_matches(
    mode: Mode,
    name: Seq<char>,
    existing: Option<Seq<u8>>,
    toml: Seq<u8>,
    index: int,
    r: ItemReport,
) -> bool {
    &&& r.index == index
    &&& r.malformed == is_malformed(existing)
    &&& match mode {
        Mode::Check => {
            if base_section(existing) != toml {
                r.outcome matches Outcome::Changed(d) && d@ == patch_text_of(
                    base_section(existing),
                    toml,
                )
            } else {
                r.outcome is Unchanged
            }
        },
        Mode::Write => {
            match existing {
                Some(c) => {
                    if parse_markers(c) is Some {
                        let se = parse_markers(c)->Some_0;
                        r.outcome matches Outcome::Wrote(w) && w@ == spliced(c, se.0, se.1, toml)
                    } else {
                        fresh_write_matches(name, toml, r)
                    }
                },
                None => fresh_write_matches(name, toml, r),
            }
        },
    }
}

/// Decides one item: compares the freshly generated item against what is on
/// disk and reports the diff (check mode) or the reconciled contents (write
/// mode).  An absent file, or one without recognisable markers, is handled
/// as a full addition.
pub fn process_item(
    fixture: &Fixture,
    index: usize,
    item: &HakariTomlItem,
    existing: Option<&Vec<u8>>,
    mode: Mode,
) -> (r: ItemReport)
    ensures
        report_matches(mode, fixture.name@, existing_view(existing), item.toml@, index as int, r),
{
    let mut malformed = false;
    let parsed: Option<ExistingArtifact> = match existing {
        None => None,
        Some(c) => {
            let mut copy: Vec<u8> = Vec::new();
            push_bytes(&mut copy, c);
            match ExistingArtifact::parse(copy) {
                Ok(a) => Some(a),
                Err(_) => {
                    malformed = true;
                    None
                },
            }
        },
    };
    let outcome: Outcome = match mode {
        Mode::Check => {
            match &parsed {
                Some(a) => {
                    if HakariTomlContext::is_changed(item, a) {
                        Outcome::Changed(HakariTomlContext::diff(fixture, item, Some(a)))
                    } else {
                        Outcome::Unchanged
                    }
                },
                None => {
                    let mut base: Vec<u8> = Vec::new();
                    base.push(10u8);
                    proof {
                        assert(base@ =~= empty_template_section());
                    }
                    if bytes_eq(&base, &item.toml) {
                        Outcome::Unchanged
                    } else {
                        Outcome::Changed(HakariTomlContext::diff(fixture, item, None))
                    }
                },
            }
        },
        Mode::Write => {
            match &parsed {
                Some(a) => {
                    let mut out: Vec<u8> = Vec::new();
                    a.write_to(&item.toml, &mut out);
                    Outcome::Wrote(out)
                },
                None => {
                    let mut out: Vec<u8> = Vec::new();
                    match HakariTomlContext::write_to_string(fixture, item, &mut out) {
                        Ok(_) => Outcome::Wrote(out),
                        Err(e) => Outcome::Failed(e),
                    }
                },
            }
        },
    };
    ItemReport { index, malformed, outcome }
}

/// Runs one fixture: generates items `0..count`, and decides each one
/// against the bytes the caller found at its target path.
pub fn run_fixture<S: Strategy>(
    fixture: &Fixture,
    strategy: &S,
    count: usize,
    existing: &Vec<Option<Vec<u8>>>,
    mode: Mode,
) -> (r: Vec<ItemReport>)
    requires
        existing@.len() == count,
    ensures
        r@.len() == count,
        forall|i: int|
            0 <= i < count ==> report_matches(
                mode,
                fixture.name@,
                existing_slot_view(existing@[i]),
                item_output(strategy, fixture.name@, i),
                i,
                #[trigger] r@[i],
            ),
{
    let items = HakariTomlContext::iter(fixture, count, strategy);
    let mut reports: Vec<ItemReport> = Vec::new();
    let mut idx: usize = 0;
    while idx < count
        invariant
            idx <= count,
            existing@.len() == count,
            items@.len() == count,
            forall|i: int|
                0 <= i < count ==> (#[trigger] items@[i]).0 == i && items@[i].1.toml@
                    == item_output(strategy, fixture.name@, i),
            reports@.len() == idx,
            forall|i: int|
                0 <= i < idx ==> report_matches(
                    mode,
                    fixture.name@,
                    existing_slot_view(existing@[i]),
                    item_output(strategy, fixture.name@, i),
                    i,
                    #[trigger] reports@[i],
                ),
        decreases count - idx,
    {
        let item = &items[idx].1;
        let report = process_item(fixture, idx, item, existing[idx].as_ref(), mode);
        reports.push(report);
        idx += 1;
    }
    reports
}

/// How many reports carry a diff.
pub open spec fn count_changed(rs: Seq<ItemReport>) -> int
    decreases rs.len(),
{
    if rs.len() == 0 {
        0
    } else {
        count_changed(rs.drop_last()) + if rs.last().outcome is Changed {
            1int
        } else {
            0int
        }
    }
}

/// How many reports flag a malformed existing file.
pub open spec fn count_malformed(rs: Seq<ItemReport>) -> int
    decreases rs.len(),
{
    if rs.len() == 0 {
        0
    } else {
        count_malformed(rs.drop_last()) + if rs.last().malformed {
            1int
        } else {
            0int
        }
    }
}

/// How many reports failed outright.
pub open spec fn count_failed(rs: Seq<ItemReport>) -> int
    decreases rs.len(),
{
    if rs.len() == 0 {
        0
    } else {
        count_failed(rs.drop_last()) + if rs.last().outcome is Failed {
            1int
        } else {
            0int
        }
    }
}

/// The counts never exceed the number of reports.
pub proof fn lemma_counts_bounded(rs: Seq<ItemReport>)
    ensures
        0 <= count_changed(rs) <= rs.len(),
        0 <= count_malformed(rs) <= rs.len(),
        0 <= count_failed(rs) <= rs.len(),
    decreases rs.len(),
{
    if rs.len() > 0 {
        lemma_counts_bounded(rs.drop_last());
    }
}

/// The aggregate result of a run, collected across all fixtures and items.
pub struct Summary {
    /// How many items were processed.
    pub items: usize,
    /// How many items carried a diff.
    pub changed: usize,
    /// How many existing files had unrecognisable markers.
    pub malformed: usize,
    /// How many items failed outright.
    pub failed: usize,
}

/// Tallies a run's reports.
pub fn summarize(rs: &Vec<ItemReport>) -> (s: Summary)
    ensures
        s.items == rs@.len(),
        s.changed == count_changed(rs@),
        s.malformed == count_malformed(rs@),
        s.failed == count_failed(rs@),
{
    let n = rs.len();
    let mut changed: usize = 0;
    let mut malformed: usize = 0;
    let mut failed: usize = 0;
    let mut i: usize = 0;
    while i < n
        invariant
            i <= n,
            n == rs@.len(),
            changed == count_changed(rs@.subrange(0, i as int)),
            malformed == count_malformed(rs@.subrange(0, i as int)),
            failed == count_failed(rs@.subrange(0, i as int)),
        decreases n - i,
    {
        proof {
            lemma_counts_bounded(rs@.subrange(0, i as int));
            assert(rs@.subrange(0, i + 1).drop_last() =~= rs@.subrange(0, i as int));
            assert(rs@.subrange(0, i + 1).last() == rs@[i as int]);
        }
        if matches!(&rs[i].outcome, Outcome::Changed(_)) {
            changed = changed + 1;
        }
        if rs[i].malformed {
            malformed = malformed + 1;
        }
        if matches!(&rs[i].outcome, Outcome::Failed(_)) {
            failed = failed + 1;
        }
        i += 1;
    }
    proof {
        assert(rs@.subrange(0, n as int) =~= rs@);
    }
    Summary { items: n, changed, malformed, failed }
}

/// Whether a check run succeeded: no drift was found anywhere, no existing
/// file was malformed, and nothing failed.
pub fn no_drift(s: &Summary) -> (r: bool)
    ensures
        r == (s.changed == 0 && s.malformed == 0 && s.failed == 0),
{
    s.changed == 0 && s.malformed == 0 && s.failed == 0
}

/// Reconciliation is idempotent at the driver level: when write mode has
/// produced reconciled contents for an item (over an existing file or a
/// fresh template), a check of those contents against the same item finds
/// no difference, provided the item's serialization ends in a newline (or
/// is empty) and contains no end marker line of its own.
pub proof fn lemma_write_then_check_unchanged(c: Seq<u8>, toml: Seq<u8>)
    requires
        parse_markers(c) is Some,
        toml.len() == 0 || toml.last() == 10u8,
        no_end_marker_within(toml),
    ensures
        base_section(
            Some(
                spliced(c, parse_markers(c)->Some_0.0, parse_markers(c)->Some_0.1, toml),
            ),
        ) == toml,
{
    let se = parse_markers(c)->Some_0;
    lemma_no_end_marker_splices_clean(c, se.0, se.1, toml);
    lemma_splice_then_parse(c, se.0, se.1, toml);
}

/// The shipped strategy reconciles idempotently with no side conditions:
/// whatever it generates, writing it and then checking the written file
/// reports no difference.
pub proof fn lemma_seed_summary_write_then_check(c: Seq<u8>, name: Seq<char>, seed: u64)
    requires
        parse_markers(c) is Some,
    ensures
        ({
            let toml = SeedSummaryStrategy.output_of(name, seed);
            let se = parse_markers(c)->Some_0;
            base_section(Some(spliced(c, se.0, se.1, toml))) == toml
        }),
{
    lemma_seed_summary_output_is_clean(name, seed);
    lemma_write_then_check_unchanged(c, SeedSummaryStrategy.output_of(name, seed));
}

} // verus!
