//! The marker-delimited artifact format: a file holds a machine-owned
//! generated section between literal `BEGIN`/`END` marker lines; everything
//! outside the markers is hand-written and preserved byte for byte.
//!
//! Parsing mirrors the layout of the files this engine maintains: the
//! generated section starts right after the first begin-marker line and runs
//! up to (and including) the newline that opens the first end-marker line at
//! or after it.  Because the newline that closes the section is shared with
//! the end marker, a section whose text ends in a newline splices back in and
//! re-parses to exactly the same section, which is what makes reconciliation
//! idempotent.

use vstd::prelude::*;
use vstd::string::StringSliceAdditionalSpecFns;
use vstd::utf8::is_ascii_chars;
use vstd::utf8::is_ascii_chars_encode_utf8;
use crate::byteseq::slice_to_vec;
use crate::byteseq::find_from;
use crate::byteseq::find_spec;
use crate::byteseq::occurs_at;
use crate::byteseq::is_first_occurrence;
use crate::byteseq::lemma_find_spec_some;
use crate::byteseq::lemma_find_spec_inv;
use crate::byteseq::push_range;
use crate::byteseq::push_bytes;
use crate::byteseq::bytes_eq;

verus! {

/// The bytes of the line that opens the generated section, with the
/// newline that must precede it and the newline that ends the line.
pub open spec fn begin_marker() -> Seq<u8> {
    "\n### BEGIN HAKARI SECTION\n".spec_bytes()
}

/// The bytes of the line that closes the generated section, with the
/// newline that must precede it and the newline that ends the line.
pub open spec fn end_marker() -> Seq<u8> {
    "\n### END HAKARI SECTION\n".spec_bytes()
}

/// The begin marker as a byte vector.
pub fn begin_marker_bytes() -> (r: Vec<u8>)
    ensures
        r@ == begin_marker(),
{
    slice_to_vec("\n### BEGIN HAKARI SECTION\n".as_bytes())
}

/// The end marker as a byte vector.
pub fn end_marker_bytes() -> (r: Vec<u8>)
    ensures
        r@ == end_marker(),
{
    slice_to_vec("\n### END HAKARI SECTION\n".as_bytes())
}

/// The shape of the markers that the parsing and splicing proofs rely on:
/// both are nonempty, both begin and end with a newline byte, and the
/// byte after the end marker's newline is a `#`.
pub proof fn lemma_marker_facts()
    ensures
        2 <= begin_marker().len(),
        2 <= end_marker().len(),
        begin_marker()[0] == 10u8,
        begin_marker().last() == 10u8,
        end_marker()[0] == 10u8,
        end_marker()[1] == 35u8,
        end_marker().last() == 10u8,
{
    reveal_strlit("\n### BEGIN HAKARI SECTION\n");
    reveal_strlit("\n### END HAKARI SECTION\n");
    let b = "\n### BEGIN HAKARI SECTION\n"@;
    let e = "\n### END HAKARI SECTION\n"@;
    assert(is_ascii_chars(b));
    assert(is_ascii_chars(e));
    is_ascii_chars_encode_utf8(b);
    is_ascii_chars_encode_utf8(e);
}

/// Where the generated section of `c` starts and ends: the start is the
/// position right after the first begin marker, and the end is one past the
/// newline that opens the first end marker at or after `start - 1`.  The
/// search for the end marker starts one byte early so that an empty section
/// (the begin marker's closing newline doubling as the end marker's opening
/// newline) is recognised.
pub open spec fn parse_markers(c: Seq<u8>) -> Option<(int, int)> {
    match find_spec(c, begin_marker(), 0) {
        Some(b) => {
            let start = b + begin_marker().len();
            match find_spec(c, end_marker(), start - 1) {
                Some(j) => Some((start, j + 1)),
                None => None,
            }
        },
        None => None,
    }
}

/// The generated section of `c`, given its parsed offsets.
pub open spec fn section_of(c: Seq<u8>, start: int, end: int) -> Seq<u8> {
    c.subrange(start, end)
}

/// The contents with the generated section replaced by `toml`; everything
/// before `start` and everything from `end` on is kept byte for byte.
pub open spec fn spliced(c: Seq<u8>, start: int, end: int, toml: Seq<u8>) -> Seq<u8> {
    c.subrange(0, start) + toml + c.subrange(end, c.len() as int)
}

/// Bounds and occurrence facts that follow from a successful parse.
pub proof fn lemma_parse_markers_facts(c: Seq<u8>, start: int, end: int)
    requires
        parse_markers(c) == Some((start, end)),
    ensures
        begin_marker().len() <= start <= end,
        end + end_marker().len() <= c.len() + 1,
        is_first_occurrence(c, begin_marker(), 0, start - begin_marker().len()),
        is_first_occurrence(c, end_marker(), start - 1, end - 1),
{
    let b = find_spec(c, begin_marker(), 0)->Some_0;
    let j = find_spec(c, end_marker(), b + begin_marker().len() - 1)->Some_0;
    lemma_find_spec_inv(c, begin_marker(), 0, b);
    lemma_find_spec_inv(c, end_marker(), b + begin_marker().len() - 1, j);
    assert(start == b + begin_marker().len());
    assert(end == j + 1);
}

/// Errors raised when an existing file cannot be interpreted.
#[derive(Clone, Copy, Debug, PartialEq, Eq, Structural)]
pub enum ParseError {
    /// The begin/end marker pair was not found in the file contents.
    GeneratedSectionNotFound,
}

/// An existing artifact: the file contents as read from disk, together with
/// the offsets of its generated section.
pub struct ExistingArtifact {
    contents: Vec<u8>,
    start: usize,
    end: usize,
}

impl ExistingArtifact {
    /// The raw bytes this artifact was parsed from.
    pub closed spec fn contents_spec(&self) -> Seq<u8> {
        self.contents@
    }

    /// Start offset of the generated section.
    pub closed spec fn start_spec(&self) -> int {
        self.start as int
    }

    /// One past the end of the generated section.
    pub closed spec fn end_spec(&self) -> int {
        self.end as int
    }

    /// The offsets stored in the artifact are exactly the parsed ones.
    pub open spec fn wf(&self) -> bool {
        parse_markers(self.contents_spec()) == Some((self.start_spec(), self.end_spec()))
    }

    /// The machine-owned part of the contents.
    pub open spec fn generated(&self) -> Seq<u8> {
        section_of(self.contents_spec(), self.start_spec(), self.end_spec())
    }

    /// Parses file contents, locating the generated section.
    pub fn parse(contents: Vec<u8>) -> (r: Result<ExistingArtifact, ParseError>)
        ensures
            match r {
                Ok(a) => a.wf() && a.contents_spec() == contents@,
                Err(e) => parse_markers(contents@) is None
                    && e == ParseError::GeneratedSectionNotFound,
            },
    {
        proof {
            lemma_marker_facts();
        }
        let begin = begin_marker_bytes();
        let endm = end_marker_bytes();
        let n = contents.len();
        match find_from(&contents, &begin, 0) {
            None => Err(ParseError::GeneratedSectionNotFound),
            Some(b) => {
                let start = b + begin.len();
                match find_from(&contents, &endm, start - 1) {
                    None => Err(ParseError::GeneratedSectionNotFound),
                    Some(j) => Ok(ExistingArtifact { contents, start, end: j + 1 }),
                }
            },
        }
    }

    /// A copy of the raw contents.
    pub fn contents(&self) -> (r: Vec<u8>)
        ensures
            r@ == self.contents_spec(),
    {
        let mut out: Vec<u8> = Vec::new();
        push_bytes(&mut out, &self.contents);
        out
    }

    /// A copy of the machine-owned part of the contents.
    pub fn generated_contents(&self) -> (r: Vec<u8>)
        requires
            self.wf(),
        ensures
            r@ == self.generated(),
    {
        proof {
            lemma_parse_markers_facts(self.contents_spec(), self.start_spec(), self.end_spec());
            lemma_marker_facts();
        }
        let mut out: Vec<u8> = Vec::new();
        push_range(&mut out, &self.contents, self.start, self.end);
        out
    }

    /// True exactly when the generated section differs from `toml`.
    pub fn is_changed(&self, toml: &Vec<u8>) -> (r: bool)
        requires
            self.wf(),
        ensures
            r == (self.generated() != toml@),
    {
        let generated = self.generated_contents();
        !bytes_eq(&generated, toml)
    }

    /// Appends the reconciled file to `out`: the hand-written prefix, then
    /// `toml` as the new generated section, then the hand-written suffix.
    pub fn write_to(&self, toml: &Vec<u8>, out: &mut Vec<u8>)
        requires
            self.wf(),
        ensures
            final(out)@ == old(out)@ + spliced(
                self.contents_spec(),
                self.start_spec(),
                self.end_spec(),
                toml@,
            ),
    {
        proof {
            lemma_parse_markers_facts(self.contents_spec(), self.start_spec(), self.end_spec());
            lemma_marker_facts();
        }
        push_range(out, &self.contents, 0, self.start);
        push_bytes(out, toml);
        push_range(out, &self.contents, self.end, self.contents.len());
    }
}

/// The canonical empty-template artifact: just a begin marker followed by
/// an end marker, sharing no bytes.
pub open spec fn empty_template() -> Seq<u8> {
    begin_marker() + end_marker()
}

/// The generated section of the canonical empty template: the single
/// newline shared between the begin marker's last line and the end marker's
/// first line.
pub open spec fn empty_template_section() -> Seq<u8> {
    seq![10u8]
}

/// The begin marker occurs first, at position 0, in the empty template.
proof fn lemma_empty_template_begin()
    ensures
        is_first_occurrence(empty_template(), begin_marker(), 0, 0),
{
    lemma_marker_facts();
    let c = empty_template();
    let bl = begin_marker().len() as int;
    assert(c.subrange(0, bl) =~= begin_marker());
    assert(occurs_at(c, begin_marker(), 0));
}

/// A pattern cannot occur at `i` when the byte right after `i` differs
/// from the pattern's second byte.
proof fn lemma_no_occurrence_at(c: Seq<u8>, pat: Seq<u8>, i: int)
    requires
        2 <= pat.len(),
        0 <= i,
        i + 1 < c.len(),
        c[i + 1] != pat[1],
    ensures
        !occurs_at(c, pat, i),
{
    if occurs_at(c, pat, i) {
        assert(c.subrange(i, i + pat.len() as int)[1] == c[i + 1]);
    }
}

/// The end marker occurs first, right after the begin marker, in the empty
/// template: it cannot start one byte earlier, because the byte after the
/// begin marker's closing newline is the end marker's newline, not a `#`.
proof fn lemma_empty_template_end()
    ensures
        is_first_occurrence(
            empty_template(),
            end_marker(),
            begin_marker().len() - 1,
            begin_marker().len() as int,
        ),
{
    lemma_marker_facts();
    let c = empty_template();
    let bl = begin_marker().len() as int;
    let el = end_marker().len() as int;
    assert(c.subrange(bl, bl + el) =~= end_marker());
    assert(occurs_at(c, end_marker(), bl));
    assert(c[bl] == end_marker()[0]);
    lemma_no_occurrence_at(c, end_marker(), bl - 1);
    assert forall|j: int| bl - 1 <= j < bl implies !occurs_at(c, end_marker(), j) by {
        assert(j == bl - 1);
    }
}

/// The empty template parses, and its generated section is the single
/// newline between the two markers.  An absent file is diffed against this
/// template, so a first generation shows the whole new section as added.
pub proof fn lemma_empty_template_section()
    ensures
        parse_markers(empty_template()) == Some(
            (begin_marker().len() as int, begin_marker().len() as int + 1),
        ),
        section_of(
            empty_template(),
            begin_marker().len() as int,
            begin_marker().len() as int + 1,
        ) == empty_template_section(),
{
    lemma_marker_facts();
    let c = empty_template();
    let bl = begin_marker().len() as int;
    lemma_empty_template_begin();
    lemma_find_spec_some(c, begin_marker(), 0, 0);
    lemma_empty_template_end();
    lemma_find_spec_some(c, end_marker(), bl - 1, bl);
    assert(c[bl] == end_marker()[0]);
    assert(section_of(c, bl, bl + 1) =~= seq![10u8]);
}

/// Everything outside the generated section survives a splice unchanged:
/// the bytes before the section start and the bytes from the section end on
/// are byte-identical in the spliced output.
pub proof fn lemma_marker_preservation(c: Seq<u8>, start: int, end: int, toml: Seq<u8>)
    requires
        parse_markers(c) == Some((start, end)),
    ensures
        spliced(c, start, end, toml).len() == start + toml.len() + (c.len() - end),
        spliced(c, start, end, toml).subrange(0, start) == c.subrange(0, start),
        spliced(c, start, end, toml).subrange(
            start + toml.len() as int,
            spliced(c, start, end, toml).len() as int,
        ) == c.subrange(end, c.len() as int),
{
    lemma_parse_markers_facts(c, start, end);
    lemma_marker_facts();
    let out = spliced(c, start, end, toml);
    assert(out.subrange(0, start) =~= c.subrange(0, start));
    assert(out.subrange(start + toml.len() as int, out.len() as int) =~= c.subrange(
        end,
        c.len() as int,
    ));
}

/// No end marker occurs in the spliced contents strictly before the end of
/// the new generated section.  This is the condition under which the new
/// section is found again on a re-parse; a section that contains an end
/// marker line of its own would be cut short there instead.
pub open spec fn splice_clean(c: Seq<u8>, start: int, end: int, toml: Seq<u8>) -> bool {
    forall|j: int|
        start - 1 <= j < start + toml.len() - 1 ==> !occurs_at(
            spliced(c, start, end, toml),
            end_marker(),
            j,
        )
}

/// The end marker's bytes after its leading newline.
pub open spec fn end_tail() -> Seq<u8> {
    end_marker().subrange(1, end_marker().len() as int)
}

/// A section as it sits in a spliced file: preceded by the newline that
/// closes the begin-marker line, followed by the end-marker line.
pub open spec fn marker_context(toml: Seq<u8>) -> Seq<u8> {
    seq![10u8] + toml + end_tail()
}

/// The section carries no end-marker line of its own: read in the context
/// it is spliced into, the end marker never starts inside the section.
pub open spec fn no_end_marker_within(toml: Seq<u8>) -> bool {
    forall|k: int| 0 <= k < toml.len() ==> !occurs_at(marker_context(toml), end_marker(), k)
}

/// A section with no end-marker line of its own splices cleanly into any
/// parsed file.
pub proof fn lemma_no_end_marker_splices_clean(c: Seq<u8>, start: int, end: int, toml: Seq<u8>)
    requires
        parse_markers(c) == Some((start, end)),
        no_end_marker_within(toml),
    ensures
        splice_clean(c, start, end, toml),
{
    lemma_parse_markers_facts(c, start, end);
    lemma_marker_facts();
    let c2 = spliced(c, start, end, toml);
    let w = marker_context(toml);
    let el = end_marker().len() as int;
    let bl = begin_marker().len() as int;
    let len = toml.len() as int;
    assert(c.subrange(end - 1, end - 1 + el) == end_marker());
    assert(c.subrange(start - bl, start) == begin_marker());
    assert(c[start - 1] == begin_marker()[bl - 1]);
    assert forall|j: int|
        start - 1 <= j < start + len - 1 implies !occurs_at(c2, end_marker(), j) by {
        let k = j - (start - 1);
        if occurs_at(c2, end_marker(), j) {
            // The window at `j` in the spliced file reads the same bytes as
            // the window at `k` in the section's own marker context.
            assert forall|t: int| 0 <= t < el implies c2[j + t] == #[trigger] w[k + t] by {
                let p = j + t;
                if p == start - 1 {
                    assert(c2[p] == c[start - 1]);
                } else if p < start + len {
                    assert(c2[p] == toml[p - start]);
                } else {
                    let m = p - start - len;
                    assert(c2[p] == c[end + m]);
                    assert(c.subrange(end - 1, end - 1 + el)[m + 1] == c[end + m]);
                }
            }
            assert(c2.subrange(j, j + el) =~= w.subrange(k, k + el));
            assert(occurs_at(w, end_marker(), k));
        }
    }
}

/// Splicing a section that ends in a newline (or is empty) and contains no
/// end marker of its own, then parsing the result, finds exactly the new
/// section again.
pub proof fn lemma_splice_then_parse(c: Seq<u8>, start: int, end: int, toml: Seq<u8>)
    requires
        parse_markers(c) == Some((start, end)),
        toml.len() == 0 || toml.last() == 10u8,
        splice_clean(c, start, end, toml),
    ensures
        parse_markers(spliced(c, start, end, toml)) == Some(
            (start, start + toml.len() as int),
        ),
        section_of(spliced(c, start, end, toml), start, start + toml.len() as int) == toml,
{
    lemma_parse_markers_facts(c, start, end);
    lemma_marker_facts();
    let c2 = spliced(c, start, end, toml);
    let bl = begin_marker().len() as int;
    let el = end_marker().len() as int;
    let b = start - bl;
    let n = c.len() as int;

    // The prefix, including the begin marker, is unchanged.
    assert(forall|i: int| 0 <= i < start ==> c2[i] == c[i]);

    // The begin marker still occurs first at `b`.
    assert(c2.subrange(b, b + bl) =~= c.subrange(b, b + bl));
    assert(occurs_at(c2, begin_marker(), b));
    assert forall|j: int| 0 <= j < b implies !occurs_at(c2, begin_marker(), j) by {
        if occurs_at(c2, begin_marker(), j) {
            assert(c2.subrange(j, j + bl) =~= c.subrange(j, j + bl));
            assert(occurs_at(c, begin_marker(), j));
        }
    }
    assert(is_first_occurrence(c2, begin_marker(), 0, b));
    lemma_find_spec_some(c2, begin_marker(), 0, b);

    // The end marker occurs at the newline that closes the new section: the
    // section's own final newline when it is nonempty, or the begin marker's
    // closing newline when it is empty.
    let j2 = start + toml.len() - 1;
    assert(c.subrange(end - 1, end - 1 + el) == end_marker());
    assert forall|k: int| 0 <= k < el implies c2[j2 + k] == end_marker()[k] by {
        if k == 0 {
            if toml.len() == 0 {
                assert(c2[j2] == c[start - 1]);
                assert(c[start - 1] == begin_marker()[bl - 1]);
            } else {
                assert(c2[j2] == toml.last());
            }
        } else {
            // Past the section's closing newline, `c2` continues with the
            // suffix of `c` that starts at `end`, which carries the rest of
            // the end marker line.
            assert(c2[j2 + k] == c[end + k - 1]);
            assert(c.subrange(end - 1, end - 1 + el)[k] == c[end - 1 + k]);
        }
    }
    assert(c2.subrange(j2, j2 + el) =~= end_marker());
    assert(occurs_at(c2, end_marker(), j2));
    assert(is_first_occurrence(c2, end_marker(), start - 1, j2));
    lemma_find_spec_some(c2, end_marker(), start - 1, j2);

    assert(parse_markers(c2) == Some((start, start + toml.len() as int)));
    assert(section_of(c2, start, start + toml.len() as int) =~= toml);
}

/// Reconciliation is idempotent: after a section that ends in a newline
/// (or is empty) and carries no end-marker line of its own is spliced in,
/// the result parses again and its generated section equals the section
/// that was written, so a subsequent change check reports no difference.
pub proof fn lemma_reconcile_idempotent(c: Seq<u8>, start: int, end: int, toml: Seq<u8>)
    requires
        parse_markers(c) == Some((start, end)),
        toml.len() == 0 || toml.last() == 10u8,
        no_end_marker_within(toml),
    ensures
        ({
            let c2 = spliced(c, start, end, toml);
            &&& parse_markers(c2) is Some
            &&& section_of(c2, parse_markers(c2)->Some_0.0, parse_markers(c2)->Some_0.1)
                == toml
        }),
{
    lemma_no_end_marker_splices_clean(c, start, end, toml);
    lemma_splice_then_parse(c, start, end, toml);
}

} // verus!
