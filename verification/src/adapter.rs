//! The artifact adapter for workspace-hack `Cargo.toml` fixtures: where a
//! fixture's generated files live, how they are named, how candidate items
//! are produced, and how an item is compared against, diffed with, and
//! written over what is on disk.

use vstd::prelude::*;
use vstd::string::StringSliceAdditionalSpecFns;
use vstd::string::StringExecFns;
use vstd::utf8::encode_utf8;
use crate::byteseq::push_slice;
use crate::byteseq::push_str_bytes;
use crate::section::ExistingArtifact;
use crate::section::ParseError;
use crate::section::empty_template_section;
use crate::section::parse_markers;
use crate::section::spliced;
use crate::seed::derive_seed;
use crate::seed::derive_seed_spec;
use crate::seed::fork_seed;
use crate::strategy::Strategy;
use crate::strategy::item_output;

verus! {

/// A named test scenario: its stable name, used both for file naming and
/// for seeding, and the path of its metadata file, next to which the
/// generated files live.
pub struct Fixture {
    /// The fixture's stable name.
    pub name: String,
    /// The path of the fixture's metadata file.
    pub abs_path: String,
}

/// One generated candidate: the serialized configuration produced for one
/// index of a fixture's sequence.
pub struct HakariTomlItem {
    /// The canonical serialization of the generated configuration.
    pub toml: Vec<u8>,
}

/// The directory that would hold a path's siblings, as camino computes it.
pub uninterp spec fn parent_of(p: Seq<char>) -> Option<Seq<char>>;

/// A path extended by one further component, as camino computes it.
pub uninterp spec fn join_of(base: Seq<char>, child: Seq<char>) -> Seq<char>;

/// Relies on camino's `Utf8Path::parent`: the path without its final
/// component, `None` for an empty or root path; a pure function of the
/// path string.
#[verifier::external_body]
fn path_parent(p: &str) -> (r: Option<String>)
    ensures
        match r {
            Some(d) => parent_of(p@) == Some(d@),
            None => parent_of(p@) is None,
        },
{
    camino::Utf8Path::new(p).parent().map(|d| d.as_str().to_owned())
}

/// Relies on camino's `Utf8Path::join`: the base path with the child
/// component adjoined, inserting a separator when one is needed; a pure
/// function of the two strings.
#[verifier::external_body]
fn path_join(base: &str, child: &str) -> (r: String)
    ensures
        r@ == join_of(base@, child@),
{
    camino::Utf8Path::new(base).join(child).into_string()
}

/// The rendered unified diff between two byte strings.
pub uninterp spec fn patch_text_of(original: Seq<u8>, modified: Seq<u8>) -> Seq<u8>;

/// Relies on diffy's `create_patch_bytes` and `Patch::to_bytes`: the
/// rendered unified diff between the two byte strings, a pure function of
/// its two arguments.
#[verifier::external_body]
fn render_patch(original: &Vec<u8>, modified: &Vec<u8>) -> (r: Vec<u8>)
    ensures
        r@ == patch_text_of(original@, modified@),
{
    diffy::create_patch_bytes(original.as_slice(), modified.as_slice()).to_bytes()
}

/// The character of one decimal digit.
pub open spec fn digit_char(d: u64) -> char {
    if d == 0 {
        '0'
    } else if d == 1 {
        '1'
    } else if d == 2 {
        '2'
    } else if d == 3 {
        '3'
    } else if d == 4 {
        '4'
    } else if d == 5 {
        '5'
    } else if d == 6 {
        '6'
    } else if d == 7 {
        '7'
    } else if d == 8 {
        '8'
    } else {
        '9'
    }
}

/// The decimal digits of `n`, as characters.
pub open spec fn dec_chars(n: u64) -> Seq<char>
    decreases n,
{
    if n < 10 {
        seq![digit_char(n)]
    } else {
        dec_chars(n / 10) + seq![digit_char(n % 10)]
    }
}

/// Appends one decimal digit to `out`.
fn push_digit(out: &mut String, d: u64)
    requires
        d < 10,
    ensures
        final(out)@ == old(out)@ + seq![digit_char(d)],
{
    proof {
        reveal_strlit("0");
        reveal_strlit("1");
        reveal_strlit("2");
        reveal_strlit("3");
        reveal_strlit("4");
        reveal_strlit("5");
        reveal_strlit("6");
        reveal_strlit("7");
        reveal_strlit("8");
        reveal_strlit("9");
    }
    if d == 0 {
        out.append("0");
    } else if d == 1 {
        out.append("1");
    } else if d == 2 {
        out.append("2");
    } else if d == 3 {
        out.append("3");
    } else if d == 4 {
        out.append("4");
    } else if d == 5 {
        out.append("5");
    } else if d == 6 {
        out.append("6");
    } else if d == 7 {
        out.append("7");
    } else if d == 8 {
        out.append("8");
    } else {
        out.append("9");
    }
    proof {
        assert(out@ =~= old(out)@ + seq![digit_char(d)]);
    }
}

/// Appends the decimal digits of `n` to `out`.
fn push_decimal_chars(out: &mut String, n: u64)
    ensures
        final(out)@ == old(out)@ + dec_chars(n),
    decreases n,
{
    if n >= 10 {
        push_decimal_chars(out, n / 10);
    }
    push_digit(out, n % 10);
    proof {
        assert(out@ =~= old(out)@ + dec_chars(n));
    }
}

/// Decimal digit characters determine their digit.
proof fn lemma_digit_char_injective(a: u64, b: u64)
    requires
        a < 10,
        b < 10,
        digit_char(a) == digit_char(b),
    ensures
        a == b,
{
}

/// One digit for small numbers, more for larger ones.
proof fn lemma_dec_chars_len(n: u64)
    ensures
        1 <= dec_chars(n).len(),
        n < 10 <==> dec_chars(n).len() == 1,
    decreases n,
{
    if n >= 10 {
        lemma_dec_chars_len(n / 10);
    }
}

/// The decimal representation determines the number.
pub proof fn lemma_dec_chars_injective(a: u64, b: u64)
    requires
        dec_chars(a) == dec_chars(b),
    ensures
        a == b,
    decreases a,
{
    lemma_dec_chars_len(a);
    lemma_dec_chars_len(b);
    assert(dec_chars(a).last() == digit_char(a % 10));
    assert(dec_chars(b).last() == digit_char(b % 10));
    lemma_digit_char_injective(a % 10, b % 10);
    if a < 10 && b < 10 {
    } else if a >= 10 && b >= 10 {
        assert(dec_chars(a).drop_last() =~= dec_chars(a / 10));
        assert(dec_chars(b).drop_last() =~= dec_chars(b / 10));
        lemma_dec_chars_injective(a / 10, b / 10);
    }
}

/// File names never collide: for one fixture, the name of the item at one
/// index never equals the name of the item at another.
pub proof fn lemma_file_name_injective(name: Seq<char>, i: u64, j: u64)
    requires
        file_name_spec(name, i) == file_name_spec(name, j),
    ensures
        i == j,
{
    lemma_dec_chars_len(i);
    lemma_dec_chars_len(j);
    let fi = file_name_spec(name, i);
    let fj = file_name_spec(name, j);
    let pre = name.len() + "-"@.len();
    let suf = ".toml"@.len() as int;
    assert(fi.len() == pre + dec_chars(i).len() + suf);
    assert(fj.len() == pre + dec_chars(j).len() + suf);
    assert(dec_chars(i) =~= fi.subrange(pre as int, fi.len() - suf));
    assert(dec_chars(j) =~= fj.subrange(pre as int, fj.len() - suf));
    lemma_dec_chars_injective(i, j);
}

/// Where a fixture's generated files live: a `hakari` directory next to
/// the fixture's metadata file.
pub open spec fn dir_name_spec(abs_path: Seq<char>) -> Option<Seq<char>> {
    match parent_of(abs_path) {
        Some(d) => Some(join_of(d, "hakari"@)),
        None => None,
    }
}

/// The file name of one generated item: `{fixture-name}-{index}.toml`.
pub open spec fn file_name_spec(name: Seq<char>, index: u64) -> Seq<char> {
    name + "-"@ + dec_chars(index) + ".toml"@
}

/// The skeleton written for a brand-new file: a provenance comment naming
/// the fixture and the exact regeneration command, empty section markers,
/// and a trailing hand-written line.
pub open spec fn template_spec(name: Seq<char>) -> Seq<u8> {
    "# This file is @generated. To regenerate, run:\n#    cargo run -p fixture-manager -- generate-hakari --fixture ".spec_bytes()
        + encode_utf8(name)
        + "\n\n### BEGIN HAKARI SECTION\n\n### END HAKARI SECTION\n\n# This part of the file should be preserved at the end.\n".spec_bytes()
}

/// The adapter for workspace-hack `Cargo.toml` artifacts.
pub struct HakariTomlContext;

impl HakariTomlContext {
    /// The directory holding the fixture's generated files, or `None` when
    /// the fixture's metadata path has no enclosing directory.
    pub fn dir_name(fixture: &Fixture) -> (r: Option<String>)
        ensures
            match r {
                Some(d) => dir_name_spec(fixture.abs_path@) == Some(d@),
                None => dir_name_spec(fixture.abs_path@) is None,
            },
    {
        match path_parent(fixture.abs_path.as_str()) {
            Some(d) => Some(path_join(d.as_str(), "hakari")),
            None => None,
        }
    }

    /// The file name of the item at `index`.
    pub fn file_name(fixture: &Fixture, index: usize) -> (r: String)
        ensures
            r@ == file_name_spec(fixture.name@, index as u64),
    {
        let mut out = fixture.name.clone();
        out.append("-");
        push_decimal_chars(&mut out, index as u64);
        out.append(".toml");
        out
    }

    /// The full target path of the item at `index`, or `None` when the
    /// fixture's metadata path has no enclosing directory.
    pub fn target_path(fixture: &Fixture, index: usize) -> (r: Option<String>)
        ensures
            match r {
                Some(p) => dir_name_spec(fixture.abs_path@) is Some && p@ == join_of(
                    dir_name_spec(fixture.abs_path@)->Some_0,
                    file_name_spec(fixture.name@, index as u64),
                ),
                None => dir_name_spec(fixture.abs_path@) is None,
            },
    {
        match Self::dir_name(fixture) {
            Some(d) => {
                let file = Self::file_name(fixture, index);
                Some(path_join(d.as_str(), file.as_str()))
            },
            None => None,
        }
    }

    /// Produces the fixture's candidate items for indices `0..count`.  Each
    /// item's output is a pure function of the fixture's name and its own
    /// index: a fresh child seed is forked from the fixture's root seed per
    /// index, so the item at index `i` is the same whatever count is
    /// requested and whatever other fixtures are processed.
    pub fn iter<S: Strategy>(fixture: &Fixture, count: usize, strategy: &S) -> (r: Vec<
        (usize, HakariTomlItem),
    >)
        ensures
            r@.len() == count,
            forall|i: int|
                0 <= i < count ==> (#[trigger] r@[i]).0 == i && r@[i].1.toml@ == item_output(
                    strategy,
                    fixture.name@,
                    i,
                ),
    {
        let root = derive_seed(fixture.name.as_str());
        let mut out: Vec<(usize, HakariTomlItem)> = Vec::new();
        let mut idx: usize = 0;
        while idx < count
            invariant
                idx <= count,
                root == derive_seed_spec(fixture.name@),
                out@.len() == idx,
                forall|i: int|
                    0 <= i < idx ==> (#[trigger] out@[i]).0 == i && out@[i].1.toml@
                        == item_output(strategy, fixture.name@, i),
            decreases count - idx,
        {
            let child = fork_seed(root, idx as u64);
            let toml = strategy.generate(fixture.name.as_str(), child);
            out.push((idx, HakariTomlItem { toml }));
            idx += 1;
        }
        out
    }

    /// Parses existing on-disk contents, locating the generated section.
    pub fn parse_existing(contents: Vec<u8>) -> (r: Result<ExistingArtifact, ParseError>)
        ensures
            match r {
                Ok(a) => a.wf() && a.contents_spec() == contents@,
                Err(e) => parse_markers(contents@) is None && e
                    == ParseError::GeneratedSectionNotFound,
            },
    {
        ExistingArtifact::parse(contents)
    }

    /// True exactly when the existing artifact's generated section differs
    /// from the item's serialization.
    pub fn is_changed(item: &HakariTomlItem, existing: &ExistingArtifact) -> (r: bool)
        requires
            existing.wf(),
        ensures
            r == (existing.generated() != item.toml@),
    {
        existing.is_changed(&item.toml)
    }

    /// Renders the diff between the existing generated section and the
    /// item.  An absent artifact is diffed against the canonical empty
    /// template, so a first generation shows the whole section as added.
    pub fn diff(fixture: &Fixture, item: &HakariTomlItem, existing: Option<&ExistingArtifact>) -> (r:
        Vec<u8>)
        requires
            existing matches Some(e) ==> e.wf(),
        ensures
            match existing {
                Some(e) => r@ == patch_text_of(e.generated(), item.toml@),
                None => r@ == patch_text_of(empty_template_section(), item.toml@),
            },
    {
        let base: Vec<u8> = match existing {
            Some(e) => e.generated_contents(),
            None => {
                let mut v: Vec<u8> = Vec::new();
                v.push(10u8);
                proof {
                    assert(v@ =~= empty_template_section());
                }
                v
            },
        };
        render_patch(&base, &item.toml)
    }

    /// Appends the reconciled contents for a brand-new file to `out`: the
    /// fresh template with the item spliced into its generated section.
    /// Fails only when the fixture's name itself disrupts the template's
    /// markers.
    pub fn write_to_string(fixture: &Fixture, item: &HakariTomlItem, out: &mut Vec<u8>) -> (r:
        Result<(), ParseError>)
        ensures
            match r {
                Ok(_) => parse_markers(template_spec(fixture.name@)) is Some && final(out)@
                    == old(out)@ + spliced(
                    template_spec(fixture.name@),
                    parse_markers(template_spec(fixture.name@))->Some_0.0,
                    parse_markers(template_spec(fixture.name@))->Some_0.1,
                    item.toml@,
                ),
                Err(e) => parse_markers(template_spec(fixture.name@)) is None && final(out)@
                    == old(out)@ && e == ParseError::GeneratedSectionNotFound,
            },
    {
        let mut template: Vec<u8> = Vec::new();
        push_str_bytes(
            &mut template,
            "# This file is @generated. To regenerate, run:\n#    cargo run -p fixture-manager -- generate-hakari --fixture ",
        );
        push_slice(&mut template, fixture.name.as_str().as_bytes());
        push_str_bytes(
            &mut template,
            "\n\n### BEGIN HAKARI SECTION\n\n### END HAKARI SECTION\n\n# This part of the file should be preserved at the end.\n",
        );
        assert(template@ == template_spec(fixture.name@));
        match ExistingArtifact::parse(template) {
            Ok(a) => {
                a.write_to(&item.toml, out);
                Ok(())
            },
            Err(e) => Err(e),
        }
    }
}

} // verus!
