//! The generator strategy contract: how candidate outputs are produced for
//! a fixture is opaque to the reconciliation machinery, but it must be a
//! pure function of the fixture's name and the forked per-index seed.  Under
//! that contract the generated sequence is deterministic, its prefixes are
//! stable under larger requested counts, and each fixture's sequence is
//! independent of which other fixtures are processed.

use vstd::prelude::*;
use vstd::string::StringSliceAdditionalSpecFns;
use vstd::utf8::is_ascii_chars;
use vstd::utf8::is_ascii_chars_encode_utf8;
use crate::byteseq::occurs_at;
use crate::byteseq::push_str_bytes;
use crate::section::end_marker;
use crate::section::lemma_marker_facts;
use crate::section::marker_context;
use crate::section::no_end_marker_within;
use crate::seed::derive_seed_spec;
use crate::seed::fork_seed_spec;

verus! {

/// A generation strategy: an opaque algorithm that turns a forked seed into
/// one candidate output.  Any fixture-specific post-processing must be keyed
/// by the fixture name alone, never by additional randomness, which is why
/// the name is an explicit argument of the contract.
pub trait Strategy: Sized {
    /// What the strategy produces for a given fixture name and seed: a pure
    /// function of its arguments.
    spec fn output_of(&self, name: Seq<char>, seed: u64) -> Seq<u8>;

    /// Produces the candidate output for one forked seed.
    fn generate(&self, name: &str, seed: u64) -> (r: Vec<u8>)
        ensures
            r@ == self.output_of(name@, seed),
    ;
}

/// The output generated at `index` for the fixture named `name`: the
/// strategy applied to the child seed forked from the fixture's root seed.
pub open spec fn item_output<S: Strategy>(s: &S, name: Seq<char>, index: int) -> Seq<u8> {
    s.output_of(name, fork_seed_spec(derive_seed_spec(name), index as u64))
}

/// The whole generated sequence for one fixture, as a function of the
/// strategy, the fixture name and the requested count alone.
pub open spec fn items_spec<S: Strategy>(s: &S, name: Seq<char>, count: int) -> Seq<Seq<u8>> {
    Seq::new(count as nat, |i: int| item_output(s, name, i))
}

/// The per-fixture sequences for a whole batch of fixtures.
pub open spec fn batch_spec<S: Strategy>(
    s: &S,
    names: Seq<Seq<char>>,
    count: int,
) -> Seq<Seq<Seq<u8>>> {
    Seq::new(names.len(), |i: int| items_spec(s, names[i], count))
}

/// Determinism: any two generation runs for the same fixture name, count and
/// strategy produce identical outputs at every index.
pub proof fn lemma_generation_deterministic<S: Strategy>(
    s: &S,
    name: Seq<char>,
    count: int,
    run1: Seq<Seq<u8>>,
    run2: Seq<Seq<u8>>,
)
    requires
        run1 == items_spec(s, name, count),
        run2 == items_spec(s, name, count),
    ensures
        run1 == run2,
{
}

/// Prefix stability: requesting `count + extra` items yields the same first
/// `count` outputs as requesting `count` alone.
pub proof fn lemma_prefix_stability<S: Strategy>(s: &S, name: Seq<char>, count: int, extra: int)
    requires
        0 <= count,
        0 <= extra,
    ensures
        items_spec(s, name, count + extra).subrange(0, count) == items_spec(s, name, count),
{
    assert(items_spec(s, name, count + extra).subrange(0, count) =~= items_spec(
        s,
        name,
        count,
    ));
}

/// Fixture independence: the sequence generated for a fixture depends only
/// on that fixture's own name, not on which other fixtures appear in the
/// batch or where in the batch it stands.
pub proof fn lemma_fixture_independence<S: Strategy>(
    s: &S,
    names1: Seq<Seq<char>>,
    names2: Seq<Seq<char>>,
    i: int,
    j: int,
    count: int,
)
    requires
        0 <= i < names1.len(),
        0 <= j < names2.len(),
        names1[i] == names2[j],
    ensures
        batch_spec(s, names1, count)[i] == batch_spec(s, names2, count)[j],
{
}

/// A simple concrete strategy: the candidate output is a minimal TOML
/// fragment recording the seed it was generated from.  It stands in for the
/// real configuration-building algorithm, which this crate treats as an
/// external collaborator behind the `Strategy` contract.
pub struct SeedSummaryStrategy;

/// The decimal digits of `n`, as bytes.
pub open spec fn dec_bytes(n: u64) -> Seq<u8>
    decreases n,
{
    if n < 10 {
        seq![(48 + n) as u8]
    } else {
        dec_bytes(n / 10) + seq![(48 + n % 10) as u8]
    }
}

/// Appends the decimal digits of `n` to `out`.
pub fn push_decimal(out: &mut Vec<u8>, n: u64)
    ensures
        final(out)@ == old(out)@ + dec_bytes(n),
    decreases n,
{
    if n >= 10 {
        push_decimal(out, n / 10);
    }
    out.push(48u8 + (n % 10) as u8);
    proof {
        if n < 10 {
            assert(out@ =~= old(out)@ + dec_bytes(n));
        } else {
            assert(out@ =~= old(out)@ + dec_bytes(n));
        }
    }
}

/// Every decimal-digit byte is between `0` and `9`.
proof fn lemma_dec_bytes_are_digits(n: u64)
    ensures
        forall|i: int| 0 <= i < dec_bytes(n).len() ==> 48 <= #[trigger] dec_bytes(n)[i] <= 57,
    decreases n,
{
    if n >= 10 {
        lemma_dec_bytes_are_digits(n / 10);
        assert forall|i: int|
            0 <= i < dec_bytes(n).len() implies 48 <= #[trigger] dec_bytes(n)[i] <= 57 by {
            assert(dec_bytes(n) == dec_bytes(n / 10) + seq![(48 + n % 10) as u8]);
            if i < dec_bytes(n / 10).len() {
                assert(dec_bytes(n)[i] == dec_bytes(n / 10)[i]);
            } else {
                assert(dec_bytes(n)[i] == (48 + n % 10) as u8);
            }
        }
    }
}

/// The concrete strategy's outputs always reconcile idempotently: each one
/// ends in a newline and contains no `#` byte, so it carries no end-marker
/// line of its own.
pub proof fn lemma_seed_summary_output_is_clean(name: Seq<char>, seed: u64)
    ensures
        SeedSummaryStrategy.output_of(name, seed).len() > 0,
        SeedSummaryStrategy.output_of(name, seed).last() == 10u8,
        no_end_marker_within(SeedSummaryStrategy.output_of(name, seed)),
{
    lemma_marker_facts();
    lemma_dec_bytes_are_digits(seed);
    reveal_strlit("[summary]\nseed = ");
    reveal_strlit("\n");
    let head = "[summary]\nseed = "@;
    let tail = "\n"@;
    assert(is_ascii_chars(head));
    assert(is_ascii_chars(tail));
    is_ascii_chars_encode_utf8(head);
    is_ascii_chars_encode_utf8(tail);
    let out = SeedSummaryStrategy.output_of(name, seed);
    assert(out.last() == 10u8);
    assert(forall|i: int| 0 <= i < out.len() ==> #[trigger] out[i] != 35u8);
    let w = marker_context(out);
    let el = end_marker().len() as int;
    assert forall|k: int| 0 <= k < out.len() implies !occurs_at(w, end_marker(), k) by {
        if occurs_at(w, end_marker(), k) {
            assert(w.subrange(k, k + el)[1] == w[k + 1]);
            assert(w[k + 1] == out[k]);
            assert(w[k + 1] == end_marker()[1]);
        }
    }
}

impl Strategy for SeedSummaryStrategy {
    open spec fn output_of(&self, name: Seq<char>, seed: u64) -> Seq<u8> {
        "[summary]\nseed = ".spec_bytes() + dec_bytes(seed) + "\n".spec_bytes()
    }

    fn generate(&self, name: &str, seed: u64) -> (r: Vec<u8>) {
        let mut out: Vec<u8> = Vec::new();
        push_str_bytes(&mut out, "[summary]\nseed = ");
        push_decimal(&mut out, seed);
        push_str_bytes(&mut out, "\n");
        out
    }
}

} // verus!
