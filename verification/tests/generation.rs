//! Deterministic generation: stable outputs across runs, stable prefixes
//! across counts, independence across fixtures, and the concrete target
//! paths of the `demo` fixture.

use fixture_manager::adapter::Fixture;
use fixture_manager::adapter::HakariTomlContext;
use fixture_manager::seed::derive_seed;
use fixture_manager::seed::fork_seed;
use fixture_manager::strategy::SeedSummaryStrategy;
use fixture_manager::strategy::Strategy;

fn demo_fixture() -> Fixture {
    Fixture { name: String::from("demo"), abs_path: String::from("demo/fixture.json") }
}

fn outputs(fixture: &Fixture, count: usize) -> Vec<Vec<u8>> {
    HakariTomlContext::iter(fixture, count, &SeedSummaryStrategy)
        .into_iter()
        .map(|(_, item)| item.toml)
        .collect()
}

#[test]
fn seed_is_deterministic() {
    assert_eq!(derive_seed("demo"), derive_seed("demo"));
    assert_eq!(
        fork_seed(derive_seed("demo"), 3),
        fork_seed(derive_seed("demo"), 3)
    );
}

#[test]
fn forked_seeds_differ_per_index() {
    let root = derive_seed("demo");
    assert_ne!(fork_seed(root, 0), fork_seed(root, 1));
    assert_ne!(fork_seed(root, 1), fork_seed(root, 2));
}

#[test]
fn generation_is_deterministic() {
    let fixture = demo_fixture();
    let first = outputs(&fixture, 4);
    let second = outputs(&fixture, 4);
    assert_eq!(first, second);
}

#[test]
fn prefixes_are_stable_across_counts() {
    let fixture = demo_fixture();
    let short = outputs(&fixture, 2);
    let long = outputs(&fixture, 5);
    assert_eq!(&long[..2], &short[..]);
}

#[test]
fn fixtures_are_independent() {
    let a = Fixture { name: String::from("alpha"), abs_path: String::from("alpha/fixture.json") };
    let b = Fixture { name: String::from("beta"), abs_path: String::from("beta/fixture.json") };
    let a_alone = outputs(&a, 3);
    // Interleave another fixture's generation; `a`'s outputs must not move.
    let _ = outputs(&b, 3);
    let a_again = outputs(&a, 3);
    let _ = outputs(&b, 1);
    assert_eq!(a_alone, a_again);
}

#[test]
fn strategy_output_is_a_function_of_name_and_seed() {
    let s = SeedSummaryStrategy;
    assert_eq!(s.generate("demo", 7), s.generate("demo", 7));
    assert_eq!(s.generate("demo", 7), b"[summary]\nseed = 7\n".to_vec());
    assert_eq!(
        s.generate("demo", 12345678901234567890),
        b"[summary]\nseed = 12345678901234567890\n".to_vec()
    );
}

#[test]
fn item_indices_are_ascending() {
    let fixture = demo_fixture();
    let items = HakariTomlContext::iter(&fixture, 4, &SeedSummaryStrategy);
    for (expected, (index, _)) in items.iter().enumerate() {
        assert_eq!(*index, expected);
    }
}

#[test]
fn file_names_embed_fixture_and_index() {
    let fixture = demo_fixture();
    assert_eq!(HakariTomlContext::file_name(&fixture, 0), "demo-0.toml");
    assert_eq!(HakariTomlContext::file_name(&fixture, 1), "demo-1.toml");
    assert_eq!(HakariTomlContext::file_name(&fixture, 105), "demo-105.toml");
}

#[test]
fn dir_name_is_a_hakari_sibling_of_the_fixture() {
    let fixture = demo_fixture();
    assert_eq!(
        HakariTomlContext::dir_name(&fixture).as_deref(),
        Some("demo/hakari")
    );
    let rootless = Fixture { name: String::from("demo"), abs_path: String::from("") };
    assert_eq!(HakariTomlContext::dir_name(&rootless), None);
}

#[test]
fn demo_target_paths() {
    let fixture = demo_fixture();
    assert_eq!(
        HakariTomlContext::target_path(&fixture, 0).as_deref(),
        Some("demo/hakari/demo-0.toml")
    );
    assert_eq!(
        HakariTomlContext::target_path(&fixture, 1).as_deref(),
        Some("demo/hakari/demo-1.toml")
    );
    // A larger count adds a third path; the first two items stay identical.
    let two = outputs(&fixture, 2);
    let three = outputs(&fixture, 3);
    assert_eq!(
        HakariTomlContext::target_path(&fixture, 2).as_deref(),
        Some("demo/hakari/demo-2.toml")
    );
    assert_eq!(&three[..2], &two[..]);
}
