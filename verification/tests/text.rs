use actual_mcp::ordering::{sorted_positions, SortKey};
use actual_mcp::queries::edit::edit_distance;
use actual_mcp::queries::resolve::{normalise, resolve, Named, Resolution, MAX_SUGGESTIONS};
use actual_mcp::queries::transactions::escape_like;
use actual_mcp::text::{
    blank, decimal_text, is_white_space, join, less, padded_text, split_words, strip_trailing, trim,
};

fn n(id: &str, name: &str) -> Named {
    Named { id: id.to_string(), name: name.to_string() }
}

#[test]
fn white_space_of_every_script_is_trimmed() {
    assert_eq!(trim("\u{3000}\u{a0} coffee \t\n"), "coffee");
    assert_eq!(trim("   "), "");
    assert!(blank("\u{2003}\u{1680}"));
    assert!(!blank(" x "));
}

#[test]
fn words_are_split_at_white_space() {
    assert_eq!(split_words("  Health  &\u{a0}Fitness "), ["Health", "&", "Fitness"]);
    assert!(split_words(" \t ").is_empty());
}

#[test]
fn names_are_normalised_by_case_and_space() {
    assert_eq!(normalise("  STRASSE \u{c4}pfel "), "strasse \u{e4}pfel");
    assert_eq!(normalise("\u{130}"), "i\u{307}", "one letter may become two");
}

#[test]
fn numbers_are_written_in_decimal() {
    assert_eq!(decimal_text(0), "0");
    assert_eq!(decimal_text(u64::MAX), "18446744073709551615");
    assert_eq!(padded_text(7, 4), "0007");
    assert_eq!(padded_text(12345, 4), "12345");
}

#[test]
fn trailing_characters_are_stripped_only_at_the_end() {
    assert_eq!(strip_trailing("a/b///", '/'), "a/b");
    assert_eq!(strip_trailing("///", '/'), "");
}

#[test]
fn parts_are_joined_between_and_not_around() {
    let parts = vec!["a".to_string(), "b".to_string(), "c".to_string()];
    assert_eq!(join(&parts, ", "), "a, b, c");
    assert_eq!(join(&Vec::new(), ", "), "");
}

#[test]
fn texts_are_ordered_as_their_characters() {
    assert!(less("a", "b"));
    assert!(less("", "a"));
    assert!(less("a", "aa"));
    assert!(!less("a", "a"));
    assert!(less("Z", "a"));
}

#[test]
fn sorting_is_stable() {
    let key = |rank: usize, major: &str| SortKey {
        rank,
        major: major.to_string(),
        minor: String::new(),
    };
    let keys = vec![key(1, "b"), key(0, "z"), key(1, "a"), key(1, "b"), key(0, "z")];
    assert_eq!(sorted_positions(&keys), [1, 4, 2, 0, 3]);
    assert!(sorted_positions(&Vec::new()).is_empty());
}

#[test]
fn wildcards_are_escaped() {
    assert_eq!(escape_like("50% off"), "50\\% off");
    assert_eq!(escape_like("a_b\\c"), "a\\_b\\\\c");
    assert_eq!(escape_like(""), "");
}

#[test]
fn edit_distance_is_symmetric_and_obeys_the_triangle() {
    let words = ["flaw", "lawn", "flan", "", "law"];
    for a in words {
        for b in words {
            assert_eq!(edit_distance(a, b), edit_distance(b, a));
            assert_eq!(edit_distance(a, b) == 0, a == b);
            for c in words {
                assert!(edit_distance(a, c) <= edit_distance(a, b) + edit_distance(b, c));
            }
        }
    }
    assert_eq!(edit_distance("flaw", "lawn"), 2);
}

#[test]
fn suggestions_are_capped_and_nearest_first() {
    let many: Vec<Named> = ["Groceriez", "Groceris", "Grocerie", "Grocery!", "Groceri", "Grocerius"]
        .iter()
        .enumerate()
        .map(|(i, name)| n(&format!("c{i}"), name))
        .collect();
    match resolve(&many, "xroceries") {
        Resolution::Nothing { suggestions } => {
            assert!(suggestions.len() <= MAX_SUGGESTIONS);
            let distances: Vec<usize> = suggestions
                .iter()
                .map(|s| edit_distance(&normalise(&s.name), "xroceries"))
                .collect();
            assert!(distances.windows(2).all(|w| w[0] <= w[1]), "got {distances:?}");
        }
        other => panic!("expected Nothing, got {other:?}"),
    }
}

#[test]
fn a_resolution_is_one_only_where_it_is() {
    let one = resolve(&[n("a", "Home")], "home");
    assert_eq!(one.describe("category", "home"), "category \"home\" resolved to \"Home\"");
    assert_eq!(one.one(), Some(n("a", "Home")));
    let none = resolve(&[n("a", "Home")], "zzzzzzzz");
    assert_eq!(none.describe("payee", "zzzzzzzz"), "No payee matches \"zzzzzzzz\".");
    assert_eq!(none.one(), None);
    let near = resolve(&[n("a", "Home")], "hme");
    assert_eq!(
        near.describe("category", "hme"),
        "No category matches \"hme\". Did you mean: \"Home\"?"
    );
}

#[test]
fn quoted_names_are_escaped() {
    let odd = resolve(&[n("a", "The \"Shop\""), n("b", "The \"Shop\" 2")], "the");
    assert_eq!(
        odd.describe("payee", "the\n"),
        "\"the\\n\" matches several payees: \"The \\\"Shop\\\"\", \"The \\\"Shop\\\" 2\". \
         Call again with one of these exact names."
    );
}

#[test]
fn white_space_is_what_unicode_says() {
    for n in 0..=0x10_ffffu32 {
        if let Some(c) = char::from_u32(n) {
            assert_eq!(is_white_space(c), c.is_whitespace(), "{n:x}");
        }
    }
}

#[test]
fn normalising_settles_and_ignores_spacing() {
    for name in ["  Health  &\tFitness ", "GROCERIES", "", " \u{3000} ", "caf\u{c9} \u{130}"] {
        let once = normalise(name);
        assert_eq!(normalise(&once), once);
        assert_eq!(once.is_empty(), blank(name));
        assert_eq!(normalise(&format!("\u{a0}{name}\n")), once);
        assert!(!once.contains("  ") && once.trim() == once);
    }
    assert_eq!(normalise("A  \u{2003}B"), normalise("a b"));
}

#[test]
fn a_number_in_decimal_reads_back() {
    for n in [0, 7, 10, 99, 100, 1_800_000_000, u64::MAX] {
        assert_eq!(decimal_text(n).parse::<u64>(), Ok(n));
        assert_eq!(decimal_text(n), n.to_string());
    }
}
