use duckdelta::text::{chars_occur_at, concat2, concat3, has_prefix, has_suffix, to_chars};
use duckdelta::words::{is_boundary, is_word_at};

fn chars(s: &str) -> Vec<char> {
    s.chars().collect()
}

#[test]
fn to_chars_reads_characters() {
    assert_eq!(to_chars("aé😀"), vec!['a', 'é', '😀']);
    assert_eq!(to_chars(""), Vec::<char>::new());
}

#[test]
fn prefixes_and_suffixes() {
    assert!(has_prefix("s3://bucket", "s3://"));
    assert!(has_prefix("s3://", "s3://"));
    assert!(has_prefix("abc", ""));
    assert!(!has_prefix("s3:/", "s3://"));
    assert!(!has_prefix("xs3://", "s3://"));
    assert!(has_suffix("a.csv", ".csv"));
    assert!(has_suffix(".csv", ".csv"));
    assert!(has_suffix("abc", ""));
    assert!(!has_suffix("csv", ".csv"));
    assert!(!has_suffix("a.csv ", ".csv"));
    assert!(has_suffix("é.csv", ".csv"));
}

#[test]
fn occurrence_at_a_position() {
    assert!(chars_occur_at(&chars("hello"), &chars("ell"), 1));
    assert!(!chars_occur_at(&chars("hello"), &chars("ell"), 0));
    assert!(!chars_occur_at(&chars("hello"), &chars("lo"), 4));
    assert!(chars_occur_at(&chars("hello"), &chars(""), 5));
    assert!(!chars_occur_at(&chars("hello"), &chars(""), 6));
    assert!(!chars_occur_at(&chars("hello"), &chars("x"), usize::MAX));
}

#[test]
fn joining() {
    assert_eq!(concat2("a", "b"), "ab");
    assert_eq!(concat3("a", "/", "b"), "a/b");
    assert_eq!(concat3("", "", ""), "");
}

#[test]
fn word_boundaries() {
    let text = chars("ab cd_1,é");
    let expected = [true, false, true, true, false, false, false, true, true, true];
    for (at, want) in expected.iter().enumerate() {
        assert_eq!(is_boundary(&text, at), *want, "at {}", at);
    }
    assert!(!is_boundary(&chars(""), 0));
    assert!(!is_boundary(&chars("  "), 1));
    assert!(!is_boundary(&chars("ab"), 3));
}

#[test]
fn whole_word_occurrences() {
    let text = chars("tb1 tb10 xtb1 tb1");
    let word = chars("tb1");
    let found: Vec<usize> = (0..=text.len() + 1).filter(|at| is_word_at(&text, &word, *at)).collect();
    assert_eq!(found, vec![0, 14]);
    assert!(!is_word_at(&text, &chars(""), 3));
    assert!(is_word_at(&chars("a-b"), &chars("a-b"), 0));
    assert!(!is_word_at(&chars("a-"), &chars("-"), 1));
    assert!(is_word_at(&chars("a-b"), &chars("-"), 1));
}
