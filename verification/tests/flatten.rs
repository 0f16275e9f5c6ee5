use tree_sitter_cli::fuzz::flatten_tests;
use tree_sitter_cli::filter::NameFilter;
use tree_sitter_cli::test_entry::{FlattenedTest, TestAttributes, TestEntry, TestExpectation};

fn example(name: &str, input: &[u8], output: &str, languages: &[&str]) -> TestEntry {
    TestEntry::Example {
        name: name.to_string(),
        input: input.to_vec(),
        output: output.to_string(),
        has_fields: false,
        attributes: TestAttributes {
            languages: languages.iter().map(|l| Box::from(*l)).collect(),
            expectation: TestExpectation::Pass,
        },
    }
}

fn group(name: &str, children: Vec<TestEntry>) -> TestEntry {
    TestEntry::Group {
        name: name.to_string(),
        children,
    }
}

fn corpus(root_name: &str) -> TestEntry {
    group(
        root_name,
        vec![
            example("a", b"1", "(a)", &[]),
            group("g", vec![example("b", b"2", "(b)", &["rust"])]),
            example("c", b"3", "(c)", &[]),
        ],
    )
}

fn names(tests: &[FlattenedTest]) -> Vec<String> {
    tests.iter().map(|t| t.name.clone()).collect()
}

#[test]
fn root_name_prefixes_its_children() {
    let flat = flatten_tests(corpus("corpus"), None, None);
    assert_eq!(
        names(&flat),
        vec!["corpus - a", "corpus - g - b", "corpus - c"]
    );
}

#[test]
fn unnamed_root_leaves_top_level_names_alone() {
    let flat = flatten_tests(corpus(""), None, None);
    assert_eq!(names(&flat), vec!["a", "g - b", "c"]);
}

#[test]
fn lone_example_keeps_its_name() {
    let flat = flatten_tests(example("only", b"x", "(x)", &[]), None, None);
    assert_eq!(names(&flat), vec!["only"]);
}

#[test]
fn empty_group_gives_nothing() {
    let flat = flatten_tests(group("empty", vec![group("inner", vec![])]), None, None);
    assert!(flat.is_empty());
}

#[test]
fn fields_are_carried_over() {
    let mut entry = example("e", b"let x;", "(program)", &["rust", "c"]);
    if let TestEntry::Example { has_fields, attributes, .. } = &mut entry {
        *has_fields = true;
        attributes.expectation = TestExpectation::Error;
    }
    let flat = flatten_tests(group("root", vec![entry]), None, None);
    assert_eq!(flat.len(), 1);
    let t = &flat[0];
    assert_eq!(t.name, "root - e");
    assert_eq!(t.input, b"let x;".to_vec());
    assert_eq!(t.output, "(program)");
    assert!(t.has_fields);
    assert_eq!(t.expectation, TestExpectation::Error);
    let langs: Vec<&str> = t.languages.iter().map(|l| &**l).collect();
    assert_eq!(langs, vec!["rust", "c"]);
    assert!(t.template_delimiters.is_none());
}

#[test]
fn keep_filter_selects_by_qualified_name() {
    let keep = NameFilter::new("g - ").unwrap();
    let flat = flatten_tests(corpus("corpus"), Some(&keep), None);
    assert_eq!(names(&flat), vec!["corpus - g - b"]);
}

#[test]
fn exclude_filter_drops_matching_names() {
    let exclude = NameFilter::new("^corpus - c$").unwrap();
    let flat = flatten_tests(corpus("corpus"), None, Some(&exclude));
    assert_eq!(names(&flat), vec!["corpus - a", "corpus - g - b"]);
}

#[test]
fn keep_filter_overrides_exclude_filter() {
    let keep = NameFilter::new("corpus").unwrap();
    let exclude = NameFilter::new("corpus").unwrap();
    let flat = flatten_tests(corpus("corpus"), Some(&keep), Some(&exclude));
    assert_eq!(flat.len(), 3);
}

#[test]
fn group_names_are_matched_through_their_examples() {
    let keep = NameFilter::new("^g").unwrap();
    let flat = flatten_tests(corpus(""), Some(&keep), None);
    assert_eq!(names(&flat), vec!["g - b"]);
}

#[test]
fn filtering_equals_filtering_the_unfiltered_list() {
    for pattern in ["a$", "b", "^corpus - [ac]$", "x", ""] {
        let keep = NameFilter::new(pattern).unwrap();
        let checker = regex::Regex::new(pattern).unwrap();
        let filtered = names(&flatten_tests(corpus("corpus"), Some(&keep), None));
        let expected: Vec<String> = names(&flatten_tests(corpus("corpus"), None, None))
            .into_iter()
            .filter(|n| checker.is_match(n))
            .collect();
        assert_eq!(filtered, expected);
        let excluded = names(&flatten_tests(corpus("corpus"), None, Some(&keep)));
        let expected_rest: Vec<String> = names(&flatten_tests(corpus("corpus"), None, None))
            .into_iter()
            .filter(|n| !checker.is_match(n))
            .collect();
        assert_eq!(excluded, expected_rest);
    }
}

#[test]
fn every_name_ends_with_its_example_name() {
    let flat = flatten_tests(corpus("corpus"), None, None);
    for (t, own) in flat.iter().zip(["a", "b", "c"]) {
        assert!(t.name.ends_with(own));
    }
}
