use lyr::text::{chars_of, contains, extract_between, find_from, matches_at, same_text};

#[test]
fn between_returns_inner_text() {
    assert_eq!(extract_between("<a>hello</a>", "<a>", "</a>"), Some("hello"));
}

#[test]
fn between_is_none_without_start_marker() {
    assert_eq!(extract_between("hello</a>", "<a>", "</a>"), None);
}

#[test]
fn between_is_none_without_end_marker() {
    assert_eq!(extract_between("<a>hello", "<a>", "</a>"), None);
}

#[test]
fn between_is_empty_when_markers_touch() {
    assert_eq!(extract_between("x<a></a>y", "<a>", "</a>"), Some(""));
}

#[test]
fn between_on_empty_input_is_none() {
    assert_eq!(extract_between("", "<a>", "</a>"), None);
}

#[test]
fn between_end_marker_before_start_does_not_count() {
    assert_eq!(extract_between("</a><a>mid", "<a>", "</a>"), None);
    assert_eq!(extract_between("</a><a>mid</a>", "<a>", "</a>"), Some("mid"));
}

#[test]
fn between_markers_overlapping_at_the_boundary() {
    // the closing marker may not share characters with the opening one
    assert_eq!(extract_between("abab", "aba", "bab"), None);
    assert_eq!(extract_between("ababab", "aba", "bab"), Some(""));
    assert_eq!(extract_between("\"", "\"", "\""), None);
    assert_eq!(extract_between("\"\"", "\"", "\""), Some(""));
}

#[test]
fn between_takes_first_start_and_first_end_behind_it() {
    assert_eq!(extract_between("[a][b]", "[", "]"), Some("a"));
    assert_eq!(extract_between("href=\"u1\" href=\"u2\"", "href=\"", "\""), Some("u1"));
}

#[test]
fn between_counts_characters_not_bytes() {
    assert_eq!(extract_between("é«naïve»ü", "«", "»"), Some("naïve"));
    assert_eq!(extract_between("日本«語»", "«", "»"), Some("語"));
}

#[test]
fn between_with_empty_markers() {
    assert_eq!(extract_between("abc", "", "b"), Some("a"));
    assert_eq!(extract_between("abc", "a", ""), Some(""));
}

#[test]
fn chars_of_gives_each_character() {
    assert_eq!(chars_of("aé日"), vec!['a', 'é', '日']);
    assert_eq!(chars_of(""), Vec::<char>::new());
}

#[test]
fn find_from_gives_least_index() {
    let text = chars_of("abcabc");
    let pat = chars_of("bc");
    assert_eq!(find_from(&text, &pat, 0), Some(1));
    assert_eq!(find_from(&text, &pat, 1), Some(1));
    assert_eq!(find_from(&text, &pat, 2), Some(4));
    assert_eq!(find_from(&text, &pat, 5), None);
    assert_eq!(find_from(&text, &pat, 100), None);
}

#[test]
fn find_from_empty_pattern_matches_where_it_starts() {
    let text = chars_of("abc");
    let none = chars_of("");
    assert_eq!(find_from(&text, &none, 0), Some(0));
    assert_eq!(find_from(&text, &none, 3), Some(3));
    assert_eq!(find_from(&text, &none, 4), None);
}

#[test]
fn matches_at_checks_bounds() {
    let text = chars_of("abc");
    assert!(matches_at(&text, &chars_of("bc"), 1));
    assert!(!matches_at(&text, &chars_of("bc"), 2));
    assert!(!matches_at(&text, &chars_of("abcd"), 0));
    assert!(!matches_at(&text, &chars_of("a"), usize::MAX));
}

#[test]
fn contains_finds_a_pattern_anywhere() {
    assert!(contains(&chars_of("hello world"), &chars_of("o w")));
    assert!(!contains(&chars_of("hello world"), &chars_of("ow")));
    assert!(contains(&chars_of(""), &chars_of("")));
}

#[test]
fn same_text_compares_characters() {
    assert!(same_text("abc", "abc"));
    assert!(!same_text("abc", "abd"));
    assert!(!same_text("abc", "ab"));
    assert!(same_text("", ""));
}
