use mock_builder::text::{
    find_first, find_last, rsplit_once, split_once, stands_at, strip_prefix, strip_suffix,
    to_chars,
};

fn chars(s: &str) -> Vec<char> {
    s.chars().collect()
}

#[test]
fn to_chars_gives_characters_not_bytes() {
    assert_eq!(to_chars("aé::b"), vec!['a', 'é', ':', ':', 'b']);
    assert_eq!(to_chars(""), Vec::<char>::new());
}

#[test]
fn find_gives_the_ends() {
    let text = chars("a::b::c");
    assert_eq!(find_first(&text, &chars("::")), Some(1));
    assert_eq!(find_last(&text, &chars("::")), Some(4));
    assert_eq!(find_first(&text, &chars(":::")), None);
    assert_eq!(find_last(&text, &chars("a::b::c::")), None);
    assert_eq!(find_first(&text, &chars("")), Some(0));
    assert_eq!(find_last(&text, &chars("")), Some(7));
    assert_eq!(find_first(&chars(""), &chars("")), Some(0));
    assert!(stands_at(&text, &chars("b:"), 3));
    assert!(!stands_at(&text, &chars("b:"), 2));
}

#[test]
fn occurrences_may_overlap() {
    let text = chars("a:::b");
    assert_eq!(find_first(&text, &chars("::")), Some(1));
    assert_eq!(find_last(&text, &chars("::")), Some(2));
    assert_eq!(rsplit_once("a:::b", "::"), Some(("a:", "b")));
    assert_eq!(split_once("a:::b", "::"), Some(("a", ":b")));
}

#[test]
fn splitting_agrees_with_std() {
    for text in ["", "::", "a::b", "<x as y>::z", "é as ü as ö", "a::b::c::", "no"] {
        for pattern in ["::", " as ", "<", "é", "c::"] {
            assert_eq!(split_once(text, pattern), text.split_once(pattern), "{text} {pattern}");
            assert_eq!(rsplit_once(text, pattern), text.rsplit_once(pattern), "{text} {pattern}");
            assert_eq!(strip_prefix(text, pattern), text.strip_prefix(pattern));
            assert_eq!(strip_suffix(text, pattern), text.strip_suffix(pattern));
        }
    }
}

#[test]
fn stripping_takes_the_whole_pattern() {
    assert_eq!(strip_prefix("mock_method", "mock_"), Some("method"));
    assert_eq!(strip_prefix("mock_", "mock_"), Some(""));
    assert_eq!(strip_prefix("mock", "mock_"), None);
    assert_eq!(strip_suffix("a::{{closure}}", "::{{closure}}"), Some("a"));
    assert_eq!(strip_suffix("closure}}", "::{{closure}}"), None);
}
