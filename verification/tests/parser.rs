use twer::parser::parse;

#[test]
fn comments_and_blank_lines_are_ignored() {
    let m = parse("# just a comment\n\n  \nkey = value # trailing comment\n");
    assert_eq!(m.len(), 1);
    assert_eq!(m.get("key"), Some(&"value".to_string()));
}

#[test]
fn last_write_wins() {
    let m = parse("a = 1\na = 2\n");
    assert_eq!(m.len(), 1);
    assert_eq!(m.get("a"), Some(&"2".to_string()));
}

#[test]
fn malformed_lines_are_tolerated() {
    let m = parse("not-a-pair\nkey=value\n");
    assert_eq!(m.len(), 1);
    assert_eq!(m.get("key"), Some(&"value".to_string()));
    assert_eq!(m.get("not-a-pair"), None);
}

#[test]
fn parsing_twice_yields_equal_mappings() {
    let text = "a = 1\nb = 2\n# c = 3\nd=4";
    let m1 = parse(text);
    let m2 = parse(text);
    assert_eq!(m1.len(), m2.len());
    for key in ["a", "b", "c", "d"] {
        assert_eq!(m1.get(key), m2.get(key));
    }
}

#[test]
fn reordering_distinct_key_lines_yields_equal_mapping() {
    let m1 = parse("a = 1\nb = 2\nc = 3\n");
    let m2 = parse("c = 3\na = 1\nb = 2\n");
    assert_eq!(m1.len(), m2.len());
    for key in ["a", "b", "c"] {
        assert_eq!(m1.get(key), m2.get(key));
    }
}

#[test]
fn empty_input_yields_empty_mapping() {
    let m = parse("");
    assert_eq!(m.len(), 0);
    assert!(m.is_empty());
    assert_eq!(m.get("anything"), None);
}

#[test]
fn value_keeps_later_equals_signs() {
    let m = parse("a=b=c\n");
    assert_eq!(m.get("a"), Some(&"b=c".to_string()));
}

#[test]
fn comment_marker_truncates_inside_value() {
    let m = parse("key = val#ue\n");
    assert_eq!(m.get("key"), Some(&"val".to_string()));
}

#[test]
fn keys_and_values_are_trimmed() {
    let m = parse("\t key \t=  value  \n");
    assert_eq!(m.len(), 1);
    assert_eq!(m.get("key"), Some(&"value".to_string()));
}

#[test]
fn lone_equals_sign_yields_empty_key_and_value() {
    let m = parse("=\n");
    assert_eq!(m.len(), 1);
    assert_eq!(m.get(""), Some(&"".to_string()));
}

#[test]
fn final_line_without_newline_counts() {
    let m = parse("key=value");
    assert_eq!(m.get("key"), Some(&"value".to_string()));
}

#[test]
fn carriage_return_is_trimmed_from_values() {
    let m = parse("a = 1\r\nb = 2\r\n");
    assert_eq!(m.len(), 2);
    assert_eq!(m.get("a"), Some(&"1".to_string()));
    assert_eq!(m.get("b"), Some(&"2".to_string()));
}

#[test]
fn all_whitespace_value_becomes_empty() {
    let m = parse("key =   \n");
    assert_eq!(m.len(), 1);
    assert_eq!(m.get("key"), Some(&"".to_string()));
}

#[test]
fn inner_whitespace_of_keys_is_kept() {
    let m = parse("a b = c d\n");
    assert_eq!(m.get("a b"), Some(&"c d".to_string()));
}

#[test]
fn comment_only_line_with_equals_is_ignored() {
    let m = parse("# a = 1\n");
    assert_eq!(m.len(), 0);
    assert_eq!(m.get("a"), None);
}
