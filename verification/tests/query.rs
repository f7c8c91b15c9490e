use picker_core::query::{field_target, position, split_key};
use picker_core::words::{chars_of, is_space, split_words};
use picker_core::{FuzzyQuery, Query};

fn names(list: &[&str]) -> Vec<String> {
    list.iter().map(|name| name.to_string()).collect()
}

fn sorted_indices(query: &Query) -> Vec<usize> {
    let mut indices: Vec<usize> = query.common_indices.iter().copied().collect();
    indices.sort();
    indices
}

#[test]
fn repeated_field_accumulates_in_order() {
    let query = Query::new(&names(&["name", "path"]), "name:foo name:bar baz");
    let field = query.fields.get("name").expect("the name field");
    assert_eq!(field.0, 0);
    assert_eq!(field.1, "foo bar");
    assert_eq!(field.2.pattern(), "foo bar");
    assert_eq!(query.fields.len(), 1);
    assert!(query.fields.get("path").is_none());
    assert_eq!(query.common.0, "baz");
    assert_eq!(query.common.1.pattern(), "baz");
    assert_eq!(sorted_indices(&query), vec![1]);
}

#[test]
fn unknown_key_is_common_text() {
    let query = Query::new(&names(&["name"]), "unknown:x hello");
    assert_eq!(query.common.0, "unknown:x hello");
    assert!(query.fields.is_empty());
    assert_eq!(sorted_indices(&query), vec![0]);
}

#[test]
fn whitespace_is_normalised() {
    let query = Query::new(&[], "  a   b  ");
    assert_eq!(query.common.0, "a b");
    assert!(query.fields.is_empty());
    assert!(query.common_indices.is_empty());
}

#[test]
fn empty_input_gives_empty_query() {
    let query = Query::new(&names(&["name", "path"]), "");
    assert!(query.is_empty());
    assert_eq!(query.common.0, "");
    assert_eq!(query.common.1.pattern(), "");
    assert_eq!(sorted_indices(&query), vec![0, 1]);
}

#[test]
fn blank_input_gives_empty_query() {
    let query = Query::new(&names(&["name"]), " \t\r\n\x0C ");
    assert!(query.is_empty());
    assert_eq!(sorted_indices(&query), vec![0]);
}

#[test]
fn empty_names_and_empty_input() {
    let query = Query::new(&[], "");
    assert!(query.is_empty());
    assert!(query.common_indices.is_empty());
    assert!(query.fields.is_empty());
}

#[test]
fn default_query_is_empty() {
    let query = Query::default();
    assert!(query.is_empty());
    assert_eq!(query.common.0, "");
    assert_eq!(query.common.1.pattern(), "");
    assert!(query.common_indices.is_empty());
    assert_eq!(query.fields.len(), 0);
}

#[test]
fn is_empty_is_false_with_common_text() {
    let query = Query::new(&names(&["name"]), "x");
    assert!(!query.is_empty());
}

#[test]
fn is_empty_is_false_with_a_field_only() {
    let query = Query::new(&names(&["name"]), "name:x");
    assert_eq!(query.common.0, "");
    assert!(!query.is_empty());
}

#[test]
fn is_empty_is_false_with_an_empty_field() {
    let query = Query::new(&names(&["name"]), "name:");
    assert_eq!(query.common.0, "");
    assert_eq!(query.fields.get("name").unwrap().1, "");
    assert!(!query.is_empty());
}

#[test]
fn every_ascii_whitespace_separates() {
    let query = Query::new(&[], "a\tb\nc\x0Cd\re f");
    assert_eq!(query.common.0, "a b c d e f");
}

#[test]
fn other_blanks_do_not_separate() {
    let query = Query::new(&[], "a\x0Bb c\u{a0}d");
    assert_eq!(query.common.0, "a\x0Bb c\u{a0}d");
}

#[test]
fn empty_key_is_common_text() {
    let query = Query::new(&names(&["name", ""]), ":x y");
    assert_eq!(query.common.0, ":x y");
    assert!(query.fields.is_empty());
    assert_eq!(sorted_indices(&query), vec![0, 1]);
}

#[test]
fn lone_colon_is_common_text() {
    let query = Query::new(&names(&["name"]), ": name");
    assert_eq!(query.common.0, ": name");
    assert!(query.fields.is_empty());
}

#[test]
fn value_keeps_later_colons() {
    let query = Query::new(&names(&["name"]), "name:a:b:c");
    assert_eq!(query.fields.get("name").unwrap().1, "a:b:c");
    assert_eq!(query.common.0, "");
}

#[test]
fn empty_value_is_kept() {
    let query = Query::new(&names(&["name"]), "name: name:x name:");
    let field = query.fields.get("name").unwrap();
    assert_eq!(field.1, " x ");
    assert_eq!(field.2.pattern(), " x ");
}

#[test]
fn key_match_is_exact() {
    let query = Query::new(&names(&["name"]), "Name:x nam:y names:z");
    assert_eq!(query.common.0, "Name:x nam:y names:z");
    assert!(query.fields.is_empty());
}

#[test]
fn fields_and_common_text_interleave() {
    let query = Query::new(
        &names(&["name", "path", "kind"]),
        "one path:src two name:main path:lib three",
    );
    assert_eq!(query.common.0, "one two three");
    assert_eq!(query.fields.len(), 2);
    let path = query.fields.get("path").unwrap();
    assert_eq!((path.0, path.1.as_str()), (1, "src lib"));
    let name = query.fields.get("name").unwrap();
    assert_eq!((name.0, name.1.as_str()), (0, "main"));
    assert!(query.fields.get("kind").is_none());
    assert_eq!(sorted_indices(&query), vec![2]);
}

#[test]
fn all_columns_addressed_leaves_no_common_index() {
    let query = Query::new(&names(&["a", "b"]), "b:1 a:2");
    assert!(query.common_indices.is_empty());
    assert_eq!(query.fields.len(), 2);
    assert_eq!(query.fields.get("a").unwrap().0, 0);
    assert_eq!(query.fields.get("b").unwrap().0, 1);
}

#[test]
fn repeated_name_goes_to_its_first_column() {
    let query = Query::new(&names(&["a", "b", "a"]), "a:x a:y");
    let field = query.fields.get("a").unwrap();
    assert_eq!((field.0, field.1.as_str()), (0, "x y"));
    assert_eq!(query.fields.len(), 1);
    assert_eq!(sorted_indices(&query), vec![1, 2]);
}

#[test]
fn every_column_is_covered_once() {
    let columns = names(&["name", "path", "kind", "line"]);
    let inputs = [
        "",
        "plain",
        "name:a",
        "path:b kind:c",
        "name:a path:b kind:c line:d",
        "x name:a y name:b z",
        "unknown:k line:",
    ];
    for input in inputs {
        let query = Query::new(&columns, input);
        for (index, name) in columns.iter().enumerate() {
            let common = query.common_indices.contains(&index);
            let keyed = query.fields.get(name).is_some();
            assert_ne!(common, keyed, "column {index} of {input:?}");
            if let Some(field) = query.fields.get(name) {
                assert_eq!(field.0, index);
            }
        }
        assert_eq!(query.common_indices.len() + query.fields.len(), columns.len());
    }
}

#[test]
fn common_text_parses_to_itself() {
    let columns = names(&["name", "path"]);
    let inputs = [
        "  a   b  ",
        "name:foo name:bar baz",
        "unknown:x hello",
        "\tone\ntwo path:p :three four: ",
        "",
    ];
    for input in inputs {
        let common = Query::new(&columns, input).common.0;
        let again = Query::new(&[], &common);
        assert_eq!(again.common.0, common);
        assert!(again.fields.is_empty());
        let same_columns = Query::new(&columns, &common);
        assert_eq!(same_columns.common.0, common);
        assert!(same_columns.fields.is_empty());
        assert_eq!(common.trim(), common);
    }
}

#[test]
fn requests_carry_their_text() {
    let query = Query::new(&names(&["name", "path"]), "a path:x b name:y path:z");
    assert_eq!(query.common.1.pattern(), query.common.0);
    for name in ["name", "path"] {
        let field = query.fields.get(name).unwrap();
        assert_eq!(field.2.pattern(), field.1);
    }
}

#[test]
fn value_prefers_the_field() {
    let query = Query::new(&names(&["name", "path"]), "name:foo baz");
    assert_eq!(query.value("name"), "foo");
    assert_eq!(query.value("path"), "baz");
    assert_eq!(query.value("other"), "baz");
    assert_eq!(query.value(""), "baz");
}

#[test]
fn value_of_an_empty_field_is_empty() {
    let query = Query::new(&names(&["name"]), "name: rest");
    assert_eq!(query.value("name"), "");
    assert_eq!(query.value("rest"), "rest");
}

#[test]
fn text_beyond_ascii_is_kept() {
    let query = Query::new(&names(&["名前", "path"]), "héllo 名前:値 wörld 名前:二 path:/tmp/ü");
    assert_eq!(query.common.0, "héllo wörld");
    let field = query.fields.get("名前").unwrap();
    assert_eq!((field.0, field.1.as_str()), (0, "値 二"));
    assert_eq!(query.value("path"), "/tmp/ü");
    assert!(query.common_indices.is_empty());
}

#[test]
fn split_words_drops_all_whitespace() {
    assert_eq!(split_words("  a   b  "), vec!["a", "b"]);
    assert_eq!(split_words("one"), vec!["one"]);
    assert_eq!(split_words("one "), vec!["one"]);
    assert_eq!(split_words(" one"), vec!["one"]);
    assert_eq!(split_words("a\tb\nc\rd\x0Ce"), vec!["a", "b", "c", "d", "e"]);
    assert!(split_words("").is_empty());
    assert!(split_words(" \t ").is_empty());
}

#[test]
fn split_words_agrees_with_std() {
    let lines = ["", " ", "a", " a b", "a  b ", "x:y\tz", "é ü\u{a0}ö \x0B", "\n\n"];
    for line in lines {
        let expected: Vec<&str> = line.split_ascii_whitespace().collect();
        assert_eq!(split_words(line), expected);
    }
}

#[test]
fn split_key_splits_at_the_first_colon() {
    assert_eq!(split_key("name:foo"), Some(("name", "foo")));
    assert_eq!(split_key("a:b:c"), Some(("a", "b:c")));
    assert_eq!(split_key(":x"), Some(("", "x")));
    assert_eq!(split_key("x:"), Some(("x", "")));
    assert_eq!(split_key(":"), Some(("", "")));
    assert_eq!(split_key("plain"), None);
    assert_eq!(split_key(""), None);
    assert_eq!(split_key("名前:値"), Some(("名前", "値")));
}

#[test]
fn position_finds_the_first_match() {
    let columns = names(&["a", "b", "a"]);
    assert_eq!(position(&columns, "a"), Some(0));
    assert_eq!(position(&columns, "b"), Some(1));
    assert_eq!(position(&columns, "c"), None);
    assert_eq!(position(&columns, ""), None);
    assert_eq!(position(&[], "a"), None);
}

#[test]
fn field_target_needs_a_known_key() {
    let columns = names(&["name", "path"]);
    assert_eq!(field_target(&columns, "path:src"), Some((1, "src")));
    assert_eq!(field_target(&columns, "name:"), Some((0, "")));
    assert_eq!(field_target(&columns, "name:a:b"), Some((0, "a:b")));
    assert_eq!(field_target(&columns, "kind:x"), None);
    assert_eq!(field_target(&columns, ":x"), None);
    assert_eq!(field_target(&columns, "name"), None);
    assert_eq!(field_target(&[], "name:x"), None);
}

#[test]
fn is_space_knows_the_five() {
    for c in [' ', '\t', '\n', '\x0C', '\r'] {
        assert!(is_space(c));
        assert!(c.is_ascii_whitespace());
    }
    for c in ['\x0B', 'a', ':', '\u{a0}', '\u{2003}', '\0'] {
        assert!(!is_space(c));
    }
}

#[test]
fn chars_of_lists_characters() {
    assert_eq!(chars_of("aé値"), vec!['a', 'é', '値']);
    assert!(chars_of("").is_empty());
}

#[test]
fn fuzzy_query_keeps_its_pattern() {
    let request = FuzzyQuery::new("foo bar");
    assert_eq!(request.pattern(), "foo bar");
    assert_eq!(request.clone(), request);
    assert_ne!(FuzzyQuery::new("foo"), request);
}
