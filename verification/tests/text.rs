use snapshot_manifest::paths::{base_name, in_device_namespace};
use snapshot_manifest::template::{fill, Binding};
use snapshot_manifest::text::{
    chars_of, join_strings, matches_at, same_text, split_text, starts_with, string_of,
};

fn owned(parts: &[&str]) -> Vec<String> {
    parts.iter().map(|part| part.to_string()).collect()
}

fn binding(key: &str, value: &str) -> Binding {
    Binding { key: key.to_string(), value: value.to_string() }
}

#[test]
fn characters_round_trip_through_vectors() {
    let chars = chars_of("a\u{00e9}\u{4e2d}z");
    assert_eq!(chars, vec!['a', '\u{00e9}', '\u{4e2d}', 'z']);
    assert_eq!(string_of(&chars), "a\u{00e9}\u{4e2d}z");
    assert_eq!(string_of(&Vec::new()), "");
}

#[test]
fn split_cuts_at_every_separator() {
    assert_eq!(split_text("a b c", ' '), owned(&["a", "b", "c"]));
    assert_eq!(split_text("abc", ' '), owned(&["abc"]));
}

#[test]
fn split_keeps_empty_pieces() {
    assert_eq!(split_text("", ' '), owned(&[""]));
    assert_eq!(split_text(" ", ' '), owned(&["", ""]));
    assert_eq!(split_text("a  b", ' '), owned(&["a", "", "b"]));
    assert_eq!(split_text(" a ", ' '), owned(&["", "a", ""]));
}

#[test]
fn split_then_join_gives_the_text_back() {
    for text in ["", " ", "a", "a b", "  a  b  ", "-x /tmp/cfg.json @@"] {
        let pieces = split_text(text, ' ');
        assert!(pieces.iter().all(|piece| !piece.contains(' ')));
        assert_eq!(join_strings(&pieces, " "), text);
    }
}

#[test]
fn join_puts_the_separator_between_neighbours() {
    assert_eq!(join_strings(&owned(&[]), ", "), "");
    assert_eq!(join_strings(&owned(&["a"]), ", "), "a");
    assert_eq!(join_strings(&owned(&["a", "b", "c"]), ", "), "a, b, c");
    assert_eq!(join_strings(&owned(&["", ""]), "\n"), "\n");
}

#[test]
fn prefix_and_equality_tests() {
    assert!(starts_with("/dev/null", "/dev"));
    assert!(starts_with("/dev", "/dev"));
    assert!(starts_with("abc", ""));
    assert!(!starts_with("/de", "/dev"));
    assert!(!starts_with("x/dev", "/dev"));
    assert!(same_text("@@", "@@"));
    assert!(!same_text("@@", "@@@"));
    assert!(!same_text("@", "@@"));
    assert!(same_text("", ""));
}

#[test]
fn occurrence_at_a_position() {
    let text = chars_of("a$KEY$b");
    let key = chars_of("$KEY$");
    assert!(matches_at(&text, 1, &key));
    assert!(!matches_at(&text, 0, &key));
    assert!(!matches_at(&text, 2, &key));
    assert!(!matches_at(&text, 3, &key));
    assert!(!matches_at(&text, 7, &key));
    assert!(!matches_at(&text, 8, &key));
    assert!(matches_at(&text, 7, &Vec::new()));
}

#[test]
fn base_name_is_the_last_component() {
    assert_eq!(base_name("/tmp/cfg.json"), Some("cfg.json".to_string()));
    assert_eq!(base_name("cfg.json"), Some("cfg.json".to_string()));
    assert_eq!(base_name("/bin/tool"), Some("tool".to_string()));
    assert_eq!(base_name("a/b/c"), Some("c".to_string()));
    assert_eq!(base_name("../a"), Some("a".to_string()));
    assert_eq!(base_name("..."), Some("...".to_string()));
    assert_eq!(base_name(".hidden"), Some(".hidden".to_string()));
}

#[test]
fn base_name_skips_trailing_separators_and_dots() {
    assert_eq!(base_name("/tmp/dir/"), Some("dir".to_string()));
    assert_eq!(base_name("/tmp/dir//"), Some("dir".to_string()));
    assert_eq!(base_name("/tmp/dir/."), Some("dir".to_string()));
    assert_eq!(base_name("/tmp/dir/./"), Some("dir".to_string()));
    assert_eq!(base_name("./tool"), Some("tool".to_string()));
}

#[test]
fn some_paths_have_no_base_name() {
    assert_eq!(base_name(""), None);
    assert_eq!(base_name("/"), None);
    assert_eq!(base_name("//"), None);
    assert_eq!(base_name("."), None);
    assert_eq!(base_name("./"), None);
    assert_eq!(base_name(".."), None);
    assert_eq!(base_name("/tmp/.."), None);
    assert_eq!(base_name("/tmp/../"), None);
}

#[test]
fn base_name_agrees_with_the_standard_library() {
    let paths = [
        "", "/", "//", ".", "./", "..", "/tmp/..", "/tmp/../", "/tmp/../.", "a", "a/", "a/.",
        "a/./b", "./a", "/tmp/cfg.json", "/tmp//cfg.json/", "...", "a/..b", "/opt/@@", "@@",
        "foo bar/baz qux", "/a/b/../c",
    ];
    for path in paths {
        let expected = std::path::Path::new(path)
            .file_name()
            .map(|name| name.to_str().unwrap().to_string());
        assert_eq!(base_name(path), expected, "{:?}", path);
    }
}

#[test]
fn device_namespace_is_a_prefix_of_the_token() {
    assert!(in_device_namespace("/dev"));
    assert!(in_device_namespace("/dev/null"));
    assert!(in_device_namespace("/device"));
    assert!(!in_device_namespace("dev/null"));
    assert!(!in_device_namespace("/tmp/dev"));
    assert!(!in_device_namespace(""));
}

#[test]
fn fill_replaces_every_key() {
    let bindings = vec![binding("$A$", "1"), binding("$B$", "two")];
    assert_eq!(fill("x $A$ y $B$ z $A$", &bindings), "x 1 y two z 1");
    assert_eq!(fill("$A$$B$", &bindings), "1two");
    assert_eq!(fill("", &bindings), "");
    assert_eq!(fill("no keys", &bindings), "no keys");
}

#[test]
fn fill_leaves_unknown_markers() {
    let bindings = vec![binding("$A$", "1")];
    assert_eq!(fill("\"$SNAPSHOT_INPUT\" $A$ $A", &bindings), "\"$SNAPSHOT_INPUT\" 1 $A");
}

#[test]
fn fill_does_not_rescan_values() {
    let bindings = vec![binding("$A$", "$B$"), binding("$B$", "$A$")];
    assert_eq!(fill("$A$ $B$", &bindings), "$B$ $A$");
}

#[test]
fn fill_prefers_the_first_binding() {
    let bindings = vec![binding("ab", "1"), binding("abc", "2"), binding("", "never")];
    assert_eq!(fill("abc", &bindings), "1c");
    let reversed = vec![binding("abc", "2"), binding("ab", "1")];
    assert_eq!(fill("abc ab", &reversed), "2 1");
}

#[test]
fn fill_without_bindings_copies_the_text() {
    assert_eq!(fill("$A$ \u{00e9}", &Vec::new()), "$A$ \u{00e9}");
}

#[test]
fn split_agrees_with_the_standard_library() {
    let texts = ["", " ", "  ", "a", " a", "a ", "a b", "a  b", "-x /tmp/cfg.json @@", "\u{00e9} \u{4e2d}"];
    for text in texts {
        let expected: Vec<String> = text.split(' ').map(|piece| piece.to_string()).collect();
        assert_eq!(split_text(text, ' '), expected, "{:?}", text);
    }
    let expected: Vec<String> = "/a//b/".split('/').map(|piece| piece.to_string()).collect();
    assert_eq!(split_text("/a//b/", '/'), expected);
}

#[test]
fn fill_agrees_with_replacement_where_values_hold_no_keys() {
    let bindings = vec![binding("$ONE$", "1"), binding("$TWO$", "two words"), binding("$NONE$", "")];
    let texts = ["", "$ONE$", "a $ONE$ b $TWO$ c", "$ONE$$TWO$$NONE$", "$ONE $TWO$ $", "$$ONE$$"];
    for text in texts {
        let expected = text.replace("$ONE$", "1").replace("$TWO$", "two words").replace("$NONE$", "");
        assert_eq!(fill(text, &bindings), expected, "{:?}", text);
    }
}
