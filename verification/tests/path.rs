use icy_view::path::{extension_lowercase, extension_of_name, get_file_name, is_drive_root};
use icy_view::text::{contains, from_chars, same_chars, spells, to_ascii_lowercase, to_chars};

fn chars(s: &str) -> Vec<char> {
    s.chars().collect()
}

fn ext(name: &str) -> Option<String> {
    extension_of_name(&chars(name)).map(|e| e.into_iter().collect())
}

#[test]
fn to_chars_and_back() {
    assert_eq!(to_chars("héllo"), vec!['h', 'é', 'l', 'l', 'o']);
    assert_eq!(from_chars(&chars("héllo █")), "héllo █");
    assert!(to_chars("").is_empty());
}

#[test]
fn ascii_lowercase_leaves_other_letters_alone() {
    let lower: String = to_ascii_lowercase(&chars("AbC-ÄZz09")).into_iter().collect();
    assert_eq!(lower, "abc-Äzz09");
}

#[test]
fn contains_finds_a_pattern_anywhere() {
    assert!(contains(&chars("hello world"), &chars("lo w")));
    assert!(contains(&chars("hello"), &chars("hello")));
    assert!(contains(&chars("hello"), &chars("")));
    assert!(contains(&chars(""), &chars("")));
    assert!(contains(&chars("aab"), &chars("ab")));
    assert!(!contains(&chars("hello"), &chars("hellos")));
    assert!(!contains(&chars("hello"), &chars("lol")));
    assert!(!contains(&chars(""), &chars("a")));
}

#[test]
fn same_chars_and_spells() {
    assert!(same_chars(&chars("zip"), &chars("zip")));
    assert!(!same_chars(&chars("zip"), &chars("zi")));
    assert!(!same_chars(&chars("zip"), &chars("zap")));
    assert!(spells(&chars("zip"), "zip"));
    assert!(!spells(&chars("ZIP"), "zip"));
}

#[test]
fn extension_follows_the_last_dot() {
    assert_eq!(ext("foo.ans"), Some("ans".to_string()));
    assert_eq!(ext("archive.tar.gz"), Some("gz".to_string()));
    assert_eq!(ext("foo."), Some("".to_string()));
    assert_eq!(ext("foo"), None);
    assert_eq!(ext(".bashrc"), None);
    assert_eq!(ext(".config.toml"), Some("toml".to_string()));
    assert_eq!(ext(""), None);
}

#[test]
fn extension_agrees_with_the_standard_library() {
    for name in ["a.b", "a", ".a", "a.b.c", "a.", ".a.b", "x.ANS", "a b.c d"] {
        let expected = std::path::Path::new(name)
            .extension()
            .map(|e| e.to_string_lossy().into_owned());
        assert_eq!(ext(name), expected, "{}", name);
    }
}

#[test]
fn extension_of_a_path_is_in_lower_case() {
    let lower: String = extension_lowercase("/samples/FOO.ANS").into_iter().collect();
    assert_eq!(lower, "ans");
    assert!(extension_lowercase("/samples/readme").is_empty());
    assert!(extension_lowercase("/samples.d/readme").is_empty());
    assert!(extension_lowercase("/").is_empty());
}

#[test]
fn file_name_is_the_last_component() {
    assert_eq!(get_file_name("/samples/FOO.ANS", false), "FOO.ANS");
    assert_eq!(get_file_name("/samples/dir/", false), "dir");
    assert_eq!(get_file_name("relative", false), "relative");
    assert_eq!(get_file_name("/", false), "");
    assert_eq!(get_file_name("/samples/..", false), "");
    assert_eq!(get_file_name("", false), "");
}

#[test]
fn drive_roots_are_listed_whole() {
    assert!(is_drive_root("C:\\"));
    assert!(is_drive_root("Z:\\"));
    assert!(!is_drive_root("c:\\"));
    assert!(!is_drive_root("C:"));
    assert!(!is_drive_root("C:\\x"));
    assert!(!is_drive_root("CC\\"));
    assert!(!is_drive_root(""));
    assert_eq!(get_file_name("C:\\", true), "C:\\");
}
